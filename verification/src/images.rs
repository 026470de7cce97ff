//! Images: their manifests, and the order in which an image and the images
//! it is made from are brought into the pool.

use crate::command::{call, fatal, tolerated, Step, StepView};
use crate::config::{Config, SettingsView};
use crate::errors::{Error, ErrorView, GenericError};
use crate::jail_config::{text_option_view, uuid_option_view};
use crate::text::{str_eq, texts};
use crate::uuid::{hyphenated_spec, Uuid};
use crate::zfs;
use vstd::prelude::*;

verus! {

/// The file of an image.
#[derive(Debug, PartialEq, Eq)]
pub struct ImageFile {
    pub size: u64,
    /// How the file is compressed: `bzip2` or `gzip`.
    pub compression: String,
    pub sha1: String,
}

/// The file of an image, as plain values.
pub struct ImageFileView {
    pub size: u64,
    pub compression: Seq<char>,
    pub sha1: Seq<char>,
}

impl View for ImageFile {
    type V = ImageFileView;

    open spec fn view(&self) -> ImageFileView {
        ImageFileView { size: self.size, compression: self.compression@, sha1: self.sha1@ }
    }
}

/// The views of a list of files.
pub open spec fn file_views(files: Seq<ImageFile>) -> Seq<ImageFileView> {
    Seq::new(files.len(), |i: int| files[i]@)
}

/// The manifest of an image.
#[derive(Debug, PartialEq, Eq)]
pub struct Image {
    pub v: u32,
    pub uuid: Uuid,
    pub name: String,
    pub version: String,
    pub image_type: String,
    pub os: String,
    /// The image that this one is made from, if any.
    pub origin: Option<Uuid>,
    pub files: Vec<ImageFile>,
    /// When the image was published, in seconds since 1970.
    pub published_at: i64,
    pub public: bool,
    pub state: String,
    pub disabled: bool,
}

/// The manifest of an image, as plain values.
pub struct ImageView {
    pub v: u32,
    pub uuid: Seq<u8>,
    pub name: Seq<char>,
    pub version: Seq<char>,
    pub image_type: Seq<char>,
    pub os: Seq<char>,
    pub origin: Option<Seq<u8>>,
    pub files: Seq<ImageFileView>,
    pub published_at: i64,
    pub public: bool,
    pub state: Seq<char>,
    pub disabled: bool,
}

impl View for Image {
    type V = ImageView;

    open spec fn view(&self) -> ImageView {
        ImageView {
            v: self.v,
            uuid: self.uuid@,
            name: self.name@,
            version: self.version@,
            image_type: self.image_type@,
            os: self.os@,
            origin: uuid_option_view(self.origin),
            files: file_views(self.files@),
            published_at: self.published_at,
            public: self.public,
            state: self.state@,
            disabled: self.disabled,
        }
    }
}

/// The views of a list of manifests.
pub open spec fn image_views(images: Seq<Image>) -> Seq<ImageView> {
    Seq::new(images.len(), |i: int| images[i]@)
}

/// The day of a time given in seconds since 1970, as year, month and day
/// with hyphens between them; `None` where the calendar does not reach
/// that far.
pub uninterp spec fn day_of(secs: i64) -> Option<Seq<char>>;

/// The day of a time given in seconds since 1970.
///
/// Calls `chrono::DateTime::from_timestamp` and formats what it gives with
/// `chrono::DateTime::format` under the pattern `%Y-%m-%d`, in universal
/// time. The text depends on the number of seconds alone; it is not stated
/// here but named.
#[verifier::external_body]
fn day_string(secs: i64) -> (r: Option<String>)
    ensures
        text_option_view(r) == day_of(secs),
{
    match chrono::DateTime::from_timestamp(secs, 0) {
        Some(t) => {
            let mut s = String::new();
            match t.format("%Y-%m-%d").write_to(&mut s) {
                Ok(_) => Some(s),
                Err(_) => None,
            }
        },
        None => None,
    }
}

/// The cells of the line that shows an image, given the day on which it
/// was published: the identifier, the name, the version, the system, the
/// type and the day.
pub open spec fn row_cells(image: ImageView, day: Seq<char>) -> Seq<Seq<char>> {
    seq![hyphenated_spec(image.uuid), image.name, image.version, image.os, image.image_type, day]
}

impl ImageView {
    /// The cells of the line that shows the image. The day is left empty
    /// where the calendar does not reach the time of publication.
    pub open spec fn row(self) -> Seq<Seq<char>> {
        row_cells(
            self,
            match day_of(self.published_at) {
                Some(day) => day,
                None => ""@,
            },
        )
    }
}

impl Image {
    /// The cells of the line that shows the image, with the day `day`.
    pub fn row_with(&self, day: &str) -> (r: Vec<String>)
        ensures
            texts(r@) == row_cells(self@, day@),
    {
        let mut cells: Vec<String> = Vec::new();
        cells.push(self.uuid.hyphenated());
        cells.push(self.name.clone());
        cells.push(self.version.clone());
        cells.push(self.os.clone());
        cells.push(self.image_type.clone());
        cells.push(String::from_str(day));
        assert(texts(cells@) =~= row_cells(self@, day@));
        cells
    }

    /// The cells of the line that shows the image.
    pub fn row(&self) -> (r: Vec<String>)
        ensures
            texts(r@) == self@.row(),
    {
        match day_string(self.published_at) {
            Some(day) => self.row_with(day.as_str()),
            None => self.row_with(""),
        }
    }

    /// The cells of the head line of a list of images.
    pub fn header() -> (r: Vec<String>)
        ensures
            texts(r@) == seq!["UUID"@, "NAME"@, "VERSION"@, "OS"@, "TYPE"@, "PUB"@],
    {
        let mut cells: Vec<String> = Vec::new();
        cells.push(String::from_str("UUID"));
        cells.push(String::from_str("NAME"));
        cells.push(String::from_str("VERSION"));
        cells.push(String::from_str("OS"));
        cells.push(String::from_str("TYPE"));
        cells.push(String::from_str("PUB"));
        assert(texts(cells@) =~= seq!["UUID"@, "NAME"@, "VERSION"@, "OS"@, "TYPE"@, "PUB"@]);
        cells
    }
}

/// How the file of an image is compressed.
#[derive(Debug, Clone, Copy, PartialEq, Eq, Structural)]
pub enum Compression {
    Bzip2,
    Gzip,
}

/// The compression that a name stands for.
pub open spec fn compression_spec(name: Seq<char>) -> Option<Compression> {
    if name == "bzip2"@ {
        Some(Compression::Bzip2)
    } else if name == "gzip"@ {
        Some(Compression::Gzip)
    } else {
        None
    }
}

/// The compression that a name stands for.
pub fn compression(name: &str) -> (r: Option<Compression>)
    ensures
        r == compression_spec(name@),
{
    if str_eq(name, "bzip2") {
        Some(Compression::Bzip2)
    } else if str_eq(name, "gzip") {
        Some(Compression::Gzip)
    } else {
        None
    }
}

/// The address of the manifest of an image in the repository.
pub open spec fn manifest_url_spec(settings: SettingsView, uuid: Seq<u8>) -> Seq<char> {
    settings.repo + "/"@ + hyphenated_spec(uuid)
}

/// The address of the file of an image in the repository.
pub open spec fn file_url_spec(settings: SettingsView, uuid: Seq<u8>) -> Seq<char> {
    manifest_url_spec(settings, uuid) + "/file"@
}

/// The dataset of an image in the pool.
pub open spec fn dataset_spec(settings: SettingsView, uuid: Seq<u8>) -> Seq<char> {
    settings.pool + "/"@ + hyphenated_spec(uuid)
}

/// The place where the manifest of an image is kept.
pub open spec fn manifest_path_spec(settings: SettingsView, uuid: Seq<u8>) -> Seq<char> {
    settings.image_dir + "/"@ + hyphenated_spec(uuid) + ".json"@
}

/// The address of the list of images in the repository.
pub fn avail(config: &Config) -> (r: String)
    ensures
        r@ == config@.repo,
{
    config.settings.repo.clone()
}

/// The address of the manifest of an image in the repository.
pub fn manifest_url(config: &Config, uuid: &Uuid) -> (r: String)
    ensures
        r@ == manifest_url_spec(config@, uuid@),
{
    let mut url = config.settings.repo.clone();
    url.append("/");
    let id = uuid.hyphenated();
    url.append(id.as_str());
    url
}

/// The dataset of an image in the pool.
pub fn dataset(config: &Config, uuid: &Uuid) -> (r: String)
    ensures
        r@ == dataset_spec(config@, uuid@),
{
    let mut name = config.settings.pool.clone();
    name.append("/");
    let id = uuid.hyphenated();
    name.append(id.as_str());
    name
}

/// What it takes to bring the file of an image into the pool.
#[derive(Debug, PartialEq, Eq)]
pub struct Transfer {
    /// The image.
    pub uuid: Uuid,
    /// The address of the file.
    pub url: String,
    /// How the file is compressed.
    pub compression: Compression,
    /// The call that takes the decompressed file on its input.
    pub receive: Step,
    /// The call that destroys what a failed transfer left in the pool; its
    /// own failure is passed over.
    pub cleanup: Step,
    /// The place to write the manifest to once the call succeeded.
    pub manifest_path: String,
}

/// What it takes to bring the file of an image into the pool, as plain
/// values.
pub struct TransferView {
    pub uuid: Seq<u8>,
    pub url: Seq<char>,
    pub compression: Compression,
    pub receive: StepView,
    pub cleanup: StepView,
    pub manifest_path: Seq<char>,
}

impl View for Transfer {
    type V = TransferView;

    open spec fn view(&self) -> TransferView {
        TransferView {
            uuid: self.uuid@,
            url: self.url@,
            compression: self.compression,
            receive: self.receive@,
            cleanup: self.cleanup@,
            manifest_path: self.manifest_path@,
        }
    }
}

/// What it takes to bring the file of an image into the pool: an image
/// without a file, or with a file under another compression than `bzip2`
/// or `gzip`, is refused.
pub open spec fn transfer_spec(settings: SettingsView, image: ImageView) -> Result<
    TransferView,
    ErrorView,
> {
    if image.files.len() == 0 {
        Err(ErrorView::Generic("image has no file"@))
    } else {
        match compression_spec(image.files[0].compression) {
            None => Err(ErrorView::Generic("unsupported compression"@)),
            Some(c) => Ok(
                TransferView {
                    uuid: image.uuid,
                    url: file_url_spec(settings, image.uuid),
                    compression: c,
                    receive: fatal(
                        call("zfs"@, seq!["receive"@, dataset_spec(settings, image.uuid)]),
                        "Failed to receive dataset"@,
                    ),
                    cleanup: tolerated(
                        call("zfs"@, seq!["destroy"@, dataset_spec(settings, image.uuid)]),
                    ),
                    manifest_path: manifest_path_spec(settings, image.uuid),
                },
            ),
        }
    }
}

/// What it takes to bring the file of an image into the pool.
pub fn transfer(config: &Config, image: &Image) -> (r: Result<Transfer, Error>)
    ensures
        match r {
            Ok(t) => transfer_spec(config@, image@) == Ok::<TransferView, ErrorView>(t@),
            Err(e) => transfer_spec(config@, image@) == Err::<TransferView, ErrorView>(e@),
        },
{
    if image.files.len() == 0 {
        return Err(Error::Generic(GenericError::new("image has no file")));
    }
    assert(image@.files[0] == image.files@[0]@);
    match compression(image.files[0].compression.as_str()) {
        None => Err(Error::Generic(GenericError::new("unsupported compression"))),
        Some(c) => {
            let mut url = manifest_url(config, &image.uuid);
            url.append("/file");
            let target = dataset(config, &image.uuid);
            let mut path = config.settings.image_dir.clone();
            path.append("/");
            let id = image.uuid.hyphenated();
            path.append(id.as_str());
            path.append(".json");
            Ok(
                Transfer {
                    uuid: image.uuid,
                    url,
                    compression: c,
                    receive: zfs::receive(target.as_str()),
                    cleanup: Step::tolerated(zfs::destroy(target.as_str()).command),
                    manifest_path: path,
                },
            )
        },
    }
}

/// What the caller is to do next for an import.
#[derive(Debug, PartialEq, Eq)]
pub enum ImportAction {
    /// Fetch the manifest of this image and ask the pool whether it holds
    /// the image's dataset.
    Fetch(Uuid),
    /// Bring the file of an image into the pool.
    Receive(Transfer),
    /// Nothing more: the image and all it is made from are in the pool.
    Done,
}

/// What the caller is to do next, as plain values.
pub enum ImportActionView {
    Fetch(Seq<u8>),
    Receive(TransferView),
    Done,
}

impl View for ImportAction {
    type V = ImportActionView;

    open spec fn view(&self) -> ImportActionView {
        match self {
            ImportAction::Fetch(u) => ImportActionView::Fetch(u@),
            ImportAction::Receive(t) => ImportActionView::Receive(t@),
            ImportAction::Done => ImportActionView::Done,
        }
    }
}

/// The import of an image: the images whose manifests are fetched and
/// which wait for the image they are made from, the one that was asked
/// for first.
#[derive(Debug)]
pub struct Import {
    pub pending: Vec<Image>,
}

impl View for Import {
    type V = Seq<ImageView>;

    open spec fn view(&self) -> Seq<ImageView> {
        image_views(self.pending@)
    }
}

/// The longest chain of images made from one another that an import
/// follows.
pub const MAX_DEPTH: usize = 64;

/// What follows once the image that the last of the waiting images is made
/// from is in the pool: that image is brought in, or nothing is left to do.
pub open spec fn resume_spec(settings: SettingsView, pending: Seq<ImageView>) -> (Seq<
    ImageView,
>, Result<ImportActionView, ErrorView>) {
    if pending.len() == 0 {
        (pending, Ok(ImportActionView::Done))
    } else {
        (
            pending.drop_last(),
            match transfer_spec(settings, pending.last()) {
                Ok(t) => Ok(ImportActionView::Receive(t)),
                Err(e) => Err(e),
            },
        )
    }
}

/// What follows once a manifest is fetched: an image that the pool holds
/// is passed over; an image made from another waits while that one is
/// fetched, unless too many wait already; any other image is brought in.
pub open spec fn fetched_spec(
    settings: SettingsView,
    pending: Seq<ImageView>,
    image: ImageView,
    present: bool,
) -> (Seq<ImageView>, Result<ImportActionView, ErrorView>) {
    if present {
        resume_spec(settings, pending)
    } else {
        match image.origin {
            Some(origin) => if pending.len() >= MAX_DEPTH {
                (pending, Err(ErrorView::Generic("too many images in a chain"@)))
            } else {
                (pending.push(image), Ok(ImportActionView::Fetch(origin)))
            },
            None => (
                pending,
                match transfer_spec(settings, image) {
                    Ok(t) => Ok(ImportActionView::Receive(t)),
                    Err(e) => Err(e),
                },
            ),
        }
    }
}

impl Import {
    /// The import of the image `uuid`; its manifest is the first thing to
    /// fetch.
    pub fn start(uuid: &Uuid) -> (r: (Import, ImportAction))
        ensures
            r.0@.len() == 0,
            r.1@ == ImportActionView::Fetch(uuid@),
    {
        (Import { pending: Vec::new() }, ImportAction::Fetch(*uuid))
    }

    /// What follows once the last image that was brought in, or passed
    /// over, is in the pool.
    pub fn received(&mut self, config: &Config) -> (r: Result<ImportAction, Error>)
        ensures
            final(self)@ == resume_spec(config@, old(self)@).0,
            match r {
                Ok(a) => resume_spec(config@, old(self)@).1 == Ok::<ImportActionView, ErrorView>(
                    a@,
                ),
                Err(e) => resume_spec(config@, old(self)@).1 == Err::<
                    ImportActionView,
                    ErrorView,
                >(e@),
            },
    {
        let ghost before = self@;
        match self.pending.pop() {
            None => Ok(ImportAction::Done),
            Some(image) => {
                assert(self@ =~= before.drop_last());
                assert(before.last() == image@);
                match transfer(config, &image) {
                    Ok(t) => Ok(ImportAction::Receive(t)),
                    Err(e) => Err(e),
                }
            },
        }
    }

    /// What follows once the manifest `image` is fetched; `present` says
    /// whether the pool holds the dataset of the image.
    pub fn fetched(&mut self, config: &Config, image: Image, present: bool) -> (r: Result<
        ImportAction,
        Error,
    >)
        ensures
            final(self)@ == fetched_spec(config@, old(self)@, image@, present).0,
            match r {
                Ok(a) => fetched_spec(config@, old(self)@, image@, present).1 == Ok::<
                    ImportActionView,
                    ErrorView,
                >(a@),
                Err(e) => fetched_spec(config@, old(self)@, image@, present).1 == Err::<
                    ImportActionView,
                    ErrorView,
                >(e@),
            },
    {
        if present {
            return self.received(config);
        }
        match image.origin {
            Some(origin) => {
                if self.pending.len() >= MAX_DEPTH {
                    Err(Error::Generic(GenericError::new("too many images in a chain")))
                } else {
                    let ghost before = self@;
                    self.pending.push(image);
                    assert(self@ =~= before.push(image@));
                    Ok(ImportAction::Fetch(origin))
                }
            },
            None => match transfer(config, &image) {
                Ok(t) => Ok(ImportAction::Receive(t)),
                Err(e) => Err(e),
            },
        }
    }
}

/// Whether each of the waiting images is made from the one after it, and
/// the last of them from the image `awaited`.
pub open spec fn chained(pending: Seq<ImageView>, awaited: Seq<u8>) -> bool {
    &&& forall|i: int|
        0 <= i < pending.len() - 1 ==> (#[trigger] pending[i]).origin == Some(pending[i + 1].uuid)
    &&& pending.len() > 0 ==> pending.last().origin == Some(awaited)
}

/// Once the manifest of the awaited image is fetched: where another image
/// is fetched next, it is the one that the image is made from, and the
/// image waits for it; where an image is brought in, it is the fetched one
/// and made from no other, or it is the last of those that waited, and
/// the image it is made from is the fetched one, which the pool holds.
pub proof fn lemma_fetched_in_order(
    settings: SettingsView,
    pending: Seq<ImageView>,
    image: ImageView,
    present: bool,
)
    requires
        chained(pending, image.uuid),
    ensures
        match fetched_spec(settings, pending, image, present) {
            (after, Ok(ImportActionView::Fetch(next))) => {
                &&& !present
                &&& image.origin == Some(next)
                &&& after == pending.push(image)
                &&& chained(after, next)
            },
            (after, Ok(ImportActionView::Receive(t))) => if present {
                &&& pending.len() > 0
                &&& t.uuid == pending.last().uuid
                &&& pending.last().origin == Some(image.uuid)
                &&& chained(after, t.uuid)
            } else {
                &&& image.origin is None
                &&& t.uuid == image.uuid
                &&& after == pending
            },
            (after, Ok(ImportActionView::Done)) => present && pending.len() == 0,
            (after, Err(_)) => true,
        },
{
    if present {
        lemma_received_in_order(settings, pending, image.uuid);
    } else {
        match image.origin {
            Some(origin) => {
                if pending.len() < MAX_DEPTH {
                    let after = pending.push(image);
                    assert forall|i: int| 0 <= i < after.len() - 1 implies (
                    #[trigger] after[i]).origin == Some(after[i + 1].uuid) by {
                        if i < pending.len() - 1 {
                            assert(after[i] == pending[i]);
                            assert(after[i + 1] == pending[i + 1]);
                        } else {
                            assert(after[i] == pending.last());
                        }
                    }
                }
            },
            None => {},
        }
    }
}

/// Once the image `received` is in the pool: where an image is brought in
/// next, it is the last of those that waited, and it is made from
/// `received`; where nothing is left to do, no image waited.
pub proof fn lemma_received_in_order(
    settings: SettingsView,
    pending: Seq<ImageView>,
    received: Seq<u8>,
)
    requires
        chained(pending, received),
    ensures
        match resume_spec(settings, pending) {
            (after, Ok(ImportActionView::Receive(t))) => {
                &&& pending.len() > 0
                &&& t.uuid == pending.last().uuid
                &&& pending.last().origin == Some(received)
                &&& after == pending.drop_last()
                &&& chained(after, t.uuid)
            },
            (after, Ok(ImportActionView::Done)) => pending.len() == 0,
            (after, Ok(ImportActionView::Fetch(_))) => false,
            (after, Err(_)) => true,
        },
{
    if pending.len() > 0 {
        let after = pending.drop_last();
        assert forall|i: int| 0 <= i < after.len() - 1 implies (#[trigger] after[i]).origin
            == Some(after[i + 1].uuid) by {
            assert(after[i] == pending[i]);
            assert(after[i + 1] == pending[i + 1]);
        }
        if after.len() > 0 {
            let k = after.len() - 1;
            assert(after.last() == pending[k]);
            assert(pending[k].origin == Some(pending[k + 1].uuid));
        }
    }
}

} // verus!
