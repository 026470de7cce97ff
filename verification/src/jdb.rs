//! The database of jails: the index of the jails and, beside it, one
//! configuration file for each.

use crate::config::Config;
use crate::errors::{ConflictError, Error, ErrorView, NotFoundError};
use crate::jail_config::{JailConfig, JailConfigView};
use crate::jails::{Jail, JailList, JailOSEntryView};
use crate::text::{decimal, join, join_spec, texts, u64_to_string};
use crate::uuid::{hyphenated_spec, Uuid};
use vstd::prelude::*;

verus! {

/// The entry of a jail in the index.
#[derive(Debug)]
pub struct IdxEntry {
    /// The version of the entry's layout.
    pub version: u32,
    /// The identifier of the jail.
    pub uuid: Uuid,
    /// The dataset that holds the jail.
    pub root: String,
    /// The state of the jail: `installed` or `installing`.
    pub state: String,
    /// The type of the jail.
    pub jail_type: String,
}

/// The entry of a jail in the index, as plain values.
pub struct IdxEntryView {
    pub version: u32,
    pub uuid: Seq<u8>,
    pub root: Seq<char>,
    pub state: Seq<char>,
    pub jail_type: Seq<char>,
}

impl View for IdxEntry {
    type V = IdxEntryView;

    open spec fn view(&self) -> IdxEntryView {
        IdxEntryView {
            version: self.version,
            uuid: self.uuid@,
            root: self.root@,
            state: self.state@,
            jail_type: self.jail_type@,
        }
    }
}

impl Clone for IdxEntry {
    fn clone(&self) -> (r: IdxEntry)
        ensures
            r@ == self@,
    {
        IdxEntry {
            version: self.version,
            uuid: self.uuid,
            root: self.root.clone(),
            state: self.state.clone(),
            jail_type: self.jail_type.clone(),
        }
    }
}

impl PartialEq for IdxEntry {
    fn eq(&self, other: &IdxEntry) -> (r: bool) {
        self.uuid.same(&other.uuid)
    }
}

impl vstd::std_specs::cmp::PartialEqSpecImpl for IdxEntry {
    open spec fn obeys_eq_spec() -> bool {
        true
    }

    open spec fn eq_spec(&self, other: &IdxEntry) -> bool {
        self.uuid@ == other.uuid@
    }
}

/// The views of a list of entries.
pub open spec fn entry_views(entries: Seq<IdxEntry>) -> Seq<IdxEntryView> {
    Seq::new(entries.len(), |i: int| entries[i]@)
}

/// The index of the database: the entries of the jails in the order in
/// which they were inserted.
#[derive(Debug)]
pub struct Index {
    pub version: u32,
    pub entries: Vec<IdxEntry>,
}

/// Whether no identifier occurs twice among the entries.
pub open spec fn distinct(entries: Seq<IdxEntryView>) -> bool {
    forall|i: int, j: int|
        0 <= i < j < entries.len() ==> (#[trigger] entries[i]).uuid != (#[trigger] entries[j]).uuid
}

/// Whether an entry with the identifier `uuid` is among the entries.
pub open spec fn contains_uuid(entries: Seq<IdxEntryView>, uuid: Seq<u8>) -> bool {
    exists|i: int| 0 <= i < entries.len() && (#[trigger] entries[i]).uuid == uuid
}

/// The entry that an insertion makes for the jail `uuid` in the pool
/// `pool`.
pub open spec fn new_entry(pool: Seq<char>, uuid: Seq<u8>) -> IdxEntryView {
    IdxEntryView {
        version: 0,
        uuid,
        root: pool + "/"@ + hyphenated_spec(uuid),
        state: "installed"@,
        jail_type: "base"@,
    }
}

/// The database of jails, as plain values.
pub struct JDBView {
    pub conf_dir: Seq<char>,
    pub pool: Seq<char>,
    pub version: u32,
    pub entries: Seq<IdxEntryView>,
    pub jails: Map<Seq<char>, u64>,
}

impl JDBView {
    /// The place of the first entry with the identifier `uuid`.
    pub open spec fn is_at(self, uuid: Seq<u8>, i: int) -> bool {
        &&& 0 <= i < self.entries.len()
        &&& self.entries[i].uuid == uuid
        &&& forall|j: int| 0 <= j < i ==> (#[trigger] self.entries[j]).uuid != uuid
    }

    /// The database with an entry for the jail `uuid` after the others.
    pub open spec fn inserted(self, uuid: Seq<u8>) -> JDBView {
        JDBView { entries: self.entries.push(new_entry(self.pool, uuid)), ..self }
    }

    /// The database without the entry at `i`.
    pub open spec fn removed(self, i: int) -> JDBView {
        JDBView { entries: self.entries.remove(i), ..self }
    }

    /// The place of the configuration file of the jail `uuid`.
    pub open spec fn config_path(self, uuid: Seq<u8>) -> Seq<char> {
        self.conf_dir + "/"@ + hyphenated_spec(uuid) + ".json"@
    }

    /// The place of the index file.
    pub open spec fn index_path(self) -> Seq<char> {
        self.conf_dir + "/index"@
    }

    /// The jail `uuid` as the host reports it: the outer jail under the
    /// identifier, the inner one under the identifier twice with a dot
    /// between.
    pub open spec fn outer(self, uuid: Seq<u8>) -> Option<JailOSEntryView> {
        let name = hyphenated_spec(uuid);
        if self.jails.contains_key(name) {
            Some(JailOSEntryView { uuid: name, id: self.jails[name] })
        } else {
            None
        }
    }

    pub open spec fn inner(self, uuid: Seq<u8>) -> Option<JailOSEntryView> {
        let name = hyphenated_spec(uuid) + "."@ + hyphenated_spec(uuid);
        if self.jails.contains_key(name) {
            Some(JailOSEntryView { uuid: name, id: self.jails[name] })
        } else {
            None
        }
    }
}

/// The database of jails: the index, and what the host reports of the
/// jails that run. The configuration files stay on disk.
#[derive(Debug)]
pub struct JDB {
    pub conf_dir: String,
    pub pool: String,
    pub index: Index,
    pub jails: JailList,
}

impl View for JDB {
    type V = JDBView;

    open spec fn view(&self) -> JDBView {
        JDBView {
            conf_dir: self.conf_dir@,
            pool: self.pool@,
            version: self.index.version,
            entries: entry_views(self.index.entries@),
            jails: self.jails@,
        }
    }
}

/// Whether the identifier of the entry at `i` occurs again after it.
pub open spec fn repeated_at(entries: Seq<IdxEntryView>, i: int) -> bool {
    exists|j: int| i < j < entries.len() && (#[trigger] entries[j]).uuid == entries[i].uuid
}

/// Whether `i` is the place of the first entry whose identifier occurs
/// again after it.
pub open spec fn first_repeat_at(entries: Seq<IdxEntryView>, i: int) -> bool {
    &&& 0 <= i < entries.len()
    &&& repeated_at(entries, i)
    &&& forall|k: int| 0 <= k < i ==> !repeated_at(entries, k)
}

/// The place of the first entry whose identifier occurs again after it, if
/// there is one.
fn first_repeat(entries: &Vec<IdxEntry>) -> (r: Option<usize>)
    ensures
        r is None == distinct(entry_views(entries@)),
        r matches Some(i) ==> first_repeat_at(entry_views(entries@), i as int),
{
    let ghost views = entry_views(entries@);
    let mut i: usize = 0;
    while i < entries.len()
        invariant
            i <= entries@.len(),
            views == entry_views(entries@),
            forall|k: int| 0 <= k < i ==> !repeated_at(views, k),
        decreases entries@.len() - i,
    {
        let mut j: usize = i + 1;
        while j < entries.len()
            invariant
                i < j <= entries@.len(),
                views == entry_views(entries@),
                forall|k: int| 0 <= k < i ==> !repeated_at(views, k),
                forall|b: int| i < b < j ==> (#[trigger] views[b]).uuid != views[i as int].uuid,
            decreases entries@.len() - j,
        {
            if entries[i].uuid.same(&entries[j].uuid) {
                assert(views[j as int].uuid == views[i as int].uuid);
                assert(repeated_at(views, i as int));
                assert(!distinct(views));
                return Some(i);
            }
            j = j + 1;
        }
        assert(!repeated_at(views, i as int));
        i = i + 1;
    }
    assert forall|a: int, b: int| 0 <= a < b < views.len() implies (#[trigger] views[a]).uuid != (
    #[trigger] views[b]).uuid by {
        assert(!repeated_at(views, a));
    }
    None
}

impl JDB {
    /// Whether the database is in order: no identifier occurs twice in the
    /// index. A database that was opened is in order, and every operation
    /// keeps it so.
    pub open spec fn wf(&self) -> bool {
        distinct(self@.entries)
    }

    /// Opens the database with the index that was read from disk, or with
    /// an empty index where none was there, and with the jails that the
    /// host reports.
    ///
    /// An index in which an identifier occurs twice is refused with a
    /// conflict on the first identifier that occurs again.
    pub fn open(config: &Config, index: Option<Index>, jails: JailList) -> (r: Result<JDB, Error>)
        ensures
            match r {
                Ok(db) => {
                    &&& db.wf()
                    &&& db@.conf_dir == config@.conf_dir
                    &&& db@.pool == config@.pool
                    &&& db@.jails == jails@
                    &&& match index {
                        Some(index) => db@.version == index.version && db@.entries == entry_views(
                            index.entries@,
                        ),
                        None => db@.version == 0 && db@.entries.len() == 0,
                    }
                },
                Err(e) => match (index, e@) {
                    (Some(index), ErrorView::Conflict(uuid)) => {
                        &&& !distinct(entry_views(index.entries@))
                        &&& exists|i: int|
                            first_repeat_at(entry_views(index.entries@), i) && uuid
                                == entry_views(index.entries@)[i].uuid
                    },
                    _ => false,
                },
            },
    {
        let index = match index {
            Some(index) => index,
            None => Index { version: 0, entries: Vec::new() },
        };
        match first_repeat(&index.entries) {
            Some(i) => {
                assert(entry_views(index.entries@)[i as int].uuid == index.entries@[i as int].uuid@);
                assert(first_repeat_at(entry_views(index.entries@), i as int));
                Err(Error::Conflict(ConflictError::new(&index.entries[i].uuid)))
            },
            None => Ok(
                JDB {
                    conf_dir: config.settings.conf_dir.clone(),
                    pool: config.settings.pool.clone(),
                    index,
                    jails,
                },
            ),
        }
    }

    /// The place of the entry of the jail `uuid` in the index.
    pub fn find(&self, uuid: &Uuid) -> (r: Option<usize>)
        ensures
            r is Some == contains_uuid(self@.entries, uuid@),
            r matches Some(i) ==> self@.is_at(uuid@, i as int),
    {
        let mut i: usize = 0;
        while i < self.index.entries.len()
            invariant
                i <= self.index.entries@.len(),
                forall|j: int| 0 <= j < i ==> (#[trigger] self@.entries[j]).uuid != uuid@,
            decreases self.index.entries@.len() - i,
        {
            if self.index.entries[i].uuid.same(uuid) {
                assert(self@.entries[i as int].uuid == uuid@);
                return Some(i);
            }
            i = i + 1;
        }
        None
    }

    /// The place of the index file.
    pub fn index_path(&self) -> (r: String)
        ensures
            r@ == self@.index_path(),
    {
        let mut s = self.conf_dir.clone();
        s.append("/index");
        s
    }

    /// The place of the configuration file of the jail `uuid`.
    pub fn config_path(&self, uuid: &Uuid) -> (r: String)
        ensures
            r@ == self@.config_path(uuid@),
    {
        let mut s = self.conf_dir.clone();
        s.append("/");
        let id = uuid.hyphenated();
        s.append(id.as_str());
        s.append(".json");
        s
    }

    /// Enters the jail of the configuration `config` into the index, after
    /// the entries that are there.
    ///
    /// Fails with a conflict, and changes nothing, exactly where the index
    /// has an entry with the identifier of the jail.
    pub fn insert(&mut self, config: &JailConfig) -> (r: Result<IdxEntry, Error>)
        ensures
            old(self).wf() ==> final(self).wf(),
            match r {
                Ok(e) => {
                    &&& !contains_uuid(old(self)@.entries, config@.uuid)
                    &&& e@ == new_entry(old(self)@.pool, config@.uuid)
                    &&& final(self)@ == old(self)@.inserted(config@.uuid)
                },
                Err(e) => {
                    &&& contains_uuid(old(self)@.entries, config@.uuid)
                    &&& e@ == ErrorView::Conflict(config@.uuid)
                    &&& final(self)@ == old(self)@
                },
            },
    {
        match self.find(&config.uuid) {
            Some(_) => Err(Error::Conflict(ConflictError::new(&config.uuid))),
            None => {
                let mut root = self.pool.clone();
                root.append("/");
                let id = config.uuid.hyphenated();
                root.append(id.as_str());
                let e = IdxEntry {
                    version: 0,
                    uuid: config.uuid,
                    state: String::from_str("installed"),
                    jail_type: String::from_str("base"),
                    root,
                };
                let copy = e.clone();
                let ghost before = self@.entries;
                self.index.entries.push(e);
                proof {
                    assert(self@.entries =~= before.push(copy@));
                    if distinct(before) {
                        assert forall|i: int, j: int|
                            0 <= i < j < self@.entries.len() implies (
                        #[trigger] self@.entries[i]).uuid != (
                        #[trigger] self@.entries[j]).uuid by {
                            if j == before.len() {
                                assert(before[i].uuid != config@.uuid);
                            } else {
                                assert(before[i].uuid != before[j].uuid);
                            }
                        }
                    }
                }
                Ok(copy)
            },
        }
    }

    /// Takes the entry of the jail `uuid` out of the index.
    ///
    /// Fails with a lookup error, and changes nothing, exactly where the
    /// index has no such entry; else returns the place that the entry had.
    pub fn remove(&mut self, uuid: &Uuid) -> (r: Result<usize, Error>)
        ensures
            old(self).wf() ==> final(self).wf(),
            match r {
                Ok(i) => {
                    &&& old(self)@.is_at(uuid@, i as int)
                    &&& final(self)@ == old(self)@.removed(i as int)
                    &&& old(self).wf() ==> !contains_uuid(final(self)@.entries, uuid@)
                },
                Err(e) => {
                    &&& !contains_uuid(old(self)@.entries, uuid@)
                    &&& e@ == ErrorView::NotFound(uuid@)
                    &&& final(self)@ == old(self)@
                },
            },
    {
        match self.find(uuid) {
            None => Err(Error::NotFound(NotFoundError::new(uuid))),
            Some(i) => {
                let ghost before = self@.entries;
                self.index.entries.remove(i);
                proof {
                    let after = self@.entries;
                    assert(after =~= before.remove(i as int));
                    if distinct(before) {
                        lemma_remove_distinct(before, i as int);
                    }
                }
                Ok(i)
            },
        }
    }

    /// The place of the entry of the jail whose configuration is to be
    /// replaced by `config`. The index stays as it is.
    ///
    /// Fails with a lookup error exactly where the index has no entry for
    /// the jail.
    pub fn update(&self, config: &JailConfig) -> (r: Result<usize, Error>)
        ensures
            match r {
                Ok(i) => self@.is_at(config@.uuid, i as int),
                Err(e) => !contains_uuid(self@.entries, config@.uuid) && e@ == ErrorView::NotFound(
                    config@.uuid,
                ),
            },
    {
        match self.find(&config.uuid) {
            None => Err(Error::NotFound(NotFoundError::new(&config.uuid))),
            Some(i) => Ok(i),
        }
    }

    /// The jail `uuid` with its configuration `config`, which was read from
    /// the jail's configuration file, and with what the host reports of it.
    ///
    /// Fails with a lookup error exactly where the index has no entry for
    /// the jail.
    pub fn get(&self, uuid: &Uuid, config: JailConfig) -> (r: Result<Jail, Error>)
        ensures
            match r {
                Ok(jail) => {
                    &&& exists|i: int| self@.is_at(uuid@, i) && jail@.idx == self@.entries[i]
                    &&& jail@.config == config@
                    &&& jail@.outer == self@.outer(uuid@)
                    &&& jail@.inner == self@.inner(uuid@)
                },
                Err(e) => !contains_uuid(self@.entries, uuid@) && e@ == ErrorView::NotFound(uuid@),
            },
    {
        match self.find(uuid) {
            None => Err(Error::NotFound(NotFoundError::new(uuid))),
            Some(i) => {
                let name = uuid.hyphenated();
                let mut nested = name.clone();
                nested.append(".");
                nested.append(name.as_str());
                let outer = self.jails.get(name.as_str());
                let inner = self.jails.get(nested.as_str());
                let jail = Jail { idx: self.index.entries[i].clone(), config, inner, outer };
                assert(self@.is_at(uuid@, i as int) && jail@.idx == self@.entries[i as int]);
                Ok(jail)
            },
        }
    }

    /// The entries of the index, in the order in which they were inserted.
    pub fn enumerate(&self) -> (r: Vec<IdxEntry>)
        ensures
            entry_views(r@) == self@.entries,
    {
        let mut out: Vec<IdxEntry> = Vec::new();
        let mut i: usize = 0;
        while i < self.index.entries.len()
            invariant
                i <= self.index.entries@.len(),
                out@.len() == i,
                forall|j: int| 0 <= j < i ==> out@[j]@ == self.index.entries@[j]@,
            decreases self.index.entries@.len() - i,
        {
            out.push(self.index.entries[i].clone());
            i = i + 1;
        }
        assert(entry_views(out@) =~= self@.entries);
        out
    }
}

/// Entries with distinct identifiers stay so when one is taken out, and
/// the identifier of that one is then gone.
pub proof fn lemma_remove_distinct(entries: Seq<IdxEntryView>, i: int)
    requires
        distinct(entries),
        0 <= i < entries.len(),
    ensures
        distinct(entries.remove(i)),
        !contains_uuid(entries.remove(i), entries[i].uuid),
{
    let after = entries.remove(i);
    assert forall|a: int, b: int| 0 <= a < b < after.len() implies (#[trigger] after[a]).uuid != (
    #[trigger] after[b]).uuid by {
        let a0 = if a < i {
            a
        } else {
            a + 1
        };
        let b0 = if b < i {
            b
        } else {
            b + 1
        };
        assert(after[a] == entries[a0]);
        assert(after[b] == entries[b0]);
    }
    assert forall|a: int| 0 <= a < after.len() implies (#[trigger] after[a]).uuid
        != entries[i].uuid by {
        let a0 = if a < i {
            a
        } else {
            a + 1
        };
        assert(after[a] == entries[a0]);
        if a0 < i {
            assert(entries[a0].uuid != entries[i].uuid);
        } else {
            assert(entries[i].uuid != entries[a0].uuid);
        }
    }
}

/// A change to the files of the database.
#[derive(Debug, PartialEq, Eq)]
pub enum FileOp {
    /// The index file is written anew from the index in memory.
    WriteIndex,
    /// The configuration file of a jail is written.
    WriteConfig(Uuid),
    /// The configuration file of a jail is deleted.
    RemoveConfig(Uuid),
}

/// A change to the files of the database, as plain values.
pub enum FileOpView {
    WriteIndex,
    WriteConfig(Seq<u8>),
    RemoveConfig(Seq<u8>),
}

impl View for FileOp {
    type V = FileOpView;

    open spec fn view(&self) -> FileOpView {
        match self {
            FileOp::WriteIndex => FileOpView::WriteIndex,
            FileOp::WriteConfig(u) => FileOpView::WriteConfig(u@),
            FileOp::RemoveConfig(u) => FileOpView::RemoveConfig(u@),
        }
    }
}

/// The views of a list of changes to files.
pub open spec fn file_op_views(ops: Seq<FileOp>) -> Seq<FileOpView> {
    Seq::new(ops.len(), |i: int| ops[i]@)
}

/// The jails that have a configuration file once the changes `ops` are
/// made in their order, given those that had one before.
pub open spec fn configs_after(files: Set<Seq<u8>>, ops: Seq<FileOpView>) -> Set<Seq<u8>>
    decreases ops.len(),
{
    if ops.len() == 0 {
        files
    } else {
        let before = configs_after(files, ops.drop_last());
        match ops.last() {
            FileOpView::WriteIndex => before,
            FileOpView::WriteConfig(u) => before.insert(u),
            FileOpView::RemoveConfig(u) => before.remove(u),
        }
    }
}

/// The changes to files that go with an insertion: the index is written,
/// then the configuration file of the jail.
pub open spec fn insert_ops(uuid: Seq<u8>) -> Seq<FileOpView> {
    seq![FileOpView::WriteIndex, FileOpView::WriteConfig(uuid)]
}

/// The changes to files that go with a removal: the configuration file of
/// the jail is deleted, then the index is written.
pub open spec fn remove_ops(uuid: Seq<u8>) -> Seq<FileOpView> {
    seq![FileOpView::RemoveConfig(uuid), FileOpView::WriteIndex]
}

/// The change to files that goes with an update: the configuration file of
/// the jail is written.
pub open spec fn update_ops(uuid: Seq<u8>) -> Seq<FileOpView> {
    seq![FileOpView::WriteConfig(uuid)]
}

/// Whether every entry has a configuration file.
pub open spec fn covered(entries: Seq<IdxEntryView>, files: Set<Seq<u8>>) -> bool {
    forall|i: int| 0 <= i < entries.len() ==> files.contains((#[trigger] entries[i]).uuid)
}

/// Where every entry has its configuration file, that is still so after an
/// insertion and the changes to files that go with it.
pub proof fn lemma_insert_keeps_configs(db: JDBView, files: Set<Seq<u8>>, uuid: Seq<u8>)
    requires
        covered(db.entries, files),
    ensures
        covered(db.inserted(uuid).entries, configs_after(files, insert_ops(uuid))),
{
    let ops = insert_ops(uuid);
    reveal_with_fuel(configs_after, 3);
    assert(ops.drop_last() =~= seq![FileOpView::WriteIndex]);
    assert(ops.drop_last().drop_last() =~= Seq::<FileOpView>::empty());
    assert(configs_after(files, ops) == files.insert(uuid));
    let after = db.inserted(uuid).entries;
    assert forall|i: int| 0 <= i < after.len() implies files.insert(uuid).contains(
        (#[trigger] after[i]).uuid,
    ) by {
        if i < db.entries.len() {
            assert(after[i] == db.entries[i]);
        }
    }
}

/// Where every entry has its configuration file, that is still so after a
/// removal and the changes to files that go with it; the jail is then
/// neither in the index nor has it a configuration file.
pub proof fn lemma_remove_keeps_configs(db: JDBView, files: Set<Seq<u8>>, uuid: Seq<u8>, i: int)
    requires
        distinct(db.entries),
        covered(db.entries, files),
        db.is_at(uuid, i),
    ensures
        covered(db.removed(i).entries, configs_after(files, remove_ops(uuid))),
        !contains_uuid(db.removed(i).entries, uuid),
        !configs_after(files, remove_ops(uuid)).contains(uuid),
{
    let ops = remove_ops(uuid);
    reveal_with_fuel(configs_after, 3);
    assert(ops.drop_last() =~= seq![FileOpView::RemoveConfig(uuid)]);
    assert(ops.drop_last().drop_last() =~= Seq::<FileOpView>::empty());
    assert(configs_after(files, ops) == files.remove(uuid));
    lemma_remove_distinct(db.entries, i);
    let after = db.removed(i).entries;
    assert forall|a: int| 0 <= a < after.len() implies files.remove(uuid).contains(
        (#[trigger] after[a]).uuid,
    ) by {
        let a0 = if a < i {
            a
        } else {
            a + 1
        };
        assert(after[a] == db.entries[a0]);
    }
}

/// Where every entry has its configuration file, that is still so after an
/// update and the change to files that goes with it.
pub proof fn lemma_update_keeps_configs(db: JDBView, files: Set<Seq<u8>>, uuid: Seq<u8>)
    requires
        covered(db.entries, files),
    ensures
        covered(db.entries, configs_after(files, update_ops(uuid))),
{
    let ops = update_ops(uuid);
    reveal_with_fuel(configs_after, 2);
    assert(ops.drop_last() =~= Seq::<FileOpView>::empty());
    assert(configs_after(files, ops) == files.insert(uuid));
}

/// Taking the entry that an insertion made out again gives the database
/// as it was.
pub proof fn lemma_insert_undone(db: JDBView, uuid: Seq<u8>)
    requires
        !contains_uuid(db.entries, uuid),
    ensures
        db.inserted(uuid).is_at(uuid, db.entries.len() as int),
        db.inserted(uuid).removed(db.entries.len() as int) == db,
{
    let after = db.inserted(uuid);
    assert forall|j: int| 0 <= j < db.entries.len() implies (#[trigger] after.entries[j]).uuid
        != uuid by {
        assert(after.entries[j] == db.entries[j]);
    }
    assert(after.entries.remove(db.entries.len() as int) =~= db.entries);
}

/// The cells of the line that shows a jail: the identifier, the type, the
/// memory, the state, the number of the outer jail and the alias. A jail
/// that runs is shown as `running`, one that does not with the state of
/// its entry and the number 0.
pub open spec fn row_spec(db: JDBView, entry: IdxEntryView, conf: JailConfigView) -> Seq<
    Seq<char>,
> {
    let id = match db.outer(conf.uuid) {
        Some(e) => e.id,
        None => 0,
    };
    seq![
        hyphenated_spec(conf.uuid),
        "OS"@,
        decimal(conf.max_physical_memory as nat),
        if id == 0 {
            entry.state
        } else {
            "running"@
        },
        decimal(id as nat),
        conf.alias,
    ]
}

impl JDB {
    /// The changes to files that go with the insertion of the jail `uuid`.
    pub fn insert_files(uuid: &Uuid) -> (r: Vec<FileOp>)
        ensures
            file_op_views(r@) == insert_ops(uuid@),
    {
        let mut ops: Vec<FileOp> = Vec::new();
        ops.push(FileOp::WriteIndex);
        ops.push(FileOp::WriteConfig(*uuid));
        assert(file_op_views(ops@) =~= insert_ops(uuid@));
        ops
    }

    /// The changes to files that go with the removal of the jail `uuid`.
    pub fn remove_files(uuid: &Uuid) -> (r: Vec<FileOp>)
        ensures
            file_op_views(r@) == remove_ops(uuid@),
    {
        let mut ops: Vec<FileOp> = Vec::new();
        ops.push(FileOp::RemoveConfig(*uuid));
        ops.push(FileOp::WriteIndex);
        assert(file_op_views(ops@) =~= remove_ops(uuid@));
        ops
    }

    /// The change to files that goes with an update of the jail `uuid`.
    pub fn update_files(uuid: &Uuid) -> (r: Vec<FileOp>)
        ensures
            file_op_views(r@) == update_ops(uuid@),
    {
        let mut ops: Vec<FileOp> = Vec::new();
        ops.push(FileOp::WriteConfig(*uuid));
        assert(file_op_views(ops@) =~= update_ops(uuid@));
        ops
    }

    /// Takes back the insertion of the jail `uuid` after one of the changes
    /// to files that go with it failed: the entry leaves the index, and the
    /// index file is to be written again where it had been written with
    /// the entry.
    pub fn undo_insert(&mut self, uuid: &Uuid, index_written: bool) -> (r: Vec<FileOp>)
        ensures
            old(self).wf() ==> final(self).wf() && !contains_uuid(final(self)@.entries, uuid@),
            contains_uuid(old(self)@.entries, uuid@) ==> exists|i: int|
                old(self)@.is_at(uuid@, i) && final(self)@ == old(self)@.removed(i),
            !contains_uuid(old(self)@.entries, uuid@) ==> final(self)@ == old(self)@,
            file_op_views(r@) == (if index_written {
                seq![FileOpView::WriteIndex]
            } else {
                Seq::<FileOpView>::empty()
            }),
    {
        let mut ops: Vec<FileOp> = Vec::new();
        match self.find(uuid) {
            Some(i) => {
                let ghost before = self@;
                self.index.entries.remove(i);
                proof {
                    assert(self@.entries =~= before.entries.remove(i as int));
                    if distinct(before.entries) {
                        lemma_remove_distinct(before.entries, i as int);
                    }
                    assert(before.is_at(uuid@, i as int) && self@ == before.removed(i as int));
                }
            },
            None => {},
        }
        if index_written {
            ops.push(FileOp::WriteIndex);
        }
        assert(file_op_views(ops@) =~= (if index_written {
            seq![FileOpView::WriteIndex]
        } else {
            Seq::<FileOpView>::empty()
        }));
        ops
    }

    /// The cells of the line that shows the jail of `entry`, whose
    /// configuration is `conf`.
    pub fn row(&self, entry: &IdxEntry, conf: &JailConfig) -> (r: Vec<String>)
        ensures
            texts(r@) == row_spec(self@, entry@, conf@),
    {
        let name = conf.uuid.hyphenated();
        let id: u64 = match self.jails.get(name.as_str()) {
            Some(e) => e.id,
            None => 0,
        };
        let state = if id == 0 {
            entry.state.clone()
        } else {
            String::from_str("running")
        };
        let mut cells: Vec<String> = Vec::new();
        cells.push(name);
        cells.push(String::from_str("OS"));
        cells.push(u64_to_string(conf.max_physical_memory));
        cells.push(state);
        cells.push(u64_to_string(id));
        cells.push(conf.alias.clone());
        assert(texts(cells@) =~= row_spec(self@, entry@, conf@));
        cells
    }

    /// The cells of the head line of the list of jails.
    pub fn header() -> (r: Vec<String>)
        ensures
            texts(r@) == seq!["UUID"@, "TYPE"@, "RAM"@, "STATE"@, "ID"@, "ALIAS"@],
    {
        let mut cells: Vec<String> = Vec::new();
        cells.push(String::from_str("UUID"));
        cells.push(String::from_str("TYPE"));
        cells.push(String::from_str("RAM"));
        cells.push(String::from_str("STATE"));
        cells.push(String::from_str("ID"));
        cells.push(String::from_str("ALIAS"));
        assert(texts(cells@) =~= seq!["UUID"@, "TYPE"@, "RAM"@, "STATE"@, "ID"@, "ALIAS"@]);
        cells
    }

    /// A line of the list in the form that programs read: the cells with a
    /// colon between each two.
    pub fn parsable(cells: &Vec<String>) -> (r: String)
        ensures
            r@ == join_spec(texts(cells@), ":"@),
    {
        join(cells, ":")
    }
}

} // verus!
