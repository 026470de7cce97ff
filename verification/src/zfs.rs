//! The calls of the storage utility and the reading of what it prints.

use crate::command::{args2, args3, args4, call, fatal, Command, Step};
use crate::errors::{Error, ErrorView, GenericError, NumberError};
use crate::text::{parse_u64, parse_u64_spec, split, split_spec, texts};
use vstd::prelude::*;

verus! {

/// What the storage utility says of a dataset.
#[derive(Debug, PartialEq, Eq)]
pub struct ZFSEntry {
    pub name: String,
    pub used: u64,
    pub avail: u64,
    pub refer: u64,
    pub mountpoint: String,
}

/// What the storage utility says of a dataset, as plain values.
pub struct ZFSEntryView {
    pub name: Seq<char>,
    pub used: u64,
    pub avail: u64,
    pub refer: u64,
    pub mountpoint: Seq<char>,
}

impl View for ZFSEntry {
    type V = ZFSEntryView;

    open spec fn view(&self) -> ZFSEntryView {
        ZFSEntryView {
            name: self.name@,
            used: self.used,
            avail: self.avail,
            refer: self.refer,
            mountpoint: self.mountpoint@,
        }
    }
}

/// The views of a list of datasets.
pub open spec fn zfs_views(entries: Seq<ZFSEntry>) -> Seq<ZFSEntryView> {
    Seq::new(entries.len(), |i: int| entries[i]@)
}

/// The number in the field at `at`, or the error of that field: `missing`
/// where the line has no such field, else that its text is no number.
pub open spec fn number_field(parts: Seq<Seq<char>>, at: int, missing: Seq<char>) -> Result<
    u64,
    ErrorView,
> {
    if parts.len() <= at {
        Err(ErrorView::Generic(missing))
    } else {
        match parse_u64_spec(parts[at]) {
            Some(n) => Ok(n),
            None => Err(ErrorView::Number(parts[at])),
        }
    }
}

/// What a line of the list of datasets says: the name, the space used,
/// the space available, the space referred to and the mount point, with
/// a tab between each two. The error is that of the first field that is
/// missing or is no number.
pub open spec fn entry_spec(line: Seq<char>) -> Result<ZFSEntryView, ErrorView> {
    let parts = split_spec(line, '\t');
    match number_field(parts, 1, "USED field missing"@) {
        Err(e) => Err(e),
        Ok(used) => match number_field(parts, 2, "AVAIL field missing"@) {
            Err(e) => Err(e),
            Ok(avail) => match number_field(parts, 3, "REFER field missing"@) {
                Err(e) => Err(e),
                Ok(refer) => if parts.len() <= 4 {
                    Err(ErrorView::Generic("MOUNTPOINT field missing"@))
                } else {
                    Ok(ZFSEntryView { name: parts[0], used, avail, refer, mountpoint: parts[4] })
                },
            },
        },
    }
}

/// Reads the number in the field at `at`.
fn read_number(parts: &Vec<String>, at: usize, missing: &str) -> (r: Result<u64, Error>)
    ensures
        match r {
            Ok(n) => number_field(texts(parts@), at as int, missing@) == Ok::<u64, ErrorView>(n),
            Err(e) => number_field(texts(parts@), at as int, missing@) == Err::<u64, ErrorView>(
                e@,
            ),
        },
{
    if parts.len() <= at {
        Err(Error::Generic(GenericError::new(missing)))
    } else {
        assert(texts(parts@)[at as int] == parts@[at as int]@);
        match parse_u64(parts[at].as_str()) {
            Some(n) => Ok(n),
            None => Err(Error::Number(NumberError::new(parts[at].as_str()))),
        }
    }
}

/// Reads a line of the list of datasets.
pub fn deconstruct_entry(line: &str) -> (r: Result<ZFSEntry, Error>)
    ensures
        match r {
            Ok(e) => entry_spec(line@) == Ok::<ZFSEntryView, ErrorView>(e@),
            Err(e) => entry_spec(line@) == Err::<ZFSEntryView, ErrorView>(e@),
        },
{
    let parts = split(line, '\t');
    let used = match read_number(&parts, 1, "USED field missing") {
        Ok(n) => n,
        Err(e) => {
            return Err(e);
        },
    };
    let avail = match read_number(&parts, 2, "AVAIL field missing") {
        Ok(n) => n,
        Err(e) => {
            return Err(e);
        },
    };
    let refer = match read_number(&parts, 3, "REFER field missing") {
        Ok(n) => n,
        Err(e) => {
            return Err(e);
        },
    };
    if parts.len() <= 4 {
        return Err(Error::Generic(GenericError::new("MOUNTPOINT field missing")));
    }
    assert(texts(parts@)[0] == parts@[0]@);
    assert(texts(parts@)[4] == parts@[4]@);
    Ok(ZFSEntry { name: parts[0].clone(), used, avail, refer, mountpoint: parts[4].clone() })
}

/// The datasets that a run of lines lists, empty lines left out; the error
/// of the first line that cannot be read.
pub open spec fn entries_spec(lines: Seq<Seq<char>>) -> Result<Seq<ZFSEntryView>, ErrorView>
    decreases lines.len(),
{
    if lines.len() == 0 {
        Ok(Seq::empty())
    } else {
        match entries_spec(lines.drop_last()) {
            Err(e) => Err(e),
            Ok(entries) => if lines.last().len() == 0 {
                Ok(entries)
            } else {
                match entry_spec(lines.last()) {
                    Err(e) => Err(e),
                    Ok(e) => Ok(entries.push(e)),
                }
            },
        }
    }
}

proof fn lemma_entries_error(lines: Seq<Seq<char>>, k: int)
    requires
        0 <= k <= lines.len(),
        entries_spec(lines.subrange(0, k)) is Err,
    ensures
        entries_spec(lines) == entries_spec(lines.subrange(0, k)),
    decreases lines.len() - k,
{
    if k == lines.len() {
        assert(lines.subrange(0, k) =~= lines);
    } else {
        let next = lines.subrange(0, k + 1);
        assert(next.drop_last() =~= lines.subrange(0, k));
        lemma_entries_error(lines, k + 1);
    }
}

/// The call that lists the datasets of a pool, one level deep.
pub fn list(pool: &str) -> (r: Command)
    ensures
        r@ == call("zfs"@, seq!["list"@, "-p"@, "-H"@, "-r"@, "-d1"@, pool@]),
{
    let mut args = args4("list", "-p", "-H", "-r");
    let ghost before = texts(args@);
    args.push(String::from_str("-d1"));
    assert(texts(args@) =~= before.push("-d1"@));
    let ghost before = texts(args@);
    args.push(String::from_str(pool));
    assert(texts(args@) =~= before.push(pool@));
    assert(texts(args@) =~= seq!["list"@, "-p"@, "-H"@, "-r"@, "-d1"@, pool@]);
    Command::new("zfs", args)
}

/// Reads the list of the datasets of a pool.
pub fn read_list(reply: &str) -> (r: Result<Vec<ZFSEntry>, Error>)
    ensures
        match r {
            Ok(l) => entries_spec(split_spec(reply@, '\n')) == Ok::<Seq<ZFSEntryView>, ErrorView>(
                zfs_views(l@),
            ),
            Err(e) => entries_spec(split_spec(reply@, '\n')) == Err::<
                Seq<ZFSEntryView>,
                ErrorView,
            >(e@),
        },
{
    let lines = split(reply, '\n');
    let mut res: Vec<ZFSEntry> = Vec::new();
    let mut i: usize = 0;
    assert(texts(lines@).subrange(0, 0) =~= Seq::<Seq<char>>::empty());
    assert(zfs_views(res@) =~= Seq::<ZFSEntryView>::empty());
    while i < lines.len()
        invariant
            i <= lines@.len(),
            texts(lines@) == split_spec(reply@, '\n'),
            entries_spec(texts(lines@).subrange(0, i as int)) == Ok::<
                Seq<ZFSEntryView>,
                ErrorView,
            >(zfs_views(res@)),
        decreases lines@.len() - i,
    {
        proof {
            let next = texts(lines@).subrange(0, i + 1);
            assert(next.drop_last() =~= texts(lines@).subrange(0, i as int));
            assert(next.last() == lines@[i as int]@);
        }
        if lines[i].as_str().unicode_len() != 0 {
            match deconstruct_entry(lines[i].as_str()) {
                Ok(entry) => {
                    let ghost before = zfs_views(res@);
                    res.push(entry);
                    assert(zfs_views(res@) =~= before.push(entry@));
                },
                Err(e) => {
                    proof {
                        lemma_entries_error(texts(lines@), i + 1);
                    }
                    return Err(e);
                },
            }
        }
        i = i + 1;
    }
    assert(texts(lines@).subrange(0, i as int) =~= texts(lines@));
    Ok(res)
}

/// The call that describes one dataset; it fails where there is no such
/// dataset.
pub fn get(dataset: &str) -> (r: Step)
    ensures
        r@ == fatal(
            call("zfs"@, seq!["list"@, "-p"@, "-H"@, dataset@]),
            "Failed to get dataset"@,
        ),
{
    Step::fatal(Command::new("zfs", args4("list", "-p", "-H", dataset)), "Failed to get dataset")
}

/// The call that names the snapshot that a dataset was cloned from.
pub fn origin(dataset: &str) -> (r: Step)
    ensures
        r@ == fatal(
            call("zfs"@, seq!["get"@, "-p"@, "-H"@, "origin"@, dataset@]),
            "Failed to get dataset"@,
        ),
{
    let mut args = args4("get", "-p", "-H", "origin");
    let ghost before = texts(args@);
    args.push(String::from_str(dataset));
    assert(texts(args@) =~= before.push(dataset@));
    assert(texts(args@) =~= seq!["get"@, "-p"@, "-H"@, "origin"@, dataset@]);
    Step::fatal(Command::new("zfs", args), "Failed to get dataset")
}

/// The origin that the storage utility names: the third of the fields of
/// its output, which have a tab between each two.
pub open spec fn origin_spec(reply: Seq<char>) -> Result<Seq<char>, ErrorView> {
    let parts = split_spec(reply, '\t');
    if parts.len() < 3 {
        Err(ErrorView::Generic("PROPERTY field missing"@))
    } else {
        Ok(parts[2])
    }
}

/// Reads the origin of a dataset from what the storage utility printed.
pub fn read_origin(reply: &str) -> (r: Result<String, Error>)
    ensures
        match r {
            Ok(s) => origin_spec(reply@) == Ok::<Seq<char>, ErrorView>(s@),
            Err(e) => origin_spec(reply@) == Err::<Seq<char>, ErrorView>(e@),
        },
{
    let parts = split(reply, '\t');
    if parts.len() < 3 {
        Err(Error::Generic(GenericError::new("PROPERTY field missing")))
    } else {
        assert(texts(parts@)[2] == parts@[2]@);
        Ok(parts[2].clone())
    }
}

/// The call that creates a dataset.
pub fn create(dataset: &str) -> (r: Step)
    ensures
        r@ == fatal(call("zfs"@, seq!["create"@, dataset@]), "Failed create dataset"@),
{
    Step::fatal(Command::new("zfs", args2("create", dataset)), "Failed create dataset")
}

/// The name of the snapshot `snapshot` of a dataset.
pub open spec fn snapshot_name(dataset: Seq<char>, snapshot: Seq<char>) -> Seq<char> {
    dataset + "@"@ + snapshot
}

/// The name of the snapshot `snapshot` of a dataset.
pub fn snapshot_path(dataset: &str, snapshot: &str) -> (r: String)
    ensures
        r@ == snapshot_name(dataset@, snapshot@),
{
    let mut snap = String::from_str(dataset);
    snap.append("@");
    snap.append(snapshot);
    snap
}

/// The call that makes the snapshot `name` of a dataset.
pub fn snapshot(dataset: &str, name: &str) -> (r: Step)
    ensures
        r@ == fatal(
            call("zfs"@, seq!["snapshot"@, snapshot_name(dataset@, name@)]),
            "Failed create snapshot"@,
        ),
{
    let snap = snapshot_path(dataset, name);
    Step::fatal(Command::new("zfs", args2("snapshot", snap.as_str())), "Failed create snapshot")
}

/// The call that clones a snapshot into a dataset.
pub fn clone(snapshot: &str, dataset: &str) -> (r: Step)
    ensures
        r@ == fatal(
            call("zfs"@, seq!["clone"@, snapshot@, dataset@]),
            "Failed to clone dataset"@,
        ),
{
    Step::fatal(Command::new("zfs", args3("clone", snapshot, dataset)), "Failed to clone dataset")
}

/// The call that destroys a dataset or a snapshot.
pub fn destroy(dataset: &str) -> (r: Step)
    ensures
        r@ == fatal(call("zfs"@, seq!["destroy"@, dataset@]), "Failed destroy dataset"@),
{
    Step::fatal(Command::new("zfs", args2("destroy", dataset)), "Failed destroy dataset")
}

/// The call that fills a dataset from the stream on its input.
pub fn receive(dataset: &str) -> (r: Step)
    ensures
        r@ == fatal(call("zfs"@, seq!["receive"@, dataset@]), "Failed to receive dataset"@),
{
    Step::fatal(Command::new("zfs", args2("receive", dataset)), "Failed to receive dataset")
}

} // verus!
