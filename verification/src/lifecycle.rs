//! What each command of the jail manager decides before and between the
//! calls that it makes on the host.

use crate::command::{args2, call, fatal, step_views, tolerated, Command, Step, StepView};
use crate::config::Config;
use crate::errors::{Error, ErrorView, GenericError};
use crate::jail_config::JailConfig;
use crate::jails::{Jail, JailView};
use crate::jdb::{
    configs_after, contains_uuid, covered, distinct, file_op_views, lemma_remove_distinct,
    lemma_remove_keeps_configs, remove_ops, FileOp, FileOpView, JDBView, JDB,
};
use crate::text::{decimal, u64_to_string};
use crate::update::JailUpdate;
use crate::zfs;
use vstd::prelude::*;

verus! {

/// The calls that start a jail before it is created; a jail that runs is
/// refused.
pub fn start(jail: &Jail) -> (r: Result<Vec<Step>, Error>)
    ensures
        match r {
            Ok(steps) => jail@.outer is None && step_views(steps@) == jail@.start(),
            Err(e) => jail@.outer is Some && e@ == ErrorView::Generic("VM is already started"@),
        },
{
    match &jail.outer {
        Some(_) => Err(Error::Generic(GenericError::new("VM is already started"))),
        None => Ok(jail.start()),
    }
}

/// The calls that stop a jail; a jail that does not run is refused.
pub fn stop(jail: &Jail) -> (r: Result<Vec<Step>, Error>)
    ensures
        match r {
            Ok(steps) => jail@.outer is Some && step_views(steps@) == jail@.stop(),
            Err(e) => jail@.outer is None && e@ == ErrorView::Generic("VM is already stooped"@),
        },
{
    match &jail.outer {
        None => Err(Error::Generic(GenericError::new("VM is already stooped"))),
        Some(_) => Ok(jail.stop()),
    }
}

/// The calls that stop a jail that is to be started again; a jail that
/// does not run is refused.
pub fn reboot(jail: &Jail) -> (r: Result<Vec<Step>, Error>)
    ensures
        match r {
            Ok(steps) => jail@.outer is Some && step_views(steps@) == jail@.stop(),
            Err(e) => jail@.outer is None && e@ == ErrorView::Generic("The vm is not running"@),
        },
{
    match &jail.outer {
        None => Err(Error::Generic(GenericError::new("The vm is not running"))),
        Some(_) => Ok(jail.stop()),
    }
}

/// The call that opens a shell in the inner jail; a jail that does not run
/// is refused.
pub fn console(jail: &Jail) -> (r: Result<Step, Error>)
    ensures
        match r {
            Ok(step) => match jail@.inner {
                Some(inner) => step@ == fatal(
                    call("jexec"@, seq![decimal(inner.id as nat), "/bin/csh"@]),
                    "Failed to execute jail console"@,
                ),
                None => false,
            },
            Err(e) => jail@.inner is None && e@ == ErrorView::Generic("VM is not running"@),
        },
{
    match &jail.inner {
        None => Err(Error::Generic(GenericError::new("VM is not running"))),
        Some(inner) => {
            let id = u64_to_string(inner.id);
            Ok(
                Step::fatal(
                    Command::new("jexec", args2(id.as_str(), "/bin/csh")),
                    "Failed to execute jail console",
                ),
            )
        },
    }
}

/// What deleting a jail takes, but for the destruction of its datasets,
/// which depends on what the host says of their origin.
#[derive(Debug)]
pub struct Deletion {
    /// The calls that stop the jail; none where it does not run.
    pub stop: Vec<Step>,
    /// The call that names the snapshot that the jail was cloned from. Its
    /// failure is passed over.
    pub origin: Step,
    /// The changes to the files of the database that end the deletion, once
    /// the datasets are destroyed: the configuration file of the jail is
    /// deleted, and the index is written without the entry of the jail,
    /// which `JDB::remove` takes out.
    pub remove: Vec<FileOp>,
}

impl JailView {
    /// The calls that stop the jail before it is deleted: those of `stop`
    /// where the jail runs, none where it does not.
    pub open spec fn stop_if_running(self) -> Seq<StepView> {
        if self.outer is Some {
            self.stop()
        } else {
            Seq::<StepView>::empty()
        }
    }

    /// The calls that destroy the datasets of the jail: the dataset of the
    /// jail, whose failure is passed over, and then the snapshot that it was
    /// cloned from, where that is known.
    pub open spec fn destroy_datasets(self, origin: Option<Seq<char>>) -> Seq<StepView> {
        let root = tolerated(call("zfs"@, seq!["destroy"@, self.idx.root]));
        match origin {
            Some(origin) => seq![
                root,
                fatal(call("zfs"@, seq!["destroy"@, origin]), "Failed destroy dataset"@),
            ],
            None => seq![root],
        }
    }
}

/// What deleting a jail takes: the jail is stopped where it runs, and the
/// snapshot that it was cloned from is asked for; then the datasets are
/// destroyed as `destroy_datasets` says; at the end the jail leaves the
/// database.
pub fn delete(jail: &Jail) -> (r: Deletion)
    ensures
        step_views(r.stop@) == jail@.stop_if_running(),
        r.origin@ == fatal(
            call("zfs"@, seq!["get"@, "-p"@, "-H"@, "origin"@, jail@.idx.root]),
            "Failed to get dataset"@,
        ),
        file_op_views(r.remove@) == remove_ops(jail@.idx.uuid),
{
    let stop = match &jail.outer {
        Some(_) => jail.stop(),
        None => {
            let v: Vec<Step> = Vec::new();
            assert(step_views(v@) =~= Seq::<StepView>::empty());
            v
        },
    };
    Deletion {
        stop,
        origin: zfs::origin(jail.idx.root.as_str()),
        remove: JDB::remove_files(&jail.idx.uuid),
    }
}

/// Once a jail of the index is deleted, that is, once the changes to files
/// that `delete` names are made and the entry of the jail is taken out of
/// the index, the index has no entry for the jail and the jail has no
/// configuration file, while every other entry and every other
/// configuration file is as it was.
pub proof fn lemma_delete_leaves_no_trace(
    db: JDBView,
    files: Set<Seq<u8>>,
    jail: JailView,
    i: int,
)
    requires
        distinct(db.entries),
        db.is_at(jail.idx.uuid, i),
    ensures
        ({
            let after = db.removed(i);
            let left = configs_after(files, remove_ops(jail.idx.uuid));
            &&& after.entries == db.entries.remove(i)
            &&& !contains_uuid(after.entries, jail.idx.uuid)
            &&& !left.contains(jail.idx.uuid)
            &&& forall|u: Seq<u8>| u != jail.idx.uuid ==> left.contains(u) == files.contains(u)
            &&& forall|u: Seq<u8>|
                u != jail.idx.uuid ==> contains_uuid(after.entries, u) == contains_uuid(
                    db.entries,
                    u,
                )
            &&& covered(db.entries, files) ==> covered(after.entries, left)
        }),
{
    let uuid = jail.idx.uuid;
    let after = db.removed(i);
    let ops = remove_ops(uuid);
    reveal_with_fuel(configs_after, 3);
    assert(ops.drop_last() =~= seq![FileOpView::RemoveConfig(uuid)]);
    assert(ops.drop_last().drop_last() =~= Seq::<FileOpView>::empty());
    assert(configs_after(files, ops) == files.remove(uuid));
    lemma_remove_distinct(db.entries, i);
    assert forall|u: Seq<u8>| u != uuid implies contains_uuid(after.entries, u) == contains_uuid(
        db.entries,
        u,
    ) by {
        if contains_uuid(after.entries, u) {
            let a = choose|a: int| 0 <= a < after.entries.len() && (#[trigger] after.entries[a]).uuid
                == u;
            let a0 = if a < i {
                a
            } else {
                a + 1
            };
            assert(db.entries[a0].uuid == u);
        }
        if contains_uuid(db.entries, u) {
            let b = choose|b: int| 0 <= b < db.entries.len() && (#[trigger] db.entries[b]).uuid
                == u;
            let b0 = if b < i {
                b
            } else {
                b - 1
            };
            assert(after.entries[b0].uuid == u);
        }
    }
    if covered(db.entries, files) {
        lemma_remove_keeps_configs(db, files, uuid, i);
    }
}

/// The calls that destroy the datasets of a jail; `origin` is the snapshot
/// that the jail was cloned from, where the host named it. After these the
/// jail is removed from the database.
pub fn destroy_datasets(jail: &Jail, origin: Option<&str>) -> (r: Vec<Step>)
    ensures
        step_views(r@) == jail@.destroy_datasets(
            match origin {
                Some(o) => Some(o@),
                None => None,
            },
        ),
{
    let mut steps: Vec<Step> = Vec::new();
    steps.push(Step::tolerated(zfs::destroy(jail.idx.root.as_str()).command));
    match origin {
        Some(o) => {
            steps.push(zfs::destroy(o));
            assert(step_views(steps@) =~= jail@.destroy_datasets(Some(o@)));
        },
        None => {
            assert(step_views(steps@) =~= jail@.destroy_datasets(None));
        },
    }
    steps
}

/// The configuration of a jail after a change, for a jail that the
/// database knows; the configuration file is then to be written anew.
pub fn update(db: &JDB, config: JailConfig, change: &JailUpdate) -> (r: Result<JailConfig, Error>)
    ensures
        match r {
            Ok(c) => contains_uuid(db@.entries, config@.uuid) && c@ == change@.apply(config@),
            Err(e) => !contains_uuid(db@.entries, config@.uuid) && e@ == ErrorView::NotFound(
                config@.uuid,
            ),
        },
{
    let c = change.apply(config);
    match db.update(&c) {
        Ok(_) => Ok(c),
        Err(e) => Err(e),
    }
}

/// What the start of the host asks for: nothing yet.
pub fn startup(config: &Config) -> (r: i32)
    ensures
        r == 0,
{
    0
}

/// The exit code of a command: its own where it ended in order, 1 where
/// it failed.
pub fn exit_code<E>(outcome: &Result<i32, E>) -> (r: i32)
    ensures
        r == (match outcome {
            Ok(code) => *code,
            Err(_) => 1i32,
        }),
{
    match outcome {
        Ok(code) => *code,
        Err(_) => 1,
    }
}

/// The line that reports the failure of a command, given what the error
/// says.
pub fn failure_line(message: &str) -> (r: String)
    ensures
        r@ == "command failed: "@ + message@,
{
    let mut s = String::from_str("command failed: ");
    s.append(message);
    s
}

} // verus!
