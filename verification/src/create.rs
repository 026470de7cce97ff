//! The creation of a jail as a saga of three steps: the jail is entered
//! into the database, a snapshot of its image is made, and the snapshot is
//! cloned into the dataset of the jail.

use crate::command::{Step, StepView};
use crate::config::Config;
use crate::errors::{Error, ErrorView, GenericError};
use crate::jail_config::{JailConfig, JailConfigView};
use crate::jdb::{IdxEntry, IdxEntryView};
use crate::saga::{Move, Saga};
use crate::uuid::{hyphenated_spec, Uuid};
use crate::zfs;
use vstd::prelude::*;

verus! {

/// What the creation of a jail has reached.
#[derive(Debug)]
pub struct CreateState {
    /// The identifier of the jail.
    pub uuid: Uuid,
    /// The dataset of the image that the jail is made from.
    pub dataset: String,
    /// The configuration of the jail.
    pub config: JailConfig,
    /// The entry of the jail in the index, once it is inserted.
    pub entry: Option<IdxEntry>,
    /// The snapshot of the image, once it is made.
    pub snapshot: Option<String>,
    /// The dataset of the jail, once it is cloned.
    pub root: Option<String>,
}

/// What the creation of a jail has reached, as plain values.
pub struct CreateStateView {
    pub uuid: Seq<u8>,
    pub dataset: Seq<char>,
    pub config: JailConfigView,
    pub entry: Option<IdxEntryView>,
    pub snapshot: Option<Seq<char>>,
    pub root: Option<Seq<char>>,
}

/// The view of an optional entry.
pub open spec fn entry_option_view(e: Option<IdxEntry>) -> Option<IdxEntryView> {
    match e {
        Some(e) => Some(e@),
        None => None,
    }
}

impl View for CreateState {
    type V = CreateStateView;

    open spec fn view(&self) -> CreateStateView {
        CreateStateView {
            uuid: self.uuid@,
            dataset: self.dataset@,
            config: self.config@,
            entry: entry_option_view(self.entry),
            snapshot: crate::jail_config::text_option_view(self.snapshot),
            root: crate::jail_config::text_option_view(self.root),
        }
    }
}

/// What the caller is to do for a move of the saga.
#[derive(Debug)]
pub enum CreateAction {
    /// Open the database and insert the configuration of the jail.
    Insert,
    /// Open the database and remove the jail with this identifier; a
    /// failure is passed over.
    Remove(Uuid),
    /// Make this call.
    Run(Step),
    /// Nothing: there is nothing to take back.
    Nothing,
}

/// What the caller is to do, as plain values.
pub enum CreateActionView {
    Insert,
    Remove(Seq<u8>),
    Run(StepView),
    Nothing,
}

impl View for CreateAction {
    type V = CreateActionView;

    open spec fn view(&self) -> CreateActionView {
        match self {
            CreateAction::Insert => CreateActionView::Insert,
            CreateAction::Remove(u) => CreateActionView::Remove(u@),
            CreateAction::Run(s) => CreateActionView::Run(s@),
            CreateAction::Nothing => CreateActionView::Nothing,
        }
    }
}

impl CreateStateView {
    /// The name of the snapshot that the jail is cloned from: the dataset
    /// of the image, an at sign and the identifier of the jail.
    pub open spec fn snapshot_name(self) -> Seq<char> {
        zfs::snapshot_name(self.dataset, hyphenated_spec(self.uuid))
    }

    /// What is to be done for a move: for a step forward the insertion,
    /// the snapshot or the clone; for a step back the removal from the
    /// database, or the destruction of the snapshot or of the dataset of
    /// the jail where there is one. The clone fails at once where there is
    /// no snapshot or no entry to take the dataset from.
    pub open spec fn action(self, m: Move) -> Result<CreateActionView, ErrorView> {
        match m {
            Move::Forward(i) => if i == 0 {
                Ok(CreateActionView::Insert)
            } else if i == 1 {
                Ok(
                    CreateActionView::Run(
                        crate::command::fatal(
                            crate::command::call(
                                "zfs"@,
                                seq!["snapshot"@, self.snapshot_name()],
                            ),
                            "Failed create snapshot"@,
                        ),
                    ),
                )
            } else if i == 2 {
                match self.snapshot {
                    None => Err(ErrorView::Generic("No snap to clone"@)),
                    Some(snap) => match self.entry {
                        None => Err(ErrorView::Generic("No root to clone"@)),
                        Some(entry) => Ok(
                            CreateActionView::Run(
                                crate::command::fatal(
                                    crate::command::call("zfs"@, seq!["clone"@, snap, entry.root]),
                                    "Failed to clone dataset"@,
                                ),
                            ),
                        ),
                    },
                }
            } else {
                Ok(CreateActionView::Nothing)
            },
            Move::Backward(i) => if i == 0 {
                Ok(CreateActionView::Remove(self.uuid))
            } else if i == 1 {
                match self.snapshot {
                    Some(snap) => Ok(CreateActionView::Run(destroy_step(snap))),
                    None => Ok(CreateActionView::Nothing),
                }
            } else if i == 2 {
                match self.root {
                    Some(root) => Ok(CreateActionView::Run(destroy_step(root))),
                    None => Ok(CreateActionView::Nothing),
                }
            } else {
                Ok(CreateActionView::Nothing)
            },
            Move::Finish(_) => Ok(CreateActionView::Nothing),
        }
    }

    /// The state once a step forward succeeded: the insertion leaves the
    /// entry that it made, the snapshot its name, the clone the dataset of
    /// the jail. Anything else leaves the state as it is.
    pub open spec fn completed(self, m: Move, entry: Option<IdxEntryView>) -> CreateStateView {
        match m {
            Move::Forward(i) => if i == 0 {
                CreateStateView { entry, ..self }
            } else if i == 1 {
                CreateStateView { snapshot: Some(self.snapshot_name()), ..self }
            } else if i == 2 {
                match self.entry {
                    Some(e) => CreateStateView { root: Some(e.root), ..self },
                    None => self,
                }
            } else {
                self
            },
            _ => self,
        }
    }
}

/// The call that destroys a dataset or a snapshot.
pub open spec fn destroy_step(target: Seq<char>) -> StepView {
    crate::command::fatal(
        crate::command::call("zfs"@, seq!["destroy"@, target]),
        "Failed destroy dataset"@,
    )
}

impl CreateState {
    /// The state at the start of the creation of the jail `jail`: nothing
    /// is made yet, and the image is the dataset of the jail's image in the
    /// pool.
    pub fn new(config: &Config, jail: JailConfig) -> (r: CreateState)
        ensures
            r@ == (CreateStateView {
                uuid: jail@.uuid,
                dataset: config@.pool + "/"@ + hyphenated_spec(jail@.image_uuid),
                config: jail@,
                entry: None,
                snapshot: None,
                root: None,
            }),
    {
        let mut dataset = config.settings.pool.clone();
        dataset.append("/");
        let image = jail.image_uuid.hyphenated();
        dataset.append(image.as_str());
        CreateState {
            uuid: jail.uuid,
            dataset,
            config: jail,
            entry: None,
            snapshot: None,
            root: None,
        }
    }

    /// The saga of the creation: three steps, none of which has run.
    pub fn saga() -> (r: Saga)
        ensures
            r == Saga::new_spec(3),
    {
        Saga::new(3)
    }

    /// What the caller is to do for the move `m`, or the error with which
    /// the step fails at once.
    pub fn action(&self, m: Move) -> (r: Result<CreateAction, Error>)
        ensures
            match r {
                Ok(a) => self@.action(m) == Ok::<CreateActionView, ErrorView>(a@),
                Err(e) => self@.action(m) == Err::<CreateActionView, ErrorView>(e@),
            },
    {
        match m {
            Move::Forward(i) => {
                if i == 0 {
                    Ok(CreateAction::Insert)
                } else if i == 1 {
                    let id = self.uuid.hyphenated();
                    Ok(CreateAction::Run(zfs::snapshot(self.dataset.as_str(), id.as_str())))
                } else if i == 2 {
                    match &self.snapshot {
                        None => Err(Error::Generic(GenericError::new("No snap to clone"))),
                        Some(snap) => match &self.entry {
                            None => Err(Error::Generic(GenericError::new("No root to clone"))),
                            Some(entry) => Ok(
                                CreateAction::Run(zfs::clone(snap.as_str(), entry.root.as_str())),
                            ),
                        },
                    }
                } else {
                    Ok(CreateAction::Nothing)
                }
            },
            Move::Backward(i) => {
                if i == 0 {
                    Ok(CreateAction::Remove(self.uuid))
                } else if i == 1 {
                    match &self.snapshot {
                        Some(snap) => Ok(CreateAction::Run(zfs::destroy(snap.as_str()))),
                        None => Ok(CreateAction::Nothing),
                    }
                } else if i == 2 {
                    match &self.root {
                        Some(root) => Ok(CreateAction::Run(zfs::destroy(root.as_str()))),
                        None => Ok(CreateAction::Nothing),
                    }
                } else {
                    Ok(CreateAction::Nothing)
                }
            },
            Move::Finish(_) => Ok(CreateAction::Nothing),
        }
    }

    /// The state once the step forward `m` succeeded; `entry` is the entry
    /// that the insertion made.
    pub fn completed(self, m: Move, entry: Option<IdxEntry>) -> (r: CreateState)
        ensures
            r@ == self@.completed(m, entry_option_view(entry)),
    {
        let mut state = self;
        match m {
            Move::Forward(i) => {
                if i == 0 {
                    state.entry = entry;
                } else if i == 1 {
                    let id = state.uuid.hyphenated();
                    state.snapshot = Some(zfs::snapshot_path(state.dataset.as_str(), id.as_str()));
                } else if i == 2 {
                    match &state.entry {
                        Some(e) => {
                            state.root = Some(e.root.clone());
                        },
                        None => {},
                    }
                }
            },
            _ => {},
        }
        state
    }

    /// The line that reports the creation of the jail.
    pub fn created_message(&self) -> (r: String)
        ensures
            r@ == "Created jail "@ + hyphenated_spec(self@.uuid),
    {
        let mut s = String::from_str("Created jail ");
        let id = self.uuid.hyphenated();
        s.append(id.as_str());
        s
    }
}

/// Each step back undoes what its step forward made: once the jail is
/// inserted, the step back removes the jail with its identifier; the
/// snapshot that is made is the one that is destroyed; the dataset that
/// the snapshot is cloned into is the one that is destroyed. Before a
/// snapshot or a clone is made there is nothing to take back.
pub proof fn lemma_steps_back_match(state: CreateStateView, entry: IdxEntryView)
    requires
        state.entry is None,
        state.snapshot is None,
        state.root is None,
    ensures
        ({
            let inserted = state.completed(Move::Forward(0), Some(entry));
            let snapped = inserted.completed(Move::Forward(1), None);
            let cloned = snapped.completed(Move::Forward(2), None);
            let snapshot = state.snapshot_name();
            &&& inserted.action(Move::Backward(0)) == Ok::<CreateActionView, ErrorView>(
                CreateActionView::Remove(state.uuid),
            )
            &&& inserted.action(Move::Forward(1)) == Ok::<CreateActionView, ErrorView>(
                CreateActionView::Run(
                    crate::command::fatal(
                        crate::command::call("zfs"@, seq!["snapshot"@, snapshot]),
                        "Failed create snapshot"@,
                    ),
                ),
            )
            &&& inserted.action(Move::Backward(1)) == Ok::<CreateActionView, ErrorView>(
                CreateActionView::Nothing,
            )
            &&& snapped.action(Move::Backward(1)) == Ok::<CreateActionView, ErrorView>(
                CreateActionView::Run(destroy_step(snapshot)),
            )
            &&& snapped.action(Move::Forward(2)) == Ok::<CreateActionView, ErrorView>(
                CreateActionView::Run(
                    crate::command::fatal(
                        crate::command::call("zfs"@, seq!["clone"@, snapshot, entry.root]),
                        "Failed to clone dataset"@,
                    ),
                ),
            )
            &&& snapped.action(Move::Backward(2)) == Ok::<CreateActionView, ErrorView>(
                CreateActionView::Nothing,
            )
            &&& cloned.action(Move::Backward(2)) == Ok::<CreateActionView, ErrorView>(
                CreateActionView::Run(destroy_step(entry.root)),
            )
            &&& cloned.action(Move::Backward(1)) == snapped.action(Move::Backward(1))
            &&& cloned.action(Move::Backward(0)) == inserted.action(Move::Backward(0))
        }),
{
}

} // verus!
