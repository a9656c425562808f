//! Minimal, crash-safe recovery state.
//!
//! While an image is exposed the daemon records just enough (runtime, not
//! configuration) to undo the activation after an unclean exit: whether
//! `usb-signaller` was running and must be restored, and the name of the
//! gadget it owns so startup cleanup only ever targets that gadget. The
//! application reads and writes the record; the decisions about what a read
//! means live here.

use vstd::prelude::*;

use crate::error::{unit_result, BootDriveError, ErrorCode, ErrorView};
use crate::state::ImageMode;

verus! {

/// Default runtime location of the recovery file.
pub const DEFAULT_STATE_PATH: &'static str = "/run/bootdrived/state.json";

/// Persisted recovery record. Absent file == nothing to recover.
#[derive(Debug, Clone, PartialEq, Eq)]
pub struct RecoveryState {
    /// The gadget BootDrive created; only this name is ever cleaned up.
    pub gadget_name: String,
    /// Whether `usb-signaller` was running before activation.
    pub signaller_was_running: bool,
    /// Display name of the exposed image (for logging/UX only).
    pub display_name: String,
    /// The mode the image was exposed in.
    pub mode: ImageMode,
}

/// The mathematical content of a [`RecoveryState`].
pub struct RecoveryStateView {
    pub gadget_name: Seq<char>,
    pub signaller_was_running: bool,
    pub display_name: Seq<char>,
    pub mode: ImageMode,
}

impl View for RecoveryState {
    type V = RecoveryStateView;

    open spec fn view(&self) -> RecoveryStateView {
        RecoveryStateView {
            gadget_name: self.gadget_name@,
            signaller_was_running: self.signaller_was_running,
            display_name: self.display_name@,
            mode: self.mode,
        }
    }
}

/// The mathematical content of a load's result.
pub open spec fn load_result(r: Result<Option<RecoveryState>, BootDriveError>) -> Result<
    Option<RecoveryStateView>,
    ErrorView,
> {
    match r {
        Ok(Some(s)) => Ok(Some(s@)),
        Ok(None) => Ok(None),
        Err(e) => Err(e@),
    }
}

/// One call made on a recovery store: what was asked, and what it returned.
pub enum StoreCall {
    /// `load`.
    Load(Result<Option<RecoveryStateView>, ErrorView>),
    /// `save` of this record.
    Save(RecoveryStateView, Result<(), ErrorView>),
    /// `clear`.
    Clear(Result<(), ErrorView>),
}

/// Where the recovery record is kept. Each call is recorded in the store's
/// history with what it was handed and what it returned.
pub trait RecoveryStorage {
    /// Every call made on this store so far, in order. It is a record
    /// kept for proofs: an implementation that keeps none (one written
    /// outside this library, whose code is not verified) inherits an empty
    /// one, and the contracts below are then checked only of the
    /// implementations in this library.
    closed spec fn history(&self) -> Seq<StoreCall> {
        Seq::empty()
    }

    /// What fixes the replies of a store that follows a model of its own
    /// (for the test double: the record it kept when it was made). Calls
    /// never change it.
    type Model;

    /// This store's model; one without a model has an arbitrary one.
    closed spec fn model(&self) -> Self::Model {
        vstd::pervasive::arbitrary()
    }

    /// Whether every call in the history got the reply this store's
    /// model gives it. An implementation without a model claims nothing.
    closed spec fn faithful(&self) -> bool {
        true
    }

    /// Load the current recovery record, if any.
    fn load(&mut self) -> (r: Result<Option<RecoveryState>, BootDriveError>)
        ensures
            final(self).history() == old(self).history().push(StoreCall::Load(load_result(r))),
            old(self).faithful() ==> final(self).faithful(),
            final(self).model() == old(self).model(),
    ;

    /// Persist a recovery record.
    fn save(&mut self, state: &RecoveryState) -> (r: Result<(), BootDriveError>)
        ensures
            final(self).history() == old(self).history().push(
                StoreCall::Save(state@, unit_result(r)),
            ),
            old(self).faithful() ==> final(self).faithful(),
            final(self).model() == old(self).model(),
    ;

    /// Remove the recovery record (idempotent).
    fn clear(&mut self) -> (r: Result<(), BootDriveError>)
        ensures
            final(self).history() == old(self).history().push(StoreCall::Clear(unit_result(r))),
            old(self).faithful() ==> final(self).faithful(),
            final(self).model() == old(self).model(),
    ;
}

/// A recovery store kept in memory, for tests and for runs that stay in
/// the foreground.
pub struct MemoryRecoveryStore {
    /// The record currently kept.
    pub record: Option<RecoveryState>,
    /// Every call made, with what it was handed and returned.
    pub log: Ghost<Seq<StoreCall>>,
    /// The record kept when the store was made.
    pub initial: Ghost<Option<RecoveryStateView>>,
    /// The record kept after each call of the log.
    pub after: Ghost<Seq<Option<RecoveryStateView>>>,
}

/// The content of a kept record, if any.
pub open spec fn record_view(r: Option<RecoveryState>) -> Option<RecoveryStateView> {
    match r {
        Some(s) => Some(s@),
        None => None,
    }
}

/// The record a memory store keeps after the call `c`, having kept `kept`
/// before it: a successful save keeps what it saved, a successful clear
/// keeps nothing.
pub open spec fn kept_next(kept: Option<RecoveryStateView>, c: StoreCall) -> Option<RecoveryStateView> {
    match c {
        StoreCall::Save(s, Ok(())) => Some(s),
        StoreCall::Clear(Ok(())) => None,
        _ => kept,
    }
}

/// Whether a call got the reply a memory store keeping `kept` gives it: a
/// load returns the kept record, a save and a clear succeed.
pub open spec fn store_call_ok(kept: Option<RecoveryStateView>, c: StoreCall) -> bool {
    match c {
        StoreCall::Load(x) => x == Ok::<Option<RecoveryStateView>, ErrorView>(kept),
        StoreCall::Save(_, x) => x == Ok::<(), ErrorView>(()),
        StoreCall::Clear(x) => x == Ok::<(), ErrorView>(()),
    }
}

impl MemoryRecoveryStore {
    /// The record kept before the call at index `i` of the log.
    pub open spec fn kept_before(&self, i: int) -> Option<RecoveryStateView> {
        if i == 0 {
            self.initial@
        } else {
            self.after@[i - 1]
        }
    }

    /// An empty store.
    pub fn new() -> (r: Self)
        ensures
            r.record is None,
            r.log@ == Seq::<StoreCall>::empty(),
            r.faithful(),
    {
        MemoryRecoveryStore {
            record: None,
            log: Ghost(Seq::empty()),
            initial: Ghost(None),
            after: Ghost(Seq::empty()),
        }
    }

    /// A store that already keeps `record`, as one left behind by an
    /// earlier run.
    pub fn with_record(record: RecoveryState) -> (r: Self)
        ensures
            record_view(r.record) == Some(record@),
            r.log@ == Seq::<StoreCall>::empty(),
            r.faithful(),
    {
        let ghost v = record@;
        MemoryRecoveryStore {
            record: Some(record),
            log: Ghost(Seq::empty()),
            initial: Ghost(Some(v)),
            after: Ghost(Seq::empty()),
        }
    }
}

impl RecoveryStorage for MemoryRecoveryStore {
    type Model = Option<RecoveryStateView>;

    open spec fn history(&self) -> Seq<StoreCall> {
        self.log@
    }

    /// The record kept when the store was made.
    open spec fn model(&self) -> Option<RecoveryStateView> {
        self.initial@
    }

    /// The kept record is what the recorded calls left, and every recorded
    /// call got the reply the store gives at that point.
    open spec fn faithful(&self) -> bool {
        &&& self.after@.len() == self.log@.len()
        &&& record_view(self.record) == self.kept_before(self.log@.len() as int)
        &&& forall|i: int|
            0 <= i < self.log@.len() ==> store_call_ok(self.kept_before(i), #[trigger] self.log@[i])
                && self.after@[i] == kept_next(self.kept_before(i), self.log@[i])
    }

    fn load(&mut self) -> (r: Result<Option<RecoveryState>, BootDriveError>)
        ensures
            match old(self).record {
                Some(s) => r matches Ok(Some(t)) && t@ == s@,
                None => r matches Ok(None),
            },
            final(self).record == old(self).record,
    {
        let r = match &self.record {
            Some(s) => Ok(Some(s.duplicate())),
            None => Ok(None),
        };
        self.log = Ghost(self.log@.push(StoreCall::Load(load_result(r))));
        self.after = Ghost(self.after@.push(record_view(self.record)));
        r
    }

    fn save(&mut self, state: &RecoveryState) -> (r: Result<(), BootDriveError>)
        ensures
            r is Ok,
            final(self).record matches Some(s) && s@ == state@,
    {
        self.record = Some(state.duplicate());
        self.log = Ghost(self.log@.push(StoreCall::Save(state@, Ok(()))));
        self.after = Ghost(self.after@.push(record_view(self.record)));
        Ok(())
    }

    fn clear(&mut self) -> (r: Result<(), BootDriveError>)
        ensures
            r is Ok,
            final(self).record is None,
    {
        self.record = None;
        self.log = Ghost(self.log@.push(StoreCall::Clear(Ok(()))));
        self.after = Ghost(self.after@.push(record_view(self.record)));
        Ok(())
    }
}

/// What reading the recovery file produced.
#[derive(Debug, Clone)]
pub enum StoredRecord {
    /// There is no recovery file.
    Missing,
    /// The file could not be read; the detail describes why.
    Unreadable(String),
    /// The file was read but does not hold a record; the detail says why.
    Corrupt(String),
    /// The file holds this record.
    Parsed(RecoveryState),
}

/// What removing the recovery file produced.
#[derive(Debug, Clone)]
pub enum RemovalOutcome {
    /// The file was removed.
    Removed,
    /// There was no file to remove.
    NotFound,
    /// The file could not be removed; the detail describes why.
    Failed(String),
}

/// A store for [`RecoveryState`], parameterized on its path so tests can
/// point it at a temporary directory.
#[derive(Debug, Clone)]
pub struct RecoveryStore {
    path: String,
}

impl RecoveryStore {
    /// Create a store writing to `path`.
    pub fn new(path: String) -> (r: Self)
        ensures
            r.path_view() == path@,
    {
        RecoveryStore { path }
    }

    /// The store at [`DEFAULT_STATE_PATH`].
    pub fn default_store() -> (r: Self)
        ensures
            r.path_view() == DEFAULT_STATE_PATH@,
    {
        RecoveryStore { path: String::from_str(DEFAULT_STATE_PATH) }
    }

    /// The path this store persists to, as a spec value.
    pub closed spec fn path_view(&self) -> Seq<char> {
        self.path@
    }

    /// The path this store persists to.
    pub fn path(&self) -> (r: &str)
        ensures
            r@ == self.path_view(),
    {
        self.path.as_str()
    }

    /// The result of loading the record: a missing file means nothing to
    /// recover, a corrupt file is ignored (best effort), and any other read
    /// failure is an internal error.
    pub fn interpret_load(read: StoredRecord) -> (r: Result<Option<RecoveryState>, BootDriveError>)
        ensures
            match read {
                StoredRecord::Missing => r matches Ok(None),
                StoredRecord::Corrupt(_) => r matches Ok(None),
                StoredRecord::Parsed(s) => r matches Ok(Some(t)) && t@ == s@,
                StoredRecord::Unreadable(d) => r matches Err(e) && e.code == ErrorCode::Internal
                    && e.message@ == "could not read recovery state: "@ + d@,
            },
    {
        match read {
            StoredRecord::Missing => Ok(None),
            StoredRecord::Corrupt(_) => Ok(None),
            StoredRecord::Parsed(s) => Ok(Some(s)),
            StoredRecord::Unreadable(d) => {
                let m = String::from_str("could not read recovery state: ").concat(d.as_str());
                Err(BootDriveError::internal(m))
            },
        }
    }

    /// The result of clearing the record: idempotent, so a missing file is
    /// success; any other failure is an internal error.
    pub fn interpret_clear(outcome: RemovalOutcome) -> (r: Result<(), BootDriveError>)
        ensures
            match outcome {
                RemovalOutcome::Failed(d) => r matches Err(e) && e.code == ErrorCode::Internal
                    && e.message@ == "could not clear recovery state: "@ + d@,
                _ => r is Ok,
            },
    {
        match outcome {
            RemovalOutcome::Removed => Ok(()),
            RemovalOutcome::NotFound => Ok(()),
            RemovalOutcome::Failed(d) => {
                let m = String::from_str("could not clear recovery state: ").concat(d.as_str());
                Err(BootDriveError::internal(m))
            },
        }
    }
}

impl RecoveryState {
    /// A copy of this record.
    pub fn duplicate(&self) -> (r: RecoveryState)
        ensures
            r@ == self@,
    {
        RecoveryState {
            gadget_name: self.gadget_name.clone(),
            signaller_was_running: self.signaller_was_running,
            display_name: self.display_name.clone(),
            mode: self.mode,
        }
    }
}

} // verus!
