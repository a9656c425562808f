//! The transactional activation state machine.
//!
//! This is the heart of the daemon. It decides, step by step, what the
//! daemon does to expose an image, to eject it, and to reconcile after a
//! restart; the application performs each [`Action`] against the USB
//! backend, `usb-signaller` and the recovery file, and hands the outcome
//! back as a [`Reply`]. Every transition, including rollback after a failed
//! activation and startup recovery, is specified by [`step`], and the laws
//! at the end of the file are proved over it.

use vstd::prelude::*;

use crate::error::{wire_of, BootDriveError, ErrorCode, ErrorView};
use crate::image::{ValidatedImage, ValidatedImageView};
use crate::recovery::{RecoveryState, RecoveryStateView, RecoveryStorage, StoreCall};
use crate::usb::{BackendCall, UsbBackend};
use crate::usb_signaller::{SignallerCall, SignallerControl};
use crate::state::{DriveState, ImageMode, StateInfo, StateInfoView};
use crate::usb::{BackendCapabilities, BackendCapabilitiesView, GADGET_NAME};

verus! {

/// Events emitted as the machine advances, forwarded to D-Bus signals by the
/// service layer.
#[derive(Debug, Clone, PartialEq, Eq)]
pub enum DaemonEvent {
    /// A new state snapshot.
    State(StateInfo),
    /// An error occurred (also accompanied by a `State` with `Error`).
    Error {
        /// Stable machine-readable code.
        code: String,
        /// Human-readable message.
        message: String,
    },
}

/// The mathematical content of a [`DaemonEvent`].
pub enum EventView {
    State(StateInfoView),
    Error { code: Seq<char>, message: Seq<char> },
}

impl View for DaemonEvent {
    type V = EventView;

    open spec fn view(&self) -> EventView {
        match self {
            DaemonEvent::State(i) => EventView::State(i@),
            DaemonEvent::Error { code, message } => EventView::Error {
                code: code@,
                message: message@,
            },
        }
    }
}

/// How an operation ended.
#[derive(Debug, Clone)]
pub enum Outcome {
    /// An operation without a result (initialization, recovery) finished.
    Done,
    /// The operation succeeded with this state snapshot.
    Info(StateInfo),
    /// The operation failed with this error.
    Failed(BootDriveError),
}

/// The mathematical content of an [`Outcome`].
pub enum OutcomeView {
    Done,
    Info(StateInfoView),
    Failed(ErrorView),
}

impl View for Outcome {
    type V = OutcomeView;

    open spec fn view(&self) -> OutcomeView {
        match self {
            Outcome::Done => OutcomeView::Done,
            Outcome::Info(i) => OutcomeView::Info(i@),
            Outcome::Failed(e) => OutcomeView::Failed(e@),
        }
    }
}

/// The next thing the daemon must do.
#[derive(Debug, Clone)]
pub enum Action {
    /// Probe the backend for a UDC and mass-storage support.
    Probe,
    /// Ask whether `usb-signaller` is running.
    QuerySignaller,
    /// Persist this recovery record.
    SaveRecovery(RecoveryState),
    /// Read the recovery record.
    LoadRecovery,
    /// Remove the recovery record.
    ClearRecovery,
    /// Stop `usb-signaller`.
    StopSignaller,
    /// Start `usb-signaller`.
    StartSignaller,
    /// Unbind other gadgets from the UDC.
    ReleaseForeignGadgets,
    /// Remove a leftover BootDrive gadget.
    RemoveStaleGadget,
    /// Create and bind the BootDrive gadget for this image in this mode.
    ActivateGadget(ValidatedImage, ImageMode),
    /// Unbind and remove the BootDrive gadget.
    DeactivateGadget,
    /// The operation is over.
    Finished(Outcome),
}

/// The mathematical content of an [`Action`].
pub enum ActionView {
    Probe,
    QuerySignaller,
    SaveRecovery(RecoveryStateView),
    LoadRecovery,
    ClearRecovery,
    StopSignaller,
    StartSignaller,
    ReleaseForeignGadgets,
    RemoveStaleGadget,
    ActivateGadget(ValidatedImageView, ImageMode),
    DeactivateGadget,
    Finished(OutcomeView),
}

impl View for Action {
    type V = ActionView;

    open spec fn view(&self) -> ActionView {
        match self {
            Action::Probe => ActionView::Probe,
            Action::QuerySignaller => ActionView::QuerySignaller,
            Action::SaveRecovery(r) => ActionView::SaveRecovery(r@),
            Action::LoadRecovery => ActionView::LoadRecovery,
            Action::ClearRecovery => ActionView::ClearRecovery,
            Action::StopSignaller => ActionView::StopSignaller,
            Action::StartSignaller => ActionView::StartSignaller,
            Action::ReleaseForeignGadgets => ActionView::ReleaseForeignGadgets,
            Action::RemoveStaleGadget => ActionView::RemoveStaleGadget,
            Action::ActivateGadget(i, m) => ActionView::ActivateGadget(i@, *m),
            Action::DeactivateGadget => ActionView::DeactivateGadget,
            Action::Finished(o) => ActionView::Finished(o@),
        }
    }
}

/// What performing the last action produced.
#[derive(Debug)]
pub enum Reply {
    /// The outcome of [`Action::Probe`].
    Probed(Result<BackendCapabilities, BootDriveError>),
    /// The outcome of [`Action::QuerySignaller`].
    Running(Result<bool, BootDriveError>),
    /// The outcome of [`Action::LoadRecovery`].
    Loaded(Result<Option<RecoveryState>, BootDriveError>),
    /// The outcome of any other action.
    Completed(Result<(), BootDriveError>),
}

/// The mathematical content of a [`Reply`].
pub enum ReplyView {
    Probed(Result<BackendCapabilitiesView, ErrorView>),
    Running(Result<bool, ErrorView>),
    Loaded(Result<Option<RecoveryStateView>, ErrorView>),
    Completed(Result<(), ErrorView>),
}

impl View for Reply {
    type V = ReplyView;

    open spec fn view(&self) -> ReplyView {
        match self {
            Reply::Probed(r) => ReplyView::Probed(
                match r {
                    Ok(c) => Ok(c@),
                    Err(e) => Err(e@),
                },
            ),
            Reply::Running(r) => ReplyView::Running(
                match r {
                    Ok(b) => Ok(*b),
                    Err(e) => Err(e@),
                },
            ),
            Reply::Loaded(r) => ReplyView::Loaded(
                match r {
                    Ok(Some(s)) => Ok(Some(s@)),
                    Ok(None) => Ok(None),
                    Err(e) => Err(e@),
                },
            ),
            Reply::Completed(r) => ReplyView::Completed(
                match r {
                    Ok(()) => Ok(()),
                    Err(e) => Err(e@),
                },
            ),
        }
    }
}

/// Where the machine stands: which action's reply it awaits.
#[derive(Debug, Clone, Copy, PartialEq, Eq, Structural)]
pub enum Phase {
    /// No operation in progress.
    Ready,
    /// Initialization awaits the probe.
    InitProbe,
    /// Recovery awaits the removal of a stale gadget.
    RecoverRemoveStale,
    /// Recovery awaits the recovery record.
    RecoverLoad,
    /// Recovery awaits the restart of `usb-signaller`.
    RecoverRestart,
    /// Recovery awaits the removal of the record.
    RecoverClear,
    /// Activation awaits the probe.
    ActivateProbe,
    /// Activation awaits whether `usb-signaller` runs.
    ActivateQuery,
    /// Activation awaits the saving of the record.
    ActivateSave,
    /// Activation awaits the stop of `usb-signaller`.
    ActivateStop,
    /// Activation awaits the release of other gadgets.
    ActivateRelease,
    /// Activation awaits the removal of a stale gadget.
    ActivateRemoveStale,
    /// Activation awaits the binding of the gadget.
    ActivateGadget,
    /// Rollback awaits the teardown of the gadget.
    RollbackDeactivate,
    /// Rollback awaits the removal of a stale gadget.
    RollbackRemoveStale,
    /// Rollback awaits the restart of `usb-signaller`.
    RollbackRestart,
    /// Rollback awaits the removal of the record.
    RollbackClear,
    /// Ejection awaits the teardown of the gadget.
    EjectGadget,
    /// Ejection, after a failed teardown, awaits the restart of the signaller.
    EjectRestartAfterError,
    /// Ejection, after a failed teardown, awaits the removal of the record.
    EjectClearAfterError,
    /// Ejection awaits the restart of `usb-signaller`.
    EjectRestart,
    /// Ejection, after a failed restart, awaits the removal of the record.
    EjectClearAfterRestartError,
    /// Ejection awaits the removal of the record.
    EjectClear,
}

/// The kinds of actions, without their data.
pub enum ActionKind {
    Probe,
    QuerySignaller,
    SaveRecovery,
    LoadRecovery,
    ClearRecovery,
    StopSignaller,
    StartSignaller,
    ReleaseForeignGadgets,
    RemoveStaleGadget,
    ActivateGadget,
    DeactivateGadget,
    Finished,
}

/// The kind of an action.
pub open spec fn kind_of(a: ActionView) -> ActionKind {
    match a {
        ActionView::Probe => ActionKind::Probe,
        ActionView::QuerySignaller => ActionKind::QuerySignaller,
        ActionView::SaveRecovery(_) => ActionKind::SaveRecovery,
        ActionView::LoadRecovery => ActionKind::LoadRecovery,
        ActionView::ClearRecovery => ActionKind::ClearRecovery,
        ActionView::StopSignaller => ActionKind::StopSignaller,
        ActionView::StartSignaller => ActionKind::StartSignaller,
        ActionView::ReleaseForeignGadgets => ActionKind::ReleaseForeignGadgets,
        ActionView::RemoveStaleGadget => ActionKind::RemoveStaleGadget,
        ActionView::ActivateGadget(_, _) => ActionKind::ActivateGadget,
        ActionView::DeactivateGadget => ActionKind::DeactivateGadget,
        ActionView::Finished(_) => ActionKind::Finished,
    }
}

/// The action whose reply the machine awaits in `p`.
pub open spec fn awaited(p: Phase) -> ActionKind {
    match p {
        Phase::Ready => ActionKind::Finished,
        Phase::InitProbe => ActionKind::Probe,
        Phase::RecoverRemoveStale => ActionKind::RemoveStaleGadget,
        Phase::RecoverLoad => ActionKind::LoadRecovery,
        Phase::RecoverRestart => ActionKind::StartSignaller,
        Phase::RecoverClear => ActionKind::ClearRecovery,
        Phase::ActivateProbe => ActionKind::Probe,
        Phase::ActivateQuery => ActionKind::QuerySignaller,
        Phase::ActivateSave => ActionKind::SaveRecovery,
        Phase::ActivateStop => ActionKind::StopSignaller,
        Phase::ActivateRelease => ActionKind::ReleaseForeignGadgets,
        Phase::ActivateRemoveStale => ActionKind::RemoveStaleGadget,
        Phase::ActivateGadget => ActionKind::ActivateGadget,
        Phase::RollbackDeactivate => ActionKind::DeactivateGadget,
        Phase::RollbackRemoveStale => ActionKind::RemoveStaleGadget,
        Phase::RollbackRestart => ActionKind::StartSignaller,
        Phase::RollbackClear => ActionKind::ClearRecovery,
        Phase::EjectGadget => ActionKind::DeactivateGadget,
        Phase::EjectRestartAfterError => ActionKind::StartSignaller,
        Phase::EjectClearAfterError => ActionKind::ClearRecovery,
        Phase::EjectRestart => ActionKind::StartSignaller,
        Phase::EjectClearAfterRestartError => ActionKind::ClearRecovery,
        Phase::EjectClear => ActionKind::ClearRecovery,
    }
}

/// Whether `r` is the kind of reply an action of kind `k` produces.
pub open spec fn fits_kind(k: ActionKind, r: ReplyView) -> bool {
    match k {
        ActionKind::Finished => false,
        ActionKind::Probe => r is Probed,
        ActionKind::QuerySignaller => r is Running,
        ActionKind::LoadRecovery => r is Loaded,
        _ => r is Completed,
    }
}

/// Whether `r` is the kind of reply the machine awaits in `p`.
pub open spec fn fits(p: Phase, r: ReplyView) -> bool {
    fits_kind(awaited(p), r)
}

/// Whether `a` is the action the machine in phase `p` has asked for: an
/// outcome exactly when no operation is in progress, else an action of the
/// awaited kind.
pub open spec fn asked(p: Phase, a: ActionView) -> bool {
    &&& (a is Finished) == (p == Phase::Ready)
    &&& !(a is Finished) ==> awaited(p) == kind_of(a)
}

/// The phases of an activation, including its rollback.
pub open spec fn in_activation(p: Phase) -> bool {
    match p {
        Phase::ActivateProbe | Phase::ActivateQuery | Phase::ActivateSave | Phase::ActivateStop
        | Phase::ActivateRelease | Phase::ActivateRemoveStale | Phase::ActivateGadget
        | Phase::RollbackDeactivate | Phase::RollbackRemoveStale | Phase::RollbackRestart
        | Phase::RollbackClear => true,
        _ => false,
    }
}

/// The phases of an ejection, including its rollback.
pub open spec fn in_ejection(p: Phase) -> bool {
    match p {
        Phase::EjectGadget | Phase::EjectRestartAfterError | Phase::EjectClearAfterError
        | Phase::EjectRestart | Phase::EjectClearAfterRestartError | Phase::EjectClear
        | Phase::RollbackDeactivate | Phase::RollbackRemoveStale | Phase::RollbackRestart
        | Phase::RollbackClear => true,
        _ => false,
    }
}

/// Whether a reply reports success.
pub open spec fn reply_ok(r: ReplyView) -> bool {
    match r {
        ReplyView::Probed(x) => x is Ok,
        ReplyView::Running(x) => x is Ok,
        ReplyView::Loaded(x) => x is Ok,
        ReplyView::Completed(x) => x is Ok,
    }
}

/// What the daemon's own actions have left in the world and not yet undone:
/// a saved recovery record with no removal issued since, a `usb-signaller`
/// it stopped with no restart issued since, and a gadget it bound with no
/// teardown issued since.
pub struct Ledger {
    pub recovery_saved: bool,
    pub signaller_stopped: bool,
    pub gadget_bound: bool,
}

/// The ledger with nothing outstanding.
pub open spec fn clean() -> Ledger {
    Ledger { recovery_saved: false, signaller_stopped: false, gadget_bound: false }
}

/// The ledger after an action of kind `k` completed, successfully or not.
pub open spec fn effect(l: Ledger, k: ActionKind, ok: bool) -> Ledger {
    match k {
        ActionKind::SaveRecovery => if ok {
            Ledger { recovery_saved: true, ..l }
        } else {
            l
        },
        ActionKind::ClearRecovery => Ledger { recovery_saved: false, ..l },
        ActionKind::StopSignaller => if ok {
            Ledger { signaller_stopped: true, ..l }
        } else {
            l
        },
        ActionKind::StartSignaller => Ledger { signaller_stopped: false, ..l },
        ActionKind::ActivateGadget => if ok {
            Ledger { gadget_bound: true, ..l }
        } else {
            l
        },
        ActionKind::DeactivateGadget => Ledger { gadget_bound: false, ..l },
        ActionKind::RemoveStaleGadget => Ledger { gadget_bound: false, ..l },
        _ => l,
    }
}

/// The mathematical content of a [`Manager`].
pub struct ManagerView {
    pub phase: Phase,
    pub info: StateInfoView,
    pub image: Option<ValidatedImageView>,
    pub mode: ImageMode,
    pub running: bool,
    pub udc: Seq<char>,
    pub error: Option<ErrorView>,
    pub restart: bool,
    pub events: Seq<EventView>,
    pub ledger: Ledger,
}

/// The activation coordinator.
pub struct Manager {
    phase: Phase,
    info: StateInfo,
    image: Option<ValidatedImage>,
    mode: ImageMode,
    running: bool,
    udc: String,
    error: Option<BootDriveError>,
    restart: bool,
    events: Vec<DaemonEvent>,
    ledger: Ghost<Ledger>,
}

impl View for Manager {
    type V = ManagerView;

    closed spec fn view(&self) -> ManagerView {
        ManagerView {
            phase: self.phase,
            info: self.info@,
            image: match self.image {
                Some(i) => Some(i@),
                None => None,
            },
            mode: self.mode,
            running: self.running,
            udc: self.udc@,
            error: match self.error {
                Some(e) => Some(e@),
                None => None,
            },
            restart: self.restart,
            events: self.events@.map_values(|e: DaemonEvent| e@),
            ledger: self.ledger@,
        }
    }
}

// ---------------------------------------------------------------------------
// The model
// ---------------------------------------------------------------------------

/// Structural well-formedness: the data each phase works on is present.
pub open spec fn wf(m: ManagerView) -> bool {
    &&& (match m.phase {
        Phase::ActivateProbe | Phase::ActivateQuery | Phase::ActivateSave | Phase::ActivateStop
        | Phase::ActivateRelease | Phase::ActivateRemoveStale | Phase::ActivateGadget => m.image
            is Some,
        _ => true,
    })
    &&& (match m.phase {
        Phase::RollbackDeactivate | Phase::RollbackRemoveStale | Phase::RollbackRestart
        | Phase::RollbackClear | Phase::EjectClearAfterError | Phase::EjectRestartAfterError
        | Phase::EjectClearAfterRestartError => m.error is Some,
        _ => true,
    })
}

/// `info` with a new lifecycle state.
pub open spec fn with_state(info: StateInfoView, s: DriveState) -> StateInfoView {
    StateInfoView { state: s, ..info }
}

/// `m` after entering state `s` and announcing the new snapshot.
pub open spec fn enter(m: ManagerView, s: DriveState) -> ManagerView {
    ManagerView {
        info: with_state(m.info, s),
        events: m.events.push(EventView::State(with_state(m.info, s))),
        ..m
    }
}

/// `m` moved to phase `p`, awaiting the reply to `a`.
pub open spec fn go(m: ManagerView, p: Phase, a: ActionView) -> (ManagerView, ActionView) {
    (ManagerView { phase: p, ..m }, a)
}

/// The start of a rollback after `err`: tear down the gadget, remove a
/// stale one, restart `usb-signaller` when `restart`, remove the record,
/// then enter `Error`.
pub open spec fn start_rollback(m: ManagerView, err: ErrorView, restart: bool) -> (
    ManagerView,
    ActionView,
) {
    (
        ManagerView { phase: Phase::RollbackDeactivate, error: Some(err), restart, ..m },
        ActionView::DeactivateGadget,
    )
}

/// The recovery record written before an activation perturbs the system.
pub open spec fn record_for(image: ValidatedImageView, running: bool, mode: ImageMode) -> RecoveryStateView {
    RecoveryStateView {
        gadget_name: GADGET_NAME@,
        signaller_was_running: running,
        display_name: image.display_name,
        mode,
    }
}

/// Error event for `e`.
pub open spec fn error_event(e: ErrorView) -> EventView {
    EventView::Error { code: wire_of(e.code), message: e.message }
}

/// The end of a rollback: enter `Error` with the error's message and report
/// the error.
pub open spec fn finish_rollback(m: ManagerView, e: ErrorView) -> (ManagerView, ActionView) {
    let info = StateInfoView {
        signaller_was_running: false,
        udc: Seq::empty(),
        last_error: e.message,
        state: DriveState::Error,
        ..m.info
    };
    (
        ManagerView {
            phase: Phase::Ready,
            info,
            events: m.events.push(EventView::State(info)).push(error_event(e)),
            ..m
        },
        ActionView::Finished(OutcomeView::Failed(e)),
    )
}

/// The transition on reply `r` (the ledger is accounted separately).
pub open spec fn transition(m: ManagerView, r: ReplyView) -> (ManagerView, ActionView) {
    match m.phase {
        Phase::InitProbe => match r {
            ReplyView::Probed(Ok(caps)) => {
                let m2 = enter(
                    ManagerView { info: StateInfoView { udc: caps.udc, ..m.info }, ..m },
                    DriveState::Idle,
                );
                go(m2, Phase::Ready, ActionView::Finished(OutcomeView::Done))
            },
            ReplyView::Probed(Err(e)) => {
                let m2 = enter(
                    ManagerView { info: StateInfoView { last_error: e.message, ..m.info }, ..m },
                    DriveState::Unavailable,
                );
                go(m2, Phase::Ready, ActionView::Finished(OutcomeView::Done))
            },
            _ => (m, ActionView::Finished(OutcomeView::Done)),
        },
        Phase::RecoverRemoveStale => go(m, Phase::RecoverLoad, ActionView::LoadRecovery),
        Phase::RecoverLoad => match r {
            ReplyView::Loaded(Ok(Some(st))) => if st.signaller_was_running {
                go(m, Phase::RecoverRestart, ActionView::StartSignaller)
            } else {
                go(m, Phase::RecoverClear, ActionView::ClearRecovery)
            },
            _ => go(m, Phase::InitProbe, ActionView::Probe),
        },
        Phase::RecoverRestart => go(m, Phase::RecoverClear, ActionView::ClearRecovery),
        Phase::RecoverClear => go(m, Phase::InitProbe, ActionView::Probe),
        Phase::ActivateProbe => match r {
            ReplyView::Probed(Ok(caps)) => go(
                ManagerView { udc: caps.udc, ..m },
                Phase::ActivateQuery,
                ActionView::QuerySignaller,
            ),
            ReplyView::Probed(Err(e)) => start_rollback(m, e, false),
            _ => (m, ActionView::Finished(OutcomeView::Done)),
        },
        Phase::ActivateQuery => {
            let running = match r {
                ReplyView::Running(Ok(b)) => b,
                _ => false,
            };
            go(
                ManagerView { running, ..m },
                Phase::ActivateSave,
                ActionView::SaveRecovery(record_for(m.image->0, running, m.mode)),
            )
        },
        Phase::ActivateSave => match r {
            ReplyView::Completed(Err(e)) => start_rollback(m, e, false),
            _ => if m.running {
                go(m, Phase::ActivateStop, ActionView::StopSignaller)
            } else {
                go(m, Phase::ActivateRelease, ActionView::ReleaseForeignGadgets)
            },
        },
        Phase::ActivateStop => match r {
            ReplyView::Completed(Err(e)) => start_rollback(m, e, false),
            _ => go(m, Phase::ActivateRelease, ActionView::ReleaseForeignGadgets),
        },
        Phase::ActivateRelease => match r {
            ReplyView::Completed(Err(e)) => start_rollback(m, e, m.running),
            _ => go(m, Phase::ActivateRemoveStale, ActionView::RemoveStaleGadget),
        },
        Phase::ActivateRemoveStale => match r {
            ReplyView::Completed(Err(e)) => start_rollback(m, e, m.running),
            _ => go(m, Phase::ActivateGadget, ActionView::ActivateGadget(m.image->0, m.mode)),
        },
        Phase::ActivateGadget => match r {
            ReplyView::Completed(Err(e)) => start_rollback(m, e, m.running),
            _ => {
                let info = StateInfoView {
                    display_name: m.image->0.display_name,
                    mode: m.mode,
                    udc: m.udc,
                    signaller_was_running: m.running,
                    last_error: Seq::empty(),
                    state: DriveState::Active,
                    ..m.info
                };
                (
                    ManagerView {
                        phase: Phase::Ready,
                        info,
                        events: m.events.push(EventView::State(info)),
                        ..m
                    },
                    ActionView::Finished(OutcomeView::Info(info)),
                )
            },
        },
        Phase::RollbackDeactivate => go(m, Phase::RollbackRemoveStale, ActionView::RemoveStaleGadget),
        Phase::RollbackRemoveStale => if m.restart {
            go(m, Phase::RollbackRestart, ActionView::StartSignaller)
        } else {
            go(m, Phase::RollbackClear, ActionView::ClearRecovery)
        },
        Phase::RollbackRestart => go(m, Phase::RollbackClear, ActionView::ClearRecovery),
        Phase::RollbackClear => finish_rollback(m, m.error->0),
        Phase::EjectGadget => match r {
            ReplyView::Completed(Err(e)) => {
                let m2 = ManagerView { error: Some(e), ..m };
                if m.running {
                    go(m2, Phase::EjectRestartAfterError, ActionView::StartSignaller)
                } else {
                    go(m2, Phase::EjectClearAfterError, ActionView::ClearRecovery)
                }
            },
            _ => if m.running {
                go(m, Phase::EjectRestart, ActionView::StartSignaller)
            } else {
                go(m, Phase::EjectClear, ActionView::ClearRecovery)
            },
        },
        Phase::EjectRestartAfterError => go(m, Phase::EjectClearAfterError, ActionView::ClearRecovery),
        Phase::EjectClearAfterError => start_rollback(m, m.error->0, false),
        Phase::EjectRestart => match r {
            ReplyView::Completed(Err(e)) => go(
                ManagerView { error: Some(e), ..m },
                Phase::EjectClearAfterRestartError,
                ActionView::ClearRecovery,
            ),
            _ => go(m, Phase::EjectClear, ActionView::ClearRecovery),
        },
        Phase::EjectClearAfterRestartError => start_rollback(m, m.error->0, false),
        Phase::EjectClear => {
            let info = StateInfoView {
                display_name: Seq::empty(),
                mode: ImageMode::Cdrom,
                signaller_was_running: false,
                last_error: Seq::empty(),
                state: DriveState::Idle,
                ..m.info
            };
            (
                ManagerView {
                    phase: Phase::Ready,
                    info,
                    events: m.events.push(EventView::State(info)),
                    ..m
                },
                ActionView::Finished(OutcomeView::Info(info)),
            )
        },
        Phase::Ready => (m, ActionView::Finished(OutcomeView::Done)),
    }
}

/// One step on reply `r`: the ledger takes the effect of the awaited
/// action, then the machine moves on.
pub open spec fn step(m: ManagerView, r: ReplyView) -> (ManagerView, ActionView) {
    let m1 = ManagerView { ledger: effect(m.ledger, awaited(m.phase), reply_ok(r)), ..m };
    transition(m1, r)
}

/// Starting initialization.
pub open spec fn begin_initialize_spec(m: ManagerView) -> (ManagerView, ActionView) {
    go(m, Phase::InitProbe, ActionView::Probe)
}

/// Starting recovery.
pub open spec fn begin_recover_spec(m: ManagerView) -> (ManagerView, ActionView) {
    go(m, Phase::RecoverRemoveStale, ActionView::RemoveStaleGadget)
}

/// Starting an activation of `image` in `mode`.
pub open spec fn begin_activate_spec(m: ManagerView, image: ValidatedImageView, mode: ImageMode) -> (
    ManagerView,
    ActionView,
) {
    match m.info.state {
        DriveState::Idle | DriveState::Error => {
            let m2 = enter(ManagerView { image: Some(image), mode, ..m }, DriveState::Preparing);
            go(m2, Phase::ActivateProbe, ActionView::Probe)
        },
        DriveState::Unavailable => start_rollback(
            m,
            ErrorView {
                code: ErrorCode::InvalidState,
                message: "BootDrive is not available on this device"@,
            },
            false,
        ),
        _ => (
            m,
            ActionView::Finished(
                OutcomeView::Failed(
                    ErrorView {
                        code: ErrorCode::InvalidState,
                        message: "eject the current image before exposing another"@,
                    },
                ),
            ),
        ),
    }
}

/// Starting an ejection.
pub open spec fn begin_deactivate_spec(m: ManagerView) -> (ManagerView, ActionView) {
    match m.info.state {
        DriveState::Idle | DriveState::Unavailable => (
            m,
            ActionView::Finished(OutcomeView::Info(m.info)),
        ),
        DriveState::Preparing | DriveState::Ejecting => (
            m,
            ActionView::Finished(
                OutcomeView::Failed(
                    ErrorView {
                        code: ErrorCode::InvalidState,
                        message: "a transition is already in progress"@,
                    },
                ),
            ),
        ),
        _ => {
            let m2 = enter(
                ManagerView { running: m.info.signaller_was_running, ..m },
                DriveState::Ejecting,
            );
            go(m2, Phase::EjectGadget, ActionView::DeactivateGadget)
        },
    }
}

// ---------------------------------------------------------------------------
// Runs: what the machine does to its collaborators over a sequence of replies
// ---------------------------------------------------------------------------

/// One action performed and the reply it produced, as seen by the
/// collaborator that performed it.
pub enum Exchange {
    /// A call on the USB backend.
    Backend(BackendCall),
    /// A call on the `usb-signaller` control.
    Signaller(SignallerCall),
    /// A call on the recovery store.
    Store(StoreCall),
    /// Nothing was performed.
    Nothing,
}

/// The call that performing `a` amounts to, when it replied `r`.
pub open spec fn exchange(a: ActionView, r: ReplyView) -> Exchange {
    match (a, r) {
        (ActionView::Probe, ReplyView::Probed(x)) => Exchange::Backend(BackendCall::Probe(x)),
        (ActionView::RemoveStaleGadget, ReplyView::Completed(x)) => Exchange::Backend(
            BackendCall::RemoveStale(x),
        ),
        (ActionView::ReleaseForeignGadgets, ReplyView::Completed(x)) => Exchange::Backend(
            BackendCall::ReleaseForeign(x),
        ),
        (ActionView::ActivateGadget(i, m), ReplyView::Completed(x)) => Exchange::Backend(
            BackendCall::Activate(i, m, x),
        ),
        (ActionView::DeactivateGadget, ReplyView::Completed(x)) => Exchange::Backend(
            BackendCall::Deactivate(x),
        ),
        (ActionView::QuerySignaller, ReplyView::Running(x)) => Exchange::Signaller(
            SignallerCall::Query(x),
        ),
        (ActionView::StopSignaller, ReplyView::Completed(x)) => Exchange::Signaller(
            SignallerCall::Stop(x),
        ),
        (ActionView::StartSignaller, ReplyView::Completed(x)) => Exchange::Signaller(
            SignallerCall::Start(x),
        ),
        (ActionView::LoadRecovery, ReplyView::Loaded(x)) => Exchange::Store(StoreCall::Load(x)),
        (ActionView::SaveRecovery(st), ReplyView::Completed(x)) => Exchange::Store(
            StoreCall::Save(st, x),
        ),
        (ActionView::ClearRecovery, ReplyView::Completed(x)) => Exchange::Store(
            StoreCall::Clear(x),
        ),
        _ => Exchange::Nothing,
    }
}

/// The backend call in an exchange, if it is one.
pub open spec fn backend_part(x: Exchange) -> Seq<BackendCall> {
    match x {
        Exchange::Backend(c) => seq![c],
        _ => Seq::empty(),
    }
}

/// The service-control call in an exchange, if it is one.
pub open spec fn signaller_part(x: Exchange) -> Seq<SignallerCall> {
    match x {
        Exchange::Signaller(c) => seq![c],
        _ => Seq::empty(),
    }
}

/// The store call in an exchange, if it is one.
pub open spec fn store_part(x: Exchange) -> Seq<StoreCall> {
    match x {
        Exchange::Store(c) => seq![c],
        _ => Seq::empty(),
    }
}

/// The backend calls of a sequence of exchanges, in order.
pub open spec fn backend_calls(ex: Seq<Exchange>) -> Seq<BackendCall>
    decreases ex.len(),
{
    if ex.len() == 0 {
        Seq::empty()
    } else {
        backend_calls(ex.drop_last()) + backend_part(ex.last())
    }
}

/// The service-control calls of a sequence of exchanges, in order.
pub open spec fn signaller_calls(ex: Seq<Exchange>) -> Seq<SignallerCall>
    decreases ex.len(),
{
    if ex.len() == 0 {
        Seq::empty()
    } else {
        signaller_calls(ex.drop_last()) + signaller_part(ex.last())
    }
}

/// The store calls of a sequence of exchanges, in order.
pub open spec fn store_calls(ex: Seq<Exchange>) -> Seq<StoreCall>
    decreases ex.len(),
{
    if ex.len() == 0 {
        Seq::empty()
    } else {
        store_calls(ex.drop_last()) + store_part(ex.last())
    }
}

/// The machine `m`, having asked for `a`, after receiving the replies `t`
/// in order: its state and the action it asks for next.
pub open spec fn run(m: ManagerView, a: ActionView, t: Seq<ReplyView>) -> (ManagerView, ActionView)
    decreases t.len(),
{
    if t.len() == 0 {
        (m, a)
    } else {
        let p = run(m, a, t.drop_last());
        step(p.0, t.last())
    }
}

/// The exchanges of that run: each asked action with the reply it got.
pub open spec fn exchanges(m: ManagerView, a: ActionView, t: Seq<ReplyView>) -> Seq<Exchange>
    decreases t.len(),
{
    if t.len() == 0 {
        Seq::empty()
    } else {
        exchanges(m, a, t.drop_last()).push(exchange(run(m, a, t.drop_last()).1, t.last()))
    }
}

/// An operation that started in `m` asking for `a` received the replies
/// `t`, ended in `end` with the final action `last`, and made exactly the
/// calls of that run: the collaborators' histories went from `b0`, `s0`,
/// `r0` to `b1`, `s1`, `r1` by them.
pub open spec fn performed(
    m: ManagerView,
    a: ActionView,
    t: Seq<ReplyView>,
    end: ManagerView,
    last: ActionView,
    b0: Seq<BackendCall>,
    b1: Seq<BackendCall>,
    s0: Seq<SignallerCall>,
    s1: Seq<SignallerCall>,
    r0: Seq<StoreCall>,
    r1: Seq<StoreCall>,
) -> bool {
    &&& run(m, a, t) == (end, last)
    &&& b1 == b0 + backend_calls(exchanges(m, a, t))
    &&& s1 == s0 + signaller_calls(exchanges(m, a, t))
    &&& r1 == r0 + store_calls(exchanges(m, a, t))
}

/// The outcome an operation's result reports.
pub open spec fn result_outcome(r: Result<StateInfo, BootDriveError>) -> OutcomeView {
    match r {
        Ok(i) => OutcomeView::Info(i@),
        Err(e) => OutcomeView::Failed(e@),
    }
}

/// The phases of a rollback.
pub open spec fn in_rollback(p: Phase) -> bool {
    match p {
        Phase::RollbackDeactivate | Phase::RollbackRemoveStale | Phase::RollbackRestart
        | Phase::RollbackClear => true,
        _ => false,
    }
}

// ---------------------------------------------------------------------------
// The machine
// ---------------------------------------------------------------------------

impl Manager {
    /// A manager with no operation in progress, in state `Unavailable`.
    pub fn new() -> (r: Manager)
        ensures
            wf(r@),
            r@.phase == Phase::Ready,
            r@.info.state == DriveState::Unavailable,
            r@.info.display_name == Seq::<char>::empty(),
            r@.info.udc == Seq::<char>::empty(),
            r@.info.last_error == Seq::<char>::empty(),
            !r@.info.signaller_was_running,
            r@.events == Seq::<EventView>::empty(),
            r@.ledger == clean(),
            consistent(r@),
    {
        let r = Manager {
            phase: Phase::Ready,
            info: StateInfo::default(),
            image: None,
            mode: ImageMode::Cdrom,
            running: false,
            udc: String::new(),
            error: None,
            restart: false,
            events: Vec::new(),
            ledger: Ghost(clean()),
        };
        assert(r@.events =~= Seq::<EventView>::empty());
        r
    }

    /// The current state snapshot.
    pub fn info(&self) -> (r: StateInfo)
        ensures
            r@ == self@.info,
    {
        self.info.snapshot()
    }

    /// The phase the machine is in.
    pub fn phase(&self) -> (r: Phase)
        ensures
            r == self@.phase,
    {
        self.phase
    }

    /// Hands out the events emitted so far and forgets them.
    pub fn take_events(&mut self) -> (r: Vec<DaemonEvent>)
        ensures
            r@.map_values(|e: DaemonEvent| e@) == old(self)@.events,
            final(self)@ == (ManagerView { events: Seq::empty(), ..old(self)@ }),
    {
        let mut r: Vec<DaemonEvent> = Vec::new();
        std::mem::swap(&mut r, &mut self.events);
        assert(self@.events =~= Seq::<EventView>::empty());
        r
    }

    fn emit_state(&mut self)
        ensures
            final(self)@ == (ManagerView {
                events: old(self)@.events.push(EventView::State(old(self)@.info)),
                ..old(self)@
            }),
    {
        let ghost before = self.events@;
        let snap = self.info.snapshot();
        self.events.push(DaemonEvent::State(snap));
        assert(self@.events =~= before.map_values(|e: DaemonEvent| e@).push(
            EventView::State(old(self)@.info),
        ));
    }

    fn emit_error(&mut self, err: &BootDriveError)
        ensures
            final(self)@ == (ManagerView {
                events: old(self)@.events.push(error_event(err@)),
                ..old(self)@
            }),
    {
        let ghost before = self.events@;
        let code = String::from_str(err.code.as_wire());
        self.events.push(DaemonEvent::Error { code, message: err.message.clone() });
        assert(self@.events =~= before.map_values(|e: DaemonEvent| e@).push(error_event(err@)));
    }

    fn set_state(&mut self, s: DriveState)
        ensures
            final(self)@ == enter(old(self)@, s),
    {
        self.info.state = s;
        self.emit_state();
    }

    /// Surface an error that occurred *before* a transaction began (e.g.
    /// image validation), without changing the lifecycle state.
    pub fn report_error(&mut self, err: &BootDriveError)
        ensures
            final(self)@ == ({
                let info = StateInfoView { last_error: err@.message, ..old(self)@.info };
                ManagerView {
                    info,
                    events: old(self)@.events.push(error_event(err@)).push(EventView::State(info)),
                    ..old(self)@
                }
            }),
    {
        self.info.last_error = err.message.clone();
        self.emit_error(err);
        self.emit_state();
    }

    /// Start probing the hardware to set the initial state to `Idle` or
    /// `Unavailable`.
    pub fn begin_initialize(&mut self) -> (a: Action)
        requires
            old(self)@.phase == Phase::Ready,
        ensures
            (final(self)@, a@) == begin_initialize_spec(old(self)@),
    {
        self.phase = Phase::InitProbe;
        Action::Probe
    }

    /// Start reconciling persisted recovery state after a (possibly unclean)
    /// restart: a stale gadget is always removed, `usb-signaller` is
    /// restored if it had been stopped for an activation, the record is
    /// cleared, and the hardware is probed.
    pub fn begin_recover(&mut self) -> (a: Action)
        requires
            old(self)@.phase == Phase::Ready,
        ensures
            (final(self)@, a@) == begin_recover_spec(old(self)@),
    {
        self.phase = Phase::RecoverRemoveStale;
        Action::RemoveStaleGadget
    }

    fn rollback(&mut self, err: BootDriveError, restart: bool) -> (a: Action)
        ensures
            (final(self)@, a@) == start_rollback(old(self)@, err@, restart),
    {
        self.phase = Phase::RollbackDeactivate;
        self.error = Some(err);
        self.restart = restart;
        Action::DeactivateGadget
    }

    /// Start transactionally exposing `image` in `mode`.
    pub fn begin_activate(&mut self, image: ValidatedImage, mode: ImageMode) -> (a: Action)
        requires
            old(self)@.phase == Phase::Ready,
        ensures
            (final(self)@, a@) == begin_activate_spec(old(self)@, image@, mode),
    {
        match self.info.state {
            DriveState::Idle | DriveState::Error => {
                self.image = Some(image);
                self.mode = mode;
                self.set_state(DriveState::Preparing);
                self.phase = Phase::ActivateProbe;
                Action::Probe
            },
            DriveState::Unavailable => {
                let e = BootDriveError::invalid_state(
                    String::from_str("BootDrive is not available on this device"),
                );
                self.rollback(e, false)
            },
            _ => {
                let e = BootDriveError::invalid_state(
                    String::from_str("eject the current image before exposing another"),
                );
                Action::Finished(Outcome::Failed(e))
            },
        }
    }

    /// Start transactionally ejecting the current image and restoring normal
    /// USB behaviour.
    pub fn begin_deactivate(&mut self) -> (a: Action)
        requires
            old(self)@.phase == Phase::Ready,
        ensures
            (final(self)@, a@) == begin_deactivate_spec(old(self)@),
    {
        match self.info.state {
            DriveState::Idle | DriveState::Unavailable => Action::Finished(
                Outcome::Info(self.info.snapshot()),
            ),
            DriveState::Preparing | DriveState::Ejecting => {
                let e = BootDriveError::invalid_state(
                    String::from_str("a transition is already in progress"),
                );
                Action::Finished(Outcome::Failed(e))
            },
            _ => {
                self.running = self.info.signaller_was_running;
                self.set_state(DriveState::Ejecting);
                self.phase = Phase::EjectGadget;
                Action::DeactivateGadget
            },
        }
    }

    /// Whether `reply` is the kind of reply the machine awaits.
    pub fn accepts(&self, reply: &Reply) -> (r: bool)
        ensures
            r == fits(self@.phase, reply@),
    {
        match self.phase {
            Phase::Ready => false,
            Phase::InitProbe | Phase::ActivateProbe => match reply {
                Reply::Probed(_) => true,
                _ => false,
            },
            Phase::ActivateQuery => match reply {
                Reply::Running(_) => true,
                _ => false,
            },
            Phase::RecoverLoad => match reply {
                Reply::Loaded(_) => true,
                _ => false,
            },
            _ => match reply {
                Reply::Completed(_) => true,
                _ => false,
            },
        }
    }

    /// Advance initialization or recovery.
    fn resume_init(&mut self, reply: Reply) -> (a: Action)
        requires
            wf(old(self)@),
            fits(old(self)@.phase, reply@),
            old(self)@.phase == Phase::InitProbe || old(self)@.phase == Phase::RecoverRemoveStale || old(self)@.phase == Phase::RecoverLoad || old(self)@.phase == Phase::RecoverRestart || old(self)@.phase == Phase::RecoverClear,
        ensures
            wf(final(self)@),
            (final(self)@, a@) == transition(old(self)@, reply@),
    {
        match self.phase {
            Phase::InitProbe => match reply {
                Reply::Probed(Ok(caps)) => {
                    self.info.udc = caps.udc;
                    self.set_state(DriveState::Idle);
                    self.phase = Phase::Ready;
                    Action::Finished(Outcome::Done)
                },
                Reply::Probed(Err(e)) => {
                    self.info.last_error = e.message;
                    self.set_state(DriveState::Unavailable);
                    self.phase = Phase::Ready;
                    Action::Finished(Outcome::Done)
                },
                _ => Action::Finished(Outcome::Done),
            },
            Phase::RecoverRemoveStale => {
                self.phase = Phase::RecoverLoad;
                Action::LoadRecovery
            },
            Phase::RecoverLoad => match reply {
                Reply::Loaded(Ok(Some(st))) => {
                    if st.signaller_was_running {
                        self.phase = Phase::RecoverRestart;
                        Action::StartSignaller
                    } else {
                        self.phase = Phase::RecoverClear;
                        Action::ClearRecovery
                    }
                },
                _ => {
                    self.phase = Phase::InitProbe;
                    Action::Probe
                },
            },
            Phase::RecoverRestart => {
                self.phase = Phase::RecoverClear;
                Action::ClearRecovery
            },
            Phase::RecoverClear => {
                self.phase = Phase::InitProbe;
                Action::Probe
            },
            _ => Action::Finished(Outcome::Done),
        }
    }

    /// Advance the first half of an activation.
    fn resume_act1(&mut self, reply: Reply) -> (a: Action)
        requires
            wf(old(self)@),
            fits(old(self)@.phase, reply@),
            old(self)@.phase == Phase::ActivateProbe || old(self)@.phase == Phase::ActivateQuery || old(self)@.phase == Phase::ActivateSave || old(self)@.phase == Phase::ActivateStop,
        ensures
            wf(final(self)@),
            (final(self)@, a@) == transition(old(self)@, reply@),
    {
        match self.phase {
            Phase::ActivateProbe => match reply {
                Reply::Probed(Ok(caps)) => {
                    self.udc = caps.udc;
                    self.phase = Phase::ActivateQuery;
                    Action::QuerySignaller
                },
                Reply::Probed(Err(e)) => self.rollback(e, false),
                _ => Action::Finished(Outcome::Done),
            },
            Phase::ActivateQuery => {
                let running = match reply {
                    Reply::Running(Ok(b)) => b,
                    _ => false,
                };
                self.running = running;
                self.phase = Phase::ActivateSave;
                let display_name = match &self.image {
                    Some(img) => img.display_name.clone(),
                    None => String::new(),
                };
                Action::SaveRecovery(
                    RecoveryState {
                        gadget_name: String::from_str(GADGET_NAME),
                        signaller_was_running: running,
                        display_name,
                        mode: self.mode,
                    },
                )
            },
            Phase::ActivateSave => match reply {
                Reply::Completed(Err(e)) => self.rollback(e, false),
                _ => {
                    if self.running {
                        self.phase = Phase::ActivateStop;
                        Action::StopSignaller
                    } else {
                        self.phase = Phase::ActivateRelease;
                        Action::ReleaseForeignGadgets
                    }
                },
            },
            Phase::ActivateStop => match reply {
                Reply::Completed(Err(e)) => self.rollback(e, false),
                _ => {
                    self.phase = Phase::ActivateRelease;
                    Action::ReleaseForeignGadgets
                },
            },
            _ => Action::Finished(Outcome::Done),
        }
    }

    /// Advance the second half of an activation.
    fn resume_act2(&mut self, reply: Reply) -> (a: Action)
        requires
            wf(old(self)@),
            fits(old(self)@.phase, reply@),
            old(self)@.phase == Phase::ActivateRelease || old(self)@.phase == Phase::ActivateRemoveStale || old(self)@.phase == Phase::ActivateGadget,
        ensures
            wf(final(self)@),
            (final(self)@, a@) == transition(old(self)@, reply@),
    {
        match self.phase {
            Phase::ActivateRelease => match reply {
                Reply::Completed(Err(e)) => {
                    let restart = self.running;
                    self.rollback(e, restart)
                },
                _ => {
                    self.phase = Phase::ActivateRemoveStale;
                    Action::RemoveStaleGadget
                },
            },
            Phase::ActivateRemoveStale => match reply {
                Reply::Completed(Err(e)) => {
                    let restart = self.running;
                    self.rollback(e, restart)
                },
                _ => {
                    self.phase = Phase::ActivateGadget;
                    let img = match &self.image {
                        Some(img) => img.duplicate(),
                        None => ValidatedImage {
                            path: String::new(),
                            display_name: String::new(),
                            size: 0,
                        },
                    };
                    Action::ActivateGadget(img, self.mode)
                },
            },
            Phase::ActivateGadget => match reply {
                Reply::Completed(Err(e)) => {
                    let restart = self.running;
                    self.rollback(e, restart)
                },
                _ => {
                    let display_name = match &self.image {
                        Some(img) => img.display_name.clone(),
                        None => String::new(),
                    };
                    self.info.display_name = display_name;
                    self.info.mode = self.mode;
                    self.info.udc = self.udc.clone();
                    self.info.signaller_was_running = self.running;
                    self.info.last_error = String::new();
                    self.set_state(DriveState::Active);
                    self.phase = Phase::Ready;
                    Action::Finished(Outcome::Info(self.info.snapshot()))
                },
            },
            _ => Action::Finished(Outcome::Done),
        }
    }

    /// Advance a rollback.
    fn resume_rollback(&mut self, reply: Reply) -> (a: Action)
        requires
            wf(old(self)@),
            fits(old(self)@.phase, reply@),
            old(self)@.phase == Phase::RollbackDeactivate || old(self)@.phase == Phase::RollbackRemoveStale || old(self)@.phase == Phase::RollbackRestart || old(self)@.phase == Phase::RollbackClear,
        ensures
            wf(final(self)@),
            (final(self)@, a@) == transition(old(self)@, reply@),
    {
        match self.phase {
            Phase::RollbackDeactivate => {
                self.phase = Phase::RollbackRemoveStale;
                Action::RemoveStaleGadget
            },
            Phase::RollbackRemoveStale => {
                if self.restart {
                    self.phase = Phase::RollbackRestart;
                    Action::StartSignaller
                } else {
                    self.phase = Phase::RollbackClear;
                    Action::ClearRecovery
                }
            },
            Phase::RollbackRestart => {
                self.phase = Phase::RollbackClear;
                Action::ClearRecovery
            },
            Phase::RollbackClear => {
                let err = match &self.error {
                    Some(e) => e.duplicate(),
                    None => BootDriveError::internal(String::new()),
                };
                self.info.signaller_was_running = false;
                self.info.udc = String::new();
                self.info.last_error = err.message.clone();
                self.set_state(DriveState::Error);
                self.emit_error(&err);
                self.phase = Phase::Ready;
                Action::Finished(Outcome::Failed(err))
            },
            _ => Action::Finished(Outcome::Done),
        }
    }

    /// Advance an ejection.
    fn resume_eject(&mut self, reply: Reply) -> (a: Action)
        requires
            wf(old(self)@),
            fits(old(self)@.phase, reply@),
            old(self)@.phase == Phase::EjectGadget || old(self)@.phase == Phase::EjectRestartAfterError || old(self)@.phase == Phase::EjectClearAfterError || old(self)@.phase == Phase::EjectClearAfterRestartError || old(self)@.phase == Phase::EjectRestart || old(self)@.phase == Phase::EjectClear,
        ensures
            wf(final(self)@),
            (final(self)@, a@) == transition(old(self)@, reply@),
    {
        match self.phase {
            Phase::EjectGadget => match reply {
                Reply::Completed(Err(e)) => {
                    self.error = Some(e);
                    if self.running {
                        self.phase = Phase::EjectRestartAfterError;
                        Action::StartSignaller
                    } else {
                        self.phase = Phase::EjectClearAfterError;
                        Action::ClearRecovery
                    }
                },
                _ => {
                    if self.running {
                        self.phase = Phase::EjectRestart;
                        Action::StartSignaller
                    } else {
                        self.phase = Phase::EjectClear;
                        Action::ClearRecovery
                    }
                },
            },
            Phase::EjectRestartAfterError => {
                self.phase = Phase::EjectClearAfterError;
                Action::ClearRecovery
            },
            Phase::EjectClearAfterError | Phase::EjectClearAfterRestartError => {
                let err = match &self.error {
                    Some(e) => e.duplicate(),
                    None => BootDriveError::internal(String::new()),
                };
                self.rollback(err, false)
            },
            Phase::EjectRestart => match reply {
                Reply::Completed(Err(e)) => {
                    self.error = Some(e);
                    self.phase = Phase::EjectClearAfterRestartError;
                    Action::ClearRecovery
                },
                _ => {
                    self.phase = Phase::EjectClear;
                    Action::ClearRecovery
                },
            },
            Phase::EjectClear => {
                self.info.display_name = String::new();
                self.info.mode = ImageMode::Cdrom;
                self.info.signaller_was_running = false;
                self.info.last_error = String::new();
                self.set_state(DriveState::Idle);
                self.phase = Phase::Ready;
                Action::Finished(Outcome::Info(self.info.snapshot()))
            },

            _ => Action::Finished(Outcome::Done),
        }
    }

    /// Run the operation whose first action is `first` to its end,
    /// performing each action against the backend, the signaller and the
    /// recovery store.
    #[verifier::rlimit(60)]
    #[verifier::spinoff_prover]
    pub fn drive<B: UsbBackend, S: SignallerControl, R: RecoveryStorage>(
        &mut self,
        first: Action,
        backend: &mut B,
        signaller: &mut S,
        store: &mut R,
    ) -> (o: Outcome)
        requires
            wf(old(self)@),
            asked(old(self)@.phase, first@),
        ensures
            wf(final(self)@),
            final(self)@.phase == Phase::Ready,
            consistent(old(self)@) ==> consistent(final(self)@),
            first is Finished ==> final(self)@ == old(self)@ && first@ == ActionView::Finished(o@),
            first is Finished ==> *final(backend) == *old(backend) && *final(signaller)
                == *old(signaller) && *final(store) == *old(store),
            old(backend).faithful() ==> final(backend).faithful(),
            old(signaller).faithful() ==> final(signaller).faithful(),
            old(store).faithful() ==> final(store).faithful(),
            final(backend).model() == old(backend).model(),
            final(signaller).model() == old(signaller).model(),
            final(store).model() == old(store).model(),
            exists|t: Seq<ReplyView>|
                #[trigger] performed(
                    old(self)@,
                    first@,
                    t,
                    final(self)@,
                    ActionView::Finished(o@),
                    old(backend).history(),
                    final(backend).history(),
                    old(signaller).history(),
                    final(signaller).history(),
                    old(store).history(),
                    final(store).history(),
                ) && (starts_activation(old(self)@) ==> activation_law(
                    exchanges(old(self)@, first@, t),
                    old(self)@.image->0,
                    old(self)@.mode,
                    o@,
                )),
            !(first is Finished) ==> (o matches Outcome::Info(i) ==> i@ == final(self)@.info),
            o is Failed && !(first is Finished) ==> final(self)@.info.state == DriveState::Error,
            !(first is Finished) ==> (o matches Outcome::Failed(e) ==> {
                &&& final(self)@.info.last_error == e@.message
                &&& final(self)@.info.udc == Seq::<char>::empty()
                &&& !final(self)@.info.signaller_was_running
            }),
            in_rollback(old(self)@.phase) ==> o@ == OutcomeView::Failed(old(self)@.error->0),
            o is Info && in_activation(old(self)@.phase) ==> {
                &&& final(self)@.info.state == DriveState::Active
                &&& final(self)@.info.display_name == old(self)@.image->0.display_name
                &&& final(self)@.info.mode == old(self)@.mode
            },
            o is Info && in_ejection(old(self)@.phase) ==> {
                &&& final(self)@.info.state == DriveState::Idle
                &&& final(self)@.info.display_name == Seq::<char>::empty()
                &&& final(self)@.info.mode == ImageMode::Cdrom
                &&& !final(self)@.info.signaller_was_running
                &&& final(self)@.info.last_error == Seq::<char>::empty()
            },
            (in_activation(old(self)@.phase) || in_ejection(old(self)@.phase)) ==> !(o is Done),
            old(self)@.phase == Phase::ActivateProbe ==> (o matches Outcome::Info(i) ==> activated(
                old(self)@.image->0,
                old(self)@.mode,
                old(backend).history(),
                old(signaller).history(),
                old(store).history(),
                final(backend).history(),
                final(signaller).history(),
                final(store).history(),
                i@,
            )),
            old(self)@.phase == Phase::ActivateProbe ==> (o matches Outcome::Failed(e)
                ==> rolled_back_calls(
                old(backend).history(),
                old(signaller).history(),
                old(store).history(),
                final(backend).history(),
                final(signaller).history(),
                final(store).history(),
                e@,
            )),
            final(self)@.events.len() >= old(self)@.events.len(),
            forall|i: int|
                0 <= i < old(self)@.events.len() ==> #[trigger] final(self)@.events[i] == old(
                    self,
                )@.events[i],
            old(self)@.phase != Phase::Ready ==> (o matches Outcome::Info(i) ==> {
                &&& final(self)@.events.len() > 0
                &&& final(self)@.events.last() == EventView::State(i@)
            }),
            old(self)@.phase != Phase::Ready ==> (o matches Outcome::Failed(e) ==> {
                &&& final(self)@.events.len() >= 2
                &&& final(self)@.events.last() == error_event(e@)
                &&& final(self)@.events[final(self)@.events.len() - 2] == EventView::State(
                    final(self)@.info,
                )
            }),
            old(self)@.phase == Phase::EjectGadget ==> (o matches Outcome::Info(_) ==> ejected(
                old(backend).history(),
                old(signaller).history(),
                old(store).history(),
                final(backend).history(),
                final(signaller).history(),
                final(store).history(),
                old(self)@.running,
            )),
            old(self)@.phase == Phase::EjectGadget ==> (o matches Outcome::Failed(e) ==> eject_failed(
                old(backend).history(),
                old(signaller).history(),
                old(store).history(),
                final(backend).history(),
                final(signaller).history(),
                final(store).history(),
                e@,
            )),
    {
        let ghost start = self@;
        let ghost b0 = backend.history();
        let ghost s0 = signaller.history();
        let ghost r0 = store.history();
        let ghost mut t: Seq<ReplyView> = Seq::empty();
        assert(b0 + backend_calls(exchanges(start, first@, t)) =~= b0);
        assert(s0 + signaller_calls(exchanges(start, first@, t)) =~= s0);
        assert(r0 + store_calls(exchanges(start, first@, t)) =~= r0);
        assert(b0.take(b0.len() as int) =~= b0);
        assert(s0.take(s0.len() as int) =~= s0);
        assert(r0.take(r0.len() as int) =~= r0);
        let mut a = first;
        loop
            invariant
                start == old(self)@,
                drive_inv(start, self@, a@),
                asked(start.phase, first@),
                start.phase == Phase::Ready ==> self@ == start && a@ == first@,
                start.phase == Phase::Ready ==> t.len() == 0,
                first is Finished ==> a@ == first@ && *backend == *old(backend) && *signaller
                    == *old(signaller) && *store == *old(store),
                old(backend).faithful() ==> backend.faithful(),
                old(signaller).faithful() ==> signaller.faithful(),
                old(store).faithful() ==> store.faithful(),
                backend.model() == old(backend).model(),
                signaller.model() == old(signaller).model(),
                store.model() == old(store).model(),
                b0 == old(backend).history(),
                s0 == old(signaller).history(),
                r0 == old(store).history(),
                events_inv(start, self@, a@),
                start.phase == Phase::EjectGadget ==> self@.running == start.running,
                start.phase == Phase::EjectGadget ==> ejection_calls_inv(
                    self@,
                    a@,
                    b0,
                    s0,
                    r0,
                    backend.history(),
                    signaller.history(),
                    store.history(),
                ),
                start.phase == Phase::ActivateProbe ==> activation_calls_inv(
                    start.image->0,
                    start.mode,
                    self@,
                    a@,
                    b0,
                    s0,
                    r0,
                    backend.history(),
                    signaller.history(),
                    store.history(),
                ),
                starts_activation(start) ==> activation_inv(
                    start.image->0,
                    start.mode,
                    self@,
                    a@,
                    exchanges(start, first@, t),
                ),
                performed(
                    start,
                    first@,
                    t,
                    self@,
                    a@,
                    b0,
                    backend.history(),
                    s0,
                    signaller.history(),
                    r0,
                    store.history(),
                ),
            decreases steps_left(self@.phase),
        {
            match a {
                Action::Finished(o) => {
                    return o;
                },
                _ => {},
            }
            let ghost before = self@;
            let ghost asked_a = a@;
            let ghost bh = backend.history();
            let ghost sh = signaller.history();
            let ghost rh = store.history();
            let reply = perform(&a, backend, signaller, store);
            let ghost rv = reply@;
            proof {
                lemma_drive_step(start, self@, a@, reply@);
                if start.phase != Phase::Ready {
                    lemma_events_step(start, self@, a@, reply@);
                }
                if start.phase == Phase::EjectGadget {
                    lemma_ejection_calls_step(self@, a@, b0, s0, r0, bh, sh, rh, reply@);
                }
                if start.phase == Phase::ActivateProbe {
                    lemma_activation_calls_step(
                        start.image->0,
                        start.mode,
                        self@,
                        a@,
                        b0,
                        s0,
                        r0,
                        bh,
                        sh,
                        rh,
                        reply@,
                    );
                }
                if starts_activation(start) {
                    lemma_activation_step(
                        start.image->0,
                        start.mode,
                        self@,
                        a@,
                        exchanges(start, first@, t),
                        reply@,
                    );
                }
            }
            a = self.resume(reply);
            proof {
                let t2 = t.push(rv);
                assert(t2.drop_last() =~= t);
                assert(run(start, first@, t2) == step(before, rv));
                assert(exchanges(start, first@, t2) == exchanges(start, first@, t).push(
                    exchange(asked_a, rv),
                ));
                assert(exchanges(start, first@, t2).drop_last() =~= exchanges(start, first@, t));
                assert(b0 + backend_calls(exchanges(start, first@, t2)) =~= bh + backend_part(
                    exchange(asked_a, rv),
                ));
                assert(s0 + signaller_calls(exchanges(start, first@, t2)) =~= sh + signaller_part(
                    exchange(asked_a, rv),
                ));
                assert(r0 + store_calls(exchanges(start, first@, t2)) =~= rh + store_part(
                    exchange(asked_a, rv),
                ));
                t = t2;
            }
        }
    }

    /// Probe the hardware and set the initial state to `Idle` or
    /// `Unavailable`.
    pub fn initialize<B: UsbBackend, S: SignallerControl, R: RecoveryStorage>(
        &mut self,
        backend: &mut B,
        signaller: &mut S,
        store: &mut R,
    )
        requires
            wf(old(self)@),
            old(self)@.phase == Phase::Ready,
        ensures
            wf(final(self)@),
            final(self)@.phase == Phase::Ready,
            old(backend).faithful() ==> final(backend).faithful(),
            old(signaller).faithful() ==> final(signaller).faithful(),
            old(store).faithful() ==> final(store).faithful(),
            final(backend).model() == old(backend).model(),
            final(signaller).model() == old(signaller).model(),
            final(store).model() == old(store).model(),
            final(self)@.info.state == DriveState::Idle || final(self)@.info.state
                == DriveState::Unavailable,
            consistent(old(self)@) && old(self)@.info.state != DriveState::Active ==> consistent(
                final(self)@,
            ),
            consistent(old(self)@) && old(self)@.info.state != DriveState::Active
                ==> final(self)@.ledger == clean(),
            initialization_calls(
                old(backend).history(),
                old(signaller).history(),
                old(store).history(),
                final(backend).history(),
                final(signaller).history(),
                final(store).history(),
            ),
            final(self)@.info == probe_info(old(self)@.info, final(backend).history().last()->Probe_0),
            exists|t: Seq<ReplyView>|
                #[trigger] performed(
                    begin_initialize_spec(old(self)@).0,
                    begin_initialize_spec(old(self)@).1,
                    t,
                    final(self)@,
                    ActionView::Finished(OutcomeView::Done),
                    old(backend).history(),
                    final(backend).history(),
                    old(signaller).history(),
                    final(signaller).history(),
                    old(store).history(),
                    final(store).history(),
                ),
    {
        proof {
            lemma_begin_asks(self@);
            if consistent(self@) && self@.info.state != DriveState::Active {
                lemma_begin_consistent(self@, self@.image->0, self@.mode);
            }
        }
        let first = self.begin_initialize();
        self.drive_startup(first, backend, signaller, store);
        proof {
            if consistent(self@) {
                lemma_nothing_left_behind(self@);
            }
        }
    }

    /// Reconcile persisted recovery state after a (possibly unclean)
    /// restart: always removes a stale gadget, restores `usb-signaller` if
    /// it had been stopped for an activation, clears the recovery record,
    /// then initializes.
    pub fn recover<B: UsbBackend, S: SignallerControl, R: RecoveryStorage>(
        &mut self,
        backend: &mut B,
        signaller: &mut S,
        store: &mut R,
    )
        requires
            wf(old(self)@),
            old(self)@.phase == Phase::Ready,
        ensures
            wf(final(self)@),
            final(self)@.phase == Phase::Ready,
            old(backend).faithful() ==> final(backend).faithful(),
            old(signaller).faithful() ==> final(signaller).faithful(),
            old(store).faithful() ==> final(store).faithful(),
            final(backend).model() == old(backend).model(),
            final(signaller).model() == old(signaller).model(),
            final(store).model() == old(store).model(),
            final(self)@.info.state == DriveState::Idle || final(self)@.info.state
                == DriveState::Unavailable,
            consistent(old(self)@) && old(self)@.info.state != DriveState::Active ==> consistent(
                final(self)@,
            ),
            consistent(old(self)@) && old(self)@.info.state != DriveState::Active
                ==> final(self)@.ledger == clean(),
            recovery_calls(
                old(backend).history(),
                old(signaller).history(),
                old(store).history(),
                final(backend).history(),
                final(signaller).history(),
                final(store).history(),
            ),
            final(self)@.info == probe_info(old(self)@.info, final(backend).history().last()->Probe_0),
            exists|t: Seq<ReplyView>|
                #[trigger] performed(
                    begin_recover_spec(old(self)@).0,
                    begin_recover_spec(old(self)@).1,
                    t,
                    final(self)@,
                    ActionView::Finished(OutcomeView::Done),
                    old(backend).history(),
                    final(backend).history(),
                    old(signaller).history(),
                    final(signaller).history(),
                    old(store).history(),
                    final(store).history(),
                ),
    {
        proof {
            lemma_begin_asks(self@);
            if consistent(self@) && self@.info.state != DriveState::Active {
                lemma_begin_consistent(self@, self@.image->0, self@.mode);
            }
        }
        let first = self.begin_recover();
        self.drive_startup(first, backend, signaller, store);
        proof {
            if consistent(self@) {
                lemma_nothing_left_behind(self@);
            }
        }
    }

    /// Run initialization or recovery to its end.
    fn drive_startup<B: UsbBackend, S: SignallerControl, R: RecoveryStorage>(
        &mut self,
        first: Action,
        backend: &mut B,
        signaller: &mut S,
        store: &mut R,
    )
        requires
            wf(old(self)@),
            asked(old(self)@.phase, first@),
            old(self)@.phase == Phase::InitProbe || old(self)@.phase == Phase::RecoverRemoveStale,
        ensures
            wf(final(self)@),
            old(backend).faithful() ==> final(backend).faithful(),
            old(signaller).faithful() ==> final(signaller).faithful(),
            old(store).faithful() ==> final(store).faithful(),
            final(backend).model() == old(backend).model(),
            final(signaller).model() == old(signaller).model(),
            final(store).model() == old(store).model(),
            final(self)@.phase == Phase::Ready,
            final(self)@.info.state == DriveState::Idle || final(self)@.info.state
                == DriveState::Unavailable,
            consistent(old(self)@) ==> consistent(final(self)@),
            old(self)@.phase == Phase::InitProbe ==> initialization_calls(
                old(backend).history(),
                old(signaller).history(),
                old(store).history(),
                final(backend).history(),
                final(signaller).history(),
                final(store).history(),
            ),
            old(self)@.phase == Phase::RecoverRemoveStale ==> recovery_calls(
                old(backend).history(),
                old(signaller).history(),
                old(store).history(),
                final(backend).history(),
                final(signaller).history(),
                final(store).history(),
            ),
            final(backend).history().len() > 0,
            final(backend).history().last() is Probe,
            final(self)@.info == probe_info(old(self)@.info, final(backend).history().last()->Probe_0),
            exists|t: Seq<ReplyView>|
                #[trigger] performed(
                    old(self)@,
                    first@,
                    t,
                    final(self)@,
                    ActionView::Finished(OutcomeView::Done),
                    old(backend).history(),
                    final(backend).history(),
                    old(signaller).history(),
                    final(signaller).history(),
                    old(store).history(),
                    final(store).history(),
                ),
    {
        let ghost start = self@;
        let ghost b0 = backend.history();
        let ghost s0 = signaller.history();
        let ghost r0 = store.history();
        let ghost mut t: Seq<ReplyView> = Seq::empty();
        assert(b0 + backend_calls(exchanges(start, first@, t)) =~= b0);
        assert(s0 + signaller_calls(exchanges(start, first@, t)) =~= s0);
        assert(r0 + store_calls(exchanges(start, first@, t)) =~= r0);
        let mut a = first;
        loop
            invariant
                start == old(self)@,
                start.phase == Phase::InitProbe || start.phase == Phase::RecoverRemoveStale,
                wf(self@),
                asked(self@.phase, a@),
                consistent(start) ==> consistent(self@),
                if a is Finished {
                    &&& a@ == ActionView::Finished(OutcomeView::Done)
                    &&& self@.info.state == DriveState::Idle || self@.info.state
                        == DriveState::Unavailable
                } else {
                    self@.phase == Phase::InitProbe || self@.phase == Phase::RecoverRemoveStale
                        || self@.phase == Phase::RecoverLoad || self@.phase == Phase::RecoverRestart
                        || self@.phase == Phase::RecoverClear
                },
                b0 == old(backend).history(),
                s0 == old(signaller).history(),
                r0 == old(store).history(),
                startup_inv(
                    start,
                    self@,
                    a@,
                    b0,
                    s0,
                    r0,
                    backend.history(),
                    signaller.history(),
                    store.history(),
                ),
                old(backend).faithful() ==> backend.faithful(),
                old(signaller).faithful() ==> signaller.faithful(),
                old(store).faithful() ==> store.faithful(),
                backend.model() == old(backend).model(),
                signaller.model() == old(signaller).model(),
                store.model() == old(store).model(),
                performed(
                    start,
                    first@,
                    t,
                    self@,
                    a@,
                    b0,
                    backend.history(),
                    s0,
                    signaller.history(),
                    r0,
                    store.history(),
                ),
            decreases steps_left(self@.phase),
        {
            match a {
                Action::Finished(_) => {
                    return;
                },
                _ => {},
            }
            let ghost before = self@;
            let ghost asked_a = a@;
            let ghost bh = backend.history();
            let ghost sh = signaller.history();
            let ghost rh = store.history();
            let reply = perform(&a, backend, signaller, store);
            let ghost rv = reply@;
            proof {
                if consistent(self@) {
                    lemma_step_consistent(self@, reply@);
                }
                lemma_operations_finish(self@, reply@, start.image->0, start.mode);
                lemma_step_asks(self@, reply@);
                lemma_startup_step(start, self@, a@, b0, s0, r0, bh, sh, rh, reply@);
            }
            a = self.resume(reply);
            proof {
                let t2 = t.push(rv);
                assert(t2.drop_last() =~= t);
                assert(run(start, first@, t2) == step(before, rv));
                assert(exchanges(start, first@, t2).drop_last() =~= exchanges(start, first@, t));
                assert(b0 + backend_calls(exchanges(start, first@, t2)) =~= bh + backend_part(
                    exchange(asked_a, rv),
                ));
                assert(s0 + signaller_calls(exchanges(start, first@, t2)) =~= sh + signaller_part(
                    exchange(asked_a, rv),
                ));
                assert(r0 + store_calls(exchanges(start, first@, t2)) =~= rh + store_part(
                    exchange(asked_a, rv),
                ));
                t = t2;
            }
        }
    }

    /// Transactionally expose `image` in `mode`. The recovery record
    /// (with whether `usb-signaller` was found running) is saved before the
    /// service is stopped or any gadget is released, removed or bound; a
    /// failure is rolled back: the gadget torn down, `usb-signaller`
    /// started exactly when it had been stopped, the record removed, and
    /// the state set to `Error` with the failure's message.
    pub fn activate<B: UsbBackend, S: SignallerControl, R: RecoveryStorage>(
        &mut self,
        image: ValidatedImage,
        mode: ImageMode,
        backend: &mut B,
        signaller: &mut S,
        store: &mut R,
    ) -> (r: Result<StateInfo, BootDriveError>)
        requires
            wf(old(self)@),
            old(self)@.phase == Phase::Ready,
        ensures
            wf(final(self)@),
            final(self)@.phase == Phase::Ready,
            old(backend).faithful() ==> final(backend).faithful(),
            old(signaller).faithful() ==> final(signaller).faithful(),
            old(store).faithful() ==> final(store).faithful(),
            final(backend).model() == old(backend).model(),
            final(signaller).model() == old(signaller).model(),
            final(store).model() == old(store).model(),
            consistent(old(self)@) ==> consistent(final(self)@),
            r matches Ok(i) ==> {
                &&& i@ == final(self)@.info
                &&& i@.state == DriveState::Active
                &&& i@.display_name == image@.display_name
                &&& i@.mode == mode
            },
            r matches Err(e) ==> final(self)@.info.state == DriveState::Error || (final(self)@
                == old(self)@ && (old(self)@.info.state == DriveState::Active || old(self)@.info.state
                == DriveState::Preparing || old(self)@.info.state == DriveState::Ejecting)
                && e.code == ErrorCode::InvalidState),
            old(self)@.info.state == DriveState::Active || old(self)@.info.state
                == DriveState::Preparing || old(self)@.info.state == DriveState::Ejecting ==> (
            r matches Err(e) && e.code == ErrorCode::InvalidState && e@.message
                == "eject the current image before exposing another"@ && final(self)@ == old(self)@
                && *final(backend) == *old(backend) && *final(signaller) == *old(signaller)
                && *final(store) == *old(store)),
            old(self)@.info.state == DriveState::Unavailable ==> (r matches Err(e) && e.code
                == ErrorCode::InvalidState && e@.message
                == "BootDrive is not available on this device"@ && final(self)@.info.state
                == DriveState::Error),
            old(self)@.info.state == DriveState::Idle || old(self)@.info.state == DriveState::Error
                || old(self)@.info.state == DriveState::Unavailable ==> (r matches Err(e) ==> {
                &&& final(self)@.info.state == DriveState::Error
                &&& final(self)@.info.last_error == e@.message
                &&& final(self)@.info.udc == Seq::<char>::empty()
                &&& !final(self)@.info.signaller_was_running
            }),
            consistent(old(self)@) && final(self)@.info.state != DriveState::Active
                ==> final(self)@.ledger == clean(),
            consistent(old(self)@) && r is Ok ==> {
                &&& final(self)@.ledger.recovery_saved
                &&& final(self)@.ledger.gadget_bound
                &&& final(self)@.ledger.signaller_stopped == final(self)@.info.signaller_was_running
            },
            old(self)@.info.state == DriveState::Idle || old(self)@.info.state == DriveState::Error
                ==> final(self)@.events.len() > old(self)@.events.len() && final(self)@.events[old(
                self,
            )@.events.len() as int] == EventView::State(
                with_state(old(self)@.info, DriveState::Preparing),
            ),
            r matches Ok(i) ==> final(self)@.events.len() > 0 && final(self)@.events.last()
                == EventView::State(i@),
            old(self)@.info.state == DriveState::Idle || old(self)@.info.state == DriveState::Error
                || old(self)@.info.state == DriveState::Unavailable ==> (r matches Err(e) ==> {
                &&& final(self)@.events.len() >= 2
                &&& final(self)@.events.last() == error_event(e@)
                &&& final(self)@.events[final(self)@.events.len() - 2] == EventView::State(
                    final(self)@.info,
                )
            }),
            old(self)@.info.state == DriveState::Idle || old(self)@.info.state == DriveState::Error
                ==> (r matches Ok(i) ==> activated(
                image@,
                mode,
                old(backend).history(),
                old(signaller).history(),
                old(store).history(),
                final(backend).history(),
                final(signaller).history(),
                final(store).history(),
                i@,
            )),
            old(self)@.info.state == DriveState::Idle || old(self)@.info.state == DriveState::Error
                ==> (r matches Err(e) ==> rolled_back_calls(
                old(backend).history(),
                old(signaller).history(),
                old(store).history(),
                final(backend).history(),
                final(signaller).history(),
                final(store).history(),
                e@,
            )),
            exists|t: Seq<ReplyView>|
                #[trigger] performed(
                    begin_activate_spec(old(self)@, image@, mode).0,
                    begin_activate_spec(old(self)@, image@, mode).1,
                    t,
                    final(self)@,
                    ActionView::Finished(result_outcome(r)),
                    old(backend).history(),
                    final(backend).history(),
                    old(signaller).history(),
                    final(signaller).history(),
                    old(store).history(),
                    final(store).history(),
                ) && (old(self)@.info.state == DriveState::Idle || old(self)@.info.state
                    == DriveState::Error ==> activation_law(
                    exchanges(
                        begin_activate_spec(old(self)@, image@, mode).0,
                        begin_activate_spec(old(self)@, image@, mode).1,
                        t,
                    ),
                    image@,
                    mode,
                    result_outcome(r),
                )) && (old(self)@.info.state == DriveState::Unavailable ==> rolled_back(
                    exchanges(
                        begin_activate_spec(old(self)@, image@, mode).0,
                        begin_activate_spec(old(self)@, image@, mode).1,
                        t,
                    ),
                    result_outcome(r),
                )),
    {
        proof {
            lemma_begin_asks(self@);
            if consistent(self@) {
                lemma_begin_consistent(self@, image@, mode);
            }
        }
        let ghost before = self@;
        let ghost img = image@;
        let first = self.begin_activate(image, mode);
        proof {
            if first is Finished {
                assert(self@ == before);
            } else {
                assert(in_activation(self@.phase));
            }
        }
        let ghost m0 = self@;
        let ghost a0 = first@;
        let ghost b0 = backend.history();
        let ghost s0 = signaller.history();
        let ghost r0 = store.history();
        let o = self.drive(first, backend, signaller, store);
        proof {
            assert(!(o is Done));
        }
        let r = match o {
            Outcome::Info(i) => Ok(i),
            Outcome::Failed(e) => Err(e),
            Outcome::Done => Err(BootDriveError::internal(String::new())),
        };
        proof {
            if consistent(before) && r is Ok {
                lemma_active_is_recorded(self@);
            }
            let t = choose|t: Seq<ReplyView>|
                performed(
                    m0,
                    a0,
                    t,
                    self@,
                    ActionView::Finished(o@),
                    b0,
                    backend.history(),
                    s0,
                    signaller.history(),
                    r0,
                    store.history(),
                ) && (starts_activation(m0) ==> activation_law(
                    exchanges(m0, a0, t),
                    m0.image->0,
                    m0.mode,
                    o@,
                ));
            assert(result_outcome(r) == o@);
            assert(ActionView::Finished(result_outcome(r)) == ActionView::Finished(o@));
            assert((m0, a0) == begin_activate_spec(before, img, mode));
            assert(performed(
                begin_activate_spec(before, img, mode).0,
                begin_activate_spec(before, img, mode).1,
                t,
                self@,
                ActionView::Finished(result_outcome(r)),
                b0,
                backend.history(),
                s0,
                signaller.history(),
                r0,
                store.history(),
            ));
        }
        r
    }

    /// Transactionally eject the current image and restore normal USB
    /// behaviour.
    pub fn deactivate<B: UsbBackend, S: SignallerControl, R: RecoveryStorage>(
        &mut self,
        backend: &mut B,
        signaller: &mut S,
        store: &mut R,
    ) -> (r: Result<StateInfo, BootDriveError>)
        requires
            wf(old(self)@),
            old(self)@.phase == Phase::Ready,
        ensures
            wf(final(self)@),
            final(self)@.phase == Phase::Ready,
            old(backend).faithful() ==> final(backend).faithful(),
            old(signaller).faithful() ==> final(signaller).faithful(),
            old(store).faithful() ==> final(store).faithful(),
            final(backend).model() == old(backend).model(),
            final(signaller).model() == old(signaller).model(),
            final(store).model() == old(store).model(),
            consistent(old(self)@) ==> consistent(final(self)@),
            r matches Ok(i) ==> i@ == final(self)@.info && (i@.state == DriveState::Idle || (final(self)@ == old(self)@ && i@.state == DriveState::Unavailable)),
            r matches Err(e) ==> final(self)@.info.state == DriveState::Error || (final(self)@
                == old(self)@ && (old(self)@.info.state == DriveState::Preparing || old(self)@.info.state == DriveState::Ejecting) && e.code == ErrorCode::InvalidState),
            old(self)@.info.state == DriveState::Idle || old(self)@.info.state
                == DriveState::Unavailable ==> (r matches Ok(i) && i@ == old(self)@.info && final(self)@ == old(self)@
                && *final(backend) == *old(backend) && *final(signaller) == *old(signaller)
                && *final(store) == *old(store)),
            old(self)@.info.state == DriveState::Preparing || old(self)@.info.state
                == DriveState::Ejecting ==> (r matches Err(e) && e.code == ErrorCode::InvalidState
                && e@.message == "a transition is already in progress"@ && final(self)@ == old(self)@
                && *final(backend) == *old(backend) && *final(signaller) == *old(signaller)
                && *final(store) == *old(store)),
            old(self)@.info.state == DriveState::Active || old(self)@.info.state == DriveState::Error
                ==> match r {
                Ok(i) => {
                    &&& i@.state == DriveState::Idle
                    &&& i@.display_name == Seq::<char>::empty()
                    &&& i@.mode == ImageMode::Cdrom
                    &&& !i@.signaller_was_running
                    &&& i@.last_error == Seq::<char>::empty()
                },
                Err(e) => {
                    &&& final(self)@.info.state == DriveState::Error
                    &&& final(self)@.info.last_error == e@.message
                    &&& final(self)@.info.udc == Seq::<char>::empty()
                    &&& !final(self)@.info.signaller_was_running
                },
            },
            consistent(old(self)@) && final(self)@.info.state != DriveState::Active
                ==> final(self)@.ledger == clean(),
            old(self)@.info.state == DriveState::Active || old(self)@.info.state == DriveState::Error
                ==> (r is Ok ==> ejected(
                old(backend).history(),
                old(signaller).history(),
                old(store).history(),
                final(backend).history(),
                final(signaller).history(),
                final(store).history(),
                old(self)@.info.signaller_was_running,
            )),
            old(self)@.info.state == DriveState::Active || old(self)@.info.state == DriveState::Error
                ==> (r matches Err(e) ==> eject_failed(
                old(backend).history(),
                old(signaller).history(),
                old(store).history(),
                final(backend).history(),
                final(signaller).history(),
                final(store).history(),
                e@,
            )),
            exists|t: Seq<ReplyView>|
                #[trigger] performed(
                    begin_deactivate_spec(old(self)@).0,
                    begin_deactivate_spec(old(self)@).1,
                    t,
                    final(self)@,
                    ActionView::Finished(result_outcome(r)),
                    old(backend).history(),
                    final(backend).history(),
                    old(signaller).history(),
                    final(signaller).history(),
                    old(store).history(),
                    final(store).history(),
                ),
    {
        proof {
            lemma_begin_asks(self@);
            if consistent(self@) {
                lemma_begin_consistent(self@, self@.image->0, self@.mode);
            }
        }
        let ghost before = self@;
        let first = self.begin_deactivate();
        proof {
            if first is Finished {
                assert(self@ == before);
            } else {
                assert(in_ejection(self@.phase));
            }
        }
        match self.drive(first, backend, signaller, store) {
            Outcome::Info(i) => Ok(i),
            Outcome::Failed(e) => Err(e),
            Outcome::Done => Err(BootDriveError::internal(String::new())),
        }
    }

    /// Advance on the reply to the last action.
    pub fn resume(&mut self, reply: Reply) -> (a: Action)
        requires
            wf(old(self)@),
            fits(old(self)@.phase, reply@),
        ensures
            wf(final(self)@),
            (final(self)@, a@) == step(old(self)@, reply@),
    {
        let ghost ok = reply_ok(reply@);
        self.ledger = Ghost(effect(self.ledger@, awaited(self.phase), ok));
        match self.phase {
            Phase::InitProbe | Phase::RecoverRemoveStale | Phase::RecoverLoad
            | Phase::RecoverRestart | Phase::RecoverClear => self.resume_init(reply),
            Phase::ActivateProbe | Phase::ActivateQuery | Phase::ActivateSave
            | Phase::ActivateStop => self.resume_act1(reply),
            Phase::ActivateRelease | Phase::ActivateRemoveStale
            | Phase::ActivateGadget => self.resume_act2(reply),
            Phase::RollbackDeactivate | Phase::RollbackRemoveStale | Phase::RollbackRestart
            | Phase::RollbackClear => self.resume_rollback(reply),
            Phase::Ready => Action::Finished(Outcome::Done),
            _ => self.resume_eject(reply),
        }
    }
}

/// Perform one action against the backend, the signaller and the recovery
/// store, and report what it produced.
pub fn perform<B: UsbBackend, S: SignallerControl, R: RecoveryStorage>(
    a: &Action,
    backend: &mut B,
    signaller: &mut S,
    store: &mut R,
) -> (r: Reply)
    requires
        !(a is Finished),
    ensures
        fits_kind(kind_of(a@), r@),
        final(backend).history() == old(backend).history() + backend_part(exchange(a@, r@)),
        final(signaller).history() == old(signaller).history() + signaller_part(exchange(a@, r@)),
        final(store).history() == old(store).history() + store_part(exchange(a@, r@)),
        old(backend).faithful() ==> final(backend).faithful(),
        old(signaller).faithful() ==> final(signaller).faithful(),
        old(store).faithful() ==> final(store).faithful(),
        final(backend).model() == old(backend).model(),
        final(signaller).model() == old(signaller).model(),
        final(store).model() == old(store).model(),
{
    match a {
        Action::Probe => Reply::Probed(backend.probe()),
        Action::QuerySignaller => Reply::Running(signaller.is_running()),
        Action::SaveRecovery(rec) => Reply::Completed(store.save(rec)),
        Action::LoadRecovery => Reply::Loaded(store.load()),
        Action::ClearRecovery => Reply::Completed(store.clear()),
        Action::StopSignaller => Reply::Completed(signaller.stop()),
        Action::StartSignaller => Reply::Completed(signaller.start()),
        Action::ReleaseForeignGadgets => Reply::Completed(backend.release_foreign_gadgets()),
        Action::RemoveStaleGadget => Reply::Completed(backend.remove_stale_gadget()),
        Action::ActivateGadget(image, mode) => Reply::Completed(backend.activate(image, *mode)),
        Action::DeactivateGadget => Reply::Completed(backend.deactivate()),
        Action::Finished(_) => Reply::Completed(Ok(())),
    }
}

/// What holds while an operation that started in `start` is driven: the
/// machine is well formed and has asked for `a`, its ledger stays
/// accounted for, its image and mode stay those of the operation, and an
/// activation or ejection stays in its phases until it ends with the
/// outcome its contract promises.
pub open spec fn drive_inv(start: ManagerView, m: ManagerView, a: ActionView) -> bool {
    &&& wf(m)
    &&& asked(m.phase, a)
    &&& consistent(start) ==> consistent(m)
    &&& (in_activation(start.phase) || in_ejection(start.phase)) ==> !(a matches ActionView::Finished(
        OutcomeView::Done,
    ))
    &&& m.image == start.image
    &&& m.mode == start.mode
    &&& start.phase != Phase::Ready ==> (a matches ActionView::Finished(OutcomeView::Info(i)) ==> i
        == m.info)
    &&& start.phase != Phase::Ready ==> (a matches ActionView::Finished(OutcomeView::Failed(e))
        ==> {
        &&& m.info.state == DriveState::Error
        &&& m.info.last_error == e.message
        &&& m.info.udc == Seq::<char>::empty()
        &&& !m.info.signaller_was_running
    })
    &&& in_rollback(start.phase) ==> (if a is Finished {
        a == ActionView::Finished(OutcomeView::Failed(start.error->0))
    } else {
        in_rollback(m.phase) && m.error == start.error
    })
    &&& in_activation(start.phase) ==> (if a is Finished {
        a matches ActionView::Finished(OutcomeView::Info(_)) ==> {
            &&& m.info.state == DriveState::Active
            &&& m.info.display_name == start.image->0.display_name
            &&& m.info.mode == start.mode
        }
    } else {
        in_activation(m.phase)
    })
    &&& in_ejection(start.phase) ==> (if a is Finished {
        a matches ActionView::Finished(OutcomeView::Info(_)) ==> {
            &&& m.info.state == DriveState::Idle
            &&& m.info.display_name == Seq::<char>::empty()
            &&& m.info.mode == ImageMode::Cdrom
            &&& !m.info.signaller_was_running
            &&& m.info.last_error == Seq::<char>::empty()
        }
    } else {
        in_ejection(m.phase)
    })
}

/// One step of a driven operation keeps [`drive_inv`] and brings the end
/// closer.
#[verifier::rlimit(50)]
#[verifier::spinoff_prover]
pub proof fn lemma_drive_step(start: ManagerView, m: ManagerView, a: ActionView, r: ReplyView)
    requires
        drive_inv(start, m, a),
        !(a is Finished),
        fits(m.phase, r),
    ensures
        drive_inv(start, step(m, r).0, step(m, r).1),
        step(m, r).0.phase != Phase::Ready ==> steps_left(step(m, r).0.phase) < steps_left(
            m.phase,
        ),
{
    if consistent(m) {
        lemma_step_consistent(m, r);
    }
    lemma_operations_finish(m, r, m.image->0, m.mode);
    lemma_step_asks(m, r);
}

/// Each step asks for the action of the phase it moves to.
#[verifier::rlimit(40)]
#[verifier::spinoff_prover]
pub proof fn lemma_step_asks(m: ManagerView, r: ReplyView)
    requires
        fits(m.phase, r),
    ensures
        asked(step(m, r).0.phase, step(m, r).1),
{
}

/// Each start of an operation asks for the action of the phase it moves to.
#[verifier::rlimit(40)]
#[verifier::spinoff_prover]
pub proof fn lemma_begin_asks(m: ManagerView)
    requires
        m.phase == Phase::Ready,
    ensures
        asked(begin_initialize_spec(m).0.phase, begin_initialize_spec(m).1),
        asked(begin_recover_spec(m).0.phase, begin_recover_spec(m).1),
        forall|image: ValidatedImageView, mode: ImageMode|
            asked(
                #[trigger] begin_activate_spec(m, image, mode).0.phase,
                begin_activate_spec(m, image, mode).1,
            ),
        asked(begin_deactivate_spec(m).0.phase, begin_deactivate_spec(m).1),
{
}

// ---------------------------------------------------------------------------
// Laws
// ---------------------------------------------------------------------------

/// The ledger each phase implies: what the daemon's completed actions have
/// left outstanding when the machine stands in `m.phase`.
pub open spec fn consistent(m: ManagerView) -> bool {
    let l = m.ledger;
    match m.phase {
        Phase::Ready => if m.info.state == DriveState::Active {
            l == Ledger {
                recovery_saved: true,
                signaller_stopped: m.info.signaller_was_running,
                gadget_bound: true,
            }
        } else {
            l == clean() && !m.info.signaller_was_running
        },
        Phase::InitProbe | Phase::RecoverRemoveStale | Phase::RecoverLoad | Phase::RecoverRestart
        | Phase::RecoverClear | Phase::ActivateProbe | Phase::ActivateQuery
        | Phase::ActivateSave => l == clean() && !m.info.signaller_was_running,
        Phase::ActivateStop => l == Ledger {
            recovery_saved: true,
            signaller_stopped: false,
            gadget_bound: false,
        } && m.running && !m.info.signaller_was_running,
        Phase::ActivateRelease | Phase::ActivateRemoveStale | Phase::ActivateGadget => l == Ledger {
            recovery_saved: true,
            signaller_stopped: m.running,
            gadget_bound: false,
        } && !m.info.signaller_was_running,
        Phase::RollbackDeactivate | Phase::RollbackRemoveStale => l.signaller_stopped == m.restart
            && !l.gadget_bound,
        Phase::RollbackRestart => l.signaller_stopped && m.restart && !l.gadget_bound,
        Phase::EjectGadget => l.signaller_stopped == m.running,
        Phase::EjectRestartAfterError | Phase::EjectRestart => l.signaller_stopped && m.running
            && !l.gadget_bound,
        Phase::RollbackClear | Phase::EjectClearAfterError | Phase::EjectClearAfterRestartError
        | Phase::EjectClear => !l.signaller_stopped && !l.gadget_bound,
    }
}

/// A fresh manager owes nothing.
pub proof fn lemma_new_consistent(m: ManagerView)
    requires
        m.phase == Phase::Ready,
        m.info.state == DriveState::Unavailable,
        !m.info.signaller_was_running,
        m.ledger == clean(),
    ensures
        consistent(m),
{
}

/// Every step keeps the machine well formed and its ledger accounted for:
/// the outstanding effects the next phase implies are exactly those the
/// completed action leaves.
#[verifier::rlimit(40)]
#[verifier::spinoff_prover]
pub proof fn lemma_step_consistent(m: ManagerView, r: ReplyView)
    requires
        wf(m),
        fits(m.phase, r),
        consistent(m),
    ensures
        wf(step(m, r).0),
        consistent(step(m, r).0),
{
}

/// Starting an activation or an ejection keeps the ledger accounted for;
/// so does starting initialization or recovery while no image is exposed.
#[verifier::rlimit(40)]
#[verifier::spinoff_prover]
pub proof fn lemma_begin_consistent(m: ManagerView, image: ValidatedImageView, mode: ImageMode)
    requires
        wf(m),
        m.phase == Phase::Ready,
        consistent(m),
    ensures
        wf(begin_activate_spec(m, image, mode).0),
        consistent(begin_activate_spec(m, image, mode).0),
        wf(begin_deactivate_spec(m).0),
        consistent(begin_deactivate_spec(m).0),
        m.info.state != DriveState::Active ==> consistent(begin_initialize_spec(m).0) && consistent(
            begin_recover_spec(m).0,
        ),
{
}

/// Nothing is left behind: whenever no operation is in progress and no
/// image is exposed, every recovery record the daemon saved has had its
/// removal issued, every stop of `usb-signaller` has had a restart issued,
/// and every gadget it bound has had its teardown issued.
pub proof fn lemma_nothing_left_behind(m: ManagerView)
    requires
        consistent(m),
        m.phase == Phase::Ready,
        m.info.state != DriveState::Active,
    ensures
        m.ledger == clean(),
{
}

/// While an image is exposed, its recovery record is in place, the gadget
/// is bound, and `usb-signaller` is stopped exactly when the snapshot says
/// it was running before.
pub proof fn lemma_active_is_recorded(m: ManagerView)
    requires
        consistent(m),
        m.phase == Phase::Ready,
        m.info.state == DriveState::Active,
    ensures
        m.ledger.recovery_saved,
        m.ledger.gadget_bound,
        m.ledger.signaller_stopped == m.info.signaller_was_running,
{
}

/// The system is perturbed only after the recovery intent is persisted:
/// the machine asks to stop `usb-signaller`, release other gadgets or bind
/// the gadget only while a saved record is outstanding.
#[verifier::rlimit(40)]
#[verifier::spinoff_prover]
pub proof fn lemma_record_before_perturbing(m: ManagerView, r: ReplyView)
    requires
        wf(m),
        fits(m.phase, r),
        consistent(m),
    ensures
        ({
            let (m2, a) = step(m, r);
            (a is StopSignaller || a is ReleaseForeignGadgets || a is ActivateGadget)
                ==> m2.ledger.recovery_saved
        }),
{
}

/// The most steps a phase can still take before its operation finishes.
pub open spec fn steps_left(p: Phase) -> nat {
    match p {
        Phase::Ready => 0,
        Phase::InitProbe => 1,
        Phase::RecoverClear => 2,
        Phase::RecoverRestart => 3,
        Phase::RecoverLoad => 4,
        Phase::RecoverRemoveStale => 5,
        Phase::RollbackClear => 1,
        Phase::RollbackRestart => 2,
        Phase::RollbackRemoveStale => 3,
        Phase::RollbackDeactivate => 4,
        Phase::ActivateGadget => 5,
        Phase::ActivateRemoveStale => 6,
        Phase::ActivateRelease => 7,
        Phase::ActivateStop => 8,
        Phase::ActivateSave => 9,
        Phase::ActivateQuery => 10,
        Phase::ActivateProbe => 11,
        Phase::EjectClear => 1,
        Phase::EjectClearAfterError => 5,
        Phase::EjectClearAfterRestartError => 5,
        Phase::EjectRestartAfterError => 6,
        Phase::EjectRestart => 6,
        Phase::EjectGadget => 7,
    }
}

/// Every operation finishes, whatever the replies: each step either ends
/// the operation (and only then reports an outcome) or moves to a phase
/// with fewer steps left, and no operation starts with more than eleven.
#[verifier::rlimit(40)]
#[verifier::spinoff_prover]
pub proof fn lemma_operations_finish(m: ManagerView, r: ReplyView, image: ValidatedImageView, mode: ImageMode)
    requires
        fits(m.phase, r),
    ensures
        ({
            let (m2, a) = step(m, r);
            &&& (a is Finished) == (m2.phase == Phase::Ready)
            &&& m2.phase != Phase::Ready ==> steps_left(m2.phase) < steps_left(m.phase)
        }),
        m.phase == Phase::Ready ==> {
            &&& steps_left(begin_activate_spec(m, image, mode).0.phase) <= 11
            &&& steps_left(begin_deactivate_spec(m).0.phase) <= 11
            &&& steps_left(begin_initialize_spec(m).0.phase) <= 11
            &&& steps_left(begin_recover_spec(m).0.phase) <= 11
            &&& (begin_activate_spec(m, image, mode).1 is Finished) == (begin_activate_spec(
                m,
                image,
                mode,
            ).0.phase == Phase::Ready)
            &&& (begin_deactivate_spec(m).1 is Finished) == (begin_deactivate_spec(m).0.phase
                == Phase::Ready)
        },
{
}

/// Only one image at a time: an activation requested while an image is
/// exposed, or while a transition is under way, is refused with
/// `InvalidState` and changes nothing.
pub proof fn lemma_cannot_activate_twice(m: ManagerView, image: ValidatedImageView, mode: ImageMode)
    requires
        m.info.state == DriveState::Active || m.info.state == DriveState::Preparing
            || m.info.state == DriveState::Ejecting,
    ensures
        begin_activate_spec(m, image, mode).0 == m,
        begin_activate_spec(m, image, mode).1 matches ActionView::Finished(OutcomeView::Failed(e))
            && e.code == ErrorCode::InvalidState,
{
}

/// Ejecting when nothing is exposed does nothing and reports the current
/// snapshot.
pub proof fn lemma_deactivate_when_idle_is_noop(m: ManagerView)
    requires
        m.info.state == DriveState::Idle || m.info.state == DriveState::Unavailable,
    ensures
        begin_deactivate_spec(m) == (m, ActionView::Finished(OutcomeView::Info(m.info))),
{
}

/// A successful activation exposes the requested image: the gadget is
/// bound for the image and mode the activation started with, and the
/// operation ends `Active` with that image's display name and mode.
pub proof fn lemma_activation_exposes_image(m: ManagerView, r: ReplyView)
    requires
        wf(m),
        m.phase == Phase::ActivateGadget || m.phase == Phase::ActivateRemoveStale,
        r == ReplyView::Completed(Ok(())),
    ensures
        m.phase == Phase::ActivateRemoveStale ==> step(m, r).1 == ActionView::ActivateGadget(
            m.image->0,
            m.mode,
        ),
        m.phase == Phase::ActivateGadget ==> ({
            let (m2, a) = step(m, r);
            &&& m2.info.state == DriveState::Active
            &&& m2.info.display_name == m.image->0.display_name
            &&& m2.info.mode == m.mode
            &&& m2.info.last_error == Seq::<char>::empty()
            &&& a == ActionView::Finished(OutcomeView::Info(m2.info))
        }),
{
}

/// The error a failed reply carries.
pub open spec fn reply_error(r: ReplyView) -> Option<ErrorView> {
    match r {
        ReplyView::Probed(Err(e)) => Some(e),
        ReplyView::Running(Err(e)) => Some(e),
        ReplyView::Loaded(Err(e)) => Some(e),
        ReplyView::Completed(Err(e)) => Some(e),
        _ => None,
    }
}

/// A failed step of an activation or ejection starts a rollback that
/// carries the error, the rollback keeps that error, and it ends in `Error`
/// with the error's message, reporting the same error.
#[verifier::rlimit(40)]
#[verifier::spinoff_prover]
pub proof fn lemma_failure_reports_its_error(m: ManagerView, r: ReplyView)
    requires
        wf(m),
        fits(m.phase, r),
    ensures
        ({
            let (m2, a) = step(m, r);
            &&& (m.phase == Phase::ActivateProbe || m.phase == Phase::ActivateSave || m.phase
                == Phase::ActivateStop || m.phase == Phase::ActivateRelease || m.phase
                == Phase::ActivateRemoveStale || m.phase == Phase::ActivateGadget) && reply_error(r) is Some
                ==> m2.phase == Phase::RollbackDeactivate && m2.error == reply_error(r)
            &&& (m.phase == Phase::RollbackDeactivate || m.phase == Phase::RollbackRemoveStale
                || m.phase == Phase::RollbackRestart) ==> m2.error == m.error
            &&& m.phase == Phase::RollbackClear ==> {
                &&& m2.info.state == DriveState::Error
                &&& m2.info.last_error == m.error->0.message
                &&& a == ActionView::Finished(OutcomeView::Failed(m.error->0))
                &&& m2.events.last() == error_event(m.error->0)
            }
        }),
{
}

/// Startup recovery restores what a crashed activation left: a record that
/// says `usb-signaller` was running leads to its restart, and every record
/// found is then removed before the hardware is probed.
pub proof fn lemma_recovery_restores_signaller(m: ManagerView, st: RecoveryStateView)
    requires
        m.phase == Phase::RecoverLoad,
    ensures
        ({
            let (m2, a) = step(m, ReplyView::Loaded(Ok(Some(st))));
            if st.signaller_was_running {
                a == ActionView::StartSignaller && m2.phase == Phase::RecoverRestart
            } else {
                a == ActionView::ClearRecovery && m2.phase == Phase::RecoverClear
            }
        }),
        forall|r: ReplyView|
            fits(Phase::RecoverRestart, r) ==> #[trigger] step(
                ManagerView { phase: Phase::RecoverRestart, ..m },
                r,
            ).1 == ActionView::ClearRecovery,
        forall|r: ReplyView|
            fits(Phase::RecoverClear, r) ==> #[trigger] step(
                ManagerView { phase: Phase::RecoverClear, ..m },
                r,
            ).1 == ActionView::Probe,
{
}

/// `usb-signaller` is stopped only when the activation found it running:
/// the query's answer is what the activation remembers, and the only step
/// that asks for a stop is the one after the record is saved, when the
/// remembered answer is "running". An activation that found it stopped
/// therefore never stops it.
pub proof fn lemma_stop_only_when_running(m: ManagerView, r: ReplyView)
    requires
        wf(m),
        fits(m.phase, r),
    ensures
        m.phase == Phase::ActivateQuery ==> (step(m, r).0.running <==> r == ReplyView::Running(
            Ok(true),
        )),
        step(m, r).1 is StopSignaller ==> m.phase == Phase::ActivateSave && m.running,
{
}

// ---------------------------------------------------------------------------
// The activation's calls, in the order they were made
// ---------------------------------------------------------------------------

/// What a query of `usb-signaller` tells an activation: running only when
/// the query succeeded and said so.
pub open spec fn query_running(x: Result<bool, ErrorView>) -> bool {
    match x {
        Ok(b) => b,
        Err(_) => false,
    }
}

/// What the activation whose calls are `ex` found `usb-signaller` doing:
/// the answer of its query, which follows the probe.
pub open spec fn found_running(ex: Seq<Exchange>) -> bool {
    ex.len() > 1 && match ex[1] {
        Exchange::Signaller(SignallerCall::Query(x)) => query_running(x),
        _ => false,
    }
}

/// Whether a call perturbs the system: stopping `usb-signaller`,
/// releasing other gadgets or binding the gadget.
pub open spec fn perturbs(x: Exchange) -> bool {
    match x {
        Exchange::Signaller(SignallerCall::Stop(_)) => true,
        Exchange::Backend(BackendCall::ReleaseForeign(_)) => true,
        Exchange::Backend(BackendCall::Activate(_, _, _)) => true,
        _ => false,
    }
}

/// Whether the calls `ex` include a successful save of `rec`.
pub open spec fn saved(ex: Seq<Exchange>, rec: RecoveryStateView) -> bool {
    exists|j: int| 0 <= j < ex.len() && #[trigger] ex[j] == Exchange::Store(StoreCall::Save(rec, Ok(())))
}

/// Whether the calls `ex` include a teardown of the gadget.
pub open spec fn torn_down(ex: Seq<Exchange>) -> bool {
    exists|j: int| 0 <= j < ex.len() && #[trigger] ex[j] is Backend && ex[j]->Backend_0 is Deactivate
}

/// Whether the calls `ex` include a start of `usb-signaller`.
pub open spec fn started(ex: Seq<Exchange>) -> bool {
    exists|j: int| 0 <= j < ex.len() && #[trigger] ex[j] is Signaller && ex[j]->Signaller_0 is Start
}

/// Whether the calls `ex` include a successful stop of `usb-signaller`.
pub open spec fn stopped(ex: Seq<Exchange>) -> bool {
    exists|j: int| 0 <= j < ex.len() && #[trigger] ex[j] == Exchange::Signaller(SignallerCall::Stop(Ok(())))
}

/// The record comes first: every call that perturbs the system, and every
/// removal of a stale gadget that is not part of a teardown, comes after
/// the recovery record for `image` in `mode` (with what the query found)
/// was saved.
pub open spec fn saved_first(ex: Seq<Exchange>, image: ValidatedImageView, mode: ImageMode) -> bool {
    forall|i: int|
        0 <= i < ex.len() ==> {
            &&& perturbs(#[trigger] ex[i]) ==> saved(
                ex.take(i),
                record_for(image, found_running(ex), mode),
            )
            &&& (ex[i] is Backend && ex[i]->Backend_0 is RemoveStale) ==> (saved(
                ex.take(i),
                record_for(image, found_running(ex), mode),
            ) || torn_down(ex.take(i)))
        }
}

/// A failed activation is rolled back: its last call removes the record,
/// and `usb-signaller` was started exactly when it had been stopped.
pub open spec fn rolled_back(ex: Seq<Exchange>, o: OutcomeView) -> bool {
    o is Failed ==> {
        &&& ex.len() > 0
        &&& ex.last() is Store && ex.last()->Store_0 is Clear
        &&& started(ex) <==> stopped(ex)
    }
}

/// The law of an activation of `image` in `mode` whose calls were `ex` and
/// whose outcome is `o`.
pub open spec fn activation_law(
    ex: Seq<Exchange>,
    image: ValidatedImageView,
    mode: ImageMode,
    o: OutcomeView,
) -> bool {
    saved_first(ex, image, mode) && rolled_back(ex, o)
}

/// Whether `m` starts an activation, or the rollback of a refused one.
pub open spec fn starts_activation(m: ManagerView) -> bool {
    m.phase == Phase::ActivateProbe || (m.phase == Phase::RollbackDeactivate && !m.restart)
}

/// What holds, phase by phase, of an activation of `image` in `mode` that
/// has made the calls `ex` and asks for `a`.
pub open spec fn activation_inv(
    image: ValidatedImageView,
    mode: ImageMode,
    m: ManagerView,
    a: ActionView,
    ex: Seq<Exchange>,
) -> bool {
    let rec = record_for(image, m.running, mode);
    &&& saved_first(ex, image, mode)
    &&& match m.phase {
        Phase::ActivateProbe => ex.len() == 0,
        Phase::ActivateQuery => ex.len() == 1 && !started(ex) && !stopped(ex),
        Phase::ActivateSave => {
            &&& ex.len() == 2
            &&& found_running(ex) == m.running
            &&& a == ActionView::SaveRecovery(rec)
            &&& !started(ex)
            &&& !stopped(ex)
        },
        Phase::ActivateStop => {
            &&& ex.len() >= 2
            &&& found_running(ex) == m.running
            &&& m.running
            &&& saved(ex, rec)
            &&& !started(ex)
            &&& !stopped(ex)
        },
        Phase::ActivateRelease | Phase::ActivateRemoveStale | Phase::ActivateGadget => {
            &&& ex.len() >= 2
            &&& found_running(ex) == m.running
            &&& saved(ex, rec)
            &&& !started(ex)
            &&& stopped(ex) == m.running
        },
        Phase::RollbackDeactivate => !started(ex) && stopped(ex) == m.restart,
        Phase::RollbackRemoveStale => !started(ex) && stopped(ex) == m.restart && torn_down(ex),
        Phase::RollbackRestart => !started(ex) && stopped(ex) && m.restart && torn_down(ex),
        Phase::RollbackClear => started(ex) == m.restart && stopped(ex) == m.restart,
        Phase::Ready => rolled_back(ex, a->Finished_0),
        _ => false,
    }
}

/// One step of an activation keeps [`activation_inv`].
#[verifier::rlimit(80)]
#[verifier::spinoff_prover]
pub proof fn lemma_activation_step(
    image: ValidatedImageView,
    mode: ImageMode,
    m: ManagerView,
    a: ActionView,
    ex: Seq<Exchange>,
    r: ReplyView,
)
    requires
        wf(m),
        asked(m.phase, a),
        !(a is Finished),
        fits(m.phase, r),
        m.image->0 == image,
        m.mode == mode,
        activation_inv(image, mode, m, a, ex),
    ensures
        activation_inv(image, mode, step(m, r).0, step(m, r).1, ex.push(exchange(a, r))),
{
    let ex2 = ex.push(exchange(a, r));
    let (m2, a2) = step(m, r);
    let rec = record_for(image, m.running, mode);
    assert(ex2.take(ex.len() as int) =~= ex);
    assert forall|i: int| 0 <= i < ex.len() implies #[trigger] ex2.take(i) =~= ex.take(i) by {}
    assert forall|j: int| 0 <= j < ex.len() implies #[trigger] ex2[j] == ex[j] by {}
    if ex.len() >= 2 {
        assert(found_running(ex2) == found_running(ex));
    }
    if saved(ex, rec) {
        let j = choose|j: int| 0 <= j < ex.len() && #[trigger] ex[j] == Exchange::Store(StoreCall::Save(rec, Ok(())));
        assert(ex2[j] == ex[j]);
    }
    if torn_down(ex) {
        let j = choose|j: int| 0 <= j < ex.len() && #[trigger] ex[j] is Backend && ex[j]->Backend_0 is Deactivate;
        assert(ex2[j] == ex[j]);
    }
    if started(ex) {
        let j = choose|j: int| 0 <= j < ex.len() && #[trigger] ex[j] is Signaller && ex[j]->Signaller_0 is Start;
        assert(ex2[j] == ex[j]);
    }
    if stopped(ex) {
        let j = choose|j: int| 0 <= j < ex.len() && #[trigger] ex[j] == Exchange::Signaller(SignallerCall::Stop(Ok(())));
        assert(ex2[j] == ex[j]);
    }
    assert(ex2[ex.len() as int] == exchange(a, r));
    assert forall|i: int| 0 <= i < ex2.len() implies {
        &&& perturbs(#[trigger] ex2[i]) ==> saved(
            ex2.take(i),
            record_for(image, found_running(ex2), mode),
        )
        &&& (ex2[i] is Backend && ex2[i]->Backend_0 is RemoveStale) ==> (saved(
            ex2.take(i),
            record_for(image, found_running(ex2), mode),
        ) || torn_down(ex2.take(i)))
    } by {
        if i < ex.len() {
            assert(ex2[i] == ex[i]);
            assert(ex2.take(i) =~= ex.take(i));
            if ex.len() < 2 {
                assert(!perturbs(ex[i]));
            }
        } else {
            assert(ex2.take(i) =~= ex);
        }
    }
    if m.phase == Phase::ActivateQuery {
        assert(ex2[1] == exchange(a, r));
    }
    if m.phase == Phase::ActivateSave && reply_ok(r) {
        let x = r->Completed_0;
        assert(x->Ok_0 == ());
        assert(x == Ok::<(), ErrorView>(()));
        assert(ex2[2] == Exchange::Store(StoreCall::Save(rec, Ok(()))));
    }
    if m.phase == Phase::ActivateStop && reply_ok(r) {
        let x = r->Completed_0;
        assert(x->Ok_0 == ());
        assert(x == Ok::<(), ErrorView>(()));
        assert(ex2[ex.len() as int] == Exchange::Signaller(SignallerCall::Stop(Ok(()))));
    }
    if m.phase == Phase::RollbackRestart {
        assert(ex2[ex.len() as int] is Signaller);
    }
    if m.phase == Phase::RollbackDeactivate {
        assert(ex2[ex.len() as int] is Backend);
    }
    match m.phase {
        Phase::ActivateProbe => {},
        Phase::ActivateQuery => {},
        Phase::ActivateSave => {},
        Phase::ActivateStop => {},
        Phase::ActivateRelease => {},
        Phase::ActivateRemoveStale => {},
        Phase::ActivateGadget => {},
        Phase::RollbackDeactivate => {},
        Phase::RollbackRemoveStale => {},
        Phase::RollbackRestart => {},
        Phase::RollbackClear => {},
        _ => {},
    }
}

// ---------------------------------------------------------------------------
// The calls of initialization and recovery
// ---------------------------------------------------------------------------

/// The snapshot after a probe that replied `x`: `Idle` on the controller it
/// found, or `Unavailable` with the probe's message.
pub open spec fn probe_info(info: StateInfoView, x: Result<BackendCapabilitiesView, ErrorView>) -> StateInfoView {
    match x {
        Ok(c) => StateInfoView { udc: c.udc, state: DriveState::Idle, ..info },
        Err(e) => StateInfoView { last_error: e.message, state: DriveState::Unavailable, ..info },
    }
}

/// Whether `h` is `h0` with exactly one more call.
pub open spec fn one_more<T>(h0: Seq<T>, h: Seq<T>) -> bool {
    h.len() == h0.len() + 1 && h.drop_last() == h0
}

/// The calls a recovery makes before it probes, from histories `b0`,
/// `s0`, `r0` to `b`, `s`, `r`: it removes a stale gadget, loads the
/// record, restarts `usb-signaller` when the record says it was running,
/// and removes any record it found.
pub open spec fn recovered(
    b0: Seq<BackendCall>,
    s0: Seq<SignallerCall>,
    r0: Seq<StoreCall>,
    b: Seq<BackendCall>,
    s: Seq<SignallerCall>,
    r: Seq<StoreCall>,
) -> bool {
    &&& one_more(b0, b) && b.last() is RemoveStale
    &&& r.len() > r0.len() && r[r0.len() as int] is Load
    &&& match r[r0.len() as int]->Load_0 {
        Ok(Some(st)) => {
            &&& r.len() == r0.len() + 2 && r.take(r0.len() as int) == r0
            &&& r.last() is Clear
            &&& if st.signaller_was_running {
                one_more(s0, s) && s.last() is Start
            } else {
                s == s0
            }
        },
        _ => one_more(r0, r) && s == s0,
    }
}

/// The calls of a recovery: those before the probe, then the probe.
pub open spec fn recovery_calls(
    b0: Seq<BackendCall>,
    s0: Seq<SignallerCall>,
    r0: Seq<StoreCall>,
    b: Seq<BackendCall>,
    s: Seq<SignallerCall>,
    r: Seq<StoreCall>,
) -> bool {
    b.len() > 0 && b.last() is Probe && recovered(b0, s0, r0, b.drop_last(), s, r)
}

/// The calls of an initialization: one probe.
pub open spec fn initialization_calls(
    b0: Seq<BackendCall>,
    s0: Seq<SignallerCall>,
    r0: Seq<StoreCall>,
    b: Seq<BackendCall>,
    s: Seq<SignallerCall>,
    r: Seq<StoreCall>,
) -> bool {
    one_more(b0, b) && b.last() is Probe && s == s0 && r == r0
}

/// What holds, phase by phase, of an initialization or recovery that
/// started in `start` with histories `b0`, `s0`, `r0`, stands in `m`
/// asking for `a`, with histories `b`, `s`, `r`.
pub open spec fn startup_inv(
    start: ManagerView,
    m: ManagerView,
    a: ActionView,
    b0: Seq<BackendCall>,
    s0: Seq<SignallerCall>,
    r0: Seq<StoreCall>,
    b: Seq<BackendCall>,
    s: Seq<SignallerCall>,
    r: Seq<StoreCall>,
) -> bool {
    &&& m.phase != Phase::Ready ==> m.info == start.info
    &&& match m.phase {
        Phase::RecoverRemoveStale => start.phase == Phase::RecoverRemoveStale && b == b0 && s == s0
            && r == r0,
        Phase::RecoverLoad => start.phase == Phase::RecoverRemoveStale && one_more(b0, b) && b.last()
            is RemoveStale && s == s0 && r == r0,
        Phase::RecoverRestart => {
            &&& start.phase == Phase::RecoverRemoveStale
            &&& one_more(b0, b) && b.last() is RemoveStale && s == s0 && one_more(r0, r)
            &&& r.last() matches StoreCall::Load(Ok(Some(st))) && st.signaller_was_running
        },
        Phase::RecoverClear => {
            &&& start.phase == Phase::RecoverRemoveStale
            &&& one_more(b0, b) && b.last() is RemoveStale && one_more(r0, r)
            &&& r.last() matches StoreCall::Load(Ok(Some(st))) && if st.signaller_was_running {
                one_more(s0, s) && s.last() is Start
            } else {
                s == s0
            }
        },
        Phase::InitProbe => if start.phase == Phase::InitProbe {
            b == b0 && s == s0 && r == r0
        } else {
            recovered(b0, s0, r0, b, s, r)
        },
        Phase::Ready => {
            &&& a == ActionView::Finished(OutcomeView::Done)
            &&& b.len() > 0 && b.last() is Probe
            &&& m.info == probe_info(start.info, b.last()->Probe_0)
            &&& if start.phase == Phase::InitProbe {
                initialization_calls(b0, s0, r0, b, s, r)
            } else {
                recovery_calls(b0, s0, r0, b, s, r)
            }
        },
        _ => false,
    }
}

/// One step of an initialization or recovery keeps [`startup_inv`].
#[verifier::rlimit(80)]
#[verifier::spinoff_prover]
pub proof fn lemma_startup_step(
    start: ManagerView,
    m: ManagerView,
    a: ActionView,
    b0: Seq<BackendCall>,
    s0: Seq<SignallerCall>,
    r0: Seq<StoreCall>,
    b: Seq<BackendCall>,
    s: Seq<SignallerCall>,
    r: Seq<StoreCall>,
    reply: ReplyView,
)
    requires
        start.phase == Phase::InitProbe || start.phase == Phase::RecoverRemoveStale,
        asked(m.phase, a),
        !(a is Finished),
        fits(m.phase, reply),
        startup_inv(start, m, a, b0, s0, r0, b, s, r),
    ensures
        startup_inv(
            start,
            step(m, reply).0,
            step(m, reply).1,
            b0,
            s0,
            r0,
            b + backend_part(exchange(a, reply)),
            s + signaller_part(exchange(a, reply)),
            r + store_part(exchange(a, reply)),
        ),
{
    let b2 = b + backend_part(exchange(a, reply));
    let s2 = s + signaller_part(exchange(a, reply));
    let r2 = r + store_part(exchange(a, reply));
    match m.phase {
        Phase::RecoverRemoveStale => {
            assert(b2.drop_last() =~= b);
            assert(s2 =~= s);
            assert(r2 =~= r);
        },
        Phase::RecoverLoad => {
            assert(b2 =~= b);
            assert(s2 =~= s);
            assert(r2.drop_last() =~= r);
            assert(r2[r0.len() as int] == r2.last());
        },
        Phase::RecoverRestart => {
            assert(b2 =~= b);
            assert(s2.drop_last() =~= s);
            assert(r2 =~= r);
        },
        Phase::RecoverClear => {
            assert(b2 =~= b);
            assert(s2 =~= s);
            assert(r2.drop_last() =~= r);
            assert(r2[r0.len() as int] == r.last());
            assert(r2.take(r0.len() as int) =~= r0);
        },
        Phase::InitProbe => {
            assert(b2.drop_last() =~= b);
            assert(s2 =~= s);
            assert(r2 =~= r);
        },
        _ => {},
    }
}

// ---------------------------------------------------------------------------
// The activation's calls, collaborator by collaborator
// ---------------------------------------------------------------------------

/// The error a backend call replied, if it failed.
pub open spec fn backend_error(c: BackendCall) -> Option<ErrorView> {
    match c {
        BackendCall::Probe(Err(e)) => Some(e),
        BackendCall::RemoveStale(Err(e)) => Some(e),
        BackendCall::ReleaseForeign(Err(e)) => Some(e),
        BackendCall::Activate(_, _, Err(e)) => Some(e),
        BackendCall::Deactivate(Err(e)) => Some(e),
        _ => None,
    }
}

/// The error a service-control call replied, if it failed.
pub open spec fn signaller_error(c: SignallerCall) -> Option<ErrorView> {
    match c {
        SignallerCall::Query(Err(e)) => Some(e),
        SignallerCall::Stop(Err(e)) => Some(e),
        SignallerCall::Start(Err(e)) => Some(e),
        _ => None,
    }
}

/// The error a store call replied, if it failed.
pub open spec fn store_error(c: StoreCall) -> Option<ErrorView> {
    match c {
        StoreCall::Load(Err(e)) => Some(e),
        StoreCall::Save(_, Err(e)) => Some(e),
        StoreCall::Clear(Err(e)) => Some(e),
        _ => None,
    }
}

/// Whether `h` is `h0` followed by more calls.
pub open spec fn extends<T>(h0: Seq<T>, h: Seq<T>) -> bool {
    h.len() >= h0.len() && h.take(h0.len() as int) == h0
}

/// Whether one of the calls made since `b0`, `s0`, `r0` failed with `e`.
pub open spec fn failed_with(
    b0: Seq<BackendCall>,
    b: Seq<BackendCall>,
    s0: Seq<SignallerCall>,
    s: Seq<SignallerCall>,
    r0: Seq<StoreCall>,
    r: Seq<StoreCall>,
    e: ErrorView,
) -> bool {
    ||| exists|i: int| b0.len() <= i < b.len() && backend_error(#[trigger] b[i]) == Some(e)
    ||| exists|i: int| s0.len() <= i < s.len() && signaller_error(#[trigger] s[i]) == Some(e)
    ||| exists|i: int| r0.len() <= i < r.len() && store_error(#[trigger] r[i]) == Some(e)
}

/// Whether `usb-signaller` was started since `s0`.
pub open spec fn started_since(s0: Seq<SignallerCall>, s: Seq<SignallerCall>) -> bool {
    exists|i: int| s0.len() <= i < s.len() && #[trigger] s[i] is Start
}

/// Whether `usb-signaller` was stopped successfully since `s0`.
pub open spec fn stopped_since(s0: Seq<SignallerCall>, s: Seq<SignallerCall>) -> bool {
    exists|i: int| s0.len() <= i < s.len() && #[trigger] s[i] == SignallerCall::Stop(Ok(()))
}

/// Whether the gadget was bound, or its binding tried, since `b0`.
pub open spec fn bind_tried_since(b0: Seq<BackendCall>, b: Seq<BackendCall>) -> bool {
    exists|i: int| b0.len() <= i < b.len() && #[trigger] b[i] is Activate
}

/// The first service-control call since `s0` is a query, and it answered
/// `running`.
pub open spec fn queried(s0: Seq<SignallerCall>, s: Seq<SignallerCall>, running: bool) -> bool {
    s.len() > s0.len() && s[s0.len() as int] is Query && query_running(
        s[s0.len() as int]->Query_0,
    ) == running
}

/// The first backend call since `b0` is a successful probe that found the
/// controller `udc`.
pub open spec fn probed(b0: Seq<BackendCall>, b: Seq<BackendCall>, udc: Seq<char>) -> bool {
    b.len() > b0.len() && b[b0.len() as int] is Probe && b[b0.len() as int]->Probe_0 is Ok
        && b[b0.len() as int]->Probe_0->Ok_0.udc == udc
}

/// The calls of an activation of `image` in `mode` that succeeded with the
/// snapshot `info`, made since `b0`, `s0`, `r0`: a probe that found the
/// controller, a query that found what the snapshot records, the saved
/// record, a stop of `usb-signaller` exactly when it ran, the release of
/// other gadgets, the removal of a stale one and the binding, all
/// successful, and nothing else.
pub open spec fn activated(
    image: ValidatedImageView,
    mode: ImageMode,
    b0: Seq<BackendCall>,
    s0: Seq<SignallerCall>,
    r0: Seq<StoreCall>,
    b: Seq<BackendCall>,
    s: Seq<SignallerCall>,
    r: Seq<StoreCall>,
    info: StateInfoView,
) -> bool {
    &&& extends(b0, b) && extends(s0, s) && extends(r0, r)
    &&& b.len() == b0.len() + 4 && probed(b0, b, info.udc)
    &&& b[b0.len() + 1int] == BackendCall::ReleaseForeign(Ok(()))
    &&& b[b0.len() + 2int] == BackendCall::RemoveStale(Ok(()))
    &&& b[b0.len() + 3int] == BackendCall::Activate(image, mode, Ok(()))
    &&& queried(s0, s, info.signaller_was_running)
    &&& if info.signaller_was_running {
        s.len() == s0.len() + 2 && s[s0.len() + 1int] == SignallerCall::Stop(Ok(()))
    } else {
        s.len() == s0.len() + 1
    }
    &&& r.len() == r0.len() + 1 && r[r0.len() as int] == StoreCall::Save(
        record_for(image, info.signaller_was_running, mode),
        Ok(()),
    )
}

/// The calls of an activation that failed with `e`, made since `b0`,
/// `s0`, `r0`: one of them failed with `e`; the last store call removes
/// the record; `usb-signaller` was started exactly when it had been
/// stopped, and then last; and a binding was tried only after a query,
/// and after a stop when the query found the service running.
pub open spec fn rolled_back_calls(
    b0: Seq<BackendCall>,
    s0: Seq<SignallerCall>,
    r0: Seq<StoreCall>,
    b: Seq<BackendCall>,
    s: Seq<SignallerCall>,
    r: Seq<StoreCall>,
    e: ErrorView,
) -> bool {
    &&& extends(b0, b) && extends(s0, s) && extends(r0, r)
    &&& failed_with(b0, b, s0, s, r0, r, e)
    &&& r.len() > r0.len() && r.last() is Clear
    &&& started_since(s0, s) == stopped_since(s0, s)
    &&& started_since(s0, s) ==> s.last() is Start
    &&& bind_tried_since(b0, b) ==> exists|running: bool| #[trigger] queried(s0, s, running) && (running ==> stopped_since(s0, s))
}

/// What holds, phase by phase, of the calls an activation of `image` in
/// `mode` has made since `b0`, `s0`, `r0`, standing in `m` and asking for
/// `a`.
pub open spec fn activation_calls_inv(
    image: ValidatedImageView,
    mode: ImageMode,
    m: ManagerView,
    a: ActionView,
    b0: Seq<BackendCall>,
    s0: Seq<SignallerCall>,
    r0: Seq<StoreCall>,
    b: Seq<BackendCall>,
    s: Seq<SignallerCall>,
    r: Seq<StoreCall>,
) -> bool {
    let rec = record_for(image, m.running, mode);
    let stops = if m.running {
        s.len() == s0.len() + 2 && s[s0.len() + 1int] == SignallerCall::Stop(Ok(()))
    } else {
        s.len() == s0.len() + 1
    };
    let saved_rec = r.len() == r0.len() + 1 && r[r0.len() as int] == StoreCall::Save(rec, Ok(()));
    &&& extends(b0, b) && extends(s0, s) && extends(r0, r)
    &&& match m.phase {
        Phase::ActivateProbe => b.len() == b0.len() && s.len() == s0.len() && r.len() == r0.len(),
        Phase::ActivateQuery => b.len() == b0.len() + 1 && probed(b0, b, m.udc) && s.len()
            == s0.len() && r.len() == r0.len(),
        Phase::ActivateSave => {
            &&& b.len() == b0.len() + 1 && probed(b0, b, m.udc)
            &&& s.len() == s0.len() + 1 && queried(s0, s, m.running)
            &&& r.len() == r0.len()
            &&& a == ActionView::SaveRecovery(rec)
        },
        Phase::ActivateStop => {
            &&& b.len() == b0.len() + 1 && probed(b0, b, m.udc)
            &&& s.len() == s0.len() + 1 && queried(s0, s, m.running) && m.running
            &&& saved_rec
        },
        Phase::ActivateRelease => {
            &&& b.len() == b0.len() + 1 && probed(b0, b, m.udc)
            &&& queried(s0, s, m.running) && stops
            &&& saved_rec
        },
        Phase::ActivateRemoveStale => {
            &&& b.len() == b0.len() + 2 && probed(b0, b, m.udc)
            &&& b[b0.len() + 1int] == BackendCall::ReleaseForeign(Ok(()))
            &&& queried(s0, s, m.running) && stops
            &&& saved_rec
        },
        Phase::ActivateGadget => {
            &&& b.len() == b0.len() + 3 && probed(b0, b, m.udc)
            &&& b[b0.len() + 1int] == BackendCall::ReleaseForeign(Ok(()))
            &&& b[b0.len() + 2int] == BackendCall::RemoveStale(Ok(()))
            &&& queried(s0, s, m.running) && stops
            &&& saved_rec
            &&& a == ActionView::ActivateGadget(image, mode)
        },
        Phase::RollbackDeactivate | Phase::RollbackRemoveStale | Phase::RollbackRestart
        | Phase::RollbackClear => {
            &&& failed_with(b0, b, s0, s, r0, r, m.error->0)
            &&& stopped_since(s0, s) == m.restart
            &&& if m.phase == Phase::RollbackClear {
                &&& started_since(s0, s) == m.restart
                &&& m.restart ==> s.len() > 0 && s.last() is Start
            } else {
                !started_since(s0, s)
            }
            &&& m.phase == Phase::RollbackRestart ==> m.restart
            &&& bind_tried_since(b0, b) ==> exists|running: bool| #[trigger] queried(s0, s, running) && (running ==> stopped_since(s0, s))
        },
        Phase::Ready => match a {
            ActionView::Finished(OutcomeView::Info(i)) => activated(image, mode, b0, s0, r0, b, s, r, i),
            ActionView::Finished(OutcomeView::Failed(e)) => rolled_back_calls(b0, s0, r0, b, s, r, e),
            _ => false,
        },
        _ => false,
    }
}

/// Calls made after `b`, `s`, `r` keep what they witnessed.
pub proof fn lemma_calls_grow(
    b0: Seq<BackendCall>,
    s0: Seq<SignallerCall>,
    r0: Seq<StoreCall>,
    b: Seq<BackendCall>,
    s: Seq<SignallerCall>,
    r: Seq<StoreCall>,
    b2: Seq<BackendCall>,
    s2: Seq<SignallerCall>,
    r2: Seq<StoreCall>,
)
    requires
        extends(b0, b),
        extends(s0, s),
        extends(r0, r),
        extends(b, b2),
        extends(s, s2),
        extends(r, r2),
    ensures
        extends(b0, b2),
        extends(s0, s2),
        extends(r0, r2),
        forall|i: int| 0 <= i < b.len() ==> b2[i] == b[i],
        forall|i: int| 0 <= i < s.len() ==> s2[i] == s[i],
        forall|i: int| 0 <= i < r.len() ==> r2[i] == r[i],
        forall|e: ErrorView|
            failed_with(b0, b, s0, s, r0, r, e) ==> #[trigger] failed_with(b0, b2, s0, s2, r0, r2, e),
        started_since(s0, s) ==> started_since(s0, s2),
        stopped_since(s0, s) ==> stopped_since(s0, s2),
        bind_tried_since(b0, b) ==> bind_tried_since(b0, b2),
        forall|x: bool| queried(s0, s, x) ==> #[trigger] queried(s0, s2, x),
        forall|u: Seq<char>| probed(b0, b, u) ==> #[trigger] probed(b0, b2, u),
{
    assert forall|i: int| 0 <= i < b.len() implies b2[i] == b[i] by {
        assert(b2.take(b.len() as int)[i] == b2[i]);
    }
    assert forall|i: int| 0 <= i < s.len() implies s2[i] == s[i] by {
        assert(s2.take(s.len() as int)[i] == s2[i]);
    }
    assert forall|i: int| 0 <= i < r.len() implies r2[i] == r[i] by {
        assert(r2.take(r.len() as int)[i] == r2[i]);
    }
    assert(b2.take(b0.len() as int) =~= b.take(b0.len() as int));
    assert(s2.take(s0.len() as int) =~= s.take(s0.len() as int));
    assert(r2.take(r0.len() as int) =~= r.take(r0.len() as int));
    assert forall|e: ErrorView| failed_with(b0, b, s0, s, r0, r, e) implies #[trigger] failed_with(
        b0,
        b2,
        s0,
        s2,
        r0,
        r2,
        e,
    ) by {
        if exists|i: int| b0.len() <= i < b.len() && backend_error(#[trigger] b[i]) == Some(e) {
            let i = choose|i: int| b0.len() <= i < b.len() && backend_error(#[trigger] b[i]) == Some(e);
            assert(b2[i] == b[i]);
        } else if exists|i: int| s0.len() <= i < s.len() && signaller_error(#[trigger] s[i]) == Some(e) {
            let i = choose|i: int| s0.len() <= i < s.len() && signaller_error(#[trigger] s[i]) == Some(e);
            assert(s2[i] == s[i]);
        } else {
            let i = choose|i: int| r0.len() <= i < r.len() && store_error(#[trigger] r[i]) == Some(e);
            assert(r2[i] == r[i]);
        }
    }
    if started_since(s0, s) {
        let i = choose|i: int| s0.len() <= i < s.len() && #[trigger] s[i] is Start;
        assert(s2[i] == s[i]);
    }
    if stopped_since(s0, s) {
        let i = choose|i: int| s0.len() <= i < s.len() && #[trigger] s[i] == SignallerCall::Stop(Ok(()));
        assert(s2[i] == s[i]);
    }
    if bind_tried_since(b0, b) {
        let i = choose|i: int| b0.len() <= i < b.len() && #[trigger] b[i] is Activate;
        assert(b2[i] == b[i]);
    }
    assert forall|x: bool| queried(s0, s, x) implies #[trigger] queried(s0, s2, x) by {
        assert(s2[s0.len() as int] == s[s0.len() as int]);
    }
    assert forall|u: Seq<char>| probed(b0, b, u) implies #[trigger] probed(b0, b2, u) by {
        assert(b2[b0.len() as int] == b[b0.len() as int]);
    }
}

/// A call of another kind than those witnessed leaves the witnesses as
/// they were.
pub proof fn lemma_calls_push(
    b0: Seq<BackendCall>,
    s0: Seq<SignallerCall>,
    b: Seq<BackendCall>,
    s: Seq<SignallerCall>,
    b2: Seq<BackendCall>,
    s2: Seq<SignallerCall>,
)
    requires
        extends(b0, b),
        extends(s0, s),
        b2 == b || (b2.len() == b.len() + 1 && b2.drop_last() == b && !(b2.last() is Activate)),
        s2 == s || (s2.len() == s.len() + 1 && s2.drop_last() == s && !(s2.last() is Start)
            && s2.last() != SignallerCall::Stop(Ok(()))),
    ensures
        bind_tried_since(b0, b2) == bind_tried_since(b0, b),
        started_since(s0, s2) == started_since(s0, s),
        stopped_since(s0, s2) == stopped_since(s0, s),
{
    assert forall|i: int| 0 <= i < b.len() implies b2[i] == b[i] by {
        if b2 != b {
            assert(b2.drop_last()[i] == b2[i]);
        }
    }
    assert forall|i: int| 0 <= i < s.len() implies s2[i] == s[i] by {
        if s2 != s {
            assert(s2.drop_last()[i] == s2[i]);
        }
    }
    if bind_tried_since(b0, b2) {
        let i = choose|i: int| b0.len() <= i < b2.len() && #[trigger] b2[i] is Activate;
        if i < b.len() {
            assert(b2[i] == b[i]);
        }
    }
    if bind_tried_since(b0, b) {
        let i = choose|i: int| b0.len() <= i < b.len() && #[trigger] b[i] is Activate;
        assert(b2[i] == b[i]);
    }
    if started_since(s0, s2) {
        let i = choose|i: int| s0.len() <= i < s2.len() && #[trigger] s2[i] is Start;
        if i < s.len() {
            assert(s2[i] == s[i]);
        }
    }
    if started_since(s0, s) {
        let i = choose|i: int| s0.len() <= i < s.len() && #[trigger] s[i] is Start;
        assert(s2[i] == s[i]);
    }
    if stopped_since(s0, s2) {
        let i = choose|i: int| s0.len() <= i < s2.len() && #[trigger] s2[i] == SignallerCall::Stop(Ok(()));
        if i < s.len() {
            assert(s2[i] == s[i]);
        }
    }
    if stopped_since(s0, s) {
        let i = choose|i: int| s0.len() <= i < s.len() && #[trigger] s[i] == SignallerCall::Stop(Ok(()));
        assert(s2[i] == s[i]);
    }
}

/// One step of an activation keeps [`activation_calls_inv`].
#[verifier::rlimit(100)]
#[verifier::spinoff_prover]
pub proof fn lemma_activation_calls_step(
    image: ValidatedImageView,
    mode: ImageMode,
    m: ManagerView,
    a: ActionView,
    b0: Seq<BackendCall>,
    s0: Seq<SignallerCall>,
    r0: Seq<StoreCall>,
    b: Seq<BackendCall>,
    s: Seq<SignallerCall>,
    r: Seq<StoreCall>,
    reply: ReplyView,
)
    requires
        wf(m),
        asked(m.phase, a),
        !(a is Finished),
        fits(m.phase, reply),
        m.image->0 == image,
        m.mode == mode,
        activation_calls_inv(image, mode, m, a, b0, s0, r0, b, s, r),
    ensures
        activation_calls_inv(
            image,
            mode,
            step(m, reply).0,
            step(m, reply).1,
            b0,
            s0,
            r0,
            b + backend_part(exchange(a, reply)),
            s + signaller_part(exchange(a, reply)),
            r + store_part(exchange(a, reply)),
        ),
{
    let x = exchange(a, reply);
    let b2 = b + backend_part(x);
    let s2 = s + signaller_part(x);
    let r2 = r + store_part(x);
    let (m2, a2) = step(m, reply);
    assert(b2.take(b.len() as int) =~= b);
    assert(s2.take(s.len() as int) =~= s);
    assert(r2.take(r.len() as int) =~= r);
    lemma_calls_grow(b0, s0, r0, b, s, r, b2, s2, r2);
    if backend_part(x).len() == 0 {
        assert(b2 =~= b);
    } else {
        assert(b2.drop_last() =~= b);
        assert(b2[b.len() as int] == x->Backend_0);
    }
    if signaller_part(x).len() == 0 {
        assert(s2 =~= s);
    } else {
        assert(s2.drop_last() =~= s);
        assert(s2[s.len() as int] == x->Signaller_0);
    }
    if store_part(x).len() == 0 {
        assert(r2 =~= r);
    } else {
        assert(r2.drop_last() =~= r);
        assert(r2[r.len() as int] == x->Store_0);
    }
    if reply is Completed && reply->Completed_0 is Ok {
        assert(reply->Completed_0->Ok_0 == ());
        assert(reply == ReplyView::Completed(Ok(())));
    }
    match m.phase {
        Phase::ActivateProbe => {
            if m2.phase == Phase::RollbackDeactivate {
                lemma_calls_push(b0, s0, b, s, b2, s2);
                assert(backend_error(b2[b.len() as int]) == Some(m2.error->0));
            }
        },
        Phase::ActivateQuery => {},
        Phase::ActivateSave => {
            if m2.phase == Phase::RollbackDeactivate {
                lemma_calls_push(b0, s0, b, s, b2, s2);
                assert(store_error(r2[r.len() as int]) == Some(m2.error->0));
                assert(!stopped_since(s0, s)) by {
                    if stopped_since(s0, s) {
                        let i = choose|i: int| s0.len() <= i < s.len() && #[trigger] s[i] == SignallerCall::Stop(Ok(()));
                        assert(i == s0.len());
                    }
                }
                assert(!started_since(s0, s)) by {
                    if started_since(s0, s) {
                        let i = choose|i: int| s0.len() <= i < s.len() && #[trigger] s[i] is Start;
                        assert(i == s0.len());
                    }
                }
            }
        },
        Phase::ActivateStop => {
            assert(!stopped_since(s0, s)) by {
                if stopped_since(s0, s) {
                    let i = choose|i: int| s0.len() <= i < s.len() && #[trigger] s[i] == SignallerCall::Stop(Ok(()));
                    assert(i == s0.len());
                }
            }
            assert(!started_since(s0, s)) by {
                if started_since(s0, s) {
                    let i = choose|i: int| s0.len() <= i < s.len() && #[trigger] s[i] is Start;
                    assert(i == s0.len());
                }
            }
            if m2.phase == Phase::RollbackDeactivate {
                lemma_calls_push(b0, s0, b, s, b2, s2);
                assert(signaller_error(s2[s.len() as int]) == Some(m2.error->0));
            }
        },
        Phase::ActivateRelease | Phase::ActivateRemoveStale | Phase::ActivateGadget => {
            assert(!started_since(s0, s)) by {
                if started_since(s0, s) {
                    let i = choose|i: int| s0.len() <= i < s.len() && #[trigger] s[i] is Start;
                    assert(i == s0.len() || i == s0.len() + 1);
                }
            }
            assert(stopped_since(s0, s) == m.running) by {
                if m.running {
                    assert(s[s0.len() + 1int] == SignallerCall::Stop(Ok(())));
                }
                if stopped_since(s0, s) {
                    let i = choose|i: int| s0.len() <= i < s.len() && #[trigger] s[i] == SignallerCall::Stop(Ok(()));
                    assert(i == s0.len() || i == s0.len() + 1);
                }
            }
            assert(!bind_tried_since(b0, b)) by {
                if bind_tried_since(b0, b) {
                    let i = choose|i: int| b0.len() <= i < b.len() && #[trigger] b[i] is Activate;
                    assert(i == b0.len() || i == b0.len() + 1 || i == b0.len() + 2);
                }
            }
            if m2.phase == Phase::RollbackDeactivate {
                assert(backend_error(b2[b.len() as int]) == Some(m2.error->0));
                if m.phase == Phase::ActivateGadget {
                    assert(b2[b.len() as int] is Activate);
                    assert(queried(s0, s2, m.running));
                } else {
                    lemma_calls_push(b0, s0, b, s, b2, s2);
                }
            }
        },
        Phase::RollbackDeactivate | Phase::RollbackRemoveStale => {
            lemma_calls_push(b0, s0, b, s, b2, s2);
            if bind_tried_since(b0, b) {
                let running = choose|running: bool| #[trigger] queried(s0, s, running) && (running
                    ==> stopped_since(s0, s));
                assert(queried(s0, s2, running));
            }
        },
        Phase::RollbackRestart => {
            assert(s2.last() is Start);
            assert(started_since(s0, s2)) by {
                assert(s2[s.len() as int] is Start);
            }
            assert(stopped_since(s0, s2) == stopped_since(s0, s)) by {
                if stopped_since(s0, s2) {
                    let i = choose|i: int| s0.len() <= i < s2.len() && #[trigger] s2[i] == SignallerCall::Stop(Ok(()));
                    if i < s.len() {
                        assert(s2[i] == s[i]);
                    }
                }
            }
            if bind_tried_since(b0, b) {
                let running = choose|running: bool| #[trigger] queried(s0, s, running) && (running
                    ==> stopped_since(s0, s));
                assert(queried(s0, s2, running));
            }
        },
        Phase::RollbackClear => {
            lemma_calls_push(b0, s0, b, s, b2, s2);
            if bind_tried_since(b0, b) {
                let running = choose|running: bool| #[trigger] queried(s0, s, running) && (running
                    ==> stopped_since(s0, s));
                assert(queried(s0, s2, running));
            }
        },
        _ => {},
    }
}

/// The calls of an ejection that succeeded, made since `b0`, `s0`, `r0`:
/// a successful teardown, a successful start of `usb-signaller` exactly
/// when it had been running before the activation, and a removal of the
/// record.
pub open spec fn ejected(
    b0: Seq<BackendCall>,
    s0: Seq<SignallerCall>,
    r0: Seq<StoreCall>,
    b: Seq<BackendCall>,
    s: Seq<SignallerCall>,
    r: Seq<StoreCall>,
    running: bool,
) -> bool {
    &&& extends(b0, b) && extends(s0, s) && extends(r0, r)
    &&& b.len() == b0.len() + 1 && b.last() == BackendCall::Deactivate(Ok(()))
    &&& if running {
        s.len() == s0.len() + 1 && s.last() == SignallerCall::Start(Ok(()))
    } else {
        s.len() == s0.len()
    }
    &&& r.len() == r0.len() + 1 && r.last() is Clear
}

/// The calls of an ejection that failed with `e`: one of them failed with
/// `e`, and the last store call removes the record.
pub open spec fn eject_failed(
    b0: Seq<BackendCall>,
    s0: Seq<SignallerCall>,
    r0: Seq<StoreCall>,
    b: Seq<BackendCall>,
    s: Seq<SignallerCall>,
    r: Seq<StoreCall>,
    e: ErrorView,
) -> bool {
    &&& extends(b0, b) && extends(s0, s) && extends(r0, r)
    &&& failed_with(b0, b, s0, s, r0, r, e)
    &&& r.len() > r0.len() && r.last() is Clear
}

/// What holds, phase by phase, of the calls an ejection has made since
/// `b0`, `s0`, `r0`, standing in `m` and asking for `a`.
pub open spec fn ejection_calls_inv(
    m: ManagerView,
    a: ActionView,
    b0: Seq<BackendCall>,
    s0: Seq<SignallerCall>,
    r0: Seq<StoreCall>,
    b: Seq<BackendCall>,
    s: Seq<SignallerCall>,
    r: Seq<StoreCall>,
) -> bool {
    &&& extends(b0, b) && extends(s0, s) && extends(r0, r)
    &&& match m.phase {
        Phase::EjectGadget => b.len() == b0.len() && s.len() == s0.len() && r.len() == r0.len(),
        Phase::EjectRestart => {
            &&& b.len() == b0.len() + 1 && b.last() == BackendCall::Deactivate(Ok(()))
            &&& s.len() == s0.len() && r.len() == r0.len() && m.running
        },
        Phase::EjectClear => {
            &&& b.len() == b0.len() + 1 && b.last() == BackendCall::Deactivate(Ok(()))
            &&& if m.running {
                s.len() == s0.len() + 1 && s.last() == SignallerCall::Start(Ok(()))
            } else {
                s.len() == s0.len()
            }
            &&& r.len() == r0.len()
        },
        Phase::EjectRestartAfterError | Phase::EjectClearAfterError
        | Phase::EjectClearAfterRestartError | Phase::RollbackDeactivate
        | Phase::RollbackRemoveStale | Phase::RollbackRestart | Phase::RollbackClear => failed_with(
            b0,
            b,
            s0,
            s,
            r0,
            r,
            m.error->0,
        ),
        Phase::Ready => match a {
            ActionView::Finished(OutcomeView::Info(_)) => ejected(b0, s0, r0, b, s, r, m.running),
            ActionView::Finished(OutcomeView::Failed(e)) => eject_failed(b0, s0, r0, b, s, r, e),
            _ => false,
        },
        _ => false,
    }
}

/// One step of an ejection keeps [`ejection_calls_inv`].
#[verifier::rlimit(100)]
#[verifier::spinoff_prover]
pub proof fn lemma_ejection_calls_step(
    m: ManagerView,
    a: ActionView,
    b0: Seq<BackendCall>,
    s0: Seq<SignallerCall>,
    r0: Seq<StoreCall>,
    b: Seq<BackendCall>,
    s: Seq<SignallerCall>,
    r: Seq<StoreCall>,
    reply: ReplyView,
)
    requires
        wf(m),
        asked(m.phase, a),
        !(a is Finished),
        fits(m.phase, reply),
        ejection_calls_inv(m, a, b0, s0, r0, b, s, r),
    ensures
        ejection_calls_inv(
            step(m, reply).0,
            step(m, reply).1,
            b0,
            s0,
            r0,
            b + backend_part(exchange(a, reply)),
            s + signaller_part(exchange(a, reply)),
            r + store_part(exchange(a, reply)),
        ),
{
    let x = exchange(a, reply);
    let b2 = b + backend_part(x);
    let s2 = s + signaller_part(x);
    let r2 = r + store_part(x);
    let (m2, a2) = step(m, reply);
    assert(b2.take(b.len() as int) =~= b);
    assert(s2.take(s.len() as int) =~= s);
    assert(r2.take(r.len() as int) =~= r);
    lemma_calls_grow(b0, s0, r0, b, s, r, b2, s2, r2);
    if backend_part(x).len() == 0 {
        assert(b2 =~= b);
    } else {
        assert(b2[b.len() as int] == x->Backend_0);
    }
    if signaller_part(x).len() == 0 {
        assert(s2 =~= s);
    } else {
        assert(s2[s.len() as int] == x->Signaller_0);
    }
    if store_part(x).len() == 0 {
        assert(r2 =~= r);
    } else {
        assert(r2[r.len() as int] == x->Store_0);
    }
    if reply is Completed && reply->Completed_0 is Ok {
        assert(reply->Completed_0->Ok_0 == ());
        assert(reply == ReplyView::Completed(Ok(())));
    }
    match m.phase {
        Phase::EjectGadget => {
            if reply_error(reply) is Some {
                assert(backend_error(b2[b.len() as int]) == Some(m2.error->0));
            }
        },
        Phase::EjectRestart => {
            if reply_error(reply) is Some {
                assert(signaller_error(s2[s.len() as int]) == Some(m2.error->0));
            }
        },
        _ => {},
    }
}

// ---------------------------------------------------------------------------
// Events
// ---------------------------------------------------------------------------

/// What holds of the events of an operation that started in `start`,
/// stands in `m` and asks for `a`: events are only ever appended; an
/// operation that reports a snapshot has just announced it; one that
/// reports an error has just announced the `Error` snapshot and then the
/// error.
pub open spec fn events_inv(start: ManagerView, m: ManagerView, a: ActionView) -> bool {
    &&& m.events.len() >= start.events.len()
    &&& forall|i: int| 0 <= i < start.events.len() ==> #[trigger] m.events[i] == start.events[i]
    &&& start.phase != Phase::Ready ==> (a matches ActionView::Finished(OutcomeView::Info(i)) ==> {
        &&& m.events.len() > 0
        &&& m.events.last() == EventView::State(i)
    })
    &&& start.phase != Phase::Ready ==> (a matches ActionView::Finished(OutcomeView::Failed(e))
        ==> {
        &&& m.events.len() >= 2
        &&& m.events.last() == error_event(e)
        &&& m.events[m.events.len() - 2] == EventView::State(m.info)
    })
}

/// One step keeps [`events_inv`].
#[verifier::rlimit(60)]
#[verifier::spinoff_prover]
pub proof fn lemma_events_step(start: ManagerView, m: ManagerView, a: ActionView, r: ReplyView)
    requires
        wf(m),
        asked(m.phase, a),
        !(a is Finished),
        fits(m.phase, r),
        start.phase != Phase::Ready,
        events_inv(start, m, a),
    ensures
        events_inv(start, step(m, r).0, step(m, r).1),
{
    let (m2, a2) = step(m, r);
    assert(m2.events == m.events || m2.events.drop_last() == m.events || m2.events.drop_last().drop_last() == m.events);
    if m2.events.len() > m.events.len() {
        assert forall|i: int| 0 <= i < start.events.len() implies #[trigger] m2.events[i] == start.events[i] by {
            assert(m.events[i] == start.events[i]);
            if m2.events.drop_last() == m.events {
                assert(m2.events.drop_last()[i] == m2.events[i]);
            } else {
                assert(m2.events.drop_last().drop_last()[i] == m2.events[i]);
            }
        }
    }
}

} // verus!
