//! Coordination with postmarketOS's `usb-signaller` service.
//!
//! `usb-signaller` normally owns gadget `g1` and the UDC. BootDrive borrows
//! the UDC while active and hands it back afterwards. The init system is
//! controlled through [`SignallerControl`]; the application runs the service
//! commands this module describes and hands their outcome back for
//! interpretation, and [`MockSignaller`] stands in for the service in tests.

use vstd::prelude::*;

use crate::error::{unit_result, BootDriveError, ErrorCode, ErrorView};
use crate::text::{chars_of, string_of, trim_chars, trim_spec};

verus! {

/// Name of the controlled service.
pub const SERVICE_NAME: &'static str = "usb-signaller";

/// Absolute path of systemd's control tool.
pub const SYSTEMCTL: &'static str = "/usr/bin/systemctl";

/// Absolute path of OpenRC's control tool.
pub const RC_SERVICE: &'static str = "/sbin/rc-service";

/// Directory whose presence means systemd is the running init system.
pub const SYSTEMD_RUNTIME_DIR: &'static str = "/run/systemd/system";

/// The mathematical content of a status query's result.
pub open spec fn bool_result(r: Result<bool, BootDriveError>) -> Result<bool, ErrorView> {
    match r {
        Ok(b) => Ok(b),
        Err(e) => Err(e@),
    }
}

/// One call made on the service control: what was asked, and what it
/// returned.
pub enum SignallerCall {
    /// `is_running`.
    Query(Result<bool, ErrorView>),
    /// `stop`.
    Stop(Result<(), ErrorView>),
    /// `start`.
    Start(Result<(), ErrorView>),
}

/// Control surface for the normal USB gadget owner. Each call is recorded
/// in the control's history with what it returned.
pub trait SignallerControl {
    /// Every call made on this control so far, in order. It is a record
    /// kept for proofs: an implementation that keeps none (one written
    /// outside this library, whose code is not verified) inherits an empty
    /// one, and the contracts below are then checked only of the
    /// implementations in this library.
    closed spec fn history(&self) -> Seq<SignallerCall> {
        Seq::empty()
    }

    /// What fixes the replies of a control that follows a model of its
    /// own (for the test double: whether stop fails, and whether the
    /// service ran at first). Calls never change it.
    type Model;

    /// This control's model; one without a model has an arbitrary one.
    closed spec fn model(&self) -> Self::Model {
        vstd::pervasive::arbitrary()
    }

    /// Whether every call in the history got the reply this control's
    /// model gives it. An implementation without a model claims nothing.
    closed spec fn faithful(&self) -> bool {
        true
    }

    /// Whether the service is currently running.
    fn is_running(&mut self) -> (r: Result<bool, BootDriveError>)
        ensures
            final(self).history() == old(self).history().push(SignallerCall::Query(bool_result(r))),
            old(self).faithful() ==> final(self).faithful(),
            final(self).model() == old(self).model(),
    ;

    /// Stop the service.
    fn stop(&mut self) -> (r: Result<(), BootDriveError>)
        ensures
            final(self).history() == old(self).history().push(SignallerCall::Stop(unit_result(r))),
            old(self).faithful() ==> final(self).faithful(),
            final(self).model() == old(self).model(),
    ;

    /// Start the service.
    fn start(&mut self) -> (r: Result<(), BootDriveError>)
        ensures
            final(self).history() == old(self).history().push(SignallerCall::Start(unit_result(r))),
            old(self).faithful() ==> final(self).faithful(),
            final(self).model() == old(self).model(),
    ;
}

/// The init systems BootDrive knows how to drive.
#[derive(Debug, Clone, Copy, PartialEq, Eq, Structural)]
pub enum InitSystem {
    /// systemd (`systemctl <action> usb-signaller`).
    Systemd,
    /// OpenRC (`rc-service usb-signaller <action>`).
    OpenRc,
}

/// Pick the controller for the running init system: systemd when its
/// runtime directory exists, OpenRC otherwise.
pub fn detect(systemd_runtime_dir_exists: bool) -> (r: InitSystem)
    ensures
        r == (if systemd_runtime_dir_exists {
            InitSystem::Systemd
        } else {
            InitSystem::OpenRc
        }),
{
    if systemd_runtime_dir_exists {
        InitSystem::Systemd
    } else {
        InitSystem::OpenRc
    }
}

/// The error reported when `usb-signaller` could not be `action`.
pub fn signal_error(action: &str, detail: &str) -> (e: BootDriveError)
    ensures
        e.code == ErrorCode::SignallerReleaseFailed,
        e.message@ == "usb-signaller could not be "@ + action@ + ": "@ + detail@,
{
    let m = String::from_str("usb-signaller could not be ").concat(action).concat(": ").concat(
        detail,
    );
    BootDriveError::new(ErrorCode::SignallerReleaseFailed, m)
}

/// A command line: the program and its arguments.
#[derive(Debug, Clone, PartialEq, Eq)]
pub struct ServiceCommand {
    /// Absolute path of the program.
    pub program: String,
    /// Its arguments.
    pub args: Vec<String>,
}

/// What running a service command produced.
#[derive(Debug, Clone)]
pub enum CommandOutcome {
    /// The command ran; whether it exited successfully, and its stderr.
    Exited { success: bool, stderr: String },
    /// The command could not be run; the detail says why.
    SpawnFailed(String),
}

/// systemd-backed control (`systemctl <action> usb-signaller`).
#[derive(Debug, Clone, Copy)]
pub struct SystemdSignaller;

/// OpenRC-backed control (`rc-service usb-signaller <action>`).
#[derive(Debug, Clone, Copy)]
pub struct OpenRcSignaller;

impl SystemdSignaller {
    /// Create a new controller.
    pub fn new() -> (r: Self) {
        SystemdSignaller
    }

    /// The command line for `action`.
    pub fn command(&self, action: &str) -> (r: ServiceCommand)
        ensures
            r.program@ == SYSTEMCTL@,
            r.args@.len() == 2,
            r.args@[0]@ == action@,
            r.args@[1]@ == SERVICE_NAME@,
    {
        let mut args: Vec<String> = Vec::new();
        args.push(String::from_str(action));
        args.push(String::from_str(SERVICE_NAME));
        ServiceCommand { program: String::from_str(SYSTEMCTL), args }
    }

    /// The action that reports whether the service runs.
    pub fn status_action(&self) -> (r: &'static str)
        ensures
            r@ == "is-active"@,
    {
        "is-active"
    }
}

impl OpenRcSignaller {
    /// Create a new controller.
    pub fn new() -> (r: Self) {
        OpenRcSignaller
    }

    /// The command line for `action`.
    pub fn command(&self, action: &str) -> (r: ServiceCommand)
        ensures
            r.program@ == RC_SERVICE@,
            r.args@.len() == 2,
            r.args@[0]@ == SERVICE_NAME@,
            r.args@[1]@ == action@,
    {
        let mut args: Vec<String> = Vec::new();
        args.push(String::from_str(SERVICE_NAME));
        args.push(String::from_str(action));
        ServiceCommand { program: String::from_str(RC_SERVICE), args }
    }

    /// The action that reports whether the service runs.
    pub fn status_action(&self) -> (r: &'static str)
        ensures
            r@ == "status"@,
    {
        "status"
    }
}

/// Whether the service runs, from the outcome of its status command
/// (`status_action`): a successful exit means running.
pub fn running_from(outcome: &CommandOutcome, status_action: &str) -> (r: Result<bool, BootDriveError>)
    ensures
        match outcome {
            CommandOutcome::Exited { success, .. } => r == Ok::<bool, BootDriveError>(*success),
            CommandOutcome::SpawnFailed(d) => r matches Err(e) && e.code
                == ErrorCode::SignallerReleaseFailed && e.message@ == "usb-signaller could not be "@
                + status_action@ + ": "@ + d@,
        },
{
    match outcome {
        CommandOutcome::Exited { success, .. } => Ok(*success),
        CommandOutcome::SpawnFailed(d) => Err(signal_error(status_action, d.as_str())),
    }
}

/// The result of a stop (`action` "stop", `done` "stopped") or start
/// (`action` "start", `done` "restarted") command: success on a successful
/// exit; otherwise the trimmed stderr, or why the command could not run.
pub fn control_result(outcome: &CommandOutcome, action: &str, done: &str) -> (r: Result<
    (),
    BootDriveError,
>)
    ensures
        match outcome {
            CommandOutcome::Exited { success, stderr } => if *success {
                r is Ok
            } else {
                r matches Err(e) && e.code == ErrorCode::SignallerReleaseFailed && e.message@
                    == "usb-signaller could not be "@ + done@ + ": "@ + trim_spec(stderr@)
            },
            CommandOutcome::SpawnFailed(d) => r matches Err(e) && e.code
                == ErrorCode::SignallerReleaseFailed && e.message@ == "usb-signaller could not be "@
                + action@ + ": "@ + d@,
        },
{
    match outcome {
        CommandOutcome::Exited { success, stderr } => {
            if *success {
                Ok(())
            } else {
                let t = trim_chars(chars_of(stderr.as_str()).as_slice());
                let ts = string_of(t.as_slice());
                Err(signal_error(done, ts.as_str()))
            }
        },
        CommandOutcome::SpawnFailed(d) => Err(signal_error(action, d.as_str())),
    }
}

/// One round of waiting for the UDC to be released: done as soon as no
/// foreign gadget holds it, else a timeout error once the deadline has
/// passed, else `None` (wait a little and look again).
pub fn release_wait_step(still_bound: bool, deadline_passed: bool) -> (r: Option<
    Result<(), BootDriveError>,
>)
    ensures
        !still_bound ==> r == Some(Ok::<(), BootDriveError>(())),
        still_bound && deadline_passed ==> (r matches Some(Err(e)) && e.code == ErrorCode::UdcBusy
            && e.message@ == "the UDC was not released in time"@),
        still_bound && !deadline_passed ==> r is None,
{
    if !still_bound {
        Some(Ok(()))
    } else if deadline_passed {
        Some(
            Err(
                BootDriveError::new(
                    ErrorCode::UdcBusy,
                    String::from_str("the UDC was not released in time"),
                ),
            ),
        )
    } else {
        None
    }
}

/// Test double for `usb-signaller`.
pub struct MockSignaller {
    /// Whether the service reports running.
    pub running: bool,
    /// If set, `stop` fails.
    pub fail_stop: bool,
    /// Record of actions taken, for assertions.
    pub actions: Vec<String>,
    /// Every call made, with what it returned.
    pub log: Ghost<Seq<SignallerCall>>,
    /// Whether the service was running when the mock was made.
    pub initially_running: Ghost<bool>,
    /// Whether the service ran after each call of the log.
    pub after: Ghost<Seq<bool>>,
}

impl MockSignaller {
    /// Whether the service ran before the call at index `i` of the log.
    pub open spec fn running_before(&self, i: int) -> bool {
        if i == 0 {
            self.initially_running@
        } else {
            self.after@[i - 1]
        }
    }
}

/// Whether the mocked service runs after the call `c`, having run exactly
/// when `running` before it: a successful stop stops it, a successful
/// start starts it.
pub open spec fn running_next(running: bool, c: SignallerCall) -> bool {
    match c {
        SignallerCall::Stop(Ok(())) => false,
        SignallerCall::Start(Ok(())) => true,
        _ => running,
    }
}

/// Whether a recorded call got the reply the mock gives while the service
/// runs exactly when `running`.
pub open spec fn mock_signaller_call_ok(fail_stop: bool, running: bool, c: SignallerCall) -> bool {
    match c {
        SignallerCall::Query(x) => x == Ok::<bool, ErrorView>(running),
        SignallerCall::Stop(x) => x == (if fail_stop {
            Err(
                ErrorView {
                    code: ErrorCode::SignallerReleaseFailed,
                    message: "mock stop failure"@,
                },
            )
        } else {
            Ok(())
        }),
        SignallerCall::Start(x) => x == Ok::<(), ErrorView>(()),
    }
}

impl MockSignaller {
    /// Create a mock that is currently running.
    pub fn running() -> (r: Self)
        ensures
            r.running,
            !r.fail_stop,
            r.actions@.len() == 0,
            r.log@ == Seq::<SignallerCall>::empty(),
            r.faithful(),
    {
        MockSignaller {
            running: true,
            fail_stop: false,
            actions: Vec::new(),
            log: Ghost(Seq::empty()),
            initially_running: Ghost(true),
            after: Ghost(Seq::empty()),
        }
    }

    /// Create a mock that is currently stopped.
    pub fn stopped() -> (r: Self)
        ensures
            !r.running,
            !r.fail_stop,
            r.actions@.len() == 0,
            r.log@ == Seq::<SignallerCall>::empty(),
            r.faithful(),
    {
        MockSignaller {
            running: false,
            fail_stop: false,
            actions: Vec::new(),
            log: Ghost(Seq::empty()),
            initially_running: Ghost(false),
            after: Ghost(Seq::empty()),
        }
    }
}

impl SignallerControl for MockSignaller {
    type Model = (bool, bool);

    open spec fn history(&self) -> Seq<SignallerCall> {
        self.log@
    }

    /// Whether stop fails, and whether the service ran at first.
    open spec fn model(&self) -> (bool, bool) {
        (self.fail_stop, self.initially_running@)
    }

    /// The service runs as the recorded calls left it, and every recorded
    /// call got the reply the mock gives at that point.
    open spec fn faithful(&self) -> bool {
        &&& self.after@.len() == self.log@.len()
        &&& self.running == self.running_before(self.log@.len() as int)
        &&& forall|i: int|
            0 <= i < self.log@.len() ==> mock_signaller_call_ok(
                self.fail_stop,
                self.running_before(i),
                #[trigger] self.log@[i],
            ) && self.after@[i] == running_next(self.running_before(i), self.log@[i])
    }

    fn is_running(&mut self) -> (r: Result<bool, BootDriveError>)
        ensures
            r == Ok::<bool, BootDriveError>(old(self).running),
            final(self).running == old(self).running,
            final(self).fail_stop == old(self).fail_stop,
            final(self).actions@ == old(self).actions@,
    {
        self.log = Ghost(self.log@.push(SignallerCall::Query(Ok(self.running))));
        self.after = Ghost(self.after@.push(self.running));
        Ok(self.running)
    }

    fn stop(&mut self) -> (r: Result<(), BootDriveError>)
        ensures
            final(self).actions@.len() == old(self).actions@.len() + 1,
            final(self).actions@.last()@ == "stop"@,
            forall|i: int|
                0 <= i < old(self).actions@.len() ==> final(self).actions@[i] == old(self).actions@[i],
            final(self).fail_stop == old(self).fail_stop,
            if old(self).fail_stop {
                r matches Err(e) && e.code == ErrorCode::SignallerReleaseFailed && e.message@
                    == "mock stop failure"@ && final(self).running == old(self).running
            } else {
                r is Ok && !final(self).running
            },
    {
        self.actions.push(String::from_str("stop"));
        if self.fail_stop {
            let r = Err(
                BootDriveError::new(
                    ErrorCode::SignallerReleaseFailed,
                    String::from_str("mock stop failure"),
                ),
            );
            self.log = Ghost(self.log@.push(SignallerCall::Stop(unit_result(r))));
            self.after = Ghost(self.after@.push(self.running));
            return r;
        }
        self.running = false;
        self.log = Ghost(self.log@.push(SignallerCall::Stop(Ok(()))));
        self.after = Ghost(self.after@.push(self.running));
        Ok(())
    }

    fn start(&mut self) -> (r: Result<(), BootDriveError>)
        ensures
            r is Ok,
            final(self).running,
            final(self).actions@.len() == old(self).actions@.len() + 1,
            final(self).actions@.last()@ == "start"@,
            forall|i: int|
                0 <= i < old(self).actions@.len() ==> final(self).actions@[i] == old(self).actions@[i],
            final(self).fail_stop == old(self).fail_stop,
    {
        self.actions.push(String::from_str("start"));
        self.running = true;
        self.log = Ghost(self.log@.push(SignallerCall::Start(Ok(()))));
        self.after = Ghost(self.after@.push(self.running));
        Ok(())
    }
}

} // verus!
