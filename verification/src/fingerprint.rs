//! Fingerprint verification through fprintd: the order of the D-Bus steps, and
//! what each answer means for the result.
use vstd::prelude::*;

use crate::text::{chars_eq_str, chars_of, owned, string_from_chars};

verus! {

broadcast use vstd::seq_lib::group_seq_properties;

/// The outcome of one fingerprint verification.
pub enum VerifyResult {
    Match,
    NoMatch,
    Error(String),
}

/// `VerifyResult`, with the error text as characters.
pub enum VerifyResultView {
    Match,
    NoMatch,
    Error(Seq<char>),
}

impl View for VerifyResult {
    type V = VerifyResultView;

    open spec fn view(&self) -> VerifyResultView {
        match self {
            VerifyResult::Match => VerifyResultView::Match,
            VerifyResult::NoMatch => VerifyResultView::NoMatch,
            VerifyResult::Error(e) => VerifyResultView::Error(e@),
        }
    }
}

/// The D-Bus steps of a verification, in the order in which they are made.
#[derive(Clone, Copy, Debug, PartialEq, Eq, Structural)]
pub enum DbusStep {
    /// Connect to the system bus.
    Connect,
    /// Ask the fprintd manager for the default device.
    GetDefaultDevice,
    /// Read the device path out of the reply.
    ReadDevicePath,
    /// Create the bus proxy.
    CreateProxy,
    /// Build the rule that matches `VerifyStatus` signals of the device interface.
    BuildMatchRule,
    /// Subscribe with that rule (the message stream is opened right after).
    AddMatchRule,
    /// Claim the device for the user.
    Claim,
    /// Start verifying with any enrolled finger.
    VerifyStart,
}

/// The step after a step, none after the last.
pub open spec fn step_after(s: DbusStep) -> Option<DbusStep> {
    match s {
        DbusStep::Connect => Some(DbusStep::GetDefaultDevice),
        DbusStep::GetDefaultDevice => Some(DbusStep::ReadDevicePath),
        DbusStep::ReadDevicePath => Some(DbusStep::CreateProxy),
        DbusStep::CreateProxy => Some(DbusStep::BuildMatchRule),
        DbusStep::BuildMatchRule => Some(DbusStep::AddMatchRule),
        DbusStep::AddMatchRule => Some(DbusStep::Claim),
        DbusStep::Claim => Some(DbusStep::VerifyStart),
        DbusStep::VerifyStart => None,
    }
}

/// The name under which a failed step is reported.
pub open spec fn step_label(s: DbusStep) -> Seq<char> {
    match s {
        DbusStep::Connect => "D-Bus connect"@,
        DbusStep::GetDefaultDevice => "GetDefaultDevice"@,
        DbusStep::ReadDevicePath => "GetDefaultDevice parse"@,
        DbusStep::CreateProxy => "DBusProxy"@,
        DbusStep::BuildMatchRule => "MatchRule"@,
        DbusStep::AddMatchRule => "AddMatch"@,
        DbusStep::Claim => "Claim"@,
        DbusStep::VerifyStart => "VerifyStart"@,
    }
}

/// Where a verification stands.
pub enum VerifyPhase {
    /// A step is under way.
    Running(DbusStep),
    /// Verification has started; waiting for its status signal.
    Waiting,
    /// The verification is over.
    Done,
}

/// What happened to the action last asked for.
pub enum VerifyEvent {
    /// The step succeeded.
    StepDone,
    /// The step failed, with the error's text.
    StepFailed(String),
    /// A message arrived: its member name, and the status text where its body
    /// reads as a status and a done flag.
    Message { member: Option<String>, status: Option<String> },
    /// The message stream ended or failed.
    StreamEnded,
    /// No status came in time.
    TimedOut,
}

/// `VerifyEvent`, with texts as characters.
pub enum VerifyEventView {
    StepDone,
    StepFailed(Seq<char>),
    Message { member: Option<Seq<char>>, status: Option<Seq<char>> },
    StreamEnded,
    TimedOut,
}

/// The view of a text that may be absent.
pub open spec fn opt_view(s: Option<String>) -> Option<Seq<char>> {
    match s {
        Some(s) => Some(s@),
        None => None,
    }
}

impl View for VerifyEvent {
    type V = VerifyEventView;

    open spec fn view(&self) -> VerifyEventView {
        match self {
            VerifyEvent::StepDone => VerifyEventView::StepDone,
            VerifyEvent::StepFailed(e) => VerifyEventView::StepFailed(e@),
            VerifyEvent::Message { member, status } => VerifyEventView::Message {
                member: opt_view(*member),
                status: opt_view(*status),
            },
            VerifyEvent::StreamEnded => VerifyEventView::StreamEnded,
            VerifyEvent::TimedOut => VerifyEventView::TimedOut,
        }
    }
}

/// What the caller does next.
pub enum VerifyAction {
    /// Make this step.
    Perform(DbusStep),
    /// Wait for the next message.
    AwaitMessage,
    /// Stop verifying, release the device, and report.
    StopAndFinish(VerifyResult),
    /// Release the device, and report.
    ReleaseAndFinish(VerifyResult),
    /// Report.
    Finish(VerifyResult),
}

/// `VerifyAction`, with texts as characters.
pub enum VerifyActionView {
    Perform(DbusStep),
    AwaitMessage,
    StopAndFinish(VerifyResultView),
    ReleaseAndFinish(VerifyResultView),
    Finish(VerifyResultView),
}

impl View for VerifyAction {
    type V = VerifyActionView;

    open spec fn view(&self) -> VerifyActionView {
        match self {
            VerifyAction::Perform(s) => VerifyActionView::Perform(*s),
            VerifyAction::AwaitMessage => VerifyActionView::AwaitMessage,
            VerifyAction::StopAndFinish(r) => VerifyActionView::StopAndFinish(r@),
            VerifyAction::ReleaseAndFinish(r) => VerifyActionView::ReleaseAndFinish(r@),
            VerifyAction::Finish(r) => VerifyActionView::Finish(r@),
        }
    }
}

/// True when the event answers what the phase waits for.
pub open spec fn event_fits(p: VerifyPhase, e: VerifyEventView) -> bool {
    match p {
        VerifyPhase::Running(_) => e is StepDone || e is StepFailed,
        VerifyPhase::Waiting => e is Message || e is StreamEnded || e is TimedOut,
        VerifyPhase::Done => false,
    }
}

/// The result that a status signal reports.
pub open spec fn status_result(status: Seq<char>) -> VerifyResultView {
    if status == "verify-match"@ {
        VerifyResultView::Match
    } else {
        VerifyResultView::NoMatch
    }
}

/// The error reported for a failed step.
pub open spec fn step_error(s: DbusStep, detail: Seq<char>) -> VerifyResultView {
    VerifyResultView::Error(step_label(s) + ": "@ + detail)
}

/// The phase and action after an event.
pub open spec fn verify_transition(p: VerifyPhase, e: VerifyEventView) -> (
    VerifyPhase,
    VerifyActionView,
) {
    match p {
        VerifyPhase::Running(s) => match e {
            VerifyEventView::StepFailed(d) => (
                VerifyPhase::Done,
                if s == DbusStep::VerifyStart {
                    VerifyActionView::ReleaseAndFinish(step_error(s, d))
                } else {
                    VerifyActionView::Finish(step_error(s, d))
                },
            ),
            _ => match step_after(s) {
                Some(t) => (VerifyPhase::Running(t), VerifyActionView::Perform(t)),
                None => (VerifyPhase::Waiting, VerifyActionView::AwaitMessage),
            },
        },
        _ => match e {
            VerifyEventView::Message { member, status } => if member == Some("VerifyStatus"@)
                && status is Some {
                (VerifyPhase::Done, VerifyActionView::StopAndFinish(status_result(status->0)))
            } else {
                (VerifyPhase::Waiting, VerifyActionView::AwaitMessage)
            },
            VerifyEventView::StreamEnded => (
                VerifyPhase::Done,
                VerifyActionView::Finish(VerifyResultView::Error("Stream ended"@)),
            ),
            _ => (
                VerifyPhase::Done,
                VerifyActionView::StopAndFinish(VerifyResultView::Error("Timeout"@)),
            ),
        },
    }
}

/// One fingerprint verification in progress.
pub struct Verification {
    phase: VerifyPhase,
}

impl View for Verification {
    type V = VerifyPhase;

    closed spec fn view(&self) -> VerifyPhase {
        self.phase
    }
}

fn label_of(s: DbusStep) -> (r: &'static str)
    ensures
        r@ == step_label(s),
{
    match s {
        DbusStep::Connect => "D-Bus connect",
        DbusStep::GetDefaultDevice => "GetDefaultDevice",
        DbusStep::ReadDevicePath => "GetDefaultDevice parse",
        DbusStep::CreateProxy => "DBusProxy",
        DbusStep::BuildMatchRule => "MatchRule",
        DbusStep::AddMatchRule => "AddMatch",
        DbusStep::Claim => "Claim",
        DbusStep::VerifyStart => "VerifyStart",
    }
}

fn next_of(s: DbusStep) -> (r: Option<DbusStep>)
    ensures
        r == step_after(s),
{
    match s {
        DbusStep::Connect => Some(DbusStep::GetDefaultDevice),
        DbusStep::GetDefaultDevice => Some(DbusStep::ReadDevicePath),
        DbusStep::ReadDevicePath => Some(DbusStep::CreateProxy),
        DbusStep::CreateProxy => Some(DbusStep::BuildMatchRule),
        DbusStep::BuildMatchRule => Some(DbusStep::AddMatchRule),
        DbusStep::AddMatchRule => Some(DbusStep::Claim),
        DbusStep::Claim => Some(DbusStep::VerifyStart),
        DbusStep::VerifyStart => None,
    }
}

/// The result that a status text reports: a match only for `verify-match`.
pub fn result_of_status(status: &str) -> (r: VerifyResult)
    ensures
        r@ == status_result(status@),
{
    let c = chars_of(status);
    if chars_eq_str(c.as_slice(), "verify-match") {
        VerifyResult::Match
    } else {
        VerifyResult::NoMatch
    }
}

fn error_for(s: DbusStep, detail: &str) -> (r: VerifyResult)
    ensures
        r@ == step_error(s, detail@),
{
    let mut v = chars_of(label_of(s));
    let mut sep = chars_of(": ");
    v.append(&mut sep);
    let mut d = chars_of(detail);
    v.append(&mut d);
    VerifyResult::Error(string_from_chars(v.as_slice()))
}

fn text_error(s: &str) -> (r: VerifyResult)
    ensures
        r@ == VerifyResultView::Error(s@),
{
    VerifyResult::Error(owned(s))
}

impl Verification {
    /// A verification that begins by connecting to the bus.
    pub fn start() -> (r: (Self, VerifyAction))
        ensures
            r.0@ == VerifyPhase::Running(DbusStep::Connect),
            r.1@ == VerifyActionView::Perform(DbusStep::Connect),
    {
        (Verification { phase: VerifyPhase::Running(DbusStep::Connect) }, VerifyAction::Perform(
            DbusStep::Connect,
        ))
    }

    /// Takes what happened to the last action and says what to do next.
    pub fn next(&mut self, event: VerifyEvent) -> (a: VerifyAction)
        requires
            event_fits(old(self)@, event@),
        ensures
            (final(self)@, a@) == verify_transition(old(self)@, event@),
    {
        match self.phase {
            VerifyPhase::Running(s) => match event {
                VerifyEvent::StepFailed(d) => {
                    self.phase = VerifyPhase::Done;
                    let err = error_for(s, d.as_str());
                    match s {
                        DbusStep::VerifyStart => VerifyAction::ReleaseAndFinish(err),
                        _ => VerifyAction::Finish(err),
                    }
                },
                _ => match next_of(s) {
                    Some(t) => {
                        self.phase = VerifyPhase::Running(t);
                        VerifyAction::Perform(t)
                    },
                    None => {
                        self.phase = VerifyPhase::Waiting;
                        VerifyAction::AwaitMessage
                    },
                },
            },
            _ => match event {
                VerifyEvent::Message { member, status } => {
                    let is_status = match &member {
                        Some(m) => chars_eq_str(chars_of(m.as_str()).as_slice(), "VerifyStatus"),
                        None => false,
                    };
                    match status {
                        Some(st) => {
                            if is_status {
                                self.phase = VerifyPhase::Done;
                                VerifyAction::StopAndFinish(result_of_status(st.as_str()))
                            } else {
                                self.phase = VerifyPhase::Waiting;
                                VerifyAction::AwaitMessage
                            }
                        },
                        None => {
                            self.phase = VerifyPhase::Waiting;
                            VerifyAction::AwaitMessage
                        },
                    }
                },
                VerifyEvent::StreamEnded => {
                    self.phase = VerifyPhase::Done;
                    VerifyAction::Finish(text_error("Stream ended"))
                },
                _ => {
                    self.phase = VerifyPhase::Done;
                    VerifyAction::StopAndFinish(text_error("Timeout"))
                },
            },
        }
    }
}

} // verus!

verus! {

/// The result that an action reports, if it reports one.
pub open spec fn reported(a: VerifyActionView) -> Option<VerifyResultView> {
    match a {
        VerifyActionView::StopAndFinish(r) => Some(r),
        VerifyActionView::ReleaseAndFinish(r) => Some(r),
        VerifyActionView::Finish(r) => Some(r),
        _ => None,
    }
}

/// A match is reported only for a `VerifyStatus` signal whose status is
/// `verify-match`.
pub proof fn law_match_only_on_verify_match(p: VerifyPhase, e: VerifyEventView)
    requires
        event_fits(p, e),
    ensures
        reported(verify_transition(p, e).1) == Some(VerifyResultView::Match) ==> e
            == (VerifyEventView::Message {
            member: Some("VerifyStatus"@),
            status: Some("verify-match"@),
        }),
{
    if reported(verify_transition(p, e).1) == Some(VerifyResultView::Match) {
        reveal_strlit("Stream ended");
        reveal_strlit("Timeout");
        match e {
            VerifyEventView::Message { member, status } => {
                assert(status->0 == "verify-match"@);
            },
            _ => {},
        }
    }
}

/// Once verification has started, every way it ends gives the device
/// back (stopping or releasing it), except the end of the message stream.
pub proof fn law_started_verification_releases_device(p: VerifyPhase, e: VerifyEventView)
    requires
        event_fits(p, e),
        p is Waiting || p == VerifyPhase::Running(DbusStep::VerifyStart),
        !(e is StreamEnded),
        verify_transition(p, e).0 is Done,
    ensures
        verify_transition(p, e).1 is StopAndFinish || verify_transition(p, e).1 is ReleaseAndFinish,
{
}

/// The steps are made in their fixed order, each only after the one before
/// it succeeded; a failed step ends the verification with its name in the error.
pub proof fn law_steps_in_order(s: DbusStep, d: Seq<char>)
    ensures
        verify_transition(VerifyPhase::Running(s), VerifyEventView::StepDone).1 == match step_after(
            s,
        ) {
            Some(t) => VerifyActionView::Perform(t),
            None => VerifyActionView::AwaitMessage,
        },
        verify_transition(VerifyPhase::Running(s), VerifyEventView::StepFailed(d)).0 is Done,
        reported(verify_transition(VerifyPhase::Running(s), VerifyEventView::StepFailed(d)).1)
            == Some(step_error(s, d)),
{
}

} // verus!
