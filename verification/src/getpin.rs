//! Getting a passphrase: from the keyring behind a fingerprint match when
//! one is stored, else from a password dialog, then perhaps kept in the
//! keyring.
use vstd::prelude::*;

use crate::fingerprint::{VerifyResult, VerifyResultView};
use crate::text::owned;

verus! {

/// How many times the finger may be tried before falling back to a password.
pub const MAX_FINGERPRINT_ATTEMPTS: u32 = 5;

// ---------------------------------------------------------------------------
// The fingerprint attempts
// ---------------------------------------------------------------------------

/// How the fingerprint attempts ended.
pub enum FpLoopResult {
    /// The finger matched: here is the stored passphrase.
    Matched(String),
    /// Fall back to the password dialog.
    UsePassword,
    /// The user cancelled.
    Cancelled,
}

/// `FpLoopResult`, with the passphrase as characters.
pub enum FpLoopResultView {
    Matched(Seq<char>),
    UsePassword,
    Cancelled,
}

impl View for FpLoopResult {
    type V = FpLoopResultView;

    open spec fn view(&self) -> FpLoopResultView {
        match self {
            FpLoopResult::Matched(p) => FpLoopResultView::Matched(p@),
            FpLoopResult::UsePassword => FpLoopResultView::UsePassword,
            FpLoopResult::Cancelled => FpLoopResultView::Cancelled,
        }
    }
}

/// What happened during one attempt.
pub enum FpEvent {
    /// The waiting dialog could not be shown.
    DialogFailed,
    /// The dialog was closed first; `true` when it exited successfully (its
    /// button asks for the password instead).
    DialogClosed(bool),
    /// The verification finished first; none when it gave no result in time or
    /// could not run.
    VerifyFinished(Option<VerifyResult>),
}

/// `FpEvent`, with texts as characters.
pub enum FpEventView {
    DialogFailed,
    DialogClosed(bool),
    VerifyFinished(Option<VerifyResultView>),
}

impl View for FpEvent {
    type V = FpEventView;

    open spec fn view(&self) -> FpEventView {
        match self {
            FpEvent::DialogFailed => FpEventView::DialogFailed,
            FpEvent::DialogClosed(ok) => FpEventView::DialogClosed(*ok),
            FpEvent::VerifyFinished(r) => FpEventView::VerifyFinished(
                match r {
                    Some(v) => Some(v@),
                    None => None,
                },
            ),
        }
    }
}

/// What to do next in the fingerprint attempts.
pub enum FpAction {
    /// Show the waiting dialog for this attempt (counted from one) and start
    /// a verification.
    ShowDialog(u32),
    /// The attempts are over.
    Finish(FpLoopResult),
}

/// `FpAction`, with texts as characters.
pub enum FpActionView {
    ShowDialog(u32),
    Finish(FpLoopResultView),
}

impl View for FpAction {
    type V = FpActionView;

    open spec fn view(&self) -> FpActionView {
        match self {
            FpAction::ShowDialog(a) => FpActionView::ShowDialog(*a),
            FpAction::Finish(r) => FpActionView::Finish(r@),
        }
    }
}

/// The fingerprint attempts: the attempt under way, the stored passphrase,
/// and whether they are over.
pub struct FpLoopView {
    pub attempt: u32,
    pub cached: Seq<char>,
    pub done: bool,
}

/// True for a state that the attempts can be in.
pub open spec fn fp_wf(s: FpLoopView) -> bool {
    1 <= s.attempt <= MAX_FINGERPRINT_ATTEMPTS
}

/// The state and action after an attempt's event.
pub open spec fn fp_transition(s: FpLoopView, e: FpEventView) -> (FpLoopView, FpActionView) {
    let over = FpLoopView { done: true, ..s };
    match e {
        FpEventView::DialogFailed => (over, FpActionView::Finish(FpLoopResultView::UsePassword)),
        FpEventView::DialogClosed(ok) => (
            over,
            FpActionView::Finish(
                if ok {
                    FpLoopResultView::UsePassword
                } else {
                    FpLoopResultView::Cancelled
                },
            ),
        ),
        FpEventView::VerifyFinished(r) => match r {
            Some(VerifyResultView::Match) => (
                over,
                FpActionView::Finish(FpLoopResultView::Matched(s.cached)),
            ),
            Some(VerifyResultView::NoMatch) => if s.attempt + 1 > MAX_FINGERPRINT_ATTEMPTS {
                (over, FpActionView::Finish(FpLoopResultView::UsePassword))
            } else {
                (
                    FpLoopView { attempt: (s.attempt + 1) as u32, ..s },
                    FpActionView::ShowDialog((s.attempt + 1) as u32),
                )
            },
            _ => (over, FpActionView::Finish(FpLoopResultView::UsePassword)),
        },
    }
}

/// The fingerprint attempts in progress.
pub struct FingerprintLoop {
    attempt: u32,
    cached: String,
    done: bool,
}

impl View for FingerprintLoop {
    type V = FpLoopView;

    closed spec fn view(&self) -> FpLoopView {
        FpLoopView { attempt: self.attempt, cached: self.cached@, done: self.done }
    }
}

impl FingerprintLoop {
    /// Starts the attempts with the passphrase stored for the key: the first
    /// attempt shows its dialog.
    pub fn start(cached: String) -> (r: (Self, FpAction))
        ensures
            r.0@ == (FpLoopView { attempt: 1, cached: cached@, done: false }),
            r.1@ == FpActionView::ShowDialog(1),
    {
        (FingerprintLoop { attempt: 1, cached, done: false }, FpAction::ShowDialog(1))
    }

    /// Takes what happened during an attempt and says what to do next.
    pub fn next(&mut self, event: FpEvent) -> (a: FpAction)
        requires
            fp_wf(old(self)@),
            !old(self)@.done,
        ensures
            (final(self)@, a@) == fp_transition(old(self)@, event@),
            fp_wf(final(self)@),
    {
        match event {
            FpEvent::DialogFailed => {
                self.done = true;
                FpAction::Finish(FpLoopResult::UsePassword)
            },
            FpEvent::DialogClosed(ok) => {
                self.done = true;
                if ok {
                    FpAction::Finish(FpLoopResult::UsePassword)
                } else {
                    FpAction::Finish(FpLoopResult::Cancelled)
                }
            },
            FpEvent::VerifyFinished(r) => match r {
                Some(VerifyResult::Match) => {
                    self.done = true;
                    FpAction::Finish(FpLoopResult::Matched(owned(self.cached.as_str())))
                },
                Some(VerifyResult::NoMatch) => {
                    if self.attempt + 1 > MAX_FINGERPRINT_ATTEMPTS {
                        self.done = true;
                        FpAction::Finish(FpLoopResult::UsePassword)
                    } else {
                        self.attempt = self.attempt + 1;
                        FpAction::ShowDialog(self.attempt)
                    }
                },
                _ => {
                    self.done = true;
                    FpAction::Finish(FpLoopResult::UsePassword)
                },
            },
        }
    }
}

} // verus!

verus! {

// ---------------------------------------------------------------------------
// The whole request
// ---------------------------------------------------------------------------

/// Where a passphrase request stands.
pub enum PinPhase {
    /// Looking up the passphrase stored for the key.
    LookingUpKey,
    /// Looking up the default passphrase.
    LookingUpDefault,
    /// Trying the finger.
    Fingerprint,
    /// Waiting for the password dialog.
    Password,
    /// Asking whether to keep the entered passphrase.
    AskingSave(String),
    /// Storing it for the key.
    StoringKey(String),
    /// Storing it as the default.
    StoringDefault(String),
    /// Over.
    Done,
}

/// `PinPhase`, with texts as characters.
pub enum PinPhaseView {
    LookingUpKey,
    LookingUpDefault,
    Fingerprint,
    Password,
    AskingSave(Seq<char>),
    StoringKey(Seq<char>),
    StoringDefault(Seq<char>),
    Done,
}

impl View for PinPhase {
    type V = PinPhaseView;

    open spec fn view(&self) -> PinPhaseView {
        match self {
            PinPhase::LookingUpKey => PinPhaseView::LookingUpKey,
            PinPhase::LookingUpDefault => PinPhaseView::LookingUpDefault,
            PinPhase::Fingerprint => PinPhaseView::Fingerprint,
            PinPhase::Password => PinPhaseView::Password,
            PinPhase::AskingSave(p) => PinPhaseView::AskingSave(p@),
            PinPhase::StoringKey(p) => PinPhaseView::StoringKey(p@),
            PinPhase::StoringDefault(p) => PinPhaseView::StoringDefault(p@),
            PinPhase::Done => PinPhaseView::Done,
        }
    }
}

/// What happened to the action last asked for.
pub enum PinEvent {
    /// A keyring lookup gave this passphrase, or none.
    Looked(Option<String>),
    /// The fingerprint attempts ended so.
    FingerprintDone(FpLoopResult),
    /// The password dialog gave this passphrase, or none.
    Entered(Option<String>),
    /// The user answered whether to keep the passphrase.
    SaveAnswer(bool),
    /// A store was made (whether it succeeded does not matter).
    Stored,
}

/// The view of a text that may be absent.
pub open spec fn opt_text(s: Option<String>) -> Option<Seq<char>> {
    match s {
        Some(s) => Some(s@),
        None => None,
    }
}

/// `PinEvent`, with texts as characters.
pub enum PinEventView {
    Looked(Option<Seq<char>>),
    FingerprintDone(FpLoopResultView),
    Entered(Option<Seq<char>>),
    SaveAnswer(bool),
    Stored,
}

impl View for PinEvent {
    type V = PinEventView;

    open spec fn view(&self) -> PinEventView {
        match self {
            PinEvent::Looked(p) => PinEventView::Looked(opt_text(*p)),
            PinEvent::FingerprintDone(r) => PinEventView::FingerprintDone(r@),
            PinEvent::Entered(p) => PinEventView::Entered(opt_text(*p)),
            PinEvent::SaveAnswer(b) => PinEventView::SaveAnswer(*b),
            PinEvent::Stored => PinEventView::Stored,
        }
    }
}

/// What to do next for a passphrase request.
pub enum PinAction {
    /// Look up the keyring entry of this key.
    Lookup(String),
    /// Try the finger, with this stored passphrase.
    RunFingerprint(String),
    /// Show the password dialog (`true`: the one after a wrong passphrase).
    AskPassword(bool),
    /// Ask whether to keep the passphrase.
    AskSave,
    /// Store the passphrase under this key.
    Store { key: String, passphrase: String },
    /// The request is over, with this passphrase or none.
    Finish(Option<String>),
}

/// `PinAction`, with texts as characters.
pub enum PinActionView {
    Lookup(Seq<char>),
    RunFingerprint(Seq<char>),
    AskPassword(bool),
    AskSave,
    Store { key: Seq<char>, passphrase: Seq<char> },
    Finish(Option<Seq<char>>),
}

impl View for PinAction {
    type V = PinActionView;

    open spec fn view(&self) -> PinActionView {
        match self {
            PinAction::Lookup(k) => PinActionView::Lookup(k@),
            PinAction::RunFingerprint(p) => PinActionView::RunFingerprint(p@),
            PinAction::AskPassword(b) => PinActionView::AskPassword(*b),
            PinAction::AskSave => PinActionView::AskSave,
            PinAction::Store { key, passphrase } => PinActionView::Store {
                key: key@,
                passphrase: passphrase@,
            },
            PinAction::Finish(p) => PinActionView::Finish(opt_text(*p)),
        }
    }
}

/// A passphrase request: its key and where it stands.
pub struct PinFlowView {
    pub key_id: Seq<char>,
    pub phase: PinPhaseView,
}

/// True when the event answers what the phase waits for.
pub open spec fn pin_event_fits(p: PinPhaseView, e: PinEventView) -> bool {
    match p {
        PinPhaseView::LookingUpKey => e is Looked,
        PinPhaseView::LookingUpDefault => e is Looked,
        PinPhaseView::Fingerprint => e is FingerprintDone,
        PinPhaseView::Password => e is Entered,
        PinPhaseView::AskingSave(_) => e is SaveAnswer,
        PinPhaseView::StoringKey(_) => e is Stored,
        PinPhaseView::StoringDefault(_) => e is Stored,
        PinPhaseView::Done => false,
    }
}

/// How a request begins: after a wrong passphrase straight with the retry
/// password dialog, otherwise with the keyring entry of the key.
pub open spec fn pin_start(key_id: Seq<char>, was_wrong: bool) -> (PinFlowView, PinActionView) {
    if was_wrong {
        (PinFlowView { key_id, phase: PinPhaseView::Password }, PinActionView::AskPassword(true))
    } else {
        (PinFlowView { key_id, phase: PinPhaseView::LookingUpKey }, PinActionView::Lookup(key_id))
    }
}

/// The state and action after an event.
pub open spec fn pin_transition(s: PinFlowView, e: PinEventView) -> (PinFlowView, PinActionView) {
    let k = s.key_id;
    let to = |p: PinPhaseView| PinFlowView { key_id: k, phase: p };
    match s.phase {
        PinPhaseView::LookingUpKey => match e {
            PinEventView::Looked(Some(p)) => (
                to(PinPhaseView::Fingerprint),
                PinActionView::RunFingerprint(p),
            ),
            _ => (to(PinPhaseView::LookingUpDefault), PinActionView::Lookup("default"@)),
        },
        PinPhaseView::LookingUpDefault => match e {
            PinEventView::Looked(Some(p)) => (
                to(PinPhaseView::Fingerprint),
                PinActionView::RunFingerprint(p),
            ),
            _ => (to(PinPhaseView::Password), PinActionView::AskPassword(false)),
        },
        PinPhaseView::Fingerprint => match e {
            PinEventView::FingerprintDone(FpLoopResultView::Matched(p)) => (
                to(PinPhaseView::Done),
                PinActionView::Finish(Some(p)),
            ),
            PinEventView::FingerprintDone(FpLoopResultView::UsePassword) => (
                to(PinPhaseView::Password),
                PinActionView::AskPassword(false),
            ),
            _ => (to(PinPhaseView::Done), PinActionView::Finish(None)),
        },
        PinPhaseView::Password => match e {
            PinEventView::Entered(Some(p)) => (
                to(PinPhaseView::AskingSave(p)),
                PinActionView::AskSave,
            ),
            _ => (to(PinPhaseView::Done), PinActionView::Finish(None)),
        },
        PinPhaseView::AskingSave(p) => match e {
            PinEventView::SaveAnswer(true) => (
                to(PinPhaseView::StoringKey(p)),
                PinActionView::Store { key: k, passphrase: p },
            ),
            _ => (to(PinPhaseView::Done), PinActionView::Finish(Some(p))),
        },
        PinPhaseView::StoringKey(p) => (
            to(PinPhaseView::StoringDefault(p)),
            PinActionView::Store { key: "default"@, passphrase: p },
        ),
        PinPhaseView::StoringDefault(p) => (to(PinPhaseView::Done), PinActionView::Finish(Some(p))),
        PinPhaseView::Done => (s, PinActionView::Finish(None)),
    }
}

/// A passphrase request in progress.
pub struct PinFlow {
    key_id: String,
    phase: PinPhase,
}

impl View for PinFlow {
    type V = PinFlowView;

    closed spec fn view(&self) -> PinFlowView {
        PinFlowView { key_id: self.key_id@, phase: self.phase@ }
    }
}

impl PinFlow {
    /// Begins a request for the given keyring key; `was_wrong` when
    /// gpg-agent reported the last passphrase as wrong.
    pub fn start(key_id: &str, was_wrong: bool) -> (r: (Self, PinAction))
        ensures
            (r.0@, r.1@) == pin_start(key_id@, was_wrong),
    {
        if was_wrong {
            (PinFlow { key_id: owned(key_id), phase: PinPhase::Password }, PinAction::AskPassword(
                true,
            ))
        } else {
            (PinFlow { key_id: owned(key_id), phase: PinPhase::LookingUpKey }, PinAction::Lookup(
                owned(key_id),
            ))
        }
    }

    /// Takes what happened to the last action and says what to do next.
    pub fn next(&mut self, event: PinEvent) -> (a: PinAction)
        requires
            pin_event_fits(old(self)@.phase, event@),
        ensures
            (final(self)@, a@) == pin_transition(old(self)@, event@),
    {
        let mut phase = PinPhase::Done;
        std::mem::swap(&mut phase, &mut self.phase);
        match phase {
            PinPhase::LookingUpKey => match event {
                PinEvent::Looked(Some(p)) => {
                    self.phase = PinPhase::Fingerprint;
                    PinAction::RunFingerprint(p)
                },
                _ => {
                    self.phase = PinPhase::LookingUpDefault;
                    PinAction::Lookup(owned("default"))
                },
            },
            PinPhase::LookingUpDefault => match event {
                PinEvent::Looked(Some(p)) => {
                    self.phase = PinPhase::Fingerprint;
                    PinAction::RunFingerprint(p)
                },
                _ => {
                    self.phase = PinPhase::Password;
                    PinAction::AskPassword(false)
                },
            },
            PinPhase::Fingerprint => match event {
                PinEvent::FingerprintDone(FpLoopResult::Matched(p)) => PinAction::Finish(Some(p)),
                PinEvent::FingerprintDone(FpLoopResult::UsePassword) => {
                    self.phase = PinPhase::Password;
                    PinAction::AskPassword(false)
                },
                _ => PinAction::Finish(None),
            },
            PinPhase::Password => match event {
                PinEvent::Entered(Some(p)) => {
                    self.phase = PinPhase::AskingSave(p);
                    PinAction::AskSave
                },
                _ => PinAction::Finish(None),
            },
            PinPhase::AskingSave(p) => match event {
                PinEvent::SaveAnswer(true) => {
                    let key = owned(self.key_id.as_str());
                    let pass = owned(p.as_str());
                    self.phase = PinPhase::StoringKey(p);
                    PinAction::Store { key, passphrase: pass }
                },
                _ => PinAction::Finish(Some(p)),
            },
            PinPhase::StoringKey(p) => {
                let pass = owned(p.as_str());
                self.phase = PinPhase::StoringDefault(p);
                PinAction::Store { key: owned("default"), passphrase: pass }
            },
            PinPhase::StoringDefault(p) => PinAction::Finish(Some(p)),
            PinPhase::Done => PinAction::Finish(None),
        }
    }
}

} // verus!

verus! {

// ---------------------------------------------------------------------------
// Laws
// ---------------------------------------------------------------------------

/// Each new attempt is numbered one above the last and never above the
/// limit, so at most `MAX_FINGERPRINT_ATTEMPTS` dialogs are shown; a match
/// hands back the stored passphrase.
pub proof fn law_fingerprint_attempts_bounded(s: FpLoopView, e: FpEventView)
    requires
        fp_wf(s),
        !s.done,
    ensures
        fp_transition(s, e).1 matches FpActionView::ShowDialog(a) ==> a == s.attempt + 1 && a
            <= MAX_FINGERPRINT_ATTEMPTS && fp_transition(s, e).0.attempt == a,
        fp_transition(s, e).1 matches FpActionView::Finish(FpLoopResultView::Matched(p)) ==> p
            == s.cached,
        fp_wf(fp_transition(s, e).0),
{
}

/// The phases in which the request deals only with a typed passphrase.
pub open spec fn typed_phase(p: PinPhaseView) -> bool {
    p is Password || p is AskingSave || p is StoringKey || p is StoringDefault || p is Done
}

/// After a wrong passphrase the request neither looks in the keyring nor
/// tries the finger: it starts with the retry dialog and stays among the
/// typed-passphrase phases.
pub proof fn law_retry_skips_keyring_and_finger(key_id: Seq<char>, s: PinFlowView, e: PinEventView)
    requires
        typed_phase(s.phase),
        pin_event_fits(s.phase, e),
    ensures
        pin_start(key_id, true).1 == PinActionView::AskPassword(true),
        typed_phase(pin_start(key_id, true).0.phase),
        typed_phase(pin_transition(s, e).0.phase),
        !(pin_transition(s, e).1 is Lookup),
        !(pin_transition(s, e).1 is RunFingerprint),
{
}

/// A passphrase is stored only after the user agreed, then under the key
/// and under the default entry, in that order, and always the passphrase
/// that was typed.
pub proof fn law_store_only_after_consent(s: PinFlowView, e: PinEventView)
    requires
        pin_event_fits(s.phase, e),
    ensures
        pin_transition(s, e).1 matches PinActionView::Store { key, passphrase } ==> (
        s.phase == PinPhaseView::AskingSave(passphrase) && e == PinEventView::SaveAnswer(true)
            && key == s.key_id) || (s.phase == PinPhaseView::StoringKey(passphrase) && key
            == "default"@),
{
}

/// A request ends with a passphrase only when the finger matched (the stored
/// passphrase) or one was typed; a cancelled dialog ends it with none.
pub proof fn law_finish_passphrase_origin(s: PinFlowView, e: PinEventView)
    requires
        pin_event_fits(s.phase, e),
    ensures
        pin_transition(s, e).1 matches PinActionView::Finish(Some(p)) ==> e
            == PinEventView::FingerprintDone(FpLoopResultView::Matched(p)) || s.phase
            == PinPhaseView::AskingSave(p) || s.phase == PinPhaseView::StoringDefault(p),
        e == PinEventView::FingerprintDone(FpLoopResultView::Cancelled) ==> pin_transition(s, e).1
            == PinActionView::Finish(None),
        e == PinEventView::Entered(None) ==> pin_transition(s, e).1 == PinActionView::Finish(None),
{
}

} // verus!

verus! {

/// When the finger cannot unlock the key (no stored passphrase, or the
/// attempts ask for the password), the request falls back to the password
/// dialog.
pub proof fn law_falls_back_to_password(key_id: Seq<char>)
    ensures
        pin_transition(
            PinFlowView { key_id, phase: PinPhaseView::LookingUpDefault },
            PinEventView::Looked(None),
        ).1 == PinActionView::AskPassword(false),
        pin_transition(
            PinFlowView { key_id, phase: PinPhaseView::Fingerprint },
            PinEventView::FingerprintDone(FpLoopResultView::UsePassword),
        ).1 == PinActionView::AskPassword(false),
        pin_transition(
            PinFlowView { key_id, phase: PinPhaseView::LookingUpKey },
            PinEventView::Looked(None),
        ).1 == PinActionView::Lookup("default"@),
{
}

} // verus!

verus! {

/// Whatever passphrase a keyring lookup finds, for the key or for the
/// default entry, is exactly the one handed to the fingerprint attempts.
pub proof fn law_looked_up_passphrase_goes_to_fingerprint(
    key_id: Seq<char>,
    default_entry: bool,
    p: Seq<char>,
)
    ensures
        ({
            let phase = if default_entry {
                PinPhaseView::LookingUpDefault
            } else {
                PinPhaseView::LookingUpKey
            };
            let (next, action) = pin_transition(
                PinFlowView { key_id, phase },
                PinEventView::Looked(Some(p)),
            );
            action == PinActionView::RunFingerprint(p) && next.phase is Fingerprint
                && next.key_id == key_id
        }),
{
}

/// A match on any attempt, the first or a later one, ends the attempts with
/// the stored passphrase.
pub proof fn law_match_on_any_attempt_returns_stored(s: FpLoopView)
    requires
        fp_wf(s),
        !s.done,
    ensures
        fp_transition(s, FpEventView::VerifyFinished(Some(VerifyResultView::Match))).1
            == FpActionView::Finish(FpLoopResultView::Matched(s.cached)),
        fp_transition(s, FpEventView::VerifyFinished(Some(VerifyResultView::Match))).0.done,
{
}

} // verus!
