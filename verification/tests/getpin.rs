use pinentry_fprint::fingerprint::VerifyResult;
use pinentry_fprint::getpin::{
    FingerprintLoop, FpAction, FpEvent, FpLoopResult, PinAction, PinEvent, PinFlow,
    MAX_FINGERPRINT_ATTEMPTS,
};

#[test]
fn fingerprint_retries_up_to_the_limit() {
    let (mut l, first) = FingerprintLoop::start("cached".into());
    assert!(matches!(first, FpAction::ShowDialog(1)));
    for attempt in 2..=MAX_FINGERPRINT_ATTEMPTS {
        let a = l.next(FpEvent::VerifyFinished(Some(VerifyResult::NoMatch)));
        assert!(matches!(a, FpAction::ShowDialog(n) if n == attempt));
    }
    let a = l.next(FpEvent::VerifyFinished(Some(VerifyResult::NoMatch)));
    assert!(matches!(a, FpAction::Finish(FpLoopResult::UsePassword)));
}

#[test]
fn fingerprint_outcomes() {
    let (mut l, _) = FingerprintLoop::start("cached".into());
    let a = l.next(FpEvent::VerifyFinished(Some(VerifyResult::Match)));
    assert!(matches!(a, FpAction::Finish(FpLoopResult::Matched(p)) if p == "cached"));

    let (mut l, _) = FingerprintLoop::start("c".into());
    assert!(matches!(l.next(FpEvent::DialogClosed(true)), FpAction::Finish(FpLoopResult::UsePassword)));
    let (mut l, _) = FingerprintLoop::start("c".into());
    assert!(matches!(l.next(FpEvent::DialogClosed(false)), FpAction::Finish(FpLoopResult::Cancelled)));
    let (mut l, _) = FingerprintLoop::start("c".into());
    assert!(matches!(l.next(FpEvent::DialogFailed), FpAction::Finish(FpLoopResult::UsePassword)));
    let (mut l, _) = FingerprintLoop::start("c".into());
    assert!(matches!(l.next(FpEvent::VerifyFinished(None)), FpAction::Finish(FpLoopResult::UsePassword)));
    let (mut l, _) = FingerprintLoop::start("c".into());
    let a = l.next(FpEvent::VerifyFinished(Some(VerifyResult::Error("x".into()))));
    assert!(matches!(a, FpAction::Finish(FpLoopResult::UsePassword)));
}

#[test]
fn stored_passphrase_and_matching_finger() {
    let (mut f, a) = PinFlow::start("KEY", false);
    assert!(matches!(a, PinAction::Lookup(k) if k == "KEY"));
    let a = f.next(PinEvent::Looked(Some("pw".into())));
    assert!(matches!(a, PinAction::RunFingerprint(p) if p == "pw"));
    let a = f.next(PinEvent::FingerprintDone(FpLoopResult::Matched("pw".into())));
    assert!(matches!(a, PinAction::Finish(Some(p)) if p == "pw"));
}

#[test]
fn default_entry_then_password_and_save() {
    let (mut f, _) = PinFlow::start("KEY", false);
    let a = f.next(PinEvent::Looked(None));
    assert!(matches!(a, PinAction::Lookup(k) if k == "default"));
    let a = f.next(PinEvent::Looked(None));
    assert!(matches!(a, PinAction::AskPassword(false)));
    let a = f.next(PinEvent::Entered(Some("typed".into())));
    assert!(matches!(a, PinAction::AskSave));
    let a = f.next(PinEvent::SaveAnswer(true));
    assert!(matches!(a, PinAction::Store { key, passphrase } if key == "KEY" && passphrase == "typed"));
    let a = f.next(PinEvent::Stored);
    assert!(matches!(a, PinAction::Store { key, passphrase } if key == "default" && passphrase == "typed"));
    let a = f.next(PinEvent::Stored);
    assert!(matches!(a, PinAction::Finish(Some(p)) if p == "typed"));
}

#[test]
fn retry_goes_straight_to_the_password() {
    let (mut f, a) = PinFlow::start("KEY", true);
    assert!(matches!(a, PinAction::AskPassword(true)));
    let a = f.next(PinEvent::Entered(Some("again".into())));
    assert!(matches!(a, PinAction::AskSave));
    let a = f.next(PinEvent::SaveAnswer(false));
    assert!(matches!(a, PinAction::Finish(Some(p)) if p == "again"));
}

#[test]
fn cancellations() {
    let (mut f, _) = PinFlow::start("KEY", false);
    f.next(PinEvent::Looked(Some("pw".into())));
    let a = f.next(PinEvent::FingerprintDone(FpLoopResult::Cancelled));
    assert!(matches!(a, PinAction::Finish(None)));

    let (mut f, _) = PinFlow::start("KEY", false);
    f.next(PinEvent::Looked(None));
    f.next(PinEvent::Looked(Some("pw".into())));
    let a = f.next(PinEvent::FingerprintDone(FpLoopResult::UsePassword));
    assert!(matches!(a, PinAction::AskPassword(false)));
    let a = f.next(PinEvent::Entered(None));
    assert!(matches!(a, PinAction::Finish(None)));
}
