use pinentry_fprint::fingerprint::{
    result_of_status, DbusStep, VerifyAction, VerifyEvent, VerifyResult, Verification,
};

fn run_steps(v: &mut Verification) {
    let order = [
        DbusStep::GetDefaultDevice,
        DbusStep::ReadDevicePath,
        DbusStep::CreateProxy,
        DbusStep::BuildMatchRule,
        DbusStep::AddMatchRule,
        DbusStep::Claim,
        DbusStep::VerifyStart,
    ];
    for step in order {
        match v.next(VerifyEvent::StepDone) {
            VerifyAction::Perform(s) => assert_eq!(s, step),
            _ => panic!("expected the next step"),
        }
    }
    assert!(matches!(v.next(VerifyEvent::StepDone), VerifyAction::AwaitMessage));
}

#[test]
fn a_match() {
    let (mut v, first) = Verification::start();
    assert!(matches!(first, VerifyAction::Perform(DbusStep::Connect)));
    run_steps(&mut v);
    let a = v.next(VerifyEvent::Message { member: Some("NameAcquired".into()), status: None });
    assert!(matches!(a, VerifyAction::AwaitMessage));
    let a = v.next(VerifyEvent::Message { member: Some("VerifyStatus".into()), status: None });
    assert!(matches!(a, VerifyAction::AwaitMessage));
    let a = v.next(VerifyEvent::Message {
        member: Some("VerifyStatus".into()),
        status: Some("verify-match".into()),
    });
    assert!(matches!(a, VerifyAction::StopAndFinish(VerifyResult::Match)));
}

#[test]
fn no_match_timeout_and_stream_end() {
    let (mut v, _) = Verification::start();
    run_steps(&mut v);
    let a = v.next(VerifyEvent::Message {
        member: Some("VerifyStatus".into()),
        status: Some("verify-no-match".into()),
    });
    assert!(matches!(a, VerifyAction::StopAndFinish(VerifyResult::NoMatch)));

    let (mut v, _) = Verification::start();
    run_steps(&mut v);
    assert!(matches!(v.next(VerifyEvent::TimedOut), VerifyAction::StopAndFinish(VerifyResult::Error(e)) if e == "Timeout"));

    let (mut v, _) = Verification::start();
    run_steps(&mut v);
    assert!(matches!(v.next(VerifyEvent::StreamEnded), VerifyAction::Finish(VerifyResult::Error(e)) if e == "Stream ended"));
}

#[test]
fn failures_name_their_step() {
    let (mut v, _) = Verification::start();
    let a = v.next(VerifyEvent::StepFailed("no bus".into()));
    assert!(matches!(a, VerifyAction::Finish(VerifyResult::Error(e)) if e == "D-Bus connect: no bus"));

    let (mut v, _) = Verification::start();
    v.next(VerifyEvent::StepDone);
    v.next(VerifyEvent::StepDone);
    let a = v.next(VerifyEvent::StepFailed("bad path".into()));
    assert!(matches!(a, VerifyAction::Finish(VerifyResult::Error(e)) if e == "GetDefaultDevice parse: bad path"));

    let (mut v, _) = Verification::start();
    for _ in 0..7 {
        v.next(VerifyEvent::StepDone);
    }
    let a = v.next(VerifyEvent::StepFailed("busy".into()));
    assert!(matches!(a, VerifyAction::ReleaseAndFinish(VerifyResult::Error(e)) if e == "VerifyStart: busy"));
}

#[test]
fn statuses() {
    assert!(matches!(result_of_status("verify-match"), VerifyResult::Match));
    assert!(matches!(result_of_status("verify-no-match"), VerifyResult::NoMatch));
    assert!(matches!(result_of_status("verify-retry-scan"), VerifyResult::NoMatch));
}
