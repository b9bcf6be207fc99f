use pinentry_fprint::assuan::{AssuanServer, Command};
use pinentry_fprint::session::{Next, Session};

fn run(session: &mut Session, server: &mut AssuanServer, line: &str) -> (Next, String) {
    let cmd = server.read_command(Some(line)).unwrap();
    let next = session.handle(server, cmd);
    (next, String::from_utf8(server.take_output()).unwrap())
}

#[test]
fn greeting_opens_the_session() {
    let session = Session::new("1.2.3", 42);
    let mut server = AssuanServer::new();
    session.greet(&mut server);
    assert_eq!(server.take_output(), b"OK Pleased to meet you - pinentry-fprint\n");
}

#[test]
fn simple_commands_are_acknowledged() {
    let mut session = Session::new("1.2.3", 42);
    let mut server = AssuanServer::new();
    for line in ["SETDESC hi", "SETERROR oops", "SETKEYINFO n/K", "CONFIRM", "MESSAGE", "RESET", "OPTION x"] {
        let (next, out) = run(&mut session, &mut server, line);
        assert!(matches!(next, Next::Continue));
        assert_eq!(out, "OK\n");
    }
    let (next, out) = run(&mut session, &mut server, "BYE");
    assert!(matches!(next, Next::Stop));
    assert_eq!(out, "OK\n");
}

#[test]
fn getinfo_replies() {
    let mut session = Session::new("0.3.1", 4321);
    let mut server = AssuanServer::new();
    assert_eq!(run(&mut session, &mut server, "GETINFO flavor").1, "D pinentry-fprint\nOK\n");
    assert_eq!(run(&mut session, &mut server, "GETINFO version").1, "D 0.3.1\nOK\n");
    assert_eq!(run(&mut session, &mut server, "GETINFO ttyinfo").1, "D - - -\nOK\n");
    assert_eq!(run(&mut session, &mut server, "GETINFO pid").1, "D 4321\nOK\n");
    assert_eq!(run(&mut session, &mut server, "GETINFO other").1, "OK\n");
}

#[test]
fn getpin_asks_for_the_default_entry_without_key() {
    let mut session = Session::new("1", 1);
    let mut server = AssuanServer::new();
    run(&mut session, &mut server, "SETDESC Unlock%0Akey");
    let (next, out) = run(&mut session, &mut server, "GETPIN");
    assert_eq!(out, "");
    match next {
        Next::NeedPin(req) => {
            assert_eq!(req.description, "Unlock\nkey");
            assert_eq!(req.key_id, "default");
            assert!(!req.was_wrong);
        }
        _ => panic!("expected a passphrase request"),
    }
}

#[test]
fn getpin_uses_key_without_prefix_and_error_mark() {
    let mut session = Session::new("1", 1);
    let mut server = AssuanServer::new();
    run(&mut session, &mut server, "SETKEYINFO s/ABCDEF");
    run(&mut session, &mut server, "SETERROR Bad passphrase");
    let (next, _) = run(&mut session, &mut server, "GETPIN");
    match next {
        Next::NeedPin(req) => {
            assert_eq!(req.key_id, "ABCDEF");
            assert!(req.was_wrong);
        }
        _ => panic!("expected a passphrase request"),
    }
    session.finish_getpin(&mut server, Some("se%cret\n".to_string()));
    assert_eq!(server.take_output(), b"D se%25cret%0A\nOK\n");
    let (next, _) = run(&mut session, &mut server, "GETPIN");
    match next {
        Next::NeedPin(req) => assert!(!req.was_wrong),
        _ => panic!("expected a passphrase request"),
    }
    session.finish_getpin(&mut server, None);
    assert_eq!(server.take_output(), b"ERR 83886179 Operation cancelled\n");
}

#[test]
fn keyinfo_prefixes() {
    let mut session = Session::new("1", 1);
    let mut server = AssuanServer::new();
    for (info, expected) in [("n/1234", "1234"), ("s/1234", "1234"), ("x/1234", "x/1234"), ("n/s/12", "s/12"), ("n", "n")] {
        run(&mut session, &mut server, &format!("SETKEYINFO {info}"));
        match run(&mut session, &mut server, "GETPIN").0 {
            Next::NeedPin(req) => assert_eq!(req.key_id, expected),
            _ => panic!("expected a passphrase request"),
        }
    }
}

#[test]
fn reset_forgets_everything() {
    let mut session = Session::new("1", 1);
    let mut server = AssuanServer::new();
    run(&mut session, &mut server, "SETDESC d");
    run(&mut session, &mut server, "SETKEYINFO n/K");
    run(&mut session, &mut server, "SETERROR e");
    run(&mut session, &mut server, "RESET");
    match run(&mut session, &mut server, "GETPIN").0 {
        Next::NeedPin(req) => {
            assert_eq!(req.description, "");
            assert_eq!(req.key_id, "default");
            assert!(!req.was_wrong);
        }
        _ => panic!("expected a passphrase request"),
    }
}

#[test]
fn command_values_are_handled_directly() {
    let mut session = Session::new("1", 1);
    let mut server = AssuanServer::new();
    assert!(matches!(session.handle(&mut server, Command::Other), Next::Continue));
    assert_eq!(server.take_output(), b"OK\n");
}
