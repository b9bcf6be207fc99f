use pinentry_fprint::assuan::{parse_command, percent_decode, AssuanServer, Command};

fn out(server: &mut AssuanServer) -> String {
    String::from_utf8(server.take_output()).unwrap()
}

#[test]
fn parses_each_command() {
    assert!(matches!(parse_command("SETDESC hello"), Command::SetDesc(s) if s == "hello"));
    assert!(matches!(parse_command("SETERROR bad"), Command::SetError(s) if s == "bad"));
    assert!(matches!(parse_command("SETKEYINFO n/ABCD"), Command::SetKeyInfo(s) if s == "n/ABCD"));
    assert!(matches!(parse_command("GETPIN"), Command::GetPin));
    assert!(matches!(parse_command("CONFIRM"), Command::Confirm));
    assert!(matches!(parse_command("MESSAGE"), Command::Message));
    assert!(matches!(parse_command("GETINFO flavor"), Command::GetInfo(s) if s == "flavor"));
    assert!(matches!(parse_command("RESET"), Command::Reset));
    assert!(matches!(parse_command("BYE"), Command::Bye));
    assert!(matches!(parse_command("OPTION ttyname=/dev/pts/1"), Command::Other));
    assert!(matches!(parse_command(""), Command::Other));
    assert!(matches!(parse_command("getpin"), Command::Other));
}

#[test]
fn splits_at_first_space_only() {
    assert!(matches!(parse_command("SETKEYINFO a b  c"), Command::SetKeyInfo(s) if s == "a b  c"));
    assert!(matches!(parse_command("GETINFO"), Command::GetInfo(s) if s.is_empty()));
    assert!(matches!(parse_command("GETPIN extra"), Command::GetPin));
    assert!(matches!(parse_command(" GETPIN"), Command::Other));
}

#[test]
fn setdesc_is_percent_decoded() {
    assert!(matches!(parse_command("SETDESC a%0Ab%25c%0D"), Command::SetDesc(s) if s == "a\nb%c\r"));
    assert!(matches!(parse_command("SETERROR x%20y"), Command::SetError(s) if s == "x y"));
}

#[test]
fn percent_decode_edge_cases() {
    assert_eq!(percent_decode(""), "");
    assert_eq!(percent_decode("plain text"), "plain text");
    assert_eq!(percent_decode("%41%42"), "AB");
    assert_eq!(percent_decode("%4a%4A"), "JJ");
    // invalid hex drops both characters
    assert_eq!(percent_decode("a%zzb"), "ab");
    assert_eq!(percent_decode("a%4zb"), "ab");
    // a lone digit at the end is read as one hex digit
    assert_eq!(percent_decode("x%A"), "x\n");
    // a '%' at the very end yields nothing
    assert_eq!(percent_decode("x%"), "x");
    // a sign is accepted before one digit, as u8::from_str_radix does
    assert_eq!(percent_decode("%+A"), "\n");
    assert_eq!(percent_decode("%-A"), "");
    // UTF-8 sequences spelled in hex
    assert_eq!(percent_decode("%C3%A9"), "é");
    // characters that are not ASCII pass through
    assert_eq!(percent_decode("héllo wörld ✓"), "héllo wörld ✓");
    // non-hex characters after '%' that are not ASCII are dropped
    assert_eq!(percent_decode("a%éé b"), "a b");
    // ill-formed UTF-8 is replaced
    assert_eq!(percent_decode("%FF"), "\u{FFFD}");
    assert_eq!(percent_decode("a%C3"), "a\u{FFFD}");
}

fn reference_decode(s: &str) -> String {
    let mut bytes = Vec::new();
    let mut chars = s.chars();
    while let Some(c) = chars.next() {
        if c == '%' {
            let hex: String = chars.by_ref().take(2).collect();
            if let Ok(b) = u8::from_str_radix(&hex, 16) {
                bytes.push(b);
            }
        } else {
            let mut buf = [0u8; 4];
            bytes.extend_from_slice(c.encode_utf8(&mut buf).as_bytes());
        }
    }
    String::from_utf8_lossy(&bytes).into_owned()
}

#[test]
fn percent_decode_agrees_with_std_hex_parsing() {
    let alphabet = ['0', '9', 'a', 'f', 'A', 'F', 'g', 'G', '+', '-', ' ', '%', 'é', 'z'];
    for a in alphabet {
        for b in alphabet {
            for c in alphabet {
                let s: String = ['%', a, b, c].iter().collect();
                assert_eq!(percent_decode(&s), reference_decode(&s), "input {s:?}");
                let t: String = ['x', '%', a].iter().collect();
                assert_eq!(percent_decode(&t), reference_decode(&t), "input {t:?}");
            }
        }
    }
}

#[test]
fn replies_are_formatted() {
    let mut s = AssuanServer::new();
    s.send_greeting();
    assert_eq!(out(&mut s), "OK Pleased to meet you - pinentry-fprint\n");
    s.send_ok();
    assert_eq!(out(&mut s), "OK\n");
    s.send_error(83886179, "Operation cancelled");
    assert_eq!(out(&mut s), "ERR 83886179 Operation cancelled\n");
    s.send_error(0, "zero");
    assert_eq!(out(&mut s), "ERR 0 zero\n");
    s.send_data("pin%with\nbreaks\r");
    assert_eq!(out(&mut s), "D pin%25with%0Abreaks%0D\n");
    s.send_data("pässwörd");
    assert_eq!(out(&mut s), "D pässwörd\n");
    assert!(s.take_output().is_empty());
}

#[test]
fn replies_accumulate_in_order() {
    let mut s = AssuanServer::new();
    s.send_data("x");
    s.send_ok();
    assert_eq!(out(&mut s), "D x\nOK\n");
}

#[test]
fn read_command_trims_line_endings() {
    let s = AssuanServer::new();
    assert!(s.read_command(None).is_none());
    assert!(matches!(s.read_command(Some("GETPIN\n")), Some(Command::GetPin)));
    assert!(matches!(s.read_command(Some("BYE\r\n")), Some(Command::Bye)));
    assert!(matches!(s.read_command(Some("SETDESC hi  \t\n")), Some(Command::SetDesc(d)) if d == "hi"));
    assert!(matches!(s.read_command(Some("SETDESC \n")), Some(Command::SetDesc(d)) if d.is_empty()));
    assert!(matches!(s.read_command(Some("\n")), Some(Command::Other)));
}

#[test]
fn escaped_data_decodes_back() {
    for text in ["", "a", "%", "100%\n", "line1\nline2\r\n", "ünïcødé %41", "  spaced"] {
        let mut s = AssuanServer::new();
        s.send_data(text);
        let line = String::from_utf8(s.take_output()).unwrap();
        let payload = line.strip_prefix("D ").unwrap().strip_suffix('\n').unwrap();
        assert!(!payload.contains('\n') && !payload.contains('\r'));
        assert_eq!(percent_decode(payload), text);
    }
}

#[test]
fn setdesc_line_reads_back_description() {
    let s = AssuanServer::new();
    for text in ["Please enter the passphrase\nfor key X", "50% done", "ends with newline\n"] {
        let mut w = AssuanServer::new();
        w.send_data(text);
        let data = String::from_utf8(w.take_output()).unwrap();
        let line = format!("SETDESC {}", data.strip_prefix("D ").unwrap());
        assert!(matches!(s.read_command(Some(&line)), Some(Command::SetDesc(d)) if d == text));
    }
}
