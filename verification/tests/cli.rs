use pinentry_fprint::cli::{parse_args, Mode};

fn args(v: &[&str]) -> Vec<String> {
    v.iter().map(|s| s.to_string()).collect()
}

#[test]
fn modes() {
    assert!(matches!(parse_args(&args(&["pinentry-fprint"])), Mode::Pinentry));
    assert!(matches!(parse_args(&args(&[])), Mode::Pinentry));
    assert!(matches!(parse_args(&args(&["p", "--add-keys"])), Mode::AddKeys));
    assert!(matches!(parse_args(&args(&["p", "--help"])), Mode::Help));
    assert!(matches!(parse_args(&args(&["p", "-h", "x"])), Mode::Help));
    assert!(matches!(parse_args(&args(&["p", "--display", ":0"])), Mode::Pinentry));
    match parse_args(&args(&["p", "--setup"])) {
        Mode::Setup(k) => assert_eq!(k, vec!["default"]),
        _ => panic!("expected setup"),
    }
    match parse_args(&args(&["p", "--setup", "G1", "G2"])) {
        Mode::Setup(k) => assert_eq!(k, vec!["G1", "G2"]),
        _ => panic!("expected setup"),
    }
}
