use pinentry_fprint::ui::{
    ask_save_to_keyring, detect_backend, is_kde_session, passphrase_from_text, password_from_output,
    read_password,
    show_fingerprint_waiting, show_password_dialog, show_password_dialog_with_error, Backend,
};

#[test]
fn kde_sessions() {
    assert!(is_kde_session("KDE", false));
    assert!(is_kde_session("Plasma", false));
    assert!(is_kde_session("ubuntu:KDE", false));
    assert!(!is_kde_session("GNOME", false));
    assert!(!is_kde_session("", false));
    assert!(is_kde_session("", true));
    assert!(!is_kde_session("kd e", false));
}

#[test]
fn backend_choice() {
    assert_eq!(detect_backend(true, true, true, true), Backend::Qml);
    assert_eq!(detect_backend(true, false, true, true), Backend::Kdialog);
    assert_eq!(detect_backend(true, false, false, true), Backend::Zenity);
    assert_eq!(detect_backend(false, true, true, true), Backend::Zenity);
    assert_eq!(detect_backend(false, true, true, false), Backend::Kdialog);
    assert_eq!(detect_backend(false, false, false, false), Backend::Zenity);
    assert_eq!(detect_backend(true, false, false, false), Backend::Zenity);
}

#[test]
fn fingerprint_dialog_qml() {
    let d = show_fingerprint_waiting(Backend::Qml, "qml6", "/q/fingerprint.qml", "Unlock", "K1", 1);
    assert_eq!(d.program, "qml6");
    assert_eq!(d.args, vec!["/q/fingerprint.qml", "--", "--desc", "Unlock", "--key", "K1", "--attempt", "1"]);
    assert!(d.wayland_app_id && d.piped);
    let d = show_fingerprint_waiting(Backend::Qml, "/usr/bin/qml-run", "/q/f.qml", "D", "K", 12);
    assert_eq!(d.args, vec!["/q/f.qml", "--desc", "D", "--key", "K", "--attempt", "12"]);
}

#[test]
fn fingerprint_dialog_kdialog() {
    let d = show_fingerprint_waiting(Backend::Kdialog, "", "", "Desc", "KEY", 2);
    assert_eq!(d.program, "kdialog");
    assert_eq!(
        d.args,
        vec![
            "--title",
            "GPG Fingerprint Unlock",
            "--yes-label",
            "Use Password Instead",
            "--no-label",
            "Cancel",
            "--warningyesno",
            "<h2>Touch Fingerprint Sensor</h2><p style='color: #e74c3c;'>Not recognized - try again\n\n</p><p>Desc</p><p><small>Key: KEY</small></p><br/><p><i>Waiting for fingerprint...</i></p>",
        ]
    );
    assert!(!d.wayland_app_id && !d.piped);
}

#[test]
fn fingerprint_dialog_zenity() {
    let d = show_fingerprint_waiting(Backend::Zenity, "", "", "Desc", "KEY", 1);
    assert_eq!(d.program, "zenity");
    assert_eq!(
        d.args,
        vec![
            "--info",
            "--title=GPG Fingerprint Unlock",
            "--icon=fingerprint-gui",
            "--text=Touch Fingerprint Sensor\n\nDesc\nKey: KEY\n\nWaiting for fingerprint...",
            "--no-markup",
            "--ok-label=Use Password Instead",
            "--extra-button=Cancel",
        ]
    );
}

#[test]
fn password_dialogs() {
    let d = show_password_dialog(Backend::Qml, "d", "k");
    assert_eq!(d.program, "kdialog");
    assert_eq!(d.args, vec!["--title", "GPG Passphrase", "--password", "Enter passphrase:"]);
    let d = show_password_dialog_with_error(Backend::Zenity, "d", "k");
    assert_eq!(d.program, "zenity");
    assert_eq!(
        d.args,
        vec!["--password", "--title=GPG Passphrase - Wrong password, try again", "--window-icon=fingerprint-gui"]
    );
    let d = read_password(Backend::Kdialog, "T");
    assert_eq!(d.args, vec!["--title", "T", "--password", "Enter passphrase:"]);
}

#[test]
fn password_output() {
    assert_eq!(password_from_output(true, b"secret\n"), Some("secret".to_string()));
    assert_eq!(password_from_output(true, b"secret\r\n"), Some("secret".to_string()));
    assert_eq!(password_from_output(true, b"a\n\n"), Some("a".to_string()));
    assert_eq!(password_from_output(true, b"a\n\r"), Some("a\n".to_string()));
    assert_eq!(password_from_output(true, b"\n"), None);
    assert_eq!(password_from_output(true, b""), None);
    assert_eq!(password_from_output(false, b"secret\n"), None);
    assert_eq!(password_from_output(true, b"p\xffw\n"), Some("p\u{FFFD}w".to_string()));
    assert_eq!(password_from_output(true, b"  spaced  \n"), Some("  spaced  ".to_string()));
}

#[test]
fn save_dialogs() {
    let d = ask_save_to_keyring(Backend::Qml, "qml6", "/q/save.qml");
    assert_eq!(d.program, "qml6");
    assert_eq!(d.args, vec!["/q/save.qml"]);
    assert!(d.wayland_app_id);
    let d = ask_save_to_keyring(Backend::Kdialog, "", "");
    assert_eq!(d.args[6], "--yesno");
    assert_eq!(d.args.len(), 8);
    let d = ask_save_to_keyring(Backend::Zenity, "", "");
    assert_eq!(d.args[3], "--text=Save passphrase?\n\nStore in the system keyring so you can\nunlock with your fingerprint next time.");
    assert_eq!(d.args[6], "--extra-button=Don't Save");
}

#[test]
fn kde_from_lowercased_name() {
    assert!(pinentry_fprint::ui::kde_in_lowercase("kde", false));
    assert!(pinentry_fprint::ui::kde_in_lowercase("x-plasma-y", false));
    assert!(!pinentry_fprint::ui::kde_in_lowercase("KDE", false));
    assert!(pinentry_fprint::ui::kde_in_lowercase("", true));
}

#[test]
fn passphrase_from_decoded_text() {
    assert_eq!(passphrase_from_text(true, "pw\r\n"), Some("pw".to_string()));
    assert_eq!(passphrase_from_text(true, "\r\r\n\n"), None);
    assert_eq!(passphrase_from_text(false, "pw"), None);
}

#[test]
fn qml_locations() {
    use_locations();
}

fn use_locations() {
    let c = pinentry_fprint::ui::qml_runner_candidates(Some("/home/u"));
    assert_eq!(c, vec!["/usr/local/bin/qml-run", "/usr/bin/qml-run", "/home/u/.local/bin/qml-run"]);
    let c = pinentry_fprint::ui::qml_runner_candidates(None);
    assert_eq!(c, vec!["/usr/local/bin/qml-run", "/usr/bin/qml-run"]);
    assert_eq!(pinentry_fprint::ui::first_found(&c, &vec![false, true], "qml6"), "/usr/bin/qml-run");
    assert_eq!(pinentry_fprint::ui::first_found(&c, &vec![true, true], "qml6"), "/usr/local/bin/qml-run");
    assert_eq!(pinentry_fprint::ui::first_found(&c, &vec![false, false], "qml6"), "qml6");
    assert_eq!(
        pinentry_fprint::ui::installed_qml_path("save.qml"),
        "/usr/share/pinentry-fprint/qml/save.qml"
    );
}
