//! The dialogs: which toolkit shows them, the command line that opens each
//! one, and what a password dialog's output means.
use vstd::prelude::*;

use crate::text::{
    append_str, chars_of, decimal, decimal_string, lossy_string, lossy_text, owned,
    string_from_chars,
};

verus! {

broadcast use vstd::seq_lib::group_seq_properties;

/// The toolkit that shows the dialogs.
#[derive(Clone, Copy, Debug, PartialEq, Eq, Structural)]
pub enum Backend {
    /// QML dialogs, on KDE.
    Qml,
    /// `kdialog`.
    Kdialog,
    /// `zenity`.
    Zenity,
}

/// A program to start with its arguments; `wayland_app_id` asks for
/// `QT_WAYLAND_APP_ID=pinentry-fprint` in its environment, `piped` for its
/// output and errors to be captured rather than shown.
pub struct DialogCommand {
    pub program: String,
    pub args: Vec<String>,
    pub wayland_app_id: bool,
    pub piped: bool,
}

/// `DialogCommand` with texts as characters.
pub struct DialogView {
    pub program: Seq<char>,
    pub args: Seq<Seq<char>>,
    pub wayland_app_id: bool,
    pub piped: bool,
}

impl View for DialogCommand {
    type V = DialogView;

    open spec fn view(&self) -> DialogView {
        DialogView {
            program: self.program@,
            args: self.args@.map_values(|a: String| a@),
            wayland_app_id: self.wayland_app_id,
            piped: self.piped,
        }
    }
}

// ---------------------------------------------------------------------------
// Choosing the toolkit
// ---------------------------------------------------------------------------

/// The name of what `str::to_lowercase` gives for a text.
pub uninterp spec fn lowercase(s: Seq<char>) -> Seq<char>;

/// Calls `str::to_lowercase`. Trusted: the result is the name `lowercase` of
/// the text; std's Unicode case tables are not restated here.
#[verifier::external_body]
fn to_lowercase(s: &str) -> (r: String)
    ensures
        r@ == lowercase(s@),
{
    s.to_lowercase()
}

/// True when `needle` occurs in `hay` at index `i`.
pub open spec fn occurs_at(hay: Seq<char>, needle: Seq<char>, i: int) -> bool {
    0 <= i && i + needle.len() <= hay.len() && hay.subrange(i, i + needle.len()) == needle
}

/// True when `needle` occurs in `hay`.
pub open spec fn contains_text(hay: Seq<char>, needle: Seq<char>) -> bool {
    exists|i: int| #[trigger] occurs_at(hay, needle, i)
}

fn contains_chars(hay: &[char], needle: &[char]) -> (r: bool)
    ensures
        r == contains_text(hay@, needle@),
{
    let n = hay.len();
    let m = needle.len();
    if m > n {
        assert(!contains_text(hay@, needle@));
        return false;
    }
    let mut i: usize = 0;
    while i <= n - m
        invariant
            n == hay@.len(),
            m == needle@.len(),
            m <= n,
            i <= n - m + 1,
            forall|k: int| 0 <= k < i ==> !#[trigger] occurs_at(hay@, needle@, k),
        decreases n - i,
    {
        let mut j: usize = 0;
        let mut same = true;
        while j < m
            invariant
                n == hay@.len(),
                m == needle@.len(),
                i + m <= n,
                j <= m,
                same == (forall|t: int| 0 <= t < j ==> hay@[i + t] == needle@[t]),
            decreases m - j,
        {
            if hay[i + j] != needle[j] {
                same = false;
            }
            j = j + 1;
        }
        if same {
            assert(hay@.subrange(i as int, i + m) =~= needle@);
            assert(occurs_at(hay@, needle@, i as int));
            return true;
        } else {
            assert(!occurs_at(hay@, needle@, i as int)) by {
                let t = choose|t: int| 0 <= t < m && hay@[i + t] != needle@[t];
                assert(hay@.subrange(i as int, i + m)[t] == hay@[i + t]);
            }
        }
        i = i + 1;
    }
    assert(!contains_text(hay@, needle@)) by {
        if contains_text(hay@, needle@) {
            let k = choose|k: int| occurs_at(hay@, needle@, k);
            assert(k < i);
        }
    }
    false
}

/// True for a KDE or Plasma desktop session.
pub open spec fn spec_is_kde(desktop: Seq<char>, kde_session_set: bool) -> bool {
    spec_kde_in_lowercase(lowercase(desktop), kde_session_set)
}

/// True for a KDE session, given the desktop name already lowercased.
pub open spec fn spec_kde_in_lowercase(lower: Seq<char>, kde_session_set: bool) -> bool {
    contains_text(lower, "kde"@) || contains_text(lower, "plasma"@) || kde_session_set
}

/// True when the lowercased desktop name mentions KDE or Plasma, or
/// `KDE_SESSION_VERSION` is set.
pub fn kde_in_lowercase(lower: &str, kde_session_set: bool) -> (r: bool)
    ensures
        r == spec_kde_in_lowercase(lower@, kde_session_set),
{
    let l = chars_of(lower);
    let kde = chars_of("kde");
    let plasma = chars_of("plasma");
    contains_chars(l.as_slice(), kde.as_slice()) || contains_chars(l.as_slice(), plasma.as_slice())
        || kde_session_set
}

/// True for a KDE session: `XDG_CURRENT_DESKTOP` (given here) names KDE or
/// Plasma in any case, or `KDE_SESSION_VERSION` is set.
pub fn is_kde_session(desktop: &str, kde_session_set: bool) -> (r: bool)
    ensures
        r == spec_is_kde(desktop@, kde_session_set),
{
    let lower = to_lowercase(desktop);
    kde_in_lowercase(lower.as_str(), kde_session_set)
}

/// The toolkit for a session: QML on KDE when a QML runner is installed,
/// `kdialog` on KDE, then `zenity`, then `kdialog`, and `zenity` as the last
/// resort.
pub open spec fn spec_backend(
    kde: bool,
    qml_runner_found: bool,
    kdialog_found: bool,
    zenity_found: bool,
) -> Backend {
    if kde && qml_runner_found {
        Backend::Qml
    } else if kde && kdialog_found {
        Backend::Kdialog
    } else if zenity_found {
        Backend::Zenity
    } else if kdialog_found {
        Backend::Kdialog
    } else {
        Backend::Zenity
    }
}

/// Chooses the toolkit from the session and the programs found on `PATH`
/// (`qml-run` or `qml6` for `qml_runner_found`).
pub fn detect_backend(
    kde: bool,
    qml_runner_found: bool,
    kdialog_found: bool,
    zenity_found: bool,
) -> (b: Backend)
    ensures
        b == spec_backend(kde, qml_runner_found, kdialog_found, zenity_found),
{
    if kde && qml_runner_found {
        Backend::Qml
    } else if kde && kdialog_found {
        Backend::Kdialog
    } else if zenity_found {
        Backend::Zenity
    } else if kdialog_found {
        Backend::Kdialog
    } else {
        Backend::Zenity
    }
}

// ---------------------------------------------------------------------------
// Command lines
// ---------------------------------------------------------------------------

/// The views of a sequence of strings.
pub open spec fn arg_views(v: Seq<String>) -> Seq<Seq<char>> {
    v.map_values(|a: String| a@)
}

fn push_arg(v: &mut Vec<String>, a: String)
    ensures
        arg_views(final(v)@) == arg_views(old(v)@).push(a@),
{
    v.push(a);
    assert(arg_views(v@) =~= arg_views(old(v)@).push(a@));
}

fn push_lit(v: &mut Vec<String>, a: &str)
    ensures
        arg_views(final(v)@) == arg_views(old(v)@).push(a@),
{
    push_arg(v, owned(a));
}

/// The line shown above a retry.
pub open spec fn retry_message(attempt: u32) -> Seq<char> {
    if attempt > 1 {
        "Not recognized - try again\n\n"@
    } else {
        ""@
    }
}

/// The dialog shown while the fingerprint reader waits.
pub open spec fn spec_fingerprint_dialog(
    backend: Backend,
    runner: Seq<char>,
    qml_file: Seq<char>,
    description: Seq<char>,
    key_id: Seq<char>,
    attempt: u32,
) -> DialogView {
    match backend {
        Backend::Qml => DialogView {
            program: runner,
            args: seq![qml_file] + (if runner == "qml6"@ {
                seq!["--"@]
            } else {
                Seq::empty()
            }) + seq![
                "--desc"@,
                description,
                "--key"@,
                key_id,
                "--attempt"@,
                decimal(attempt as nat),
            ],
            wayland_app_id: true,
            piped: true,
        },
        Backend::Kdialog => DialogView {
            program: "kdialog"@,
            args: seq![
                "--title"@,
                "GPG Fingerprint Unlock"@,
                "--yes-label"@,
                "Use Password Instead"@,
                "--no-label"@,
                "Cancel"@,
                "--warningyesno"@,
                "<h2>Touch Fingerprint Sensor</h2><p style='color: #e74c3c;'>"@ + retry_message(
                    attempt,
                ) + "</p><p>"@ + description + "</p><p><small>Key: "@ + key_id
                    + "</small></p><br/><p><i>Waiting for fingerprint...</i></p>"@,
            ],
            wayland_app_id: false,
            piped: false,
        },
        Backend::Zenity => DialogView {
            program: "zenity"@,
            args: seq![
                "--info"@,
                "--title=GPG Fingerprint Unlock"@,
                "--icon=fingerprint-gui"@,
                "--text=Touch Fingerprint Sensor\n\n"@ + retry_message(attempt) + description
                    + "\nKey: "@ + key_id + "\n\nWaiting for fingerprint..."@,
                "--no-markup"@,
                "--ok-label=Use Password Instead"@,
                "--extra-button=Cancel"@,
            ],
            wayland_app_id: false,
            piped: false,
        },
    }
}

fn retry_text(attempt: u32) -> (r: &'static str)
    ensures
        r@ == retry_message(attempt),
{
    if attempt > 1 {
        "Not recognized - try again\n\n"
    } else {
        ""
    }
}

/// The dialog to start while waiting for a finger: `runner` is the QML
/// runner and `qml_file` the dialog's QML file (used with the QML toolkit);
/// from the second attempt on, it says that the finger was not recognized.
pub fn show_fingerprint_waiting(
    backend: Backend,
    runner: &str,
    qml_file: &str,
    description: &str,
    key_id: &str,
    attempt: u32,
) -> (d: DialogCommand)
    ensures
        d@ == spec_fingerprint_dialog(
            backend,
            runner@,
            qml_file@,
            description@,
            key_id@,
            attempt,
        ),
{
    match backend {
        Backend::Qml => {
            let mut args: Vec<String> = Vec::new();
            push_arg(&mut args, owned(qml_file));
            let is_qml6 = crate::text::chars_eq_str(chars_of(runner).as_slice(), "qml6");
            if is_qml6 {
                push_arg(&mut args, owned("--"));
            }
            push_arg(&mut args, owned("--desc"));
            push_arg(&mut args, owned(description));
            push_arg(&mut args, owned("--key"));
            push_arg(&mut args, owned(key_id));
            push_arg(&mut args, owned("--attempt"));
            push_arg(&mut args, decimal_string(attempt as u64));
            let d = DialogCommand { program: owned(runner), args, wayland_app_id: true, piped: true };
            assert(d@.args =~= spec_fingerprint_dialog(
                backend,
                runner@,
                qml_file@,
                description@,
                key_id@,
                attempt,
            ).args);
            d
        },
        Backend::Kdialog => {
            let mut args: Vec<String> = Vec::new();
            push_lit(&mut args, "--title");
            push_lit(&mut args, "GPG Fingerprint Unlock");
            push_lit(&mut args, "--yes-label");
            push_lit(&mut args, "Use Password Instead");
            push_lit(&mut args, "--no-label");
            push_lit(&mut args, "Cancel");
            push_lit(&mut args, "--warningyesno");
            let mut t: Vec<char> = Vec::new();
            append_str(&mut t, "<h2>Touch Fingerprint Sensor</h2><p style='color: #e74c3c;'>");
            append_str(&mut t, retry_text(attempt));
            append_str(&mut t, "</p><p>");
            append_str(&mut t, description);
            append_str(&mut t, "</p><p><small>Key: ");
            append_str(&mut t, key_id);
            append_str(&mut t, "</small></p><br/><p><i>Waiting for fingerprint...</i></p>");
            let text = string_from_chars(t.as_slice());
            push_arg(&mut args, text);
            let d = DialogCommand {
                program: owned("kdialog"),
                args,
                wayland_app_id: false,
                piped: false,
            };
            assert(d@.args =~= spec_fingerprint_dialog(
                backend,
                runner@,
                qml_file@,
                description@,
                key_id@,
                attempt,
            ).args);
            d
        },
        Backend::Zenity => {
            let mut args: Vec<String> = Vec::new();
            push_lit(&mut args, "--info");
            push_lit(&mut args, "--title=GPG Fingerprint Unlock");
            push_lit(&mut args, "--icon=fingerprint-gui");
            let mut t: Vec<char> = Vec::new();
            append_str(&mut t, "--text=Touch Fingerprint Sensor\n\n");
            append_str(&mut t, retry_text(attempt));
            append_str(&mut t, description);
            append_str(&mut t, "\nKey: ");
            append_str(&mut t, key_id);
            append_str(&mut t, "\n\nWaiting for fingerprint...");
            let text = string_from_chars(t.as_slice());
            push_arg(&mut args, text);
            push_arg(&mut args, owned("--no-markup"));
            push_arg(&mut args, owned("--ok-label=Use Password Instead"));
            push_arg(&mut args, owned("--extra-button=Cancel"));
            let d = DialogCommand {
                program: owned("zenity"),
                args,
                wayland_app_id: false,
                piped: false,
            };
            assert(d@.args =~= spec_fingerprint_dialog(
                backend,
                runner@,
                qml_file@,
                description@,
                key_id@,
                attempt,
            ).args);
            d
        },
    }
}

} // verus!

verus! {

/// The title of the first password dialog.
pub open spec fn password_title() -> Seq<char> {
    "GPG Passphrase"@
}

/// The title of the password dialog after a wrong passphrase.
pub open spec fn retry_password_title() -> Seq<char> {
    "GPG Passphrase - Wrong password, try again"@
}

/// The password dialog with the given title; its output is the passphrase.
pub open spec fn spec_password_dialog(backend: Backend, title: Seq<char>) -> DialogView {
    match backend {
        Backend::Zenity => DialogView {
            program: "zenity"@,
            args: seq!["--password"@, "--title="@ + title, "--window-icon=fingerprint-gui"@],
            wayland_app_id: false,
            piped: true,
        },
        _ => DialogView {
            program: "kdialog"@,
            args: seq!["--title"@, title, "--password"@, "Enter passphrase:"@],
            wayland_app_id: false,
            piped: true,
        },
    }
}

/// The password dialog with the given title.
pub fn read_password(backend: Backend, title: &str) -> (d: DialogCommand)
    ensures
        d@ == spec_password_dialog(backend, title@),
{
    let mut args: Vec<String> = Vec::new();
    match backend {
        Backend::Zenity => {
            push_lit(&mut args, "--password");
            let mut t: Vec<char> = Vec::new();
            append_str(&mut t, "--title=");
            append_str(&mut t, title);
            push_arg(&mut args, string_from_chars(t.as_slice()));
            push_lit(&mut args, "--window-icon=fingerprint-gui");
            let d = DialogCommand { program: owned("zenity"), args, wayland_app_id: false, piped: true };
            assert(d@.args =~= spec_password_dialog(backend, title@).args);
            d
        },
        _ => {
            push_lit(&mut args, "--title");
            push_lit(&mut args, title);
            push_lit(&mut args, "--password");
            push_lit(&mut args, "Enter passphrase:");
            let d = DialogCommand { program: owned("kdialog"), args, wayland_app_id: false, piped: true };
            assert(d@.args =~= spec_password_dialog(backend, title@).args);
            d
        },
    }
}

/// The first password dialog (the description and key are not shown).
pub fn show_password_dialog(backend: Backend, _description: &str, _key_id: &str) -> (d: DialogCommand)
    ensures
        d@ == spec_password_dialog(backend, password_title()),
{
    read_password(backend, "GPG Passphrase")
}

/// The password dialog after a wrong passphrase.
pub fn show_password_dialog_with_error(
    backend: Backend,
    _description: &str,
    _key_id: &str,
) -> (d: DialogCommand)
    ensures
        d@ == spec_password_dialog(backend, retry_password_title()),
{
    read_password(backend, "GPG Passphrase - Wrong password, try again")
}

/// A text without any number of a character at its end.
pub open spec fn trim_trailing(s: Seq<char>, c: char) -> Seq<char>
    decreases s.len(),
{
    if s.len() > 0 && s.last() == c {
        trim_trailing(s.drop_last(), c)
    } else {
        s
    }
}

/// The passphrase in a password dialog's decoded output: none when the
/// dialog failed or nothing was entered; otherwise the text without trailing
/// line feeds and then without trailing carriage returns.
pub open spec fn spec_passphrase_from_text(success: bool, text: Seq<char>) -> Option<Seq<char>> {
    if !success {
        None
    } else {
        let p = trim_trailing(trim_trailing(text, '\n'), '\r');
        if p.len() == 0 {
            None
        } else {
            Some(p)
        }
    }
}

/// The passphrase that a password dialog's raw output gives.
pub open spec fn spec_password_from_output(success: bool, stdout: Seq<u8>) -> Option<Seq<char>> {
    spec_passphrase_from_text(success, lossy_text(stdout))
}

fn trim_trailing_len(s: &[char], end: usize, c: char) -> (k: usize)
    requires
        end <= s@.len(),
    ensures
        k <= end,
        s@.take(k as int) == trim_trailing(s@.take(end as int), c),
{
    let mut k = end;
    while k > 0 && s[k - 1] == c
        invariant
            k <= end <= s@.len(),
            trim_trailing(s@.take(k as int), c) == trim_trailing(s@.take(end as int), c),
        decreases k,
    {
        assert(s@.take(k as int).drop_last() =~= s@.take(k - 1));
        k = k - 1;
    }
    k
}

/// The passphrase in a password dialog's decoded output.
pub fn passphrase_from_text(success: bool, text: &str) -> (r: Option<String>)
    ensures
        match r {
            Some(p) => spec_passphrase_from_text(success, text@) == Some(p@),
            None => spec_passphrase_from_text(success, text@) is None,
        },
{
    if !success {
        return None;
    }
    let chars = chars_of(text);
    let n = chars.len();
    assert(chars@.take(n as int) =~= chars@);
    let a = trim_trailing_len(chars.as_slice(), n, '\n');
    let b = trim_trailing_len(chars.as_slice(), a, '\r');
    if b == 0 {
        None
    } else {
        let head = crate::text::sub_chars(chars.as_slice(), 0, b);
        Some(string_from_chars(head.as_slice()))
    }
}

/// The passphrase that a password dialog's output gives.
pub fn password_from_output(success: bool, stdout: &[u8]) -> (r: Option<String>)
    ensures
        match r {
            Some(p) => spec_password_from_output(success, stdout@) == Some(p@),
            None => spec_password_from_output(success, stdout@) is None,
        },
{
    let text = lossy_string(stdout);
    passphrase_from_text(success, text.as_str())
}

/// The dialog that offers to keep the passphrase in the keyring.
pub open spec fn spec_save_dialog(backend: Backend, runner: Seq<char>, qml_file: Seq<char>) -> DialogView {
    match backend {
        Backend::Qml => DialogView {
            program: runner,
            args: seq![qml_file],
            wayland_app_id: true,
            piped: false,
        },
        Backend::Kdialog => DialogView {
            program: "kdialog"@,
            args: seq![
                "--title"@,
                "Save for Fingerprint Unlock?"@,
                "--yes-label"@,
                "Save"@,
                "--no-label"@,
                "Don't Save"@,
                "--yesno"@,
                "<h3>Save passphrase?</h3><p>Store in the system keyring so you can<br/>unlock with your fingerprint next time.</p>"@,
            ],
            wayland_app_id: false,
            piped: false,
        },
        Backend::Zenity => DialogView {
            program: "zenity"@,
            args: seq![
                "--info"@,
                "--title=Save for Fingerprint Unlock?"@,
                "--icon=fingerprint-gui"@,
                "--text=Save passphrase?\n\nStore in the system keyring so you can\nunlock with your fingerprint next time."@,
                "--no-markup"@,
                "--ok-label=Save"@,
                "--extra-button=Don't Save"@,
            ],
            wayland_app_id: false,
            piped: false,
        },
    }
}

/// The dialog that asks whether to keep the passphrase in the keyring; the
/// answer is yes when the dialog exits successfully.
pub fn ask_save_to_keyring(backend: Backend, runner: &str, qml_file: &str) -> (d: DialogCommand)
    ensures
        d@ == spec_save_dialog(backend, runner@, qml_file@),
{
    let mut args: Vec<String> = Vec::new();
    match backend {
        Backend::Qml => {
            push_lit(&mut args, qml_file);
            let d = DialogCommand { program: owned(runner), args, wayland_app_id: true, piped: false };
            assert(d@.args =~= spec_save_dialog(backend, runner@, qml_file@).args);
            d
        },
        Backend::Kdialog => {
            push_lit(&mut args, "--title");
            push_lit(&mut args, "Save for Fingerprint Unlock?");
            push_lit(&mut args, "--yes-label");
            push_lit(&mut args, "Save");
            push_lit(&mut args, "--no-label");
            push_lit(&mut args, "Don't Save");
            push_lit(&mut args, "--yesno");
            push_lit(
                &mut args,
                "<h3>Save passphrase?</h3><p>Store in the system keyring so you can<br/>unlock with your fingerprint next time.</p>",
            );
            let d = DialogCommand { program: owned("kdialog"), args, wayland_app_id: false, piped: false };
            assert(d@.args =~= spec_save_dialog(backend, runner@, qml_file@).args);
            d
        },
        Backend::Zenity => {
            push_lit(&mut args, "--info");
            push_lit(&mut args, "--title=Save for Fingerprint Unlock?");
            push_lit(&mut args, "--icon=fingerprint-gui");
            push_lit(
                &mut args,
                "--text=Save passphrase?\n\nStore in the system keyring so you can\nunlock with your fingerprint next time.",
            );
            push_lit(&mut args, "--no-markup");
            push_lit(&mut args, "--ok-label=Save");
            push_lit(&mut args, "--extra-button=Don't Save");
            let d = DialogCommand { program: owned("zenity"), args, wayland_app_id: false, piped: false };
            assert(d@.args =~= spec_save_dialog(backend, runner@, qml_file@).args);
            d
        },
    }
}

} // verus!

verus! {

/// Outside KDE the QML dialogs are never used; on KDE they are whenever a
/// QML runner is installed; otherwise a toolkit that was found is used,
/// `zenity` being the last resort when none was.
pub proof fn law_backend_choice(kde: bool, qml: bool, kdialog: bool, zenity: bool)
    ensures
        !kde ==> spec_backend(kde, qml, kdialog, zenity) != Backend::Qml,
        kde && qml ==> spec_backend(kde, qml, kdialog, zenity) == Backend::Qml,
        spec_backend(kde, qml, kdialog, zenity) == Backend::Kdialog ==> kdialog,
        spec_backend(kde, qml, kdialog, zenity) == Backend::Zenity ==> zenity || !kdialog,
{
}

proof fn lemma_trim_trailing(s: Seq<char>, c: char)
    ensures
        trim_trailing(s, c).len() > 0 ==> trim_trailing(s, c).last() != c,
        trim_trailing(s, c).len() <= s.len(),
        trim_trailing(s, c) == s.take(trim_trailing(s, c).len() as int),
    decreases s.len(),
{
    if s.len() > 0 && s.last() == c {
        lemma_trim_trailing(s.drop_last(), c);
        let t = trim_trailing(s.drop_last(), c);
        assert(s.drop_last().take(t.len() as int) =~= s.take(t.len() as int));
    } else {
        assert(s.take(s.len() as int) =~= s);
    }
}

/// A passphrase read from a dialog is never empty and never ends with a
/// carriage return, and it is a beginning of the dialog's decoded output.
pub proof fn law_dialog_passphrase_shape(success: bool, stdout: Seq<u8>)
    ensures
        spec_password_from_output(success, stdout) matches Some(p) ==> p.len() > 0 && p.last()
            != '\r' && p == lossy_text(stdout).take(p.len() as int),
{
    let a = trim_trailing(lossy_text(stdout), '\n');
    lemma_trim_trailing(lossy_text(stdout), '\n');
    lemma_trim_trailing(a, '\r');
    let b = trim_trailing(a, '\r');
    assert(a.take(b.len() as int) =~= lossy_text(stdout).take(b.len() as int));
}

/// The waiting dialog says that the finger was not recognized exactly from
/// the second attempt on.
pub proof fn law_retry_note_from_second_attempt(attempt: u32)
    ensures
        (retry_message(attempt).len() > 0) <==> attempt > 1,
{
    reveal_strlit("Not recognized - try again\n\n");
    reveal_strlit("");
}

} // verus!

verus! {

// ---------------------------------------------------------------------------
// Where the QML pieces are
// ---------------------------------------------------------------------------

/// The places where `qml-run` is looked for, in order: `/usr/local/bin`,
/// `/usr/bin`, then `.local/bin` in the home directory when it is known.
pub open spec fn spec_qml_runner_candidates(home: Option<Seq<char>>) -> Seq<Seq<char>> {
    seq!["/usr/local/bin/qml-run"@, "/usr/bin/qml-run"@] + match home {
        Some(h) => seq![h + "/.local/bin/qml-run"@],
        None => Seq::empty(),
    }
}

/// The places where `qml-run` is looked for.
pub fn qml_runner_candidates(home: Option<&str>) -> (v: Vec<String>)
    ensures
        arg_views(v@) == spec_qml_runner_candidates(
            match home {
                Some(h) => Some(h@),
                None => None,
            },
        ),
{
    let mut v: Vec<String> = Vec::new();
    push_lit(&mut v, "/usr/local/bin/qml-run");
    push_lit(&mut v, "/usr/bin/qml-run");
    match home {
        Some(h) => {
            let mut p: Vec<char> = Vec::new();
            append_str(&mut p, h);
            append_str(&mut p, "/.local/bin/qml-run");
            push_arg(&mut v, string_from_chars(p.as_slice()));
        },
        None => {},
    }
    assert(arg_views(v@) =~= spec_qml_runner_candidates(
        match home {
            Some(h) => Some(h@),
            None => None,
        },
    ));
    v
}

/// The system-wide place of a QML dialog file.
pub open spec fn spec_installed_qml_path(name: Seq<char>) -> Seq<char> {
    "/usr/share/pinentry-fprint/qml/"@ + name
}

/// The system-wide place of a QML dialog file.
pub fn installed_qml_path(name: &str) -> (p: String)
    ensures
        p@ == spec_installed_qml_path(name@),
{
    let mut v: Vec<char> = Vec::new();
    append_str(&mut v, "/usr/share/pinentry-fprint/qml/");
    append_str(&mut v, name);
    string_from_chars(v.as_slice())
}

/// The first candidate that was found, or the fallback when none was.
pub open spec fn spec_first_found(
    candidates: Seq<Seq<char>>,
    found: Seq<bool>,
    fallback: Seq<char>,
) -> Seq<char>
    decreases candidates.len(),
{
    if candidates.len() == 0 || found.len() == 0 {
        fallback
    } else if found[0] {
        candidates[0]
    } else {
        spec_first_found(candidates.drop_first(), found.drop_first(), fallback)
    }
}

/// The first candidate that was found (`found[i]` tells of `candidates[i]`),
/// or the fallback when none was.
pub fn first_found(candidates: &Vec<String>, found: &Vec<bool>, fallback: &str) -> (r: String)
    ensures
        r@ == spec_first_found(arg_views(candidates@), found@, fallback@),
{
    let n = if candidates.len() < found.len() {
        candidates.len()
    } else {
        found.len()
    };
    let mut i: usize = 0;
    assert(arg_views(candidates@).skip(0) =~= arg_views(candidates@));
    assert(found@.skip(0) =~= found@);
    while i < n
        invariant
            n <= candidates@.len(),
            n <= found@.len(),
            n == candidates@.len() || n == found@.len(),
            i <= n,
            spec_first_found(arg_views(candidates@).skip(i as int), found@.skip(i as int), fallback@)
                == spec_first_found(arg_views(candidates@), found@, fallback@),
        decreases n - i,
    {
        let ghost c = arg_views(candidates@).skip(i as int);
        let ghost f = found@.skip(i as int);
        assert(c.drop_first() =~= arg_views(candidates@).skip(i + 1));
        assert(f.drop_first() =~= found@.skip(i + 1));
        if found[i] {
            assert(c[0] == candidates@[i as int]@);
            return owned(candidates[i].as_str());
        }
        i = i + 1;
    }
    owned(fallback)
}

} // verus!

verus! {

/// Passwords are always typed into `kdialog` or `zenity`, never into a QML
/// dialog: the QML toolkit uses `kdialog` for them.
pub proof fn law_password_dialog_program(backend: Backend, title: Seq<char>)
    ensures
        spec_password_dialog(backend, title).program == (if backend == Backend::Zenity {
            "zenity"@
        } else {
            "kdialog"@
        }),
        spec_password_dialog(backend, title).piped,
{
}

} // verus!

verus! {

/// In the save dialog the button that exits successfully (and so stores the
/// passphrase) is the one labelled `Save`; the other one is `Don't Save`.
pub proof fn law_save_button_is_the_successful_one(runner: Seq<char>, qml_file: Seq<char>)
    ensures
        ({
            let a = spec_save_dialog(Backend::Kdialog, runner, qml_file).args;
            a.len() == 8 && a[2] == "--yes-label"@ && a[3] == "Save"@ && a[4] == "--no-label"@
                && a[5] == "Don't Save"@ && a[6] == "--yesno"@
        }),
        ({
            let a = spec_save_dialog(Backend::Zenity, runner, qml_file).args;
            a.len() == 7 && a[0] == "--info"@ && a[5] == "--ok-label=Save"@ && a[6]
                == "--extra-button=Don't Save"@
        }),
        spec_save_dialog(Backend::Qml, runner, qml_file).args == seq![qml_file],
        spec_save_dialog(Backend::Qml, runner, qml_file).program == runner,
{
}

} // verus!
