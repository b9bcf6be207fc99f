//! The pinentry session: what gpg-agent has told us so far, and the reply to
//! each of its commands.
use vstd::prelude::*;
use vstd::utf8::*;
use zeroize::Zeroize;

use crate::assuan::{
    data_line, error_line, greeting_line, ok_line, AssuanServer, Command, CommandView,
};
use crate::text::{
    chars_eq_str, chars_of, decimal, decimal_string, lemma_encode_utf8_concat, owned,
    string_from_chars, sub_chars,
};

verus! {

broadcast use vstd::seq_lib::group_seq_properties;

/// The error code sent when no passphrase could be had.
pub const CANCELLED_CODE: u32 = 83886179;

/// What the session knows: the description and key of the request at hand,
/// whether gpg-agent reported a wrong passphrase, and the program's own
/// version and process id (for `GETINFO`).
pub struct SessionView {
    pub description: Seq<char>,
    pub key_id: Seq<char>,
    pub had_error: bool,
    pub version: Seq<char>,
    pub pid: nat,
}

/// The state of one pinentry session.
pub struct Session {
    description: String,
    key_id: String,
    had_error: bool,
    version: String,
    pid: u32,
}

impl View for Session {
    type V = SessionView;

    closed spec fn view(&self) -> SessionView {
        SessionView {
            description: self.description@,
            key_id: self.key_id@,
            had_error: self.had_error,
            version: self.version@,
            pid: self.pid as nat,
        }
    }
}

/// A passphrase request handed to the unlock flow.
pub struct PinRequest {
    pub description: String,
    pub key_id: String,
    pub was_wrong: bool,
}

/// What the session asks of its caller after a command.
pub enum Next {
    /// Read the next command.
    Continue,
    /// The conversation is over.
    Stop,
    /// Obtain a passphrase, then report it with `finish_getpin`.
    NeedPin(PinRequest),
}

/// `Next`, with texts as character sequences.
pub enum NextView {
    Continue,
    Stop,
    NeedPin { description: Seq<char>, key_id: Seq<char>, was_wrong: bool },
}

impl View for Next {
    type V = NextView;

    open spec fn view(&self) -> NextView {
        match self {
            Next::Continue => NextView::Continue,
            Next::Stop => NextView::Stop,
            Next::NeedPin(r) => NextView::NeedPin {
                description: r.description@,
                key_id: r.key_id@,
                was_wrong: r.was_wrong,
            },
        }
    }
}

/// Key info without its `n/` or `s/` prefix.
pub open spec fn strip_key_prefix(info: Seq<char>) -> Seq<char> {
    if info.len() >= 2 && (info[0] == 'n' || info[0] == 's') && info[1] == '/' {
        info.skip(2)
    } else {
        info
    }
}

/// The keyring entry that a passphrase request looks up.
pub open spec fn lookup_key(key_id: Seq<char>) -> Seq<char> {
    if key_id.len() == 0 {
        "default"@
    } else {
        key_id
    }
}

/// The reply to `GETINFO`.
pub open spec fn info_reply(s: SessionView, what: Seq<char>) -> Seq<char> {
    if what == "flavor"@ {
        data_line("pinentry-fprint"@) + ok_line()
    } else if what == "version"@ {
        data_line(s.version) + ok_line()
    } else if what == "ttyinfo"@ {
        data_line("- - -"@) + ok_line()
    } else if what == "pid"@ {
        data_line(decimal(s.pid)) + ok_line()
    } else {
        ok_line()
    }
}

/// The session after a command.
pub open spec fn session_after(s: SessionView, c: CommandView) -> SessionView {
    match c {
        CommandView::SetDesc(d) => SessionView { description: d, ..s },
        CommandView::SetError(_) => SessionView { had_error: true, ..s },
        CommandView::SetKeyInfo(info) => SessionView { key_id: strip_key_prefix(info), ..s },
        CommandView::Reset => SessionView {
            description: Seq::empty(),
            key_id: Seq::empty(),
            had_error: false,
            ..s
        },
        _ => s,
    }
}

/// The reply written at once to a command (a passphrase request is answered
/// later, by `finish_getpin`).
pub open spec fn command_reply(s: SessionView, c: CommandView) -> Seq<char> {
    match c {
        CommandView::GetPin => Seq::empty(),
        CommandView::GetInfo(what) => info_reply(s, what),
        _ => ok_line(),
    }
}

/// What the caller is asked to do after a command.
pub open spec fn command_next(s: SessionView, c: CommandView) -> NextView {
    match c {
        CommandView::GetPin => NextView::NeedPin {
            description: s.description,
            key_id: lookup_key(s.key_id),
            was_wrong: s.had_error,
        },
        CommandView::Bye => NextView::Stop,
        _ => NextView::Continue,
    }
}

/// The reply once a passphrase request is over.
pub open spec fn pin_reply(passphrase: Option<Seq<char>>) -> Seq<char> {
    match passphrase {
        Some(p) => data_line(p) + ok_line(),
        None => error_line(CANCELLED_CODE as nat, "Operation cancelled"@),
    }
}

/// Calls `Zeroize::zeroize` (zeroize crate) on a string. Trusted: the crate
/// overwrites the bytes with zeros and then clears the string, so it is
/// empty afterwards.
#[verifier::external_body]
fn wipe(s: &mut String)
    ensures
        final(s)@ == Seq::<char>::empty(),
{
    s.zeroize();
}

fn key_without_prefix(info: &str) -> (r: String)
    ensures
        r@ == strip_key_prefix(info@),
{
    let chars = chars_of(info);
    let n = chars.len();
    if n >= 2 && (chars[0] == 'n' || chars[0] == 's') && chars[1] == '/' {
        let rest = sub_chars(chars.as_slice(), 2, n);
        string_from_chars(rest.as_slice())
    } else {
        string_from_chars(chars.as_slice())
    }
}

impl Session {
    /// A fresh session for the program of the given version and process id.
    pub fn new(version: &str, pid: u32) -> (s: Self)
        ensures
            s@ == (SessionView {
                description: Seq::empty(),
                key_id: Seq::empty(),
                had_error: false,
                version: version@,
                pid: pid as nat,
            }),
    {
        Session {
            description: String::new(),
            key_id: String::new(),
            had_error: false,
            version: owned(version),
            pid,
        }
    }

    /// Opens the conversation with the greeting.
    pub fn greet(&self, server: &mut AssuanServer)
        ensures
            final(server)@ == old(server)@ + encode_utf8(greeting_line()),
    {
        server.send_greeting();
    }

    fn send_info(&self, server: &mut AssuanServer, what: &str)
        ensures
            final(server)@ == old(server)@ + encode_utf8(info_reply(self@, what@)),
    {
        let w = chars_of(what);
        let ghost start = server@;
        if chars_eq_str(w.as_slice(), "flavor") {
            server.send_data("pinentry-fprint");
            server.send_ok();
            proof {
                lemma_encode_utf8_concat(data_line("pinentry-fprint"@), ok_line());
            }
        } else if chars_eq_str(w.as_slice(), "version") {
            server.send_data(self.version.as_str());
            server.send_ok();
            proof {
                lemma_encode_utf8_concat(data_line(self.version@), ok_line());
            }
        } else if chars_eq_str(w.as_slice(), "ttyinfo") {
            server.send_data("- - -");
            server.send_ok();
            proof {
                lemma_encode_utf8_concat(data_line("- - -"@), ok_line());
            }
        } else if chars_eq_str(w.as_slice(), "pid") {
            let p = decimal_string(self.pid as u64);
            server.send_data(p.as_str());
            server.send_ok();
            proof {
                lemma_encode_utf8_concat(data_line(decimal(self.pid as nat)), ok_line());
            }
        } else {
            server.send_ok();
        }
        assert(server@ =~= start + encode_utf8(info_reply(self@, what@)));
    }

    /// Handles one command: updates the session, queues the reply, and says
    /// what the caller has to do next.
    pub fn handle(&mut self, server: &mut AssuanServer, cmd: Command) -> (next: Next)
        ensures
            final(self)@ == session_after(old(self)@, cmd@),
            final(server)@ == old(server)@ + encode_utf8(command_reply(old(self)@, cmd@)),
            next@ == command_next(old(self)@, cmd@),
    {
        let ghost start = server@;
        match cmd {
            Command::SetDesc(d) => {
                self.description = d;
                server.send_ok();
                Next::Continue
            },
            Command::SetError(_) => {
                self.had_error = true;
                server.send_ok();
                Next::Continue
            },
            Command::SetKeyInfo(info) => {
                self.key_id = key_without_prefix(info.as_str());
                server.send_ok();
                Next::Continue
            },
            Command::Reset => {
                self.description = String::new();
                self.key_id = String::new();
                self.had_error = false;
                server.send_ok();
                Next::Continue
            },
            Command::GetPin => {
                let key = if self.key_id.as_str().is_empty() {
                    owned("default")
                } else {
                    owned(self.key_id.as_str())
                };
                let description = owned(self.description.as_str());
                assert(encode_utf8(Seq::<char>::empty()) =~= Seq::<u8>::empty());
                assert(server@ =~= start + encode_utf8(Seq::<char>::empty()));
                Next::NeedPin(PinRequest { description, key_id: key, was_wrong: self.had_error })
            },
            Command::GetInfo(what) => {
                self.send_info(server, what.as_str());
                Next::Continue
            },
            Command::Confirm => {
                server.send_ok();
                Next::Continue
            },
            Command::Message => {
                server.send_ok();
                Next::Continue
            },
            Command::Bye => {
                server.send_ok();
                Next::Stop
            },
            Command::Other => {
                server.send_ok();
                Next::Continue
            },
        }
    }

    /// Reports the end of a passphrase request: the passphrase as data and
    /// `OK`, or the cancellation error. The passphrase is wiped once queued,
    /// and the wrong-passphrase mark is cleared either way.
    pub fn finish_getpin(&mut self, server: &mut AssuanServer, passphrase: Option<String>)
        ensures
            final(self)@ == (SessionView { had_error: false, ..old(self)@ }),
            final(server)@ == old(server)@ + encode_utf8(
                pin_reply(
                    match passphrase {
                        Some(p) => Some(p@),
                        None => None,
                    },
                ),
            ),
    {
        let ghost start = server@;
        match passphrase {
            Some(p) => {
                let mut p = p;
                server.send_data(p.as_str());
                server.send_ok();
                proof {
                    lemma_encode_utf8_concat(data_line(p@), ok_line());
                }
                wipe(&mut p);
            },
            None => {
                server.send_error(CANCELLED_CODE, "Operation cancelled");
            },
        }
        self.had_error = false;
    }
}

} // verus!

verus! {

/// After `RESET`, a passphrase request carries no description, looks up the
/// default keyring entry and is not marked as a retry, whatever came before.
pub proof fn law_reset_forgets_request(s: SessionView)
    ensures
        command_next(session_after(s, CommandView::Reset), CommandView::GetPin) == (NextView::NeedPin {
            description: Seq::empty(),
            key_id: "default"@,
            was_wrong: false,
        }),
{
}

/// A `SETERROR` marks the next passphrase request as a retry after a wrong
/// passphrase.
pub proof fn law_seterror_marks_retry(s: SessionView, msg: Seq<char>)
    ensures
        command_next(session_after(s, CommandView::SetError(msg)), CommandView::GetPin) matches NextView::NeedPin { was_wrong, .. } && was_wrong,
{
}

/// `SETKEYINFO` with an `n/` or `s/` prefix makes the next request look up the
/// key id after the prefix (when that is not empty).
pub proof fn law_keyinfo_prefix_is_dropped(s: SessionView, kind: char, id: Seq<char>)
    requires
        kind == 'n' || kind == 's',
        id.len() > 0,
    ensures
        command_next(
            session_after(s, CommandView::SetKeyInfo(seq![kind, '/'] + id)),
            CommandView::GetPin,
        ) matches NextView::NeedPin { key_id, .. } && key_id == id,
{
    assert((seq![kind, '/'] + id).skip(2) =~= id);
}

/// Every command but `GETPIN` is answered at once, and the answer ends with
/// `OK`; `GETPIN` alone waits for the passphrase.
pub proof fn law_every_command_is_acknowledged(s: SessionView, c: CommandView)
    ensures
        c is GetPin ==> command_reply(s, c).len() == 0,
        !(c is GetPin) ==> exists|prefix: Seq<char>| command_reply(s, c) == prefix + ok_line(),
{
    if !(c is GetPin) {
        if let CommandView::GetInfo(what) = c {
            if what == "flavor"@ {
                assert(command_reply(s, c) == data_line("pinentry-fprint"@) + ok_line());
            } else if what == "version"@ {
                assert(command_reply(s, c) == data_line(s.version) + ok_line());
            } else if what == "ttyinfo"@ {
                assert(command_reply(s, c) == data_line("- - -"@) + ok_line());
            } else if what == "pid"@ {
                assert(command_reply(s, c) == data_line(decimal(s.pid)) + ok_line());
            } else {
                assert(command_reply(s, c) =~= Seq::<char>::empty() + ok_line());
            }
        } else {
            assert(command_reply(s, c) =~= Seq::<char>::empty() + ok_line());
        }
    }
}

/// Only `BYE` ends the conversation.
pub proof fn law_only_bye_stops(s: SessionView, c: CommandView)
    ensures
        (command_next(s, c) is Stop) <==> (c is Bye),
{
}

} // verus!
