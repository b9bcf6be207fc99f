//! The Assuan side of a pinentry: commands read from gpg-agent, and the
//! replies written back to it.
use vstd::prelude::*;
use vstd::utf8::*;

use crate::text::{
    chars_eq_str, chars_of, decimal, decimal_chars, lemma_encode_utf8_concat, lemma_encode_utf8_push, lemma_encode_utf8_single,
    lossy_string, lossy_text, push_chars_utf8, push_str_utf8, push_utf8, string_from_chars, sub_chars,
};

verus! {

broadcast use vstd::seq_lib::group_seq_properties;

/// A command from gpg-agent.
#[derive(Debug)]
pub enum Command {
    SetDesc(String),
    SetError(String),
    SetKeyInfo(String),
    GetPin,
    Confirm,
    Message,
    GetInfo(String),
    Reset,
    Bye,
    Other,
}

/// A command, with its texts taken as character sequences.
pub enum CommandView {
    SetDesc(Seq<char>),
    SetError(Seq<char>),
    SetKeyInfo(Seq<char>),
    GetPin,
    Confirm,
    Message,
    GetInfo(Seq<char>),
    Reset,
    Bye,
    Other,
}

impl View for Command {
    type V = CommandView;

    open spec fn view(&self) -> CommandView {
        match self {
            Command::SetDesc(s) => CommandView::SetDesc(s@),
            Command::SetError(s) => CommandView::SetError(s@),
            Command::SetKeyInfo(s) => CommandView::SetKeyInfo(s@),
            Command::GetPin => CommandView::GetPin,
            Command::Confirm => CommandView::Confirm,
            Command::Message => CommandView::Message,
            Command::GetInfo(s) => CommandView::GetInfo(s@),
            Command::Reset => CommandView::Reset,
            Command::Bye => CommandView::Bye,
            Command::Other => CommandView::Other,
        }
    }
}

// ---------------------------------------------------------------------------
// Escaping of data lines
// ---------------------------------------------------------------------------

/// The escaped form of data sent in a `D` line: `%`, line feed and carriage
/// return become `%25`, `%0A` and `%0D`; every other character stays.
pub open spec fn percent_encoded(s: Seq<char>) -> Seq<char>
    decreases s.len(),
{
    if s.len() == 0 {
        seq![]
    } else {
        let head = if s[0] == '%' {
            seq!['%', '2', '5']
        } else if s[0] == '\n' {
            seq!['%', '0', 'A']
        } else if s[0] == '\r' {
            seq!['%', '0', 'D']
        } else {
            seq![s[0]]
        };
        head + percent_encoded(s.drop_first())
    }
}

/// The value of a hexadecimal digit, in either case.
pub open spec fn hex_digit_value(c: char) -> Option<u8> {
    let u = c as u32;
    if 0x30 <= u <= 0x39 {
        Some((u - 0x30) as u8)
    } else if 0x41 <= u <= 0x46 {
        Some((u - 0x41 + 10) as u8)
    } else if 0x61 <= u <= 0x66 {
        Some((u - 0x61 + 10) as u8)
    } else {
        None
    }
}

/// What `u8::from_str_radix(h, 16)` gives for a text of at most two
/// characters: a lone digit, a digit after `+`, or two digits.
pub open spec fn hex_byte(h: Seq<char>) -> Option<u8> {
    if h.len() == 0 {
        None
    } else if h.len() == 1 {
        hex_digit_value(h[0])
    } else if h[0] == '+' {
        hex_digit_value(h[1])
    } else {
        match (hex_digit_value(h[0]), hex_digit_value(h[1])) {
            (Some(a), Some(b)) => Some((a * 16 + b) as u8),
            _ => None,
        }
    }
}

/// The bytes that percent-decoding produces: each `%` takes the next two
/// characters (fewer at the end) and yields the byte they spell in hex, or
/// nothing when they spell none; every other character yields its UTF-8
/// encoding.
pub open spec fn percent_decoded_bytes(s: Seq<char>) -> Seq<u8>
    decreases s.len(),
{
    if s.len() == 0 {
        seq![]
    } else if s[0] == '%' {
        let rest = s.drop_first();
        let n: int = if rest.len() < 2 {
            rest.len() as int
        } else {
            2
        };
        let tail = percent_decoded_bytes(rest.skip(n));
        match hex_byte(rest.take(n)) {
            Some(b) => seq![b] + tail,
            None => tail,
        }
    } else {
        encode_utf8(seq![s[0]]) + percent_decoded_bytes(s.drop_first())
    }
}

/// The text that percent-decoding produces.
pub open spec fn spec_percent_decode(s: Seq<char>) -> Seq<char> {
    lossy_text(percent_decoded_bytes(s))
}

fn hex_value(c: char) -> (r: Option<u8>)
    ensures
        r == hex_digit_value(c),
{
    let u: u32 = c as u32;
    if 0x30 <= u && u <= 0x39 {
        Some((u - 0x30) as u8)
    } else if 0x41 <= u && u <= 0x46 {
        Some((u - 0x41 + 10) as u8)
    } else if 0x61 <= u && u <= 0x66 {
        Some((u - 0x61 + 10) as u8)
    } else {
        None
    }
}

/// Decodes `%XX` escapes. A `%` followed by characters that are no hex
/// number drops them; bytes that are no valid UTF-8 are replaced.
pub fn percent_decode(s: &str) -> (r: String)
    ensures
        r@ == spec_percent_decode(s@),
{
    let chars = chars_of(s);
    let n = chars.len();
    let mut bytes: Vec<u8> = Vec::new();
    let mut i: usize = 0;
    assert(chars@.skip(0) =~= chars@);
    while i < n
        invariant
            n == chars@.len(),
            i <= n,
            bytes@ + percent_decoded_bytes(chars@.skip(i as int)) == percent_decoded_bytes(chars@),
        decreases n - i,
    {
        let ghost rest_all = chars@.skip(i as int);
        let c = chars[i];
        assert(rest_all[0] == c);
        if c == '%' {
            let ghost rest = rest_all.drop_first();
            assert(rest =~= chars@.skip(i + 1));
            let avail = n - (i + 1);
            let k: usize = if avail < 2 {
                avail
            } else {
                2
            };
            let decoded: Option<u8> = if k == 0 {
                None
            } else if k == 1 {
                hex_value(chars[i + 1])
            } else if chars[i + 1] == '+' {
                hex_value(chars[i + 2])
            } else {
                match (hex_value(chars[i + 1]), hex_value(chars[i + 2])) {
                    (Some(a), Some(b)) => Some(a * 16 + b),
                    _ => None,
                }
            };
            proof {
                assert(rest.take(k as int).len() == k);
                if k >= 1 {
                    assert(rest.take(k as int)[0] == chars@[i + 1]);
                }
                if k == 2 {
                    assert(rest.take(k as int)[1] == chars@[i + 2]);
                }
                assert(decoded == hex_byte(rest.take(k as int)));
                assert(rest.skip(k as int) =~= chars@.skip(i + 1 + k));
            }
            match decoded {
                Some(b) => {
                    bytes.push(b);
                },
                None => {},
            }
            i = i + 1 + k;
        } else {
            push_utf8(&mut bytes, c);
            assert(rest_all.drop_first() =~= chars@.skip(i + 1));
            i = i + 1;
        }
    }
    assert(chars@.skip(n as int) =~= Seq::<char>::empty());
    assert(bytes@ =~= percent_decoded_bytes(chars@));
    lossy_string(bytes.as_slice())
}

// ---------------------------------------------------------------------------
// Parsing of command lines
// ---------------------------------------------------------------------------

/// Unicode `White_Space`, the set that `char::is_whitespace` tests.
pub open spec fn is_white_space(c: char) -> bool {
    let u = c as u32;
    ||| 0x09 <= u <= 0x0D
    ||| u == 0x20
    ||| u == 0x85
    ||| u == 0xA0
    ||| u == 0x1680
    ||| 0x2000 <= u <= 0x200A
    ||| u == 0x2028
    ||| u == 0x2029
    ||| u == 0x202F
    ||| u == 0x205F
    ||| u == 0x3000
}

/// The text without its trailing white space.
pub open spec fn trim_end(s: Seq<char>) -> Seq<char>
    decreases s.len(),
{
    if s.len() > 0 && is_white_space(s.last()) {
        trim_end(s.drop_last())
    } else {
        s
    }
}

/// The text without its leading white space.
pub open spec fn trim_start(s: Seq<char>) -> Seq<char>
    decreases s.len(),
{
    if s.len() > 0 && is_white_space(s[0]) {
        trim_start(s.drop_first())
    } else {
        s
    }
}

/// Tests `char::is_whitespace`.
pub fn white_space(c: char) -> (r: bool)
    ensures
        r == is_white_space(c),
{
    let u: u32 = c as u32;
    (0x09 <= u && u <= 0x0D) || u == 0x20 || u == 0x85 || u == 0xA0 || u == 0x1680 || (0x2000
        <= u && u <= 0x200A) || u == 0x2028 || u == 0x2029 || u == 0x202F || u == 0x205F || u
        == 0x3000
}

/// The length that remains once trailing white space is dropped.
pub fn trim_end_len(s: &[char]) -> (k: usize)
    ensures
        k <= s@.len(),
        s@.take(k as int) == trim_end(s@),
{
    let mut k = s.len();
    assert(s@.take(k as int) =~= s@);
    while k > 0 && white_space(s[k - 1])
        invariant
            k <= s@.len(),
            trim_end(s@.take(k as int)) == trim_end(s@),
        decreases k,
    {
        assert(s@.take(k as int).drop_last() =~= s@.take(k - 1));
        k = k - 1;
    }
    k
}

/// The index of the first occurrence of a character.
pub open spec fn index_of(s: Seq<char>, c: char) -> Option<int>
    decreases s.len(),
{
    if s.len() == 0 {
        None
    } else if s[0] == c {
        Some(0)
    } else {
        match index_of(s.drop_first(), c) {
            Some(i) => Some(i + 1),
            None => None,
        }
    }
}

/// Facts about where `index_of` points.
pub proof fn lemma_index_of(s: Seq<char>, c: char)
    ensures
        index_of(s, c) matches Some(i) ==> 0 <= i < s.len() && s[i] == c && forall|j: int|
            0 <= j < i ==> s[j] != c,
        index_of(s, c) is None ==> forall|j: int| 0 <= j < s.len() ==> s[j] != c,
    decreases s.len(),
{
    if s.len() > 0 {
        lemma_index_of(s.drop_first(), c);
        if s[0] != c {
            assert forall|j: int| 1 <= j < s.len() implies s[j] == s.drop_first()[j - 1] by {}
        }
    }
}

/// The word before the first space and the text after it (all of the line
/// and nothing, where there is no space).
pub open spec fn split_at_space(line: Seq<char>) -> (Seq<char>, Seq<char>) {
    match index_of(line, ' ') {
        Some(i) => (line.take(i), line.skip(i + 1)),
        None => (line, seq![]),
    }
}

/// The command that a line (without its line ending) stands for.
pub open spec fn spec_parse_command(line: Seq<char>) -> CommandView {
    let (cmd, args) = split_at_space(line);
    if cmd == "SETDESC"@ {
        CommandView::SetDesc(spec_percent_decode(args))
    } else if cmd == "SETERROR"@ {
        CommandView::SetError(spec_percent_decode(args))
    } else if cmd == "SETKEYINFO"@ {
        CommandView::SetKeyInfo(args)
    } else if cmd == "GETPIN"@ {
        CommandView::GetPin
    } else if cmd == "CONFIRM"@ {
        CommandView::Confirm
    } else if cmd == "MESSAGE"@ {
        CommandView::Message
    } else if cmd == "GETINFO"@ {
        CommandView::GetInfo(args)
    } else if cmd == "RESET"@ {
        CommandView::Reset
    } else if cmd == "BYE"@ {
        CommandView::Bye
    } else {
        CommandView::Other
    }
}

fn find_space(s: &[char]) -> (r: Option<usize>)
    ensures
        r matches Some(i) ==> i < s@.len() && index_of(s@, ' ') == Some(i as int),
        r is None ==> index_of(s@, ' ') is None,
{
    let n = s.len();
    let mut i: usize = 0;
    while i < n
        invariant
            n == s@.len(),
            i <= n,
            forall|j: int| 0 <= j < i ==> s@[j] != ' ',
        decreases n - i,
    {
        if s[i] == ' ' {
            proof {
                lemma_index_of(s@, ' ');
            }
            return Some(i);
        }
        i = i + 1;
    }
    proof {
        lemma_index_of(s@, ' ');
    }
    None
}

/// Parses a command line (its line ending already removed).
pub fn parse_command(line: &str) -> (c: Command)
    ensures
        c@ == spec_parse_command(line@),
{
    let chars = chars_of(line);
    let n = chars.len();
    let (cmd, args): (Vec<char>, Vec<char>) = match find_space(chars.as_slice()) {
        Some(i) => (sub_chars(chars.as_slice(), 0, i), sub_chars(chars.as_slice(), i + 1, n)),
        None => (chars.clone(), Vec::new()),
    };
    assert(cmd@ == split_at_space(line@).0);
    assert(args@ == split_at_space(line@).1);
    let cmd = cmd.as_slice();
    if chars_eq_str(cmd, "SETDESC") {
        let a = string_from_chars(args.as_slice());
        Command::SetDesc(percent_decode(a.as_str()))
    } else if chars_eq_str(cmd, "SETERROR") {
        let a = string_from_chars(args.as_slice());
        Command::SetError(percent_decode(a.as_str()))
    } else if chars_eq_str(cmd, "SETKEYINFO") {
        Command::SetKeyInfo(string_from_chars(args.as_slice()))
    } else if chars_eq_str(cmd, "GETPIN") {
        Command::GetPin
    } else if chars_eq_str(cmd, "CONFIRM") {
        Command::Confirm
    } else if chars_eq_str(cmd, "MESSAGE") {
        Command::Message
    } else if chars_eq_str(cmd, "GETINFO") {
        Command::GetInfo(string_from_chars(args.as_slice()))
    } else if chars_eq_str(cmd, "RESET") {
        Command::Reset
    } else if chars_eq_str(cmd, "BYE") {
        Command::Bye
    } else {
        Command::Other
    }
}

} // verus!

verus! {

// ---------------------------------------------------------------------------
// Replies
// ---------------------------------------------------------------------------

/// What one character of data becomes in a `D` line.
pub open spec fn escape_char(c: char) -> Seq<char> {
    if c == '%' {
        seq!['%', '2', '5']
    } else if c == '\n' {
        seq!['%', '0', 'A']
    } else if c == '\r' {
        seq!['%', '0', 'D']
    } else {
        seq![c]
    }
}

/// Escaping works character by character.
pub proof fn lemma_percent_encoded_concat(a: Seq<char>, b: Seq<char>)
    ensures
        percent_encoded(a + b) == percent_encoded(a) + percent_encoded(b),
    decreases a.len(),
{
    if a.len() == 0 {
        assert(a + b =~= b);
        assert(percent_encoded(a) =~= Seq::<char>::empty());
    } else {
        assert((a + b).drop_first() =~= a.drop_first() + b);
        assert((a + b)[0] == a[0]);
        lemma_percent_encoded_concat(a.drop_first(), b);
    }
}

/// The escaped form of one character.
pub proof fn lemma_percent_encoded_single(c: char)
    ensures
        percent_encoded(seq![c]) == escape_char(c),
{
    assert(seq![c].drop_first() =~= Seq::<char>::empty());
    assert(percent_encoded(Seq::<char>::empty()) =~= Seq::<char>::empty());
    assert(seq![c][0] == c);
    assert(percent_encoded(seq![c]) =~= escape_char(c) + percent_encoded(Seq::<char>::empty()));
    assert(percent_encoded(seq![c]) =~= escape_char(c));
}

/// The line that acknowledges a command.
pub open spec fn ok_line() -> Seq<char> {
    "OK\n"@
}

/// The greeting sent when a session opens.
pub open spec fn greeting_line() -> Seq<char> {
    "OK Pleased to meet you - pinentry-fprint\n"@
}

/// A data line carrying the given text.
pub open spec fn data_line(data: Seq<char>) -> Seq<char> {
    "D "@ + percent_encoded(data) + "\n"@
}

/// An error line with a code and a message.
pub open spec fn error_line(code: nat, msg: Seq<char>) -> Seq<char> {
    "ERR "@ + decimal(code) + " "@ + msg + "\n"@
}

/// The reply side of an Assuan conversation: the bytes still to be written
/// to gpg-agent, in order.
pub struct AssuanServer {
    out: Vec<u8>,
}

impl View for AssuanServer {
    type V = Seq<u8>;

    closed spec fn view(&self) -> Seq<u8> {
        self.out@
    }
}

fn push_escaped(out: &mut Vec<u8>, c: char)
    ensures
        final(out)@ == old(out)@ + encode_utf8(escape_char(c)),
{
    let ghost start = out@;
    if c == '%' {
        push_utf8(out, '%');
        push_utf8(out, '2');
        push_utf8(out, '5');
        proof {
            lemma_encode_utf8_push(seq!['%'], '2');
            lemma_encode_utf8_push(seq!['%', '2'], '5');
            assert(seq!['%'].push('2') =~= seq!['%', '2']);
            assert(seq!['%', '2'].push('5') =~= seq!['%', '2', '5']);
        }
    } else if c == '\n' {
        push_utf8(out, '%');
        push_utf8(out, '0');
        push_utf8(out, 'A');
        proof {
            lemma_encode_utf8_push(seq!['%'], '0');
            lemma_encode_utf8_push(seq!['%', '0'], 'A');
            assert(seq!['%'].push('0') =~= seq!['%', '0']);
            assert(seq!['%', '0'].push('A') =~= seq!['%', '0', 'A']);
        }
    } else if c == '\r' {
        push_utf8(out, '%');
        push_utf8(out, '0');
        push_utf8(out, 'D');
        proof {
            lemma_encode_utf8_push(seq!['%'], '0');
            lemma_encode_utf8_push(seq!['%', '0'], 'D');
            assert(seq!['%'].push('0') =~= seq!['%', '0']);
            assert(seq!['%', '0'].push('D') =~= seq!['%', '0', 'D']);
        }
    } else {
        push_utf8(out, c);
    }
    assert(out@ =~= start + encode_utf8(escape_char(c)));
}

impl AssuanServer {
    /// A server with nothing to send yet.
    pub fn new() -> (s: Self)
        ensures
            s@ == Seq::<u8>::empty(),
    {
        AssuanServer { out: Vec::new() }
    }

    /// Queues `OK`.
    pub fn send_ok(&mut self)
        ensures
            final(self)@ == old(self)@ + encode_utf8(ok_line()),
    {
        push_str_utf8(&mut self.out, "OK\n");
    }

    /// Queues a `D` line with the text escaped.
    pub fn send_data(&mut self, data: &str)
        ensures
            final(self)@ == old(self)@ + encode_utf8(data_line(data@)),
    {
        let ghost start = self.out@;
        push_str_utf8(&mut self.out, "D ");
        let chars = chars_of(data);
        let n = chars.len();
        let mut i: usize = 0;
        assert(chars@.take(0) =~= Seq::<char>::empty());
        assert(percent_encoded(Seq::<char>::empty()) =~= Seq::<char>::empty());
        while i < n
            invariant
                n == chars@.len(),
                i <= n,
                self.out@ == start + encode_utf8("D "@) + encode_utf8(
                    percent_encoded(chars@.take(i as int)),
                ),
            decreases n - i,
        {
            let c = chars[i];
            push_escaped(&mut self.out, c);
            proof {
                let a = chars@.take(i as int);
                assert(chars@.take(i + 1) =~= a + seq![c]);
                lemma_percent_encoded_concat(a, seq![c]);
                lemma_percent_encoded_single(c);
                lemma_encode_utf8_concat(percent_encoded(a), escape_char(c));
            }
            i = i + 1;
        }
        push_str_utf8(&mut self.out, "\n");
        proof {
            assert(chars@.take(n as int) =~= data@);
            lemma_encode_utf8_concat("D "@, percent_encoded(data@));
            lemma_encode_utf8_concat("D "@ + percent_encoded(data@), "\n"@);
        }
        assert(self.out@ =~= start + encode_utf8(data_line(data@)));
    }

    /// Queues an `ERR` line.
    pub fn send_error(&mut self, code: u32, msg: &str)
        ensures
            final(self)@ == old(self)@ + encode_utf8(error_line(code as nat, msg@)),
    {
        let ghost start = self.out@;
        push_str_utf8(&mut self.out, "ERR ");
        let digits = decimal_chars(code as u64);
        push_chars_utf8(&mut self.out, digits.as_slice());
        push_str_utf8(&mut self.out, " ");
        push_str_utf8(&mut self.out, msg);
        push_str_utf8(&mut self.out, "\n");
        proof {
            let a = "ERR "@;
            let b = decimal(code as nat);
            lemma_encode_utf8_concat(a, b);
            lemma_encode_utf8_concat(a + b, " "@);
            lemma_encode_utf8_concat(a + b + " "@, msg@);
            lemma_encode_utf8_concat(a + b + " "@ + msg@, "\n"@);
        }
        assert(self.out@ =~= start + encode_utf8(error_line(code as nat, msg@)));
    }

    /// Queues the greeting.
    pub fn send_greeting(&mut self)
        ensures
            final(self)@ == old(self)@ + encode_utf8(greeting_line()),
    {
        push_str_utf8(&mut self.out, "OK Pleased to meet you - pinentry-fprint\n");
    }

    /// The command on a line read from gpg-agent, its trailing white space
    /// dropped; none where the input has ended or could not be read.
    pub fn read_command(&self, line: Option<&str>) -> (c: Option<Command>)
        ensures
            line is None ==> c is None,
            line matches Some(l) ==> c matches Some(cmd) && cmd@ == spec_parse_command(
                trim_end(l@),
            ),
    {
        match line {
            None => None,
            Some(l) => {
                let chars = chars_of(l);
                let k = trim_end_len(chars.as_slice());
                let head = sub_chars(chars.as_slice(), 0, k);
                let trimmed = string_from_chars(head.as_slice());
                Some(parse_command(trimmed.as_str()))
            },
        }
    }

    /// Hands over what is queued, leaving nothing queued.
    pub fn take_output(&mut self) -> (bytes: Vec<u8>)
        ensures
            bytes@ == old(self)@,
            final(self)@ == Seq::<u8>::empty(),
    {
        let mut bytes: Vec<u8> = Vec::new();
        std::mem::swap(&mut bytes, &mut self.out);
        bytes
    }
}

} // verus!

verus! {

// ---------------------------------------------------------------------------
// Laws of escaping
// ---------------------------------------------------------------------------

proof fn lemma_escaped_bytes(s: Seq<char>)
    ensures
        percent_decoded_bytes(percent_encoded(s)) == encode_utf8(s),
    decreases s.len(),
{
    if s.len() == 0 {
        assert(percent_encoded(s) =~= Seq::<char>::empty());
        assert(encode_utf8(s) =~= Seq::<u8>::empty());
    } else {
        let c = s[0];
        let rest = s.drop_first();
        let e = percent_encoded(s);
        let pr = percent_encoded(rest);
        lemma_escaped_bytes(rest);
        assert(s =~= seq![c] + rest);
        lemma_encode_utf8_concat(seq![c], rest);
        lemma_encode_utf8_single(c);
        assert(e == escape_char(c) + pr);
        if c == '%' || c == '\n' || c == '\r' {
            let h = escape_char(c).drop_first();
            assert(e[0] == '%');
            assert(e.drop_first() =~= h + pr);
            assert((h + pr).take(2) =~= h);
            assert((h + pr).skip(2) =~= pr);
            if c == '%' {
                assert(hex_byte(h) == Some(0x25u8));
                assert(((0x25u32 & 0x7F) as u8) == 0x25u8) by (bit_vector);
                assert(encode_scalar(c as u32) =~= seq![0x25u8]);
            } else if c == '\n' {
                assert(hex_byte(h) == Some(0x0Au8));
                assert(((0x0Au32 & 0x7F) as u8) == 0x0Au8) by (bit_vector);
                assert(encode_scalar(c as u32) =~= seq![0x0Au8]);
            } else {
                assert(hex_byte(h) == Some(0x0Du8));
                assert(((0x0Du32 & 0x7F) as u8) == 0x0Du8) by (bit_vector);
                assert(encode_scalar(c as u32) =~= seq![0x0Du8]);
            }
            assert(percent_decoded_bytes(e) =~= encode_utf8(s));
        } else {
            assert(e[0] == c);
            assert(e.drop_first() =~= pr);
            assert(percent_decoded_bytes(e) =~= encode_utf8(s));
        }
    }
}

/// Percent-decoding undoes the escaping of data lines: the text that a `D`
/// line carries decodes back to the text that was sent.
pub proof fn law_percent_decode_undoes_escaping(s: Seq<char>)
    ensures
        spec_percent_decode(percent_encoded(s)) == s,
{
    lemma_escaped_bytes(s);
    encode_utf8_valid_utf8(s);
    encode_utf8_decode_utf8(s);
}

/// Escaped data holds no line ending, so a data line stays one line.
pub proof fn law_escaped_data_has_no_line_break(s: Seq<char>)
    ensures
        forall|i: int|
            0 <= i < percent_encoded(s).len() ==> percent_encoded(s)[i] != '\n'
                && percent_encoded(s)[i] != '\r',
    decreases s.len(),
{
    if s.len() > 0 {
        law_escaped_data_has_no_line_break(s.drop_first());
        let h = escape_char(s[0]);
        assert(percent_encoded(s) == h + percent_encoded(s.drop_first()));
        assert forall|i: int| 0 <= i < h.len() implies h[i] != '\n' && h[i] != '\r' by {}
    }
}

} // verus!

verus! {

// ---------------------------------------------------------------------------
// Laws of command lines
// ---------------------------------------------------------------------------

proof fn lemma_index_of_after_word(w: Seq<char>, a: Seq<char>)
    requires
        forall|i: int| 0 <= i < w.len() ==> w[i] != ' ',
    ensures
        index_of(w + seq![' '] + a, ' ') == Some(w.len() as int),
    decreases w.len(),
{
    let s = w + seq![' '] + a;
    if w.len() == 0 {
        assert(s[0] == ' ');
    } else {
        assert(s[0] == w[0]);
        assert(s.drop_first() =~= w.drop_first() + seq![' '] + a);
        lemma_index_of_after_word(w.drop_first(), a);
    }
}

/// A command word without spaces, a space and arguments split into exactly
/// that word and those arguments.
pub proof fn law_split_after_word(w: Seq<char>, a: Seq<char>)
    requires
        forall|i: int| 0 <= i < w.len() ==> w[i] != ' ',
    ensures
        split_at_space(w + seq![' '] + a) == (w, a),
{
    lemma_index_of_after_word(w, a);
    let s = w + seq![' '] + a;
    assert(s.take(w.len() as int) =~= w);
    assert(s.skip(w.len() as int + 1) =~= a);
}

proof fn lemma_escaped_last(d: Seq<char>)
    requires
        d.len() > 0,
    ensures
        percent_encoded(d).len() > 0,
        percent_encoded(d).last() == escape_char(d.last()).last(),
{
    assert(d =~= d.drop_last() + seq![d.last()]);
    lemma_percent_encoded_concat(d.drop_last(), seq![d.last()]);
    lemma_percent_encoded_single(d.last());
}

proof fn lemma_setdesc_empty()
    ensures
        spec_parse_command(trim_end("SETDESC "@)) == CommandView::SetDesc(Seq::<char>::empty()),
{
    reveal_strlit("SETDESC ");
    reveal_strlit("SETDESC");
    let x = "SETDESC "@;
    let w = "SETDESC"@;
    assert(x.drop_last() =~= w);
    assert(is_white_space(x.last()));
    assert(trim_end(x) == trim_end(w));
    assert(!is_white_space(w.last()));
    assert(trim_end(w) == w);
    lemma_index_of(w, ' ');
    assert(index_of(w, ' ') is None);
    law_percent_decode_undoes_escaping(Seq::<char>::empty());
    assert(percent_encoded(Seq::<char>::empty()) =~= Seq::<char>::empty());
}

proof fn lemma_setdesc_nonempty(d: Seq<char>)
    requires
        d.len() > 0,
        !(is_white_space(d.last()) && d.last() != '\n' && d.last() != '\r'),
    ensures
        spec_parse_command(trim_end("SETDESC "@ + percent_encoded(d))) == CommandView::SetDesc(d),
{
    reveal_strlit("SETDESC ");
    reveal_strlit("SETDESC");
    let x = "SETDESC "@ + percent_encoded(d);
    lemma_escaped_last(d);
    assert(x.last() == percent_encoded(d).last());
    assert(!is_white_space(x.last()));
    assert(trim_end(x) == x);
    assert("SETDESC "@ =~= "SETDESC"@ + seq![' ']);
    assert(x == "SETDESC"@ + seq![' '] + percent_encoded(d));
    law_split_after_word("SETDESC"@, percent_encoded(d));
    law_percent_decode_undoes_escaping(d);
}

/// A description that gpg-agent sends escaped, `SETDESC` and a line ending
/// around it, is read back exactly (unless it ends in white space other than
/// a line ending, which the line's trimming removes).
pub proof fn law_setdesc_reads_back_escaped_text(d: Seq<char>)
    requires
        !(d.len() > 0 && is_white_space(d.last()) && d.last() != '\n' && d.last() != '\r'),
    ensures
        spec_parse_command(trim_end("SETDESC "@ + percent_encoded(d) + "\n"@)) == CommandView::SetDesc(
            d,
        ),
{
    reveal_strlit("\n");
    let x = "SETDESC "@ + percent_encoded(d);
    let line = x + "\n"@;
    assert(line.drop_last() =~= x);
    assert(is_white_space(line.last()));
    assert(trim_end(line) == trim_end(x));
    if d.len() == 0 {
        assert(percent_encoded(d) =~= Seq::<char>::empty());
        assert(x =~= "SETDESC "@);
        lemma_setdesc_empty();
    } else {
        lemma_setdesc_nonempty(d);
    }
}

} // verus!

verus! {

/// The key info of `SETKEYINFO` is taken as it stands, spaces and percent
/// signs included.
pub proof fn law_keyinfo_is_verbatim(a: Seq<char>)
    ensures
        spec_parse_command("SETKEYINFO "@ + a) == CommandView::SetKeyInfo(a),
{
    reveal_strlit("SETKEYINFO ");
    reveal_strlit("SETKEYINFO");
    reveal_strlit("SETDESC");
    reveal_strlit("SETERROR");
    assert("SETKEYINFO "@ =~= "SETKEYINFO"@ + seq![' ']);
    law_split_after_word("SETKEYINFO"@, a);
    assert(split_at_space("SETKEYINFO "@ + a).0 == "SETKEYINFO"@);
    assert("SETKEYINFO"@ != "SETDESC"@) by {
        assert("SETKEYINFO"@.len() != "SETDESC"@.len());
    }
    assert("SETKEYINFO"@ != "SETERROR"@) by {
        assert("SETKEYINFO"@.len() != "SETERROR"@.len());
    }
}

} // verus!
