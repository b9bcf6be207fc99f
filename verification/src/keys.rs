//! The secret keys that `gpg --list-secret-keys --with-keygrip --with-colons`
//! reports, the menu that offers them, and the choice made from it.
use vstd::prelude::*;
use vstd::string::StringSliceAdditionalSpecFns;
use vstd::utf8::*;

use crate::assuan::{trim_end, trim_end_len, trim_start, white_space};
use crate::text::{
    char_views, chars_eq_str, chars_of, decimal, decimal_chars, lemma_split_on_nonempty,
    split_chars, split_on, string_from_chars, sub_chars, append_chars, append_str,
};

verus! {

broadcast use vstd::seq_lib::group_seq_properties;

/// A secret key: its first user id, its fingerprint and the keygrips of the
/// key and its subkeys.
pub struct KeyInfo {
    pub uid: String,
    pub fingerprint: String,
    pub keygrips: Vec<String>,
}

/// `KeyInfo` with texts as character sequences.
pub struct KeyView {
    pub uid: Seq<char>,
    pub fingerprint: Seq<char>,
    pub keygrips: Seq<Seq<char>>,
}

/// The views of a sequence of strings.
pub open spec fn string_views(v: Seq<String>) -> Seq<Seq<char>> {
    v.map_values(|s: String| s@)
}

impl View for KeyInfo {
    type V = KeyView;

    open spec fn view(&self) -> KeyView {
        KeyView {
            uid: self.uid@,
            fingerprint: self.fingerprint@,
            keygrips: string_views(self.keygrips@),
        }
    }
}

/// The views of a sequence of keys.
pub open spec fn key_views(v: Seq<KeyInfo>) -> Seq<KeyView> {
    v.map_values(|k: KeyInfo| k@)
}

/// The view of a key that may be absent.
pub open spec fn opt_key_view(k: Option<KeyInfo>) -> Option<KeyView> {
    match k {
        Some(k) => Some(k@),
        None => None,
    }
}

// ---------------------------------------------------------------------------
// Lines and fields
// ---------------------------------------------------------------------------

/// A line without a carriage return at its end.
pub open spec fn strip_cr(l: Seq<char>) -> Seq<char> {
    if l.len() > 0 && l.last() == '\r' {
        l.drop_last()
    } else {
        l
    }
}

/// Each piece without a carriage return at its end.
pub open spec fn strip_cr_all(pieces: Seq<Seq<char>>) -> Seq<Seq<char>> {
    pieces.map_values(|p: Seq<char>| strip_cr(p))
}

/// The lines of a text (`str::lines`): split at line feeds, a carriage
/// return before a line feed dropped, and no empty line after a final line
/// feed.
pub open spec fn text_lines(s: Seq<char>) -> Seq<Seq<char>> {
    let pieces = split_on(s, '\n');
    let init = strip_cr_all(pieces.drop_last());
    if pieces.last().len() == 0 {
        init
    } else {
        init.push(pieces.last())
    }
}

fn strip_cr_chars(l: &[char]) -> (v: Vec<char>)
    ensures
        v@ == strip_cr(l@),
{
    let n = l.len();
    if n > 0 && l[n - 1] == '\r' {
        sub_chars(l, 0, n - 1)
    } else {
        sub_chars(l, 0, n)
    }
}

/// The lines of a text.
pub fn lines_of(text: &str) -> (lines: Vec<Vec<char>>)
    ensures
        char_views(lines@) == text_lines(text@),
{
    let chars = chars_of(text);
    let pieces = split_chars(chars.as_slice(), '\n');
    let ghost sp = split_on(text@, '\n');
    let m = pieces.len();
    assert(sp.len() == m);
    let mut lines: Vec<Vec<char>> = Vec::new();
    let mut j: usize = 0;
    while j + 1 < m
        invariant
            m == pieces@.len(),
            m >= 1,
            char_views(pieces@) == sp,
            j + 1 <= m,
            sp.len() == m,
            lines@.len() == j,
            char_views(lines@) == strip_cr_all(sp.take(j as int)),
        decreases m - j,
    {
        let l = strip_cr_chars(pieces[j].as_slice());
        let ghost before = lines@;
        lines.push(l);
        proof {
            assert(sp[j as int] == pieces@[j as int]@);
            assert(sp.take(j + 1) =~= sp.take(j as int).push(sp[j as int]));
            assert(lines@ == before.push(l));
            assert(char_views(lines@) =~= char_views(before).push(l@));
            assert(char_views(lines@)[j as int] == strip_cr(sp[j as int]));
            assert(char_views(lines@) =~= strip_cr_all(sp.take(j + 1)));
        }
        j = j + 1;
    }
    assert(j == m - 1);
    assert(sp.drop_last() =~= sp.take(j as int));
    assert(strip_cr_all(sp.drop_last()) == strip_cr_all(sp.take(j as int)));
    assert(sp.last() == pieces@[j as int]@);
    if pieces[j].len() > 0 {
        let last = sub_chars(pieces[j].as_slice(), 0, pieces[j].len());
        let ghost before = lines@;
        lines.push(last);
        assert(last@ =~= sp.last());
        assert(char_views(lines@) =~= char_views(before).push(last@));
        assert(char_views(lines@) =~= text_lines(text@));
    } else {
        assert(char_views(lines@) =~= text_lines(text@));
    }
    lines
}

// ---------------------------------------------------------------------------
// The key listing
// ---------------------------------------------------------------------------

/// A key with nothing recorded yet.
pub open spec fn empty_key() -> KeyView {
    KeyView { uid: Seq::empty(), fingerprint: Seq::empty(), keygrips: Seq::empty() }
}

/// The tenth field of a record, where there is one.
pub open spec fn tenth_field(fields: Seq<Seq<char>>) -> Option<Seq<char>> {
    if fields.len() > 9 {
        Some(fields[9])
    } else {
        None
    }
}

/// The keys finished so far, and the key being read.
pub type ListingState = (Seq<KeyView>, Option<KeyView>);

/// What one record of the listing does: `sec` starts a key, `fpr` and `uid`
/// set the first fingerprint and user id of the key being read, `grp` adds a
/// non-empty keygrip to it; other records are skipped.
pub open spec fn listing_step(st: ListingState, line: Seq<char>) -> ListingState {
    let fields = split_on(line, ':');
    let tag = fields[0];
    let keys = st.0;
    let cur = st.1;
    if tag == "sec"@ {
        (
            match cur {
                Some(k) => keys.push(k),
                None => keys,
            },
            Some(empty_key()),
        )
    } else if tag == "fpr"@ {
        match cur {
            Some(k) => if k.fingerprint.len() == 0 {
                (
                    keys,
                    Some(
                        KeyView {
                            fingerprint: match tenth_field(fields) {
                                Some(f) => f,
                                None => Seq::empty(),
                            },
                            ..k
                        },
                    ),
                )
            } else {
                st
            },
            None => st,
        }
    } else if tag == "uid"@ {
        match cur {
            Some(k) => if k.uid.len() == 0 {
                (
                    keys,
                    Some(
                        KeyView {
                            uid: match tenth_field(fields) {
                                Some(f) => f,
                                None => Seq::empty(),
                            },
                            ..k
                        },
                    ),
                )
            } else {
                st
            },
            None => st,
        }
    } else if tag == "grp"@ {
        match cur {
            Some(k) => match tenth_field(fields) {
                Some(g) => if g.len() > 0 {
                    (keys, Some(KeyView { keygrips: k.keygrips.push(g), ..k }))
                } else {
                    st
                },
                None => st,
            },
            None => st,
        }
    } else {
        st
    }
}

/// The state after reading the given records in order.
pub open spec fn listing_state(lines: Seq<Seq<char>>) -> ListingState
    decreases lines.len(),
{
    if lines.len() == 0 {
        (Seq::empty(), None)
    } else {
        listing_step(listing_state(lines.drop_last()), lines.last())
    }
}

/// The keys of a listing, in the order in which they appear.
pub open spec fn spec_parse_keys(text: Seq<char>) -> Seq<KeyView> {
    let st = listing_state(text_lines(text));
    match st.1 {
        Some(k) => st.0.push(k),
        None => st.0,
    }
}

fn tenth_field_string(fields: &Vec<Vec<char>>) -> (r: String)
    ensures
        r@ == match tenth_field(char_views(fields@)) {
            Some(f) => f,
            None => Seq::empty(),
        },
{
    if fields.len() > 9 {
        string_from_chars(fields[9].as_slice())
    } else {
        String::new()
    }
}

fn apply_record(keys: &mut Vec<KeyInfo>, cur: &mut Option<KeyInfo>, line: &[char])
    ensures
        (key_views(final(keys)@), opt_key_view(*final(cur))) == listing_step(
            (key_views(old(keys)@), opt_key_view(*old(cur))),
            line@,
        ),
{
    let fields = split_chars(line, ':');
    let ghost fv = char_views(fields@);
    assert(fv == split_on(line@, ':'));
    assert(fv[0] == fields@[0]@);
    let tag = fields[0].as_slice();
    let ghost st = (key_views(keys@), opt_key_view(*cur));
    if chars_eq_str(tag, "sec") {
        let prev = cur.take();
        match prev {
            Some(k) => {
                keys.push(k);
            },
            None => {},
        }
        *cur = Some(KeyInfo { uid: String::new(), fingerprint: String::new(), keygrips: Vec::new() });
        assert(string_views(Seq::<String>::empty()) =~= Seq::<Seq<char>>::empty());
        assert(key_views(keys@) =~= listing_step(st, line@).0);
    } else if chars_eq_str(tag, "fpr") {
        let prev = cur.take();
        match prev {
            Some(k) => {
                if k.fingerprint.as_str().is_empty() {
                    let f = tenth_field_string(&fields);
                    *cur = Some(KeyInfo { uid: k.uid, fingerprint: f, keygrips: k.keygrips });
                } else {
                    *cur = Some(k);
                }
            },
            None => {},
        }
    } else if chars_eq_str(tag, "uid") {
        let prev = cur.take();
        match prev {
            Some(k) => {
                if k.uid.as_str().is_empty() {
                    let u = tenth_field_string(&fields);
                    *cur = Some(KeyInfo { uid: u, fingerprint: k.fingerprint, keygrips: k.keygrips });
                } else {
                    *cur = Some(k);
                }
            },
            None => {},
        }
    } else if chars_eq_str(tag, "grp") {
        let prev = cur.take();
        match prev {
            Some(k) => {
                if fields.len() > 9 && fields[9].len() > 0 {
                    let g = string_from_chars(fields[9].as_slice());
                    let mut k = k;
                    let ghost before = k.keygrips@;
                    k.keygrips.push(g);
                    assert(string_views(k.keygrips@) =~= string_views(before).push(fv[9]));
                    *cur = Some(k);
                } else {
                    *cur = Some(k);
                }
            },
            None => {},
        }
    }
}

/// The keys that a listing reports.
pub fn parse_key_listing(text: &str) -> (keys: Vec<KeyInfo>)
    ensures
        key_views(keys@) == spec_parse_keys(text@),
{
    let lines = lines_of(text);
    let ghost lv = text_lines(text@);
    let n = lines.len();
    let mut keys: Vec<KeyInfo> = Vec::new();
    let mut cur: Option<KeyInfo> = None;
    let mut i: usize = 0;
    assert(lv.take(0) =~= Seq::<Seq<char>>::empty());
    assert(key_views(keys@) =~= Seq::<KeyView>::empty());
    while i < n
        invariant
            n == lines@.len(),
            char_views(lines@) == lv,
            i <= n,
            (key_views(keys@), opt_key_view(cur)) == listing_state(lv.take(i as int)),
        decreases n - i,
    {
        apply_record(&mut keys, &mut cur, lines[i].as_slice());
        proof {
            assert(lv.take(i + 1).drop_last() =~= lv.take(i as int));
            assert(lv.take(i + 1).last() == lines@[i as int]@);
        }
        i = i + 1;
    }
    assert(lv.take(n as int) =~= lv);
    match cur {
        Some(k) => {
            keys.push(k);
        },
        None => {},
    }
    keys
}

} // verus!

verus! {

// ---------------------------------------------------------------------------
// The menu
// ---------------------------------------------------------------------------

/// The part of a fingerprint shown in the menu: at most its first sixteen
/// bytes.
pub open spec fn fingerprint_head(fp: Seq<char>) -> Seq<char> {
    let b = encode_utf8(fp);
    decode_utf8(
        b.subrange(
            0,
            if b.len() < 16 {
                b.len() as int
            } else {
                16
            },
        ),
    )
}

/// The number of subkeys: one keygrip belongs to the primary key.
pub open spec fn subkey_count(k: KeyView) -> nat {
    if k.keygrips.len() == 0 {
        0
    } else {
        (k.keygrips.len() - 1) as nat
    }
}

/// The menu line that offers a key, numbered from one.
pub open spec fn spec_menu_line(index: nat, k: KeyView) -> Seq<char> {
    "  ["@ + decimal(index + 1) + "] "@ + k.uid + " ("@ + fingerprint_head(k.fingerprint)
        + "... | "@ + decimal(subkey_count(k)) + " subkey(s))"@
}

/// True when the menu can cut the fingerprint after sixteen bytes.
pub open spec fn fingerprint_cuttable(fp: Seq<char>) -> bool {
    encode_utf8(fp).len() <= 16 || is_char_boundary(encode_utf8(fp), 16)
}

/// The line that offers the key at the given position (counted from zero)
/// in the menu. The fingerprint is cut after sixteen bytes, which must fall
/// between two characters.
pub fn menu_line(index: usize, key: &KeyInfo) -> (line: String)
    requires
        index < usize::MAX,
        fingerprint_cuttable(key.fingerprint@),
    ensures
        line@ == spec_menu_line(index as nat, key@),
{
    let fp = key.fingerprint.as_str();
    let blen = fp.as_bytes().len();
    let cut: usize = if blen < 16 {
        blen
    } else {
        16
    };
    proof {
        encode_utf8_valid_utf8(fp@);
        vstd::utf8::is_char_boundary_start_end_of_seq(encode_utf8(fp@));
    }
    assert(fp.spec_bytes() == encode_utf8(fp@));
    assert(blen == encode_utf8(fp@).len());
    assert(is_char_boundary(encode_utf8(fp@), encode_utf8(fp@).len() as int));
    assert(is_char_boundary(fp.spec_bytes(), cut as int));
    let (head, _tail) = fp.split_at(cut);
    proof {
        encode_utf8_decode_utf8(head@);
        assert(head.spec_bytes() == encode_utf8(head@));
        assert(encode_utf8(head@) =~= encode_utf8(fp@).subrange(0, cut as int));
        assert(head@ == fingerprint_head(fp@));
    }
    let grips = key.keygrips.len();
    let subkeys: usize = if grips == 0 {
        0
    } else {
        grips - 1
    };
    let mut v: Vec<char> = Vec::new();
    append_str(&mut v, "  [");
    let num = decimal_chars((index + 1) as u64);
    append_chars(&mut v, num.as_slice());
    append_str(&mut v, "] ");
    append_str(&mut v, key.uid.as_str());
    append_str(&mut v, " (");
    append_str(&mut v, head);
    append_str(&mut v, "... | ");
    let sub = decimal_chars(subkeys as u64);
    append_chars(&mut v, sub.as_slice());
    append_str(&mut v, " subkey(s))");
    assert(v@ =~= spec_menu_line(index as nat, key@));
    string_from_chars(v.as_slice())
}

// ---------------------------------------------------------------------------
// The choice
// ---------------------------------------------------------------------------

/// What the user chose from the menu.
pub enum Selection {
    /// Leave without registering anything.
    Quit,
    /// Every key.
    All,
    /// The key at this position (counted from zero).
    One(usize),
    /// Input that names no key.
    Invalid,
}

/// True for an ASCII decimal digit.
pub open spec fn is_digit(c: char) -> bool {
    0x30 <= (c as u32) <= 0x39
}

/// True when every character is a decimal digit.
pub open spec fn all_digits(s: Seq<char>) -> bool {
    forall|i: int| 0 <= i < s.len() ==> is_digit(s[i])
}

/// The value of a string of decimal digits.
pub open spec fn digits_value(s: Seq<char>) -> nat
    decreases s.len(),
{
    if s.len() == 0 {
        0
    } else {
        digits_value(s.drop_last()) * 10 + ((s.last() as u32) - 0x30) as nat
    }
}

/// What `str::parse::<usize>` gives: an optional `+`, then one or more
/// decimal digits whose value fits in `usize`.
pub open spec fn spec_parse_usize(s: Seq<char>) -> Option<usize> {
    let digits = if s.len() > 1 && s[0] == '+' {
        s.drop_first()
    } else {
        s
    };
    if digits.len() > 0 && all_digits(digits) && digits_value(digits) <= usize::MAX {
        Some(digits_value(digits) as usize)
    } else {
        None
    }
}

proof fn lemma_digits_step(digits: Seq<char>, k: int)
    requires
        0 <= k < digits.len(),
    ensures
        digits_value(digits.take(k + 1)) == digits_value(digits.take(k)) * 10 + ((digits[k] as u32)
            - 0x30) as nat,
{
    assert(digits.take(k + 1).drop_last() =~= digits.take(k));
    assert(digits.take(k + 1).last() == digits[k]);
}

proof fn lemma_exceeds(value: nat, d: nat)
    by (nonlinear_arith)
    requires
        d <= 9,
        value > (usize::MAX - d) / 10,
    ensures
        value * 10 + d > usize::MAX,
{
}

proof fn lemma_fits(value: nat, d: nat)
    by (nonlinear_arith)
    requires
        d <= 9,
        value <= (usize::MAX - d) / 10,
    ensures
        value * 10 + d <= usize::MAX,
{
}

proof fn lemma_grows(v: nat, d: nat)
    ensures
        v * 10 + d >= v,
{
}

/// Parses a number as `str::parse::<usize>` does.
pub fn parse_usize(s: &[char]) -> (r: Option<usize>)
    ensures
        r == spec_parse_usize(s@),
{
    let n = s.len();
    let start: usize = if n > 1 && s[0] == '+' {
        1
    } else {
        0
    };
    let ghost digits = if n > 1 && s@[0] == '+' {
        s@.drop_first()
    } else {
        s@
    };
    assert(digits =~= s@.skip(start as int));
    if start == n {
        return None;
    }
    let mut value: usize = 0;
    let mut i: usize = start;
    let mut overflow = false;
    assert(digits.take(0) =~= Seq::<char>::empty());
    while i < n
        invariant
            n == s@.len(),
            start <= i <= n,
            digits == s@.skip(start as int),
            digits == (if s@.len() > 1 && s@[0] == '+' {
                s@.drop_first()
            } else {
                s@
            }),
            forall|j: int| 0 <= j < i - start ==> is_digit(digits[j]),
            !overflow ==> value == digits_value(digits.take(i - start)),
            overflow ==> digits_value(digits.take(i - start)) > usize::MAX,
        decreases n - i,
    {
        let c = s[i];
        let u: u32 = c as u32;
        if !(0x30 <= u && u <= 0x39) {
            assert(digits[i - start] == c);
            assert(!is_digit(digits[i - start]));
            assert(i - start < digits.len());
            assert(!all_digits(digits));
            return None;
        }
        let d: usize = (u - 0x30) as usize;
        let ghost k = i - start;
        assert(digits[k] == c);
        proof {
            lemma_digits_step(digits, k);
        }
        if !overflow {
            if value > (usize::MAX - d) / 10 {
                overflow = true;
                proof {
                    lemma_exceeds(value as nat, d as nat);
                }
            } else {
                proof {
                    lemma_fits(value as nat, d as nat);
                }
                value = value * 10 + d;
            }
        } else {
            proof {
                lemma_grows(digits_value(digits.take(k)), d as nat);
            }
        }
        i = i + 1;
    }
    assert(digits.take(n - start) =~= digits);
    if overflow {
        None
    } else {
        Some(value)
    }
}

/// The trimmed text of an answer.
pub open spec fn trimmed(s: Seq<char>) -> Seq<char> {
    trim_start(trim_end(s))
}

/// The choice that an answer makes among `count` keys.
pub open spec fn spec_selection(input: Seq<char>, count: nat) -> Selection {
    let t = trimmed(input);
    if t == "q"@ || t == "Q"@ {
        Selection::Quit
    } else if t == "a"@ || t == "A"@ {
        Selection::All
    } else {
        match spec_parse_usize(t) {
            Some(i) => if 1 <= i <= count {
                Selection::One((i - 1) as usize)
            } else {
                Selection::Invalid
            },
            None => Selection::Invalid,
        }
    }
}

fn trim_start_from(s: &[char]) -> (k: usize)
    ensures
        k <= s@.len(),
        s@.skip(k as int) == trim_start(s@),
{
    let n = s.len();
    let mut k: usize = 0;
    assert(s@.skip(0) =~= s@);
    while k < n && white_space(s[k])
        invariant
            n == s@.len(),
            k <= n,
            trim_start(s@.skip(k as int)) == trim_start(s@),
        decreases n - k,
    {
        assert(s@.skip(k as int).drop_first() =~= s@.skip(k + 1));
        k = k + 1;
    }
    k
}

/// The characters of a text without white space at either end.
pub fn trim_chars(s: &str) -> (v: Vec<char>)
    ensures
        v@ == trimmed(s@),
{
    let chars = chars_of(s);
    let e = trim_end_len(chars.as_slice());
    let head = sub_chars(chars.as_slice(), 0, e);
    let b = trim_start_from(head.as_slice());
    sub_chars(head.as_slice(), b, e)
}

/// Reads the user's choice among `count` keys.
pub fn parse_selection(input: &str, count: usize) -> (sel: Selection)
    ensures
        sel == spec_selection(input@, count as nat),
{
    let t = trim_chars(input);
    let ts = t.as_slice();
    if chars_eq_str(ts, "q") || chars_eq_str(ts, "Q") {
        Selection::Quit
    } else if chars_eq_str(ts, "a") || chars_eq_str(ts, "A") {
        Selection::All
    } else {
        match parse_usize(ts) {
            Some(i) => if 1 <= i && i <= count {
                Selection::One(i - 1)
            } else {
                Selection::Invalid
            },
            None => Selection::Invalid,
        }
    }
}

/// All keygrips of the given keys, key after key.
pub open spec fn all_grips(keys: Seq<KeyView>) -> Seq<Seq<char>>
    decreases keys.len(),
{
    if keys.len() == 0 {
        Seq::empty()
    } else {
        all_grips(keys.drop_last()) + keys.last().keygrips
    }
}

/// The keygrips that a choice selects.
pub open spec fn spec_selected_grips(keys: Seq<KeyView>, sel: Selection) -> Seq<Seq<char>> {
    match sel {
        Selection::All => all_grips(keys),
        Selection::One(i) => if i < keys.len() {
            keys[i as int].keygrips
        } else {
            Seq::empty()
        },
        _ => Seq::empty(),
    }
}

fn append_grips(out: &mut Vec<String>, key: &KeyInfo)
    ensures
        string_views(final(out)@) == string_views(old(out)@) + key@.keygrips,
{
    let n = key.keygrips.len();
    let mut i: usize = 0;
    let ghost start = string_views(out@);
    while i < n
        invariant
            n == key.keygrips@.len(),
            i <= n,
            string_views(out@) == start + string_views(key.keygrips@).take(i as int),
        decreases n - i,
    {
        let g = key.keygrips[i].clone();
        let ghost before = out@;
        out.push(g);
        assert(string_views(out@) =~= string_views(before).push(g@));
        assert(string_views(key.keygrips@).take(i + 1) =~= string_views(key.keygrips@).take(
            i as int,
        ).push(g@));
        i = i + 1;
    }
    assert(string_views(key.keygrips@).take(n as int) =~= string_views(key.keygrips@));
}

/// The keygrips that a choice selects, in menu order.
pub fn selected_keygrips(keys: &Vec<KeyInfo>, sel: &Selection) -> (grips: Vec<String>)
    ensures
        string_views(grips@) == spec_selected_grips(key_views(keys@), *sel),
{
    let mut out: Vec<String> = Vec::new();
    assert(string_views(out@) =~= Seq::<Seq<char>>::empty());
    match sel {
        Selection::All => {
            let n = keys.len();
            let mut i: usize = 0;
            assert(key_views(keys@).take(0) =~= Seq::<KeyView>::empty());
            while i < n
                invariant
                    n == keys@.len(),
                    i <= n,
                    string_views(out@) == all_grips(key_views(keys@).take(i as int)),
                decreases n - i,
            {
                append_grips(&mut out, &keys[i]);
                proof {
                    let kv = key_views(keys@);
                    assert(kv.take(i + 1).drop_last() =~= kv.take(i as int));
                    assert(kv.take(i + 1).last() == keys@[i as int]@);
                }
                i = i + 1;
            }
            assert(key_views(keys@).take(n as int) =~= key_views(keys@));
        },
        Selection::One(i) => {
            if *i < keys.len() {
                append_grips(&mut out, &keys[*i]);
            }
        },
        _ => {},
    }
    out
}

} // verus!

verus! {

// ---------------------------------------------------------------------------
// Laws
// ---------------------------------------------------------------------------

proof fn lemma_digit_char(d: nat)
    requires
        d < 10,
    ensures
        (crate::text::digit_char(d) as u32) == d + 0x30,
{
}

proof fn lemma_decimal_digits(n: nat)
    ensures
        decimal(n).len() >= 1,
        all_digits(decimal(n)),
        digits_value(decimal(n)) == n,
    decreases n,
{
    lemma_digit_char(n % 10);
    if n < 10 {
        assert(decimal(n) =~= seq![crate::text::digit_char(n)]);
        assert(decimal(n).drop_last() =~= Seq::<char>::empty());
        assert(decimal(n).last() == crate::text::digit_char(n));
        assert(n % 10 == n);
        assert(digits_value(Seq::<char>::empty()) == 0);
        assert(digits_value(decimal(n)) == digits_value(decimal(n).drop_last()) * 10 + ((decimal(n).last() as u32) - 0x30) as nat);
        assert(digits_value(decimal(n)) == n);
    } else {
        lemma_decimal_digits(n / 10);
        let prev = decimal(n / 10);
        assert(decimal(n) == prev.push(crate::text::digit_char(n % 10)));
        assert(decimal(n).drop_last() =~= prev);
        assert(decimal(n).last() == crate::text::digit_char(n % 10));
        assert(digits_value(decimal(n)) == n / 10 * 10 + n % 10);
        assert forall|i: int| 0 <= i < decimal(n).len() implies is_digit(decimal(n)[i]) by {
            if i < prev.len() {
                assert(decimal(n)[i] == prev[i]);
            }
        }
    }
}

/// The number that the menu shows for a key selects that key: answering
/// `i + 1` (counted from one) among `count` keys chooses the key at `i`.
pub proof fn law_menu_number_selects_key(i: nat, count: nat)
    requires
        i < count,
        count <= usize::MAX,
    ensures
        spec_selection(decimal(i + 1), count) == Selection::One(i as usize),
{
    let t = decimal(i + 1);
    lemma_decimal_digits(i + 1);
    assert(is_digit(t[0]));
    assert(is_digit(t.last()));
    assert(!crate::assuan::is_white_space(t.last()));
    assert(trim_end(t) == t);
    assert(!crate::assuan::is_white_space(t[0]));
    assert(trim_start(t) == t);
    reveal_strlit("q");
    reveal_strlit("Q");
    reveal_strlit("a");
    reveal_strlit("A");
    assert(t != "q"@ && t != "Q"@ && t != "a"@ && t != "A"@) by {
        if t.len() == 1 {
            assert(t[0] != 'q' && t[0] != 'Q' && t[0] != 'a' && t[0] != 'A');
        }
    }
    if t.len() > 1 {
        assert(t[0] != '+');
    }
    assert(spec_parse_usize(t) == Some((i + 1) as usize));
}

/// The number of `sec` records among some lines.
pub open spec fn count_sec(lines: Seq<Seq<char>>) -> nat
    decreases lines.len(),
{
    if lines.len() == 0 {
        0
    } else {
        count_sec(lines.drop_last()) + if split_on(lines.last(), ':')[0] == "sec"@ {
            1nat
        } else {
            0nat
        }
    }
}

proof fn lemma_listing_counts(lines: Seq<Seq<char>>)
    ensures
        ({
            let st = listing_state(lines);
            &&& st.0.len() + (if st.1 is Some {
                1nat
            } else {
                0nat
            }) == count_sec(lines)
            &&& (st.1 is Some <==> count_sec(lines) > 0)
            &&& forall|k: int, g: int|
                0 <= k < st.0.len() && 0 <= g < st.0[k].keygrips.len() ==> st.0[k].keygrips[g].len()
                    > 0
            &&& (st.1 matches Some(c) ==> forall|g: int|
                0 <= g < c.keygrips.len() ==> c.keygrips[g].len() > 0)
        }),
    decreases lines.len(),
{
    if lines.len() > 0 {
        lemma_listing_counts(lines.drop_last());
        lemma_split_on_nonempty(lines.last(), ':');
        let prev = listing_state(lines.drop_last());
        let st = listing_state(lines);
        assert(st == listing_step(prev, lines.last()));
        let fields = split_on(lines.last(), ':');
        if fields[0] == "sec"@ {
            match prev.1 {
                Some(k) => {
                    assert(st.0 == prev.0.push(k));
                    assert forall|j: int, g: int|
                        0 <= j < st.0.len() && 0 <= g < st.0[j].keygrips.len() implies st.0[j].keygrips[g].len()
                            > 0 by {
                        if j < prev.0.len() {
                            assert(st.0[j] == prev.0[j]);
                        }
                    }
                },
                None => {},
            }
        } else {
            reveal_strlit("sec");
            reveal_strlit("fpr");
            reveal_strlit("uid");
            reveal_strlit("grp");
            assert(st.0 == prev.0);
            match prev.1 {
                Some(k) => {
                    if fields[0] == "grp"@ {
                        match tenth_field(fields) {
                            Some(g) => {
                                if g.len() > 0 {
                                    let nk = k.keygrips.push(g);
                                    assert forall|x: int| 0 <= x < nk.len() implies nk[x].len() > 0 by {
                                        if x < k.keygrips.len() {
                                            assert(nk[x] == k.keygrips[x]);
                                        }
                                    }
                                }
                            },
                            None => {},
                        }
                    }
                },
                None => {},
            }
        }
    }
}

/// The listing yields one key per `sec` record, and every keygrip it records
/// is non-empty.
pub proof fn law_one_key_per_sec_record(text: Seq<char>)
    ensures
        spec_parse_keys(text).len() == count_sec(text_lines(text)),
        forall|k: int, g: int|
            0 <= k < spec_parse_keys(text).len() && 0 <= g < spec_parse_keys(text)[k].keygrips.len()
                ==> spec_parse_keys(text)[k].keygrips[g].len() > 0,
{
    let lines = text_lines(text);
    lemma_listing_counts(lines);
    let st = listing_state(lines);
    match st.1 {
        Some(c) => {
            let r = st.0.push(c);
            assert forall|k: int, g: int|
                0 <= k < r.len() && 0 <= g < r[k].keygrips.len() implies r[k].keygrips[g].len() > 0 by {
                if k < st.0.len() {
                    assert(r[k] == st.0[k]);
                }
            }
        },
        None => {},
    }
}

} // verus!

verus! {

proof fn lemma_all_grips_concat(a: Seq<KeyView>, b: Seq<KeyView>)
    ensures
        all_grips(a + b) == all_grips(a) + all_grips(b),
    decreases b.len(),
{
    if b.len() == 0 {
        assert(a + b =~= a);
        assert(all_grips(a) + all_grips(b) =~= all_grips(a));
    } else {
        assert((a + b).drop_last() =~= a + b.drop_last());
        assert((a + b).last() == b.last());
        lemma_all_grips_concat(a, b.drop_last());
        assert(all_grips(a + b) =~= all_grips(a) + all_grips(b));
    }
}

/// Choosing one key selects all keygrips of that key, the primary key's and
/// its subkeys', in order: exactly the part of the whole menu's keygrips that
/// belongs to that key.
pub proof fn law_one_key_selects_all_its_grips(keys: Seq<KeyView>, i: usize)
    requires
        i < keys.len(),
    ensures
        spec_selected_grips(keys, Selection::One(i)) == keys[i as int].keygrips,
        all_grips(keys) == all_grips(keys.take(i as int)) + spec_selected_grips(
            keys,
            Selection::One(i),
        ) + all_grips(keys.skip(i + 1)),
        spec_selected_grips(keys, Selection::One(i)).len() == keys[i as int].keygrips.len(),
{
    let k = i as int;
    assert(keys =~= keys.take(k) + seq![keys[k]] + keys.skip(k + 1));
    lemma_all_grips_concat(keys.take(k) + seq![keys[k]], keys.skip(k + 1));
    lemma_all_grips_concat(keys.take(k), seq![keys[k]]);
    let one = seq![keys[k]];
    assert(one.drop_last() =~= Seq::<KeyView>::empty());
    assert(all_grips(Seq::<KeyView>::empty()) =~= Seq::<Seq<char>>::empty());
    assert(all_grips(one) =~= keys[k].keygrips);
}

} // verus!
