//! Passphrases in the system keyring, through `secret-tool`: the command
//! lines, and what their outcomes mean.
use vstd::prelude::*;

use crate::text::{append_str, lossy_string, lossy_text, owned, string_from_chars};

verus! {

broadcast use vstd::seq_lib::group_seq_properties;

/// The views of a sequence of strings.
pub open spec fn strs(v: Seq<String>) -> Seq<Seq<char>> {
    v.map_values(|a: String| a@)
}

fn push_str(v: &mut Vec<String>, a: String)
    ensures
        strs(final(v)@) == strs(old(v)@).push(a@),
{
    v.push(a);
    assert(strs(v@) =~= strs(old(v)@).push(a@));
}

/// The program that reaches the keyring.
pub fn keyring_tool() -> (r: &'static str)
    ensures
        r@ == "secret-tool"@,
{
    "secret-tool"
}

/// The attributes under which a key's passphrase is kept.
pub open spec fn entry_attributes(key_id: Seq<char>) -> Seq<Seq<char>> {
    seq!["application"@, "pinentry-fprint"@, "key-id"@, key_id]
}

/// The arguments that store a passphrase (read from standard input) for a
/// key.
pub open spec fn spec_store_args(key_id: Seq<char>) -> Seq<Seq<char>> {
    seq!["store"@, "--label"@, "GPG Passphrase ("@ + key_id + ")"@] + entry_attributes(key_id)
}

/// The arguments that look up the passphrase of a key.
pub open spec fn spec_lookup_args(key_id: Seq<char>) -> Seq<Seq<char>> {
    seq!["lookup"@] + entry_attributes(key_id)
}

/// The arguments that store a passphrase for a key.
pub fn store_args(key_id: &str) -> (v: Vec<String>)
    ensures
        strs(v@) == spec_store_args(key_id@),
{
    let mut v: Vec<String> = Vec::new();
    push_str(&mut v, owned("store"));
    push_str(&mut v, owned("--label"));
    let mut label: Vec<char> = Vec::new();
    append_str(&mut label, "GPG Passphrase (");
    append_str(&mut label, key_id);
    append_str(&mut label, ")");
    push_str(&mut v, string_from_chars(label.as_slice()));
    push_str(&mut v, owned("application"));
    push_str(&mut v, owned("pinentry-fprint"));
    push_str(&mut v, owned("key-id"));
    push_str(&mut v, owned(key_id));
    assert(strs(v@) =~= spec_store_args(key_id@));
    v
}

/// The arguments that look up the passphrase of a key.
pub fn lookup_args(key_id: &str) -> (v: Vec<String>)
    ensures
        strs(v@) == spec_lookup_args(key_id@),
{
    let mut v: Vec<String> = Vec::new();
    push_str(&mut v, owned("lookup"));
    push_str(&mut v, owned("application"));
    push_str(&mut v, owned("pinentry-fprint"));
    push_str(&mut v, owned("key-id"));
    push_str(&mut v, owned(key_id));
    assert(strs(v@) =~= spec_lookup_args(key_id@));
    v
}

/// How storing went: the texts are those of the errors met.
pub enum StoreOutcome {
    /// `secret-tool` could not be started.
    SpawnFailed(String),
    /// The passphrase could not be written to it.
    WriteFailed(String),
    /// Waiting for it failed.
    WaitFailed(String),
    /// It exited, successfully or not.
    Exited(bool),
}

/// `StoreOutcome`, with texts as characters.
pub enum StoreOutcomeView {
    SpawnFailed(Seq<char>),
    WriteFailed(Seq<char>),
    WaitFailed(Seq<char>),
    Exited(bool),
}

impl View for StoreOutcome {
    type V = StoreOutcomeView;

    open spec fn view(&self) -> StoreOutcomeView {
        match self {
            StoreOutcome::SpawnFailed(e) => StoreOutcomeView::SpawnFailed(e@),
            StoreOutcome::WriteFailed(e) => StoreOutcomeView::WriteFailed(e@),
            StoreOutcome::WaitFailed(e) => StoreOutcomeView::WaitFailed(e@),
            StoreOutcome::Exited(ok) => StoreOutcomeView::Exited(*ok),
        }
    }
}

/// The error that an outcome reports, none when the passphrase was stored.
pub open spec fn spec_store_error(o: StoreOutcomeView) -> Option<Seq<char>> {
    match o {
        StoreOutcomeView::SpawnFailed(e) => Some("spawn secret-tool: "@ + e),
        StoreOutcomeView::WriteFailed(e) => Some("write: "@ + e),
        StoreOutcomeView::WaitFailed(e) => Some("wait: "@ + e),
        StoreOutcomeView::Exited(ok) => if ok {
            None
        } else {
            Some("secret-tool store failed"@)
        },
    }
}

fn prefixed(prefix: &str, e: &str) -> (r: String)
    ensures
        r@ == prefix@ + e@,
{
    let mut v: Vec<char> = Vec::new();
    append_str(&mut v, prefix);
    append_str(&mut v, e);
    string_from_chars(v.as_slice())
}

/// The result of storing a passphrase.
pub fn store_result(o: StoreOutcome) -> (r: Result<(), String>)
    ensures
        match r {
            Ok(()) => spec_store_error(o@) is None,
            Err(e) => spec_store_error(o@) == Some(e@),
        },
{
    match o {
        StoreOutcome::SpawnFailed(e) => Err(prefixed("spawn secret-tool: ", e.as_str())),
        StoreOutcome::WriteFailed(e) => Err(prefixed("write: ", e.as_str())),
        StoreOutcome::WaitFailed(e) => Err(prefixed("wait: ", e.as_str())),
        StoreOutcome::Exited(ok) => if ok {
            Ok(())
        } else {
            Err(owned("secret-tool store failed"))
        },
    }
}

/// The passphrase that a lookup found, from its decoded output: all of it,
/// when the lookup succeeded with some output.
pub open spec fn spec_lookup_from_text(success: bool, text: Seq<char>) -> Option<Seq<char>> {
    if success && text.len() > 0 {
        Some(text)
    } else {
        None
    }
}

/// The passphrase that a lookup found, from its raw output.
pub open spec fn spec_lookup_result(success: bool, stdout: Seq<u8>) -> Option<Seq<char>> {
    spec_lookup_from_text(success, lossy_text(stdout))
}

/// The passphrase that a lookup found, from its decoded output.
pub fn lookup_from_text(success: bool, text: String) -> (r: Option<String>)
    ensures
        match r {
            Some(p) => spec_lookup_from_text(success, text@) == Some(p@),
            None => spec_lookup_from_text(success, text@) is None,
        },
{
    if success && !text.as_str().is_empty() {
        Some(text)
    } else {
        None
    }
}

/// The passphrase that a lookup found.
pub fn lookup_result(success: bool, stdout: &[u8]) -> (r: Option<String>)
    ensures
        match r {
            Some(p) => spec_lookup_result(success, stdout@) == Some(p@),
            None => spec_lookup_result(success, stdout@) is None,
        },
{
    let s = lossy_string(stdout);
    lookup_from_text(success, s)
}

/// The keyring entries to fill: the given keys, then the default entry.
pub fn with_default_entry(keys: &Vec<String>) -> (v: Vec<String>)
    ensures
        strs(v@) == strs(keys@).push("default"@),
{
    let n = keys.len();
    let mut v: Vec<String> = Vec::new();
    let mut i: usize = 0;
    while i < n
        invariant
            n == keys@.len(),
            i <= n,
            strs(v@) == strs(keys@).take(i as int),
        decreases n - i,
    {
        push_str(&mut v, keys[i].clone());
        assert(strs(keys@).take(i + 1) =~= strs(keys@).take(i as int).push(keys@[i as int]@));
        i = i + 1;
    }
    assert(strs(keys@).take(n as int) =~= strs(keys@));
    push_str(&mut v, owned("default"));
    v
}

/// A passphrase stored for a key is kept under the very attributes that a
/// lookup of that key asks for.
pub proof fn law_lookup_finds_stored_entry(key_id: Seq<char>)
    ensures
        spec_store_args(key_id).skip(3) == spec_lookup_args(key_id).skip(1),
{
    assert(spec_store_args(key_id).skip(3) =~= entry_attributes(key_id));
    assert(spec_lookup_args(key_id).skip(1) =~= entry_attributes(key_id));
}

} // verus!
