//! What the program was asked to do, from its command line.
use vstd::prelude::*;

use crate::text::{chars_eq_str, chars_of, owned};

verus! {

broadcast use vstd::seq_lib::group_seq_properties;

/// The program's modes.
pub enum Mode {
    /// Serve gpg-agent as its pinentry.
    Pinentry,
    /// Store one passphrase for the given keygrips.
    Setup(Vec<String>),
    /// Choose keys interactively and store their passphrase.
    AddKeys,
    /// Print the usage.
    Help,
}

/// `Mode`, with texts as characters.
pub enum ModeView {
    Pinentry,
    Setup(Seq<Seq<char>>),
    AddKeys,
    Help,
}

/// The views of a sequence of strings.
pub open spec fn arg_texts(v: Seq<String>) -> Seq<Seq<char>> {
    v.map_values(|a: String| a@)
}

impl View for Mode {
    type V = ModeView;

    open spec fn view(&self) -> ModeView {
        match self {
            Mode::Pinentry => ModeView::Pinentry,
            Mode::Setup(keys) => ModeView::Setup(arg_texts(keys@)),
            Mode::AddKeys => ModeView::AddKeys,
            Mode::Help => ModeView::Help,
        }
    }
}

/// The mode that the arguments (the program's name first) select: the
/// first argument decides; `--setup` takes the keygrips after it, or the
/// default entry when none follows.
pub open spec fn spec_mode(args: Seq<Seq<char>>) -> ModeView {
    if args.len() < 2 {
        ModeView::Pinentry
    } else if args[1] == "--setup"@ {
        ModeView::Setup(
            if args.len() > 2 {
                args.skip(2)
            } else {
                seq!["default"@]
            },
        )
    } else if args[1] == "--add-keys"@ {
        ModeView::AddKeys
    } else if args[1] == "--help"@ || args[1] == "-h"@ {
        ModeView::Help
    } else {
        ModeView::Pinentry
    }
}

/// Reads the mode from the arguments.
pub fn parse_args(args: &Vec<String>) -> (m: Mode)
    ensures
        m@ == spec_mode(arg_texts(args@)),
{
    let ghost av = arg_texts(args@);
    if args.len() < 2 {
        return Mode::Pinentry;
    }
    let first = chars_of(args[1].as_str());
    assert(av[1] == args@[1]@);
    if chars_eq_str(first.as_slice(), "--setup") {
        let mut keys: Vec<String> = Vec::new();
        if args.len() > 2 {
            let n = args.len();
            let mut i: usize = 2;
            assert(av.subrange(2, 2) =~= Seq::<Seq<char>>::empty());
            while i < n
                invariant
                    n == args@.len(),
                    av == arg_texts(args@),
                    2 <= i <= n,
                    arg_texts(keys@) == av.subrange(2, i as int),
                decreases n - i,
            {
                let k = owned(args[i].as_str());
                let ghost before = keys@;
                keys.push(k);
                assert(keys@ == before.push(k));
                assert(arg_texts(keys@) =~= arg_texts(before).push(k@));
                assert(k@ == av[i as int]);
                assert(arg_texts(keys@) =~= av.subrange(2, i + 1));
                i = i + 1;
            }
            assert(av.subrange(2, n as int) =~= av.skip(2));
        } else {
            keys.push(owned("default"));
            assert(arg_texts(keys@) =~= seq!["default"@]);
        }
        Mode::Setup(keys)
    } else if chars_eq_str(first.as_slice(), "--add-keys") {
        Mode::AddKeys
    } else if chars_eq_str(first.as_slice(), "--help") || chars_eq_str(first.as_slice(), "-h") {
        Mode::Help
    } else {
        Mode::Pinentry
    }
}

} // verus!

verus! {

/// `--setup` keeps every keygrip that follows it, one or many, in order;
/// only with none does it fall back to the default entry.
pub proof fn law_setup_keeps_every_keygrip(args: Seq<Seq<char>>)
    requires
        args.len() >= 2,
        args[1] == "--setup"@,
    ensures
        args.len() > 2 ==> spec_mode(args) == ModeView::Setup(args.subrange(2, args.len() as int)),
        args.len() > 2 ==> (spec_mode(args) matches ModeView::Setup(keys) && keys.len() == args.len() - 2
            && forall|i: int| 0 <= i < keys.len() ==> keys[i] == args[i + 2]),
        args.len() == 2 ==> spec_mode(args) == ModeView::Setup(seq!["default"@]),
{
    assert(args.skip(2) =~= args.subrange(2, args.len() as int));
}

} // verus!
