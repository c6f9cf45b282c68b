//! The three classification strategies, and how a caller names them.
use vstd::prelude::*;

use crate::hexword::{hex_alphabet, is_hex_word, word_bytes};

verus! {

/// One of the three interchangeable ways to decide whether a word is a hex
/// word.
#[derive(Clone, Copy, Debug, PartialEq, Eq, Structural)]
pub enum Variant {
    /// The word's distinct bytes, gathered in a hash set, are a subset of the
    /// alphabet.
    Hash,
    /// The word's distinct bytes, gathered in an ordered set, are a subset of
    /// the alphabet.
    BTree,
    /// Each byte of the word, in order, matches one of the twelve letters.
    Match,
}

/// Why a request for a run cannot be served.
#[derive(Clone, Copy, Debug, PartialEq, Eq, Structural)]
pub enum UsageError {
    /// More than one strategy name was given.
    WrongArgCount,
    /// The name is none of `hash`, `btree` and `match`.
    UnknownVariant,
}

/// The name of a variant, as ASCII bytes: `hash`, `btree` or `match`.
pub open spec fn name_bytes(v: Variant) -> Seq<u8> {
    match v {
        Variant::Hash => seq![104u8, 97u8, 115u8, 104u8],
        Variant::BTree => seq![98u8, 116u8, 114u8, 101u8, 101u8],
        Variant::Match => seq![109u8, 97u8, 116u8, 99u8, 104u8],
    }
}

/// The variant that the bytes `name` name, if any.
pub open spec fn variant_named(name: Seq<u8>) -> Result<Variant, UsageError> {
    if name == name_bytes(Variant::Hash) {
        Ok(Variant::Hash)
    } else if name == name_bytes(Variant::BTree) {
        Ok(Variant::BTree)
    } else if name == name_bytes(Variant::Match) {
        Ok(Variant::Match)
    } else {
        Err(UsageError::UnknownVariant)
    }
}

/// The variants to run for the arguments `args` (the bytes of each): all
/// three in turn when there is none, the named one when there is one.
pub open spec fn selection(args: Seq<Seq<u8>>) -> Result<Seq<Variant>, UsageError> {
    if args.len() == 0 {
        Ok(seq![Variant::Hash, Variant::BTree, Variant::Match])
    } else if args.len() == 1 {
        match variant_named(args[0]) {
            Ok(v) => Ok(seq![v]),
            Err(e) => Err(e),
        }
    } else {
        Err(UsageError::WrongArgCount)
    }
}

/// The set-based test: longer than two bytes, and the set of the word's bytes
/// lies within the alphabet.
pub open spec fn set_test(w: Seq<u8>) -> bool {
    w.len() > 2 && w.to_set().subset_of(hex_alphabet())
}

/// What a variant's own mechanism decides of the bytes `w`.
pub open spec fn accepts(v: Variant, w: Seq<u8>) -> bool {
    match v {
        Variant::Hash => set_test(w),
        Variant::BTree => set_test(w),
        Variant::Match => is_hex_word(w),
    }
}

/// The number of lines that variant `v` accepts.
pub open spec fn pass_count(v: Variant, lines: Seq<String>) -> nat
    decreases lines.len(),
{
    if lines.len() == 0 {
        0
    } else {
        pass_count(v, lines.drop_last()) + if accepts(v, word_bytes(lines.last()@)) {
            1nat
        } else {
            0nat
        }
    }
}

/// The set-based test and the byte-by-byte test decide alike.
pub proof fn lemma_set_test_is_hex_word(w: Seq<u8>)
    ensures
        set_test(w) == is_hex_word(w),
{
    if is_hex_word(w) {
        assert forall|b: u8| w.to_set().contains(b) implies hex_alphabet().contains(b) by {
            let i = choose|i: int| 0 <= i < w.len() && w[i] == b;
            assert(hex_alphabet().contains(w[i]));
        }
    }
    if set_test(w) {
        assert forall|i: int| 0 <= i < w.len() implies #[trigger] hex_alphabet().contains(w[i]) by {
            assert(w.to_set().contains(w[i]));
        }
    }
}

/// Whether `bytes` are exactly the name of `v`.
fn spells(bytes: &[u8], v: Variant) -> (r: bool)
    ensures
        r == (bytes@ == name_bytes(v)),
{
    let r = match v {
        Variant::Hash => bytes.len() == 4 && bytes[0] == 104u8 && bytes[1] == 97u8
            && bytes[2] == 115u8 && bytes[3] == 104u8,
        Variant::BTree => bytes.len() == 5 && bytes[0] == 98u8 && bytes[1] == 116u8
            && bytes[2] == 114u8 && bytes[3] == 101u8 && bytes[4] == 101u8,
        Variant::Match => bytes.len() == 5 && bytes[0] == 109u8 && bytes[1] == 97u8
            && bytes[2] == 116u8 && bytes[3] == 99u8 && bytes[4] == 104u8,
    };
    if r {
        assert(bytes@ =~= name_bytes(v));
    }
    r
}

impl Variant {
    /// The variant named `name`; an unknown name is a usage error.
    pub fn from_name(name: &str) -> (r: Result<Variant, UsageError>)
        ensures
            r == variant_named(word_bytes(name@)),
    {
        let bytes = name.as_bytes();
        if spells(bytes, Variant::Hash) {
            Ok(Variant::Hash)
        } else if spells(bytes, Variant::BTree) {
            Ok(Variant::BTree)
        } else if spells(bytes, Variant::Match) {
            Ok(Variant::Match)
        } else {
            Err(UsageError::UnknownVariant)
        }
    }
}

/// The variants to run for the command-line arguments `args` (without the
/// program's own name).
pub fn select(args: &[String]) -> (r: Result<Vec<Variant>, UsageError>)
    ensures
        match r {
            Ok(vs) => selection(args@.map_values(|a: String| word_bytes(a@))) == Ok::<
                Seq<Variant>,
                UsageError,
            >(vs@),
            Err(e) => selection(args@.map_values(|a: String| word_bytes(a@))) == Err::<
                Seq<Variant>,
                UsageError,
            >(e),
        },
{
    let ghost names = args@.map_values(|a: String| word_bytes(a@));
    if args.len() == 0 {
        let all = vec![Variant::Hash, Variant::BTree, Variant::Match];
        assert(all@ =~= seq![Variant::Hash, Variant::BTree, Variant::Match]);
        Ok(all)
    } else if args.len() == 1 {
        assert(names[0] == word_bytes(args@[0]@));
        match Variant::from_name(args[0].as_str()) {
            Ok(v) => {
                let one = vec![v];
                assert(one@ =~= seq![v]);
                Ok(one)
            },
            Err(e) => Err(e),
        }
    } else {
        Err(UsageError::WrongArgCount)
    }
}

} // verus!
