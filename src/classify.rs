//! Deciding of one word whether it is a hex word, three ways.
use std::collections::{BTreeSet, HashSet};
use vstd::prelude::*;

use crate::hexword::{hex_alphabet, is_hex_word, word_bytes};
use crate::variant::{accepts, lemma_set_test_is_hex_word, set_test, Variant};

verus! {

/// Relies on `HashSet::is_subset`: true exactly when every member of `a` is a
/// member of `b`.
#[verifier::external_body]
fn hash_is_subset(a: &HashSet<u8>, b: &HashSet<u8>) -> (r: bool)
    ensures
        r == a@.subset_of(b@),
{
    a.is_subset(b)
}

/// Relies on `BTreeSet::is_subset`: true exactly when every member of `a` is
/// a member of `b`.
#[verifier::external_body]
fn btree_is_subset(a: &BTreeSet<u8>, b: &BTreeSet<u8>) -> (r: bool)
    ensures
        r == a@.subset_of(b@),
{
    a.is_subset(b)
}

/// The alphabet as a hash set.
pub fn hex_hash_set() -> (r: HashSet<u8>)
    ensures
        r@ == hex_alphabet(),
{
    let mut s: HashSet<u8> = HashSet::new();
    s.insert(65u8);
    s.insert(66u8);
    s.insert(67u8);
    s.insert(68u8);
    s.insert(69u8);
    s.insert(70u8);
    s.insert(97u8);
    s.insert(98u8);
    s.insert(99u8);
    s.insert(100u8);
    s.insert(101u8);
    s.insert(102u8);
    assert(s@ =~= hex_alphabet());
    s
}

/// The alphabet as an ordered set.
pub fn hex_btree_set() -> (r: BTreeSet<u8>)
    ensures
        r@ == hex_alphabet(),
{
    let mut s: BTreeSet<u8> = BTreeSet::new();
    s.insert(65u8);
    s.insert(66u8);
    s.insert(67u8);
    s.insert(68u8);
    s.insert(69u8);
    s.insert(70u8);
    s.insert(97u8);
    s.insert(98u8);
    s.insert(99u8);
    s.insert(100u8);
    s.insert(101u8);
    s.insert(102u8);
    assert(s@ =~= hex_alphabet());
    s
}

/// The hash-set test of `word` against an alphabet built beforehand.
pub fn hash_classify(word: &str, alphabet: &HashSet<u8>) -> (r: bool)
    requires
        alphabet@ == hex_alphabet(),
    ensures
        r == set_test(word_bytes(word@)),
        r == is_hex_word(word_bytes(word@)),
{
    let bytes = word.as_bytes();
    let mut reduction: HashSet<u8> = HashSet::new();
    let mut i: usize = 0;
    while i < bytes.len()
        invariant
            i <= bytes@.len(),
            reduction@ =~= bytes@.subrange(0, i as int).to_set(),
        decreases bytes@.len() - i,
    {
        reduction.insert(bytes[i]);
        proof {
            let prefix = bytes@.subrange(0, i as int);
            assert(bytes@.subrange(0, i + 1) =~= prefix + seq![bytes[i as int]]);
            Seq::lemma_to_set_insert_commutes(prefix, bytes[i as int]);
        }
        i = i + 1;
    }
    assert(bytes@.subrange(0, i as int) =~= bytes@);
    proof {
        lemma_set_test_is_hex_word(word_bytes(word@));
    }
    word.len() > 2 && hash_is_subset(&reduction, alphabet)
}

/// The ordered-set test of `word` against an alphabet built beforehand.
pub fn btree_classify(word: &str, alphabet: &BTreeSet<u8>) -> (r: bool)
    requires
        alphabet@ == hex_alphabet(),
    ensures
        r == set_test(word_bytes(word@)),
        r == is_hex_word(word_bytes(word@)),
{
    let bytes = word.as_bytes();
    let mut reduction: BTreeSet<u8> = BTreeSet::new();
    let mut i: usize = 0;
    while i < bytes.len()
        invariant
            i <= bytes@.len(),
            reduction@ =~= bytes@.subrange(0, i as int).to_set(),
        decreases bytes@.len() - i,
    {
        reduction.insert(bytes[i]);
        proof {
            let prefix = bytes@.subrange(0, i as int);
            assert(bytes@.subrange(0, i + 1) =~= prefix + seq![bytes[i as int]]);
            Seq::lemma_to_set_insert_commutes(prefix, bytes[i as int]);
        }
        i = i + 1;
    }
    assert(bytes@.subrange(0, i as int) =~= bytes@);
    proof {
        lemma_set_test_is_hex_word(word_bytes(word@));
    }
    word.len() > 2 && btree_is_subset(&reduction, alphabet)
}

/// The direct test: scan the bytes in order and reject the word at the first
/// byte that is none of the twelve letters.
pub fn classify_match(word: &str) -> (r: bool)
    ensures
        r == is_hex_word(word_bytes(word@)),
        r == accepts(Variant::Match, word_bytes(word@)),
{
    let bytes = word.as_bytes();
    let mut i: usize = 0;
    while i < bytes.len()
        invariant
            i <= bytes@.len(),
            bytes@ == word_bytes(word@),
            forall|j: int| 0 <= j < i ==> #[trigger] hex_alphabet().contains(bytes@[j]),
        decreases bytes@.len() - i,
    {
        match bytes[i] {
            65u8 | 66u8 | 67u8 | 68u8 | 69u8 | 70u8 => {},
            97u8 | 98u8 | 99u8 | 100u8 | 101u8 | 102u8 => {},
            _ => {
                assert(!hex_alphabet().contains(bytes@[i as int]));
                return false;
            },
        }
        i = i + 1;
    }
    word.len() > 2
}

/// Classifies `word` with a hash set of its bytes.
pub fn classify_hash(word: &str) -> (r: bool)
    ensures
        r == is_hex_word(word_bytes(word@)),
        r == accepts(Variant::Hash, word_bytes(word@)),
{
    let alphabet = hex_hash_set();
    hash_classify(word, &alphabet)
}

/// Classifies `word` with an ordered set of its bytes.
pub fn classify_btree(word: &str) -> (r: bool)
    ensures
        r == is_hex_word(word_bytes(word@)),
        r == accepts(Variant::BTree, word_bytes(word@)),
{
    let alphabet = hex_btree_set();
    btree_classify(word, &alphabet)
}

/// Classifies `word` with the strategy `v`.
pub fn classify(v: Variant, word: &str) -> (r: bool)
    ensures
        r == is_hex_word(word_bytes(word@)),
        r == accepts(v, word_bytes(word@)),
{
    match v {
        Variant::Hash => classify_hash(word),
        Variant::BTree => classify_btree(word),
        Variant::Match => classify_match(word),
    }
}

} // verus!
