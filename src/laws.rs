//! What holds of the strategies taken together.
use vstd::prelude::*;

use crate::hexword::{hex_alphabet, hex_count, is_hex_word, word_bytes};
use crate::source::WordSource;
use crate::variant::{
    accepts, lemma_set_test_is_hex_word, name_bytes, pass_count, selection, variant_named,
    UsageError, Variant,
};

verus! {

/// The three strategies decide alike of every word.
pub proof fn lemma_variants_classify_alike(w: Seq<u8>)
    ensures
        accepts(Variant::Hash, w) == accepts(Variant::Match, w),
        accepts(Variant::BTree, w) == accepts(Variant::Match, w),
{
    lemma_set_test_is_hex_word(w);
}

/// Every strategy accepts a word exactly when it is longer than two bytes and
/// each byte is the code of one of `A` to `F` (65 to 70) or `a` to `f` (97 to
/// 102).
pub proof fn lemma_accepts_hex_letters(v: Variant, w: Seq<u8>)
    ensures
        accepts(v, w) <==> w.len() > 2 && forall|i: int|
            0 <= i < w.len() ==> (65 <= #[trigger] w[i] <= 70 || 97 <= w[i] <= 102),
{
    lemma_set_test_is_hex_word(w);
    assert forall|b: u8| #[trigger] hex_alphabet().contains(b) <==> (65 <= b <= 70 || 97 <= b <= 102) by {
        if 65 <= b <= 70 || 97 <= b <= 102 {
            assert(b == 65 || b == 66 || b == 67 || b == 68 || b == 69 || b == 70 || b == 97
                || b == 98 || b == 99 || b == 100 || b == 101 || b == 102);
        }
    }
    if is_hex_word(w) {
        assert forall|i: int| 0 <= i < w.len() implies (65 <= #[trigger] w[i] <= 70 || 97 <= w[i]
            <= 102) by {
            assert(hex_alphabet().contains(w[i]));
        }
    }
    if w.len() > 2 && forall|i: int| 0 <= i < w.len() ==> (65 <= #[trigger] w[i] <= 70 || 97 <= w[i] <= 102) {
        assert forall|i: int| 0 <= i < w.len() implies #[trigger] hex_alphabet().contains(w[i]) by {
            assert(65 <= w[i] <= 70 || 97 <= w[i] <= 102);
        }
    }
}

/// No strategy accepts a word of two bytes or fewer, whatever its bytes.
pub proof fn lemma_short_words_rejected(v: Variant, w: Seq<u8>)
    requires
        w.len() <= 2,
    ensures
        !accepts(v, w),
{
}

/// Over the same lines, the three strategies count the same number of words,
/// and that number is the number of hex words.
pub proof fn lemma_passes_count_alike(lines: Seq<String>)
    ensures
        pass_count(Variant::Hash, lines) == hex_count(lines),
        pass_count(Variant::BTree, lines) == hex_count(lines),
        pass_count(Variant::Match, lines) == hex_count(lines),
    decreases lines.len(),
{
    if lines.len() > 0 {
        lemma_passes_count_alike(lines.drop_last());
        lemma_set_test_is_hex_word(word_bytes(lines.last()@));
    }
}

/// A pass run again after a reset counts what the first pass counted: `first`
/// is the source before the first pass, `read` the source that the pass left
/// (its lines kept), and `again` that source after a reset.
pub proof fn lemma_pass_repeatable(
    v: Variant,
    first: WordSource,
    read: WordSource,
    again: WordSource,
)
    requires
        first.wf(),
        first.cursor() == 0,
        read.words() == first.words(),
        again.words() == read.words(),
        again.cursor() == 0,
    ensures
        pass_count(v, again.remaining()) == pass_count(v, first.remaining()),
        pass_count(v, again.remaining()) == hex_count(first.words()),
{
    assert(first.remaining() =~= first.words());
    assert(again.remaining() =~= first.words());
    lemma_passes_count_alike(first.words());
}

/// A single argument that names no strategy is a usage error, and selects
/// nothing to run.
pub proof fn lemma_unknown_name_rejected(name: Seq<u8>)
    requires
        name != name_bytes(Variant::Hash),
        name != name_bytes(Variant::BTree),
        name != name_bytes(Variant::Match),
    ensures
        variant_named(name) == Err::<Variant, UsageError>(UsageError::UnknownVariant),
        selection(seq![name]) == Err::<Seq<Variant>, UsageError>(UsageError::UnknownVariant),
{
}

} // verus!
