//! The mathematical model of a hex word and of a count of hex words.
use vstd::prelude::*;

verus! {

/// The twelve byte values that a hex word may be made of: the ASCII codes of
/// `A` to `F` (65 to 70) and of `a` to `f` (97 to 102).
pub open spec fn hex_alphabet() -> Set<u8> {
    set![65u8, 66u8, 67u8, 68u8, 69u8, 70u8, 97u8, 98u8, 99u8, 100u8, 101u8, 102u8]
}

/// The bytes of a text: its UTF-8 encoding.
pub open spec fn word_bytes(text: Seq<char>) -> Seq<u8> {
    vstd::utf8::encode_utf8(text)
}

/// A hex word is longer than two bytes, and each of its bytes is in the
/// alphabet.
pub open spec fn is_hex_word(w: Seq<u8>) -> bool {
    &&& w.len() > 2
    &&& forall|i: int| 0 <= i < w.len() ==> #[trigger] hex_alphabet().contains(w[i])
}

/// The number of lines that are hex words.
pub open spec fn hex_count(lines: Seq<String>) -> nat
    decreases lines.len(),
{
    if lines.len() == 0 {
        0
    } else {
        hex_count(lines.drop_last()) + if is_hex_word(word_bytes(lines.last()@)) {
            1nat
        } else {
            0nat
        }
    }
}

/// A count of hex words never exceeds the number of lines.
pub proof fn lemma_hex_count_bounded(lines: Seq<String>)
    ensures
        hex_count(lines) <= lines.len(),
    decreases lines.len(),
{
    if lines.len() > 0 {
        lemma_hex_count_bounded(lines.drop_last());
    }
}

} // verus!
