use hexwords::classify::{classify, classify_btree, classify_hash, classify_match};
use hexwords::variant::Variant;

const ALL: [Variant; 3] = [Variant::Hash, Variant::BTree, Variant::Match];

fn each(word: &str) -> [bool; 3] {
    [classify_hash(word), classify_btree(word), classify_match(word)]
}

#[test]
fn dead_is_hex_word() {
    assert_eq!(each("dead"), [true, true, true]);
}

#[test]
fn beef_is_hex_word() {
    assert_eq!(each("beef"), [true, true, true]);
}

#[test]
fn cafe_is_hex_word() {
    assert_eq!(each("cafe"), [true, true, true]);
}

#[test]
fn ab_is_too_short() {
    assert_eq!(each("ab"), [false, false, false]);
}

#[test]
fn abc_is_long_enough() {
    assert_eq!(each("abc"), [true, true, true]);
}

#[test]
fn coffee_has_other_letters() {
    assert_eq!(each("coffee"), [false, false, false]);
}

#[test]
fn blank_line_is_rejected() {
    assert_eq!(each(""), [false, false, false]);
}

#[test]
fn short_words_rejected_whatever_their_bytes() {
    for w in ["", "a", "F", "ab", "FF", "zz", "é"] {
        assert_eq!(each(w), [false, false, false], "{w:?}");
    }
}

#[test]
fn upper_case_and_mixed_case_accepted() {
    assert_eq!(each("DEADBEEF"), [true, true, true]);
    assert_eq!(each("DeAdBeEf"), [true, true, true]);
    assert_eq!(each("ABCDEFabcdef"), [true, true, true]);
}

#[test]
fn neighbours_of_the_alphabet_rejected() {
    for w in ["@ab", "abG", "`ab", "abg", "ab0", "ab ", "abc\r", "0xdead"] {
        assert_eq!(each(w), [false, false, false], "{w:?}");
    }
}

#[test]
fn non_ascii_rejected() {
    for w in ["café", "éé", "ab\u{00e9}", "\u{0100}bc"] {
        assert_eq!(each(w), [false, false, false], "{w:?}");
    }
}

#[test]
fn repeated_letters_accepted() {
    assert_eq!(each("aaa"), [true, true, true]);
    assert_eq!(each("fffffffff"), [true, true, true]);
}

#[test]
fn variants_agree_on_many_words() {
    let words = [
        "", "a", "ab", "abc", "bad", "bed", "faced", "decade", "acceded", "hello", "Abba",
        "ABBA", "abba\n", "facade", "fade", "feed", "deaf", "dab", "cab", "zebra", "éclair",
    ];
    for w in words {
        let r = each(w);
        assert_eq!(r[0], r[1], "{w:?}");
        assert_eq!(r[1], r[2], "{w:?}");
        for v in ALL {
            assert_eq!(classify(v, w), r[0], "{w:?} {v:?}");
        }
    }
}
