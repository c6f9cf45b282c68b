use hexwords::source::{count_with, with_btree, with_hash, with_match, WordSource};
use hexwords::variant::Variant;

fn lines(words: &[&str]) -> Vec<String> {
    words.iter().map(|w| w.to_string()).collect()
}

fn sample() -> WordSource {
    WordSource::new(lines(&[
        "dead", "beef", "ab", "cafe", "coffee", "", "abc", "Zebra", "FACADE", "fed",
    ]))
}

#[test]
fn hash_pass_counts_hex_words() {
    let mut s = sample();
    assert_eq!(with_hash(&mut s), 6);
    assert_eq!(s.position(), s.len());
}

#[test]
fn btree_pass_counts_hex_words() {
    let mut s = sample();
    assert_eq!(with_btree(&mut s), 6);
    assert_eq!(s.position(), 10);
}

#[test]
fn match_pass_counts_hex_words() {
    let mut s = sample();
    assert_eq!(with_match(&mut s), 6);
    assert_eq!(s.position(), 10);
}

#[test]
fn empty_source_counts_zero() {
    for v in [Variant::Hash, Variant::BTree, Variant::Match] {
        let mut s = WordSource::new(Vec::new());
        assert_eq!(count_with(v, &mut s), 0);
    }
}

#[test]
fn second_pass_without_reset_reads_nothing() {
    let mut s = sample();
    assert_eq!(with_hash(&mut s), 6);
    assert_eq!(with_hash(&mut s), 0);
}

#[test]
fn pass_after_reset_counts_the_same() {
    for v in [Variant::Hash, Variant::BTree, Variant::Match] {
        let mut s = sample();
        let first = count_with(v, &mut s);
        s.reset();
        assert_eq!(s.position(), 0);
        let second = count_with(v, &mut s);
        assert_eq!(first, 6);
        assert_eq!(first, second);
    }
}

#[test]
fn all_variants_over_one_source_count_alike() {
    let mut s = sample();
    let mut counts = Vec::new();
    for v in [Variant::Hash, Variant::BTree, Variant::Match] {
        s.reset();
        counts.push(count_with(v, &mut s));
    }
    assert_eq!(counts, vec![6, 6, 6]);
}

#[test]
fn no_hex_words_counts_zero() {
    let mut s = WordSource::new(lines(&["coffee", "tea", "ab", "", "xyz"]));
    assert_eq!(with_match(&mut s), 0);
}
