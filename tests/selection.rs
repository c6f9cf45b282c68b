use hexwords::variant::{select, UsageError, Variant};

fn args(words: &[&str]) -> Vec<String> {
    words.iter().map(|w| w.to_string()).collect()
}

#[test]
fn names_are_recognised() {
    assert_eq!(Variant::from_name("hash"), Ok(Variant::Hash));
    assert_eq!(Variant::from_name("btree"), Ok(Variant::BTree));
    assert_eq!(Variant::from_name("match"), Ok(Variant::Match));
}

#[test]
fn unknown_names_are_usage_errors() {
    for n in ["", "Hash", "hashes", "has", "tree", "btre", "matc", "matches", "all", "match "] {
        assert_eq!(Variant::from_name(n), Err(UsageError::UnknownVariant), "{n:?}");
    }
}

#[test]
fn no_argument_selects_all_three() {
    assert_eq!(select(&[]), Ok(vec![Variant::Hash, Variant::BTree, Variant::Match]));
}

#[test]
fn one_argument_selects_that_variant() {
    assert_eq!(select(&args(&["btree"])), Ok(vec![Variant::BTree]));
    assert_eq!(select(&args(&["match"])), Ok(vec![Variant::Match]));
    assert_eq!(select(&args(&["hash"])), Ok(vec![Variant::Hash]));
}

#[test]
fn unknown_variant_selects_nothing() {
    assert_eq!(select(&args(&["quick"])), Err(UsageError::UnknownVariant));
}

#[test]
fn two_arguments_are_a_usage_error() {
    assert_eq!(select(&args(&["hash", "match"])), Err(UsageError::WrongArgCount));
}
