//! Counting "hex words": words longer than two bytes whose every byte is one
//! of the twelve letters `A`-`F` and `a`-`f`, under three interchangeable
//! membership strategies (a hash set, an ordered set and a direct byte match).
pub mod classify;
pub mod hexword;
pub mod laws;
pub mod source;
pub mod variant;
