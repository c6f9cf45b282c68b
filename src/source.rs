//! A re-readable source of lines, and a pass of each strategy over it.
use vstd::prelude::*;

use crate::classify::{btree_classify, classify_match, hash_classify, hex_btree_set, hex_hash_set};
use crate::hexword::{hex_alphabet, hex_count, lemma_hex_count_bounded};
use crate::variant::{pass_count, Variant};

verus! {

/// An ordered sequence of lines, one word each, with a read position. A pass
/// reads from the position to the end; `reset` brings the position back to
/// the start so that the same lines can be read again.
pub struct WordSource {
    lines: Vec<String>,
    pos: usize,
}

impl WordSource {
    /// All the lines, whatever has been read.
    pub closed spec fn words(&self) -> Seq<String> {
        self.lines@
    }

    /// The read position: how many lines lie before the next one read.
    pub closed spec fn cursor(&self) -> nat {
        self.pos as nat
    }

    /// The read position lies within the lines.
    pub open spec fn wf(&self) -> bool {
        self.cursor() <= self.words().len()
    }

    /// The lines that a pass would read now.
    pub open spec fn remaining(&self) -> Seq<String> {
        self.words().subrange(self.cursor() as int, self.words().len() as int)
    }

    /// A source over `lines`, positioned at the first of them.
    pub fn new(lines: Vec<String>) -> (r: WordSource)
        ensures
            r.wf(),
            r.words() == lines@,
            r.cursor() == 0,
    {
        WordSource { lines, pos: 0 }
    }

    /// Moves the read position back to the first line.
    pub fn reset(&mut self)
        requires
            old(self).wf(),
        ensures
            final(self).wf(),
            final(self).words() == old(self).words(),
            final(self).cursor() == 0,
    {
        self.pos = 0;
    }

    /// The number of lines.
    pub fn len(&self) -> (r: usize)
        ensures
            r == self.words().len(),
    {
        self.lines.len()
    }

    /// The read position.
    pub fn position(&self) -> (r: usize)
        ensures
            r == self.cursor(),
    {
        self.pos
    }
}

/// Counts, with hash sets, the hex words among the lines that remain in
/// `source`, and reads it to the end.
pub fn with_hash(source: &mut WordSource) -> (r: u32)
    requires
        old(source).wf(),
        old(source).remaining().len() <= u32::MAX,
    ensures
        final(source).wf(),
        final(source).words() == old(source).words(),
        final(source).cursor() == old(source).words().len(),
        r == pass_count(Variant::Hash, old(source).remaining()),
        r == hex_count(old(source).remaining()),
{
    let ghost all = source.lines@;
    let ghost start = source.pos as int;
    let hexash = hex_hash_set();
    let mut counter: u32 = 0;
    while source.pos < source.lines.len()
        invariant
            source.lines@ == all,
            0 <= start <= source.pos <= all.len(),
            all.len() - start <= u32::MAX,
            hexash@ == hex_alphabet(),
            counter == pass_count(Variant::Hash, all.subrange(start, source.pos as int)),
            counter == hex_count(all.subrange(start, source.pos as int)),
        decreases all.len() - source.pos,
    {
        let ghost seen = all.subrange(start, source.pos as int);
        let ghost next = all.subrange(start, source.pos as int + 1);
        assert(next.drop_last() =~= seen);
        proof {
            lemma_hex_count_bounded(seen);
        }
        if hash_classify(source.lines[source.pos].as_str(), &hexash) {
            counter = counter + 1;
        }
        source.pos = source.pos + 1;
    }
    counter
}

/// Counts, with ordered sets, the hex words among the lines that remain in
/// `source`, and reads it to the end.
pub fn with_btree(source: &mut WordSource) -> (r: u32)
    requires
        old(source).wf(),
        old(source).remaining().len() <= u32::MAX,
    ensures
        final(source).wf(),
        final(source).words() == old(source).words(),
        final(source).cursor() == old(source).words().len(),
        r == pass_count(Variant::BTree, old(source).remaining()),
        r == hex_count(old(source).remaining()),
{
    let ghost all = source.lines@;
    let ghost start = source.pos as int;
    let hexas = hex_btree_set();
    let mut counter: u32 = 0;
    while source.pos < source.lines.len()
        invariant
            source.lines@ == all,
            0 <= start <= source.pos <= all.len(),
            all.len() - start <= u32::MAX,
            hexas@ == hex_alphabet(),
            counter == pass_count(Variant::BTree, all.subrange(start, source.pos as int)),
            counter == hex_count(all.subrange(start, source.pos as int)),
        decreases all.len() - source.pos,
    {
        let ghost seen = all.subrange(start, source.pos as int);
        let ghost next = all.subrange(start, source.pos as int + 1);
        assert(next.drop_last() =~= seen);
        proof {
            lemma_hex_count_bounded(seen);
        }
        if btree_classify(source.lines[source.pos].as_str(), &hexas) {
            counter = counter + 1;
        }
        source.pos = source.pos + 1;
    }
    counter
}

/// Counts, byte by byte, the hex words among the lines that remain in
/// `source`, and reads it to the end.
pub fn with_match(source: &mut WordSource) -> (r: u32)
    requires
        old(source).wf(),
        old(source).remaining().len() <= u32::MAX,
    ensures
        final(source).wf(),
        final(source).words() == old(source).words(),
        final(source).cursor() == old(source).words().len(),
        r == pass_count(Variant::Match, old(source).remaining()),
        r == hex_count(old(source).remaining()),
{
    let ghost all = source.lines@;
    let ghost start = source.pos as int;
    let mut counter: u32 = 0;
    while source.pos < source.lines.len()
        invariant
            source.lines@ == all,
            0 <= start <= source.pos <= all.len(),
            all.len() - start <= u32::MAX,
            counter == pass_count(Variant::Match, all.subrange(start, source.pos as int)),
            counter == hex_count(all.subrange(start, source.pos as int)),
        decreases all.len() - source.pos,
    {
        let ghost seen = all.subrange(start, source.pos as int);
        let ghost next = all.subrange(start, source.pos as int + 1);
        assert(next.drop_last() =~= seen);
        proof {
            lemma_hex_count_bounded(seen);
        }
        if classify_match(source.lines[source.pos].as_str()) {
            counter = counter + 1;
        }
        source.pos = source.pos + 1;
    }
    counter
}

/// Runs one pass of the strategy `v` over what remains in `source`.
pub fn count_with(v: Variant, source: &mut WordSource) -> (r: u32)
    requires
        old(source).wf(),
        old(source).remaining().len() <= u32::MAX,
    ensures
        final(source).wf(),
        final(source).words() == old(source).words(),
        final(source).cursor() == old(source).words().len(),
        r == pass_count(v, old(source).remaining()),
        r == hex_count(old(source).remaining()),
{
    match v {
        Variant::Hash => with_hash(source),
        Variant::BTree => with_btree(source),
        Variant::Match => with_match(source),
    }
}

} // verus!
