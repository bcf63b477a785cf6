//! Looking for a helper program: the entries of a search path.

use vstd::prelude::*;

verus! {

/// The entries of a search path: the stretches between its separators, in
/// order, empty ones included. A path without a separator is one entry.
pub open spec fn entries(path: Seq<char>) -> Seq<Seq<char>>
    decreases path.len(),
{
    if path.len() == 0 {
        seq![Seq::empty()]
    } else {
        let before = entries(path.drop_last());
        if path.last() == ':' {
            before.push(Seq::empty())
        } else {
            before.update(before.len() - 1, before.last().push(path.last()))
        }
    }
}

/// A search path always has at least one entry.
pub proof fn lemma_entries_nonempty(path: Seq<char>)
    ensures
        entries(path).len() >= 1,
    decreases path.len(),
{
    if path.len() > 0 {
        lemma_entries_nonempty(path.drop_last());
    }
}

/// Splits a search path into the directories it names.
pub fn search_dirs(path: &str) -> (dirs: Vec<String>)
    ensures
        dirs.deep_view() == entries(path@),
{
    let mut dirs: Vec<String> = Vec::new();
    let mut start: usize = 0;
    let mut i: usize = 0;
    let total = path.unicode_len();
    proof {
        assert(path@.subrange(0, 0) =~= Seq::<char>::empty());
    }
    for c in it: path.chars()
        invariant
            it.seq() == path@,
            i == it.index(),
            total == path@.len(),
            start <= i <= total,
            entries(path@.take(i as int)) == dirs.deep_view().push(
                path@.subrange(start as int, i as int),
            ),
    {
        proof {
            lemma_entries_nonempty(path@.take(i as int));
            assert(path@.take(i + 1).drop_last() =~= path@.take(i as int));
        }
        if c == ':' {
            dirs.push(String::from_str(path.substring_char(start, i)));
            start = i + 1;
            proof {
                assert(path@.subrange(start as int, i + 1) =~= Seq::<char>::empty());
            }
        } else {
            proof {
                assert(path@.subrange(start as int, i + 1) =~= path@.subrange(
                    start as int,
                    i as int,
                ).push(c));
            }
        }
        i += 1;
    }
    dirs.push(String::from_str(path.substring_char(start, i)));
    proof {
        assert(path@.take(i as int) =~= path@);
    }
    dirs
}

/// The entries written one after the other with a separator between each
/// two.
pub open spec fn joined(entries: Seq<Seq<char>>) -> Seq<char>
    decreases entries.len(),
{
    if entries.len() == 0 {
        Seq::empty()
    } else if entries.len() == 1 {
        entries[0]
    } else {
        joined(entries.drop_last()) + seq![':'] + entries.last()
    }
}

/// Splitting loses nothing: the entries of a path, joined again, are the
/// path.
pub proof fn lemma_entries_rejoin(path: Seq<char>)
    ensures
        joined(entries(path)) == path,
    decreases path.len(),
{
    if path.len() > 0 {
        let shorter = path.drop_last();
        let before = entries(shorter);
        lemma_entries_rejoin(shorter);
        lemma_entries_nonempty(shorter);
        if path.last() == ':' {
            assert(before.push(Seq::empty()).drop_last() =~= before);
        } else if before.len() > 1 {
            let now = before.update(before.len() - 1, before.last().push(path.last()));
            assert(now.drop_last() =~= before.drop_last());
            assert(joined(now) =~= joined(before).push(path.last()));
        }
    }
}

/// No entry of a path holds a separator.
pub proof fn lemma_entries_hold_no_separator(path: Seq<char>)
    ensures
        forall|i: int, j: int|
            0 <= i < entries(path).len() && 0 <= j < entries(path)[i].len() ==> entries(
                path,
            )[i][j] != ':',
    decreases path.len(),
{
    if path.len() > 0 {
        lemma_entries_hold_no_separator(path.drop_last());
        lemma_entries_nonempty(path.drop_last());
    }
}

} // verus!
