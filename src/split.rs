//! Splitting a byte string on a separator byte.

use vstd::prelude::*;

verus! {

/// Index of the first `sep` in `s`, or `s.len()` when there is none.
pub open spec fn find_byte(s: Seq<u8>, sep: u8) -> nat
    decreases s.len(),
{
    if s.len() == 0 {
        0
    } else if s[0] == sep {
        0
    } else {
        1 + find_byte(s.drop_first(), sep)
    }
}

/// The pieces of `s` between occurrences of `sep`, as `str::split` yields
/// them: there is always at least one, and `k` separators give `k + 1` pieces.
pub open spec fn split_on(s: Seq<u8>, sep: u8) -> Seq<Seq<u8>>
    decreases s.len(),
{
    let i = find_byte(s, sep) as int;
    if i >= s.len() {
        seq![s]
    } else {
        seq![s.take(i)] + split_on(s.skip(i + 1), sep)
    }
}

/// `find_byte` is the first position holding `sep`.
pub proof fn lemma_find_byte(s: Seq<u8>, sep: u8, n: int)
    requires
        0 <= n <= s.len(),
        forall|k: int| 0 <= k < n ==> s[k] != sep,
        n == s.len() || s[n] == sep,
    ensures
        find_byte(s, sep) == n,
    decreases n,
{
    if n > 0 {
        let t = s.drop_first();
        assert forall|k: int| 0 <= k < n - 1 implies t[k] != sep by {
            assert(t[k] == s[k + 1]);
        }
        lemma_find_byte(t, sep, n - 1);
    }
}

/// The pieces of `s[lo..hi]` split on `sep`, each given as a range of `s`.
pub fn split_ranges(s: &[u8], lo: usize, hi: usize, sep: u8) -> (r: Vec<(usize, usize)>)
    requires
        lo <= hi <= s@.len(),
    ensures
        r@.len() == split_on(s@.subrange(lo as int, hi as int), sep).len(),
        forall|i: int|
            0 <= i < r@.len() ==> {
                &&& lo <= (#[trigger] r@[i]).0 <= r@[i].1 <= hi
                &&& s@.subrange(r@[i].0 as int, r@[i].1 as int) == split_on(
                    s@.subrange(lo as int, hi as int),
                    sep,
                )[i]
            },
{
    let ghost whole = s@.subrange(lo as int, hi as int);
    let ghost mut pieces: Seq<Seq<u8>> = seq![];
    let mut r: Vec<(usize, usize)> = Vec::new();
    let mut start: usize = lo;
    loop
        invariant_except_break
            lo <= start <= hi,
            split_on(whole, sep) == pieces + split_on(s@.subrange(start as int, hi as int), sep),
        invariant
            lo <= hi <= s@.len(),
            whole == s@.subrange(lo as int, hi as int),
            pieces.len() == r@.len(),
            forall|i: int|
                0 <= i < r@.len() ==> {
                    &&& lo <= (#[trigger] r@[i]).0 <= r@[i].1 <= hi
                    &&& s@.subrange(r@[i].0 as int, r@[i].1 as int) == pieces[i]
                },
        ensures
            split_on(whole, sep) == pieces,
        decreases hi - start,
    {
        let mut end: usize = start;
        while end < hi && s[end] != sep
            invariant
                lo <= start <= end <= hi <= s@.len(),
                forall|k: int| start <= k < end ==> s@[k] != sep,
            decreases hi - end,
        {
            end = end + 1;
        }
        let ghost rest = s@.subrange(start as int, hi as int);
        proof {
            lemma_find_byte(rest, sep, end - start);
            pieces = pieces.push(s@.subrange(start as int, end as int));
        }
        r.push((start, end));
        if end == hi {
            proof {
                assert(split_on(rest, sep) == seq![rest]);
                assert(rest =~= s@.subrange(start as int, end as int));
            }
            break;
        }
        proof {
            assert(rest.take(end - start) =~= s@.subrange(start as int, end as int));
            assert(rest.skip(end - start + 1) =~= s@.subrange(end + 1, hi as int));
            assert(split_on(rest, sep) == seq![rest.take(end - start)] + split_on(
                rest.skip(end - start + 1),
                sep,
            ));
            assert(pieces.drop_last() + split_on(rest, sep) =~= pieces + split_on(
                s@.subrange(end + 1, hi as int),
                sep,
            ));
        }
        start = end + 1;
    }
    r
}

pub open spec fn lacks_byte(s: Seq<u8>, b: u8) -> bool {
    forall|k: int| 0 <= k < s.len() ==> s[k] != b
}

/// Without a separator there is one piece, the whole.
pub proof fn lemma_split_single(s: Seq<u8>, sep: u8)
    requires
        lacks_byte(s, sep),
    ensures
        split_on(s, sep) == seq![s],
{
    lemma_find_byte(s, sep, s.len() as int);
}

/// A first piece without the separator is split off at the separator.
pub proof fn lemma_split_first(a: Seq<u8>, sep: u8, rest: Seq<u8>)
    requires
        lacks_byte(a, sep),
    ensures
        split_on(a + seq![sep] + rest, sep) == seq![a] + split_on(rest, sep),
{
    let s = a + seq![sep] + rest;
    assert(s[a.len() as int] == sep);
    lemma_find_byte(s, sep, a.len() as int);
    assert(s.take(a.len() as int) =~= a);
    assert(s.skip(a.len() as int + 1) =~= rest);
}

} // verus!
