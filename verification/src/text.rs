//! Byte strings cut at a separator: the pieces of a path, of a query string,
//! of a request target.

use vstd::prelude::*;
use vstd::slice::{slice_subrange, slice_to_vec};

verus! {

/// The views of a list of byte strings.
pub open spec fn rows(v: Seq<Vec<u8>>) -> Seq<Seq<u8>> {
    v.map_values(|r: Vec<u8>| r@)
}

/// How many bytes stand before the first `sep` in `s`; the length of `s`
/// where it holds none.
pub open spec fn run_length(s: Seq<u8>, sep: u8) -> nat
    decreases s.len(),
{
    if s.len() == 0 || s[0] == sep {
        0
    } else {
        1 + run_length(s.drop_first(), sep)
    }
}

/// The non-empty pieces that `sep` cuts `s` into, from left to right.
pub open spec fn pieces(s: Seq<u8>, sep: u8) -> Seq<Seq<u8>>
    decreases s.len(),
{
    if s.len() == 0 {
        Seq::empty()
    } else {
        let n = run_length(s, sep) as int;
        let rest = if n < s.len() {
            pieces(s.skip(n + 1), sep)
        } else {
            Seq::empty()
        };
        if n == 0 {
            rest
        } else {
            seq![s.take(n)] + rest
        }
    }
}

/// `run_length` is the one position that no `sep` stands before and that
/// either ends `s` or holds a `sep`.
pub proof fn lemma_run_length(s: Seq<u8>, sep: u8, n: int)
    requires
        0 <= n <= s.len(),
        forall|j: int| 0 <= j < n ==> s[j] != sep,
        n == s.len() || s[n] == sep,
    ensures
        run_length(s, sep) == n,
    decreases s.len(),
{
    if n > 0 {
        let t = s.drop_first();
        assert forall|j: int| 0 <= j < n - 1 implies t[j] != sep by {
            assert(t[j] == s[j + 1]);
        }
        lemma_run_length(t, sep, n - 1);
    }
}

/// Whether two byte strings hold the same bytes.
pub fn bytes_eq(a: &[u8], b: &[u8]) -> (same: bool)
    ensures
        same == (a@ == b@),
{
    if a.len() != b.len() {
        return false;
    }
    let mut i: usize = 0;
    while i < a.len()
        invariant
            a.len() == b.len(),
            i <= a.len(),
            forall|k: int| 0 <= k < i ==> a@[k] == b@[k],
        decreases a.len() - i,
    {
        if a[i] != b[i] {
            return false;
        }
        i += 1;
    }
    assert(a@ =~= b@);
    true
}

/// The position of the first `sep` in `s` at or after `from`, or the length
/// of `s` where none follows.
pub fn find_byte(s: &[u8], from: usize, sep: u8) -> (at: usize)
    requires
        from <= s.len(),
    ensures
        from <= at <= s.len(),
        at - from == run_length(s@.skip(from as int), sep),
{
    let mut i: usize = from;
    while i < s.len() && s[i] != sep
        invariant
            from <= i <= s.len(),
            forall|j: int| from <= j < i ==> s@[j] != sep,
        decreases s.len() - i,
    {
        i += 1;
    }
    proof {
        lemma_run_length(s@.skip(from as int), sep, i - from);
    }
    i
}

/// Cuts `s` at every `sep` and returns the non-empty pieces in order.
pub fn split_pieces(s: &[u8], sep: u8) -> (out: Vec<Vec<u8>>)
    ensures
        rows(out@) == pieces(s@, sep),
{
    let mut out: Vec<Vec<u8>> = Vec::new();
    let mut start: usize = 0;
    assert(rows(out@) =~= Seq::<Seq<u8>>::empty());
    assert(s@.skip(0) =~= s@);
    while start < s.len()
        invariant
            start <= s.len(),
            pieces(s@, sep) == rows(out@) + pieces(s@.skip(start as int), sep),
        decreases s.len() - start,
    {
        let end = find_byte(s, start, sep);
        let ghost tail = s@.skip(start as int);
        let ghost before = rows(out@);
        assert(tail.take(end - start) =~= s@.subrange(start as int, end as int));
        if end > start {
            out.push(slice_to_vec(slice_subrange(s, start, end)));
            assert(rows(out@) =~= before + seq![tail.take(end - start)]);
        }
        if end < s.len() {
            assert(tail.skip(end - start + 1) =~= s@.skip(end + 1));
            start = end + 1;
        } else {
            assert(pieces(s@.skip(end as int), sep) =~= Seq::<Seq<u8>>::empty());
            start = end;
        }
        assert(pieces(s@, sep) =~= rows(out@) + pieces(s@.skip(start as int), sep));
    }
    assert(pieces(s@.skip(start as int), sep) =~= Seq::<Seq<u8>>::empty());
    assert(rows(out@) + Seq::<Seq<u8>>::empty() =~= rows(out@));
    out
}

} // verus!
