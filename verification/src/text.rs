//! Byte-level text helpers for the mapping database parser.
//!
//! The database is line-oriented ASCII text; lines are split on commas into
//! fields and fields on colons into key/value pairs.  Everything here works
//! on plain byte sequences.
use vstd::prelude::*;

verus! {

/// The fields of `s` split on `sep`: the separators are dropped and every
/// run between two of them is one field, so `n` separators give `n + 1`
/// fields and an empty input gives one empty field.
pub open spec fn split_on(s: Seq<u8>, sep: u8) -> Seq<Seq<u8>>
    decreases s.len(),
{
    if s.len() == 0 {
        seq![Seq::<u8>::empty()]
    } else if s[0] == sep {
        seq![Seq::<u8>::empty()] + split_on(s.subrange(1, s.len() as int), sep)
    } else {
        let rest = split_on(s.subrange(1, s.len() as int), sep);
        seq![seq![s[0]] + rest[0]] + rest.subrange(1, rest.len() as int)
    }
}

/// Splitting yields at least one field.
pub proof fn lemma_split_on_basic(s: Seq<u8>, sep: u8)
    ensures
        split_on(s, sep).len() >= 1,
    decreases s.len(),
{
    if s.len() > 0 {
        lemma_split_on_basic(s.subrange(1, s.len() as int), sep);
    }
}

/// How one separator consumes: when a separator-free prefix is followed by
/// a separator at position `k`, the split is that prefix and then the split
/// of what follows the separator.
pub proof fn lemma_split_on_step(s: Seq<u8>, sep: u8, k: int)
    requires
        0 <= k < s.len(),
        s[k] == sep,
        forall|j: int| 0 <= j < k ==> s[j] != sep,
    ensures
        split_on(s, sep) == seq![s.subrange(0, k)]
            + split_on(s.subrange(k + 1, s.len() as int), sep),
    decreases s.len(),
{
    let tail = s.subrange(1, s.len() as int);
    if k == 0 {
        assert(s.subrange(0, 0) =~= Seq::<u8>::empty());
        assert(s.subrange(1, s.len() as int) =~= tail);
    } else {
        assert(forall|j: int| 0 <= j < k - 1 ==> tail[j] != sep);
        assert(tail[k - 1] == sep);
        lemma_split_on_step(tail, sep, k - 1);
        lemma_split_on_basic(tail.subrange(k, tail.len() as int), sep);
        let rest = split_on(tail, sep);
        assert(rest[0] == tail.subrange(0, k - 1));
        assert(seq![s[0]] + rest[0] =~= s.subrange(0, k));
        assert(rest.subrange(1, rest.len() as int)
            =~= split_on(tail.subrange(k, tail.len() as int), sep));
        assert(tail.subrange(k, tail.len() as int) =~= s.subrange(k + 1, s.len() as int));
        assert(split_on(s, sep) =~= seq![s.subrange(0, k)]
            + split_on(s.subrange(k + 1, s.len() as int), sep));
    }
}

/// A separator-free sequence splits into itself alone.
pub proof fn lemma_split_on_whole(s: Seq<u8>, sep: u8)
    requires
        forall|j: int| 0 <= j < s.len() ==> s[j] != sep,
    ensures
        split_on(s, sep) == seq![s],
    decreases s.len(),
{
    if s.len() == 0 {
        assert(s =~= Seq::<u8>::empty());
        assert(split_on(s, sep) =~= seq![s]);
    } else {
        let tail = s.subrange(1, s.len() as int);
        lemma_split_on_whole(tail, sep);
        let rest = split_on(tail, sep);
        assert(rest[0] == tail);
        assert(seq![s[0]] + rest[0] =~= s);
        assert(rest.subrange(1, rest.len() as int) =~= Seq::<Seq<u8>>::empty());
        assert(split_on(s, sep) == seq![seq![s[0]] + rest[0]]
            + rest.subrange(1, rest.len() as int));
        assert(split_on(s, sep) =~= seq![s]);
    }
}

/// Split a byte slice on a separator byte.
pub fn split_bytes(s: &[u8], sep: u8) -> (r: Vec<Vec<u8>>)
    ensures
        r@.map_values(|t: Vec<u8>| t@) == split_on(s@, sep),
        r@.len() >= 1,
{
    let ghost whole = s@;
    let mut out: Vec<Vec<u8>> = Vec::new();
    let mut current: Vec<u8> = Vec::new();
    let mut i: usize = 0;
    proof {
        assert(current@ =~= s@.subrange(0, 0));
        assert(out@.map_values(|t: Vec<u8>| t@) =~= Seq::<Seq<u8>>::empty());
        assert(s@.subrange(0, s@.len() as int) =~= s@);
    }
    while i < s.len()
        invariant
            i <= s@.len(),
            whole == s@,
            current@.len() <= i,
            current@ == s@.subrange(i - current@.len(), i as int),
            forall|j: int| 0 <= j < current@.len() ==> current@[j] != sep,
            split_on(whole, sep) == out@.map_values(|t: Vec<u8>| t@)
                + split_on(s@.subrange(i - current@.len(), s@.len() as int), sep),
        decreases s@.len() - i,
    {
        let ghost start = i - current@.len();
        let ghost rest = s@.subrange(start as int, s@.len() as int);
        let b = s[i];
        if b == sep {
            proof {
                assert(rest[i - start] == sep);
                assert(forall|j: int| 0 <= j < i - start ==> rest[j] != sep);
                lemma_split_on_step(rest, sep, i - start);
                assert(rest.subrange(0, i - start) =~= current@);
                assert(rest.subrange(i - start + 1, rest.len() as int)
                    =~= s@.subrange(i + 1, s@.len() as int));
                assert((out@ + seq![current]).map_values(|t: Vec<u8>| t@)
                    =~= out@.map_values(|t: Vec<u8>| t@) + seq![current@]);
            }
            out.push(current);
            current = Vec::new();
            proof {
                assert(current@ =~= s@.subrange(i + 1, i + 1));
            }
        } else {
            current.push(b);
            proof {
                assert(current@ =~= s@.subrange(start as int, i + 1));
            }
        }
        i = i + 1;
    }
    proof {
        let ghost start = i - current@.len();
        let ghost rest = s@.subrange(start as int, s@.len() as int);
        assert(rest =~= current@);
        lemma_split_on_whole(rest, sep);
        assert((out@ + seq![current]).map_values(|t: Vec<u8>| t@)
            =~= out@.map_values(|t: Vec<u8>| t@) + seq![current@]);
        lemma_split_on_basic(whole, sep);
    }
    out.push(current);
    out
}

/// Whether two byte slices hold the same bytes.
pub fn bytes_eq(a: &[u8], b: &[u8]) -> (r: bool)
    ensures
        r <==> a@ == b@,
{
    if a.len() != b.len() {
        proof {
            assert(a@.len() != b@.len());
        }
        return false;
    }
    let mut i: usize = 0;
    while i < a.len()
        invariant
            i <= a@.len(),
            a@.len() == b@.len(),
            forall|j: int| 0 <= j < i ==> a@[j] == b@[j],
        decreases a@.len() - i,
    {
        if a[i] != b[i] {
            return false;
        }
        i = i + 1;
    }
    proof {
        assert(a@ =~= b@);
    }
    true
}

} // verus!
