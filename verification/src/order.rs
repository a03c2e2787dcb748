//! Ordering of entity collections: every reader hands its entities out
//! sorted by a timestamp key, most recent first.

use vstd::prelude::*;
use vstd::multiset::Multiset;
use crate::text::{chars_le, le_str, lemma_chars_le_total, lemma_chars_le_trans};

verus! {

/// An entity with a timestamp sort key.
pub trait SortKeyed {
    /// The key the entity is ordered by.
    spec fn sort_key(&self) -> Seq<char>;

    /// The key as a string.
    fn key_str(&self) -> (r: &str)
        ensures
            r@ == self.sort_key(),
    ;
}

/// `s` is ordered by descending sort key: later entries never have a
/// larger key than earlier ones.
pub open spec fn sorted_desc<T: SortKeyed>(s: Seq<T>) -> bool {
    forall|i: int, j: int| 0 <= i < j < s.len() ==> chars_le(s[j].sort_key(), s[i].sort_key())
}

/// Sorts `input` by descending sort key. The result is a permutation of
/// the input; entries with equal keys may come out in any order.
pub fn sort_by_key_desc<T: SortKeyed>(input: Vec<T>) -> (r: Vec<T>)
    ensures
        sorted_desc(r@),
        r@.to_multiset() == input@.to_multiset(),
        r@.len() == input@.len(),
{
    broadcast use vstd::seq_lib::group_to_multiset_ensures;
    broadcast use vstd::multiset::group_multiset_axioms;

    let ghost orig = input@;
    let mut rest = input;
    let mut out: Vec<T> = Vec::new();
    proof {
        out@.to_multiset_ensures();
        assert(out@.to_multiset().add(rest@.to_multiset()) =~= orig.to_multiset());
    }
    while rest.len() > 0
        invariant
            sorted_desc(out@),
            out@.to_multiset().add(rest@.to_multiset()) == orig.to_multiset(),
            out@.len() + rest@.len() == orig.len(),
        decreases rest.len(),
    {
        let ghost rest0 = rest@;
        let x = rest.pop().unwrap();
        proof {
            let i: int = rest0.len() - 1;
            vstd::seq_lib::to_multiset_remove(rest0, i);
            vstd::seq_lib::to_multiset_contains(rest0, x);
            assert(rest0[i] == x);
            assert(rest0.contains(x));
            assert(rest@ =~= rest0.remove(i));
            assert(rest@.to_multiset() =~= rest0.to_multiset().remove(x));
        }
        let mut j: usize = 0;
        while j < out.len() && !le_str(out[j].key_str(), x.key_str())
            invariant
                j <= out@.len(),
                forall|p: int| 0 <= p < j ==> !chars_le(out@[p].sort_key(), x.sort_key()),
            decreases out@.len() - j,
        {
            j = j + 1;
        }
        let ghost out0 = out@;
        let ghost jj: int = j as int;
        out.insert(j, x);
        proof {
            assert forall|p: int, q: int| 0 <= p < q < out@.len() implies chars_le(
                out@[q].sort_key(),
                out@[p].sort_key(),
            ) by {
                assert(out@ == out0.insert(jj, x));
                if q < jj {
                    assert(out@[p] == out0[p] && out@[q] == out0[q]);
                } else if p > jj {
                    assert(out@[p] == out0[p - 1] && out@[q] == out0[q - 1]);
                } else if q == jj {
                    assert(out@[p] == out0[p]);
                    lemma_chars_le_total(out0[p].sort_key(), x.sort_key());
                } else if p == jj {
                    assert(out@[q] == out0[q - 1]);
                    assert(jj < out0.len());
                    assert(chars_le(out0[jj].sort_key(), x.sort_key()));
                    if q - 1 > jj {
                        assert(chars_le(out0[q - 1].sort_key(), out0[jj].sort_key()));
                        lemma_chars_le_trans(
                            out0[q - 1].sort_key(),
                            out0[jj].sort_key(),
                            x.sort_key(),
                        );
                    }
                } else {
                    assert(p < jj && q > jj);
                    assert(out@[p] == out0[p] && out@[q] == out0[q - 1]);
                }
            }
            vstd::seq_lib::to_multiset_insert(out0, jj, x);
            assert(out@.to_multiset() == out0.to_multiset().insert(x));
            assert(out@.to_multiset().add(rest@.to_multiset()) =~= orig.to_multiset());
        }
    }
    proof {
        rest@.to_multiset_ensures();
        assert(rest@.to_multiset() =~= Multiset::<T>::empty());
        assert(out@.to_multiset().add(rest@.to_multiset()) =~= out@.to_multiset());
    }
    out
}

/// The first `n` elements of `s`, or all of `s` when it is shorter.
pub open spec fn capped<T>(s: Seq<T>, n: int) -> Seq<T> {
    if s.len() <= n {
        s
    } else {
        s.take(n)
    }
}

/// Keeps the first `n` elements of `v` and drops the rest.
pub fn take_prefix<T>(v: Vec<T>, n: usize) -> (r: Vec<T>)
    ensures
        r@ == capped(v@, n as int),
{
    let ghost orig = v@;
    let mut w = v;
    w.truncate(n);
    proof {
        assert(w@ =~= capped(orig, n as int));
    }
    w
}

/// A prefix of a descending-sorted sequence is itself sorted.
pub proof fn lemma_sorted_prefix<T: SortKeyed>(s: Seq<T>, n: int)
    requires
        0 <= n,
        sorted_desc(s),
    ensures
        sorted_desc(capped(s, n)),
{
    if s.len() > n {
        assert forall|i: int, j: int| 0 <= i < j < capped(s, n).len() implies chars_le(
            capped(s, n)[j].sort_key(),
            capped(s, n)[i].sort_key(),
        ) by {
            assert(capped(s, n)[i] == s[i] && capped(s, n)[j] == s[j]);
        }
    }
}

} // verus!
