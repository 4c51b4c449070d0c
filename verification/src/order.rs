//! Lexicographic ordering of completion labels.
//!
//! Candidate labels are returned in one explicit deterministic order:
//! lexicographic by code point over the relative path. That replaces any
//! reliance on directory-traversal artifacts, which give no usable ordering
//! guarantee.

use vstd::multiset::Multiset;
use vstd::prelude::*;
use vstd::string::StrSliceExecFns;

verus! {

/// Lexicographic order on character sequences, comparing code points; a
/// prefix precedes every extension of itself.
pub open spec fn lex_leq(a: Seq<char>, b: Seq<char>) -> bool
    decreases a.len(),
{
    if a.len() == 0 {
        true
    } else if b.len() == 0 {
        false
    } else if (a[0] as u32) == (b[0] as u32) {
        lex_leq(a.skip(1), b.skip(1))
    } else {
        (a[0] as u32) < (b[0] as u32)
    }
}

/// The order is total: of any two sequences, one precedes the other.
pub proof fn lemma_lex_total(a: Seq<char>, b: Seq<char>)
    ensures
        lex_leq(a, b) || lex_leq(b, a),
    decreases a.len(),
{
    if a.len() > 0 && b.len() > 0 && (a[0] as u32) == (b[0] as u32) {
        lemma_lex_total(a.skip(1), b.skip(1));
    }
}

/// The order is transitive.
pub proof fn lemma_lex_trans(a: Seq<char>, b: Seq<char>, c: Seq<char>)
    requires
        lex_leq(a, b),
        lex_leq(b, c),
    ensures
        lex_leq(a, c),
    decreases a.len(),
{
    if a.len() > 0 && b.len() > 0 && c.len() > 0 && (a[0] as u32) == (b[0] as u32) && (b[0] as u32)
        == (c[0] as u32) {
        lemma_lex_trans(a.skip(1), b.skip(1), c.skip(1));
    }
}

/// Compare two strings in the order of [`lex_leq`].
pub fn str_leq(a: &str, b: &str) -> (r: bool)
    ensures
        r == lex_leq(a@, b@),
{
    let na = a.unicode_len();
    let nb = b.unicode_len();
    proof {
        assert(a@.skip(0) =~= a@);
        assert(b@.skip(0) =~= b@);
    }
    let mut i: usize = 0;
    while i < na && i < nb
        invariant
            i <= na,
            i <= nb,
            na == a@.len(),
            nb == b@.len(),
            lex_leq(a@, b@) == lex_leq(a@.skip(i as int), b@.skip(i as int)),
        decreases na - i,
    {
        let ca = a.get_char(i);
        let cb = b.get_char(i);
        proof {
            assert(a@.skip(i as int)[0] == a@[i as int]);
            assert(b@.skip(i as int)[0] == b@[i as int]);
        }
        if (ca as u32) != (cb as u32) {
            return (ca as u32) < (cb as u32);
        }
        proof {
            assert(a@.skip(i as int).skip(1) =~= a@.skip(i + 1));
            assert(b@.skip(i as int).skip(1) =~= b@.skip(i + 1));
        }
        i = i + 1;
    }
    proof {
        if i == na {
            assert(a@.skip(i as int).len() == 0);
        } else {
            assert(b@.skip(i as int).len() == 0);
            assert(a@.skip(i as int).len() > 0);
        }
    }
    na <= nb
}

/// Sortedness of a label sequence in the order of [`lex_leq`].
pub open spec fn lex_sorted(l: Seq<Seq<char>>) -> bool {
    forall|i: int, j: int| 0 <= i < j < l.len() ==> lex_leq(l[i], l[j])
}

proof fn lemma_insert_to_multiset(s: Seq<Seq<char>>, i: int, x: Seq<char>)
    requires
        0 <= i <= s.len(),
    ensures
        s.insert(i, x).to_multiset() == s.to_multiset().insert(x),
{
    broadcast use vstd::seq_lib::group_to_multiset_ensures;

    let t = s.insert(i, x);
    assert(t.remove(i) =~= s);
    assert(t[i] == x);
    assert(s.to_multiset() =~= t.to_multiset().remove(x));
    assert(t.to_multiset().contains(x));
    assert(t.to_multiset() =~= s.to_multiset().insert(x));
}

/// Sort labels into the order of [`lex_leq`]: the result is sorted and holds
/// exactly the given labels, multiplicity included.
pub fn sort_labels(labels: Vec<String>) -> (r: Vec<String>)
    ensures
        lex_sorted(crate::views_of(r@)),
        crate::views_of(r@).to_multiset() == crate::views_of(labels@).to_multiset(),
{
    broadcast use vstd::seq_lib::group_to_multiset_ensures;

    let mut rest = labels;
    let mut r: Vec<String> = Vec::new();
    let ghost all = crate::views_of(rest@).to_multiset();
    proof {
        assert(crate::views_of(r@) =~= Seq::<Seq<char>>::empty());
        assert(crate::views_of(r@).to_multiset().add(crate::views_of(rest@).to_multiset())
            =~= all);
    }
    while rest.len() > 0
        invariant
            lex_sorted(crate::views_of(r@)),
            crate::views_of(r@).to_multiset().add(crate::views_of(rest@).to_multiset()) == all,
        decreases rest.len(),
    {
        let ghost rest0 = rest@;
        let x = rest.pop().unwrap();
        proof {
            assert(crate::views_of(rest0) =~= crate::views_of(rest@).push(x@));
            vstd::seq_lib::to_multiset_build(crate::views_of(rest@), x@);
        }
        let mut p: usize = 0;
        while p < r.len() && str_leq(r[p].as_str(), x.as_str())
            invariant
                p <= r@.len(),
                forall|q: int| 0 <= q < p ==> lex_leq(crate::views_of(r@)[q], x@),
            decreases r@.len() - p,
        {
            p = p + 1;
        }
        let ghost rv = crate::views_of(r@);
        r.insert(p, x);
        proof {
            assert(crate::views_of(r@) =~= rv.insert(p as int, x@));
            lemma_insert_to_multiset(rv, p as int, x@);
            let ghost ms = crate::views_of(rest@).to_multiset();
            assert(rv.to_multiset().insert(x@).add(ms) =~= rv.to_multiset().add(ms.insert(x@)));
            assert forall|q: int| p <= q < rv.len() implies lex_leq(x@, rv[q]) by {
                lemma_lex_total(rv[p as int], x@);
                if q > p {
                    assert(lex_leq(rv[p as int], rv[q]));
                    lemma_lex_trans(x@, rv[p as int], rv[q]);
                }
            }
            let nv = crate::views_of(r@);
            assert forall|i: int, j: int| 0 <= i < j < nv.len() implies lex_leq(nv[i], nv[j]) by {
                if j < p {
                    assert(nv[i] == rv[i] && nv[j] == rv[j]);
                } else if i > p {
                    assert(nv[i] == rv[i - 1] && nv[j] == rv[j - 1]);
                } else if i == p {
                    assert(nv[i] == x@ && nv[j] == rv[j - 1]);
                } else if j == p {
                    assert(nv[i] == rv[i] && nv[j] == x@);
                } else {
                    assert(nv[i] == rv[i] && nv[j] == rv[j - 1]);
                    assert(lex_leq(rv[i], x@));
                    assert(lex_leq(x@, rv[j - 1]));
                    lemma_lex_trans(rv[i], x@, rv[j - 1]);
                }
            }
        }
    }
    proof {
        assert(crate::views_of(rest@).to_multiset() =~= Multiset::<Seq<char>>::empty());
        assert(crate::views_of(r@).to_multiset().add(Multiset::<Seq<char>>::empty())
            =~= crate::views_of(r@).to_multiset());
    }
    r
}

} // verus!
