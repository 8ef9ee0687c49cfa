use vstd::multiset::Multiset;
use vstd::prelude::*;
use vstd::seq_lib::to_multiset_insert;

verus! {

broadcast use {vstd::seq_lib::group_to_multiset_ensures, vstd::multiset::group_multiset_axioms};

/// Byte-wise lexicographic order on names, compared from position `i` on.
pub open spec fn lex_le_from(a: Seq<u8>, b: Seq<u8>, i: int) -> bool
    decreases a.len() - i,
{
    if i >= a.len() {
        true
    } else if i >= b.len() {
        false
    } else if a[i] != b[i] {
        a[i] < b[i]
    } else {
        lex_le_from(a, b, i + 1)
    }
}

/// `a` sorts no later than `b`, comparing bytes from the first.
pub open spec fn lex_le(a: Seq<u8>, b: Seq<u8>) -> bool {
    lex_le_from(a, b, 0)
}

/// Names in non-decreasing byte-wise order.
pub open spec fn sorted(s: Seq<Seq<u8>>) -> bool {
    forall|i: int, j: int| 0 <= i < j < s.len() ==> lex_le(#[trigger] s[i], #[trigger] s[j])
}

proof fn lemma_lex_refl(a: Seq<u8>, i: int)
    requires
        0 <= i,
    ensures
        lex_le_from(a, a, i),
    decreases a.len() - i,
{
    if i < a.len() {
        lemma_lex_refl(a, i + 1);
    }
}

proof fn lemma_lex_total(a: Seq<u8>, b: Seq<u8>, i: int)
    requires
        0 <= i,
        !lex_le_from(a, b, i),
    ensures
        lex_le_from(b, a, i),
    decreases a.len() - i,
{
    if i < a.len() && i < b.len() && a[i] == b[i] {
        lemma_lex_total(a, b, i + 1);
    }
}

proof fn lemma_lex_trans(a: Seq<u8>, b: Seq<u8>, c: Seq<u8>, i: int)
    requires
        0 <= i,
        lex_le_from(a, b, i),
        lex_le_from(b, c, i),
    ensures
        lex_le_from(a, c, i),
    decreases a.len() - i,
{
    if i < a.len() && i < b.len() && i < c.len() && a[i] == b[i] && b[i] == c[i] {
        lemma_lex_trans(a, b, c, i + 1);
    }
}

proof fn lemma_lex_antisym(a: Seq<u8>, b: Seq<u8>, i: int)
    requires
        0 <= i <= a.len(),
        0 <= i <= b.len(),
        lex_le_from(a, b, i),
        lex_le_from(b, a, i),
        a.subrange(0, i) == b.subrange(0, i),
    ensures
        a == b,
    decreases a.len() - i,
{
    if i < a.len() && i < b.len() {
        assert(a.subrange(0, i + 1) =~= a.subrange(0, i).push(a[i]));
        assert(b.subrange(0, i + 1) =~= b.subrange(0, i).push(b[i]));
        lemma_lex_antisym(a, b, i + 1);
    } else {
        assert(a =~= a.subrange(0, i));
        assert(b =~= b.subrange(0, i));
    }
}

/// Whether `a` sorts no later than `b`.
pub fn name_le(a: &Vec<u8>, b: &Vec<u8>) -> (r: bool)
    ensures
        r == lex_le(a@, b@),
{
    let mut i: usize = 0;
    while i < a.len()
        invariant
            i <= a.len(),
            lex_le(a@, b@) == lex_le_from(a@, b@, i as int),
        decreases a.len() - i,
    {
        if i >= b.len() {
            return false;
        }
        if a[i] != b[i] {
            return a[i] < b[i];
        }
        i = i + 1;
    }
    true
}

/// `names` in byte-wise order: the same names, each as often, sorted.
pub fn sort_names(names: Vec<Vec<u8>>) -> (r: Vec<Vec<u8>>)
    ensures
        sorted(r@.map_values(|v: Vec<u8>| v@)),
        r@.map_values(|v: Vec<u8>| v@).to_multiset() == names@.map_values(|v: Vec<u8>| v@).to_multiset(),
{
    let mut rest = names;
    let mut out: Vec<Vec<u8>> = Vec::new();
    let ghost all = names@.map_values(|v: Vec<u8>| v@);
    proof {
        assert(out@.map_values(|v: Vec<u8>| v@) =~= Seq::<Seq<u8>>::empty());
        assert(out@.map_values(|v: Vec<u8>| v@).to_multiset() =~= Multiset::<Seq<u8>>::empty());
        assert(rest@.map_values(|v: Vec<u8>| v@) == all);
    }
    while rest.len() > 0
        invariant
            sorted(out@.map_values(|v: Vec<u8>| v@)),
            out@.map_values(|v: Vec<u8>| v@).to_multiset().add(
                rest@.map_values(|v: Vec<u8>| v@).to_multiset(),
            ) == all.to_multiset(),
        decreases rest.len(),
    {
        let ghost rest_before = rest@.map_values(|v: Vec<u8>| v@);
        let x = rest.pop().unwrap();
        proof {
            assert(rest_before =~= rest@.map_values(|v: Vec<u8>| v@).push(x@));
            rest@.map_values(|v: Vec<u8>| v@).to_multiset_ensures();
        }
        let ghost outv = out@.map_values(|v: Vec<u8>| v@);
        let mut p: usize = 0;
        while p < out.len() && name_le(&out[p], &x)
            invariant
                p <= out.len(),
                outv == out@.map_values(|v: Vec<u8>| v@),
                forall|k: int| 0 <= k < p ==> lex_le(#[trigger] outv[k], x@),
            decreases out.len() - p,
        {
            p = p + 1;
        }
        proof {
            if p < out.len() {
                lemma_lex_total(outv[p as int], x@, 0);
            }
        }
        out.insert(p, x);
        proof {
            let newv = out@.map_values(|v: Vec<u8>| v@);
            assert(newv =~= outv.insert(p as int, x@));
            to_multiset_insert(outv, p as int, x@);
            assert forall|i: int, j: int| 0 <= i < j < newv.len() implies lex_le(
                #[trigger] newv[i],
                #[trigger] newv[j],
            ) by {
                if j < p {
                } else if j == p {
                } else if i < p {
                    lemma_lex_trans(newv[i], x@, outv[p as int], 0);
                    if j - 1 > p {
                        lemma_lex_trans(newv[i], outv[p as int], newv[j], 0);
                    }
                } else if i == p {
                    if j - 1 > p {
                        lemma_lex_trans(x@, outv[p as int], newv[j], 0);
                    }
                } else {
                }
            }
        }
    }
    proof {
        assert(rest@.map_values(|v: Vec<u8>| v@) =~= Seq::<Seq<u8>>::empty());
        assert(out@.map_values(|v: Vec<u8>| v@).to_multiset().add(Multiset::empty())
            =~= out@.map_values(|v: Vec<u8>| v@).to_multiset());
    }
    out
}

proof fn lemma_sorted_unique(s1: Seq<Seq<u8>>, s2: Seq<Seq<u8>>)
    requires
        sorted(s1),
        sorted(s2),
        s1.to_multiset() == s2.to_multiset(),
    ensures
        s1 == s2,
    decreases s1.len(),
{
    s1.to_multiset_ensures();
    s2.to_multiset_ensures();
    if s1.len() == 0 {
        assert(s2.len() == 0);
        assert(s1 =~= s2);
    } else {
        assert(s2.len() == s1.len());
        assert(s1.to_multiset().count(s1[0]) > 0);
        assert(s2.contains(s1[0]));
        let j = choose|j: int| 0 <= j < s2.len() && s2[j] == s1[0];
        assert(s2.to_multiset().count(s2[0]) > 0);
        assert(s1.contains(s2[0]));
        let k = choose|k: int| 0 <= k < s1.len() && s1[k] == s2[0];
        assert(lex_le(s2[0], s1[0])) by {
            if j > 0 {
                assert(lex_le(s2[0], s2[j]));
            } else {
                lemma_lex_refl(s2[0], 0);
            }
        }
        assert(lex_le(s1[0], s2[0])) by {
            if k > 0 {
                assert(lex_le(s1[0], s1[k]));
            } else {
                lemma_lex_refl(s1[0], 0);
            }
        }
        assert(s1[0].subrange(0, 0) =~= s2[0].subrange(0, 0));
        lemma_lex_antisym(s1[0], s2[0], 0);
        let t1 = s1.drop_first();
        let t2 = s2.drop_first();
        assert(s1.remove(0) =~= t1);
        assert(s2.remove(0) =~= t2);
        assert(t1.to_multiset() == t2.to_multiset());
        assert(sorted(t1)) by {
            assert forall|a: int, b: int| 0 <= a < b < t1.len() implies lex_le(
                #[trigger] t1[a],
                #[trigger] t1[b],
            ) by {
                assert(lex_le(s1[a + 1], s1[b + 1]));
            }
        }
        assert(sorted(t2)) by {
            assert forall|a: int, b: int| 0 <= a < b < t2.len() implies lex_le(
                #[trigger] t2[a],
                #[trigger] t2[b],
            ) by {
                assert(lex_le(s2[a + 1], s2[b + 1]));
            }
        }
        lemma_sorted_unique(t1, t2);
        assert(s1 =~= s2) by {
            assert forall|i: int| 0 <= i < s1.len() implies s1[i] == s2[i] by {
                if i > 0 {
                    assert(s1[i] == t1[i - 1]);
                    assert(s2[i] == t2[i - 1]);
                }
            }
        }
    }
}

/// The order in which a directory's entries are listed does not matter:
/// two listings that hold the same names, each as often, sort alike.
pub proof fn lemma_listing_order_irrelevant(a: Seq<Seq<u8>>, b: Seq<Seq<u8>>, ra: Seq<Seq<u8>>, rb: Seq<Seq<u8>>)
    requires
        a.to_multiset() == b.to_multiset(),
        sorted(ra),
        ra.to_multiset() == a.to_multiset(),
        sorted(rb),
        rb.to_multiset() == b.to_multiset(),
    ensures
        ra == rb,
{
    lemma_sorted_unique(ra, rb);
}

} // verus!
