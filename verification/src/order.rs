//! Lexicographic order on character sequences (the order of `String`s)
//! and sorting by it.

use vstd::prelude::*;

use crate::text::seqs;

verus! {

/// `a` comes no later than `b` in lexicographic order by code point.
pub open spec fn lex_le(a: Seq<char>, b: Seq<char>) -> bool
    decreases a.len(),
{
    if a.len() == 0 {
        true
    } else if b.len() == 0 {
        false
    } else if a[0] != b[0] {
        a[0] < b[0]
    } else {
        lex_le(a.drop_first(), b.drop_first())
    }
}

/// `s` is in ascending lexicographic order.
pub open spec fn sorted_lex(s: Seq<Seq<char>>) -> bool {
    forall|i: int, j: int| 0 <= i < j < s.len() ==> lex_le(#[trigger] s[i], #[trigger] s[j])
}

/// `out` holds the elements of `items`, sorted.
pub open spec fn sorted_version(out: Seq<Seq<char>>, items: Seq<Seq<char>>) -> bool {
    sorted_lex(out) && out.to_multiset() == items.to_multiset()
}

/// The elements of `items` in ascending order.
pub open spec fn sorted_of(items: Seq<Seq<char>>) -> Seq<Seq<char>> {
    choose|out: Seq<Seq<char>>| sorted_version(out, items)
}

pub proof fn lemma_lex_antisym(a: Seq<char>, b: Seq<char>)
    requires
        lex_le(a, b),
        lex_le(b, a),
    ensures
        a == b,
    decreases a.len(),
{
    if a.len() > 0 && b.len() > 0 {
        lemma_lex_antisym(a.drop_first(), b.drop_first());
        assert(a =~= seq![a[0]] + a.drop_first());
        assert(b =~= seq![b[0]] + b.drop_first());
    } else {
        assert(a =~= b);
    }
}

/// A sorted version of a sequence is the only one.
pub proof fn lemma_sorted_version_unique(out: Seq<Seq<char>>, items: Seq<Seq<char>>)
    requires
        sorted_version(out, items),
    ensures
        out == sorted_of(items),
{
    let other = sorted_of(items);
    assert(sorted_version(other, items));
    let leq = |a: Seq<char>, b: Seq<char>| lex_le(a, b);
    assert(vstd::relations::total_ordering(leq)) by {
        assert forall|a: Seq<char>| #[trigger] leq(a, a) by {
            lemma_lex_refl(a);
        }
        assert forall|a: Seq<char>, b: Seq<char>| #[trigger] leq(a, b) && #[trigger] leq(b, a) implies a == b by {
            lemma_lex_antisym(a, b);
        }
        assert forall|a: Seq<char>, b: Seq<char>, c: Seq<char>|
            #[trigger] leq(a, b) && #[trigger] leq(b, c) implies #[trigger] leq(a, c) by {
            lemma_lex_trans(a, b, c);
        }
        assert forall|a: Seq<char>, b: Seq<char>| #[trigger] leq(a, b) || #[trigger] leq(b, a) by {
            lemma_lex_total(a, b);
        }
    }
    assert(vstd::relations::sorted_by(out, leq)) by {
        assert forall|i: int, j: int| 0 <= i < j < out.len() implies #[trigger] leq(out[i], out[j]) by {
            assert(lex_le(out[i], out[j]));
        }
    }
    assert(vstd::relations::sorted_by(other, leq)) by {
        assert forall|i: int, j: int| 0 <= i < j < other.len() implies #[trigger] leq(other[i], other[j]) by {
            assert(lex_le(other[i], other[j]));
        }
    }
    vstd::seq_lib::lemma_sorted_unique(out, other, leq);
}

pub proof fn lemma_lex_total(a: Seq<char>, b: Seq<char>)
    ensures
        lex_le(a, b) || lex_le(b, a),
    decreases a.len(),
{
    if a.len() > 0 && b.len() > 0 && a[0] == b[0] {
        lemma_lex_total(a.drop_first(), b.drop_first());
    }
}

pub proof fn lemma_lex_refl(a: Seq<char>)
    ensures
        lex_le(a, a),
    decreases a.len(),
{
    if a.len() > 0 {
        lemma_lex_refl(a.drop_first());
    }
}

pub proof fn lemma_lex_trans(a: Seq<char>, b: Seq<char>, c: Seq<char>)
    requires
        lex_le(a, b),
        lex_le(b, c),
    ensures
        lex_le(a, c),
    decreases a.len(),
{
    if a.len() > 0 && b.len() > 0 && c.len() > 0 && a[0] == b[0] && b[0] == c[0] {
        lemma_lex_trans(a.drop_first(), b.drop_first(), c.drop_first());
    }
}

/// Whether `a` comes no later than `b`.
pub fn lex_le_exec(a: &[char], b: &[char]) -> (r: bool)
    ensures
        r == lex_le(a@, b@),
{
    let mut i: usize = 0;
    assert(a@.skip(0) =~= a@);
    assert(b@.skip(0) =~= b@);
    while i < a.len() && i < b.len()
        invariant
            i <= a.len(),
            i <= b.len(),
            forall|j: int| 0 <= j < i ==> a@[j] == b@[j],
            lex_le(a@, b@) == lex_le(a@.skip(i as int), b@.skip(i as int)),
        decreases a.len() - i,
    {
        if a[i] != b[i] {
            return a[i] < b[i];
        }
        assert(a@.skip(i as int).drop_first() =~= a@.skip(i as int + 1));
        assert(b@.skip(i as int).drop_first() =~= b@.skip(i as int + 1));
        i += 1;
    }
    i == a.len()
}

/// The items in ascending lexicographic order (`sort`).
pub fn sort_lex(items: Vec<Vec<char>>) -> (r: Vec<Vec<char>>)
    ensures
        sorted_version(seqs(r@), seqs(items@)),
        seqs(r@) == sorted_of(seqs(items@)),
{
    broadcast use vstd::seq_lib::to_multiset_insert;
    broadcast use vstd::seq_lib::group_to_multiset_ensures;

    let mut out: Vec<Vec<char>> = Vec::new();
    let mut i: usize = 0;
    assert(seqs(items@).take(0) =~= Seq::<Seq<char>>::empty());
    assert(seqs(out@) =~= Seq::<Seq<char>>::empty());
    while i < items.len()
        invariant
            i <= items.len(),
            sorted_lex(seqs(out@)),
            seqs(out@).to_multiset() == seqs(items@).take(i as int).to_multiset(),
        decreases items.len() - i,
    {
        let x = items[i].clone();
        let ghost xv = x@;
        assert(xv == seqs(items@)[i as int]);
        let mut pos: usize = 0;
        while pos < out.len() && lex_le_exec(out[pos].as_slice(), x.as_slice())
            invariant
                pos <= out.len(),
                xv == x@,
                forall|k: int| 0 <= k < pos ==> lex_le(#[trigger] seqs(out@)[k], xv),
            decreases out.len() - pos,
        {
            assert(seqs(out@)[pos as int] == out@[pos as int]@);
            pos += 1;
        }
        let ghost before = seqs(out@);
        proof {
            if pos < out.len() {
                lemma_lex_total(before[pos as int], xv);
            }
        }
        out.insert(pos, x);
        proof {
            assert(seqs(out@) =~= before.insert(pos as int, xv));
            assert forall|a: int, b: int| 0 <= a < b < seqs(out@).len() implies lex_le(
                #[trigger] seqs(out@)[a],
                #[trigger] seqs(out@)[b],
            ) by {
                let s = seqs(out@);
                if b < pos {
                    assert(s[a] == before[a] && s[b] == before[b]);
                } else if b == pos {
                    assert(s[a] == before[a]);
                } else if a == pos {
                    assert(s[b] == before[b - 1]);
                    lemma_lex_refl(before[pos as int]);
                    assert(lex_le(before[pos as int], before[b - 1]));
                    lemma_lex_trans(xv, before[pos as int], before[b - 1]);
                } else if a < pos {
                    assert(s[a] == before[a] && s[b] == before[b - 1]);
                    lemma_lex_refl(before[pos as int]);
                    assert(lex_le(before[pos as int], before[b - 1]));
                    lemma_lex_trans(before[a], xv, before[pos as int]);
                    lemma_lex_trans(before[a], before[pos as int], before[b - 1]);
                } else {
                    assert(s[a] == before[a - 1] && s[b] == before[b - 1]);
                }
            }
            assert(seqs(items@).take(i as int + 1) =~= seqs(items@).take(i as int).push(xv));
            assert(seqs(items@).take(i as int).push(xv) =~= seqs(items@).take(i as int).insert(i as int, xv));
            vstd::seq_lib::to_multiset_insert(before, pos as int, xv);
            vstd::seq_lib::to_multiset_insert(seqs(items@).take(i as int), i as int, xv);
        }
        i += 1;
    }
    assert(seqs(items@).take(items.len() as int) =~= seqs(items@));
    proof {
        lemma_sorted_version_unique(seqs(out@), seqs(items@));
    }
    out
}

} // verus!
