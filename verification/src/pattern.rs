//! Whole-string matching of a byte string against a pattern in which `.`
//! stands for any one byte and `x*` for zero or more repetitions of `x`.

use vstd::prelude::*;
use vstd::string::StringSliceAdditionalSpecFns;

verus! {

/// Whether pattern byte `pc` accepts text byte `c`.
pub open spec fn accepts(pc: u8, c: u8) -> bool {
    pc == 46u8 || pc == c
}

/// Whether the first `i` bytes of `s` match the first `j` bytes of `p`.
///
/// A `*` after some byte `x` stands for nothing or absorbs one more text
/// byte accepted by `x`; any other pattern byte (`.`, a plain byte, or a
/// `*` with no byte before it) consumes one text byte that it accepts.
pub open spec fn match_prefix(s: Seq<u8>, p: Seq<u8>, i: nat, j: nat) -> bool
    decreases i, j,
{
    if j == 0 {
        i == 0
    } else if p[j - 1] == 42u8 && j >= 2 {
        match_prefix(s, p, i, (j - 2) as nat) || (i > 0 && accepts(p[j - 2], s[i - 1])
            && match_prefix(s, p, (i - 1) as nat, j))
    } else if i == 0 {
        false
    } else {
        accepts(p[j - 1], s[i - 1]) && match_prefix(s, p, (i - 1) as nat, (j - 1) as nat)
    }
}

/// Every byte of `t` is accepted by the pattern byte `x`.
pub open spec fn repeats(x: u8, t: Seq<u8>) -> bool {
    forall|m: int| 0 <= m < t.len() ==> accepts(x, #[trigger] t[m])
}

/// The texts that a pattern stands for, read from its end: an empty
/// pattern stands for the empty text; a pattern ending in `x*` stands for
/// a text of the rest followed by any number of bytes that `x` accepts;
/// any other pattern ends in one byte that must accept the text's last
/// byte.
pub open spec fn in_language(s: Seq<u8>, p: Seq<u8>) -> bool
    decreases p.len(),
{
    if p.len() == 0 {
        s.len() == 0
    } else if p.len() >= 2 && p.last() == 42u8 {
        exists|k: int|
            0 <= k <= s.len() && in_language(s.take(k), p.take(p.len() - 2)) && #[trigger] repeats(
                p[p.len() - 2],
                s.skip(k),
            )
    } else {
        s.len() > 0 && accepts(p.last(), s.last()) && in_language(s.drop_last(), p.drop_last())
    }
}

/// Whether all of `s` matches all of `p`.
pub open spec fn full_match(s: Seq<u8>, p: Seq<u8>) -> bool {
    match_prefix(s, p, s.len(), p.len())
}

/// The pattern has no `*`.
pub open spec fn star_free(p: Seq<u8>) -> bool {
    forall|k: int| 0 <= k < p.len() ==> p[k] != 42u8
}

/// Position by position, each pattern byte accepts the text byte.
pub open spec fn accepts_all(s: Seq<u8>, p: Seq<u8>, n: int) -> bool {
    forall|k: int| 0 <= k < n ==> accepts(#[trigger] p[k], s[k])
}

proof fn lemma_star_free_prefix(s: Seq<u8>, p: Seq<u8>, i: nat, j: nat)
    requires
        star_free(p),
        i <= s.len(),
        j <= p.len(),
    ensures
        match_prefix(s, p, i, j) == (i == j && accepts_all(s, p, i as int)),
    decreases i, j,
{
    if j == 0 {
    } else if i == 0 {
        assert(p[j - 1] != 42u8);
    } else {
        lemma_star_free_prefix(s, p, (i - 1) as nat, (j - 1) as nat);
        assert(p[j - 1] != 42u8);
        if i == j && accepts_all(s, p, i as int) {
            assert(accepts(p[j - 1], s[i - 1]));
        }
        if accepts(p[j - 1], s[i - 1]) && i - 1 == j - 1 && accepts_all(s, p, i - 1) {
            assert forall|k: int| 0 <= k < i implies accepts(#[trigger] p[k], s[k]) by {
                if k < i - 1 {
                    assert(accepts(p[k], s[k]));
                }
            }
        }
    }
}

/// Row `i`, column `j` of the match table says whether the first `i`
/// bytes of the text are in the language of the first `j` pattern bytes.
proof fn lemma_prefix_in_language(s: Seq<u8>, p: Seq<u8>, i: nat, j: nat)
    requires
        i <= s.len(),
        j <= p.len(),
    ensures
        match_prefix(s, p, i, j) == in_language(s.take(i as int), p.take(j as int)),
    decreases i, j,
{
    let t = s.take(i as int);
    let q = p.take(j as int);
    if j == 0 {
    } else if p[j - 1] == 42u8 && j >= 2 {
        let x = p[j - 2];
        let r = p.take(j - 2);
        assert(q.len() >= 2 && q.last() == 42u8);
        assert(q.take(q.len() - 2) =~= r);
        assert(q[q.len() - 2] == x);
        assert forall|k: int| 0 <= k <= i implies #[trigger] t.take(k) == s.take(k) by {
            assert(t.take(k) =~= s.take(k));
        }
        assert forall|k: int| 0 <= k <= i implies match_prefix(s, p, k as nat, (j - 2) as nat)
            == in_language(s.take(k), r) by {
            lemma_prefix_in_language(s, p, k as nat, (j - 2) as nat);
        }
        if i > 0 {
            lemma_prefix_in_language(s, p, (i - 1) as nat, j);
        }
        if match_prefix(s, p, i, j) {
            if match_prefix(s, p, i, (j - 2) as nat) {
                assert(t.take(i as int) == s.take(i as int));
                assert(t.skip(i as int).len() == 0);
                assert(in_language(t.take(i as int), r) && repeats(x, t.skip(i as int)));
            } else {
                let t1 = s.take(i - 1);
                let q1 = p.take(j as int);
                assert(in_language(t1, q1));
                assert(q1.take(q1.len() - 2) =~= r);
                assert(q1.len() >= 2 && q1.last() == 42u8);
                assert(exists|k: int|
                    0 <= k <= t1.len() && in_language(t1.take(k), q1.take(q1.len() - 2))
                        && #[trigger] repeats(q1[q1.len() - 2], t1.skip(k)));
                let k = choose|k: int|
                    0 <= k <= t1.len() && in_language(t1.take(k), q1.take(q1.len() - 2))
                        && #[trigger] repeats(q1[q1.len() - 2], t1.skip(k));
                assert(t1.take(k) =~= s.take(k));
                assert(t.take(k) =~= s.take(k));
                assert forall|m: int| 0 <= m < t.skip(k).len() implies accepts(
                    x,
                    #[trigger] t.skip(k)[m],
                ) by {
                    if m < t1.skip(k).len() {
                        assert(t.skip(k)[m] == t1.skip(k)[m]);
                    } else {
                        assert(t.skip(k)[m] == s[i - 1]);
                    }
                }
                assert(in_language(t.take(k), r) && repeats(x, t.skip(k)));
            }
        } else {
            if in_language(t, q) {
                let k = choose|k: int|
                    0 <= k <= t.len() && in_language(t.take(k), q.take(q.len() - 2))
                        && #[trigger] repeats(q[q.len() - 2], t.skip(k));
                if k == i {
                    assert(match_prefix(s, p, i, (j - 2) as nat));
                } else {
                    let t1 = s.take(i - 1);
                    assert(t.skip(k)[i - 1 - k] == s[i - 1]);
                    assert(accepts(x, s[i - 1]));
                    assert(t1.take(k) =~= s.take(k));
                    assert forall|m: int| 0 <= m < t1.skip(k).len() implies accepts(
                        x,
                        #[trigger] t1.skip(k)[m],
                    ) by {
                        assert(t1.skip(k)[m] == t.skip(k)[m]);
                    }
                    assert(in_language(t1.take(k), r) && repeats(x, t1.skip(k)));
                    assert(in_language(t1, p.take(j as int)));
                    assert(false);
                }
            }
        }
    } else if i == 0 {
        assert(!(q.len() >= 2 && q.last() == 42u8));
    } else {
        lemma_prefix_in_language(s, p, (i - 1) as nat, (j - 1) as nat);
        assert(!(q.len() >= 2 && q.last() == 42u8));
        assert(t.drop_last() =~= s.take(i - 1));
        assert(q.drop_last() =~= p.take(j - 1));
    }
}

/// The matcher decides membership in the pattern's language: `s` matches
/// `p` exactly when `s` is one of the texts that `p` stands for.
pub proof fn law_matches_language(s: Seq<u8>, p: Seq<u8>)
    ensures
        full_match(s, p) == in_language(s, p),
{
    lemma_prefix_in_language(s, p, s.len(), p.len());
    assert(s.take(s.len() as int) =~= s);
    assert(p.take(p.len() as int) =~= p);
}

/// `.*` matches every text.
pub proof fn law_dot_star_matches_everything(s: Seq<u8>)
    ensures
        full_match(s, seq![46u8, 42u8]),
{
    let p = seq![46u8, 42u8];
    law_matches_language(s, p);
    assert(p.len() == 2 && p.last() == 42u8 && p[0] == 46u8);
    assert(p.take(0) =~= Seq::<u8>::empty());
    assert(s.take(0) =~= Seq::<u8>::empty());
    assert(s.skip(0) =~= s);
    assert(in_language(s.take(0), p.take(p.len() - 2)) && repeats(46u8, s.skip(0)));
}

/// A pattern without `*` matches exactly the texts of its own length in
/// which every byte is accepted by the pattern byte at its position (`.`
/// accepting any byte).
pub proof fn law_star_free_patterns(s: Seq<u8>, p: Seq<u8>)
    requires
        star_free(p),
    ensures
        full_match(s, p) == (s.len() == p.len() && accepts_all(s, p, s.len() as int)),
{
    lemma_star_free_prefix(s, p, s.len(), p.len());
}

/// A pattern without `.` or `*` matches exactly itself.
pub proof fn law_plain_pattern_matches_itself(s: Seq<u8>, p: Seq<u8>)
    requires
        forall|k: int| 0 <= k < p.len() ==> p[k] != 42u8 && p[k] != 46u8,
    ensures
        full_match(s, p) == (s == p),
{
    law_star_free_patterns(s, p);
    if s.len() == p.len() && accepts_all(s, p, s.len() as int) {
        assert forall|k: int| 0 <= k < s.len() implies s[k] == p[k] by {
            assert(accepts(p[k], s[k]));
        }
        assert(s =~= p);
    }
    if s == p {
        assert forall|k: int| 0 <= k < s.len() implies accepts(#[trigger] p[k], s[k]) by {
        }
    }
}

/// Computes row `i` of the match table from row `i - 1`.
fn next_row(s: &[u8], p: &[u8], i: usize, prev: &Vec<bool>) -> (row: Vec<bool>)
    requires
        1 <= i <= s.len(),
        prev.len() == p.len() + 1,
        forall|j: int|
            0 <= j <= p.len() ==> prev@[j] == match_prefix(s@, p@, (i - 1) as nat, j as nat),
    ensures
        row.len() == p.len() + 1,
        forall|j: int| 0 <= j <= p.len() ==> row@[j] == match_prefix(s@, p@, i as nat, j as nat),
{
    let n = p.len();
    let mut row: Vec<bool> = Vec::new();
    row.push(false);
    let mut k: usize = 0;
    while k < n
        invariant
            n == p.len(),
            1 <= i <= s.len(),
            prev.len() == n + 1,
            forall|j: int|
                0 <= j <= n ==> prev@[j] == match_prefix(s@, p@, (i - 1) as nat, j as nat),
            k <= n,
            row.len() == k + 1,
            forall|j: int| 0 <= j <= k ==> row@[j] == match_prefix(s@, p@, i as nat, j as nat),
        decreases n - k,
    {
        let j = k + 1;
        let pc = p[j - 1];
        let c = s[i - 1];
        let v = if pc == 42u8 && j >= 2 {
            let zero = row[j - 2];
            if zero {
                true
            } else if p[j - 2] == 46u8 || p[j - 2] == c {
                prev[j]
            } else {
                false
            }
        } else if pc == 46u8 || pc == c {
            prev[j - 1]
        } else {
            false
        };
        row.push(v);
        k += 1;
    }
    row
}

/// Whether the whole of `s` matches the whole of `p`, byte by byte.
pub fn is_match(s: &str, p: &str) -> (b: bool)
    ensures
        b == full_match(s.spec_bytes(), p.spec_bytes()),
{
    let sb = s.as_bytes();
    let pb = p.as_bytes();
    let m = sb.len();
    let n = pb.len();
    // Row 0: the empty text.
    let mut row: Vec<bool> = Vec::new();
    row.push(true);
    let mut k: usize = 0;
    while k < n
        invariant
            n == pb.len(),
            k <= n,
            row.len() == k + 1,
            forall|j: int| 0 <= j <= k ==> row@[j] == match_prefix(sb@, pb@, 0, j as nat),
        decreases n - k,
    {
        let j = k + 1;
        let v = if pb[j - 1] == 42u8 && j >= 2 {
            row[j - 2]
        } else {
            false
        };
        row.push(v);
        k += 1;
    }
    let mut i: usize = 0;
    while i < m
        invariant
            m == sb.len(),
            n == pb.len(),
            i <= m,
            row.len() == n + 1,
            forall|j: int| 0 <= j <= n ==> row@[j] == match_prefix(sb@, pb@, i as nat, j as nat),
        decreases m - i,
    {
        row = next_row(sb, pb, i + 1, &row);
        i += 1;
    }
    row[n]
}

} // verus!
