//! Sorted, repeat-free sequences of Inputs and of Chord member sets: the
//! lexicographic order on member sets, and insertion that keeps a sequence
//! sorted.

use vstd::prelude::*;
use crate::config::{ChordKey, strictly_sorted};
use crate::input::{Input, input_lt, input_less, lemma_input_lt_total, lemma_input_lt_transitive};

verus! {

/// Lexicographic strict order on member sequences (a proper prefix sorts
/// first) — the order `Ord` gives ordered sets of Inputs.
pub open spec fn chord_lt(a: Seq<Input>, b: Seq<Input>) -> bool
    decreases a.len(),
{
    if a.len() == 0 {
        b.len() > 0
    } else if b.len() == 0 {
        false
    } else if input_lt(a[0], b[0]) {
        true
    } else if a[0] == b[0] {
        chord_lt(a.drop_first(), b.drop_first())
    } else {
        false
    }
}

/// `chord_lt` is irreflexive, asymmetric and total.
pub proof fn lemma_chord_lt_total(a: Seq<Input>, b: Seq<Input>)
    ensures
        !chord_lt(a, a),
        !(chord_lt(a, b) && chord_lt(b, a)),
        a != b ==> (chord_lt(a, b) || chord_lt(b, a)),
    decreases a.len(),
{
    if a.len() > 0 {
        lemma_input_lt_total(a[0], a[0]);
        lemma_chord_lt_total(a.drop_first(), a.drop_first());
    }
    if a.len() > 0 && b.len() > 0 {
        lemma_input_lt_total(a[0], b[0]);
        lemma_chord_lt_total(a.drop_first(), b.drop_first());
        if a[0] == b[0] && a.drop_first() == b.drop_first() {
            assert(a =~= seq![a[0]] + a.drop_first());
            assert(b =~= seq![b[0]] + b.drop_first());
        }
    } else if a.len() > 0 {
    } else if b.len() > 0 {
    } else {
        assert(a =~= b);
    }
}

/// `chord_lt` is transitive.
pub proof fn lemma_chord_lt_transitive(a: Seq<Input>, b: Seq<Input>, c: Seq<Input>)
    requires
        chord_lt(a, b),
        chord_lt(b, c),
    ensures
        chord_lt(a, c),
    decreases a.len(),
{
    if a.len() > 0 && b.len() > 0 && c.len() > 0 {
        lemma_input_lt_total(a[0], b[0]);
        lemma_input_lt_total(b[0], c[0]);
        if input_lt(a[0], b[0]) && input_lt(b[0], c[0]) {
            lemma_input_lt_transitive(a[0], b[0], c[0]);
        }
        if a[0] == b[0] && b[0] == c[0] {
            lemma_chord_lt_transitive(a.drop_first(), b.drop_first(), c.drop_first());
        }
    }
}

/// Member sequences in strictly ascending `chord_lt` order.
pub open spec fn chords_sorted(s: Seq<Seq<Input>>) -> bool {
    forall|i: int, j: int| 0 <= i < j < s.len() ==> chord_lt(s[i], s[j])
}

/// Whether member sequence `a` sorts strictly before `b`.
pub fn chord_less(a: &Vec<Input>, b: &Vec<Input>) -> (r: bool)
    ensures
        r == chord_lt(a@, b@),
{
    let mut i: usize = 0;
    proof {
        assert(a@.skip(0) =~= a@);
        assert(b@.skip(0) =~= b@);
    }
    while i < a.len() && i < b.len() && a[i] == b[i]
        invariant
            i <= a@.len(),
            i <= b@.len(),
            chord_lt(a@, b@) == chord_lt(a@.skip(i as int), b@.skip(i as int)),
        decreases a@.len() - i,
    {
        proof {
            let sa = a@.skip(i as int);
            let sb = b@.skip(i as int);
            assert(sa.drop_first() =~= a@.skip(i + 1));
            assert(sb.drop_first() =~= b@.skip(i + 1));
            lemma_input_lt_total(sa[0], sb[0]);
        }
        i = i + 1;
    }
    if i == a.len() {
        i < b.len()
    } else if i == b.len() {
        false
    } else {
        input_less(a[i], b[i])
    }
}

/// Inserts `x` into the strictly sorted `v`, keeping it strictly sorted and
/// adding `x` to its set of elements (nothing changes when `x` is present).
pub fn insert_input_sorted(v: &mut Vec<Input>, x: Input)
    requires
        strictly_sorted(old(v)@),
    ensures
        strictly_sorted(final(v)@),
        final(v)@.to_set() == old(v)@.to_set().insert(x),
{
    let ghost old_v = v@;
    let mut p: usize = 0;
    while p < v.len() && input_less(v[p], x)
        invariant
            p <= v@.len(),
            v@ == old_v,
            forall|q: int| 0 <= q < p ==> input_lt(v@[q], x),
        decreases v@.len() - p,
    {
        p = p + 1;
    }
    if p < v.len() && v[p] == x {
        assert(v@.contains(x));
        assert(v@.to_set() =~= v@.to_set().insert(x));
        return;
    }
    proof {
        if p < old_v.len() {
            lemma_input_lt_total(old_v[p as int], x);
            assert forall|q: int| p <= q < old_v.len() implies input_lt(x, old_v[q]) by {
                if q > p {
                    lemma_input_lt_transitive(x, old_v[p as int], old_v[q]);
                }
            }
        }
    }
    v.insert(p, x);
    proof {
        let m = v@;
        assert forall|a: int, b: int| 0 <= a < b < m.len() implies input_lt(m[a], m[b]) by {
            if a < p && b == p {
            } else if a < p && b > p {
                assert(m[b] == old_v[b - 1]);
                lemma_input_lt_transitive(m[a], x, m[b]);
            } else if a == p && b > p {
                assert(m[b] == old_v[b - 1]);
            } else if a > p {
                assert(m[a] == old_v[a - 1] && m[b] == old_v[b - 1]);
            } else {
                assert(m[a] == old_v[a] && m[b] == old_v[b]);
            }
        }
        assert forall|y: Input| m.to_set().contains(y) <==> old_v.to_set().insert(x).contains(y) by {
            if m.contains(y) {
                let k = choose|k: int| 0 <= k < m.len() && m[k] == y;
                if k < p {
                    assert(old_v[k] == y);
                } else if k > p {
                    assert(old_v[k - 1] == y);
                }
            }
            if old_v.contains(y) {
                let k = choose|k: int| 0 <= k < old_v.len() && old_v[k] == y;
                if k < p {
                    assert(m[k] == y);
                } else {
                    assert(m[k + 1] == y);
                }
            }
            if y == x {
                assert(m[p as int] == x);
            }
        }
        assert(m.to_set() =~= old_v.to_set().insert(x));
    }
}

/// The views of a list of Chord keys.
pub open spec fn chord_views(v: Seq<ChordKey>) -> Seq<Seq<Input>> {
    v.map_values(|k: ChordKey| k@)
}

/// Inserts `x` into the list of Chord keys sorted by `chord_lt`, keeping it
/// sorted and adding `x`'s member set to its set of member sets.
pub fn insert_chord_sorted(v: &mut Vec<ChordKey>, x: ChordKey)
    requires
        chords_sorted(chord_views(old(v)@)),
    ensures
        chords_sorted(chord_views(final(v)@)),
        chord_views(final(v)@).to_set() == chord_views(old(v)@).to_set().insert(x@),
{
    let ghost old_v = chord_views(v@);
    let mut p: usize = 0;
    while p < v.len() && chord_less(v[p].members(), x.members())
        invariant
            p <= v@.len(),
            chord_views(v@) == old_v,
            forall|q: int| 0 <= q < p ==> chord_lt(old_v[q], x@),
        decreases v@.len() - p,
    {
        p = p + 1;
    }
    if p < v.len() && !chord_less(x.members(), v[p].members()) {
        proof {
            lemma_chord_lt_total(old_v[p as int], x@);
            assert(old_v[p as int] == x@);
            assert(old_v.contains(x@));
            assert(old_v.to_set() =~= old_v.to_set().insert(x@));
        }
        return;
    }
    proof {
        if p < old_v.len() {
            assert forall|q: int| p <= q < old_v.len() implies chord_lt(x@, old_v[q]) by {
                if q > p {
                    lemma_chord_lt_transitive(x@, old_v[p as int], old_v[q]);
                }
            }
        }
    }
    let ghost xv = x@;
    v.insert(p, x);
    proof {
        let m = chord_views(v@);
        assert(m =~= old_v.insert(p as int, xv));
        assert forall|a: int, b: int| 0 <= a < b < m.len() implies chord_lt(m[a], m[b]) by {
            if a < p && b == p {
            } else if a < p && b > p {
                assert(m[b] == old_v[b - 1]);
                lemma_chord_lt_transitive(m[a], xv, m[b]);
            } else if a == p && b > p {
                assert(m[b] == old_v[b - 1]);
            } else if a > p {
                assert(m[a] == old_v[a - 1] && m[b] == old_v[b - 1]);
            } else {
                assert(m[a] == old_v[a] && m[b] == old_v[b]);
            }
        }
        assert forall|y: Seq<Input>| m.to_set().contains(y) <==> old_v.to_set().insert(xv).contains(y) by {
            if m.contains(y) {
                let k = choose|k: int| 0 <= k < m.len() && m[k] == y;
                if k < p {
                    assert(old_v[k] == y);
                } else if k > p {
                    assert(old_v[k - 1] == y);
                }
            }
            if old_v.contains(y) {
                let k = choose|k: int| 0 <= k < old_v.len() && old_v[k] == y;
                if k < p {
                    assert(m[k] == y);
                } else {
                    assert(m[k + 1] == y);
                }
            }
            if y == xv {
                assert(m[p as int] == xv);
            }
        }
        assert(m.to_set() =~= old_v.to_set().insert(xv));
    }
}

/// The prefix of length `i + 1` holds what the prefix of length `i` holds,
/// plus `s[i]`.
pub proof fn lemma_prefix_step<A>(s: Seq<A>, i: int)
    requires
        0 <= i < s.len(),
    ensures
        forall|x: A| #[trigger] s.subrange(0, i + 1).contains(x) <==> (s.subrange(0, i).contains(x) || x == s[i]),
{
    assert forall|x: A| #[trigger] s.subrange(0, i + 1).contains(x) <==> (s.subrange(0, i).contains(x) || x == s[i]) by {
        if s.subrange(0, i + 1).contains(x) {
            let k = choose|k: int| 0 <= k < i + 1 && #[trigger] s.subrange(0, i + 1)[k] == x;
            if k < i {
                assert(s.subrange(0, i)[k] == x);
            }
        }
        if s.subrange(0, i).contains(x) {
            let k = choose|k: int| 0 <= k < i && #[trigger] s.subrange(0, i)[k] == x;
            assert(s.subrange(0, i + 1)[k] == x);
        }
        if x == s[i] {
            assert(s.subrange(0, i + 1)[i] == x);
        }
    }
}

/// The whole sequence is its own longest prefix.
pub proof fn lemma_prefix_full<A>(s: Seq<A>)
    ensures
        forall|x: A| #[trigger] s.subrange(0, s.len() as int).contains(x) <==> s.contains(x),
{
    assert(s.subrange(0, s.len() as int) =~= s);
}

/// Two strictly sorted sequences with the same elements are equal.
pub proof fn lemma_sorted_unique(a: Seq<Input>, b: Seq<Input>)
    requires
        strictly_sorted(a),
        strictly_sorted(b),
        a.to_set() == b.to_set(),
    ensures
        a == b,
    decreases a.len(),
{
    if a.len() == 0 {
        if b.len() > 0 {
            assert(b.to_set().contains(b[0]));
            assert(a.to_set().contains(b[0]));
        }
        assert(a =~= b);
    } else {
        assert(a.to_set().contains(a[0]));
        assert(b.to_set().contains(a[0]));
        assert(b.len() > 0);
        assert(b.to_set().contains(b[0]));
        assert(a.to_set().contains(b[0]));
        let ia = choose|k: int| 0 <= k < a.len() && a[k] == b[0];
        let ib = choose|k: int| 0 <= k < b.len() && b[k] == a[0];
        lemma_input_lt_total(a[0], b[0]);
        if a[0] != b[0] {
            if input_lt(a[0], b[0]) {
                // b[0] is the least of b, yet a[0] < b[0] lies in b.
                if ib > 0 {
                    lemma_input_lt_transitive(a[0], b[0], b[ib]);
                }
                lemma_input_lt_total(a[0], a[0]);
            } else {
                if ia > 0 {
                    lemma_input_lt_transitive(b[0], a[0], a[ia]);
                }
                lemma_input_lt_total(b[0], b[0]);
            }
        }
        let ta = a.drop_first();
        let tb = b.drop_first();
        assert forall|y: Input| ta.to_set().contains(y) <==> tb.to_set().contains(y) by {
            if ta.contains(y) {
                let k = choose|k: int| 0 <= k < ta.len() && ta[k] == y;
                assert(a[k + 1] == y);
                assert(a.to_set().contains(y));
                assert(b.contains(y));
                let kb = choose|kb: int| 0 <= kb < b.len() && b[kb] == y;
                if kb == 0 {
                    lemma_input_lt_total(a[0], a[k + 1]);
                }
                assert(tb[kb - 1] == y);
            }
            if tb.contains(y) {
                let k = choose|k: int| 0 <= k < tb.len() && tb[k] == y;
                assert(b[k + 1] == y);
                assert(b.to_set().contains(y));
                assert(a.contains(y));
                let ka = choose|ka: int| 0 <= ka < a.len() && a[ka] == y;
                if ka == 0 {
                    lemma_input_lt_total(b[0], b[k + 1]);
                }
                assert(ta[ka - 1] == y);
            }
        }
        assert(ta.to_set() =~= tb.to_set());
        lemma_sorted_unique(ta, tb);
        assert(a =~= seq![a[0]] + ta);
        assert(b =~= seq![b[0]] + tb);
    }
}


/// Two strictly ascending sequences of member sets with the same elements
/// are equal.
pub proof fn lemma_chords_sorted_unique(a: Seq<Seq<Input>>, b: Seq<Seq<Input>>)
    requires
        chords_sorted(a),
        chords_sorted(b),
        a.to_set() == b.to_set(),
    ensures
        a == b,
    decreases a.len(),
{
    if a.len() == 0 {
        if b.len() > 0 {
            assert(b.to_set().contains(b[0]));
            assert(a.to_set().contains(b[0]));
        }
        assert(a =~= b);
    } else {
        assert(a.to_set().contains(a[0]));
        assert(b.to_set().contains(a[0]));
        assert(b.len() > 0);
        assert(b.to_set().contains(b[0]));
        assert(a.to_set().contains(b[0]));
        let ia = choose|k: int| 0 <= k < a.len() && a[k] == b[0];
        let ib = choose|k: int| 0 <= k < b.len() && b[k] == a[0];
        lemma_chord_lt_total(a[0], b[0]);
        if a[0] != b[0] {
            if chord_lt(a[0], b[0]) {
                if ib > 0 {
                    lemma_chord_lt_transitive(a[0], b[0], b[ib]);
                }
                lemma_chord_lt_total(a[0], a[0]);
            } else {
                if ia > 0 {
                    lemma_chord_lt_transitive(b[0], a[0], a[ia]);
                }
                lemma_chord_lt_total(b[0], b[0]);
            }
        }
        let ta = a.drop_first();
        let tb = b.drop_first();
        assert forall|y: Seq<Input>| ta.to_set().contains(y) <==> tb.to_set().contains(y) by {
            if ta.contains(y) {
                let k = choose|k: int| 0 <= k < ta.len() && ta[k] == y;
                assert(a[k + 1] == y);
                assert(a.to_set().contains(y));
                assert(b.contains(y));
                let kb = choose|kb: int| 0 <= kb < b.len() && b[kb] == y;
                if kb == 0 {
                    lemma_chord_lt_total(a[0], a[k + 1]);
                }
                assert(tb[kb - 1] == y);
            }
            if tb.contains(y) {
                let k = choose|k: int| 0 <= k < tb.len() && tb[k] == y;
                assert(b[k + 1] == y);
                assert(b.to_set().contains(y));
                assert(a.contains(y));
                let ka = choose|ka: int| 0 <= ka < a.len() && a[ka] == y;
                if ka == 0 {
                    lemma_chord_lt_total(b[0], b[k + 1]);
                }
                assert(ta[ka - 1] == y);
            }
        }
        assert(ta.to_set() =~= tb.to_set());
        lemma_chords_sorted_unique(ta, tb);
        assert(a =~= seq![a[0]] + ta);
        assert(b =~= seq![b[0]] + tb);
    }
}

} // verus!
