//! Stable sorting of positions by a key.

use vstd::prelude::*;

verus! {

/// A key that a list can be ordered by: `before` is a strict order in which
/// keys may tie.
pub trait Ranked: Sized {
    /// True when `self` is to stand ahead of `other`.
    spec fn before(&self, other: &Self) -> bool;

    /// Decides `before`.
    fn is_before(&self, other: &Self) -> (r: bool)
        ensures
            r == self.before(other),
    ;

    /// Of two keys at most one stands ahead of the other.
    proof fn lemma_asymmetric(a: &Self, b: &Self)
        ensures
            !(a.before(b) && b.before(a)),
    ;

    /// Not standing behind is transitive.
    proof fn lemma_transitive(a: &Self, b: &Self, c: &Self)
        requires
            !b.before(a),
            !c.before(b),
        ensures
            !c.before(a),
    ;
}

/// True when position `a` is to be listed ahead of position `b`: by key, and
/// between equal keys by position.
pub open spec fn listed_before<K: Ranked>(keys: Seq<K>, a: int, b: int) -> bool {
    keys[a].before(&keys[b]) || (!keys[b].before(&keys[a]) && a < b)
}

/// True when `order` lists every position of `keys` once, in stable order.
pub open spec fn is_stable_order<K: Ranked>(keys: Seq<K>, order: Seq<usize>) -> bool {
    &&& order.len() == keys.len()
    &&& forall|i: int| 0 <= i < order.len() ==> #[trigger] order[i] < keys.len()
    &&& forall|x: usize| x < keys.len() ==> #[trigger] order.contains(x)
    &&& forall|i: int, j: int|
        0 <= i < j < order.len() ==> listed_before(
            keys,
            #[trigger] order[i] as int,
            #[trigger] order[j] as int,
        )
}

spec fn is_run<K: Ranked>(keys: Seq<K>, lo: int, hi: int, s: Seq<usize>) -> bool {
    &&& 0 <= lo <= hi <= keys.len()
    &&& s.len() == hi - lo
    &&& forall|i: int| 0 <= i < s.len() ==> lo <= #[trigger] s[i] < hi
    &&& forall|x: usize| lo <= x < hi ==> #[trigger] s.contains(x)
    &&& forall|i: int, j: int|
        0 <= i < j < s.len() ==> listed_before(
            keys,
            #[trigger] s[i] as int,
            #[trigger] s[j] as int,
        )
}

proof fn lemma_listed_transitive<K: Ranked>(keys: Seq<K>, a: int, b: int, c: int)
    requires
        listed_before(keys, a, b),
        listed_before(keys, b, c),
    ensures
        listed_before(keys, a, c),
{
    let (x, y, z) = (keys[a], keys[b], keys[c]);
    K::lemma_asymmetric(&x, &y);
    K::lemma_asymmetric(&y, &z);
    K::lemma_transitive(&x, &y, &z);
    if x.before(&y) || y.before(&z) {
        if !x.before(&z) {
            if x.before(&y) {
                K::lemma_transitive(&y, &z, &x);
            } else {
                K::lemma_transitive(&z, &x, &y);
            }
        }
    }
}

proof fn lemma_listed_asymmetric<K: Ranked>(keys: Seq<K>, a: int, b: int)
    ensures
        !(listed_before(keys, a, b) && listed_before(keys, b, a)),
        a != b ==> listed_before(keys, a, b) || listed_before(keys, b, a),
{
    K::lemma_asymmetric(&keys[a], &keys[b]);
}

/// There is only one stable order of a list.
pub proof fn lemma_stable_order_unique<K: Ranked>(keys: Seq<K>, p: Seq<usize>, q: Seq<usize>)
    requires
        is_stable_order(keys, p),
        is_stable_order(keys, q),
    ensures
        p == q,
{
    assert forall|i: int| 0 <= i < p.len() implies p[i] == q[i] by {
        lemma_same_at(keys, p, q, i);
    }
    assert(p =~= q);
}

proof fn lemma_same_at<K: Ranked>(keys: Seq<K>, p: Seq<usize>, q: Seq<usize>, i: int)
    requires
        is_stable_order(keys, p),
        is_stable_order(keys, q),
        0 <= i < p.len(),
    ensures
        p[i] == q[i],
    decreases i,
{
    assert forall|j: int| 0 <= j < i implies p[j] == q[j] by {
        lemma_same_at(keys, p, q, j);
    }
    if p[i] != q[i] {
        assert(q.contains(p[i]));
        assert(p.contains(q[i]));
        let a = choose|a: int| 0 <= a < q.len() && q[a] == p[i];
        let b = choose|b: int| 0 <= b < p.len() && p[b] == q[i];
        if a < i {
            assert(p[a] == p[i]);
            assert(listed_before(keys, p[a] as int, p[i] as int));
            lemma_listed_asymmetric(keys, p[a] as int, p[i] as int);
        }
        if b < i {
            assert(q[b] == q[i]);
            assert(listed_before(keys, q[b] as int, q[i] as int));
            lemma_listed_asymmetric(keys, q[b] as int, q[i] as int);
        }
        assert(i < a && i < b);
        assert(listed_before(keys, q[i] as int, q[a] as int));
        assert(listed_before(keys, p[i] as int, p[b] as int));
        lemma_listed_asymmetric(keys, p[i] as int, q[i] as int);
    }
}

#[verifier::rlimit(30)]
fn merge<K: Ranked>(keys: &Vec<K>, left: &Vec<usize>, right: &Vec<usize>, Ghost(lo): Ghost<int>, Ghost(mid): Ghost<int>, Ghost(hi): Ghost<int>) -> (out: Vec<usize>)
    requires
        is_run(keys@, lo, mid, left@),
        is_run(keys@, mid, hi, right@),
    ensures
        is_run(keys@, lo, hi, out@),
{
    let mut out: Vec<usize> = Vec::new();
    let mut i: usize = 0;
    let mut j: usize = 0;
    while i < left.len() || j < right.len()
        invariant
            is_run(keys@, lo, mid, left@),
            is_run(keys@, mid, hi, right@),
            i <= left@.len(),
            j <= right@.len(),
            out@.len() == i + j,
            forall|a: int| 0 <= a < i ==> out@.contains(#[trigger] left@[a]),
            forall|a: int| 0 <= a < j ==> out@.contains(#[trigger] right@[a]),
            forall|k: int| 0 <= k < out@.len() ==> lo <= #[trigger] out@[k] < hi,
            forall|k: int, l: int|
                0 <= k < l < out@.len() ==> listed_before(
                    keys@,
                    #[trigger] out@[k] as int,
                    #[trigger] out@[l] as int,
                ),
            forall|k: int, l: int|
                0 <= k < out@.len() && i <= l < left@.len() ==> listed_before(
                    keys@,
                    #[trigger] out@[k] as int,
                    #[trigger] left@[l] as int,
                ),
            forall|k: int, l: int|
                0 <= k < out@.len() && j <= l < right@.len() ==> listed_before(
                    keys@,
                    #[trigger] out@[k] as int,
                    #[trigger] right@[l] as int,
                ),
        decreases left@.len() - i + right@.len() - j,
    {
        let take_left: bool = if i == left.len() {
            false
        } else if j == right.len() {
            true
        } else {
            let a: usize = left[i];
            let b: usize = right[j];
            !keys[b].is_before(&keys[a])
        };
        let ghost before = out@;
        if take_left {
            let ghost x = left@[i as int];
            assert forall|l: int| j <= l < right@.len() implies listed_before(
                keys@,
                x as int,
                #[trigger] right@[l] as int,
            ) by {
                assert(listed_before(keys@, x as int, right@[j as int] as int));
                if l > j {
                    lemma_listed_transitive(keys@, x as int, right@[j as int] as int, right@[l] as int);
                }
            }
            out.push(left[i]);
            assert(out@[before.len() as int] == x);
            assert forall|a: int| 0 <= a < i + 1 implies out@.contains(#[trigger] left@[a]) by {
                if a < i {
                    let k = choose|k: int| 0 <= k < before.len() && before[k] == left@[a];
                    assert(out@[k] == left@[a]);
                }
            }
            assert forall|a: int| 0 <= a < j implies out@.contains(#[trigger] right@[a]) by {
                let k = choose|k: int| 0 <= k < before.len() && before[k] == right@[a];
                assert(out@[k] == right@[a]);
            }
            i = i + 1;
        } else {
            let ghost x = right@[j as int];
            assert forall|l: int| i <= l < left@.len() implies listed_before(
                keys@,
                x as int,
                #[trigger] left@[l] as int,
            ) by {
                assert(keys@[x as int].before(&keys@[left@[i as int] as int]));
                assert(listed_before(keys@, x as int, left@[i as int] as int));
                if l > i {
                    lemma_listed_transitive(keys@, x as int, left@[i as int] as int, left@[l] as int);
                }
            }
            out.push(right[j]);
            assert(out@[before.len() as int] == x);
            assert forall|a: int| 0 <= a < j + 1 implies out@.contains(#[trigger] right@[a]) by {
                if a < j {
                    let k = choose|k: int| 0 <= k < before.len() && before[k] == right@[a];
                    assert(out@[k] == right@[a]);
                }
            }
            assert forall|a: int| 0 <= a < i implies out@.contains(#[trigger] left@[a]) by {
                let k = choose|k: int| 0 <= k < before.len() && before[k] == left@[a];
                assert(out@[k] == left@[a]);
            }
            j = j + 1;
        }
    }
    assert forall|x: usize| lo <= x < hi implies #[trigger] out@.contains(x) by {
        if x < mid {
            assert(left@.contains(x));
            let a = choose|a: int| 0 <= a < left@.len() && left@[a] == x;
            assert(out@.contains(left@[a]));
        } else {
            assert(right@.contains(x));
            let a = choose|a: int| 0 <= a < right@.len() && right@[a] == x;
            assert(out@.contains(right@[a]));
        }
    }
    out
}

fn sort_run<K: Ranked>(keys: &Vec<K>, lo: usize, hi: usize) -> (out: Vec<usize>)
    requires
        lo <= hi <= keys@.len(),
    ensures
        is_run(keys@, lo as int, hi as int, out@),
    decreases hi - lo,
{
    if hi - lo <= 1 {
        let mut out: Vec<usize> = Vec::new();
        if lo < hi {
            out.push(lo);
            assert(out@[0] == lo);
        }
        return out;
    }
    let mid: usize = lo + (hi - lo) / 2;
    let left = sort_run(keys, lo, mid);
    let right = sort_run(keys, mid, hi);
    merge(keys, &left, &right, Ghost(lo as int), Ghost(mid as int), Ghost(hi as int))
}

/// The positions of `keys` in stable order.
pub fn stable_order<K: Ranked>(keys: &Vec<K>) -> (order: Vec<usize>)
    ensures
        is_stable_order(keys@, order@),
{
    sort_run(keys, 0, keys.len())
}

/// A stable order lists each position once. No key stands behind one that it is to
/// stand ahead of, and keys that tie keep the order of their positions.
pub proof fn law_a_stable_order_is_sorted<K: Ranked>(keys: Seq<K>, order: Seq<usize>, i: int, j: int)
    requires
        is_stable_order(keys, order),
        0 <= i < j < order.len(),
    ensures
        !keys[order[j] as int].before(&keys[order[i] as int]),
        !keys[order[i] as int].before(&keys[order[j] as int]) ==> order[i] < order[j],
        order[i] != order[j],
        order.len() == keys.len(),
        forall|x: usize| x < keys.len() ==> #[trigger] order.contains(x),
{
    let (a, b) = (order[i] as int, order[j] as int);
    assert(listed_before(keys, a, b));
    K::lemma_asymmetric(&keys[a], &keys[b]);
}

} // verus!
