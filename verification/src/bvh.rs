use vstd::prelude::*;

verus! {

/// What the construction of a bounding volume hierarchy does with a group
/// of objects.
#[derive(Clone, Copy, Debug, PartialEq, Eq, Structural)]
pub enum BvhStep {
    /// A single object stands for itself.
    Single,
    /// Up to eight objects (or none) are kept in a plain list.
    List,
    /// More objects are sorted along an axis and split at `mid`: the first
    /// `mid` objects go left, the rest right.
    Split { mid: usize },
}

/// The index at which a group of `len` sorted objects is split.
pub fn pick_split(len: usize) -> (mid: usize)
    ensures
        mid == len / 2,
{
    len / 2
}

/// The step taken for a group of `len` objects.
pub open spec fn step_for(len: usize) -> BvhStep {
    if len == 1 {
        BvhStep::Single
    } else if len <= 8 {
        BvhStep::List
    } else {
        BvhStep::Split { mid: len / 2 }
    }
}

/// The construction step for a group of `len` objects.
pub fn construction_step(len: usize) -> (step: BvhStep)
    ensures
        step == step_for(len),
{
    if len == 1 {
        BvhStep::Single
    } else if len <= 8 {
        BvhStep::List
    } else {
        BvhStep::Split { mid: pick_split(len) }
    }
}

/// The construction terminates and keeps leaves small: a split leaves
/// both halves non-empty and strictly smaller than the group, each half
/// holds at least four objects, and a list holds at most eight.
pub proof fn lemma_construction_step_shrinks(len: usize)
    ensures
        step_for(len) matches BvhStep::Split { mid } ==> 4 <= mid < len && 4 <= len - mid < len,
        step_for(len) == BvhStep::List ==> len <= 8,
        step_for(len) == BvhStep::Single ==> len == 1,
{
}

/// The leaves of the hierarchy built over the `len` objects at positions
/// `lo..lo + len` of the sorted order, from left to right: each is the
/// first position it holds and how many objects it holds. A group is a
/// leaf when `step_for` keeps it whole, and is otherwise split at
/// `len / 2` into a left and a right subtree.
pub open spec fn leaves(lo: int, len: nat) -> Seq<(int, nat)>
    decreases len,
{
    if len <= 8 {
        seq![(lo, len)]
    } else {
        leaves(lo, len / 2) + leaves(lo + len / 2, (len - len / 2) as nat)
    }
}

/// The leaves follow the construction steps: a group that is not split is
/// one leaf, and a split group has the leaves of its first `mid` objects
/// followed by those of the rest.
pub proof fn lemma_leaves_follow_steps(lo: int, len: usize)
    ensures
        step_for(len) matches BvhStep::Split { mid } ==> leaves(lo, len as nat) == leaves(
            lo,
            mid as nat,
        ) + leaves(lo + mid, (len - mid) as nat),
        !(step_for(len) is Split) ==> leaves(lo, len as nat) == seq![(lo, len as nat)],
{
}

/// Whether the leaf `leaf` holds position `k`.
pub open spec fn leaf_holds(leaf: (int, nat), k: int) -> bool {
    leaf.0 <= k < leaf.0 + leaf.1
}

/// Whether one of `leaves` holds position `k`.
pub open spec fn some_leaf_holds(leaves: Seq<(int, nat)>, k: int) -> bool {
    exists|i: int| 0 <= i < leaves.len() && #[trigger] leaf_holds(leaves[i], k)
}

/// Every object lands in exactly one leaf: the leaves lie inside the
/// group, come in order without overlapping, and together hold every
/// position of the group. A group of at least one object has no empty
/// leaf, and no leaf holds more than eight objects.
pub proof fn lemma_leaves_partition(lo: int, len: nat)
    ensures
        leaves(lo, len).len() >= 1,
        forall|i: int|
            0 <= i < leaves(lo, len).len() ==> lo <= #[trigger] leaves(lo, len)[i].0 && leaves(
                lo,
                len,
            )[i].0 + leaves(lo, len)[i].1 <= lo + len,
        forall|i: int, j: int|
            0 <= i < j < leaves(lo, len).len() ==> #[trigger] leaves(lo, len)[i].0 + leaves(
                lo,
                len,
            )[i].1 <= #[trigger] leaves(lo, len)[j].0,
        forall|k: int| lo <= k < lo + len ==> #[trigger] some_leaf_holds(leaves(lo, len), k),
        forall|k: int, i: int, j: int|
            0 <= i < leaves(lo, len).len() && 0 <= j < leaves(lo, len).len() && #[trigger] leaf_holds(
                leaves(lo, len)[i],
                k,
            ) && #[trigger] leaf_holds(leaves(lo, len)[j], k) ==> i == j,
        forall|i: int| 0 <= i < leaves(lo, len).len() ==> #[trigger] leaves(lo, len)[i].1 <= 8,
        len >= 1 ==> forall|i: int|
            0 <= i < leaves(lo, len).len() ==> #[trigger] leaves(lo, len)[i].1 >= 1,
    decreases len,
{
    if len > 8 {
        let mid = len / 2;
        let rest = (len - mid) as nat;
        lemma_leaves_partition(lo, mid);
        lemma_leaves_partition(lo + mid, rest);
        let a = leaves(lo, mid);
        let b = leaves(lo + mid, rest);
        let s = leaves(lo, len);
        assert(s == a + b);
        assert forall|i: int| 0 <= i < s.len() implies #[trigger] s[i] == if i < a.len() {
            a[i]
        } else {
            b[i - a.len()]
        } by {}
        assert forall|k: int| lo <= k < lo + len implies #[trigger] some_leaf_holds(s, k) by {
            if k < lo + mid {
                assert(some_leaf_holds(a, k));
                let i = choose|i: int| 0 <= i < a.len() && #[trigger] leaf_holds(a[i], k);
                assert(s[i] == a[i]);
                assert(leaf_holds(s[i], k));
            } else {
                assert(some_leaf_holds(b, k));
                let j = choose|j: int| 0 <= j < b.len() && #[trigger] leaf_holds(b[j], k);
                assert(s[a.len() + j] == b[j]);
                assert(leaf_holds(s[a.len() + j], k));
            }
        }
        assert forall|i: int, j: int| 0 <= i < j < s.len() implies #[trigger] s[i].0 + s[i].1
            <= #[trigger] s[j].0 by {
            if j < a.len() {
                assert(s[i] == a[i] && s[j] == a[j]);
            } else if i >= a.len() {
                assert(s[i] == b[i - a.len()] && s[j] == b[j - a.len()]);
            } else {
                assert(s[i] == a[i] && s[j] == b[j - a.len()]);
            }
        }
    } else {
        let s = leaves(lo, len);
        assert forall|k: int| lo <= k < lo + len implies #[trigger] some_leaf_holds(s, k) by {
            assert(leaf_holds(s[0], k));
        }
    }
    let s = leaves(lo, len);
    assert forall|k: int, i: int, j: int|
        0 <= i < s.len() && 0 <= j < s.len() && #[trigger] leaf_holds(s[i], k) && #[trigger] leaf_holds(
            s[j],
            k,
        ) implies i == j by {
        if i < j {
            assert(s[i].0 + s[i].1 <= s[j].0);
        } else if j < i {
            assert(s[j].0 + s[j].1 <= s[i].0);
        }
    }
}

} // verus!