//! Laws that relate several operations of the container, stated over the
//! abstract view, the capacity, and the spilled state, and proved from the
//! operations' contracts.

use vstd::prelude::*;

use crate::growth::reserve_target;
use crate::small_vec::SmallVec;

verus! {

/// Exactly what one call of `push` guarantees: the element lands at the
/// back, a full container grows (spilling if it was inline), and a
/// container with room keeps its capacity and storage variant.
pub open spec fn push_step<T, const N: usize>(
    pre: SmallVec<T, N>,
    post: SmallVec<T, N>,
    value: T,
) -> bool {
    &&& post.wf()
    &&& post@ == pre@.push(value)
    &&& (pre@.len() < pre.capacity_spec() ==> post.capacity_spec() == pre.capacity_spec()
        && post.spilled_spec() == pre.spilled_spec())
    &&& (pre@.len() == pre.capacity_spec() ==> post.capacity_spec() == reserve_target(
        pre@.len() as int,
        1,
    ) && post.spilled_spec())
}

/// For every run of pushes starting from an empty container, the length
/// after the run equals the number of pushed values, and the container has
/// spilled exactly when that number exceeds the inline capacity `N`.
///
/// `states` is the trajectory: `states[0]` is the freshly constructed
/// container and each later state comes from pushing the next value.
pub proof fn lemma_pushes_track_length_and_spill<T, const N: usize>(
    states: Seq<SmallVec<T, N>>,
    values: Seq<T>,
)
    requires
        states.len() == values.len() + 1,
        states[0].wf(),
        states[0]@ == Seq::<T>::empty(),
        !states[0].spilled_spec(),
        forall|k: int|
            0 <= k < values.len() ==> #[trigger] push_step(states[k], states[k + 1], values[k]),
    ensures
        states.last().wf(),
        states.last()@.len() == values.len(),
        states.last().spilled_spec() == (values.len() > N),
    decreases values.len(),
{
    if values.len() > 0 {
        let n = values.len() as int;
        lemma_pushes_track_length_and_spill(states.drop_last(), values.drop_last());
        assert(states.drop_last().last() == states[n - 1]);
        assert(push_step(states[n - 1], states[n], values[n - 1]));
    }
}

/// Exactly what one call of `shrink_to_fit` guarantees: the elements are
/// unchanged, and the capacity shrinks to the inline bound or to the
/// length, whichever way the length decides.
pub open spec fn shrink_step<T, const N: usize>(pre: SmallVec<T, N>, post: SmallVec<T, N>) -> bool {
    &&& post.wf()
    &&& post@ == pre@
    &&& (pre@.len() <= N ==> !post.spilled_spec() && post.capacity_spec() == N as int)
    &&& (pre@.len() > N ==> post.spilled_spec() && post.capacity_spec() == pre@.len())
}

/// Spill then shrink: however the container came to hold its elements, once
/// their number is back at or below the inline capacity, `shrink_to_fit`
/// returns it to inline storage with the element values and order
/// untouched.
pub proof fn lemma_shrink_unspills<T, const N: usize>(pre: SmallVec<T, N>, post: SmallVec<T, N>)
    requires
        shrink_step(pre, post),
        pre@.len() <= N,
    ensures
        post@ == pre@,
        !post.spilled_spec(),
{
}

/// Round trip through a dynamic array: converting a container to a `Vec`
/// and building a new container from that `Vec` reproduces the original
/// element sequence exactly, whatever the spilled state of either side.
/// The two premises are precisely what `into_vec` and `from_vec` ensure.
pub proof fn lemma_dynamic_array_round_trip<T, const N: usize>(
    sv: SmallVec<T, N>,
    v: Vec<T>,
    back: SmallVec<T, N>,
)
    requires
        v@ == sv@,
        back@ == v@,
    ensures
        back@ == sv@,
{
}

/// Insert then remove at the same index is the identity: the removed
/// element is the one just inserted, and the sequence returns to its prior
/// value. Together with the contracts of `insert` (which ensures the view
/// becomes `insert(i, v)`) and `remove` (which ensures the view becomes
/// `remove(i)` and returns the element at `i`), this is the inverse law for
/// the container's two index-based operations.
pub proof fn lemma_insert_remove_inverse<T>(s: Seq<T>, i: int, v: T)
    requires
        0 <= i <= s.len(),
    ensures
        s.insert(i, v)[i] == v,
        s.insert(i, v).remove(i) == s,
{
    assert(s.insert(i, v).remove(i) =~= s);
}

} // verus!
