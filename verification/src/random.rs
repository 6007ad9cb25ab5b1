//! Drawing an element at random out of a list, as the server does with the
//! map's spawn points and skies.
use vstd::prelude::*;
use vstd::multiset::Multiset;
use rand::seq::IteratorRandom;

verus! {

/// Calls rand's `IteratorRandom::choose` on the range `0..len` with the
/// thread-local generator. For a range, whose length is known, rand's source
/// returns `None` when the range is empty and otherwise the element at a
/// position drawn below the length, so an index below `len`. Which index comes
/// back is left open: it is random.
#[verifier::external_body]
fn choose_index(len: usize) -> (r: Option<usize>)
    ensures
        r is None <==> len == 0,
        r matches Some(i) ==> i < len,
{
    (0..len).choose(&mut rand::thread_rng())
}

/// `v` once the element at `i` is taken out and the last element moved into its place.
pub open spec fn swap_removed<T>(v: Seq<T>, i: int) -> Seq<T> {
    v.update(i, v.last()).drop_last()
}

/// Takes an element at a random position out of `vec`, moving the last
/// element into its place, and returns it.
pub fn get_rand_from_vec<T>(vec: &mut Vec<T>) -> (r: T)
    requires
        old(vec)@.len() > 0,
    ensures
        exists|i: int|
            0 <= i < old(vec)@.len() && r == old(vec)@[i] && final(vec)@ == swap_removed(
                old(vec)@,
                i,
            ),
{
    let i = choose_index(vec.len()).unwrap();
    let r = vec.swap_remove(i);
    assert(final(vec)@ == swap_removed(old(vec)@, i as int));
    r
}

/// Drawing at random loses nothing and adds nothing: the element drawn
/// together with what is left are exactly what the list held.
pub proof fn law_draw_keeps_elements<T>(v: Seq<T>, i: int)
    requires
        0 <= i < v.len(),
    ensures
        swap_removed(v, i).to_multiset().insert(v[i]) == v.to_multiset(),
        swap_removed(v, i).len() == v.len() - 1,
{
    broadcast use vstd::seq_lib::group_to_multiset_ensures;
    broadcast use vstd::multiset::group_multiset_axioms;

    let w = v.update(i, v.last());
    let t = w.drop_last();
    assert(t.push(w.last()) =~= w);
    assert(w.last() == v.last());
    assert(w.remove(i) =~= v.remove(i));
    assert(w[i] == v.last());
    assert(t.to_multiset().insert(v.last()).remove(v.last()) =~= t.to_multiset());
    assert(w.to_multiset() =~= t.to_multiset().insert(v.last())) by {
        assert(t.push(w.last()).to_multiset() =~= t.to_multiset().insert(w.last()));
    }
    assert(w.remove(i).to_multiset() =~= w.to_multiset().remove(w[i]));
    assert(v.remove(i).to_multiset() =~= v.to_multiset().remove(v[i]));
    assert(t.to_multiset() =~= v.to_multiset().remove(v[i]));
    assert(v.to_multiset().count(v[i]) > 0) by {
        assert(v.contains(v[i]));
    }
    assert(v.to_multiset().remove(v[i]).insert(v[i]) =~= v.to_multiset());
}

} // verus!
