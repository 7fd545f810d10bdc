//! Helper lemmas connecting a vector's deep view to vector operations.

use vstd::prelude::*;

verus! {

/// Pushing onto a vector pushes the element's deep view onto the
/// vector's deep view.
pub proof fn lemma_deep_view_push<T: DeepView>(v1: Vec<T>, v2: Vec<T>, x: T)
    requires
        v2@ == v1@.push(x),
    ensures
        v2.deep_view() == v1.deep_view().push(x.deep_view()),
{
    assert forall|k: int| 0 <= k < v2@.len() implies #[trigger] v2.deep_view()[k]
        == v1.deep_view().push(x.deep_view())[k] by {
        if k < v1@.len() {
            assert(v2@[k] == v1@[k]);
            assert(v1.deep_view()[k] == v1@[k].deep_view());
        } else {
            assert(v2@[k] == x);
        }
    }
    assert(v2.deep_view() =~= v1.deep_view().push(x.deep_view()));
}

/// Concatenating vectors concatenates their deep views.
pub proof fn lemma_deep_view_concat<T: DeepView>(v1: Vec<T>, v2: Vec<T>, v3: Vec<T>)
    requires
        v3@ == v1@ + v2@,
    ensures
        v3.deep_view() == v1.deep_view() + v2.deep_view(),
{
    assert forall|k: int| 0 <= k < v3@.len() implies #[trigger] v3.deep_view()[k]
        == (v1.deep_view() + v2.deep_view())[k] by {
        if k < v1@.len() {
            assert(v3@[k] == v1@[k]);
            assert(v1.deep_view()[k] == v1@[k].deep_view());
        } else {
            assert(v3@[k] == v2@[k - v1@.len()]);
            assert(v2.deep_view()[k - v1@.len()] == v2@[k - v1@.len()].deep_view());
        }
    }
    assert(v3.deep_view() =~= v1.deep_view() + v2.deep_view());
}

/// An empty vector's deep view is the empty sequence.
pub proof fn lemma_deep_view_empty<T: DeepView>(v: Vec<T>)
    requires
        v@.len() == 0,
    ensures
        v.deep_view() == Seq::<T::V>::empty(),
{
    assert(v.deep_view() =~= Seq::<T::V>::empty());
}

} // verus!
