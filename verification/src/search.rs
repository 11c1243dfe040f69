//! The first position that satisfies a predicate, as a specification.
use vstd::prelude::*;

verus! {

/// `i` is the first position below `len` where `pred` holds.
pub open spec fn is_first_where(len: int, pred: spec_fn(int) -> bool, i: int) -> bool {
    &&& 0 <= i < len
    &&& pred(i)
    &&& forall|j: int| 0 <= j < i ==> !#[trigger] pred(j)
}

/// The first position below `len` where `pred` holds, if there is one.
pub open spec fn first_where(len: int, pred: spec_fn(int) -> bool) -> Option<int> {
    if exists|i: int| is_first_where(len, pred, i) {
        Some(choose|i: int| is_first_where(len, pred, i))
    } else {
        None
    }
}

/// The first position where a predicate holds is the one `first_where`
/// names.
pub proof fn lemma_first_where_found(len: int, pred: spec_fn(int) -> bool, i: int)
    requires
        is_first_where(len, pred, i),
    ensures
        first_where(len, pred) == Some(i),
{
    let c = choose|c: int| is_first_where(len, pred, c);
    assert(is_first_where(len, pred, c));
    if c < i {
        assert(!pred(c));
    } else if i < c {
        assert(!pred(i));
    }
}

/// Where a predicate holds nowhere below `len`, `first_where` names
/// nothing.
pub proof fn lemma_first_where_none(len: int, pred: spec_fn(int) -> bool)
    requires
        forall|j: int| 0 <= j < len ==> !#[trigger] pred(j),
    ensures
        first_where(len, pred) is None,
{
}

/// Where a predicate holds somewhere below `len`, there is a first position
/// where it holds.
pub proof fn lemma_first_exists(len: int, pred: spec_fn(int) -> bool, j: int)
    requires
        0 <= j < len,
        pred(j),
    ensures
        first_where(len, pred) is Some,
    decreases j,
{
    if forall|k: int| 0 <= k < j ==> !#[trigger] pred(k) {
        assert(is_first_where(len, pred, j));
    } else {
        let k = choose|k: int| 0 <= k < j && #[trigger] pred(k);
        lemma_first_exists(len, pred, k);
    }
}

} // verus!
