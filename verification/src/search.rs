use vstd::prelude::*;

verus! {

/// `i` is the first position below `n` at which `p` holds.
pub open spec fn is_first_where(n: int, p: spec_fn(int) -> bool, i: int) -> bool {
    &&& 0 <= i < n
    &&& p(i)
    &&& forall|j: int| 0 <= j < i ==> !#[trigger] p(j)
}

/// The first position below `n` at which `p` holds, if there is one.
pub open spec fn first_where(n: int, p: spec_fn(int) -> bool) -> Option<int> {
    if exists|i: int| is_first_where(n, p, i) {
        Some(choose|i: int| is_first_where(n, p, i))
    } else {
        None
    }
}

pub proof fn lemma_first_where_found(n: int, p: spec_fn(int) -> bool, i: int)
    requires
        is_first_where(n, p, i),
    ensures
        first_where(n, p) == Some(i),
{
    let c = choose|k: int| is_first_where(n, p, k);
    assert(is_first_where(n, p, c));
    if c < i {
        assert(!p(c));
    } else if c > i {
        assert(!p(i));
    }
}

pub proof fn lemma_first_where_none(n: int, p: spec_fn(int) -> bool)
    ensures
        first_where(n, p) is None <==> forall|j: int| 0 <= j < n ==> !#[trigger] p(j),
        first_where(n, p) matches Some(i) ==> is_first_where(n, p, i),
{
    if exists|j: int| 0 <= j < n && #[trigger] p(j) {
        let j = choose|j: int| 0 <= j < n && #[trigger] p(j);
        lemma_has_first_where(n, p, j);
    }
}

proof fn lemma_has_first_where(n: int, p: spec_fn(int) -> bool, j: int)
    requires
        0 <= j < n,
        p(j),
    ensures
        exists|i: int| is_first_where(n, p, i),
    decreases j,
{
    if exists|m: int| 0 <= m < j && #[trigger] p(m) {
        let m = choose|m: int| 0 <= m < j && #[trigger] p(m);
        lemma_has_first_where(n, p, m);
    } else {
        assert(is_first_where(n, p, j));
    }
}


/// `i` is the last position below `n` at which `p` holds.
pub open spec fn is_last_where(n: int, p: spec_fn(int) -> bool, i: int) -> bool {
    &&& 0 <= i < n
    &&& p(i)
    &&& forall|j: int| i < j < n ==> !#[trigger] p(j)
}

/// The last position below `n` at which `p` holds, if there is one.
pub open spec fn last_where(n: int, p: spec_fn(int) -> bool) -> Option<int> {
    if exists|i: int| is_last_where(n, p, i) {
        Some(choose|i: int| is_last_where(n, p, i))
    } else {
        None
    }
}

pub proof fn lemma_last_where_found(n: int, p: spec_fn(int) -> bool, i: int)
    requires
        is_last_where(n, p, i),
    ensures
        last_where(n, p) == Some(i),
{
    let c = choose|k: int| is_last_where(n, p, k);
    assert(is_last_where(n, p, c));
    if c < i {
        assert(!p(i));
    } else if c > i {
        assert(!p(c));
    }
}

pub proof fn lemma_last_where_none(n: int, p: spec_fn(int) -> bool)
    requires
        forall|j: int| 0 <= j < n ==> !#[trigger] p(j),
    ensures
        last_where(n, p) is None,
{
}

proof fn lemma_has_last_where(n: int, p: spec_fn(int) -> bool, j: int)
    requires
        0 <= j < n,
        p(j),
    ensures
        exists|i: int| is_last_where(n, p, i),
    decreases n - j,
{
    if exists|m: int| j < m < n && #[trigger] p(m) {
        let m = choose|m: int| j < m < n && #[trigger] p(m);
        lemma_has_last_where(n, p, m);
    } else {
        assert(is_last_where(n, p, j));
    }
}

/// What `last_where` gives: the last position where `p` holds, or nothing
/// exactly when `p` holds nowhere below `n`.
pub proof fn lemma_last_where_spec(n: int, p: spec_fn(int) -> bool)
    ensures
        last_where(n, p) matches Some(i) ==> is_last_where(n, p, i),
        last_where(n, p) is None <==> forall|j: int| 0 <= j < n ==> !#[trigger] p(j),
{
    if exists|j: int| 0 <= j < n && #[trigger] p(j) {
        let j = choose|j: int| 0 <= j < n && #[trigger] p(j);
        lemma_has_last_where(n, p, j);
    }
}

} // verus!
