//! Finding and keeping the items of a list that meet a condition.

use vstd::prelude::*;

verus! {

/// The index of the first of the first `n` items that meets `pred`.
pub open spec fn first_where<T>(list: Seq<T>, pred: spec_fn(T) -> bool, n: nat) -> Option<int>
    decreases n,
{
    if n == 0 || n > list.len() {
        None
    } else {
        match first_where(list, pred, (n - 1) as nat) {
            Some(i) => Some(i),
            None => if pred(list[n - 1]) {
                Some(n - 1)
            } else {
                None
            },
        }
    }
}

/// The index of the first item that meets `pred`.
pub open spec fn first_of<T>(list: Seq<T>, pred: spec_fn(T) -> bool) -> Option<int> {
    first_where(list, pred, list.len())
}

/// What is found among the first `n` items is the first item that meets the condition.
pub proof fn lemma_first_where<T>(list: Seq<T>, pred: spec_fn(T) -> bool, n: nat)
    requires
        n <= list.len(),
    ensures
        match first_where(list, pred, n) {
            Some(i) => 0 <= i < n && pred(list[i]) && forall|j: int|
                0 <= j < i ==> !pred(#[trigger] list[j]),
            None => forall|j: int| 0 <= j < n ==> !pred(#[trigger] list[j]),
        },
    decreases n,
{
    if n > 0 {
        lemma_first_where(list, pred, (n - 1) as nat);
    }
}

/// What is found among the first `n` items is found among more of them.
pub proof fn lemma_first_where_stays<T>(list: Seq<T>, pred: spec_fn(T) -> bool, n: nat, m: nat)
    requires
        n <= m <= list.len(),
        first_where(list, pred, n) is Some,
    ensures
        first_where(list, pred, m) == first_where(list, pred, n),
    decreases m,
{
    if n < m {
        lemma_first_where_stays(list, pred, n, (m - 1) as nat);
    }
}

/// The first item that meets the condition is found.
pub proof fn lemma_first_of_at<T>(list: Seq<T>, pred: spec_fn(T) -> bool, i: int)
    requires
        0 <= i < list.len(),
        pred(list[i]),
        forall|j: int| 0 <= j < i ==> !pred(#[trigger] list[j]),
    ensures
        first_of(list, pred) == Some(i),
{
    lemma_first_where(list, pred, i as nat);
    assert(first_where(list, pred, (i + 1) as nat) == Some(i));
    lemma_first_where_stays(list, pred, (i + 1) as nat, list.len());
}

/// Those of the first `n` items that meet `pred`, in their order.
pub open spec fn keep<T>(list: Seq<T>, pred: spec_fn(T) -> bool, n: nat) -> Seq<T>
    decreases n,
{
    if n == 0 || n > list.len() {
        Seq::empty()
    } else if pred(list[n - 1]) {
        keep(list, pred, (n - 1) as nat).push(list[n - 1])
    } else {
        keep(list, pred, (n - 1) as nat)
    }
}

/// The items that meet `pred`, in their order.
pub open spec fn keep_all<T>(list: Seq<T>, pred: spec_fn(T) -> bool) -> Seq<T> {
    keep(list, pred, list.len())
}

/// What is kept meets the condition and comes from the list.
pub proof fn lemma_keep_meets<T>(list: Seq<T>, pred: spec_fn(T) -> bool, n: nat)
    requires
        n <= list.len(),
    ensures
        forall|i: int|
            0 <= i < keep(list, pred, n).len() ==> pred(#[trigger] keep(list, pred, n)[i])
                && exists|j: int| 0 <= j < n && list[j] == keep(list, pred, n)[i],
    decreases n,
{
    if n > 0 {
        lemma_keep_meets(list, pred, (n - 1) as nat);
        let before = keep(list, pred, (n - 1) as nat);
        let now = keep(list, pred, n);
        assert forall|i: int| 0 <= i < now.len() implies pred(#[trigger] now[i]) && exists|j: int|
            0 <= j < n && list[j] == now[i] by {
            if i < before.len() {
                assert(now[i] == before[i]);
                let j = choose|j: int| 0 <= j < n - 1 && list[j] == before[i];
                assert(0 <= j < n && list[j] == now[i]);
            } else {
                assert(now[i] == list[n - 1]);
            }
        }
    }
}

/// An item of the list that meets the condition is kept.
pub proof fn lemma_keep_has<T>(list: Seq<T>, pred: spec_fn(T) -> bool, n: nat, j: int)
    requires
        0 <= j < n <= list.len(),
        pred(list[j]),
    ensures
        exists|i: int| 0 <= i < keep(list, pred, n).len() && keep(list, pred, n)[i] == list[j],
    decreases n,
{
    let now = keep(list, pred, n);
    if j == n - 1 {
        assert(now[now.len() - 1] == list[j]);
    } else {
        lemma_keep_has(list, pred, (n - 1) as nat, j);
        let before = keep(list, pred, (n - 1) as nat);
        let i = choose|i: int| 0 <= i < before.len() && before[i] == list[j];
        assert(now[i] == list[j]);
    }
}

/// Those of the first `n` items that are there, in their order.
pub open spec fn present<T>(items: Seq<Option<T>>, n: nat) -> Seq<T>
    decreases n,
{
    if n == 0 || n > items.len() {
        Seq::empty()
    } else {
        match items[n - 1] {
            Some(item) => present(items, (n - 1) as nat).push(item),
            None => present(items, (n - 1) as nat),
        }
    }
}

/// The items that are there, in their order.
pub open spec fn present_all<T>(items: Seq<Option<T>>) -> Seq<T> {
    present(items, items.len())
}

} // verus!
