//! What holds of every task store, proved over the model.

use crate::model::{other_than, StoreView};
use crate::task::{TaskStatus, TaskView};
use vstd::prelude::*;

verus! {

/// A task that was stored under an id is found under it, and what is kept
/// under every other id is as before.
pub proof fn lemma_insert_then_get(store: StoreView, id: usize, task: TaskView)
    ensures
        store.insert(id, task).get(id) == Some(task),
        forall|other: usize|
            other != id ==> #[trigger] store.insert(id, task).get(other) == store.get(other),
{
}

/// After the task under an id is removed, nothing is found under that id, and
/// what is kept under every other id is as before.
pub proof fn lemma_remove_then_get(store: StoreView, id: usize)
    ensures
        store.remove(id).get(id) is None,
        forall|other: usize|
            other != id ==> #[trigger] store.remove(id).get(other) == store.get(other),
{
}

/// Removal does not reorder: what is left of the order are the other ids, in
/// the order they had.
pub proof fn lemma_remove_keeps_order(store: StoreView, id: usize)
    requires
        store.wf(),
    ensures
        store.remove(id).order == store.order.filter(other_than(id)),
{
    lemma_filter_takes_one_out(store.order, id);
    assert(store.tasks.dom().contains(id) <==> store.order.contains(id));
}

/// Removal does not reorder: of two ids that stay, the one that stood before
/// the other still stands before it.
pub proof fn lemma_remove_keeps_precedence(store: StoreView, id: usize, a: usize, b: usize)
    requires
        store.wf(),
        store.tasks.dom().contains(a),
        store.tasks.dom().contains(b),
        a != id,
        b != id,
    ensures
        store.remove(id).order.contains(a),
        store.remove(id).order.contains(b),
        store.remove(id).order.index_of(a) < store.remove(id).order.index_of(b)
            <==> store.order.index_of(a) < store.order.index_of(b),
{
    let before = store.order;
    let after = store.remove(id).order;
    lemma_remove_keeps_wf(store, id);
    assert(before.contains(a));
    assert(before.contains(b));
    let pa = before.index_of(a);
    let pb = before.index_of(b);
    if store.tasks.dom().contains(id) {
        assert(before.contains(id));
        let p = before.index_of(id);
        let pa_after = if pa < p {
            pa
        } else {
            pa - 1
        };
        let pb_after = if pb < p {
            pb
        } else {
            pb - 1
        };
        assert(after[pa_after] == a);
        assert(after[pb_after] == b);
    }
}

/// Storing a task leads from a store to a store.
pub proof fn lemma_insert_keeps_wf(store: StoreView, id: usize, task: TaskView)
    requires
        store.wf(),
    ensures
        store.insert(id, task).wf(),
{
    let after = store.insert(id, task);
    if store.tasks.dom().contains(id) {
        assert forall|k: usize| after.tasks.dom().contains(k) <==> after.order.contains(k) by {
            assert(store.tasks.dom().contains(k) <==> store.order.contains(k));
        }
    } else {
        assert(!store.order.contains(id));
        assert forall|i: int, j: int|
            0 <= i < after.order.len() && 0 <= j < after.order.len() && i != j implies
            after.order[i] != after.order[j] by {
            if i < store.order.len() {
                assert(store.order.contains(store.order[i]));
            }
            if j < store.order.len() {
                assert(store.order.contains(store.order[j]));
            }
        }
        assert forall|k: usize| after.tasks.dom().contains(k) <==> after.order.contains(k) by {
            assert(store.tasks.dom().contains(k) <==> store.order.contains(k));
            if store.order.contains(k) {
                let i = store.order.index_of(k);
                assert(after.order[i] == k);
            }
            if k == id {
                assert(after.order[store.order.len() as int] == k);
            }
            if after.order.contains(k) {
                let i = after.order.index_of(k);
                if i < store.order.len() {
                    assert(store.order[i] == k);
                }
            }
        }
    }
}

/// Removing a task leads from a store to a store.
pub proof fn lemma_remove_keeps_wf(store: StoreView, id: usize)
    requires
        store.wf(),
    ensures
        store.remove(id).wf(),
{
    let before = store.order;
    let after = store.remove(id);
    if store.tasks.dom().contains(id) {
        assert(before.contains(id));
        let p = before.index_of(id);
        assert forall|i: int, j: int|
            0 <= i < after.order.len() && 0 <= j < after.order.len() && i != j implies
            after.order[i] != after.order[j] by {
            let i_before = if i < p {
                i
            } else {
                i + 1
            };
            let j_before = if j < p {
                j
            } else {
                j + 1
            };
            assert(after.order[i] == before[i_before]);
            assert(after.order[j] == before[j_before]);
        }
        assert forall|k: usize| after.tasks.dom().contains(k) <==> after.order.contains(k) by {
            assert(store.tasks.dom().contains(k) <==> before.contains(k));
            if before.contains(k) && k != id {
                let i = before.index_of(k);
                let i_after = if i < p {
                    i
                } else {
                    i - 1
                };
                assert(after.order[i_after] == k);
            }
            if after.order.contains(k) {
                let i = after.order.index_of(k);
                let i_before = if i < p {
                    i
                } else {
                    i + 1
                };
                assert(before[i_before] == k);
            }
        }
    } else {
        assert forall|k: usize| after.tasks.dom().contains(k) <==> after.order.contains(k) by {
            assert(store.tasks.dom().contains(k) <==> before.contains(k));
        }
    }
}

/// Giving a task a status leads from a store to a store.
pub proof fn lemma_set_status_keeps_wf(store: StoreView, id: usize, status: TaskStatus)
    requires
        store.wf(),
    ensures
        store.set_status(id, status).wf(),
{
    if store.tasks.dom().contains(id) {
        lemma_insert_keeps_wf(store, id, store.tasks[id].with_status(status));
    }
}

/// A store that is written out entry by entry and read back is the store it
/// was: storing its entries, one after another, in an empty store gives the
/// same ids in the same order with the same tasks.
pub proof fn lemma_collected_entries(store: StoreView)
    requires
        store.wf(),
    ensures
        StoreView::collected(store.entries()) == store,
    decreases store.order.len(),
{
    let entries = store.entries();
    if store.order.len() == 0 {
        assert(store.tasks =~= Map::empty()) by {
            assert forall|k: usize| !store.tasks.dom().contains(k) by {
                assert(store.tasks.dom().contains(k) <==> store.order.contains(k));
            }
        }
        assert(store.order =~= Seq::empty());
    } else {
        let last = store.order.last();
        assert(store.order.contains(last)) by {
            assert(store.order[store.order.len() - 1] == last);
        }
        let front = StoreView { order: store.order.drop_last(), tasks: store.tasks.remove(last) };
        assert(front.wf()) by {
            assert forall|k: usize| front.tasks.dom().contains(k) <==> front.order.contains(k) by {
                assert(store.tasks.dom().contains(k) <==> store.order.contains(k));
                if store.order.contains(k) && k != last {
                    let i = store.order.index_of(k);
                    assert(front.order[i] == k);
                }
                if front.order.contains(k) {
                    let i = front.order.index_of(k);
                    assert(store.order[i] == k);
                }
            }
        }
        assert(entries.drop_last() =~= front.entries());
        assert(entries.last() == (last, store.tasks[last]));
        lemma_collected_entries(front);
        let rebuilt = front.insert(last, store.tasks[last]);
        assert(rebuilt.order =~= store.order);
        assert(rebuilt.tasks =~= store.tasks);
    }
}

/// The three columns share out the tasks: each task stands in the column of
/// its status and in no other, so that the columns together hold as many
/// tasks as the store.
pub proof fn lemma_columns_share_out_the_tasks(store: StoreView)
    ensures
        store.column(TaskStatus::Todo).len() + store.column(TaskStatus::Doing).len()
            + store.column(TaskStatus::Done).len() == store.order.len(),
{
    lemma_columns_of_first(store, store.order.len() as int);
}

/// The three columns of the first `n` ids hold `n` tasks together.
pub proof fn lemma_columns_of_first(store: StoreView, n: int)
    requires
        0 <= n <= store.order.len(),
    ensures
        store.column_of_first(n, TaskStatus::Todo).len() + store.column_of_first(
            n,
            TaskStatus::Doing,
        ).len() + store.column_of_first(n, TaskStatus::Done).len() == n,
    decreases n,
{
    if n == 0 {
        reveal(Seq::filter);
    } else {
        lemma_columns_of_first(store, n - 1);
        lemma_column_step(store, n - 1, TaskStatus::Todo);
        lemma_column_step(store, n - 1, TaskStatus::Doing);
        lemma_column_step(store, n - 1, TaskStatus::Done);
    }
}

/// What the next id adds to a column: its task, where the status is the
/// column's, and nothing otherwise.
pub proof fn lemma_column_step(store: StoreView, n: int, status: TaskStatus)
    requires
        0 <= n < store.order.len(),
    ensures
        store.column_of_first(n + 1, status) == if store.tasks[store.order[n]].status == status {
            store.column_of_first(n, status).push(store.tasks[store.order[n]])
        } else {
            store.column_of_first(n, status)
        },
{
    reveal(Seq::filter);
    let longer = store.tasks_in_order().take(n + 1);
    assert(longer.drop_last() == store.tasks_in_order().take(n));
    assert(longer.last() == store.tasks[store.order[n]]);
}

/// The other ids of an order, in the order they had, are what is left when
/// the id is taken out of its place, or the whole order where the id is not
/// in it.
pub proof fn lemma_filter_takes_one_out(order: Seq<usize>, id: usize)
    requires
        order.no_duplicates(),
    ensures
        order.filter(other_than(id)) == if order.contains(id) {
            order.remove(order.index_of(id))
        } else {
            order
        },
    decreases order.len(),
{
    reveal(Seq::filter);
    if order.len() > 0 {
        let front = order.drop_last();
        let last = order.last();
        assert(front.no_duplicates());
        lemma_filter_takes_one_out(front, id);
        if last == id {
            assert(order[order.len() - 1] == id);
            assert(!front.contains(id)) by {
                if front.contains(id) {
                    let q = front.index_of(id);
                    assert(order[q] == id);
                }
            }
            assert(order.remove(order.len() - 1) == front);
        } else if front.contains(id) {
            let q = front.index_of(id);
            assert(order[q] == id);
            assert(order.remove(q) == front.remove(q).push(last));
        } else {
            assert(!order.contains(id)) by {
                if order.contains(id) {
                    let q = order.index_of(id);
                    assert(front[q] == id);
                }
            }
            assert(order == front.push(last));
        }
    }
}

} // verus!
