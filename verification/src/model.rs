//! The mathematical model of a task store: the ids in the order in which they
//! were inserted, and the task kept under each id.

use crate::task::{TaskStatus, TaskView};
use vstd::prelude::*;

verus! {

/// What a task store is.
#[verifier::ext_equal]
pub struct StoreView {
    /// The ids in the store, in insertion order.
    pub order: Seq<usize>,
    /// The task kept under each id.
    pub tasks: Map<usize, TaskView>,
}

/// The test that an id is another one than `id`.
pub open spec fn other_than(id: usize) -> spec_fn(usize) -> bool {
    |other: usize| other != id
}

impl StoreView {
    /// What holds of every store: no id stands twice in the order, and the
    /// ids in the order are those that have a task.
    pub open spec fn wf(self) -> bool {
        &&& self.order.no_duplicates()
        &&& forall|id: usize|
            #![trigger self.tasks.dom().contains(id)]
            #![trigger self.order.contains(id)]
            self.tasks.dom().contains(id) <==> self.order.contains(id)
    }

    /// The store that holds nothing.
    pub open spec fn empty() -> StoreView {
        StoreView { order: Seq::empty(), tasks: Map::empty() }
    }

    /// The task kept under `id`, if there is one.
    pub open spec fn get(self, id: usize) -> Option<TaskView> {
        if self.tasks.dom().contains(id) {
            Some(self.tasks[id])
        } else {
            None
        }
    }

    /// The store after `task` is stored under `id`: an id that is in the
    /// store keeps its place and gets the task; a new id goes to the end.
    pub open spec fn insert(self, id: usize, task: TaskView) -> StoreView {
        StoreView {
            order: if self.tasks.dom().contains(id) {
                self.order
            } else {
                self.order.push(id)
            },
            tasks: self.tasks.insert(id, task),
        }
    }

    /// The store after the task under `id` is taken out: the id leaves its
    /// place in the order and those behind it move up by one place.
    pub open spec fn remove(self, id: usize) -> StoreView {
        StoreView {
            order: if self.tasks.dom().contains(id) {
                self.order.remove(self.order.index_of(id))
            } else {
                self.order
            },
            tasks: self.tasks.remove(id),
        }
    }

    /// The store after the task under `id`, if there is one, is given
    /// `status`. Nothing else changes, and no place.
    pub open spec fn set_status(self, id: usize, status: TaskStatus) -> StoreView {
        if self.tasks.dom().contains(id) {
            StoreView {
                order: self.order,
                tasks: self.tasks.insert(id, self.tasks[id].with_status(status)),
            }
        } else {
            self
        }
    }

    /// The entries of the store, each an id with its task, in insertion order.
    pub open spec fn entries(self) -> Seq<(usize, TaskView)> {
        self.order.map_values(|id: usize| (id, self.tasks[id]))
    }

    /// The tasks of the store, in insertion order.
    pub open spec fn tasks_in_order(self) -> Seq<TaskView> {
        self.order.map_values(|id: usize| self.tasks[id])
    }

    /// The tasks with the given status among those of the first `n` ids, in
    /// insertion order.
    pub open spec fn column_of_first(self, n: int, status: TaskStatus) -> Seq<TaskView> {
        self.tasks_in_order().take(n).filter(|task: TaskView| task.status == status)
    }

    /// The tasks with the given status, in insertion order.
    pub open spec fn column(self, status: TaskStatus) -> Seq<TaskView> {
        self.column_of_first(self.order.len() as int, status)
    }

    /// The store that comes of storing the given pairs, one after another, in
    /// an empty store: a pair whose id came before replaces that id's task in
    /// place.
    pub open spec fn collected(pairs: Seq<(usize, TaskView)>) -> StoreView
        decreases pairs.len(),
    {
        if pairs.len() == 0 {
            StoreView::empty()
        } else {
            StoreView::collected(pairs.drop_last()).insert(pairs.last().0, pairs.last().1)
        }
    }
}

} // verus!
