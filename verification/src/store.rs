//! The task store: tasks by id, in the order in which the ids were inserted.

use crate::index_map::{
    map_get, map_get_mut, map_insert, map_keys, map_len, map_new, map_order, map_shift_remove,
    map_tasks,
};
use crate::laws::{
    lemma_column_step, lemma_insert_keeps_wf, lemma_remove_keeps_order, lemma_remove_keeps_wf,
};
use crate::model::{other_than, StoreView};
use crate::task::{entry_views, task_views, Task, TaskStatus, TaskView};
use indexmap::IndexMap;
use vstd::prelude::*;

verus! {

/// An insertion-ordered mapping from id to task.
pub struct TaskStore {
    items: IndexMap<usize, Task>,
}

impl View for TaskStore {
    type V = StoreView;

    closed spec fn view(&self) -> StoreView {
        StoreView { order: map_order(self.items), tasks: map_tasks(self.items) }
    }
}

impl TaskStore {
    /// What holds of every store; see `StoreView::wf`.
    pub open spec fn wf(&self) -> bool {
        self@.wf()
    }

    /// An empty store.
    pub fn new() -> (store: TaskStore)
        ensures
            store.wf(),
            store@ == StoreView::empty(),
    {
        TaskStore { items: map_new() }
    }

    /// The store that comes of inserting the given pairs, one after another,
    /// in an empty store. Made of the entries of a store, it is a copy of that
    /// store.
    pub fn from_entries(entries: &Vec<(usize, Task)>) -> (store: TaskStore)
        ensures
            store.wf(),
            store@ == StoreView::collected(entry_views(entries@)),
    {
        let mut store = TaskStore::new();
        let mut i: usize = 0;
        assert(entry_views(entries@).take(0) == Seq::<(usize, TaskView)>::empty());
        while i < entries.len()
            invariant
                store.wf(),
                i <= entries.len(),
                store@ == StoreView::collected(entry_views(entries@).take(i as int)),
            decreases entries.len() - i,
        {
            let id = entries[i].0;
            let task = entries[i].1.clone();
            proof {
                let longer = entry_views(entries@).take(i + 1);
                assert(longer.drop_last() == entry_views(entries@).take(i as int));
                assert(longer.last() == (id, task@));
            }
            store.insert(id, task);
            i += 1;
        }
        assert(entry_views(entries@).take(entries.len() as int) == entry_views(entries@));
        store
    }

    /// The number of tasks in the store.
    pub fn len(&self) -> (len: usize)
        ensures
            len == self@.order.len(),
    {
        map_len(&self.items)
    }

    /// Stores `task` under `id`. An id that is in the store keeps its place and
    /// its task is replaced; a new id goes to the end. Returns the task that
    /// `id` had before.
    pub fn insert(&mut self, id: usize, task: Task) -> (previous: Option<Task>)
        requires
            old(self).wf(),
        ensures
            final(self).wf(),
            final(self)@ == old(self)@.insert(id, task@),
            final(self)@.get(id) == Some(task@),
            match previous {
                Some(previous_task) => old(self)@.get(id) == Some(previous_task@),
                None => old(self)@.get(id) is None,
            },
    {
        proof {
            lemma_insert_keeps_wf(self@, id, task@);
        }
        map_insert(&mut self.items, id, task)
    }

    /// The task stored under `id`, if there is one.
    pub fn get(&self, id: usize) -> (found: Option<&Task>)
        ensures
            match found {
                Some(task) => self@.get(id) == Some(task@),
                None => self@.get(id) is None,
            },
    {
        map_get(&self.items, id)
    }

    /// The task stored under `id`, to be changed in place. The store is as
    /// before but for what the caller writes through the reference.
    pub fn get_mut(&mut self, id: usize) -> (found: Option<&mut Task>)
        requires
            old(self).wf(),
        ensures
            final(self).wf(),
            match found {
                Some(task) => {
                    &&& old(self)@.get(id) == Some((*task)@)
                    &&& final(self)@ == old(self)@.insert(id, (*final(task))@)
                },
                None => {
                    &&& old(self)@.get(id) is None
                    &&& final(self)@ == old(self)@
                },
            },
    {
        proof {
            assert forall|task: TaskView| (#[trigger] self@.insert(id, task)).wf() by {
                lemma_insert_keeps_wf(self@, id, task);
            }
        }
        map_get_mut(&mut self.items, id)
    }

    /// Takes the task under `id` out of the store and returns it. Nothing is
    /// found under `id` afterwards. The tasks behind it move up; the order of
    /// those that stay is unchanged.
    pub fn remove(&mut self, id: usize) -> (removed: Option<Task>)
        requires
            old(self).wf(),
        ensures
            final(self).wf(),
            final(self)@ == old(self)@.remove(id),
            final(self)@.get(id) is None,
            final(self)@.order == old(self)@.order.filter(other_than(id)),
            match removed {
                Some(removed_task) => old(self)@.get(id) == Some(removed_task@),
                None => old(self)@.get(id) is None,
            },
    {
        proof {
            lemma_remove_keeps_wf(self@, id);
            lemma_remove_keeps_order(self@, id);
        }
        map_shift_remove(&mut self.items, id)
    }

    /// The ids in the store, in insertion order.
    pub fn ids(&self) -> (ids: Vec<usize>)
        ensures
            ids@ == self@.order,
    {
        map_keys(&self.items)
    }

    /// A copy of every entry, in insertion order.
    pub fn entries(&self) -> (entries: Vec<(usize, Task)>)
        requires
            self.wf(),
        ensures
            entry_views(entries@) == self@.entries(),
            entries.len() == self@.order.len(),
            forall|i: int|
                0 <= i < entries.len() ==> (#[trigger] entries[i]).0 == self@.order[i]
                    && entries[i].1@ == self@.tasks[self@.order[i]],
    {
        let ids = self.ids();
        let mut entries: Vec<(usize, Task)> = Vec::new();
        let mut i: usize = 0;
        while i < ids.len()
            invariant
                self.wf(),
                ids@ == self@.order,
                i <= ids.len(),
                entry_views(entries@) == self@.entries().take(i as int),
                entries.len() == i,
                forall|k: int|
                    0 <= k < i ==> (#[trigger] entries[k]).0 == self@.order[k] && entries[k].1@
                        == self@.tasks[self@.order[k]],
            decreases ids.len() - i,
        {
            let id = ids[i];
            assert(self@.order.contains(id)) by {
                assert(self@.order[i as int] == id);
            }
            match self.get(id) {
                Some(task) => {
                    let ghost before = entries@;
                    entries.push((id, task.clone()));
                    assert(entry_views(entries@) == entry_views(before).push((id, task@)));
                    assert(self@.entries().take(i + 1) == self@.entries().take(i as int).push(
                        (id, task@),
                    ));
                },
                None => {},
            }
            i += 1;
        }
        assert(self@.entries().take(ids.len() as int) == self@.entries());
        entries
    }

    /// A copy of each task that has the given status, in insertion order: one
    /// column of the board. The ids are collected first and the tasks looked
    /// up one by one.
    pub fn column(&self, status: TaskStatus) -> (shown: Vec<Task>)
        requires
            self.wf(),
        ensures
            task_views(shown@) == self@.column(status),
            shown.len() == self@.column(status).len(),
            forall|i: int|
                0 <= i < shown.len() ==> (#[trigger] shown[i])@ == self@.column(status)[i]
                    && shown[i].status == status,
    {
        let ids = self.ids();
        let mut shown: Vec<Task> = Vec::new();
        let mut i: usize = 0;
        assert(self@.column_of_first(0, status) == Seq::<TaskView>::empty()) by {
            reveal(Seq::filter);
        }
        while i < ids.len()
            invariant
                self.wf(),
                ids@ == self@.order,
                i <= ids.len(),
                task_views(shown@) == self@.column_of_first(i as int, status),
                shown.len() == self@.column_of_first(i as int, status).len(),
                forall|k: int|
                    0 <= k < shown.len() ==> (#[trigger] shown[k])@ == self@.column_of_first(
                        i as int,
                        status,
                    )[k] && shown[k].status == status,
            decreases ids.len() - i,
        {
            let id = ids[i];
            proof {
                assert(self@.order.contains(id)) by {
                    assert(self@.order[i as int] == id);
                }
                lemma_column_step(self@, i as int, status);
            }
            match self.get(id) {
                Some(task) => {
                    if task.status == status {
                        let ghost before = shown@;
                        shown.push(task.clone());
                        assert(task_views(shown@) == task_views(before).push(task@));
                    }
                },
                None => {},
            }
            i += 1;
        }
        assert(self@.tasks_in_order().take(ids.len() as int) == self@.tasks_in_order());
        shown
    }
}

} // verus!
