//! The application state: the task store, the text being typed and the id
//! counter, with what each user action does to them.
//!
//! A frame of the user interface goes in two phases. While it is drawn, the
//! list is read and what the user asks for is noted in a `FrameActions`. Once
//! it is drawn, `TodoList::apply` carries the noted actions out. Nothing is
//! deleted or changed while the columns are being walked.

use crate::laws::{lemma_insert_keeps_wf, lemma_remove_keeps_wf, lemma_set_status_keeps_wf};
use crate::model::StoreView;
use crate::store::TaskStore;
use crate::task::{created, Task, TaskStatus};
use vstd::prelude::*;

verus! {

/// The whole state of the to-do list.
pub struct TodoList {
    items: TaskStore,
    new_item: String,
    next_id: usize,
}

/// What a `TodoList` is: its store, the pending input and the id that the
/// next new task will get.
#[verifier::ext_equal]
pub struct TodoListView {
    pub items: StoreView,
    pub new_item: Seq<char>,
    pub next_id: usize,
}

/// What the user asked for during one frame, to be carried out once the frame
/// has been drawn: at most one deletion and at most one change of status.
#[derive(Debug, Clone, Copy)]
pub struct FrameActions {
    pub to_delete: Option<usize>,
    pub status_update: Option<(usize, TaskStatus)>,
}

impl FrameActions {
    /// Nothing asked for.
    pub fn new() -> (actions: FrameActions)
        ensures
            actions.to_delete is None,
            actions.status_update is None,
    {
        FrameActions { to_delete: None, status_update: None }
    }

    /// Notes that the task under `id` is to be deleted. A deletion noted
    /// earlier in the frame is forgotten: the last one counts.
    pub fn delete(&mut self, id: usize)
        ensures
            final(self).to_delete == Some(id),
            final(self).status_update == old(self).status_update,
    {
        self.to_delete = Some(id);
    }

    /// Notes that the task under `id` is to get `status`. A change noted
    /// earlier in the frame is forgotten: the last one counts.
    pub fn update_status(&mut self, id: usize, status: TaskStatus)
        ensures
            final(self).status_update == Some((id, status)),
            final(self).to_delete == old(self).to_delete,
    {
        self.status_update = Some((id, status));
    }
}

impl TodoListView {
    /// What holds of every list: its store is a store, each task is kept
    /// under its own id, and every id in use lies below the counter.
    pub open spec fn wf(self) -> bool {
        &&& self.items.wf()
        &&& forall|id: usize| #[trigger]
            self.items.tasks.dom().contains(id) ==> self.items.tasks[id].id == id && id
                < self.next_id
    }

    /// The state of a list that was never saved: two tasks to start with,
    /// under the ids 0 and 1, no pending input, and the counter at 2.
    pub open spec fn initial() -> TodoListView {
        TodoListView {
            items: StoreView {
                order: seq![0usize, 1usize],
                tasks: map![
                    0usize => created("First task"@, 0),
                    1usize => created("Second task"@, 1),
                ],
            },
            new_item: Seq::empty(),
            next_id: 2,
        }
    }

    /// The state after the pending input is submitted. Empty input changes
    /// nothing. Otherwise a task with that text is stored under the counter's
    /// id, which puts it last, the input is cleared and the counter moves on
    /// by one, for which it must be below `usize::MAX`.
    pub open spec fn submitted(self) -> TodoListView {
        if self.new_item.len() == 0 {
            self
        } else {
            TodoListView {
                items: self.items.insert(self.next_id, created(self.new_item, self.next_id)),
                new_item: Seq::empty(),
                next_id: (self.next_id + 1) as usize,
            }
        }
    }

    /// The state after the task under `id` is deleted.
    pub open spec fn deleted(self, id: usize) -> TodoListView {
        TodoListView {
            items: self.items.remove(id),
            new_item: self.new_item,
            next_id: self.next_id,
        }
    }

    /// The state after the task under `id`, if there is one, is given `status`.
    pub open spec fn status_set(self, id: usize, status: TaskStatus) -> TodoListView {
        TodoListView {
            items: self.items.set_status(id, status),
            new_item: self.new_item,
            next_id: self.next_id,
        }
    }

    /// The state after the actions of one frame: first the deletion, then the
    /// change of status, which finds nothing to change where its task was the
    /// one deleted.
    pub open spec fn applied(self, actions: FrameActions) -> TodoListView {
        let after_delete = match actions.to_delete {
            Some(id) => self.deleted(id),
            None => self,
        };
        match actions.status_update {
            Some((id, status)) => after_delete.status_set(id, status),
            None => after_delete,
        }
    }
}

impl View for TodoList {
    type V = TodoListView;

    closed spec fn view(&self) -> TodoListView {
        TodoListView { items: self.items@, new_item: self.new_item@, next_id: self.next_id }
    }
}

impl Default for TodoList {
    /// The list that a first start shows; see `TodoListView::initial`.
    fn default() -> (list: TodoList)
        ensures
            list.wf(),
            list@ == TodoListView::initial(),
    {
        let mut items = TaskStore::new();
        items.insert(0, Task::create("First task".to_owned(), 0));
        items.insert(1, Task::create("Second task".to_owned(), 1));
        let list = TodoList { items: items, new_item: String::new(), next_id: 2 };
        assert(list@ =~= TodoListView::initial());
        list
    }
}

impl TodoList {
    /// What holds of every list; see `TodoListView::wf`.
    pub open spec fn wf(&self) -> bool {
        self@.wf()
    }

    /// The list to start with: the saved one where there is one, else the
    /// default.
    pub fn new(saved: Option<TodoList>) -> (list: TodoList)
        requires
            saved matches Some(saved_list) ==> saved_list.wf(),
        ensures
            list.wf(),
            match saved {
                Some(saved_list) => list == saved_list,
                None => list@ == TodoListView::initial(),
            },
    {
        match saved {
            Some(saved_list) => saved_list,
            None => TodoList::default(),
        }
    }

    /// A list made of a store, a pending input and a counter, where these fit
    /// together: each task kept under its own id, and every id below the
    /// counter. `None` where they do not.
    pub fn from_parts(items: TaskStore, new_item: String, next_id: usize) -> (list: Option<
        TodoList,
    >)
        requires
            items.wf(),
        ensures
            match list {
                Some(list) => {
                    &&& list.wf()
                    &&& list@.items == items@
                    &&& list@.new_item == new_item@
                    &&& list@.next_id == next_id
                },
                None => !(TodoListView { items: items@, new_item: new_item@, next_id: next_id })
                    .wf(),
            },
    {
        let ids = items.ids();
        let mut i: usize = 0;
        while i < ids.len()
            invariant
                items.wf(),
                ids@ == items@.order,
                i <= ids.len(),
                forall|k: int|
                    0 <= k < i ==> items@.tasks[#[trigger] ids@[k]].id == ids@[k] && ids@[k]
                        < next_id,
            decreases ids.len() - i,
        {
            let id = ids[i];
            assert(items@.order.contains(id)) by {
                assert(items@.order[i as int] == id);
            }
            match items.get(id) {
                Some(task) => {
                    if task.id != id || id >= next_id {
                        return None;
                    }
                },
                None => {},
            }
            i += 1;
        }
        let list = TodoList { items: items, new_item: new_item, next_id: next_id };
        assert forall|id: usize| #[trigger] list@.items.tasks.dom().contains(id) implies list@.items
            .tasks[id].id == id && id < next_id by {
            assert(list@.items.order.contains(id));
            let k = list@.items.order.index_of(id);
            assert(ids@[k] == id);
        }
        Some(list)
    }

    /// The task store, to be read.
    pub fn store(&self) -> (store: &TaskStore)
        ensures
            store@ == self@.items,
    {
        &self.items
    }

    /// The pending input.
    pub fn new_item(&self) -> (text: &String)
        ensures
            text@ == self@.new_item,
    {
        &self.new_item
    }

    /// Where the id counter stands: the id that the next new task will get.
    pub fn id_counter(&self) -> (id: usize)
        ensures
            id == self@.next_id,
    {
        self.next_id
    }

    /// Hands out the counter's id and moves the counter on by one, so that no
    /// id is handed out twice. The counter must have an id left to move on to.
    pub fn next_id(&mut self) -> (id: usize)
        requires
            old(self).wf(),
            old(self)@.next_id < usize::MAX,
        ensures
            final(self).wf(),
            id == old(self)@.next_id,
            final(self)@.next_id == id + 1,
            final(self)@.items == old(self)@.items,
            final(self)@.new_item == old(self)@.new_item,
    {
        let id = self.next_id;
        self.next_id = id + 1;
        id
    }

    /// Replaces the pending input.
    pub fn set_new_item(&mut self, text: String)
        requires
            old(self).wf(),
        ensures
            final(self).wf(),
            final(self)@.items == old(self)@.items,
            final(self)@.new_item == text@,
            final(self)@.next_id == old(self)@.next_id,
    {
        self.new_item = text;
    }

    /// Submits the pending input. Empty input is ignored and `None` is
    /// returned. Otherwise a task with that text is created under the
    /// counter's id and appended, the input is cleared, the counter moves on
    /// by one, and the new task's id is returned.
    ///
    /// Where there is input, the counter must have an id left to move on to.
    pub fn add(&mut self) -> (added: Option<usize>)
        requires
            old(self).wf(),
            old(self)@.new_item.len() > 0 ==> old(self)@.next_id < usize::MAX,
        ensures
            final(self).wf(),
            final(self)@ == old(self)@.submitted(),
            added == if old(self)@.new_item.len() == 0 {
                None
            } else {
                Some(old(self)@.next_id)
            },
            old(self)@.next_id <= final(self)@.next_id,
    {
        if self.new_item.as_str().is_empty() {
            return None;
        }
        let id = self.next_id();
        let task = Task::create(self.new_item.clone(), id);
        self.items.insert(id, task);
        self.new_item = String::new();
        Some(id)
    }

    /// Deletes the task under `id` and returns it. The tasks that stay keep
    /// their order, and the counter stays where it is.
    pub fn remove(&mut self, id: usize) -> (removed: Option<Task>)
        requires
            old(self).wf(),
        ensures
            final(self).wf(),
            final(self)@ == old(self)@.deleted(id),
            final(self)@.items.get(id) is None,
            final(self)@.next_id == old(self)@.next_id,
            match removed {
                Some(removed_task) => old(self)@.items.get(id) == Some(removed_task@),
                None => old(self)@.items.get(id) is None,
            },
    {
        self.items.remove(id)
    }

    /// Gives the task under `id` the status `status`, in place, and says
    /// whether there was such a task.
    pub fn set_status(&mut self, id: usize, status: TaskStatus) -> (found: bool)
        requires
            old(self).wf(),
        ensures
            final(self).wf(),
            final(self)@ == old(self)@.status_set(id, status),
            final(self)@.next_id == old(self)@.next_id,
            found == old(self)@.items.tasks.dom().contains(id),
    {
        match self.items.get_mut(id) {
            Some(task) => {
                task.status = status;
                true
            },
            None => false,
        }
    }

    /// Carries out what the user asked for during one frame: the deletion
    /// first, then the change of status. An id that is not in the list is
    /// passed over.
    pub fn apply(&mut self, actions: FrameActions)
        requires
            old(self).wf(),
        ensures
            final(self).wf(),
            final(self)@ == old(self)@.applied(actions),
            final(self)@.next_id == old(self)@.next_id,
    {
        match actions.to_delete {
            Some(id) => {
                self.remove(id);
            },
            None => {},
        }
        match actions.status_update {
            Some((id, status)) => {
                self.set_status(id, status);
            },
            None => {},
        }
    }
}

/// No id from the counter upward is in use: the id that the next task gets is
/// a new one.
pub proof fn lemma_counter_is_above_every_id(list: TodoListView, id: usize)
    requires
        list.wf(),
        list.next_id <= id,
    ensures
        !list.items.tasks.dom().contains(id),
{
}

/// Every step leads from a list to a list, and none lowers the counter.
/// Submitting input needs the counter to be below `usize::MAX`.
pub proof fn lemma_steps_keep_wf(list: TodoListView)
    requires
        list.wf(),
    ensures
        list.new_item.len() == 0 || list.next_id < usize::MAX ==> list.submitted().wf()
            && list.next_id <= list.submitted().next_id,
        forall|id: usize| #[trigger] list.deleted(id).wf(),
        forall|id: usize, status: TaskStatus| #[trigger] list.status_set(id, status).wf(),
        forall|actions: FrameActions|
            (#[trigger] list.applied(actions)).wf() && list.applied(actions).next_id
                == list.next_id,
{
    if list.new_item.len() > 0 {
        lemma_insert_keeps_wf(list.items, list.next_id, created(list.new_item, list.next_id));
    }
    assert forall|id: usize| #[trigger] list.deleted(id).wf() by {
        lemma_remove_keeps_wf(list.items, id);
    }
    assert forall|id: usize, status: TaskStatus| #[trigger] list.status_set(id, status).wf() by {
        lemma_set_status_keeps_wf(list.items, id, status);
    }
    assert forall|actions: FrameActions|
        (#[trigger] list.applied(actions)).wf() && list.applied(actions).next_id
            == list.next_id by {
        let after_delete = match actions.to_delete {
            Some(id) => list.deleted(id),
            None => list,
        };
        if let Some(id) = actions.to_delete {
            lemma_remove_keeps_wf(list.items, id);
        }
        if let Some((id, status)) = actions.status_update {
            lemma_set_status_keeps_wf(after_delete.items, id, status);
        }
    }
}

/// An id that was given and is no longer in the list does not come back: not
/// with a new task, and not with the actions of a frame.
pub proof fn lemma_gone_ids_stay_gone(list: TodoListView, id: usize, actions: FrameActions)
    requires
        list.wf(),
        id < list.next_id,
        !list.items.tasks.dom().contains(id),
    ensures
        !list.submitted().items.tasks.dom().contains(id),
        !list.applied(actions).items.tasks.dom().contains(id),
{
}

} // verus!
