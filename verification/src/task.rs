//! Tasks, their status, and the one way in which a status moves.

use vstd::prelude::*;

verus! {

/// Where a task stands in its life. `Done` is the last stage.
#[derive(Debug, Clone, Copy, PartialEq, Eq, Structural)]
pub enum TaskStatus {
    Todo,
    Doing,
    Done,
}

/// How much a task matters. It is carried along and decides nothing.
#[derive(Debug, Clone, Copy, PartialEq, Eq, Structural)]
pub enum TaskGenre {
    Low,
    Medium,
    High,
}

/// One entry of the list.
#[derive(Debug)]
pub struct Task {
    pub id: usize,
    pub status: TaskStatus,
    pub genre: TaskGenre,
    pub content: String,
}

/// What a task is, with its text as a sequence of characters.
pub struct TaskView {
    pub id: usize,
    pub status: TaskStatus,
    pub genre: TaskGenre,
    pub content: Seq<char>,
}

impl View for Task {
    type V = TaskView;

    open spec fn view(&self) -> TaskView {
        TaskView { id: self.id, status: self.status, genre: self.genre, content: self.content@ }
    }
}

/// The views of a sequence of tasks, one for one.
pub open spec fn task_views(tasks: Seq<Task>) -> Seq<TaskView> {
    tasks.map_values(|task: Task| task@)
}

/// The views of a sequence of entries, one for one.
pub open spec fn entry_views(entries: Seq<(usize, Task)>) -> Seq<(usize, TaskView)> {
    entries.map_values(|entry: (usize, Task)| (entry.0, entry.1@))
}

/// The task that `Task::create` makes of a text and an id: not yet started,
/// of medium priority.
pub open spec fn created(content: Seq<char>, id: usize) -> TaskView {
    TaskView { id: id, status: TaskStatus::Todo, genre: TaskGenre::Medium, content: content }
}

impl TaskStatus {
    /// The stage that follows `self`: `Todo`, then `Doing`, then `Done`,
    /// where it stays.
    pub open spec fn next(self) -> TaskStatus {
        match self {
            TaskStatus::Todo => TaskStatus::Doing,
            TaskStatus::Doing => TaskStatus::Done,
            TaskStatus::Done => TaskStatus::Done,
        }
    }

    /// How far along a status is: 0 for `Todo`, 1 for `Doing`, 2 for `Done`.
    pub open spec fn rank(self) -> nat {
        match self {
            TaskStatus::Todo => 0,
            TaskStatus::Doing => 1,
            TaskStatus::Done => 2,
        }
    }
}

impl TaskView {
    /// `self` with its status replaced and all else kept.
    pub open spec fn with_status(self, status: TaskStatus) -> TaskView {
        TaskView { id: self.id, status: status, genre: self.genre, content: self.content }
    }
}

impl Clone for Task {
    fn clone(&self) -> (copy: Task)
        ensures
            copy == *self,
    {
        Task { id: self.id, status: self.status, genre: self.genre, content: self.content.clone() }
    }
}

impl Task {
    /// A new task with the given text and id, not yet started and of medium
    /// priority. The text is taken as it is; an empty one is accepted.
    pub fn create(content: String, id: usize) -> (task: Task)
        ensures
            task.id == id,
            task.status == TaskStatus::Todo,
            task.genre == TaskGenre::Medium,
            task.content == content,
            task@ == created(content@, id),
    {
        Task { id: id, status: TaskStatus::Todo, genre: TaskGenre::Medium, content: content }
    }

    /// The status that follows `cur_status`.
    pub fn get_next_status(cur_status: TaskStatus) -> (next: TaskStatus)
        ensures
            next == cur_status.next(),
    {
        match cur_status {
            TaskStatus::Todo => TaskStatus::Doing,
            TaskStatus::Doing => TaskStatus::Done,
            TaskStatus::Done => TaskStatus::Done,
        }
    }
}

/// A status never moves back, `Done` is the only status that stays where it
/// is, and two steps from anywhere end in `Done`.
pub proof fn lemma_status_moves_forward_to_done(status: TaskStatus)
    ensures
        status.rank() <= status.next().rank(),
        status.next() == status <==> status == TaskStatus::Done,
        status.next().next() == TaskStatus::Done,
{
}

} // verus!
