use rs_egui_todo::{Task, TaskGenre, TaskStatus};

#[test]
fn create_sets_todo_medium_and_keeps_the_text() {
    let task = Task::create("Buy milk".to_owned(), 7);
    assert_eq!(task.id, 7);
    assert_eq!(task.status, TaskStatus::Todo);
    assert_eq!(task.genre, TaskGenre::Medium);
    assert_eq!(task.content, "Buy milk");
}

#[test]
fn create_accepts_empty_text() {
    let task = Task::create(String::new(), 0);
    assert_eq!(task.id, 0);
    assert_eq!(task.status, TaskStatus::Todo);
    assert_eq!(task.genre, TaskGenre::Medium);
    assert_eq!(task.content, "");
}

#[test]
fn create_keeps_text_verbatim() {
    let text = "  进行中 \t tabs, \"quotes\" and\nnewlines  ";
    let task = Task::create(text.to_owned(), usize::MAX);
    assert_eq!(task.id, usize::MAX);
    assert_eq!(task.content, text);
}

#[test]
fn next_status_of_todo_is_doing() {
    assert_eq!(Task::get_next_status(TaskStatus::Todo), TaskStatus::Doing);
}

#[test]
fn next_status_of_doing_is_done() {
    assert_eq!(Task::get_next_status(TaskStatus::Doing), TaskStatus::Done);
}

#[test]
fn next_status_of_done_is_done() {
    assert_eq!(Task::get_next_status(TaskStatus::Done), TaskStatus::Done);
}

#[test]
fn two_steps_from_any_status_end_in_done() {
    for status in [TaskStatus::Todo, TaskStatus::Doing, TaskStatus::Done] {
        let twice = Task::get_next_status(Task::get_next_status(status));
        assert_eq!(twice, TaskStatus::Done);
    }
}

#[test]
fn done_is_the_only_status_that_stays() {
    assert_ne!(Task::get_next_status(TaskStatus::Todo), TaskStatus::Todo);
    assert_ne!(Task::get_next_status(TaskStatus::Doing), TaskStatus::Doing);
    assert_eq!(Task::get_next_status(TaskStatus::Done), TaskStatus::Done);
}

#[test]
fn clone_copies_every_field() {
    let mut task = Task::create("Water the plants".to_owned(), 3);
    task.status = TaskStatus::Doing;
    task.genre = TaskGenre::High;
    let copy = task.clone();
    assert_eq!(copy.id, 3);
    assert_eq!(copy.status, TaskStatus::Doing);
    assert_eq!(copy.genre, TaskGenre::High);
    assert_eq!(copy.content, "Water the plants");
}
