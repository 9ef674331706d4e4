use rs_egui_todo::{Task, TaskGenre, TaskStatus, TaskStore};

fn store_of(texts: &[(usize, &str)]) -> TaskStore {
    let mut store = TaskStore::new();
    for (id, text) in texts {
        store.insert(*id, Task::create((*text).to_owned(), *id));
    }
    store
}

fn contents(store: &TaskStore) -> Vec<(usize, String)> {
    store.entries().into_iter().map(|(id, task)| (id, task.content)).collect()
}

#[test]
fn new_store_is_empty() {
    let store = TaskStore::new();
    assert_eq!(store.len(), 0);
    assert!(store.ids().is_empty());
    assert!(store.entries().is_empty());
    assert!(store.get(0).is_none());
}

#[test]
fn insert_appends_new_ids_in_order() {
    let store = store_of(&[(5, "five"), (2, "two"), (9, "nine")]);
    assert_eq!(store.len(), 3);
    assert_eq!(store.ids(), vec![5, 2, 9]);
    assert_eq!(
        contents(&store),
        vec![(5, "five".to_owned()), (2, "two".to_owned()), (9, "nine".to_owned())]
    );
}

#[test]
fn insert_of_a_new_id_returns_none() {
    let mut store = TaskStore::new();
    assert!(store.insert(1, Task::create("one".to_owned(), 1)).is_none());
}

#[test]
fn insert_over_an_id_keeps_its_place_and_returns_the_old_task() {
    let mut store = store_of(&[(5, "five"), (2, "two"), (9, "nine")]);
    let previous = store.insert(2, Task::create("deux".to_owned(), 2));
    assert_eq!(previous.map(|task| task.content), Some("two".to_owned()));
    assert_eq!(store.len(), 3);
    assert_eq!(store.ids(), vec![5, 2, 9]);
    assert_eq!(
        contents(&store),
        vec![(5, "five".to_owned()), (2, "deux".to_owned()), (9, "nine".to_owned())]
    );
}

#[test]
fn get_finds_the_task_under_its_id() {
    let store = store_of(&[(5, "five"), (2, "two")]);
    let task = store.get(2).expect("id 2 is in the store");
    assert_eq!(task.id, 2);
    assert_eq!(task.content, "two");
    assert_eq!(task.status, TaskStatus::Todo);
    assert_eq!(task.genre, TaskGenre::Medium);
    assert_eq!(store.get(5).map(|task| task.content.as_str()), Some("five"));
}

#[test]
fn get_of_an_unknown_id_is_none() {
    let store = store_of(&[(5, "five"), (2, "two")]);
    assert!(store.get(3).is_none());
    assert!(store.get(0).is_none());
}

#[test]
fn get_mut_changes_the_task_in_place() {
    let mut store = store_of(&[(5, "five"), (2, "two"), (9, "nine")]);
    {
        let task = store.get_mut(2).expect("id 2 is in the store");
        assert_eq!(task.content, "two");
        task.status = TaskStatus::Doing;
        task.content = "two, started".to_owned();
    }
    assert_eq!(store.ids(), vec![5, 2, 9]);
    assert_eq!(store.get(2).map(|task| task.status), Some(TaskStatus::Doing));
    assert_eq!(store.get(2).map(|task| task.content.as_str()), Some("two, started"));
    assert_eq!(store.get(5).map(|task| task.status), Some(TaskStatus::Todo));
    assert_eq!(store.get(9).map(|task| task.status), Some(TaskStatus::Todo));
}

#[test]
fn get_mut_of_an_unknown_id_is_none() {
    let mut store = store_of(&[(5, "five")]);
    assert!(store.get_mut(6).is_none());
    assert_eq!(contents(&store), vec![(5, "five".to_owned())]);
}

#[test]
fn remove_then_get_is_none() {
    let mut store = store_of(&[(5, "five"), (2, "two"), (9, "nine")]);
    let removed = store.remove(2);
    assert_eq!(removed.map(|task| task.content), Some("two".to_owned()));
    assert!(store.get(2).is_none());
    assert_eq!(store.len(), 2);
}

#[test]
fn remove_keeps_the_order_of_the_rest() {
    let mut store = store_of(&[(1, "a"), (2, "b"), (3, "c"), (4, "d"), (5, "e")]);
    store.remove(2);
    assert_eq!(store.ids(), vec![1, 3, 4, 5]);
    store.remove(1);
    assert_eq!(store.ids(), vec![3, 4, 5]);
    store.remove(5);
    assert_eq!(store.ids(), vec![3, 4]);
    assert_eq!(contents(&store), vec![(3, "c".to_owned()), (4, "d".to_owned())]);
}

#[test]
fn remove_shifts_and_does_not_swap() {
    let mut store = store_of(&[(10, "first"), (20, "second"), (30, "third"), (40, "last")]);
    store.remove(10);
    assert_eq!(store.ids(), vec![20, 30, 40]);
}

#[test]
fn remove_of_an_unknown_id_changes_nothing() {
    let mut store = store_of(&[(5, "five"), (2, "two")]);
    assert!(store.remove(7).is_none());
    assert_eq!(store.ids(), vec![5, 2]);
    assert_eq!(store.len(), 2);
}

#[test]
fn remove_twice_finds_nothing_the_second_time() {
    let mut store = store_of(&[(5, "five"), (2, "two")]);
    assert!(store.remove(5).is_some());
    assert!(store.remove(5).is_none());
    assert_eq!(store.ids(), vec![2]);
}

#[test]
fn an_id_inserted_again_after_removal_goes_last() {
    let mut store = store_of(&[(1, "a"), (2, "b"), (3, "c")]);
    store.remove(1);
    store.insert(1, Task::create("a again".to_owned(), 1));
    assert_eq!(store.ids(), vec![2, 3, 1]);
}

#[test]
fn len_counts_the_entries() {
    let mut store = TaskStore::new();
    assert_eq!(store.len(), 0);
    store.insert(4, Task::create("x".to_owned(), 4));
    assert_eq!(store.len(), 1);
    store.insert(8, Task::create("y".to_owned(), 8));
    assert_eq!(store.len(), 2);
    store.insert(4, Task::create("z".to_owned(), 4));
    assert_eq!(store.len(), 2);
    store.remove(4);
    assert_eq!(store.len(), 1);
}

#[test]
fn column_holds_the_tasks_of_one_status_in_order() {
    let mut store = store_of(&[(1, "a"), (2, "b"), (3, "c"), (4, "d"), (5, "e")]);
    store.get_mut(2).unwrap().status = TaskStatus::Doing;
    store.get_mut(4).unwrap().status = TaskStatus::Doing;
    store.get_mut(5).unwrap().status = TaskStatus::Done;
    let ids_of = |tasks: Vec<Task>| tasks.into_iter().map(|task| task.id).collect::<Vec<usize>>();
    assert_eq!(ids_of(store.column(TaskStatus::Todo)), vec![1, 3]);
    assert_eq!(ids_of(store.column(TaskStatus::Doing)), vec![2, 4]);
    assert_eq!(ids_of(store.column(TaskStatus::Done)), vec![5]);
}

#[test]
fn column_of_an_empty_store_is_empty() {
    let store = TaskStore::new();
    assert!(store.column(TaskStatus::Todo).is_empty());
    assert!(store.column(TaskStatus::Doing).is_empty());
    assert!(store.column(TaskStatus::Done).is_empty());
}

#[test]
fn column_copies_the_whole_task() {
    let mut store = store_of(&[(3, "c")]);
    store.get_mut(3).unwrap().genre = TaskGenre::High;
    let shown = store.column(TaskStatus::Todo);
    assert_eq!(shown.len(), 1);
    assert_eq!(shown[0].id, 3);
    assert_eq!(shown[0].content, "c");
    assert_eq!(shown[0].genre, TaskGenre::High);
    assert_eq!(shown[0].status, TaskStatus::Todo);
}

#[test]
fn from_entries_rebuilds_a_store_from_its_entries() {
    let mut store = store_of(&[(5, "five"), (2, "two"), (9, "nine")]);
    store.get_mut(2).unwrap().status = TaskStatus::Done;
    store.get_mut(9).unwrap().genre = TaskGenre::Low;
    let copy = TaskStore::from_entries(&store.entries());
    assert_eq!(copy.ids(), vec![5, 2, 9]);
    assert_eq!(contents(&copy), contents(&store));
    assert_eq!(copy.get(2).map(|task| task.status), Some(TaskStatus::Done));
    assert_eq!(copy.get(9).map(|task| task.genre), Some(TaskGenre::Low));
    assert_eq!(copy.get(5).map(|task| task.genre), Some(TaskGenre::Medium));
}

#[test]
fn from_entries_lets_a_repeated_id_replace_in_place() {
    let entries = vec![
        (1, Task::create("a".to_owned(), 1)),
        (2, Task::create("b".to_owned(), 2)),
        (1, Task::create("a, later".to_owned(), 1)),
    ];
    let store = TaskStore::from_entries(&entries);
    assert_eq!(contents(&store), vec![(1, "a, later".to_owned()), (2, "b".to_owned())]);
}

#[test]
fn from_entries_of_nothing_is_empty() {
    let store = TaskStore::from_entries(&Vec::new());
    assert_eq!(store.len(), 0);
}
