//! A to-do list whose behaviour is stated in contracts and proved with Verus.
//!
//! A [`Task`] carries an id, a status, a priority and free text. A
//! [`TaskStore`] keeps tasks by id in the order in which they were inserted.
//! A [`TodoList`] owns a store, the text that the user is typing and the
//! counter from which new ids are taken, and says what each user action does
//! to them.
//!
//! - [`task`]: tasks and the way a status moves.
//! - [`model`]: what a store is, as mathematics.
//! - [`laws`]: what holds of every store.
//! - [`store`]: the store itself, kept in an `indexmap::IndexMap`.
//! - [`todo_list`]: the list, its steps, and what holds of every list.
//!
//! The calls into `indexmap` are the one thing that is believed and not
//! proved; they stand together in one private module.

mod index_map;
pub mod laws;
pub mod model;
pub mod store;
pub mod task;
pub mod todo_list;

pub use model::StoreView;
pub use store::TaskStore;
pub use task::{Task, TaskGenre, TaskStatus, TaskView};
pub use todo_list::{FrameActions, TodoList, TodoListView};
