//! State store and row model of a browser to-do list.
//!
//! The list is an insertion-ordered map from item ids to items, a draft text
//! for the next item, and at most one in-progress rename. Every change goes
//! through `TodoData::apply`, whose contract is the transition function
//! `store::step`.

pub mod item_map;
pub mod store;
pub mod render;
pub mod laws;

pub use item_map::TodoItem;
pub use store::{Effect, EditingTodoItem, Msg, TodoData, TodoItemId, TodoParts};
pub use render::{edit_key_msg, header_key_msg, TodoRow, ENTER_KEY, ESC_KEY};
