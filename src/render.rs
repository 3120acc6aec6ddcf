//! What the page shows for a state, as plain values, and which request a key
//! press makes. The host turns these into DOM nodes and event handlers.
use vstd::prelude::*;
use crate::item_map::Entry;
use crate::store::{Msg, TodoData, TodoItemId};

verus! {

/// Key code of Enter: creates an item, or commits a rename.
pub const ENTER_KEY: u32 = 13;

/// Key code of Escape: cancels a rename.
pub const ESC_KEY: u32 = 27;

/// One row of the list. `editing` holds the text of the edit input when the
/// row is the one being renamed; the row then carries the editing marker.
pub struct TodoRow {
    pub id: TodoItemId,
    pub title: String,
    pub editing: Option<String>,
}

/// The text that the edit input of row `e` shows, when `e` is being renamed.
pub open spec fn edit_text_of(e: Entry, editing: Option<(TodoItemId, Seq<char>)>) -> Option<Seq<char>> {
    match editing {
        Some(ed) => if ed.0 == e.0 {
            Some(ed.1)
        } else {
            None
        },
        None => None,
    }
}

/// Row `r` shows entry `e` of a state whose rename is `editing`.
pub open spec fn row_shows(r: TodoRow, e: Entry, editing: Option<(TodoItemId, Seq<char>)>) -> bool {
    &&& r.id == e.0
    &&& r.title@ == e.1
    &&& (r.editing is Some <==> edit_text_of(e, editing) is Some)
    &&& (r.editing is Some ==> r.editing->0@ == edit_text_of(e, editing)->0)
}

/// The request that a key press in the draft input makes.
pub fn header_key_msg(key_code: u32) -> (r: Option<Msg>)
    ensures
        key_code == ENTER_KEY ==> r matches Some(Msg::CreateNewTodoItem),
        key_code != ENTER_KEY ==> r is None,
{
    if key_code == ENTER_KEY {
        Some(Msg::CreateNewTodoItem)
    } else {
        None
    }
}

/// The request that a key press in the edit input makes.
pub fn edit_key_msg(key_code: u32) -> (r: Option<Msg>)
    ensures
        key_code == ENTER_KEY ==> r matches Some(Msg::SaveEditingTodo),
        key_code == ESC_KEY ==> r matches Some(Msg::CancelTodoEdit),
        key_code != ENTER_KEY && key_code != ESC_KEY ==> r is None,
{
    if key_code == ENTER_KEY {
        Some(Msg::SaveEditingTodo)
    } else if key_code == ESC_KEY {
        Some(Msg::CancelTodoEdit)
    } else {
        None
    }
}

impl TodoData {
    /// Whether the list region is shown: only when there are items.
    pub fn shows_list(&self) -> (r: bool)
        ensures
            r == (self@.items.len() > 0),
    {
        self.item_count() > 0
    }

    /// The rows of the list, one per item, in list order.
    pub fn rows(&self) -> (r: Vec<TodoRow>)
        ensures
            r@.len() == self@.items.len(),
            forall|i: int| 0 <= i < r@.len() ==> row_shows(#[trigger] r@[i], self@.items[i], self@.editing),
    {
        let n = self.item_count();
        let editing = self.editing_todo_item();
        let mut rows: Vec<TodoRow> = Vec::new();
        let mut i: usize = 0;
        while i < n
            invariant
                n == self@.items.len(),
                0 <= i <= n,
                rows@.len() == i,
                editing is None <==> self@.editing is None,
                editing is Some ==> self@.editing == Some((editing->0.id, editing->0.title@)),
                forall|j: int| 0 <= j < i ==> row_shows(#[trigger] rows@[j], self@.items[j], self@.editing),
            decreases n - i,
        {
            let (id, item) = self.item_at(i);
            let edit_text = match editing {
                Some(e) => if e.id == id {
                    Some(e.title.clone())
                } else {
                    None
                },
                None => None,
            };
            rows.push(TodoRow { id, title: item.title.clone(), editing: edit_text });
            i = i + 1;
        }
        rows
    }
}

} // verus!
