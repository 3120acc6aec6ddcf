//! The application state and its single transition function.
use vstd::prelude::*;
use indexmap::IndexMap;
use crate::item_map::{
    entry_of, has_key, item_entries, key_index, map_clear, map_get, map_get_index, map_insert,
    map_len, map_new, map_shift_remove, unique_keys, Entry, TodoItem,
};

verus! {

/// An opaque item id: the 128-bit value of a random (version 4) UUID.
pub type TodoItemId = u128;

/// An in-progress rename of the item `id`.
pub struct EditingTodoItem {
    pub id: TodoItemId,
    pub title: String,
}

/// The whole application state: the items in order, the draft text of the
/// next item, and the rename in progress, if any.
pub struct TodoData {
    todo_list: IndexMap<TodoItemId, TodoItem>,
    new_todo_name: String,
    editing_todo_item: Option<EditingTodoItem>,
}

/// The state taken apart into plain values, for storage.
pub struct TodoParts {
    pub items: Vec<(TodoItemId, TodoItem)>,
    pub new_todo_name: String,
    pub editing_todo_item: Option<EditingTodoItem>,
}

/// The requests that change the state.
#[derive(Clone)]
pub enum Msg {
    NewTodoTitleUpdated(String),
    ClearEntireTodoList,
    CreateNewTodoItem,
    RemoveTodoItem(TodoItemId),
    StartTodoEdit(TodoItemId),
    EditingTodoTitleUpdated(String),
    SaveEditingTodo,
    CancelTodoEdit,
}

/// What the host has to do once a request has been applied.
#[derive(PartialEq, Eq, Structural, Debug, Clone, Copy)]
pub enum Effect {
    Nothing,
    /// After the next render, focus the edit input and select its text.
    FocusEditInput,
}

/// The state as a mathematical value.
pub struct TodoState {
    pub items: Seq<Entry>,
    pub draft: Seq<char>,
    pub editing: Option<(TodoItemId, Seq<char>)>,
}

impl View for TodoData {
    type V = TodoState;

    closed spec fn view(&self) -> TodoState {
        TodoState {
            items: item_entries(self.todo_list),
            draft: self.new_todo_name@,
            editing: match self.editing_todo_item {
                Some(e) => Some((e.id, e.title@)),
                None => None,
            },
        }
    }
}

impl View for TodoParts {
    type V = TodoState;

    open spec fn view(&self) -> TodoState {
        TodoState {
            items: self.items@.map_values(|e: (TodoItemId, TodoItem)| entry_of(e.0, e.1)),
            draft: self.new_todo_name@,
            editing: match self.editing_todo_item {
                Some(e) => Some((e.id, e.title@)),
                None => None,
            },
        }
    }
}

impl TodoState {
    /// Item ids are unique.
    pub open spec fn wf(self) -> bool {
        unique_keys(self.items)
    }
}

/// `items` after storing `(k, title, completed)`: in place when `k` is
/// present, else appended last.
pub open spec fn put(items: Seq<Entry>, k: TodoItemId, title: Seq<char>, completed: bool) -> Seq<Entry> {
    if has_key(items, k) {
        items.update(key_index(items, k), (k, title, completed))
    } else {
        items.push((k, title, completed))
    }
}

/// `items` without the entry `k`; the others keep their order.
pub open spec fn without(items: Seq<Entry>, k: TodoItemId) -> Seq<Entry> {
    if has_key(items, k) {
        items.remove(key_index(items, k))
    } else {
        items
    }
}

/// `items` with the entry `k`, if present, retitled `title`.
pub open spec fn retitle(items: Seq<Entry>, k: TodoItemId, title: Seq<char>) -> Seq<Entry> {
    if has_key(items, k) {
        let i = key_index(items, k);
        items.update(i, (k, title, items[i].2))
    } else {
        items
    }
}

/// The items after storing each of `es` in turn into an empty list: a
/// repeated id keeps its first place and takes its last value.
pub open spec fn put_all(es: Seq<Entry>) -> Seq<Entry>
    decreases es.len(),
{
    if es.len() == 0 {
        Seq::empty()
    } else {
        let e = es.last();
        put(put_all(es.drop_last()), e.0, e.1, e.2)
    }
}

/// The state after `msg`, where `fresh` is the id that a new item gets.
pub open spec fn step(s: TodoState, msg: Msg, fresh: TodoItemId) -> TodoState {
    match msg {
        Msg::NewTodoTitleUpdated(t) => TodoState { draft: t@, ..s },
        Msg::ClearEntireTodoList => TodoState { items: Seq::empty(), ..s },
        Msg::CreateNewTodoItem => TodoState {
            items: put(s.items, fresh, s.draft, false),
            draft: Seq::empty(),
            ..s
        },
        Msg::RemoveTodoItem(k) => TodoState { items: without(s.items, k), ..s },
        Msg::StartTodoEdit(k) => if has_key(s.items, k) {
            TodoState { editing: Some((k, s.items[key_index(s.items, k)].1)), ..s }
        } else {
            s
        },
        Msg::EditingTodoTitleUpdated(t) => match s.editing {
            Some(e) => TodoState { editing: Some((e.0, t@)), ..s },
            None => s,
        },
        Msg::SaveEditingTodo => match s.editing {
            Some(e) => TodoState { items: retitle(s.items, e.0, e.1), editing: None, ..s },
            None => s,
        },
        Msg::CancelTodoEdit => TodoState { editing: None, ..s },
    }
}

/// The effect that the host performs after `msg`.
pub open spec fn effect_of(msg: Msg) -> Effect {
    match msg {
        Msg::StartTodoEdit(_) => Effect::FocusEditInput,
        _ => Effect::Nothing,
    }
}

/// With unique keys, an entry found at `i` is the one `key_index` picks.
proof fn lemma_key_index_unique(s: Seq<Entry>, k: TodoItemId, i: int)
    requires
        unique_keys(s),
        0 <= i < s.len(),
        s[i].0 == k,
    ensures
        has_key(s, k),
        key_index(s, k) == i,
{
    assert(has_key(s, k));
    let j = key_index(s, k);
    assert(s[j].0 == k);
}

/// Storing an entry keeps the ids unique.
proof fn lemma_put_unique(s: Seq<Entry>, k: TodoItemId, t: Seq<char>, c: bool)
    requires
        unique_keys(s),
    ensures
        unique_keys(put(s, k, t, c)),
{
    if has_key(s, k) {
        let i = key_index(s, k);
        assert(s[i].0 == k);
    } else {
        let r = put(s, k, t, c);
        assert forall|a: int, b: int| 0 <= a < r.len() && 0 <= b < r.len() && a != b implies r[a].0
            != r[b].0 by {
            if a == s.len() {
                assert(s[b].0 != k);
            } else if b == s.len() {
                assert(s[a].0 != k);
            }
        }
    }
}

/// Removing an entry keeps the ids unique.
proof fn lemma_without_unique(s: Seq<Entry>, k: TodoItemId)
    requires
        unique_keys(s),
    ensures
        unique_keys(without(s, k)),
{
    if has_key(s, k) {
        let i = key_index(s, k);
        let r = without(s, k);
        assert forall|a: int, b: int| 0 <= a < r.len() && 0 <= b < r.len() && a != b implies r[a].0
            != r[b].0 by {
            let a2 = if a < i { a } else { a + 1 };
            let b2 = if b < i { b } else { b + 1 };
            assert(r[a] == s[a2]);
            assert(r[b] == s[b2]);
        }
    }
}

/// Retitling an entry keeps the ids unique.
proof fn lemma_retitle_unique(s: Seq<Entry>, k: TodoItemId, t: Seq<char>)
    requires
        unique_keys(s),
    ensures
        unique_keys(retitle(s, k, t)),
{
    if has_key(s, k) {
        let i = key_index(s, k);
        assert(s[i].0 == k);
    }
}

/// Every request keeps the ids unique.
pub proof fn lemma_step_wf(s: TodoState, msg: Msg, fresh: TodoItemId)
    requires
        s.wf(),
    ensures
        step(s, msg, fresh).wf(),
{
    match msg {
        Msg::CreateNewTodoItem => lemma_put_unique(s.items, fresh, s.draft, false),
        Msg::RemoveTodoItem(k) => lemma_without_unique(s.items, k),
        Msg::SaveEditingTodo => match s.editing {
            Some(e) => lemma_retitle_unique(s.items, e.0, e.1),
            None => {},
        },
        _ => {},
    }
}

/// Relies on uuid's `Uuid::new_v4`, as a 128-bit value: a random id, of
/// which nothing is known in advance.
#[verifier::external_body]
fn new_item_id() -> (r: TodoItemId) {
    uuid::Uuid::new_v4().as_u128()
}

/// Storing the entries of a list with unique ids, in order, rebuilds it.
pub proof fn lemma_put_all_unique(es: Seq<Entry>)
    requires
        unique_keys(es),
    ensures
        put_all(es) == es,
    decreases es.len(),
{
    if es.len() > 0 {
        let init = es.drop_last();
        assert(unique_keys(init));
        lemma_put_all_unique(init);
        let e = es.last();
        if has_key(init, e.0) {
            let i = choose|i: int| 0 <= i < init.len() && init[i].0 == e.0;
            assert(es[i].0 == es[es.len() - 1].0);
        }
        assert(init.push(e) =~= es);
    }
}

impl Default for TodoData {
    fn default() -> (r: TodoData)
        ensures
            r@.items == Seq::<Entry>::empty(),
            r@.draft == Seq::<char>::empty(),
            r@.editing is None,
    {
        TodoData::new()
    }
}

impl TodoData {
    /// An empty list, an empty draft and no rename in progress.
    pub fn new() -> (r: TodoData)
        ensures
            r@.items == Seq::<Entry>::empty(),
            r@.draft == Seq::<char>::empty(),
            r@.editing is None,
            r@.wf(),
    {
        TodoData { todo_list: map_new(), new_todo_name: String::new(), editing_todo_item: None }
    }

    /// The state rebuilt from its parts. The items are stored in order; an id
    /// that occurs twice keeps its first place and takes its last value.
    pub fn from_parts(p: TodoParts) -> (r: TodoData)
        ensures
            r@.items == put_all(p@.items),
            r@.draft == p@.draft,
            r@.editing == p@.editing,
            r@.wf(),
    {
        let ghost pv = p@;
        let TodoParts { items, new_todo_name, editing_todo_item } = p;
        let mut todo_list = map_new();
        let mut rest = items;
        let ghost all = pv.items;
        let n = rest.len();
        let mut i: usize = 0;
        assert(pv.items.take(0) =~= Seq::<Entry>::empty());
        while i < n
            invariant
                n == all.len(),
                0 <= i <= n,
                rest@.len() == n - i,
                forall|j: int| 0 <= j < n - i ==> entry_of(#[trigger] rest@[j].0, rest@[j].1) == all[i + j],
                item_entries(todo_list) == put_all(all.take(i as int)),
                unique_keys(item_entries(todo_list)),
            decreases n - i,
        {
            let ghost prev = rest@;
            let (id, item) = rest.remove(0);
            proof {
                assert(entry_of(id, item) == all[i as int]);
                lemma_put_unique(item_entries(todo_list), id, item.title@, item.completed);
                assert forall|j: int| 0 <= j < n - (i + 1) implies entry_of(#[trigger] rest@[j].0, rest@[j].1) == all[i + 1 + j] by {
                    assert(rest@[j] == prev[j + 1]);
                }
            }
            let ghost before = item_entries(todo_list);
            let ghost ev = entry_of(id, item);
            map_insert(&mut todo_list, id, item);
            proof {
                assert(all.take(i as int + 1).drop_last() =~= all.take(i as int));
                if has_key(before, id) {
                    let k = choose|k: int|
                        0 <= k < before.len() && before[k].0 == id && item_entries(todo_list)
                            == before.update(k, ev);
                    lemma_key_index_unique(before, id, k);
                }
            }
            i = i + 1;
        }
        assert(all.take(n as int) =~= all);
        TodoData { todo_list, new_todo_name, editing_todo_item }
    }

    /// The state taken apart: the items in order, the draft and the rename.
    pub fn to_parts(&self) -> (r: TodoParts)
        ensures
            r@ == self@,
    {
        let n = map_len(&self.todo_list);
        let mut items: Vec<(TodoItemId, TodoItem)> = Vec::new();
        let mut i: usize = 0;
        while i < n
            invariant
                n == self@.items.len(),
                0 <= i <= n,
                items@.len() == i,
                forall|j: int| 0 <= j < i ==> entry_of(#[trigger] items@[j].0, items@[j].1) == self@.items[j],
            decreases n - i,
        {
            match map_get_index(&self.todo_list, i) {
                Some((id, item)) => {
                    items.push((*id, TodoItem { title: item.title.clone(), completed: item.completed }));
                },
                None => {},
            }
            i = i + 1;
        }
        let editing_todo_item = match &self.editing_todo_item {
            Some(e) => Some(EditingTodoItem { id: e.id, title: e.title.clone() }),
            None => None,
        };
        let r = TodoParts { items, new_todo_name: self.new_todo_name.clone(), editing_todo_item };
        assert(r@.items =~= self@.items);
        r
    }

    /// The number of items.
    pub fn item_count(&self) -> (r: usize)
        ensures
            r == self@.items.len(),
    {
        map_len(&self.todo_list)
    }

    /// The item at position `i`, in list order, with its id.
    pub fn item_at(&self, i: usize) -> (r: (TodoItemId, &TodoItem))
        requires
            i < self@.items.len(),
        ensures
            entry_of(r.0, *r.1) == self@.items[i as int],
    {
        let (id, item) = map_get_index(&self.todo_list, i).unwrap();
        (*id, item)
    }

    /// The rename in progress, if any.
    pub fn editing_todo_item(&self) -> (r: &Option<EditingTodoItem>)
        ensures
            r is None <==> self@.editing is None,
            r is Some ==> self@.editing == Some((r->0.id, r->0.title@)),
    {
        &self.editing_todo_item
    }

    /// The draft text of the next item.
    pub fn new_todo_name(&self) -> (r: &String)
        ensures
            r@ == self@.draft,
    {
        &self.new_todo_name
    }

    /// Applies `msg`; a created item gets a fresh random id.
    pub fn update(&mut self, msg: Msg) -> (r: Effect)
        requires
            old(self)@.wf(),
        ensures
            exists|fresh: TodoItemId| final(self)@ == step(old(self)@, msg, fresh),
            final(self)@.wf(),
            r == effect_of(msg),
    {
        let fresh: TodoItemId = if matches!(msg, Msg::CreateNewTodoItem) {
            new_item_id()
        } else {
            0
        };
        self.apply(msg, fresh)
    }

    /// Applies `msg`; a created item gets the id `fresh`.
    pub fn apply(&mut self, msg: Msg, fresh: TodoItemId) -> (r: Effect)
        requires
            old(self)@.wf(),
        ensures
            final(self)@ == step(old(self)@, msg, fresh),
            final(self)@.wf(),
            r == effect_of(msg),
    {
        proof {
            lemma_step_wf(self@, msg, fresh);
        }
        let ghost s = self@;
        match msg {
            Msg::NewTodoTitleUpdated(t) => {
                self.new_todo_name = t;
                Effect::Nothing
            },
            Msg::ClearEntireTodoList => {
                map_clear(&mut self.todo_list);
                Effect::Nothing
            },
            Msg::CreateNewTodoItem => {
                let mut title = String::new();
                std::mem::swap(&mut title, &mut self.new_todo_name);
                map_insert(&mut self.todo_list, fresh, TodoItem { title, completed: false });
                proof {
                    let items = s.items;
                    if has_key(items, fresh) {
                        let i = choose|i: int|
                            0 <= i < items.len() && items[i].0 == fresh && item_entries(
                                self.todo_list,
                            ) == items.update(i, (fresh, s.draft, false));
                        lemma_key_index_unique(items, fresh, i);
                    }
                }
                assert(self@.items =~= step(s, msg, fresh).items);
                Effect::Nothing
            },
            Msg::RemoveTodoItem(k) => {
                map_shift_remove(&mut self.todo_list, k);
                proof {
                    let items = s.items;
                    if has_key(items, k) {
                        let i = choose|i: int|
                            0 <= i < items.len() && items[i].0 == k && item_entries(self.todo_list)
                                == items.remove(i);
                        lemma_key_index_unique(items, k, i);
                    }
                }
                Effect::Nothing
            },
            Msg::StartTodoEdit(k) => {
                match map_get(&self.todo_list, k) {
                    Some(item) => {
                        proof {
                            let items = s.items;
                            let i = choose|i: int|
                                0 <= i < items.len() && items[i] == entry_of(k, *item);
                            lemma_key_index_unique(items, k, i);
                        }
                        self.editing_todo_item = Some(
                            EditingTodoItem { id: k, title: item.title.clone() },
                        );
                    },
                    None => {},
                }
                Effect::FocusEditInput
            },
            Msg::EditingTodoTitleUpdated(t) => {
                match &mut self.editing_todo_item {
                    Some(e) => {
                        e.title = t;
                    },
                    None => {},
                }
                Effect::Nothing
            },
            Msg::SaveEditingTodo => {
                let mut taken: Option<EditingTodoItem> = None;
                std::mem::swap(&mut taken, &mut self.editing_todo_item);
                match taken {
                    Some(e) => {
                        match map_get(&self.todo_list, e.id) {
                            Some(item) => {
                                let completed: bool = item.completed;
                                proof {
                                    let items = s.items;
                                    let i = choose|i: int|
                                        0 <= i < items.len() && items[i] == entry_of(e.id, *item);
                                    lemma_key_index_unique(items, e.id, i);
                                }
                                let ghost before = item_entries(self.todo_list);
                                let id = e.id;
                                map_insert(
                                    &mut self.todo_list,
                                    id,
                                    TodoItem { title: e.title, completed },
                                );
                                proof {
                                    let j = choose|j: int|
                                        0 <= j < before.len() && before[j].0 == id && item_entries(
                                            self.todo_list,
                                        ) == before.update(j, entry_of(id, TodoItem { title: e.title, completed }));
                                    lemma_key_index_unique(before, id, j);
                                }
                            },
                            None => {},
                        }
                    },
                    None => {},
                }
                Effect::Nothing
            },
            Msg::CancelTodoEdit => {
                self.editing_todo_item = None;
                Effect::Nothing
            },
        }
    }
}

} // verus!
