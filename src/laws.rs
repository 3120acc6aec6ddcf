//! Properties of the request sequence as a whole, proved over `step`.
use vstd::prelude::*;
use crate::item_map::{has_key, key_index, Entry};
use crate::store::{lemma_put_all_unique, lemma_step_wf, put_all, step, Msg, TodoItemId, TodoState};

verus! {

/// The state after the requests `msgs`, where `ids[i]` is the id that a new
/// item made by `msgs[i]` gets.
pub open spec fn run(s: TodoState, msgs: Seq<Msg>, ids: Seq<TodoItemId>) -> TodoState
    decreases msgs.len(),
{
    if msgs.len() == 0 {
        s
    } else {
        run(step(s, msgs[0], ids[0]), msgs.drop_first(), ids.drop_first())
    }
}

/// The entry `a` comes before the entry `b`.
pub open spec fn comes_before(items: Seq<Entry>, a: TodoItemId, b: TodoItemId) -> bool {
    exists|i: int, j: int| 0 <= i < j < items.len() && items[i].0 == a && items[j].0 == b
}

/// No request of `msgs` creates an item under the id `k`.
pub open spec fn never_created(msgs: Seq<Msg>, ids: Seq<TodoItemId>, k: TodoItemId) -> bool {
    forall|i: int| 0 <= i < msgs.len() && (#[trigger] msgs[i] is CreateNewTodoItem) ==> ids[i] != k
}

proof fn lemma_step_absent(s: TodoState, msg: Msg, fresh: TodoItemId, k: TodoItemId)
    requires
        s.wf(),
        !has_key(s.items, k),
        msg is CreateNewTodoItem ==> fresh != k,
    ensures
        !has_key(step(s, msg, fresh).items, k),
{
    let t = step(s, msg, fresh).items;
    match msg {
        Msg::CreateNewTodoItem => {
            if has_key(s.items, fresh) {
                let x = key_index(s.items, fresh);
                assert forall|i: int| 0 <= i < t.len() implies t[i].0 != k by {
                    if i != x {
                        assert(t[i] == s.items[i]);
                    }
                }
            } else {
                assert forall|i: int| 0 <= i < t.len() implies t[i].0 != k by {
                    if i < s.items.len() {
                        assert(t[i] == s.items[i]);
                    }
                }
            }
        },
        Msg::RemoveTodoItem(r) => {
            if has_key(s.items, r) {
                let x = key_index(s.items, r);
                assert forall|i: int| 0 <= i < t.len() implies t[i].0 != k by {
                    if i < x {
                        assert(t[i] == s.items[i]);
                    } else {
                        assert(t[i] == s.items[i + 1]);
                    }
                }
            }
        },
        Msg::SaveEditingTodo => {
            match s.editing {
                Some(e) => {
                    if has_key(s.items, e.0) {
                        let x = key_index(s.items, e.0);
                        assert forall|i: int| 0 <= i < t.len() implies t[i].0 != k by {
                            if i != x {
                                assert(t[i] == s.items[i]);
                            }
                        }
                    }
                },
                None => {},
            }
        },
        _ => {},
    }
}

proof fn lemma_step_order(s: TodoState, msg: Msg, fresh: TodoItemId, a: TodoItemId, b: TodoItemId)
    requires
        s.wf(),
        comes_before(s.items, a, b),
        has_key(step(s, msg, fresh).items, a),
        has_key(step(s, msg, fresh).items, b),
    ensures
        comes_before(step(s, msg, fresh).items, a, b),
{
    let t = step(s, msg, fresh).items;
    let (i, j) = choose|i: int, j: int|
        0 <= i < j < s.items.len() && s.items[i].0 == a && s.items[j].0 == b;
    match msg {
        Msg::CreateNewTodoItem => {
            assert(t[i].0 == a && t[j].0 == b);
        },
        Msg::RemoveTodoItem(r) => {
            if has_key(s.items, r) {
                let x = key_index(s.items, r);
                let ai = choose|p: int| 0 <= p < t.len() && t[p].0 == a;
                let bi = choose|p: int| 0 <= p < t.len() && t[p].0 == b;
                let ai2 = if ai < x { ai } else { ai + 1 };
                let bi2 = if bi < x { bi } else { bi + 1 };
                assert(t[ai] == s.items[ai2]);
                assert(t[bi] == s.items[bi2]);
                assert(ai2 == i && bi2 == j);
                assert(t[ai].0 == a && t[bi].0 == b);
            }
        },
        Msg::SaveEditingTodo => {
            match s.editing {
                Some(e) => {
                    assert(t[i].0 == a && t[j].0 == b);
                },
                None => {},
            }
        },
        _ => {},
    }
}

proof fn lemma_run_absent(s: TodoState, msgs: Seq<Msg>, ids: Seq<TodoItemId>, k: TodoItemId)
    requires
        s.wf(),
        msgs.len() == ids.len(),
        !has_key(s.items, k),
        never_created(msgs, ids, k),
    ensures
        !has_key(run(s, msgs, ids).items, k),
    decreases msgs.len(),
{
    if msgs.len() > 0 {
        assert(msgs[0] is CreateNewTodoItem ==> ids[0] != k);
        lemma_step_absent(s, msgs[0], ids[0], k);
        lemma_step_wf(s, msgs[0], ids[0]);
        assert forall|i: int|
            0 <= i < msgs.drop_first().len() && (#[trigger] msgs.drop_first()[i] is CreateNewTodoItem) implies ids.drop_first()[i] != k by {
            assert(msgs[i + 1] is CreateNewTodoItem);
        }
        lemma_run_absent(step(s, msgs[0], ids[0]), msgs.drop_first(), ids.drop_first(), k);
    }
}

/// Item ids stay unique under every sequence of requests.
pub proof fn lemma_run_keeps_ids_unique(s: TodoState, msgs: Seq<Msg>, ids: Seq<TodoItemId>)
    requires
        s.wf(),
        msgs.len() == ids.len(),
    ensures
        run(s, msgs, ids).wf(),
    decreases msgs.len(),
{
    if msgs.len() > 0 {
        lemma_step_wf(s, msgs[0], ids[0]);
        lemma_run_keeps_ids_unique(step(s, msgs[0], ids[0]), msgs.drop_first(), ids.drop_first());
    }
}

/// The list keeps insertion order: two items that are present before and
/// after a sequence of requests, and that none of its requests created anew,
/// are in the same relative order afterwards.
pub proof fn lemma_run_keeps_order(
    s: TodoState,
    msgs: Seq<Msg>,
    ids: Seq<TodoItemId>,
    a: TodoItemId,
    b: TodoItemId,
)
    requires
        s.wf(),
        msgs.len() == ids.len(),
        never_created(msgs, ids, a),
        never_created(msgs, ids, b),
        comes_before(s.items, a, b),
        has_key(run(s, msgs, ids).items, a),
        has_key(run(s, msgs, ids).items, b),
    ensures
        comes_before(run(s, msgs, ids).items, a, b),
    decreases msgs.len(),
{
    if msgs.len() > 0 {
        let t = step(s, msgs[0], ids[0]);
        lemma_step_wf(s, msgs[0], ids[0]);
        let rest = msgs.drop_first();
        let rids = ids.drop_first();
        assert forall|i: int| 0 <= i < rest.len() && (#[trigger] rest[i] is CreateNewTodoItem) implies rids[i]
            != a && rids[i] != b by {
            assert(msgs[i + 1] is CreateNewTodoItem);
        }
        if !has_key(t.items, a) {
            lemma_run_absent(t, rest, rids, a);
        }
        if !has_key(t.items, b) {
            lemma_run_absent(t, rest, rids, b);
        }
        lemma_step_order(s, msgs[0], ids[0], a, b);
        lemma_run_keeps_order(t, rest, rids, a, b);
    }
}

/// A new item goes last: creating under an id that is not in the list
/// appends one entry with the draft as its title.
pub proof fn lemma_create_appends(s: TodoState, fresh: TodoItemId)
    requires
        s.wf(),
        !has_key(s.items, fresh),
    ensures
        step(s, Msg::CreateNewTodoItem, fresh).items == s.items.push((fresh, s.draft, false)),
        step(s, Msg::CreateNewTodoItem, fresh).draft.len() == 0,
{
}

/// Two creations in a row: the first item takes the draft, the second the
/// emptied draft, and the draft stays empty. From an empty draft both titles
/// are empty.
pub proof fn lemma_create_twice(s: TodoState, id1: TodoItemId, id2: TodoItemId)
    requires
        s.wf(),
        !has_key(s.items, id1),
        !has_key(s.items, id2),
        id1 != id2,
    ensures
        ({
            let t = step(step(s, Msg::CreateNewTodoItem, id1), Msg::CreateNewTodoItem, id2);
            &&& t.items == s.items.push((id1, s.draft, false)).push((id2, Seq::empty(), false))
            &&& t.draft.len() == 0
            &&& s.draft.len() == 0 ==> t.items[t.items.len() - 2].1.len() == 0 && t.items[t.items.len()
                - 1].1.len() == 0
        }),
{
    let m = step(s, Msg::CreateNewTodoItem, id1);
    assert(!has_key(m.items, id2)) by {
        assert forall|i: int| 0 <= i < m.items.len() implies m.items[i].0 != id2 by {
            if i < s.items.len() {
                assert(m.items[i] == s.items[i]);
            }
        }
    }
}

/// Starting a rename of an id that is not in the list changes nothing.
pub proof fn lemma_start_edit_missing(s: TodoState, k: TodoItemId, fresh: TodoItemId)
    requires
        !has_key(s.items, k),
    ensures
        step(s, Msg::StartTodoEdit(k), fresh) == s,
{
}

/// Committing a rename of an item that was removed ends the rename and
/// leaves the items as the removal left them.
pub proof fn lemma_commit_after_remove(s: TodoState, k: TodoItemId, fresh: TodoItemId)
    requires
        s.wf(),
        s.editing matches Some(e) && e.0 == k,
    ensures
        ({
            let removed = step(s, Msg::RemoveTodoItem(k), fresh);
            let committed = step(removed, Msg::SaveEditingTodo, fresh);
            &&& committed.editing is None
            &&& committed.items == removed.items
            &&& !has_key(committed.items, k)
        }),
{
    let removed = step(s, Msg::RemoveTodoItem(k), fresh);
    lemma_step_wf(s, Msg::RemoveTodoItem(k), fresh);
    assert(!has_key(removed.items, k)) by {
        if has_key(s.items, k) {
            let x = key_index(s.items, k);
            assert forall|i: int| 0 <= i < removed.items.len() implies removed.items[i].0 != k by {
                if i < x {
                    assert(removed.items[i] == s.items[i]);
                } else {
                    assert(removed.items[i] == s.items[i + 1]);
                }
            }
        }
    }
}

/// Taking a state apart and rebuilding it gives the same state: the items
/// with their ids, order, titles and flags, the draft and the rename.
pub proof fn lemma_parts_round_trip(s: TodoState)
    requires
        s.wf(),
    ensures
        (TodoState { items: put_all(s.items), draft: s.draft, editing: s.editing }) == s,
{
    lemma_put_all_unique(s.items);
}

} // verus!
