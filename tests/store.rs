use todo_list::{
    edit_key_msg, header_key_msg, Effect, EditingTodoItem, Msg, TodoData, TodoItem, TodoParts,
    ENTER_KEY, ESC_KEY,
};

fn titles(d: &TodoData) -> Vec<String> {
    (0..d.item_count()).map(|i| d.item_at(i).1.title.clone()).collect()
}

fn ids(d: &TodoData) -> Vec<u128> {
    (0..d.item_count()).map(|i| d.item_at(i).0).collect()
}

fn with_items(names: &[(u128, &str)]) -> TodoData {
    let mut d = TodoData::new();
    for (id, name) in names {
        d.apply(Msg::NewTodoTitleUpdated(name.to_string()), 0);
        d.apply(Msg::CreateNewTodoItem, *id);
    }
    d
}

#[test]
fn draft_then_create_makes_one_item() {
    let mut d = TodoData::new();
    d.apply(Msg::NewTodoTitleUpdated("milk".to_string()), 0);
    d.apply(Msg::CreateNewTodoItem, 7);
    assert_eq!(d.item_count(), 1);
    assert_eq!(titles(&d), vec!["milk".to_string()]);
    assert_eq!(ids(&d), vec![7]);
    assert!(!d.item_at(0).1.completed);
    assert_eq!(d.new_todo_name(), "");
}

#[test]
fn edit_then_commit_renames() {
    let mut d = with_items(&[(1, "milk")]);
    assert_eq!(d.apply(Msg::StartTodoEdit(1), 0), Effect::FocusEditInput);
    let e = d.editing_todo_item().as_ref().unwrap();
    assert_eq!((e.id, e.title.as_str()), (1, "milk"));
    d.apply(Msg::EditingTodoTitleUpdated("bread".to_string()), 0);
    // the item keeps its title until the commit
    assert_eq!(titles(&d), vec!["milk".to_string()]);
    assert_eq!(d.apply(Msg::SaveEditingTodo, 0), Effect::Nothing);
    assert_eq!(titles(&d), vec!["bread".to_string()]);
    assert!(d.editing_todo_item().is_none());
}

#[test]
fn edit_then_cancel_keeps_title() {
    let mut d = with_items(&[(1, "milk")]);
    d.apply(Msg::StartTodoEdit(1), 0);
    d.apply(Msg::EditingTodoTitleUpdated("bread".to_string()), 0);
    d.apply(Msg::CancelTodoEdit, 0);
    assert_eq!(titles(&d), vec!["milk".to_string()]);
    assert!(d.editing_todo_item().is_none());
}

#[test]
fn two_creations_without_draft_give_empty_titles() {
    let mut d = TodoData::new();
    d.apply(Msg::CreateNewTodoItem, 1);
    d.apply(Msg::CreateNewTodoItem, 2);
    assert_eq!(titles(&d), vec![String::new(), String::new()]);
    assert_eq!(ids(&d), vec![1, 2]);
    assert_eq!(d.new_todo_name(), "");
}

#[test]
fn second_creation_after_draft_is_empty() {
    let mut d = TodoData::new();
    d.apply(Msg::NewTodoTitleUpdated("eggs".to_string()), 0);
    d.apply(Msg::CreateNewTodoItem, 1);
    d.apply(Msg::CreateNewTodoItem, 2);
    assert_eq!(titles(&d), vec!["eggs".to_string(), String::new()]);
}

#[test]
fn start_edit_of_missing_id_changes_nothing() {
    let mut d = with_items(&[(1, "milk")]);
    d.apply(Msg::StartTodoEdit(99), 0);
    assert!(d.editing_todo_item().is_none());
    d.apply(Msg::StartTodoEdit(1), 0);
    d.apply(Msg::StartTodoEdit(99), 0);
    let e = d.editing_todo_item().as_ref().unwrap();
    assert_eq!((e.id, e.title.as_str()), (1, "milk"));
}

#[test]
fn commit_after_remove_discards_edit() {
    let mut d = with_items(&[(1, "milk"), (2, "eggs")]);
    d.apply(Msg::StartTodoEdit(1), 0);
    d.apply(Msg::EditingTodoTitleUpdated("bread".to_string()), 0);
    d.apply(Msg::RemoveTodoItem(1), 0);
    // the rename still points at the removed id
    assert_eq!(d.editing_todo_item().as_ref().unwrap().id, 1);
    d.apply(Msg::SaveEditingTodo, 0);
    assert!(d.editing_todo_item().is_none());
    assert_eq!(ids(&d), vec![2]);
    assert_eq!(titles(&d), vec!["eggs".to_string()]);
}

#[test]
fn removal_keeps_order_of_survivors() {
    let mut d = with_items(&[(10, "a"), (20, "b"), (30, "c"), (40, "d")]);
    d.apply(Msg::RemoveTodoItem(20), 0);
    assert_eq!(ids(&d), vec![10, 30, 40]);
    d.apply(Msg::RemoveTodoItem(77), 0);
    assert_eq!(ids(&d), vec![10, 30, 40]);
    d.apply(Msg::NewTodoTitleUpdated("e".to_string()), 0);
    d.apply(Msg::CreateNewTodoItem, 50);
    assert_eq!(ids(&d), vec![10, 30, 40, 50]);
    assert_eq!(titles(&d), vec!["a", "c", "d", "e"]);
}

#[test]
fn creating_under_existing_id_updates_in_place() {
    let mut d = with_items(&[(10, "a"), (20, "b")]);
    d.apply(Msg::NewTodoTitleUpdated("z".to_string()), 0);
    d.apply(Msg::CreateNewTodoItem, 10);
    assert_eq!(ids(&d), vec![10, 20]);
    assert_eq!(titles(&d), vec!["z", "b"]);
}

#[test]
fn clear_removes_all_items_only() {
    let mut d = with_items(&[(1, "a"), (2, "b")]);
    d.apply(Msg::NewTodoTitleUpdated("draft".to_string()), 0);
    d.apply(Msg::StartTodoEdit(2), 0);
    d.apply(Msg::ClearEntireTodoList, 0);
    assert_eq!(d.item_count(), 0);
    assert_eq!(d.new_todo_name(), "draft");
    assert_eq!(d.editing_todo_item().as_ref().unwrap().id, 2);
    // committing the dangling rename is a no-op
    d.apply(Msg::SaveEditingTodo, 0);
    assert_eq!(d.item_count(), 0);
}

#[test]
fn edit_text_without_rename_is_ignored() {
    let mut d = with_items(&[(1, "a")]);
    d.apply(Msg::EditingTodoTitleUpdated("x".to_string()), 0);
    assert!(d.editing_todo_item().is_none());
    d.apply(Msg::SaveEditingTodo, 0);
    assert_eq!(titles(&d), vec!["a"]);
}

#[test]
fn commit_keeps_completed_flag_and_place() {
    let parts = TodoParts {
        items: vec![
            (1, TodoItem { title: "a".to_string(), completed: true }),
            (2, TodoItem { title: "b".to_string(), completed: false }),
        ],
        new_todo_name: String::new(),
        editing_todo_item: Some(EditingTodoItem { id: 1, title: "A".to_string() }),
    };
    let mut d = TodoData::from_parts(parts);
    d.apply(Msg::SaveEditingTodo, 0);
    assert_eq!(ids(&d), vec![1, 2]);
    assert_eq!(titles(&d), vec!["A", "b"]);
    assert!(d.item_at(0).1.completed);
}

#[test]
fn parts_round_trip() {
    let mut d = with_items(&[(3, "x"), (1, "y"), (2, "z")]);
    d.apply(Msg::NewTodoTitleUpdated("next".to_string()), 0);
    d.apply(Msg::StartTodoEdit(1), 0);
    d.apply(Msg::EditingTodoTitleUpdated("why".to_string()), 0);
    let back = TodoData::from_parts(d.to_parts());
    assert_eq!(ids(&back), vec![3, 1, 2]);
    assert_eq!(titles(&back), vec!["x", "y", "z"]);
    assert_eq!(back.new_todo_name(), "next");
    let e = back.editing_todo_item().as_ref().unwrap();
    assert_eq!((e.id, e.title.as_str()), (1, "why"));
}

#[test]
fn from_parts_with_repeated_id_keeps_first_place() {
    let parts = TodoParts {
        items: vec![
            (1, TodoItem { title: "a".to_string(), completed: false }),
            (2, TodoItem { title: "b".to_string(), completed: false }),
            (1, TodoItem { title: "c".to_string(), completed: true }),
        ],
        new_todo_name: String::new(),
        editing_todo_item: None,
    };
    let d = TodoData::from_parts(parts);
    assert_eq!(ids(&d), vec![1, 2]);
    assert_eq!(titles(&d), vec!["c", "b"]);
    assert!(d.item_at(0).1.completed);
}

#[test]
fn update_gives_new_items_distinct_ids() {
    let mut d = TodoData::default();
    d.update(Msg::NewTodoTitleUpdated("a".to_string()));
    assert_eq!(d.update(Msg::CreateNewTodoItem), Effect::Nothing);
    d.update(Msg::CreateNewTodoItem);
    assert_eq!(d.item_count(), 2);
    let v = ids(&d);
    assert_ne!(v[0], v[1]);
    assert_ne!(v[0], 0);
    assert_eq!(titles(&d), vec!["a", ""]);
    assert_eq!(d.update(Msg::StartTodoEdit(v[1])), Effect::FocusEditInput);
}

#[test]
fn rows_mark_the_item_being_renamed() {
    let mut d = with_items(&[(1, "a"), (2, "b")]);
    assert!(d.shows_list());
    d.apply(Msg::StartTodoEdit(2), 0);
    d.apply(Msg::EditingTodoTitleUpdated("B".to_string()), 0);
    let rows = d.rows();
    assert_eq!(rows.len(), 2);
    assert_eq!((rows[0].id, rows[0].title.as_str()), (1, "a"));
    assert!(rows[0].editing.is_none());
    assert_eq!((rows[1].id, rows[1].title.as_str()), (2, "b"));
    assert_eq!(rows[1].editing.as_deref(), Some("B"));
}

#[test]
fn empty_list_shows_no_rows() {
    let d = TodoData::new();
    assert!(!d.shows_list());
    assert!(d.rows().is_empty());
}

#[test]
fn key_codes_map_to_requests() {
    assert!(matches!(header_key_msg(ENTER_KEY), Some(Msg::CreateNewTodoItem)));
    assert!(header_key_msg(ESC_KEY).is_none());
    assert!(header_key_msg(65).is_none());
    assert_eq!(ENTER_KEY, 13);
    assert_eq!(ESC_KEY, 27);
    assert!(matches!(edit_key_msg(13), Some(Msg::SaveEditingTodo)));
    assert!(matches!(edit_key_msg(27), Some(Msg::CancelTodoEdit)));
    assert!(edit_key_msg(65).is_none());
}
