//! The ordered item collection: indexmap's `IndexMap`, keyed by item id.
//!
//! What a map holds is named by `item_entries`, the sequence of its entries
//! in iteration order. Each wrapper states its effect on that sequence as
//! indexmap documents it.
use vstd::prelude::*;
use indexmap::IndexMap;

verus! {

/// One entry of the list: its title and the (unused) completion flag.
pub struct TodoItem {
    pub title: String,
    pub completed: bool,
}

/// An entry as a plain value: id, title, completion flag.
pub type Entry = (u128, Seq<char>, bool);

#[verifier::external_type_specification]
#[verifier::external_body]
#[verifier::reject_recursive_types(K)]
#[verifier::reject_recursive_types(V)]
#[verifier::reject_recursive_types(S)]
pub struct ExIndexMap<K, V, S>(IndexMap<K, V, S>);

/// The entries of a map, in its iteration order.
pub uninterp spec fn item_entries(m: IndexMap<u128, TodoItem>) -> Seq<Entry>;

pub open spec fn entry_of(k: u128, item: TodoItem) -> Entry {
    (k, item.title@, item.completed)
}

pub open spec fn has_key(s: Seq<Entry>, k: u128) -> bool {
    exists|i: int| 0 <= i < s.len() && s[i].0 == k
}

/// No two entries share an id.
pub open spec fn unique_keys(s: Seq<Entry>) -> bool {
    forall|i: int, j: int| 0 <= i < s.len() && 0 <= j < s.len() && i != j ==> s[i].0 != s[j].0
}

/// The position of the entry with id `k` (meaningful when `has_key(s, k)`).
pub open spec fn key_index(s: Seq<Entry>, k: u128) -> int {
    choose|i: int| 0 <= i < s.len() && s[i].0 == k
}

/// Relies on `IndexMap::new`: a new map is empty.
#[verifier::external_body]
pub(crate) fn map_new() -> (r: IndexMap<u128, TodoItem>)
    ensures
        item_entries(r) == Seq::<Entry>::empty(),
{
    IndexMap::new()
}

/// Relies on `IndexMap::len`: the number of entries.
#[verifier::external_body]
pub(crate) fn map_len(m: &IndexMap<u128, TodoItem>) -> (r: usize)
    ensures
        r == item_entries(*m).len(),
{
    m.len()
}

/// Relies on `IndexMap::clear`: every entry is removed.
#[verifier::external_body]
pub(crate) fn map_clear(m: &mut IndexMap<u128, TodoItem>)
    ensures
        item_entries(*final(m)) == Seq::<Entry>::empty(),
{
    m.clear()
}

/// Relies on `IndexMap::insert`: an existing key keeps its place and gets the
/// new value; a new key is appended last.
#[verifier::external_body]
pub(crate) fn map_insert(m: &mut IndexMap<u128, TodoItem>, k: u128, v: TodoItem)
    ensures
        has_key(item_entries(*old(m)), k) ==> exists|i: int|
            0 <= i < item_entries(*old(m)).len() && item_entries(*old(m))[i].0 == k
                && item_entries(*final(m)) == item_entries(*old(m)).update(i, entry_of(k, v)),
        !has_key(item_entries(*old(m)), k) ==> item_entries(*final(m)) == item_entries(
            *old(m),
        ).push(entry_of(k, v)),
{
    m.insert(k, v);
}

/// Relies on `IndexMap::shift_remove`: the entry with the key, if any, is
/// removed and the entries after it shift down in order.
#[verifier::external_body]
pub(crate) fn map_shift_remove(m: &mut IndexMap<u128, TodoItem>, k: u128)
    ensures
        has_key(item_entries(*old(m)), k) ==> exists|i: int|
            0 <= i < item_entries(*old(m)).len() && item_entries(*old(m))[i].0 == k
                && item_entries(*final(m)) == item_entries(*old(m)).remove(i),
        !has_key(item_entries(*old(m)), k) ==> item_entries(*final(m)) == item_entries(*old(m)),
{
    m.shift_remove(&k);
}

/// Relies on `IndexMap::get`: the value stored under the key, if any.
#[verifier::external_body]
pub(crate) fn map_get(m: &IndexMap<u128, TodoItem>, k: u128) -> (r: Option<&TodoItem>)
    ensures
        r is None <==> !has_key(item_entries(*m), k),
        r is Some ==> exists|i: int|
            0 <= i < item_entries(*m).len() && item_entries(*m)[i] == entry_of(k, *r->0),
{
    m.get(&k)
}

/// Relies on `IndexMap::get_index`: the entry at a position, in iteration
/// order.
#[verifier::external_body]
pub(crate) fn map_get_index(m: &IndexMap<u128, TodoItem>, i: usize) -> (r: Option<(&u128, &TodoItem)>)
    ensures
        i >= item_entries(*m).len() ==> r is None,
        i < item_entries(*m).len() ==> r is Some && item_entries(*m)[i as int] == entry_of(
            *(r->0).0,
            *(r->0).1,
        ),
{
    m.get_index(i)
}

} // verus!
