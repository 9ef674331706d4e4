//! What this library takes on trust from the `indexmap` crate.
//!
//! The tasks are kept in an `indexmap::IndexMap`, a hash table whose keys
//! have an order, which Verus does not read. Each function below makes one
//! call into that crate, and its contract says what the crate documents of
//! the call. None of these contracts is proved.
//!
//! The contracts speak of a map through two names: the keys in the map's
//! order, and the value stored for each key. A map holds a key once, so a key
//! has one place in the order, which `index_of` names. That the keys in the
//! order are those with a value, each once, is not taken on trust: the store
//! proves it of every map that it makes.

use crate::model::StoreView;
use crate::task::{Task, TaskView};
use indexmap::IndexMap;
use vstd::prelude::*;

verus! {

/// `indexmap::IndexMap`, of which Verus sees nothing but the name.
#[verifier::external_type_specification]
#[verifier::external_body]
#[verifier::reject_recursive_types(K)]
#[verifier::reject_recursive_types(V)]
#[verifier::reject_recursive_types(S)]
pub struct ExIndexMap<K, V, S>(IndexMap<K, V, S>);

/// The keys that a map holds, in the map's own order. The order is that of
/// insertion but for removals; it does not depend on the hash function.
pub uninterp spec fn map_order(map: IndexMap<usize, Task>) -> Seq<usize>;

/// The value that a map holds for each of its keys, by its view.
pub uninterp spec fn map_tasks(map: IndexMap<usize, Task>) -> Map<usize, TaskView>;

/// `IndexMap::new`: a map that holds nothing.
#[verifier::external_body]
pub(crate) fn map_new() -> (map: IndexMap<usize, Task>)
    ensures
        map_order(map) == StoreView::empty().order,
        map_tasks(map) == StoreView::empty().tasks,
{
    IndexMap::new()
}

/// `IndexMap::len`: the number of key-value pairs in the map.
#[verifier::external_body]
pub(crate) fn map_len(map: &IndexMap<usize, Task>) -> (len: usize)
    ensures
        len == map_order(*map).len(),
{
    map.len()
}

/// `IndexMap::insert`: where the key is in the map, the key keeps its place in
/// the order, its value is replaced and the old value is returned; where it is
/// not, the pair goes last in the order and `None` is returned.
#[verifier::external_body]
pub(crate) fn map_insert(map: &mut IndexMap<usize, Task>, id: usize, task: Task) -> (previous:
    Option<Task>)
    ensures
        map_tasks(*final(map)) == map_tasks(*old(map)).insert(id, task@),
        map_order(*final(map)) == if map_tasks(*old(map)).dom().contains(id) {
            map_order(*old(map))
        } else {
            map_order(*old(map)).push(id)
        },
        match previous {
            Some(previous_task) => {
                &&& map_tasks(*old(map)).dom().contains(id)
                &&& map_tasks(*old(map))[id] == previous_task@
            },
            None => !map_tasks(*old(map)).dom().contains(id),
        },
{
    map.insert(id, task)
}

/// `IndexMap::get`: a reference to the value stored for the key, or `None`
/// where the key is not in the map.
#[verifier::external_body]
pub(crate) fn map_get(map: &IndexMap<usize, Task>, id: usize) -> (found: Option<&Task>)
    ensures
        match found {
            Some(task) => map_tasks(*map).dom().contains(id) && map_tasks(*map)[id] == task@,
            None => !map_tasks(*map).dom().contains(id),
        },
{
    map.get(&id)
}

/// `IndexMap::get_mut`: a mutable reference to the value stored for the key,
/// or `None` where the key is not in the map. The map is as before but for
/// what the caller writes through the reference.
#[verifier::external_body]
pub(crate) fn map_get_mut(map: &mut IndexMap<usize, Task>, id: usize) -> (found: Option<
    &mut Task,
>)
    ensures
        map_order(*final(map)) == map_order(*old(map)),
        match found {
            Some(task) => {
                &&& map_tasks(*old(map)).dom().contains(id)
                &&& map_tasks(*old(map))[id] == (*task)@
                &&& map_tasks(*final(map)) == map_tasks(*old(map)).insert(id, (*final(task))@)
            },
            None => {
                &&& !map_tasks(*old(map)).dom().contains(id)
                &&& map_tasks(*final(map)) == map_tasks(*old(map))
            },
        },
{
    map.get_mut(&id)
}

/// `IndexMap::shift_remove`: where the key is in the map, its pair is taken
/// out, the pairs behind it move up and keep their order, and the value is
/// returned; where it is not, the map is unchanged and `None` is returned.
#[verifier::external_body]
pub(crate) fn map_shift_remove(map: &mut IndexMap<usize, Task>, id: usize) -> (removed: Option<
    Task,
>)
    ensures
        map_tasks(*final(map)) == map_tasks(*old(map)).remove(id),
        map_order(*final(map)) == if map_tasks(*old(map)).dom().contains(id) {
            map_order(*old(map)).remove(map_order(*old(map)).index_of(id))
        } else {
            map_order(*old(map))
        },
        match removed {
            Some(removed_task) => {
                &&& map_tasks(*old(map)).dom().contains(id)
                &&& map_tasks(*old(map))[id] == removed_task@
            },
            None => !map_tasks(*old(map)).dom().contains(id),
        },
{
    map.shift_remove(&id)
}

/// `IndexMap::keys`: the keys of the map, in the map's order.
#[verifier::external_body]
pub(crate) fn map_keys(map: &IndexMap<usize, Task>) -> (ids: Vec<usize>)
    ensures
        ids@ == map_order(*map),
{
    map.keys().cloned().collect()
}

} // verus!
