//! The record model: a todo item is a description and a three-way status.

use vstd::prelude::*;

verus! {

/// The lifecycle state of one todo item.  `Pending` is the only
/// creation-time value; the two others are reached through the
/// `complete` and `cancel` commands or read back from the backing file.
#[derive(Clone, Copy, PartialEq, Eq, Structural, Debug)]
pub enum TodoStatus {
    Pending,
    Completed,
    Cancelled,
}

/// The mathematical model of one todo item: its description as a
/// sequence of characters, and its status.
#[verifier::ext_equal]
pub ghost struct ItemModel {
    pub description: Seq<char>,
    pub status: TodoStatus,
}

/// One todo item as held in memory and addressed by position.
#[derive(Debug)]
pub struct TodoItem {
    pub description: String,
    pub status: TodoStatus,
}

impl View for TodoItem {
    type V = ItemModel;

    open spec fn view(&self) -> ItemModel {
        ItemModel { description: self.description@, status: self.status }
    }
}

/// The models of a sequence of items, in the same order.
pub open spec fn models(s: Seq<TodoItem>) -> Seq<ItemModel> {
    s.map_values(|t: TodoItem| t@)
}

/// The same record with its status replaced.
pub open spec fn with_status(m: ItemModel, status: TodoStatus) -> ItemModel {
    ItemModel { description: m.description, status }
}

/// A description a caller may add: non-empty and without the field
/// separator of the persisted format.
pub open spec fn valid_description(d: Seq<char>) -> bool {
    d.len() > 0 && !d.contains('\t')
}

impl TodoItem {
    /// The one in-memory construction path: a fresh item starts `Pending`.
    pub fn new(description: String) -> (r: TodoItem)
        ensures
            r@ == (ItemModel { description: description@, status: TodoStatus::Pending }),
    {
        TodoItem { description, status: TodoStatus::Pending }
    }
}

} // verus!
