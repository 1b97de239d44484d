//! The command handlers: add, complete, cancel and list over the
//! in-memory list, and the dispatch of a normalized command word.
//! Reading the command and its argument from the terminal, and persisting
//! after a mutation, are the surrounding program's part.

use vstd::prelude::*;

use crate::model::{models, valid_description, with_status, ItemModel, TodoItem, TodoStatus};
use crate::text::{dec_str, str_eq, usize_to_string};

verus! {

/// One iteration of the interactive loop: what the normalized command
/// word asks for.
#[derive(Clone, Copy, PartialEq, Eq, Structural, Debug)]
pub enum Command {
    Add,
    Cancel,
    Complete,
    Print,
    Quit,
    Unknown,
}

/// The dispatch of a trimmed, lowercased command word.
pub open spec fn spec_command(s: Seq<char>) -> Command {
    if s == "add"@ {
        Command::Add
    } else if s == "cancel"@ {
        Command::Cancel
    } else if s == "complete"@ {
        Command::Complete
    } else if s == "print"@ {
        Command::Print
    } else if s == "quit"@ {
        Command::Quit
    } else {
        Command::Unknown
    }
}

/// Decides which command a normalized input line asks for; anything but
/// the five known words is `Unknown`.
pub fn parse_command(s: &str) -> (c: Command)
    ensures
        c == spec_command(s@),
{
    if str_eq(s, "add") {
        Command::Add
    } else if str_eq(s, "cancel") {
        Command::Cancel
    } else if str_eq(s, "complete") {
        Command::Complete
    } else if str_eq(s, "print") {
        Command::Print
    } else if str_eq(s, "quit") {
        Command::Quit
    } else {
        Command::Unknown
    }
}

/// Appends a fresh `Pending` item; every earlier item keeps its place.
pub fn add_todo(todos: &mut Vec<TodoItem>, description: String)
    requires
        valid_description(description@),
    ensures
        models(final(todos)@) == models(old(todos)@).push(
            ItemModel { description: description@, status: TodoStatus::Pending },
        ),
{
    let ghost before = todos@;
    todos.push(TodoItem::new(description));
    proof {
        assert(models(todos@) =~= models(before).push(
            ItemModel { description: description@, status: TodoStatus::Pending },
        ));
    }
}

/// Sets the status of the record at a 1-based position.  A position
/// outside `[1, len]` is reported by returning false and changes no
/// record; in range, only the addressed record's status changes.
fn set_status(todos: &mut Vec<TodoItem>, index: usize, status: TodoStatus) -> (r: bool)
    ensures
        r == (1 <= index <= old(todos)@.len()),
        r ==> models(final(todos)@) == models(old(todos)@).update(
            index - 1,
            with_status(models(old(todos)@)[index - 1], status),
        ),
        !r ==> final(todos)@ == old(todos)@,
{
    if 1 <= index && index <= todos.len() {
        let ghost before = todos@;
        let i = index - 1;
        todos[i].status = status;
        proof {
            assert(models(todos@) =~= models(before).update(
                index - 1,
                with_status(models(before)[index - 1], status),
            ));
        }
        true
    } else {
        false
    }
}

/// Marks the record at a 1-based position `Completed`, overwriting any
/// earlier status; out of range, reports failure and changes nothing.
pub fn complete_todo(todos: &mut Vec<TodoItem>, index: usize) -> (r: bool)
    ensures
        r == (1 <= index <= old(todos)@.len()),
        r ==> models(final(todos)@) == models(old(todos)@).update(
            index - 1,
            with_status(models(old(todos)@)[index - 1], TodoStatus::Completed),
        ),
        !r ==> final(todos)@ == old(todos)@,
{
    set_status(todos, index, TodoStatus::Completed)
}

/// Marks the record at a 1-based position `Cancelled`, overwriting any
/// earlier status; out of range, reports failure and changes nothing.
pub fn cancel_todo(todos: &mut Vec<TodoItem>, index: usize) -> (r: bool)
    ensures
        r == (1 <= index <= old(todos)@.len()),
        r ==> models(final(todos)@) == models(old(todos)@).update(
            index - 1,
            with_status(models(old(todos)@)[index - 1], TodoStatus::Cancelled),
        ),
        !r ==> final(todos)@ == old(todos)@,
{
    set_status(todos, index, TodoStatus::Cancelled)
}

/// The listing glyph of a status: blank for `Pending`, a check mark for
/// `Completed`, an X for `Cancelled`.
pub open spec fn glyph(s: TodoStatus) -> Seq<char> {
    match s {
        TodoStatus::Pending => Seq::empty(),
        TodoStatus::Completed => "√"@,
        TodoStatus::Cancelled => "X"@,
    }
}

/// One line of the listing: the 1-based position, the glyph, the
/// description.
pub open spec fn listing_line(pos: nat, m: ItemModel) -> Seq<char> {
    dec_str(pos) + " "@ + glyph(m.status) + ". "@ + m.description
}

/// The whole listing: "no items" for an empty list, otherwise one line
/// per record in order.
pub open spec fn spec_listing(ms: Seq<ItemModel>) -> Seq<Seq<char>> {
    if ms.len() == 0 {
        seq!["no items"@]
    } else {
        Seq::new(ms.len(), |i: int| listing_line((i + 1) as nat, ms[i]))
    }
}

/// The text of each line of a listing.
pub open spec fn string_views(ss: Seq<String>) -> Seq<Seq<char>> {
    ss.map_values(|s: String| s@)
}

/// Lists the records for the user: an empty list reports "no items",
/// never an index-based listing; otherwise each record gets one line
/// with its 1-based position, its status glyph and its description.
pub fn list_lines(todos: &Vec<TodoItem>) -> (r: Vec<String>)
    ensures
        string_views(r@) == spec_listing(models(todos@)),
{
    let mut out: Vec<String> = Vec::new();
    if todos.len() == 0 {
        out.push(String::from_str("no items"));
        proof {
            assert(string_views(out@) =~= spec_listing(models(todos@)));
        }
        return out;
    }
    let mut i: usize = 0;
    while i < todos.len()
        invariant
            i <= todos@.len(),
            todos@.len() > 0,
            out@.len() == i,
            forall|j: int| 0 <= j < i ==> string_views(out@)[j] == listing_line(
                (j + 1) as nat,
                models(todos@)[j],
            ),
        decreases todos@.len() - i,
    {
        let mut line = usize_to_string(i + 1);
        line.append(" ");
        match todos[i].status {
            TodoStatus::Pending => {},
            TodoStatus::Completed => line.append("√"),
            TodoStatus::Cancelled => line.append("X"),
        }
        line.append(". ");
        line.append(todos[i].description.as_str());
        proof {
            assert(line@ =~= listing_line((i + 1) as nat, models(todos@)[i as int]));
        }
        let ghost prev = out@;
        out.push(line);
        proof {
            assert forall|j: int| 0 <= j < i + 1 implies string_views(out@)[j] == listing_line(
                (j + 1) as nat,
                models(todos@)[j],
            ) by {
                if j < i {
                    assert(out@[j] == prev[j]);
                    assert(string_views(prev)[j] == listing_line((j + 1) as nat, models(todos@)[j]));
                } else {
                    assert(out@[j]@ == listing_line((i + 1) as nat, models(todos@)[i as int]));
                }
            }
        }
        i = i + 1;
    }
    proof {
        assert(string_views(out@) =~= spec_listing(models(todos@)));
    }
    out
}

} // verus!
