//! The store's pure half: the whole in-memory list rendered as the text
//! of the backing file, and that text parsed back.  The file is a
//! sequence of newline-terminated lines, one record per line, in list
//! order; opening, reading and rewriting the file itself is left to the
//! surrounding program.

use vstd::prelude::*;

use crate::codec::{find_char, find_first, line_of, lemma_find_char_at, lemma_literals,
    lemma_round_trip, lemma_token_clean, spec_decode, status_token, FormatError};
use crate::model::{models, ItemModel, TodoItem};

verus! {

/// The text of the backing file for a list of records: each record's
/// line, each followed by a newline, in order.
pub open spec fn spec_render(ms: Seq<ItemModel>) -> Seq<char>
    decreases ms.len(),
{
    if ms.len() == 0 {
        Seq::empty()
    } else {
        line_of(ms[0]) + "\n"@ + spec_render(ms.drop_first())
    }
}

/// A record the file format can carry faithfully: its description holds
/// neither the field separator nor the line terminator.
pub open spec fn file_item_ok(m: ItemModel) -> bool {
    !m.description.contains('\t') && !m.description.contains('\n')
}

/// Every record of the list is one the file format can carry.
pub open spec fn models_ok(ms: Seq<ItemModel>) -> bool {
    forall|i: int| 0 <= i < ms.len() ==> file_item_ok(#[trigger] ms[i])
}

/// What parsing a whole file yields: the records of its lines in file
/// order, or the defect of the first line that is not a record, or
/// `Unterminated` when the text ends inside a line.
pub open spec fn spec_parse(content: Seq<char>) -> Result<Seq<ItemModel>, FormatError>
    decreases content.len(),
{
    if content.len() == 0 {
        Ok(Seq::empty())
    } else {
        let t = find_char(content, '\n') as int;
        if t >= content.len() {
            Err(FormatError::Unterminated)
        } else {
            match spec_decode(content.subrange(0, t)) {
                Ok(m) => match spec_parse(content.subrange(t + 1, content.len() as int)) {
                    Ok(ms) => Ok(seq![m] + ms),
                    Err(e) => Err(e),
                },
                Err(e) => Err(e),
            }
        }
    }
}

/// Rendering distributes over concatenation of lists.
proof fn lemma_render_append(a: Seq<ItemModel>, b: Seq<ItemModel>)
    ensures
        spec_render(a + b) == spec_render(a) + spec_render(b),
    decreases a.len(),
{
    if a.len() == 0 {
        assert(a + b =~= b);
        assert(spec_render(a) + spec_render(b) =~= spec_render(b));
    } else {
        assert((a + b).drop_first() =~= a.drop_first() + b);
        lemma_render_append(a.drop_first(), b);
        assert(line_of(a[0]) + "\n"@ + (spec_render(a.drop_first()) + spec_render(b)) =~= (line_of(
            a[0],
        ) + "\n"@ + spec_render(a.drop_first())) + spec_render(b));
    }
}

/// Writes out the whole list as the text the backing file is to hold.
pub fn render_file(items: &Vec<TodoItem>) -> (r: String)
    ensures
        r@ == spec_render(models(items@)),
{
    let mut out = String::new();
    let mut i: usize = 0;
    while i < items.len()
        invariant
            i <= items@.len(),
            out@ == spec_render(models(items@).subrange(0, i as int)),
        decreases items@.len() - i,
    {
        let line = items[i].to_string();
        out.append(line.as_str());
        out.append("\n");
        proof {
            let ms = models(items@);
            assert(ms.subrange(0, i + 1) =~= ms.subrange(0, i as int) + seq![ms[i as int]]);
            lemma_render_append(ms.subrange(0, i as int), seq![ms[i as int]]);
            let single = seq![ms[i as int]];
            assert(single.len() == 1);
            assert(single[0] == ms[i as int]);
            assert(single.drop_first() =~= Seq::<ItemModel>::empty());
            assert(spec_render(single) == line_of(ms[i as int]) + "\n"@ + spec_render(
                Seq::<ItemModel>::empty(),
            ));
            assert(spec_render(Seq::<ItemModel>::empty()) == Seq::<char>::empty());
            assert(spec_render(single) =~= line_of(ms[i as int]) + "\n"@);
            assert(ms[i as int] == items@[i as int]@);
        }
        i = i + 1;
    }
    proof {
        assert(models(items@).subrange(0, items@.len() as int) =~= models(items@));
    }
    out
}

/// Joins the records already parsed with the outcome of parsing the rest
/// of the file.
pub open spec fn parse_join(done: Seq<ItemModel>, r: Result<Seq<ItemModel>, FormatError>) -> Result<
    Seq<ItemModel>,
    FormatError,
> {
    match r {
        Ok(ms) => Ok(done + ms),
        Err(e) => Err(e),
    }
}

/// Joining twice is joining the concatenation.
proof fn lemma_parse_join_assoc(a: Seq<ItemModel>, b: Seq<ItemModel>, r: Result<
    Seq<ItemModel>,
    FormatError,
>)
    ensures
        parse_join(a, parse_join(b, r)) == parse_join(a + b, r),
{
    match r {
        Ok(ms) => {
            assert(a + (b + ms) =~= (a + b) + ms);
        },
        Err(_) => {},
    }
}

/// Reads the whole text of the backing file back into a list of records,
/// rejecting text that is not the rendering of any list.
pub fn parse_file(content: &str) -> (r: Result<Vec<TodoItem>, FormatError>)
    ensures
        r matches Ok(items) ==> spec_parse(content@) == Ok::<Seq<ItemModel>, FormatError>(
            models(items@),
        ),
        r matches Err(e) ==> spec_parse(content@) == Err::<Seq<ItemModel>, FormatError>(e),
{
    let n = content.unicode_len();
    let mut items: Vec<TodoItem> = Vec::new();
    let mut pos: usize = 0;
    proof {
        assert(models(items@) =~= Seq::<ItemModel>::empty());
        assert(content@.subrange(0, n as int) =~= content@);
        assert(spec_parse(content@) == parse_join(
            models(items@),
            spec_parse(content@.subrange(pos as int, n as int)),
        ));
    }
    while pos < n
        invariant
            pos <= n,
            n == content@.len(),
            spec_parse(content@) == parse_join(
                models(items@),
                spec_parse(content@.subrange(pos as int, n as int)),
            ),
        decreases n - pos,
    {
        let ghost rem = content@.subrange(pos as int, n as int);
        let remstr = content.substring_char(pos, n);
        let t = find_first(remstr, '\n');
        if t == n - pos {
            return Err(FormatError::Unterminated);
        }
        let line = remstr.substring_char(0, t);
        proof {
            assert(line@ =~= rem.subrange(0, t as int));
        }
        match TodoItem::from_string(line) {
            Ok(item) => {
                proof {
                    let rem2 = content@.subrange(pos + t + 1, n as int);
                    assert(rem.subrange(t + 1, rem.len() as int) =~= rem2);
                    assert(spec_parse(rem) == parse_join(seq![item@], spec_parse(rem2)));
                    lemma_parse_join_assoc(models(items@), seq![item@], spec_parse(rem2));
                    assert(models(items@) + seq![item@] =~= models(items@.push(item)));
                }
                items.push(item);
                pos = pos + t + 1;
            },
            Err(e) => {
                proof {
                    assert(spec_parse(rem) == Err::<Seq<ItemModel>, FormatError>(e));
                }
                return Err(e);
            },
        }
    }
    proof {
        assert(content@.subrange(n as int, n as int) =~= Seq::<char>::empty());
        assert(spec_parse(content@) == Ok::<Seq<ItemModel>, FormatError>(
            models(items@) + Seq::<ItemModel>::empty(),
        ));
        assert(models(items@) + Seq::<ItemModel>::empty() =~= models(items@));
    }
    Ok(items)
}

/// Saving is deterministic: rendering the same records twice, with no
/// mutation in between, gives byte-identical file text both times.
pub proof fn lemma_render_deterministic(ms: Seq<ItemModel>, r1: Seq<char>, r2: Seq<char>)
    requires
        r1 == spec_render(ms),
        r2 == spec_render(ms),
    ensures
        r1 == r2,
{
}

/// The serialized line of a record the format can carry holds no newline.
proof fn lemma_line_no_newline(m: ItemModel)
    requires
        file_item_ok(m),
    ensures
        forall|j: int| 0 <= j < line_of(m).len() ==> line_of(m)[j] != '\n',
{
    lemma_literals();
    lemma_token_clean(m.status);
    let line = line_of(m);
    let d = m.description.len() as int;
    assert forall|j: int| 0 <= j < line.len() implies line[j] != '\n' by {
        if j < d {
            assert(line[j] == m.description[j]);
            if m.description[j] == '\n' {
                assert(m.description.contains('\n'));
            }
        } else if j == d {
            assert(line[j] == '\t');
        } else {
            let tok = status_token(m.status);
            assert(line[j] == tok[j - d - 1]);
            if tok[j - d - 1] == '\n' {
                assert(tok.contains('\n'));
            }
        }
    }
}

/// Load after save: parsing the rendering of any list of records the
/// format can carry yields that list back, equal in order, description
/// and status.
pub proof fn lemma_load_after_save(ms: Seq<ItemModel>)
    requires
        models_ok(ms),
    ensures
        spec_parse(spec_render(ms)) == Ok::<Seq<ItemModel>, FormatError>(ms),
    decreases ms.len(),
{
    lemma_literals();
    if ms.len() == 0 {
        assert(spec_parse(spec_render(ms)) == Ok::<Seq<ItemModel>, FormatError>(Seq::empty()));
        assert(Seq::<ItemModel>::empty() =~= ms);
    } else {
        let line = line_of(ms[0]);
        let rest = spec_render(ms.drop_first());
        let content = line + "\n"@ + rest;
        assert(content == spec_render(ms));
        lemma_line_no_newline(ms[0]);
        let d = line.len() as int;
        assert(content[d] == '\n');
        assert forall|j: int| 0 <= j < d implies content[j] != '\n' by {
            assert(content[j] == line[j]);
        }
        lemma_find_char_at(content, '\n', d);
        assert(content.subrange(0, d) =~= line);
        lemma_round_trip(ms[0]);
        assert(content.subrange(d + 1, content.len() as int) =~= rest);
        assert(models_ok(ms.drop_first()));
        lemma_load_after_save(ms.drop_first());
        assert(seq![ms[0]] + ms.drop_first() =~= ms);
    }
}

} // verus!
