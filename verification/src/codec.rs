//! The line codec: one record per line, `description`, a tab, then one of
//! the three status tokens.  Decoding rejects a line that does not split
//! into exactly two tab-separated fields, or whose second field is not a
//! recognized token.

use vstd::prelude::*;

use crate::model::{ItemModel, TodoItem, TodoStatus};

verus! {

/// Why a persisted line, or the whole persisted file, was rejected.
#[derive(Clone, Copy, PartialEq, Eq, Structural, Debug)]
pub enum FormatError {
    /// The line does not split into exactly two tab-separated fields.
    FieldCount,
    /// The second field is not one of the three status tokens.
    BadToken,
    /// The file ends in the middle of a line, without a newline.
    Unterminated,
}

/// The persisted token of a status.
pub open spec fn status_token(s: TodoStatus) -> Seq<char> {
    match s {
        TodoStatus::Pending => "pending"@,
        TodoStatus::Completed => "completed"@,
        TodoStatus::Cancelled => "cancelled"@,
    }
}

/// The serialized form of a record: description, tab, status token.
pub open spec fn line_of(m: ItemModel) -> Seq<char> {
    m.description + "\t"@ + status_token(m.status)
}

/// The index of the first occurrence of `c` in `s`, or `s.len()` if `c`
/// does not occur.
pub open spec fn find_char(s: Seq<char>, c: char) -> nat
    decreases s.len(),
{
    if s.len() == 0 {
        0
    } else if s[0] == c {
        0
    } else {
        (1 + find_char(s.drop_first(), c)) as nat
    }
}

/// A character that occurs at no index does not occur at all.
pub proof fn lemma_absent(s: Seq<char>, c: char)
    requires
        forall|j: int| 0 <= j < s.len() ==> s[j] != c,
    ensures
        !s.contains(c),
{
    if s.contains(c) {
        let w = choose|w: int| 0 <= w < s.len() && s[w] == c;
    }
}

/// What `find_char` returns: an index no larger than the length, with no
/// occurrence before it, an occurrence at it when it is in range, and the
/// length exactly when there is no occurrence at all.
pub proof fn lemma_find_char(s: Seq<char>, c: char)
    ensures
        find_char(s, c) <= s.len(),
        forall|j: int| 0 <= j < find_char(s, c) ==> s[j] != c,
        find_char(s, c) < s.len() ==> s[find_char(s, c) as int] == c,
        (find_char(s, c) == s.len()) == !s.contains(c),
    decreases s.len(),
{
    if s.len() == 0 {
        assert(!s.contains(c));
    } else if s[0] == c {
        assert(s.contains(c));
    } else {
        lemma_find_char(s.drop_first(), c);
        let t = s.drop_first();
        assert(forall|j: int| 0 <= j < t.len() ==> t[j] == s[j + 1]);
        assert forall|j: int| 0 <= j < find_char(s, c) implies s[j] != c by {
            if j > 0 {
                assert(t[j - 1] != c);
            }
        }
        if t.contains(c) {
            let w = choose|w: int| 0 <= w < t.len() && t[w] == c;
            assert(s[w + 1] == c);
            assert(s.contains(c));
        } else {
            if s.contains(c) {
                let w = choose|w: int| 0 <= w < s.len() && s[w] == c;
                assert(w != 0);
                assert(t[w - 1] == c);
                assert(t.contains(c));
            }
        }
    }
}

/// Finds the first occurrence of a character, as `find_char` names it.
pub fn find_first(s: &str, c: char) -> (r: usize)
    ensures
        r == find_char(s@, c),
        r <= s@.len(),
{
    let n = s.unicode_len();
    let mut i: usize = 0;
    while i < n
        invariant
            i <= n,
            n == s@.len(),
            forall|j: int| 0 <= j < i ==> s@[j] != c,
        decreases n - i,
    {
        if s.get_char(i) == c {
            proof {
                lemma_find_char_at(s@, c, i as int);
            }
            return i;
        }
        i = i + 1;
    }
    proof {
        lemma_find_char(s@, c);
        lemma_absent(s@, c);
    }
    n
}

/// `find_char` returns exactly the index of the first occurrence.
pub proof fn lemma_find_char_at(s: Seq<char>, c: char, i: int)
    requires
        0 <= i < s.len(),
        s[i] == c,
        forall|j: int| 0 <= j < i ==> s[j] != c,
    ensures
        find_char(s, c) == i,
    decreases s.len(),
{
    if i == 0 {
    } else {
        let t = s.drop_first();
        assert(forall|j: int| 0 <= j < t.len() ==> t[j] == s[j + 1]);
        lemma_find_char_at(t, c, i - 1);
    }
}

/// What decoding a line yields: the record it serializes, or the reason
/// it is rejected.
pub open spec fn spec_decode(line: Seq<char>) -> Result<ItemModel, FormatError> {
    let t = find_char(line, '\t') as int;
    if t >= line.len() {
        Err(FormatError::FieldCount)
    } else {
        let desc = line.subrange(0, t);
        let rest = line.subrange(t + 1, line.len() as int);
        if rest.contains('\t') {
            Err(FormatError::FieldCount)
        } else if rest == status_token(TodoStatus::Pending) {
            Ok(ItemModel { description: desc, status: TodoStatus::Pending })
        } else if rest == status_token(TodoStatus::Completed) {
            Ok(ItemModel { description: desc, status: TodoStatus::Completed })
        } else if rest == status_token(TodoStatus::Cancelled) {
            Ok(ItemModel { description: desc, status: TodoStatus::Cancelled })
        } else {
            Err(FormatError::BadToken)
        }
    }
}

/// The contents of the literals the codec is built from: the separator is
/// a single tab, the line terminator a single newline, and the three
/// status tokens are pairwise distinct and free of both.
pub proof fn lemma_literals()
    ensures
        "\t"@.len() == 1,
        "\t"@[0] == '\t',
        "\n"@.len() == 1,
        "\n"@[0] == '\n',
        "pending"@.len() == 7,
        "completed"@.len() == 9,
        "cancelled"@.len() == 9,
        !"pending"@.contains('\t'),
        !"completed"@.contains('\t'),
        !"cancelled"@.contains('\t'),
        !"pending"@.contains('\n'),
        !"completed"@.contains('\n'),
        !"cancelled"@.contains('\n'),
        "pending"@ != "completed"@,
        "pending"@ != "cancelled"@,
        "completed"@ != "cancelled"@,
{
    reveal_strlit("\t");
    reveal_strlit("\n");
    reveal_strlit("pending");
    reveal_strlit("completed");
    reveal_strlit("cancelled");
    assert("completed"@[1] == 'o');
    assert("cancelled"@[1] == 'a');
    assert forall|j: int| 0 <= j < "pending"@.len() implies "pending"@[j] != '\t'
        && "pending"@[j] != '\n' by {}
    assert forall|j: int| 0 <= j < "completed"@.len() implies "completed"@[j] != '\t'
        && "completed"@[j] != '\n' by {}
    assert forall|j: int| 0 <= j < "cancelled"@.len() implies "cancelled"@[j] != '\t'
        && "cancelled"@[j] != '\n' by {}
    lemma_absent("pending"@, '\t');
    lemma_absent("pending"@, '\n');
    lemma_absent("completed"@, '\t');
    lemma_absent("completed"@, '\n');
    lemma_absent("cancelled"@, '\t');
    lemma_absent("cancelled"@, '\n');
}

/// No status token contains a tab or a newline.
pub proof fn lemma_token_clean(s: TodoStatus)
    ensures
        !status_token(s).contains('\t'),
        !status_token(s).contains('\n'),
        status_token(s).len() > 0,
{
    lemma_literals();
}

impl TodoItem {
    /// Serializes the record as one line of the persisted format.
    pub fn to_string(&self) -> (r: String)
        ensures
            r@ == line_of(self@),
    {
        let mut out = self.description.clone();
        out.append("\t");
        match self.status {
            TodoStatus::Pending => out.append("pending"),
            TodoStatus::Completed => out.append("completed"),
            TodoStatus::Cancelled => out.append("cancelled"),
        }
        out
    }

    /// Decodes one line of the persisted format, rejecting a line that is
    /// not the serialization of any record.
    pub fn from_string(line: &str) -> (r: Result<TodoItem, FormatError>)
        ensures
            r matches Ok(item) ==> spec_decode(line@) == Ok::<ItemModel, FormatError>(item@),
            r matches Err(e) ==> spec_decode(line@) == Err::<ItemModel, FormatError>(e),
    {
        let n = line.unicode_len();
        let t = find_first(line, '\t');
        if t == n {
            return Err(FormatError::FieldCount);
        }
        let ghost rest = line@.subrange(t + 1, n as int);
        let token = line.substring_char(t + 1, n);
        let k = find_first(token, '\t');
        if k < token.unicode_len() {
            proof {
                lemma_find_char(token@, '\t');
                assert(rest[k as int] == '\t');
                assert(rest.contains('\t'));
            }
            return Err(FormatError::FieldCount);
        }
        proof {
            lemma_find_char(token@, '\t');
            assert(!rest.contains('\t'));
        }
        let status = if crate::text::str_eq(token, "pending") {
            TodoStatus::Pending
        } else if crate::text::str_eq(token, "completed") {
            TodoStatus::Completed
        } else if crate::text::str_eq(token, "cancelled") {
            TodoStatus::Cancelled
        } else {
            return Err(FormatError::BadToken);
        };
        let desc = line.substring_char(0, t);
        let item = TodoItem { description: String::from_str(desc), status };
        proof {
            assert(spec_decode(line@) == Ok::<ItemModel, FormatError>(item@));
        }
        Ok(item)
    }
}

/// Round trip: decoding the serialized form of any record whose
/// description contains no tab yields that record back, unchanged in
/// description and status.
pub proof fn lemma_round_trip(m: ItemModel)
    requires
        !m.description.contains('\t'),
    ensures
        spec_decode(line_of(m)) == Ok::<ItemModel, FormatError>(m),
{
    lemma_literals();
    let line = line_of(m);
    let d = m.description.len() as int;
    assert(line[d] == '\t');
    assert forall|j: int| 0 <= j < d implies line[j] != '\t' by {
        assert(line[j] == m.description[j]);
        if m.description[j] == '\t' {
            assert(m.description.contains('\t'));
        }
    }
    lemma_find_char_at(line, '\t', d);
    assert(line.subrange(0, d) =~= m.description);
    let rest = line.subrange(d + 1, line.len() as int);
    assert(rest =~= status_token(m.status));
    lemma_token_clean(m.status);
    match m.status {
        TodoStatus::Pending => {
            assert(spec_decode(line) == Ok::<ItemModel, FormatError>(m));
        },
        TodoStatus::Completed => {
            assert(rest != status_token(TodoStatus::Pending));
            assert(spec_decode(line) == Ok::<ItemModel, FormatError>(m));
        },
        TodoStatus::Cancelled => {
            assert(spec_decode(line) == Ok::<ItemModel, FormatError>(m));
        },
    }
}

} // verus!
