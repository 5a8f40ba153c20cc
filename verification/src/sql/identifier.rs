//! Identifiers and placeholders in SQL text.
use crate::model::{
    invalid, invalid_request, is_text_result, is_texts_result, ConnectorError, ErrorModel,
};
use crate::text::{
    byte_count, byte_length, contains_control, decimal, decimal_text, double, doubled, has_control,
    join, joined, split, split_on, texts,
};
use vstd::prelude::*;
use vstd::string::StringExecFns;

verus! {

broadcast use crate::text::group_texts;

/// The dialects of SQL.
#[derive(Debug, Clone, Copy, PartialEq, Eq, Structural)]
pub enum SqlFamily {
    PostgreSql,
    PostgreSqlCompatible,
    MySql,
    Oracle,
    SqlServer,
}

/// The mark that opens a quoted identifier.
pub open spec fn opening_mark(family: SqlFamily) -> char {
    match family {
        SqlFamily::MySql => '`',
        SqlFamily::SqlServer => '[',
        _ => '"',
    }
}

/// The mark that closes a quoted identifier.
pub open spec fn closing_mark(family: SqlFamily) -> char {
    match family {
        SqlFamily::MySql => '`',
        SqlFamily::SqlServer => ']',
        _ => '"',
    }
}

/// Whether a text may stand as an identifier.
pub open spec fn is_identifier(identifier: Seq<char>) -> bool {
    identifier.len() > 0 && byte_length(identifier) <= 256 && !has_control(identifier)
}

/// An identifier between the marks of a dialect, the closing mark within it doubled.
pub open spec fn quoted(family: SqlFamily, identifier: Seq<char>) -> Seq<char> {
    seq![opening_mark(family)] + doubled(identifier, closing_mark(family)) + seq![
        closing_mark(family),
    ]
}

/// What quoting an identifier gives.
pub open spec fn quote_result(family: SqlFamily, identifier: Seq<char>) -> Result<
    Seq<char>,
    ErrorModel,
> {
    if is_identifier(identifier) {
        Ok(quoted(family, identifier))
    } else {
        Err(
            invalid_request(
                "SQL identifier is empty, too long, or contains control characters"@,
            ),
        )
    }
}

/// Puts an identifier between the marks of a dialect.
pub fn quote_identifier(family: SqlFamily, identifier: &str) -> (result: Result<
    String,
    ConnectorError,
>)
    ensures
        is_text_result(result, quote_result(family, identifier@)),
{
    if identifier.is_empty() || byte_count(identifier) > 256 || contains_control(identifier) {
        return Err(
            invalid("SQL identifier is empty, too long, or contains control characters"),
        );
    }
    let (opening, closing): (char, char) = match family {
        SqlFamily::MySql => ('`', '`'),
        SqlFamily::SqlServer => ('[', ']'),
        _ => ('"', '"'),
    };
    let body = double(identifier, closing);
    let mut result = String::new();
    result.push(opening);
    result.append(body.as_str());
    result.push(closing);
    assert(result@ =~= quoted(family, identifier@));
    Ok(result)
}

/// What quoting several identifiers gives: the first error, or all of them quoted.
pub open spec fn quote_all(family: SqlFamily, identifiers: Seq<Seq<char>>) -> Result<
    Seq<Seq<char>>,
    ErrorModel,
>
    decreases identifiers.len(),
{
    if identifiers.len() == 0 {
        Ok(Seq::<Seq<char>>::empty())
    } else {
        match quote_all(family, identifiers.drop_last()) {
            Err(error) => Err(error),
            Ok(quoted) => match quote_result(family, identifiers.last()) {
                Err(error) => Err(error),
                Ok(last) => Ok(quoted.push(last)),
            },
        }
    }
}

/// An error among the first identifiers is the error of them all.
proof fn lemma_quote_all_fails_early(family: SqlFamily, identifiers: Seq<Seq<char>>, count: int)
    requires
        0 <= count <= identifiers.len(),
        quote_all(family, identifiers.subrange(0, count)) is Err,
    ensures
        quote_all(family, identifiers) == quote_all(family, identifiers.subrange(0, count)),
    decreases identifiers.len(),
{
    if count == identifiers.len() {
        assert(identifiers.subrange(0, count) =~= identifiers);
    } else {
        assert(identifiers.drop_last().subrange(0, count) =~= identifiers.subrange(0, count));
        lemma_quote_all_fails_early(family, identifiers.drop_last(), count);
    }
}

/// Quotes several identifiers.
pub fn quote_identifiers(family: SqlFamily, identifiers: &Vec<String>) -> (result: Result<
    Vec<String>,
    ConnectorError,
>)
    ensures
        is_texts_result(result, quote_all(family, texts(identifiers@))),
{
    let ghost all = texts(identifiers@);
    let mut result: Vec<String> = Vec::new();
    let mut i: usize = 0;
    assert(all.subrange(0, 0) =~= Seq::<Seq<char>>::empty());
    while i < identifiers.len()
        invariant
            i <= identifiers@.len(),
            all == texts(identifiers@),
            quote_all(family, all.subrange(0, i as int)) == Ok::<Seq<Seq<char>>, ErrorModel>(
                texts(result@),
            ),
        decreases identifiers@.len() - i,
    {
        let ghost next = all.subrange(0, i + 1);
        assert(next.drop_last() =~= all.subrange(0, i as int));
        assert(next.last() == identifiers@[i as int]@);
        match quote_identifier(family, identifiers[i].as_str()) {
            Err(error) => {
                proof {
                    lemma_quote_all_fails_early(family, all, i + 1);
                }
                return Err(error);
            },
            Ok(quoted) => {
                result.push(quoted);
            },
        }
        i = i + 1;
    }
    assert(all.subrange(0, i as int) =~= all);
    Ok(result)
}

/// Whether some text is empty.
pub open spec fn has_empty(parts: Seq<Seq<char>>) -> bool {
    exists|i: int| 0 <= i < parts.len() && (#[trigger] parts[i]).len() == 0
}

/// What naming a resource gives: its components between dots, each one quoted.
pub open spec fn qualified_result(family: SqlFamily, resource: Seq<char>) -> Result<
    Seq<char>,
    ErrorModel,
> {
    let parts = split_on(resource, '.');
    if parts.len() > 3 || has_empty(parts) {
        Err(
            invalid_request(
                "SQL resource must contain one to three non-empty identifier components"@,
            ),
        )
    } else {
        match quote_all(family, parts) {
            Err(error) => Err(error),
            Ok(quoted) => Ok(joined(quoted, "."@)),
        }
    }
}

/// Whether some text is empty.
fn any_empty(parts: &Vec<String>) -> (result: bool)
    ensures
        result == has_empty(texts(parts@)),
{
    let mut i: usize = 0;
    while i < parts.len()
        invariant
            i <= parts@.len(),
            forall|j: int| 0 <= j < i ==> (#[trigger] texts(parts@)[j]).len() > 0,
        decreases parts@.len() - i,
    {
        if parts[i].as_str().is_empty() {
            assert(texts(parts@)[i as int].len() == 0);
            return true;
        }
        i = i + 1;
    }
    false
}

/// Names a resource by its one to three components.
pub fn qualified_name(family: SqlFamily, resource: &str) -> (result: Result<
    String,
    ConnectorError,
>)
    ensures
        is_text_result(result, qualified_result(family, resource@)),
{
    let parts = split(resource, '.');
    if parts.len() > 3 || any_empty(&parts) {
        return Err(
            invalid("SQL resource must contain one to three non-empty identifier components"),
        );
    }
    match quote_identifiers(family, &parts) {
        Err(error) => Err(error),
        Ok(quoted) => Ok(join(&quoted, ".")),
    }
}

/// The placeholder of the parameter with a number.
pub open spec fn placeholder_text(family: SqlFamily, index: nat) -> Seq<char> {
    match family {
        SqlFamily::PostgreSql => "$"@ + decimal(index),
        SqlFamily::PostgreSqlCompatible => "$"@ + decimal(index),
        SqlFamily::MySql => "?"@,
        SqlFamily::Oracle => ":"@ + decimal(index),
        SqlFamily::SqlServer => "@P"@ + decimal(index),
    }
}

/// The placeholder of the parameter with a number.
pub fn placeholder(family: SqlFamily, index: usize) -> (result: String)
    ensures
        result@ == placeholder_text(family, index as nat),
{
    let number = decimal_text(index as u64);
    match family {
        SqlFamily::PostgreSql => crate::model::appended("$", number.as_str()),
        SqlFamily::PostgreSqlCompatible => crate::model::appended("$", number.as_str()),
        SqlFamily::MySql => "?".to_owned(),
        SqlFamily::Oracle => crate::model::appended(":", number.as_str()),
        SqlFamily::SqlServer => crate::model::appended("@P", number.as_str()),
    }
}

/// The end of the quoted body that starts at `from`: the position of the first closing mark that
/// is not doubled.
pub open spec fn body_end(text: Seq<char>, mark: char, from: int) -> Option<int>
    decreases text.len() - from,
{
    if from < 0 || from >= text.len() {
        None
    } else if text[from] != mark {
        body_end(text, mark, from + 1)
    } else if from + 1 < text.len() && text[from + 1] == mark {
        body_end(text, mark, from + 2)
    } else {
        Some(from)
    }
}

/// Quoting an identifier cannot be escaped from: however the text goes on, a reader of quoted
/// identifiers finds the end of the identifier at the mark that closes it, and nowhere before.
pub proof fn lemma_quoting_cannot_be_escaped(
    family: SqlFamily,
    identifier: Seq<char>,
    rest: Seq<char>,
)
    requires
        rest.len() == 0 || rest[0] != closing_mark(family),
    ensures
        body_end(quoted(family, identifier) + rest, closing_mark(family), 1) == Some(
            quoted(family, identifier).len() - 1,
        ),
{
    let mark = closing_mark(family);
    let text = quoted(family, identifier) + rest;
    let body = doubled(identifier, mark);
    assert(text.subrange(1, 1 + body.len() as int) =~= body);
    assert(text[1 + body.len() as int] == mark);
    lemma_body_end(text, identifier, mark, 1);
}

/// A doubled body is read to its end.
proof fn lemma_body_end(text: Seq<char>, identifier: Seq<char>, mark: char, from: int)
    requires
        0 <= from,
        from + doubled(identifier, mark).len() < text.len(),
        text.subrange(from, from + doubled(identifier, mark).len()) == doubled(identifier, mark),
        text[from + doubled(identifier, mark).len()] == mark,
        from + doubled(identifier, mark).len() + 1 < text.len() ==> text[from + doubled(
            identifier,
            mark,
        ).len() + 1] != mark,
    ensures
        body_end(text, mark, from) == Some(from + doubled(identifier, mark).len()),
    decreases identifier.len(),
{
    let body = doubled(identifier, mark);
    if identifier.len() > 0 {
        lemma_doubled_first(identifier, mark);
        let rest = identifier.subrange(1, identifier.len() as int);
        let step: int = if identifier[0] == mark {
            2
        } else {
            1
        };
        assert(body.len() == step + doubled(rest, mark).len());
        assert(text[from] == body[0]) by {
            assert(text.subrange(from, from + body.len())[0] == text[from]);
        }
        if step == 2 {
            assert(text.subrange(from, from + body.len())[1] == text[from + 1]);
        }
        assert(text.subrange(from + step, from + step + doubled(rest, mark).len()) =~= doubled(
            rest,
            mark,
        )) by {
            assert forall|i: int| 0 <= i < doubled(rest, mark).len() implies text[from + step + i]
                == doubled(rest, mark)[i] by {
                assert(text.subrange(from, from + body.len())[step + i] == text[from + step + i]);
                assert(body[step + i] == doubled(rest, mark)[i]);
            }
        }
        lemma_body_end(text, rest, mark, from + step);
    }
}

/// Doubling works from the front as well as from the back.
proof fn lemma_doubled_first(text: Seq<char>, mark: char)
    requires
        text.len() > 0,
    ensures
        doubled(text, mark) == (if text[0] == mark {
            seq![mark, mark]
        } else {
            seq![text[0]]
        }) + doubled(text.subrange(1, text.len() as int), mark),
    decreases text.len(),
{
    let first = if text[0] == mark {
        seq![mark, mark]
    } else {
        seq![text[0]]
    };
    let rest = text.subrange(1, text.len() as int);
    if text.len() == 1 {
        assert(rest =~= Seq::<char>::empty());
        assert(text.drop_last() =~= Seq::<char>::empty());
        assert(doubled(text.drop_last(), mark) =~= Seq::<char>::empty());
        assert(doubled(text, mark) =~= first + doubled(rest, mark));
    } else {
        let shorter = text.drop_last();
        lemma_doubled_first(shorter, mark);
        assert(shorter.subrange(1, shorter.len() as int) =~= rest.drop_last());
        assert(rest.last() == text.last());
        assert(doubled(text, mark) =~= first + doubled(rest, mark));
    }
}

/// Two identifiers that are quoted alike are the same.
pub proof fn lemma_quoting_keeps_identifiers_apart(
    family: SqlFamily,
    left: Seq<char>,
    right: Seq<char>,
)
    requires
        quoted(family, left) == quoted(family, right),
    ensures
        left == right,
{
    let mark = closing_mark(family);
    assert(quoted(family, left).subrange(1, 1 + doubled(left, mark).len() as int) =~= doubled(
        left,
        mark,
    ));
    assert(quoted(family, right).subrange(1, 1 + doubled(right, mark).len() as int) =~= doubled(
        right,
        mark,
    ));
    assert(doubled(left, mark).len() == quoted(family, left).len() - 2);
    assert(doubled(right, mark).len() == quoted(family, right).len() - 2);
    lemma_doubled_injective(left, right, mark);
}

/// Different texts stay different when a mark is doubled in both.
proof fn lemma_doubled_injective(left: Seq<char>, right: Seq<char>, mark: char)
    requires
        doubled(left, mark) == doubled(right, mark),
    ensures
        left == right,
    decreases left.len() + right.len(),
{
    if left.len() > 0 {
        lemma_doubled_first(left, mark);
    }
    if right.len() > 0 {
        lemma_doubled_first(right, mark);
    }
    if left.len() == 0 || right.len() == 0 {
        if left.len() > 0 {
            assert(doubled(left, mark)[0] == left[0]);
            assert(doubled(right, mark).len() == 0);
        }
        if right.len() > 0 {
            assert(doubled(right, mark)[0] == right[0]);
            assert(doubled(left, mark).len() == 0);
        }
        assert(left =~= right);
    } else {
        let left_rest = left.subrange(1, left.len() as int);
        let right_rest = right.subrange(1, right.len() as int);
        assert(doubled(left, mark)[0] == left[0]);
        assert(doubled(right, mark)[0] == right[0]);
        let step: int = if left[0] == mark {
            2
        } else {
            1
        };
        assert(doubled(left, mark).subrange(step, doubled(left, mark).len() as int) =~= doubled(
            left_rest,
            mark,
        ));
        assert(doubled(right, mark).subrange(step, doubled(right, mark).len() as int) =~= doubled(
            right_rest,
            mark,
        ));
        lemma_doubled_injective(left_rest, right_rest, mark);
        assert(left =~= seq![left[0]] + left_rest);
        assert(right =~= seq![right[0]] + right_rest);
    }
}

} // verus!
