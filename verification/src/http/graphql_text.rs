//! Block strings in GraphQL text. The parser takes their common indent away by bytes, so a text in
//! which that would cut a character must not be handed to it.
use crate::text::{characters, is_space_char, space_char};
use vstd::prelude::*;

verus! {

/// How many bytes a character takes in UTF-8.
pub open spec fn char_width(c: char) -> nat {
    let n = c as u32;
    if n < 0x80 {
        1
    } else if n < 0x800 {
        2
    } else if n < 0x10000 {
        3
    } else {
        4
    }
}

/// How many bytes the white space takes with which a line begins.
pub open spec fn indent_width(line: Seq<char>) -> nat
    decreases line.len(),
{
    if line.len() == 0 || !is_space_char(line[0]) {
        0
    } else {
        char_width(line[0]) + indent_width(line.subrange(1, line.len() as int))
    }
}

/// Whether a line has nothing but white space.
pub open spec fn is_blank_line(line: Seq<char>) -> bool {
    forall|i: int| 0 <= i < line.len() ==> is_space_char(#[trigger] line[i])
}

/// Whether so many bytes of a line end within a character.
pub open spec fn cuts_character(line: Seq<char>, bytes: int) -> bool
    decreases line.len(),
{
    if line.len() == 0 || bytes <= 0 {
        false
    } else if bytes < char_width(line[0]) {
        true
    } else {
        cuts_character(line.subrange(1, line.len() as int), bytes - char_width(line[0]))
    }
}

/// The lines of a text.
pub open spec fn lines_of(text: Seq<char>) -> Seq<Seq<char>>
    decreases text.len(),
{
    if text.len() == 0 {
        seq![Seq::empty()]
    } else {
        let before = lines_of(text.drop_last());
        if text.last() == '\n' {
            before.push(Seq::empty())
        } else {
            before.drop_last().push(before.last().push(text.last()))
        }
    }
}

/// The smallest indent of the lines behind the first that are not blank.
pub open spec fn common_indent(lines: Seq<Seq<char>>) -> Option<nat>
    decreases lines.len(),
{
    if lines.len() <= 1 {
        None
    } else {
        let before = common_indent(lines.drop_last());
        if is_blank_line(lines.last()) {
            before
        } else {
            match before {
                Some(least) if least <= indent_width(lines.last()) => Some(least),
                _ => Some(indent_width(lines.last())),
            }
        }
    }
}

/// Whether a line stands at or behind one that is not blank, and at or before one.
pub open spec fn is_within(lines: Seq<Seq<char>>, index: int) -> bool {
    &&& exists|a: int| 0 <= a <= index && !is_blank_line(#[trigger] lines[a])
    &&& exists|b: int| index <= b < lines.len() && !is_blank_line(#[trigger] lines[b])
}

/// Whether a character of a block string is cut where the common indent of its lines is taken away:
/// from those behind the first that stand between lines that are not blank.
pub open spec fn is_cut(lines: Seq<Seq<char>>) -> bool {
    match common_indent(lines) {
        None => false,
        Some(indent) => exists|i: int|
            1 <= i < lines.len() && is_within(lines, i) && cuts_character(
                #[trigger] lines[i],
                indent as int,
            ),
    }
}

/// Where a comment ends.
pub open spec fn comment_end(text: Seq<char>, at: int) -> int
    decreases text.len() - at,
{
    if 0 <= at < text.len() && text[at] != '\r' && text[at] != '\n' {
        comment_end(text, at + 1)
    } else {
        at
    }
}

/// The place behind the quotation mark that closes a string. It has none where its line ends before.
pub open spec fn string_end(text: Seq<char>, at: int, escaped: bool) -> Option<int>
    decreases text.len() - at,
{
    if !(0 <= at < text.len()) || text[at] == '\n' {
        None
    } else if text[at] == '"' && !escaped {
        Some(at + 1)
    } else {
        string_end(text, at + 1, !escaped && text[at] == '\\')
    }
}

/// Whether three quotation marks stand at a place of a text.
pub open spec fn is_block_quote(text: Seq<char>, place: int) -> bool {
    &&& 0 <= place < text.len() - 2
    &&& text[place] == '"'
    &&& text[place + 1] == '"'
    &&& text[place + 2] == '"'
}

/// The place of the three quotation marks that close a block string: the next ones behind which no
/// backslash stands.
pub open spec fn block_end(text: Seq<char>, start: int, at: int) -> Option<int>
    decreases text.len() - at,
{
    if !(0 <= at < text.len()) {
        None
    } else if !is_block_quote(text, at) {
        block_end(text, start, at + 1)
    } else if start < at && text[at - 1] == '\\' {
        block_end(text, start, at + 3)
    } else {
        Some(at)
    }
}

/// Whether a character of a block string is cut, of those from a place of a text on.
pub open spec fn is_cut_from(text: Seq<char>, at: int) -> bool
    decreases text.len() - at,
{
    if !(0 <= at < text.len()) {
        false
    } else if text[at] == '#' {
        let end = comment_end(text, at + 1);
        at < end <= text.len() && is_cut_from(text, end)
    } else if is_block_quote(text, at) {
        match block_end(text, at + 3, at + 3) {
            None => false,
            Some(end) => at + 3 <= end <= text.len() - 3 && (is_cut(lines_of(text.subrange(at + 3, end))) || is_cut_from(
                text,
                end + 3,
            )),
        }
    } else if text[at] == '"' {
        match string_end(text, at + 1, false) {
            None => false,
            Some(end) => at < end <= text.len() && is_cut_from(text, end),
        }
    } else {
        is_cut_from(text, at + 1)
    }
}

/// Whether a character of some block string of a GraphQL text is cut.
pub open spec fn cuts_block_string(text: Seq<char>) -> bool {
    is_cut_from(text, 0)
}

/// How many bytes a character takes in UTF-8.
fn width_of(c: char) -> (result: usize)
    ensures
        result == char_width(c),
{
    let n: u32 = c as u32;
    if n < 0x80 {
        1
    } else if n < 0x800 {
        2
    } else if n < 0x10000 {
        3
    } else {
        4
    }
}

/// Lines of characters.
pub open spec fn line_texts(lines: Seq<Vec<char>>) -> Seq<Seq<char>> {
    Seq::new(lines.len(), |i: int| lines[i]@)
}

/// The lines of a part of a text.
fn split_lines(text: &Vec<char>, from: usize, to: usize) -> (result: Vec<Vec<char>>)
    requires
        from <= to <= text@.len(),
    ensures
        line_texts(result@) == lines_of(text@.subrange(from as int, to as int)),
        result@.len() > 0,
{
    let ghost part = text@.subrange(from as int, to as int);
    let mut lines: Vec<Vec<char>> = Vec::new();
    let mut line: Vec<char> = Vec::new();
    let mut i: usize = from;
    assert(text@.subrange(from as int, from as int) =~= Seq::<char>::empty());
    assert(line_texts(lines@).push(line@) =~= seq![Seq::<char>::empty()]);
    while i < to
        invariant
            from <= i <= to <= text@.len(),
            line_texts(lines@).push(line@) == lines_of(text@.subrange(from as int, i as int)),
        decreases to - i,
    {
        let c = text[i];
        let ghost before = line_texts(lines@);
        let ghost current = line@;
        let ghost next = text@.subrange(from as int, i + 1);
        assert(next.drop_last() =~= text@.subrange(from as int, i as int));
        assert(next.last() == c);
        assert(before.push(current).drop_last() =~= before);
        if c == '\n' {
            lines.push(line);
            line = Vec::new();
            assert(line_texts(lines@) =~= before.push(current));
            assert(line@ =~= Seq::<char>::empty());
        } else {
            line.push(c);
        }
        i = i + 1;
    }
    let ghost before = line_texts(lines@);
    let ghost current = line@;
    lines.push(line);
    assert(line_texts(lines@) =~= before.push(current));
    lines
}

/// Whether a line has nothing but white space.
fn blank_line(line: &Vec<char>) -> (result: bool)
    ensures
        result == is_blank_line(line@),
{
    let mut i: usize = 0;
    while i < line.len()
        invariant
            i <= line@.len(),
            forall|j: int| 0 <= j < i ==> is_space_char(#[trigger] line@[j]),
        decreases line@.len() - i,
    {
        if !space_char(line[i]) {
            assert(!is_space_char(line@[i as int]));
            return false;
        }
        i = i + 1;
    }
    true
}

/// How many bytes the white space takes with which a line begins.
fn measure_indent(line: &Vec<char>) -> (result: u128)
    ensures
        result == indent_width(line@),
{
    let length: usize = line.len();
    let mut width: u128 = 0;
    let mut i: usize = 0;
    assert(line@.subrange(0, line@.len() as int) =~= line@);
    while i < length && space_char(line[i])
        invariant
            i <= length == line@.len(),
            width <= 4 * i,
            indent_width(line@) == width + indent_width(
                line@.subrange(i as int, line@.len() as int),
            ),
        decreases line@.len() - i,
    {
        let ghost rest = line@.subrange(i as int, line@.len() as int);
        assert(rest.subrange(1, rest.len() as int) =~= line@.subrange(i + 1, line@.len() as int));
        width = width + width_of(line[i]) as u128;
        i = i + 1;
    }
    assert(i < line@.len() ==> line@.subrange(i as int, line@.len() as int)[0] == line@[i as int]);
    width
}

/// Whether so many bytes of a line end within a character.
fn finds_cut(line: &Vec<char>, bytes: u128) -> (result: bool)
    ensures
        result == cuts_character(line@, bytes as int),
{
    let mut left: u128 = bytes;
    let mut i: usize = 0;
    assert(line@.subrange(0, line@.len() as int) =~= line@);
    while i < line.len() && left > 0
        invariant
            i <= line@.len(),
            cuts_character(line@, bytes as int) == cuts_character(
                line@.subrange(i as int, line@.len() as int),
                left as int,
            ),
        decreases line@.len() - i,
    {
        let ghost rest = line@.subrange(i as int, line@.len() as int);
        assert(rest.subrange(1, rest.len() as int) =~= line@.subrange(i + 1, line@.len() as int));
        let width: u128 = width_of(line[i]) as u128;
        if left < width {
            return true;
        }
        left = left - width;
        i = i + 1;
    }
    false
}

/// The smallest indent of the lines behind the first that are not blank.
fn find_indent(lines: &Vec<Vec<char>>) -> (result: Option<u128>)
    requires
        lines@.len() > 0,
    ensures
        match (result, common_indent(line_texts(lines@))) {
            (Some(indent), Some(wanted)) => indent == wanted,
            (None, None) => true,
            _ => false,
        },
{
    let ghost all = line_texts(lines@);
    let mut least: Option<u128> = None;
    let mut i: usize = 1;
    while i < lines.len()
        invariant
            1 <= i <= lines@.len(),
            all == line_texts(lines@),
            match (least, common_indent(all.subrange(0, i as int))) {
                (Some(indent), Some(wanted)) => indent == wanted,
                (None, None) => true,
                _ => false,
            },
        decreases lines@.len() - i,
    {
        let ghost next = all.subrange(0, i + 1);
        assert(next.drop_last() =~= all.subrange(0, i as int));
        assert(next.last() == lines@[i as int]@);
        if !blank_line(&lines[i]) {
            let indent: u128 = measure_indent(&lines[i]);
            least = match least {
                Some(before) => if before <= indent {
                    Some(before)
                } else {
                    Some(indent)
                },
                None => Some(indent),
            };
        }
        i = i + 1;
    }
    assert(all.subrange(0, i as int) =~= all);
    least
}

/// Whether a character of a block string is cut.
fn finds_cut_line(lines: &Vec<Vec<char>>) -> (result: bool)
    requires
        lines@.len() > 0,
    ensures
        result == is_cut(line_texts(lines@)),
{
    let ghost all = line_texts(lines@);
    let indent: u128 = match find_indent(lines) {
        None => {
            return false;
        },
        Some(indent) => indent,
    };
    let mut end: usize = lines.len();
    while end > 0 && blank_line(&lines[end - 1])
        invariant
            end <= lines@.len(),
            all == line_texts(lines@),
            forall|j: int| end <= j < all.len() ==> is_blank_line(#[trigger] all[j]),
        decreases end,
    {
        assert(all[end - 1] == lines@[end - 1]@);
        end = end - 1;
    }
    assert(end > 0 ==> all[end - 1] == lines@[end - 1]@);
    let mut filled = false;
    let mut i: usize = 0;
    while i < end
        invariant
            i <= end <= lines@.len(),
            all == line_texts(lines@),
            common_indent(all) == Some(indent as nat),
            end > 0 ==> !is_blank_line(all[end - 1]),
            filled == exists|a: int| 0 <= a < i && !is_blank_line(#[trigger] all[a]),
            forall|j: int|
                1 <= j < i && is_within(all, j) ==> !cuts_character(
                    #[trigger] all[j],
                    indent as int,
                ),
        decreases end - i,
    {
        assert(all[i as int] == lines@[i as int]@);
        if !blank_line(&lines[i]) {
            assert(!is_blank_line(all[i as int]));
            filled = true;
        }
        if i > 0 && filled && finds_cut(&lines[i], indent) {
            assert(is_within(all, i as int)) by {
                assert(!is_blank_line(all[end - 1]));
            }
            return true;
        }
        assert(1 <= i && is_within(all, i as int) ==> !cuts_character(all[i as int], indent as int));
        i = i + 1;
    }
    assert forall|j: int| 1 <= j < all.len() && is_within(all, j) implies !cuts_character(
        #[trigger] all[j],
        indent as int,
    ) by {
        if j >= end {
            let b = choose|b: int| j <= b < all.len() && !is_blank_line(#[trigger] all[b]);
            assert(is_blank_line(all[b]));
        }
    }
    false
}

/// Where a comment ends.
fn skip_comment(text: &Vec<char>, from: usize) -> (result: usize)
    requires
        from <= text@.len(),
    ensures
        result == comment_end(text@, from as int),
        from <= result <= text@.len(),
{
    let mut at: usize = from;
    while at < text.len() && text[at] != '\r' && text[at] != '\n'
        invariant
            from <= at <= text@.len(),
            comment_end(text@, from as int) == comment_end(text@, at as int),
        decreases text@.len() - at,
    {
        at = at + 1;
    }
    at
}

/// The place behind the quotation mark that closes a string.
fn skip_string(text: &Vec<char>, from: usize) -> (result: Option<usize>)
    requires
        from <= text@.len(),
    ensures
        match (result, string_end(text@, from as int, false)) {
            (Some(end), Some(wanted)) => end == wanted && from < end <= text@.len(),
            (None, None) => true,
            _ => false,
        },
{
    let mut at: usize = from;
    let mut escaped = false;
    while at < text.len() && text[at] != '\n'
        invariant
            from <= at <= text@.len(),
            string_end(text@, from as int, false) == string_end(text@, at as int, escaped),
        decreases text@.len() - at,
    {
        if text[at] == '"' && !escaped {
            return Some(at + 1);
        }
        escaped = !escaped && text[at] == '\\';
        at = at + 1;
    }
    None
}

/// Whether three quotation marks stand at a place of a text.
fn block_quote(text: &Vec<char>, at: usize) -> (result: bool)
    ensures
        result == is_block_quote(text@, at as int),
{
    text.len() > 2 && at < text.len() - 2 && text[at] == '"' && text[at + 1] == '"' && text[at + 2]
        == '"'
}

/// The place of the three quotation marks that close a block string.
fn find_block_end(text: &Vec<char>, start: usize) -> (result: Option<usize>)
    requires
        start <= text@.len(),
    ensures
        match (result, block_end(text@, start as int, start as int)) {
            (Some(end), Some(wanted)) => end == wanted && start <= end && end + 3 <= text@.len(),
            (None, None) => true,
            _ => false,
        },
{
    let mut at: usize = start;
    while at < text.len()
        invariant
            start <= at <= text@.len(),
            block_end(text@, start as int, start as int) == block_end(
                text@,
                start as int,
                at as int,
            ),
        decreases text@.len() - at,
    {
        if !block_quote(text, at) {
            at = at + 1;
        } else if start < at && text[at - 1] == '\\' {
            at = at + 3;
        } else {
            return Some(at);
        }
    }
    None
}

/// Whether a character of some block string of a GraphQL text is cut.
pub fn finds_cut_block_string(statement: &str) -> (result: bool)
    ensures
        result == cuts_block_string(statement@),
{
    let text = characters(statement);
    let mut at: usize = 0;
    while at < text.len()
        invariant
            at <= text@.len(),
            text@ == statement@,
            cuts_block_string(statement@) == is_cut_from(text@, at as int),
        decreases text@.len() - at,
    {
        if text[at] == '#' {
            at = skip_comment(&text, at + 1);
        } else if block_quote(&text, at) {
            match find_block_end(&text, at + 3) {
                None => {
                    return false;
                },
                Some(end) => {
                    let lines = split_lines(&text, at + 3, end);
                    if finds_cut_line(&lines) {
                        return true;
                    }
                    at = end + 3;
                },
            }
        } else if text[at] == '"' {
            match skip_string(&text, at + 1) {
                None => {
                    return false;
                },
                Some(end) => {
                    at = end;
                },
            }
        } else {
            at = at + 1;
        }
    }
    false
}

} // verus!
