//! Text as sequences of characters: the operations that the connectors need, each with its
//! mathematical meaning.
use vstd::prelude::*;
use vstd::string::StringExecFns;
use vstd::utf8::encode_utf8;

verus! {

/// `String::push` appends one character.
pub assume_specification[ std::string::String::push ](receiver: &mut std::string::String, character: char)
    ensures
        final(receiver)@ == old(receiver)@.push(character),
;

/// The characters of each text in `texts`.
pub open spec fn texts(texts: Seq<String>) -> Seq<Seq<char>> {
    Seq::new(texts.len(), |i: int| texts[i]@)
}

/// Adding a text adds its characters.
pub broadcast proof fn lemma_texts_push(items: Seq<String>, item: String)
    ensures
        #[trigger] texts(items.push(item)) == texts(items).push(item@),
{
    assert(texts(items.push(item)) =~= texts(items).push(item@));
}

/// No texts are no texts.
pub broadcast proof fn lemma_no_texts()
    ensures
        #[trigger] texts(Seq::<String>::empty()) == Seq::<Seq<char>>::empty(),
{
    assert(texts(Seq::<String>::empty()) =~= Seq::<Seq<char>>::empty());
}

pub broadcast group group_texts {
    lemma_texts_push,
    lemma_no_texts,
}

/// The characters of an optional text.
pub open spec fn optional_text(text: Option<String>) -> Option<Seq<char>> {
    match text {
        Some(text) => Some(text@),
        None => None,
    }
}

/// The characters of an optional borrowed text.
pub open spec fn optional_str(text: Option<&str>) -> Option<Seq<char>> {
    match text {
        Some(text) => Some(text@),
        None => None,
    }
}

/// The number of bytes that a text takes in UTF-8.
pub open spec fn byte_length(text: Seq<char>) -> nat {
    encode_utf8(text).len()
}

/// Whether `part` stands somewhere in `text`.
pub open spec fn occurs_in(part: Seq<char>, text: Seq<char>) -> bool {
    exists|i: int| #[trigger] occurs_at(part, text, i)
}

/// Whether `part` stands in `text` at position `i`.
pub open spec fn occurs_at(part: Seq<char>, text: Seq<char>, i: int) -> bool {
    0 <= i && i + part.len() <= text.len() && text.subrange(i, i + part.len()) =~= part
}

/// Whether a text begins with `prefix`.
pub open spec fn begins_with(text: Seq<char>, prefix: Seq<char>) -> bool {
    prefix.len() <= text.len() && text.subrange(0, prefix.len() as int) =~= prefix
}

/// A control character: the general category Cc of Unicode.
pub open spec fn is_control_char(c: char) -> bool {
    c as u32 <= 0x1f || (0x7f <= c as u32 && c as u32 <= 0x9f)
}

/// A character with the Unicode property White_Space.
pub open spec fn is_space_char(c: char) -> bool {
    let n = c as u32;
    ||| 0x9 <= n <= 0xd
    ||| n == 0x20
    ||| n == 0x85
    ||| n == 0xa0
    ||| n == 0x1680
    ||| 0x2000 <= n <= 0x200a
    ||| n == 0x2028
    ||| n == 0x2029
    ||| n == 0x202f
    ||| n == 0x205f
    ||| n == 0x3000
}

/// Whether some character of the text is a control character.
pub open spec fn has_control(text: Seq<char>) -> bool {
    exists|i: int| 0 <= i < text.len() && is_control_char(#[trigger] text[i])
}

/// A text without the white space at its end.
pub open spec fn trim_end(text: Seq<char>) -> Seq<char>
    decreases text.len(),
{
    if text.len() > 0 && is_space_char(text.last()) {
        trim_end(text.drop_last())
    } else {
        text
    }
}

/// A text without the white space at its start.
pub open spec fn trim_start(text: Seq<char>) -> Seq<char>
    decreases text.len(),
{
    if text.len() > 0 && is_space_char(text[0]) {
        trim_start(text.subrange(1, text.len() as int))
    } else {
        text
    }
}

/// A text without the white space at its two ends.
pub open spec fn trimmed(text: Seq<char>) -> Seq<char> {
    trim_end(trim_start(text))
}

/// A character with an ASCII upper case letter made lower case.
pub open spec fn lower_char(c: char) -> char {
    if 'A' <= c && c <= 'Z' {
        ((c as u32 + 32) as u32) as char
    } else {
        c
    }
}

/// A character with an ASCII lower case letter made upper case.
pub open spec fn upper_char(c: char) -> char {
    if 'a' <= c && c <= 'z' {
        ((c as u32 - 32) as u32) as char
    } else {
        c
    }
}

/// A text with its ASCII letters made lower case.
pub open spec fn lower(text: Seq<char>) -> Seq<char> {
    Seq::new(text.len(), |i: int| lower_char(text[i]))
}

/// A text with its ASCII letters made upper case.
pub open spec fn upper(text: Seq<char>) -> Seq<char> {
    Seq::new(text.len(), |i: int| upper_char(text[i]))
}

/// Whether two texts differ at most in the case of ASCII letters.
pub open spec fn same_ignoring_case(left: Seq<char>, right: Seq<char>) -> bool {
    lower(left) == lower(right)
}

/// The parts of a text between the occurrences of `separator`.
pub open spec fn split_on(text: Seq<char>, separator: char) -> Seq<Seq<char>>
    decreases text.len(),
{
    if text.len() == 0 {
        seq![Seq::<char>::empty()]
    } else if text.last() == separator {
        split_on(text.drop_last(), separator).push(Seq::<char>::empty())
    } else {
        let parts = split_on(text.drop_last(), separator);
        parts.update(parts.len() - 1, parts.last().push(text.last()))
    }
}

/// The texts one after the other, with `separator` between them.
pub open spec fn joined(parts: Seq<Seq<char>>, separator: Seq<char>) -> Seq<char>
    decreases parts.len(),
{
    if parts.len() == 0 {
        Seq::<char>::empty()
    } else if parts.len() == 1 {
        parts[0]
    } else {
        joined(parts.drop_last(), separator) + separator + parts.last()
    }
}

/// A text in which `mark` stands twice wherever it stood once.
pub open spec fn doubled(text: Seq<char>, mark: char) -> Seq<char>
    decreases text.len(),
{
    if text.len() == 0 {
        Seq::<char>::empty()
    } else if text.last() == mark {
        doubled(text.drop_last(), mark).push(mark).push(mark)
    } else {
        doubled(text.drop_last(), mark).push(text.last())
    }
}

/// The character of a decimal digit.
pub open spec fn digit_char(digit: nat) -> char {
    if digit == 0 {
        '0'
    } else if digit == 1 {
        '1'
    } else if digit == 2 {
        '2'
    } else if digit == 3 {
        '3'
    } else if digit == 4 {
        '4'
    } else if digit == 5 {
        '5'
    } else if digit == 6 {
        '6'
    } else if digit == 7 {
        '7'
    } else if digit == 8 {
        '8'
    } else {
        '9'
    }
}

/// A number in decimal notation.
pub open spec fn decimal(number: nat) -> Seq<char>
    decreases number,
{
    if number < 10 {
        seq![digit_char(number)]
    } else {
        decimal(number / 10).push(digit_char(number % 10))
    }
}

/// An integer in decimal notation.
pub open spec fn signed_decimal(number: int) -> Seq<char> {
    if number < 0 {
        seq!['-'] + decimal((-number) as nat)
    } else {
        decimal(number as nat)
    }
}

/// A decimal digit.
pub open spec fn is_digit(c: char) -> bool {
    '0' <= c && c <= '9'
}

/// Whether every character is a decimal digit.
pub open spec fn all_digits(text: Seq<char>) -> bool {
    forall|i: int| 0 <= i < text.len() ==> is_digit(#[trigger] text[i])
}

/// The number that a text of decimal digits denotes.
pub open spec fn digits_value(text: Seq<char>) -> nat
    decreases text.len(),
{
    if text.len() == 0 {
        0
    } else {
        digits_value(text.drop_last()) * 10 + (text.last() as u32 - '0' as u32) as nat
    }
}

/// The characters of a text.
pub fn characters(text: &str) -> (result: Vec<char>)
    ensures
        result@ == text@,
{
    let mut result: Vec<char> = Vec::new();
    for c in iter: text.chars()
        invariant
            iter.seq() == text@,
            result@ == text@.subrange(0, iter.index() as int),
    {
        result.push(c);
    }
    proof {
        assert(text@.subrange(0, text@.len() as int) =~= text@);
    }
    result
}

/// The text of a part of a run of characters.
pub fn slice_text(characters: &Vec<char>, from: usize, to: usize) -> (result: String)
    requires
        from <= to <= characters@.len(),
    ensures
        result@ == characters@.subrange(from as int, to as int),
{
    let mut result = String::new();
    let mut i: usize = from;
    while i < to
        invariant
            from <= i <= to <= characters@.len(),
            result@ == characters@.subrange(from as int, i as int),
        decreases to - i,
    {
        result.push(characters[i]);
        i = i + 1;
        assert(result@ =~= characters@.subrange(from as int, i as int));
    }
    result
}

/// The number of bytes that a text takes in UTF-8.
pub fn byte_count(text: &str) -> (count: usize)
    ensures
        count == byte_length(text@),
{
    text.as_bytes().len()
}

/// Whether two texts are equal.
pub fn same(left: &str, right: &str) -> (result: bool)
    ensures
        result == (left@ == right@),
{
    left.to_owned() == right.to_owned()
}

/// Whether two optional texts are equal.
pub fn same_optional(left: Option<&str>, right: Option<&str>) -> (result: bool)
    ensures
        result == (optional_str(left) == optional_str(right)),
{
    match (left, right) {
        (Some(left), Some(right)) => same(left, right),
        (None, None) => true,
        _ => false,
    }
}

/// The borrowed form of an optional text.
pub fn borrowed(text: &Option<String>) -> (result: Option<&str>)
    ensures
        optional_str(result) == optional_text(*text),
{
    match text {
        Some(text) => Some(text.as_str()),
        None => None,
    }
}

/// A copy of an optional text.
pub fn clone_optional(text: &Option<String>) -> (result: Option<String>)
    ensures
        optional_text(result) == optional_text(*text),
{
    match text {
        Some(text) => Some(text.clone()),
        None => None,
    }
}

/// An owned copy of an optional text.
pub fn owned_optional(text: Option<&str>) -> (result: Option<String>)
    ensures
        optional_text(result) == optional_str(text),
{
    match text {
        Some(text) => Some(text.to_owned()),
        None => None,
    }
}

/// Copies of texts.
pub fn clone_texts(source: &Vec<String>) -> (result: Vec<String>)
    ensures
        texts(result@) == texts(source@),
{
    let mut result: Vec<String> = Vec::new();
    let mut i: usize = 0;
    while i < source.len()
        invariant
            i <= source@.len(),
            result@.len() == i,
            forall|j: int| 0 <= j < i ==> (#[trigger] result@[j])@ == source@[j]@,
        decreases source@.len() - i,
    {
        result.push(source[i].clone());
        i = i + 1;
    }
    assert(texts(result@) =~= texts(source@));
    result
}

/// Whether a text is one of some others.
pub fn listed(list: &Vec<String>, wanted: &str) -> (result: bool)
    ensures
        result == texts(list@).contains(wanted@),
{
    let ghost all = texts(list@);
    let mut i: usize = 0;
    while i < list.len()
        invariant
            i <= list@.len(),
            all == texts(list@),
            forall|j: int| 0 <= j < i ==> #[trigger] all[j] != wanted@,
        decreases list@.len() - i,
    {
        assert(all[i as int] == list@[i as int]@);
        if same(list[i].as_str(), wanted) {
            return true;
        }
        i = i + 1;
    }
    false
}

/// Whether some character of a text is `wanted`.
pub fn has_char(text: &str, wanted: char) -> (result: bool)
    ensures
        result == text@.contains(wanted),
{
    let chars = characters(text);
    let mut i: usize = 0;
    while i < chars.len()
        invariant
            i <= chars@.len(),
            chars@ == text@,
            forall|j: int| 0 <= j < i ==> chars@[j] != wanted,
        decreases chars@.len() - i,
    {
        if chars[i] == wanted {
            assert(text@[i as int] == wanted);
            return true;
        }
        i = i + 1;
    }
    false
}

/// Whether a character is a control character.
pub fn control_char(c: char) -> (result: bool)
    ensures
        result == is_control_char(c),
{
    let n: u32 = c as u32;
    n <= 0x1f || (0x7f <= n && n <= 0x9f)
}

/// Whether a character is white space.
pub fn space_char(c: char) -> (result: bool)
    ensures
        result == is_space_char(c),
{
    let n: u32 = c as u32;
    (0x9 <= n && n <= 0xd) || n == 0x20 || n == 0x85 || n == 0xa0 || n == 0x1680 || (0x2000 <= n
        && n <= 0x200a) || n == 0x2028 || n == 0x2029 || n == 0x202f || n == 0x205f || n == 0x3000
}

/// Whether some character of a text is a control character.
pub fn contains_control(text: &str) -> (result: bool)
    ensures
        result == has_control(text@),
{
    let chars = characters(text);
    let mut i: usize = 0;
    while i < chars.len()
        invariant
            i <= chars@.len(),
            chars@ == text@,
            forall|j: int| 0 <= j < i ==> !is_control_char(#[trigger] chars@[j]),
        decreases chars@.len() - i,
    {
        if control_char(chars[i]) {
            assert(is_control_char(text@[i as int]));
            return true;
        }
        i = i + 1;
    }
    false
}

/// A text without the white space at its two ends.
pub fn trim(text: &str) -> (result: String)
    ensures
        result@ == trimmed(text@),
{
    let chars = characters(text);
    let mut start: usize = 0;
    assert(chars@.subrange(0, chars@.len() as int) =~= chars@);
    while start < chars.len() && space_char(chars[start])
        invariant
            start <= chars@.len(),
            chars@ == text@,
            trim_start(text@) == trim_start(chars@.subrange(start as int, chars@.len() as int)),
        decreases chars@.len() - start,
    {
        let ghost rest = chars@.subrange(start as int, chars@.len() as int);
        assert(rest.subrange(1, rest.len() as int) =~= chars@.subrange(
            start + 1,
            chars@.len() as int,
        ));
        start = start + 1;
    }
    let ghost kept = chars@.subrange(start as int, chars@.len() as int);
    assert(trim_start(text@) == kept) by {
        if kept.len() > 0 {
            assert(kept[0] == chars@[start as int]);
        }
    }
    let mut end: usize = chars.len();
    assert(chars@.subrange(start as int, end as int) =~= kept);
    while end > start && space_char(chars[end - 1])
        invariant
            start <= end <= chars@.len(),
            chars@ == text@,
            kept == chars@.subrange(start as int, chars@.len() as int),
            trim_end(kept) == trim_end(chars@.subrange(start as int, end as int)),
        decreases end - start,
    {
        let ghost rest = chars@.subrange(start as int, end as int);
        assert(rest.drop_last() =~= chars@.subrange(start as int, end - 1));
        assert(rest.last() == chars@[end - 1]);
        end = end - 1;
    }
    proof {
        let rest = chars@.subrange(start as int, end as int);
        if rest.len() > 0 {
            assert(rest.last() == chars@[end - 1]);
        }
    }
    slice_text(&chars, start, end)
}

/// A lower case form of an ASCII letter; any other character unchanged.
pub fn to_lower_char(c: char) -> (result: char)
    ensures
        result == lower_char(c),
{
    if 'A' <= c && c <= 'Z' {
        ((c as u8) + 32) as char
    } else {
        c
    }
}

/// An upper case form of an ASCII letter; any other character unchanged.
pub fn to_upper_char(c: char) -> (result: char)
    ensures
        result == upper_char(c),
{
    if 'a' <= c && c <= 'z' {
        ((c as u8) - 32) as char
    } else {
        c
    }
}

/// A text with its ASCII letters made lower case.
pub fn to_lower(text: &str) -> (result: String)
    ensures
        result@ == lower(text@),
{
    let chars = characters(text);
    let mut result = String::new();
    let mut i: usize = 0;
    while i < chars.len()
        invariant
            i <= chars@.len(),
            chars@ == text@,
            result@ == lower(text@).subrange(0, i as int),
        decreases chars@.len() - i,
    {
        result.push(to_lower_char(chars[i]));
        i = i + 1;
        assert(result@ =~= lower(text@).subrange(0, i as int));
    }
    assert(lower(text@).subrange(0, i as int) =~= lower(text@));
    result
}

/// A text with its ASCII letters made upper case.
pub fn to_upper(text: &str) -> (result: String)
    ensures
        result@ == upper(text@),
{
    let chars = characters(text);
    let mut result = String::new();
    let mut i: usize = 0;
    while i < chars.len()
        invariant
            i <= chars@.len(),
            chars@ == text@,
            result@ == upper(text@).subrange(0, i as int),
        decreases chars@.len() - i,
    {
        result.push(to_upper_char(chars[i]));
        i = i + 1;
        assert(result@ =~= upper(text@).subrange(0, i as int));
    }
    assert(upper(text@).subrange(0, i as int) =~= upper(text@));
    result
}

/// Whether two texts differ at most in the case of ASCII letters.
pub fn equal_ignoring_case(left: &str, right: &str) -> (result: bool)
    ensures
        result == same_ignoring_case(left@, right@),
{
    let left = to_lower(left);
    let right = to_lower(right);
    left == right
}

/// Whether `part` stands somewhere in `text`.
pub fn contains_text(text: &str, part: &str) -> (result: bool)
    ensures
        result == occurs_in(part@, text@),
{
    let chars = characters(text);
    let wanted = characters(part);
    if wanted.len() > chars.len() {
        return false;
    }
    let mut i: usize = 0;
    while i <= chars.len() - wanted.len()
        invariant
            i <= chars@.len() - wanted@.len() + 1,
            wanted@.len() <= chars@.len(),
            chars@ == text@,
            wanted@ == part@,
            forall|j: int| 0 <= j < i ==> !#[trigger] occurs_at(part@, text@, j),
        decreases chars@.len() - i,
    {
        if matches_at(&chars, &wanted, i) {
            assert(occurs_at(part@, text@, i as int));
            return true;
        }
        i = i + 1;
    }
    false
}

/// Whether `part` stands in `text` at position `at`.
pub fn matches_at(text: &Vec<char>, part: &Vec<char>, at: usize) -> (result: bool)
    ensures
        result == occurs_at(part@, text@, at as int),
{
    if part.len() > text.len() || at > text.len() - part.len() {
        return false;
    }
    let length: usize = text.len();
    let mut i: usize = 0;
    while i < part.len()
        invariant
            i <= part@.len(),
            length == text@.len(),
            at + part@.len() <= length,
            forall|j: int| 0 <= j < i ==> #[trigger] part@[j] == text@[at + j],
        decreases part@.len() - i,
    {
        if text[at + i] != part[i] {
            assert(text@.subrange(at as int, at + part@.len())[i as int] != part@[i as int]);
            return false;
        }
        i = i + 1;
    }
    true
}

/// Whether a text begins with `prefix`.
pub fn starts_with(text: &str, prefix: &str) -> (result: bool)
    ensures
        result == begins_with(text@, prefix@),
{
    let chars = characters(text);
    let wanted = characters(prefix);
    matches_at(&chars, &wanted, 0)
}

/// The parts of a text between the occurrences of `separator`.
pub fn split(text: &str, separator: char) -> (result: Vec<String>)
    ensures
        texts(result@) == split_on(text@, separator),
        result@.len() > 0,
{
    let chars = characters(text);
    let mut done: Vec<String> = Vec::new();
    let mut current = String::new();
    let mut i: usize = 0;
    proof {
        assert(chars@.subrange(0, 0) =~= Seq::<char>::empty());
        assert(texts(done@).push(current@) =~= seq![Seq::<char>::empty()]);
    }
    while i < chars.len()
        invariant
            i <= chars@.len(),
            chars@ == text@,
            texts(done@).push(current@) == split_on(chars@.subrange(0, i as int), separator),
        decreases chars@.len() - i,
    {
        let c = chars[i];
        let ghost before = split_on(chars@.subrange(0, i as int), separator);
        let ghost next = chars@.subrange(0, i + 1);
        assert(next.drop_last() =~= chars@.subrange(0, i as int));
        assert(next.last() == c);
        if c == separator {
            let ghost previous = done@;
            let ghost finished = current@;
            done.push(current);
            current = String::new();
            assert(texts(done@) =~= texts(previous).push(finished));
            assert(texts(done@).push(current@) =~= before.push(Seq::<char>::empty()));
        } else {
            let ghost unfinished = current@;
            current.push(c);
            assert(before.last() == unfinished);
            assert(texts(done@).push(current@) =~= before.update(
                before.len() - 1,
                before.last().push(c),
            ));
        }
        i = i + 1;
    }
    assert(chars@.subrange(0, i as int) =~= chars@);
    let ghost previous = done@;
    let ghost finished = current@;
    done.push(current);
    assert(texts(done@) =~= texts(previous).push(finished));
    done
}

/// The texts one after the other, with `separator` between them.
pub fn join(parts: &Vec<String>, separator: &str) -> (result: String)
    ensures
        result@ == joined(texts(parts@), separator@),
{
    let mut result = String::new();
    let mut i: usize = 0;
    while i < parts.len()
        invariant
            i <= parts@.len(),
            result@ == joined(texts(parts@).subrange(0, i as int), separator@),
        decreases parts@.len() - i,
    {
        let ghost shown = texts(parts@).subrange(0, i as int);
        let ghost next = texts(parts@).subrange(0, i + 1);
        assert(next.drop_last() =~= shown);
        assert(next.last() == parts@[i as int]@);
        if i > 0 {
            result.append(separator);
        } else {
            assert(result@ + parts@[i as int]@ =~= parts@[i as int]@);
        }
        result.append(parts[i].as_str());
        i = i + 1;
    }
    assert(texts(parts@).subrange(0, i as int) =~= texts(parts@));
    result
}

/// A text in which `mark` stands twice wherever it stood once.
pub fn double(text: &str, mark: char) -> (result: String)
    ensures
        result@ == doubled(text@, mark),
{
    let chars = characters(text);
    let mut result = String::new();
    let mut i: usize = 0;
    while i < chars.len()
        invariant
            i <= chars@.len(),
            chars@ == text@,
            result@ == doubled(chars@.subrange(0, i as int), mark),
        decreases chars@.len() - i,
    {
        let c = chars[i];
        assert(chars@.subrange(0, i + 1).drop_last() =~= chars@.subrange(0, i as int));
        result.push(c);
        if c == mark {
            result.push(c);
        }
        i = i + 1;
    }
    assert(chars@.subrange(0, i as int) =~= chars@);
    result
}

/// Appends a number in decimal notation.
pub fn push_decimal(out: &mut String, number: u64)
    ensures
        final(out)@ == old(out)@ + decimal(number as nat),
    decreases number,
{
    if number >= 10 {
        push_decimal(out, number / 10);
    }
    let digit: u64 = number % 10;
    let c: char = if digit == 0 {
        '0'
    } else if digit == 1 {
        '1'
    } else if digit == 2 {
        '2'
    } else if digit == 3 {
        '3'
    } else if digit == 4 {
        '4'
    } else if digit == 5 {
        '5'
    } else if digit == 6 {
        '6'
    } else if digit == 7 {
        '7'
    } else if digit == 8 {
        '8'
    } else {
        '9'
    };
    out.push(c);
    assert(out@ =~= old(out)@ + decimal(number as nat));
}

/// A number in decimal notation.
pub fn decimal_text(number: u64) -> (result: String)
    ensures
        result@ == decimal(number as nat),
{
    let mut result = String::new();
    push_decimal(&mut result, number);
    assert(Seq::<char>::empty() + decimal(number as nat) =~= decimal(number as nat));
    result
}

/// An integer in decimal notation.
pub fn signed_decimal_text(number: i64) -> (result: String)
    ensures
        result@ == signed_decimal(number as int),
{
    if number >= 0 {
        return decimal_text(number as u64);
    }
    let magnitude: u64 = if number == i64::MIN {
        0x8000_0000_0000_0000
    } else {
        (-number) as u64
    };
    let mut result = String::new();
    result.push('-');
    push_decimal(&mut result, magnitude);
    assert(result@ =~= seq!['-'] + decimal(magnitude as nat));
    result
}

/// Whether every character is a decimal digit.
pub fn only_digits(chars: &Vec<char>) -> (result: bool)
    ensures
        result == all_digits(chars@),
{
    let mut i: usize = 0;
    while i < chars.len()
        invariant
            i <= chars@.len(),
            forall|j: int| 0 <= j < i ==> is_digit(#[trigger] chars@[j]),
        decreases chars@.len() - i,
    {
        if chars[i] < '0' || '9' < chars[i] {
            assert(!is_digit(chars@[i as int]));
            return false;
        }
        i = i + 1;
    }
    true
}

/// The value of a run of decimal digits, where it fits in 64 bits.
pub fn number_of_digits(chars: &Vec<char>) -> (result: Option<u64>)
    requires
        all_digits(chars@),
    ensures
        match result {
            Some(number) => number == digits_value(chars@),
            None => digits_value(chars@) > u64::MAX,
        },
{
    let mut number: u64 = 0;
    let mut i: usize = 0;
    while i < chars.len()
        invariant
            i <= chars@.len(),
            all_digits(chars@),
            number == digits_value(chars@.subrange(0, i as int)),
        decreases chars@.len() - i,
    {
        let digit: u64 = (chars[i] as u32 - '0' as u32) as u64;
        let ghost shown = chars@.subrange(0, i + 1);
        assert(shown.drop_last() =~= chars@.subrange(0, i as int));
        assert(shown.last() == chars@[i as int]);
        assert(digits_value(shown) == number * 10 + digit);
        if number > 1844674407370955161 || (number == 1844674407370955161 && digit > 5) {
            proof {
                lemma_digits_value_grows(chars@, i + 1);
            }
            return None;
        }
        number = number * 10 + digit;
        i = i + 1;
    }
    assert(chars@.subrange(0, i as int) =~= chars@);
    Some(number)
}

/// More digits denote no smaller number.
pub proof fn lemma_digits_value_grows(text: Seq<char>, count: int)
    requires
        0 <= count <= text.len(),
        all_digits(text),
    ensures
        digits_value(text.subrange(0, count)) <= digits_value(text),
    decreases text.len(),
{
    if count == text.len() {
        assert(text.subrange(0, count) =~= text);
    } else {
        let shorter = text.drop_last();
        assert(forall|i: int| 0 <= i < shorter.len() ==> #[trigger] shorter[i] == text[i]);
        lemma_digits_value_grows(shorter, count);
        assert(shorter.subrange(0, count) =~= text.subrange(0, count));
    }
}

/// The number that a text denotes as an unsigned 64-bit integer: an optional plus sign and at
/// least one decimal digit.
pub open spec fn unsigned_value(text: Seq<char>) -> Option<u64> {
    let digits = if text.len() > 0 && text[0] == '+' {
        text.subrange(1, text.len() as int)
    } else {
        text
    };
    if digits.len() > 0 && all_digits(digits) && digits_value(digits) <= u64::MAX {
        Some(digits_value(digits) as u64)
    } else {
        None
    }
}

/// Reads an unsigned 64-bit integer.
pub fn parse_unsigned(text: &str) -> (result: Option<u64>)
    ensures
        result == unsigned_value(text@),
{
    let chars = characters(text);
    let digits = if chars.len() > 0 && chars[0] == '+' {
        tail(&chars, 1)
    } else {
        chars
    };
    if digits.len() == 0 || !only_digits(&digits) {
        return None;
    }
    number_of_digits(&digits)
}

/// The number that a text denotes as a signed 64-bit integer: an optional sign and at least one
/// decimal digit.
pub open spec fn signed_value(text: Seq<char>) -> Option<i64> {
    let signed = text.len() > 0 && (text[0] == '+' || text[0] == '-');
    let digits = if signed {
        text.subrange(1, text.len() as int)
    } else {
        text
    };
    let magnitude = if signed && text[0] == '-' {
        -digits_value(digits)
    } else {
        digits_value(digits) as int
    };
    if digits.len() > 0 && all_digits(digits) && i64::MIN <= magnitude <= i64::MAX {
        Some(magnitude as i64)
    } else {
        None
    }
}

/// Reads a signed 64-bit integer.
pub fn parse_signed(text: &str) -> (result: Option<i64>)
    ensures
        result == signed_value(text@),
{
    let chars = characters(text);
    let signed = chars.len() > 0 && (chars[0] == '+' || chars[0] == '-');
    let negative = signed && chars[0] == '-';
    let digits = if signed {
        tail(&chars, 1)
    } else {
        chars
    };
    if digits.len() == 0 || !only_digits(&digits) {
        return None;
    }
    match number_of_digits(&digits) {
        None => None,
        Some(magnitude) => {
            if negative {
                if magnitude == 0x8000_0000_0000_0000 {
                    Some(i64::MIN)
                } else if magnitude < 0x8000_0000_0000_0000 {
                    Some(-(magnitude as i64))
                } else {
                    None
                }
            } else if magnitude < 0x8000_0000_0000_0000 {
                Some(magnitude as i64)
            } else {
                None
            }
        },
    }
}

/// The characters from position `from` on.
pub fn tail(chars: &Vec<char>, from: usize) -> (result: Vec<char>)
    requires
        from <= chars@.len(),
    ensures
        result@ == chars@.subrange(from as int, chars@.len() as int),
{
    let mut result: Vec<char> = Vec::new();
    let mut i: usize = from;
    while i < chars.len()
        invariant
            from <= i <= chars@.len(),
            result@ == chars@.subrange(from as int, i as int),
        decreases chars@.len() - i,
    {
        result.push(chars[i]);
        i = i + 1;
        assert(result@ =~= chars@.subrange(from as int, i as int));
    }
    result
}

/// A number's decimal notation consists of digits and denotes that number.
pub proof fn lemma_decimal_value(number: nat)
    ensures
        decimal(number).len() > 0,
        all_digits(decimal(number)),
        digits_value(decimal(number)) == number,
    decreases number,
{
    if number < 10 {
        let text = decimal(number);
        assert(text.drop_last() =~= Seq::<char>::empty());
        assert(text.last() == digit_char(number));
        assert(digits_value(text) == digits_value(Seq::<char>::empty()) * 10 + number);
    } else {
        lemma_decimal_value(number / 10);
        let text = decimal(number);
        assert(text.drop_last() =~= decimal(number / 10));
        assert(text.last() == digit_char(number % 10));
        assert forall|i: int| 0 <= i < text.len() implies is_digit(#[trigger] text[i]) by {
            if i < text.len() - 1 {
                assert(text[i] == decimal(number / 10)[i]);
            }
        }
    }
}

/// A run of one character.
pub open spec fn repeated(c: char, count: nat) -> Seq<char> {
    Seq::new(count, |i: int| c)
}

/// A number in decimal notation with zeros in front up to a width.
pub open spec fn padded(number: nat, width: nat) -> Seq<char> {
    let digits = decimal(number);
    if digits.len() >= width {
        digits
    } else {
        repeated('0', (width - digits.len()) as nat) + digits
    }
}

/// Appends a number in decimal notation with zeros in front up to a width.
pub fn push_padded(out: &mut String, number: u64, width: usize)
    ensures
        final(out)@ == old(out)@ + padded(number as nat, width as nat),
{
    let digits = decimal_text(number);
    let chars = characters(digits.as_str());
    let ghost before = out@;
    let mut length: usize = chars.len();
    let ghost shown = length;
    let mut zeros: usize = 0;
    while length < width
        invariant
            shown == chars@.len(),
            length == shown + zeros,
            length <= width || zeros == 0,
            before == old(out)@,
            out@ == before + repeated('0', zeros as nat),
        decreases width - length,
    {
        let ghost previous = out@;
        out.push('0');
        length = length + 1;
        zeros = zeros + 1;
        assert(out@ =~= before + repeated('0', zeros as nat));
    }
    out.append(digits.as_str());
    assert(out@ =~= before + padded(number as nat, width as nat));
}

/// The position of the first occurrence of a character, or the length of the text.
pub open spec fn position_of(text: Seq<char>, wanted: char) -> nat
    decreases text.len(),
{
    if text.len() == 0 || text[0] == wanted {
        0
    } else {
        1 + position_of(text.subrange(1, text.len() as int), wanted)
    }
}

/// A text parted at the first occurrence of a character.
pub open spec fn parted(text: Seq<char>, wanted: char) -> Option<(Seq<char>, Seq<char>)> {
    let at = position_of(text, wanted) as int;
    if at < text.len() {
        Some((text.subrange(0, at), text.subrange(at + 1, text.len() as int)))
    } else {
        None
    }
}

/// The position of the first occurrence of a character, or the length of the text.
pub fn find_char(chars: &Vec<char>, wanted: char) -> (result: usize)
    ensures
        result == position_of(chars@, wanted),
        result <= chars@.len(),
{
    let mut i: usize = 0;
    assert(chars@.subrange(0, chars@.len() as int) =~= chars@);
    while i < chars.len() && chars[i] != wanted
        invariant
            i <= chars@.len(),
            position_of(chars@, wanted) == i + position_of(
                chars@.subrange(i as int, chars@.len() as int),
                wanted,
            ),
        decreases chars@.len() - i,
    {
        let ghost rest = chars@.subrange(i as int, chars@.len() as int);
        assert(rest[0] == chars@[i as int]);
        assert(rest.subrange(1, rest.len() as int) =~= chars@.subrange(i + 1, chars@.len() as int));
        i = i + 1;
    }
    proof {
        let rest = chars@.subrange(i as int, chars@.len() as int);
        if rest.len() > 0 {
            assert(rest[0] == chars@[i as int]);
        }
    }
    i
}

/// A text parted at the first occurrence of a character.
pub fn split_once(text: &str, wanted: char) -> (result: Option<(String, String)>)
    ensures
        match (result, parted(text@, wanted)) {
            (Some(pair), Some(wanted)) => pair.0@ == wanted.0 && pair.1@ == wanted.1,
            (None, None) => true,
            _ => false,
        },
{
    let chars = characters(text);
    let at: usize = find_char(&chars, wanted);
    if at < chars.len() {
        Some((slice_text(&chars, 0, at), slice_text(&chars, at + 1, chars.len())))
    } else {
        None
    }
}

/// A text without a character at its start, however often it stands there.
pub open spec fn without_leading(text: Seq<char>, mark: char) -> Seq<char>
    decreases text.len(),
{
    if text.len() > 0 && text[0] == mark {
        without_leading(text.subrange(1, text.len() as int), mark)
    } else {
        text
    }
}

/// A text without a character at its end, however often it stands there.
pub open spec fn without_trailing_char(text: Seq<char>, mark: char) -> Seq<char>
    decreases text.len(),
{
    if text.len() > 0 && text.last() == mark {
        without_trailing_char(text.drop_last(), mark)
    } else {
        text
    }
}

/// A text without a character at its start.
pub fn trim_leading(text: &str, mark: char) -> (result: String)
    ensures
        result@ == without_leading(text@, mark),
{
    let chars = characters(text);
    let mut start: usize = 0;
    assert(chars@.subrange(0, chars@.len() as int) =~= chars@);
    while start < chars.len() && chars[start] == mark
        invariant
            start <= chars@.len(),
            chars@ == text@,
            without_leading(text@, mark) == without_leading(
                chars@.subrange(start as int, chars@.len() as int),
                mark,
            ),
        decreases chars@.len() - start,
    {
        let ghost rest = chars@.subrange(start as int, chars@.len() as int);
        assert(rest[0] == chars@[start as int]);
        assert(rest.subrange(1, rest.len() as int) =~= chars@.subrange(
            start + 1,
            chars@.len() as int,
        ));
        start = start + 1;
    }
    proof {
        let kept = chars@.subrange(start as int, chars@.len() as int);
        if kept.len() > 0 {
            assert(kept[0] == chars@[start as int]);
        }
    }
    slice_text(&chars, start, chars.len())
}

/// A text without a character at its end.
pub fn trim_trailing(text: &str, mark: char) -> (result: String)
    ensures
        result@ == without_trailing_char(text@, mark),
{
    let chars = characters(text);
    let mut end: usize = chars.len();
    assert(chars@.subrange(0, chars@.len() as int) =~= chars@);
    while end > 0 && chars[end - 1] == mark
        invariant
            end <= chars@.len(),
            chars@ == text@,
            without_trailing_char(text@, mark) == without_trailing_char(
                chars@.subrange(0, end as int),
                mark,
            ),
        decreases end,
    {
        let ghost rest = chars@.subrange(0, end as int);
        assert(rest.last() == chars@[end - 1]);
        assert(rest.drop_last() =~= chars@.subrange(0, end - 1));
        end = end - 1;
    }
    proof {
        let kept = chars@.subrange(0, end as int);
        if kept.len() > 0 {
            assert(kept.last() == chars@[end - 1]);
        }
    }
    slice_text(&chars, 0, end)
}

/// An integer in decimal notation with zeros in front up to a width, in which a sign counts.
pub open spec fn signed_padded(number: int, width: nat) -> Seq<char> {
    if number < 0 {
        "-"@ + padded(
            (-number) as nat,
            if width > 0 {
                (width - 1) as nat
            } else {
                0
            },
        )
    } else {
        padded(number as nat, width)
    }
}

/// Appends an integer in decimal notation with zeros in front up to a width.
pub fn push_signed_padded(out: &mut String, number: i64, width: usize)
    requires
        number > i64::MIN,
    ensures
        final(out)@ == old(out)@ + signed_padded(number as int, width as nat),
{
    if number < 0 {
        out.append("-");
        push_padded(
            out,
            (-number) as u64,
            if width > 0 {
                width - 1
            } else {
                0
            },
        );
        assert(out@ =~= old(out)@ + signed_padded(number as int, width as nat));
    } else {
        push_padded(out, number as u64, width);
    }
}

/// The names of some borrowed texts.
pub open spec fn names_of(names: Seq<&str>) -> Seq<Seq<char>> {
    Seq::new(names.len(), |i: int| names[i]@)
}

} // verus!
