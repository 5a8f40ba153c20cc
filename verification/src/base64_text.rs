//! Base64 notation: three bytes become four characters that stand for six bits each.
use vstd::prelude::*;

verus! {

/// The two forms of the notation: the standard alphabet with padding, and the one for URLs without
/// padding.
pub enum Base64Form {
    Standard,
    Url,
}

/// The character that stands for six bits.
pub open spec fn six_bits(value: int, form: Base64Form) -> char {
    if value < 26 {
        (0x41 + value) as u8 as char
    } else if value < 52 {
        (0x61 + value - 26) as u8 as char
    } else if value < 62 {
        (0x30 + value - 52) as u8 as char
    } else if value == 62 {
        if form is Standard {
            '+'
        } else {
            '-'
        }
    } else {
        if form is Standard {
            '/'
        } else {
            '_'
        }
    }
}

/// The marks that fill up the last four characters.
pub open spec fn padding(count: nat, form: Base64Form) -> Seq<char> {
    if form is Standard {
        Seq::new(count, |i: int| '=')
    } else {
        Seq::empty()
    }
}

/// A byte, or zero behind the last one.
pub open spec fn byte_at(bytes: Seq<u8>, index: int) -> int {
    if index < bytes.len() {
        bytes[index] as int
    } else {
        0
    }
}

/// The text of some bytes.
pub open spec fn base64_form(bytes: Seq<u8>, form: Base64Form) -> Seq<char>
    decreases bytes.len(),
{
    if bytes.len() == 0 {
        Seq::empty()
    } else {
        let (a, b, c) = (byte_at(bytes, 0), byte_at(bytes, 1), byte_at(bytes, 2));
        let two = seq![six_bits(a / 4, form)].push(six_bits(a % 4 * 16 + b / 16, form));
        let three = two.push(six_bits(b % 16 * 4 + c / 64, form));
        if bytes.len() == 1 {
            two + padding(2, form)
        } else if bytes.len() == 2 {
            three + padding(1, form)
        } else {
            three.push(six_bits(c % 64, form)) + base64_form(
                bytes.subrange(3, bytes.len() as int),
                form,
            )
        }
    }
}

/// Whether a character may stand in a text in this notation.
pub open spec fn is_base64_char(c: char, form: Base64Form) -> bool {
    ||| 'A' <= c <= 'Z'
    ||| 'a' <= c <= 'z'
    ||| '0' <= c <= '9'
    ||| form is Standard && (c == '+' || c == '/' || c == '=')
    ||| form is Url && (c == '-' || c == '_')
}

/// The characters of six bits are those of the notation, and none is a padding mark.
proof fn lemma_six_bits(value: int, form: Base64Form)
    requires
        0 <= value < 64,
    ensures
        is_base64_char(six_bits(value, form), form),
        six_bits(value, form) != '=',
{
}

/// Every character of a text in this notation is one of its characters.
pub proof fn lemma_base64_chars(bytes: Seq<u8>, form: Base64Form)
    ensures
        forall|i: int|
            0 <= i < base64_form(bytes, form).len() ==> is_base64_char(
                #[trigger] base64_form(bytes, form)[i],
                form,
            ),
    decreases bytes.len(),
{
    if bytes.len() > 0 {
        let text = base64_form(bytes, form);
        let (a, b, c) = (byte_at(bytes, 0), byte_at(bytes, 1), byte_at(bytes, 2));
        lemma_six_bits(a / 4, form);
        lemma_six_bits(a % 4 * 16 + b / 16, form);
        lemma_six_bits(b % 16 * 4 + c / 64, form);
        lemma_six_bits(c % 64, form);
        if bytes.len() >= 3 {
            let rest = bytes.subrange(3, bytes.len() as int);
            lemma_base64_chars(rest, form);
            assert forall|i: int| 0 <= i < text.len() implies is_base64_char(
                #[trigger] text[i],
                form,
            ) by {
                if i >= 4 {
                    assert(text[i] == base64_form(rest, form)[i - 4]);
                }
            }
        }
    }
}

/// The first four characters of a text in this notation.
proof fn lemma_base64_head(bytes: Seq<u8>, form: Base64Form)
    requires
        bytes.len() > 0,
    ensures
        ({
            let text = base64_form(bytes, form);
            let (a, b, c) = (byte_at(bytes, 0), byte_at(bytes, 1), byte_at(bytes, 2));
            &&& text.len() >= 2
            &&& text[0] == six_bits(a / 4, form)
            &&& text[1] == six_bits(a % 4 * 16 + b / 16, form)
            &&& bytes.len() == 1 ==> if form is Standard {
                text.len() == 4 && text[2] == '='
            } else {
                text.len() == 2
            }
            &&& bytes.len() > 1 ==> text.len() > 2 && text[2] == six_bits(
                b % 16 * 4 + c / 64,
                form,
            ) && text[2] != '='
            &&& bytes.len() == 2 ==> if form is Standard {
                text.len() == 4 && text[3] == '='
            } else {
                text.len() == 3
            }
            &&& bytes.len() > 2 ==> text.len() > 3 && text[3] == six_bits(c % 64, form) && text[3]
                != '=' && text.subrange(4, text.len() as int) == base64_form(
                bytes.subrange(3, bytes.len() as int),
                form,
            )
        }),
{
    let text = base64_form(bytes, form);
    lemma_six_bits(byte_at(bytes, 1) % 16 * 4 + byte_at(bytes, 2) / 64, form);
    lemma_six_bits(byte_at(bytes, 2) % 64, form);
    if bytes.len() > 2 {
        assert(text.subrange(4, text.len() as int) =~= base64_form(
            bytes.subrange(3, bytes.len() as int),
            form,
        ));
    }
}

/// Six bits have a character of their own.
proof fn lemma_six_bits_differ(left: int, right: int, form: Base64Form)
    requires
        0 <= left < 64,
        0 <= right < 64,
        six_bits(left, form) == six_bits(right, form),
    ensures
        left == right,
{
}

/// Bytes with the same text in this notation are the same.
pub proof fn lemma_base64_is_read_one_way(left: Seq<u8>, right: Seq<u8>, form: Base64Form)
    requires
        base64_form(left, form) == base64_form(right, form),
    ensures
        left == right,
    decreases left.len(),
{
    if left.len() > 0 {
        lemma_base64_head(left, form);
    }
    if right.len() > 0 {
        lemma_base64_head(right, form);
    }
    if left.len() > 0 && right.len() > 0 {
        let (a, b, c) = (byte_at(left, 0), byte_at(left, 1), byte_at(left, 2));
        let (x, y, z) = (byte_at(right, 0), byte_at(right, 1), byte_at(right, 2));
        lemma_six_bits_differ(a / 4, x / 4, form);
        lemma_six_bits_differ(a % 4 * 16 + b / 16, x % 4 * 16 + y / 16, form);
        if left.len() > 1 {
            lemma_six_bits_differ(b % 16 * 4 + c / 64, y % 16 * 4 + z / 64, form);
        }
        if left.len() > 2 {
            lemma_six_bits_differ(c % 64, z % 64, form);
            let rest = left.subrange(3, left.len() as int);
            let other = right.subrange(3, right.len() as int);
            lemma_base64_is_read_one_way(rest, other, form);
            assert forall|i: int| 3 <= i < left.len() implies left[i] == right[i] by {
                assert(left[i] == rest[i - 3] && right[i] == other[i - 3]);
            }
            assert(left.len() == rest.len() + 3 && right.len() == other.len() + 3);
        }
    }
    assert(left =~= right);
}

/// The bytes that a text in this notation stands for.
pub open spec fn base64_content(text: Seq<char>, form: Base64Form) -> Option<Seq<u8>> {
    if exists|bytes: Seq<u8>| #[trigger] base64_form(bytes, form) == text {
        Some(choose|bytes: Seq<u8>| #[trigger] base64_form(bytes, form) == text)
    } else {
        None
    }
}

/// The text of some bytes is read back as these bytes.
pub proof fn lemma_base64_is_read_back(bytes: Seq<u8>, form: Base64Form)
    ensures
        base64_content(base64_form(bytes, form), form) == Some(bytes),
{
    let found = choose|found: Seq<u8>| #[trigger]
        base64_form(found, form) == base64_form(bytes, form);
    lemma_base64_is_read_one_way(found, bytes, form);
}

} // verus!
