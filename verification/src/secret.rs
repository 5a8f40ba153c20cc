//! Credential fields for the transport.
use crate::model::{field_named, SecretMaterial};
use crate::text::{names_of, optional_str};
use vstd::prelude::*;

verus! {

/// The text under a name, where it is not empty.
pub open spec fn filled_field(fields: Seq<(Seq<char>, Seq<char>)>, name: Seq<char>) -> Option<
    Seq<char>,
> {
    match field_named(fields, name) {
        Some(content) if content.len() > 0 => Some(content),
        _ => None,
    }
}

/// The text under the first of some names that has one.
pub open spec fn first_filled(
    fields: Seq<(Seq<char>, Seq<char>)>,
    names: Seq<Seq<char>>,
) -> Option<Seq<char>>
    decreases names.len(),
{
    if names.len() == 0 {
        None
    } else {
        match filled_field(fields, names[0]) {
            Some(content) => Some(content),
            None => first_filled(fields, names.subrange(1, names.len() as int)),
        }
    }
}

/// The text under the referenced name where it has one, otherwise under the first of the other
/// names that has one.
pub open spec fn tls_value(
    fields: Seq<(Seq<char>, Seq<char>)>,
    reference: Option<Seq<char>>,
    fallbacks: Seq<Seq<char>>,
) -> Option<Seq<char>> {
    match reference {
        Some(name) => match filled_field(fields, name) {
            Some(content) => Some(content),
            None => first_filled(fields, fallbacks),
        },
        None => first_filled(fields, fallbacks),
    }
}

/// The text under a name, where it is not empty.
pub fn filled<'a>(secret: &'a SecretMaterial, name: &str) -> (result: Option<&'a str>)
    ensures
        optional_str(result) == filled_field(secret.fields@, name@),
{
    match secret.fields.get(name) {
        Some(content) => if content.is_empty() {
            None
        } else {
            Some(content)
        },
        None => None,
    }
}

/// The text under the first of some names that has one.
pub fn find_filled<'a>(secret: &'a SecretMaterial, names: &[&str]) -> (result: Option<&'a str>)
    ensures
        optional_str(result) == first_filled(secret.fields@, names_of(names@)),
{
    let ghost all = names_of(names@);
    let mut i: usize = 0;
    assert(all.subrange(0, all.len() as int) =~= all);
    while i < names.len()
        invariant
            i <= names@.len(),
            all == names_of(names@),
            first_filled(secret.fields@, all) == first_filled(
                secret.fields@,
                all.subrange(i as int, all.len() as int),
            ),
        decreases names@.len() - i,
    {
        let ghost rest = all.subrange(i as int, all.len() as int);
        assert(rest[0] == names@[i as int]@);
        assert(rest.subrange(1, rest.len() as int) =~= all.subrange(i + 1, all.len() as int));
        let found = filled(secret, names[i]);
        if found.is_some() {
            return found;
        }
        i = i + 1;
    }
    None
}

/// The text under the referenced name, or under the first of the other names that has one.
pub fn tls_secret_value<'a>(
    secret: &'a SecretMaterial,
    reference: Option<&str>,
    fallbacks: &[&str],
) -> (result: Option<&'a str>)
    ensures
        optional_str(result) == tls_value(
            secret.fields@,
            optional_str(reference),
            names_of(fallbacks@),
        ),
{
    match reference {
        Some(name) => match filled(secret, name) {
            Some(content) => Some(content),
            None => find_filled(secret, fallbacks),
        },
        None => find_filled(secret, fallbacks),
    }
}

} // verus!
