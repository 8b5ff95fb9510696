//! Reading the fields of a keyed mapping.

use crate::error::{DecodeError, DecodeErrorView, Shape};
use crate::guid::{parse_braced_spec, Guid};
use crate::model::text_view;
use crate::key::Key;
use crate::node::{
    entries_view, field, first_keyed, has_key, keyed, lemma_field_at, repeated, Entry, EntryView,
    Node, NodeView,
};
use crate::scalars::{credits_spec, flag_spec, parse_course_credits, parse_flag};
use crate::text::{chars_of, same_chars};
use vstd::prelude::*;

verus! {

/// The value of a node that may be absent.
pub open spec fn node_view(node: Option<&Node>) -> Option<NodeView> {
    match node {
        Some(n) => Some(n@),
        None => None,
    }
}

/// The text of a value that must be there and must be a text.
pub open spec fn as_text(found: Option<NodeView>, key: Key) -> Result<Seq<char>, DecodeErrorView> {
    match found {
        None => Err(DecodeErrorView::MissingField(key)),
        Some(NodeView::Text(text)) => Ok(text),
        Some(_) => Err(DecodeErrorView::WrongType { key, expected: Shape::Text }),
    }
}

/// The text of a value that must be there and must be a text or null.
pub open spec fn as_optional_text(found: Option<NodeView>, key: Key) -> Result<
    Option<Seq<char>>,
    DecodeErrorView,
> {
    match found {
        None => Err(DecodeErrorView::MissingField(key)),
        Some(NodeView::Null) => Ok(None),
        Some(NodeView::Text(text)) => Ok(Some(text)),
        Some(_) => Err(DecodeErrorView::WrongType { key, expected: Shape::OptionalText }),
    }
}

/// The identifier of a value that must be there and must be a brace-wrapped identifier.
pub open spec fn as_guid(found: Option<NodeView>, key: Key) -> Result<Seq<u8>, DecodeErrorView> {
    match as_text(found, key) {
        Err(e) => Err(e),
        Ok(text) => match parse_braced_spec(text) {
            Ok(bytes) => Ok(bytes),
            Err(e) => Err(DecodeErrorView::Identifier(e)),
        },
    }
}

/// The credits range of a value that must be there and must be a credits text.
pub open spec fn as_credits(found: Option<NodeView>, key: Key) -> Result<
    (u8, Option<u8>),
    DecodeErrorView,
> {
    match as_text(found, key) {
        Err(e) => Err(e),
        Ok(text) => match credits_spec(text) {
            Some(range) => Ok(range),
            None => Err(DecodeErrorView::InvalidCredits(text)),
        },
    }
}

/// The flag of a value that must be there and must be one of the two flag words.
pub open spec fn as_flag(found: Option<NodeView>, key: Key) -> Result<bool, DecodeErrorView> {
    match as_text(found, key) {
        Err(e) => Err(e),
        Ok(text) => match flag_spec(text) {
            Some(flag) => Ok(flag),
            None => Err(DecodeErrorView::InvalidFlag(text)),
        },
    }
}

/// The text under a key that must be there and must hold a text.
pub open spec fn text_field(entries: Seq<EntryView>, key: Key) -> Result<
    Seq<char>,
    DecodeErrorView,
> {
    as_text(field(entries, key.name_spec()), key)
}

/// The text under a key that must be there and must hold a text or null.
pub open spec fn optional_text_field(entries: Seq<EntryView>, key: Key) -> Result<
    Option<Seq<char>>,
    DecodeErrorView,
> {
    as_optional_text(field(entries, key.name_spec()), key)
}

/// The identifier under a key that must be there and must hold a brace-wrapped identifier.
pub open spec fn guid_field(entries: Seq<EntryView>, key: Key) -> Result<
    Seq<u8>,
    DecodeErrorView,
> {
    as_guid(field(entries, key.name_spec()), key)
}

/// The credits range under a key that must be there and must hold a credits text.
pub open spec fn credits_field(entries: Seq<EntryView>, key: Key) -> Result<
    (u8, Option<u8>),
    DecodeErrorView,
> {
    as_credits(field(entries, key.name_spec()), key)
}

/// The flag under a key that must be there and must hold one of the two flag words.
pub open spec fn flag_field(entries: Seq<EntryView>, key: Key) -> Result<bool, DecodeErrorView> {
    as_flag(field(entries, key.name_spec()), key)
}

/// Finds the value under `key`. A key that occurs more than once is refused, whatever its
/// values hold.
pub fn locate<'a>(entries: &'a Vec<Entry>, key: Key) -> (r: Result<Option<&'a Node>, DecodeError>)
    ensures
        match r {
            Ok(found) => !repeated(entries_view(entries@), key.name_spec()) && node_view(found)
                == field(entries_view(entries@), key.name_spec()),
            Err(e) => repeated(entries_view(entries@), key.name_spec()) && e@
                == DecodeErrorView::DuplicateField(key),
        },
{
    let ghost view = entries_view(entries@);
    let ghost name = key.name_spec();
    let spelled = chars_of(key.name());
    let mut found: Option<usize> = None;
    let mut i: usize = 0;
    while i < entries.len()
        invariant
            i <= entries.len(),
            view == entries_view(entries@),
            name == key.name_spec(),
            spelled@ == name,
            match found {
                None => forall|j: int| 0 <= j < i ==> !keyed(view, j, name),
                Some(f) => f < i && keyed(view, f as int, name) && forall|j: int|
                    0 <= j < i && j != f ==> !keyed(view, j, name),
            },
        decreases entries.len() - i,
    {
        assert(view[i as int].key == entries@[i as int].key@);
        if same_chars(&chars_of(entries[i].key.as_str()), &spelled) {
            match found {
                Some(f) => {
                    assert(keyed(view, f as int, name) && keyed(view, i as int, name));
                    return Err(DecodeError::DuplicateField(key));
                },
                None => {
                    found = Some(i);
                },
            }
        }
        i = i + 1;
    }
    match found {
        None => {
            assert(!has_key(view, name));
            Ok(None)
        },
        Some(f) => {
            proof {
                assert(first_keyed(view, f as int, name));
                lemma_field_at(view, f as int, name);
                assert(view[f as int].value == entries@[f as int].value@);
            }
            Ok(Some(&entries[f].value))
        },
    }
}

/// The text of a located value, which must be there and must be a text.
pub fn required_str<'a>(found: Option<&'a Node>, key: Key) -> (r: Result<&'a str, DecodeError>)
    ensures
        match r {
            Ok(text) => as_text(node_view(found), key) == Ok::<_, DecodeErrorView>(text@),
            Err(e) => as_text(node_view(found), key) == Err::<Seq<char>, _>(e@),
        },
{
    match found {
        None => Err(DecodeError::MissingField(key)),
        Some(Node::Text(text)) => Ok(text.as_str()),
        Some(_) => Err(DecodeError::WrongType { key, expected: Shape::Text }),
    }
}

/// A copy of the text of a located value, which must be there and must be a text.
pub fn required_text(found: Option<&Node>, key: Key) -> (r: Result<String, DecodeError>)
    ensures
        match r {
            Ok(text) => as_text(node_view(found), key) == Ok::<_, DecodeErrorView>(text@),
            Err(e) => as_text(node_view(found), key) == Err::<Seq<char>, _>(e@),
        },
{
    match required_str(found, key) {
        Ok(text) => Ok(text.to_owned()),
        Err(e) => Err(e),
    }
}

/// A copy of the text of a located value, which must be there and must be a text or null.
pub fn optional_text(found: Option<&Node>, key: Key) -> (r: Result<Option<String>, DecodeError>)
    ensures
        match r {
            Ok(text) => as_optional_text(node_view(found), key) == Ok::<_, DecodeErrorView>(
                text_view(text),
            ),
            Err(e) => as_optional_text(node_view(found), key) == Err::<Option<Seq<char>>, _>(e@),
        },
{
    match found {
        None => Err(DecodeError::MissingField(key)),
        Some(Node::Null) => Ok(None),
        Some(Node::Text(text)) => Ok(Some(text.clone())),
        Some(_) => Err(DecodeError::WrongType { key, expected: Shape::OptionalText }),
    }
}

/// The identifier of a located value, which must be there and must be a brace-wrapped
/// identifier.
pub fn required_guid(found: Option<&Node>, key: Key) -> (r: Result<Guid, DecodeError>)
    ensures
        match r {
            Ok(guid) => as_guid(node_view(found), key) == Ok::<_, DecodeErrorView>(guid@),
            Err(e) => as_guid(node_view(found), key) == Err::<Seq<u8>, _>(e@),
        },
{
    let text = match required_str(found, key) {
        Ok(text) => text,
        Err(e) => {
            return Err(e);
        },
    };
    match Guid::from_braced(text) {
        Ok(guid) => Ok(guid),
        Err(e) => Err(DecodeError::Identifier(e)),
    }
}

/// The credits range of a located value, which must be there and must be a credits text.
pub fn required_credits(found: Option<&Node>, key: Key) -> (r: Result<
    (u8, Option<u8>),
    DecodeError,
>)
    ensures
        match r {
            Ok(range) => as_credits(node_view(found), key) == Ok::<_, DecodeErrorView>(range),
            Err(e) => as_credits(node_view(found), key) == Err::<(u8, Option<u8>), _>(e@),
        },
{
    let text = match required_str(found, key) {
        Ok(text) => text,
        Err(e) => {
            return Err(e);
        },
    };
    parse_course_credits(text)
}

/// The flag of a located value, which must be there and must be one of the two flag words.
pub fn required_flag(found: Option<&Node>, key: Key) -> (r: Result<bool, DecodeError>)
    ensures
        match r {
            Ok(flag) => as_flag(node_view(found), key) == Ok::<_, DecodeErrorView>(flag),
            Err(e) => as_flag(node_view(found), key) == Err::<bool, _>(e@),
        },
{
    let text = match required_str(found, key) {
        Ok(text) => text,
        Err(e) => {
            return Err(e);
        },
    };
    parse_flag(text)
}

} // verus!
