//! Decoding of the full record of a course, and of identifiers that stand inside nodes.
//!
//! The two credit numbers of a course record are written as decimal texts. Turning such a
//! text into a number is left to the caller: a record is first decoded into a draft that
//! keeps the two texts, and the draft is finished with the numbers that the caller read
//! from them.

use crate::courses::repeated_or;
use crate::error::{decoded, DecodeError, DecodeErrorView, Shape};
use crate::guid::{parse_braced_spec, parse_spec, Guid};
use crate::key::Key;
use crate::model::{guid_view, text_view, CourseDetails, CourseDetailsView};
use crate::node::{entries_view, field, lemma_object_view, repeated, EntryView, Node, NodeView};
use crate::record::{
    guid_field, locate, optional_text, optional_text_field, required_guid, required_text,
    text_field,
};
use vstd::prelude::*;

verus! {

/// The identifier that a text node holds.
pub open spec fn guid_node_spec(n: NodeView) -> Result<Seq<u8>, DecodeErrorView> {
    match n {
        NodeView::Text(text) => match parse_spec(text) {
            Ok(bytes) => Ok(bytes),
            Err(x) => Err(DecodeErrorView::Identifier(x)),
        },
        _ => Err(DecodeErrorView::WrongShape { expected: Shape::Text }),
    }
}

/// The identifier that a text node holds between braces.
pub open spec fn braced_guid_node_spec(n: NodeView) -> Result<Seq<u8>, DecodeErrorView> {
    match n {
        NodeView::Text(text) => match parse_braced_spec(text) {
            Ok(bytes) => Ok(bytes),
            Err(x) => Err(DecodeErrorView::Identifier(x)),
        },
        _ => Err(DecodeErrorView::WrongShape { expected: Shape::Text }),
    }
}

/// What looking a key up in a value finds.
#[derive(PartialEq, Eq, Debug)]
pub enum Found {
    /// The value is no keyed mapping.
    NotAnObject,
    /// The mapping has no such key.
    Missing,
    /// The key holds something that is no text.
    NotText,
    /// The key holds this text.
    Text(String),
}

/// The mathematical value of [`Found`].
pub enum FoundView {
    /// The value is no keyed mapping.
    NotAnObject,
    /// The mapping has no such key.
    Missing,
    /// The key holds something that is no text.
    NotText,
    /// The key holds this text.
    Text(Seq<char>),
}

impl View for Found {
    type V = FoundView;

    open spec fn view(&self) -> FoundView {
        match self {
            Found::NotAnObject => FoundView::NotAnObject,
            Found::Missing => FoundView::Missing,
            Found::NotText => FoundView::NotText,
            Found::Text(text) => FoundView::Text(text@),
        }
    }
}

/// What looking a key up in a node finds.
pub open spec fn found_in(n: NodeView, key: Key) -> FoundView {
    match n {
        NodeView::Object(e) => match field(e, key.name_spec()) {
            None => FoundView::Missing,
            Some(NodeView::Text(text)) => FoundView::Text(text),
            Some(_) => FoundView::NotText,
        },
        _ => FoundView::NotAnObject,
    }
}

/// The identifier of a requisite, given what was found under its key `GUID`: the key must
/// be there and hold a brace-wrapped identifier.
pub open spec fn requisite_of(found: FoundView) -> Result<Seq<u8>, DecodeErrorView> {
    match found {
        FoundView::NotAnObject => Err(DecodeErrorView::WrongShape { expected: Shape::Object }),
        FoundView::Missing => Err(DecodeErrorView::MissingField(Key::UpperGuid)),
        FoundView::NotText => Err(
            DecodeErrorView::WrongType { key: Key::UpperGuid, expected: Shape::Text },
        ),
        FoundView::Text(text) => match parse_braced_spec(text) {
            Ok(bytes) => Ok(bytes),
            Err(x) => Err(DecodeErrorView::Identifier(x)),
        },
    }
}

/// The identifier of a requisite: the node must be a mapping whose key `GUID` occurs once
/// and holds a brace-wrapped identifier; whatever else the mapping holds is not looked at.
pub open spec fn requisite_spec(n: NodeView) -> Result<Seq<u8>, DecodeErrorView> {
    match n {
        NodeView::Object(e) => if repeated(e, Key::UpperGuid.name_spec()) {
            Err(DecodeErrorView::DuplicateField(Key::UpperGuid))
        } else {
            requisite_of(found_in(n, Key::UpperGuid))
        },
        _ => requisite_of(found_in(n, Key::UpperGuid)),
    }
}

/// The type `serde_json::Value`, a JSON value. It is carried through unopened: nothing is
/// claimed of what is inside a value but what `json_lookup` states.
#[verifier::external_type_specification]
#[verifier::external_body]
pub struct ExJsonValue(serde_json::Value);

/// Whether a JSON value is an object, that is, the variant `Object` of `serde_json::Value`.
pub uninterp spec fn json_is_object(value: serde_json::Value) -> bool;

/// What the members of a JSON object hold, by key: the text of a member that is a string,
/// and `None` for a member that is anything else.
pub uninterp spec fn json_members(value: serde_json::Value) -> Map<
    Seq<char>,
    Option<Seq<char>>,
>;

/// What looking a key up in a JSON value finds.
pub open spec fn json_found(value: serde_json::Value, key: Seq<char>) -> FoundView {
    if !json_is_object(value) {
        FoundView::NotAnObject
    } else if !json_members(value).dom().contains(key) {
        FoundView::Missing
    } else {
        match json_members(value)[key] {
            Some(text) => FoundView::Text(text),
            None => FoundView::NotText,
        }
    }
}

/// Looks a key up in a JSON value with `serde_json::Map::get`, which returns the member
/// under the key where the object has one and nothing where it has none.
///
/// The contract is not proved. It claims that the outcome is told by the value and the
/// key alone: a value that is no object gives `NotAnObject`; in an object, a key without a
/// member gives `Missing`, a member that is a string gives its text, and any other member
/// gives `NotText`.
#[verifier::external_body]
fn json_lookup(value: &serde_json::Value, key: &str) -> (found: Found)
    ensures
        !json_is_object(*value) ==> found@ == FoundView::NotAnObject,
        json_is_object(*value) && !json_members(*value).dom().contains(key@) ==> found@
            == FoundView::Missing,
        json_is_object(*value) && json_members(*value).dom().contains(key@) ==> found@
            == match json_members(*value)[key@] {
            Some(text) => FoundView::Text(text),
            None => FoundView::NotText,
        },
{
    match value {
        serde_json::Value::Object(map) => match map.get(key) {
            Some(serde_json::Value::String(text)) => Found::Text(text.clone()),
            Some(_) => Found::NotText,
            None => Found::Missing,
        },
        _ => Found::NotAnObject,
    }
}

/// The identifier that stands in a mapping, as the one identifier that there is: the node
/// must be a mapping whose key `GUID` occurs once and holds a brace-wrapped identifier. A
/// missing key, and a key that holds null or anything else that is no text, are refused
/// as they are for a requisite; no mapping gives `None`.
pub open spec fn optional_requisite_spec(n: NodeView) -> Result<Option<Seq<u8>>, DecodeErrorView> {
    match requisite_spec(n) {
        Ok(bytes) => Ok(Some(bytes)),
        Err(x) => Err(x),
    }
}

impl Guid {
    /// Decodes an identifier from a text node.
    pub fn decode(node: &Node) -> (r: Result<Guid, DecodeError>)
        ensures
            decoded(r) == guid_node_spec(node@),
    {
        match node {
            Node::Text(text) => match Guid::try_from(text.as_str()) {
                Ok(guid) => Ok(guid),
                Err(e) => Err(DecodeError::Identifier(e)),
            },
            _ => Err(DecodeError::WrongShape { expected: Shape::Text }),
        }
    }

    /// Decodes an identifier from a text node that wraps it in braces.
    pub fn decode_braced(node: &Node) -> (r: Result<Guid, DecodeError>)
        ensures
            decoded(r) == braced_guid_node_spec(node@),
    {
        match node {
            Node::Text(text) => match Guid::from_braced(text.as_str()) {
                Ok(guid) => Ok(guid),
                Err(e) => Err(DecodeError::Identifier(e)),
            },
            _ => Err(DecodeError::WrongShape { expected: Shape::Text }),
        }
    }
}

/// The identifier of a requisite, given what was found under its key `GUID`.
pub fn requisite_from(found: Found) -> (r: Result<Guid, DecodeError>)
    ensures
        decoded(r) == requisite_of(found@),
{
    match found {
        Found::NotAnObject => Err(DecodeError::WrongShape { expected: Shape::Object }),
        Found::Missing => Err(DecodeError::MissingField(Key::UpperGuid)),
        Found::NotText => Err(
            DecodeError::WrongType { key: Key::UpperGuid, expected: Shape::Text },
        ),
        Found::Text(text) => match Guid::from_braced(text.as_str()) {
            Ok(guid) => Ok(guid),
            Err(e) => Err(DecodeError::Identifier(e)),
        },
    }
}

/// Takes the identifier out of a requisite that is held as a JSON value, whose shape is
/// otherwise not modelled: the value must be an object whose member `GUID` is a
/// brace-wrapped identifier.
pub fn extract_guid_from_requisite(requisite_json: &serde_json::Value) -> (r: Result<
    Guid,
    DecodeError,
>)
    ensures
        decoded(r) == requisite_of(json_found(*requisite_json, Key::UpperGuid.name_spec())),
{
    requisite_from(json_lookup(requisite_json, Key::UpperGuid.name()))
}

/// Takes the identifier out of a requisite that is held as a node, whose shape is
/// otherwise not modelled.
pub fn requisite_guid(node: &Node) -> (r: Result<Guid, DecodeError>)
    ensures
        decoded(r) == requisite_spec(node@),
{
    match node {
        Node::Object(entries) => {
            proof {
                lemma_object_view(*entries);
            }
            let found = match locate(entries, Key::UpperGuid) {
                Ok(found) => found,
                Err(e) => {
                    return Err(e);
                },
            };
            required_guid(found, Key::UpperGuid)
        },
        _ => Err(DecodeError::WrongShape { expected: Shape::Object }),
    }
}

/// Takes the identifier, and nothing else, out of a mapping whose shape is otherwise not
/// modelled. The identifier must be there: a mapping without the key `GUID`, and one whose
/// `GUID` holds null or anything else that is no text, is refused, and so is a node that is
/// no mapping. What is returned on success always holds an identifier.
pub fn extract_guid_only(node: &Node) -> (r: Result<Option<Guid>, DecodeError>)
    ensures
        match r {
            Ok(guid) => optional_requisite_spec(node@) == Ok::<_, DecodeErrorView>(guid_view(guid)),
            Err(e) => optional_requisite_spec(node@) == Err::<Option<Seq<u8>>, _>(e@),
        },
        r matches Ok(guid) ==> guid is Some,
{
    match requisite_guid(node) {
        Ok(guid) => Ok(Some(guid)),
        Err(e) => Err(e),
    }
}

/// A course record in which the two credit numbers are still the texts of the document.
#[derive(PartialEq, Eq, Debug)]
pub struct CourseDetailsDraft {
    pub url: String,
    pub guid: Guid,
    pub path: String,
    pub subject_code: String,
    pub subject_name: Option<String>,
    pub number: String,
    pub name: String,
    /// The text of the least number of credits; `None` where the document has null.
    pub credits_min: Option<String>,
    /// The text of the greatest number of credits; `None` where the document has null.
    pub credits_max: Option<String>,
    pub description: String,
    pub prerequisite_narrative: Option<String>,
    pub prerequisite: Option<Guid>,
    pub corequisite_narrative: Option<String>,
    pub corequisite: Option<Guid>,
}

/// The mathematical value of a [`CourseDetailsDraft`].
pub struct CourseDetailsDraftView {
    pub url: Seq<char>,
    pub guid: Seq<u8>,
    pub path: Seq<char>,
    pub subject_code: Seq<char>,
    pub subject_name: Option<Seq<char>>,
    pub number: Seq<char>,
    pub name: Seq<char>,
    pub credits_min: Option<Seq<char>>,
    pub credits_max: Option<Seq<char>>,
    pub description: Seq<char>,
    pub prerequisite_narrative: Option<Seq<char>>,
    pub prerequisite: Option<Seq<u8>>,
    pub corequisite_narrative: Option<Seq<char>>,
    pub corequisite: Option<Seq<u8>>,
}

impl View for CourseDetailsDraft {
    type V = CourseDetailsDraftView;

    open spec fn view(&self) -> CourseDetailsDraftView {
        CourseDetailsDraftView {
            url: self.url@,
            guid: self.guid@,
            path: self.path@,
            subject_code: self.subject_code@,
            subject_name: text_view(self.subject_name),
            number: self.number@,
            name: self.name@,
            credits_min: text_view(self.credits_min),
            credits_max: text_view(self.credits_max),
            description: self.description@,
            prerequisite_narrative: text_view(self.prerequisite_narrative),
            prerequisite: guid_view(self.prerequisite),
            corequisite_narrative: text_view(self.corequisite_narrative),
            corequisite: guid_view(self.corequisite),
        }
    }
}

/// The first of the keys of a course record that occurs more than once.
pub open spec fn details_duplicate(e: Seq<EntryView>) -> Option<Key> {
    repeated_or(
        e,
        Key::Url,
        repeated_or(
            e,
            Key::UpperGuid,
            repeated_or(
                e,
                Key::Path,
                repeated_or(
                    e,
                    Key::SubjectCode,
                    repeated_or(
                        e,
                        Key::SubjectName,
                        repeated_or(e, Key::Number, repeated_or(e, Key::Name, credit_keys(e))),
                    ),
                ),
            ),
        ),
    )
}

/// The first of the later keys of a course record that occurs more than once.
pub open spec fn credit_keys(e: Seq<EntryView>) -> Option<Key> {
    repeated_or(
        e,
        Key::CreditsMin,
        repeated_or(
            e,
            Key::CreditsMax,
            repeated_or(
                e,
                Key::Description,
                repeated_or(
                    e,
                    Key::PrerequisiteNarrative,
                    repeated_or(
                        e,
                        Key::Prerequisite,
                        repeated_or(
                            e,
                            Key::CorequisiteNarrative,
                            repeated_or(e, Key::Corequisite, None),
                        ),
                    ),
                ),
            ),
        ),
    )
}

/// The identifier of the requisite under `key`, which may be missing.
pub open spec fn requisite_field(e: Seq<EntryView>, key: Key) -> Result<
    Option<Seq<u8>>,
    DecodeErrorView,
> {
    match field(e, key.name_spec()) {
        None => Ok(None),
        Some(value) => match requisite_spec(value) {
            Ok(bytes) => Ok(Some(bytes)),
            Err(x) => Err(x),
        },
    }
}

/// The draft that a node describes.
///
/// The node must be a mapping in which no recognised key occurs twice. Then each field is
/// read in turn, and the first that is missing or ill-formed decides the error. The two
/// requisites may be missing; every other key must be there.
pub open spec fn draft_spec(n: NodeView) -> Result<CourseDetailsDraftView, DecodeErrorView> {
    match n {
        NodeView::Object(e) => {
            let url = text_field(e, Key::Url);
            let path = text_field(e, Key::Path);
            let subject_code = text_field(e, Key::SubjectCode);
            let subject_name = optional_text_field(e, Key::SubjectName);
            let number = text_field(e, Key::Number);
            let name = text_field(e, Key::Name);
            let description = text_field(e, Key::Description);
            let prerequisite_narrative = optional_text_field(e, Key::PrerequisiteNarrative);
            let corequisite_narrative = optional_text_field(e, Key::CorequisiteNarrative);
            let credits_min = optional_text_field(e, Key::CreditsMin);
            let credits_max = optional_text_field(e, Key::CreditsMax);
            let prerequisite = requisite_field(e, Key::Prerequisite);
            let corequisite = requisite_field(e, Key::Corequisite);
            let guid = guid_field(e, Key::UpperGuid);
            if details_duplicate(e) is Some {
                Err(DecodeErrorView::DuplicateField(details_duplicate(e)->0))
            } else if url is Err {
                Err(url->Err_0)
            } else if path is Err {
                Err(path->Err_0)
            } else if subject_code is Err {
                Err(subject_code->Err_0)
            } else if subject_name is Err {
                Err(subject_name->Err_0)
            } else if number is Err {
                Err(number->Err_0)
            } else if name is Err {
                Err(name->Err_0)
            } else if description is Err {
                Err(description->Err_0)
            } else if prerequisite_narrative is Err {
                Err(prerequisite_narrative->Err_0)
            } else if corequisite_narrative is Err {
                Err(corequisite_narrative->Err_0)
            } else if credits_min is Err {
                Err(credits_min->Err_0)
            } else if credits_max is Err {
                Err(credits_max->Err_0)
            } else if prerequisite is Err {
                Err(prerequisite->Err_0)
            } else if corequisite is Err {
                Err(corequisite->Err_0)
            } else if guid is Err {
                Err(guid->Err_0)
            } else {
                Ok(
                    CourseDetailsDraftView {
                        url: url->Ok_0,
                        guid: guid->Ok_0,
                        path: path->Ok_0,
                        subject_code: subject_code->Ok_0,
                        subject_name: subject_name->Ok_0,
                        number: number->Ok_0,
                        name: name->Ok_0,
                        credits_min: credits_min->Ok_0,
                        credits_max: credits_max->Ok_0,
                        description: description->Ok_0,
                        prerequisite_narrative: prerequisite_narrative->Ok_0,
                        prerequisite: prerequisite->Ok_0,
                        corequisite_narrative: corequisite_narrative->Ok_0,
                        corequisite: corequisite->Ok_0,
                    },
                )
            }
        },
        _ => Err(DecodeErrorView::WrongShape { expected: Shape::Object }),
    }
}

/// The least number of credits: zero where the document has null, else the number that was
/// read from the text. A text from which no number could be read is refused.
pub open spec fn credits_min_spec(text: Option<Seq<char>>, floored: Option<u8>) -> Result<
    u8,
    DecodeErrorView,
> {
    match text {
        None => Ok(0u8),
        Some(t) => match floored {
            Some(v) => Ok(v),
            None => Err(DecodeErrorView::InvalidNumber(t)),
        },
    }
}

/// The greatest number of credits: none where the document has null, else the number that
/// was read from the text. A text from which no number could be read is refused.
pub open spec fn credits_max_spec(text: Option<Seq<char>>, floored: Option<u8>) -> Result<
    Option<u8>,
    DecodeErrorView,
> {
    match text {
        None => Ok(None),
        Some(t) => match floored {
            Some(v) => Ok(Some(v)),
            None => Err(DecodeErrorView::InvalidNumber(t)),
        },
    }
}

/// The course record that a draft becomes with the numbers read from its two credit texts.
pub open spec fn finish_spec(
    draft: CourseDetailsDraftView,
    floored_min: Option<u8>,
    floored_max: Option<u8>,
) -> Result<CourseDetailsView, DecodeErrorView> {
    let min = credits_min_spec(draft.credits_min, floored_min);
    let max = credits_max_spec(draft.credits_max, floored_max);
    if min is Err {
        Err(min->Err_0)
    } else if max is Err {
        Err(max->Err_0)
    } else {
        Ok(
            CourseDetailsView {
                url: draft.url,
                guid: draft.guid,
                path: draft.path,
                subject_code: draft.subject_code,
                subject_name: draft.subject_name,
                number: draft.number,
                name: draft.name,
                credits_min: min->Ok_0,
                credits_max: max->Ok_0,
                description: draft.description,
                prerequisite_narrative: draft.prerequisite_narrative,
                prerequisite: draft.prerequisite,
                corequisite_narrative: draft.corequisite_narrative,
                corequisite: draft.corequisite,
            },
        )
    }
}

/// Decodes the identifier of a requisite that may be missing.
fn optional_requisite(found: Option<&Node>) -> (r: Result<Option<Guid>, DecodeError>)
    ensures
        match r {
            Ok(guid) => match found {
                None => guid is None,
                Some(value) => guid is Some && requisite_spec(value@) == Ok::<
                    _,
                    DecodeErrorView,
                >(guid_view(guid)->0),
            },
            Err(e) => found matches Some(value) && requisite_spec(value@) == Err::<Seq<u8>, _>(e@),
        },
{
    match found {
        None => Ok(None),
        Some(value) => match requisite_guid(value) {
            Ok(guid) => Ok(Some(guid)),
            Err(e) => Err(e),
        },
    }
}

impl CourseDetails {
    /// Decodes a course record up to its two credit numbers, which are kept as texts.
    pub fn draft(node: &Node) -> (r: Result<CourseDetailsDraft, DecodeError>)
        ensures
            decoded(r) == draft_spec(node@),
    {
        let entries = match node {
            Node::Object(entries) => entries,
            _ => {
                return Err(DecodeError::WrongShape { expected: Shape::Object });
            },
        };
        proof {
            lemma_object_view(*entries);
        }
        let url = match locate(entries, Key::Url) {
            Ok(found) => found,
            Err(e) => {
                return Err(e);
            },
        };
        let guid = match locate(entries, Key::UpperGuid) {
            Ok(found) => found,
            Err(e) => {
                return Err(e);
            },
        };
        let path = match locate(entries, Key::Path) {
            Ok(found) => found,
            Err(e) => {
                return Err(e);
            },
        };
        let subject_code = match locate(entries, Key::SubjectCode) {
            Ok(found) => found,
            Err(e) => {
                return Err(e);
            },
        };
        let subject_name = match locate(entries, Key::SubjectName) {
            Ok(found) => found,
            Err(e) => {
                return Err(e);
            },
        };
        let number = match locate(entries, Key::Number) {
            Ok(found) => found,
            Err(e) => {
                return Err(e);
            },
        };
        let name = match locate(entries, Key::Name) {
            Ok(found) => found,
            Err(e) => {
                return Err(e);
            },
        };
        let credits_min = match locate(entries, Key::CreditsMin) {
            Ok(found) => found,
            Err(e) => {
                return Err(e);
            },
        };
        let credits_max = match locate(entries, Key::CreditsMax) {
            Ok(found) => found,
            Err(e) => {
                return Err(e);
            },
        };
        let description = match locate(entries, Key::Description) {
            Ok(found) => found,
            Err(e) => {
                return Err(e);
            },
        };
        let prerequisite_narrative = match locate(entries, Key::PrerequisiteNarrative) {
            Ok(found) => found,
            Err(e) => {
                return Err(e);
            },
        };
        let prerequisite = match locate(entries, Key::Prerequisite) {
            Ok(found) => found,
            Err(e) => {
                return Err(e);
            },
        };
        let corequisite_narrative = match locate(entries, Key::CorequisiteNarrative) {
            Ok(found) => found,
            Err(e) => {
                return Err(e);
            },
        };
        let corequisite = match locate(entries, Key::Corequisite) {
            Ok(found) => found,
            Err(e) => {
                return Err(e);
            },
        };
        assert(details_duplicate(entries_view(entries@)) is None);
        let url = match required_text(url, Key::Url) {
            Ok(v) => v,
            Err(e) => {
                return Err(e);
            },
        };
        let path = match required_text(path, Key::Path) {
            Ok(v) => v,
            Err(e) => {
                return Err(e);
            },
        };
        let subject_code = match required_text(subject_code, Key::SubjectCode) {
            Ok(v) => v,
            Err(e) => {
                return Err(e);
            },
        };
        let subject_name = match optional_text(subject_name, Key::SubjectName) {
            Ok(v) => v,
            Err(e) => {
                return Err(e);
            },
        };
        let number = match required_text(number, Key::Number) {
            Ok(v) => v,
            Err(e) => {
                return Err(e);
            },
        };
        let name = match required_text(name, Key::Name) {
            Ok(v) => v,
            Err(e) => {
                return Err(e);
            },
        };
        let description = match required_text(description, Key::Description) {
            Ok(v) => v,
            Err(e) => {
                return Err(e);
            },
        };
        let prerequisite_narrative = match optional_text(
            prerequisite_narrative,
            Key::PrerequisiteNarrative,
        ) {
            Ok(v) => v,
            Err(e) => {
                return Err(e);
            },
        };
        let corequisite_narrative = match optional_text(
            corequisite_narrative,
            Key::CorequisiteNarrative,
        ) {
            Ok(v) => v,
            Err(e) => {
                return Err(e);
            },
        };
        let credits_min = match optional_text(credits_min, Key::CreditsMin) {
            Ok(v) => v,
            Err(e) => {
                return Err(e);
            },
        };
        let credits_max = match optional_text(credits_max, Key::CreditsMax) {
            Ok(v) => v,
            Err(e) => {
                return Err(e);
            },
        };
        let prerequisite = match optional_requisite(prerequisite) {
            Ok(v) => v,
            Err(e) => {
                return Err(e);
            },
        };
        let corequisite = match optional_requisite(corequisite) {
            Ok(v) => v,
            Err(e) => {
                return Err(e);
            },
        };
        let guid = match required_guid(guid, Key::UpperGuid) {
            Ok(v) => v,
            Err(e) => {
                return Err(e);
            },
        };
        Ok(
            CourseDetailsDraft {
                url,
                guid,
                path,
                subject_code,
                subject_name,
                number,
                name,
                credits_min,
                credits_max,
                description,
                prerequisite_narrative,
                prerequisite,
                corequisite_narrative,
                corequisite,
            },
        )
    }
}

impl CourseDetailsDraft {
    /// Finishes the record with the numbers that were read from its two credit texts.
    ///
    /// `floored_min` is the number read from the text of the least credits, `floored_max`
    /// that read from the text of the greatest, each `None` where the text holds no number
    /// of 8 bits. Neither is looked at where the record has no such text. A missing least
    /// number counts as zero; a missing greatest number stays missing.
    pub fn finish(self, floored_min: Option<u8>, floored_max: Option<u8>) -> (r: Result<
        CourseDetails,
        DecodeError,
    >)
        ensures
            decoded(r) == finish_spec(self@, floored_min, floored_max),
    {
        let credits_min = match self.credits_min {
            None => 0,
            Some(text) => match floored_min {
                Some(v) => v,
                None => {
                    return Err(DecodeError::InvalidNumber(text));
                },
            },
        };
        let credits_max = match self.credits_max {
            None => None,
            Some(text) => match floored_max {
                Some(v) => Some(v),
                None => {
                    return Err(DecodeError::InvalidNumber(text));
                },
            },
        };
        Ok(
            CourseDetails {
                url: self.url,
                guid: self.guid,
                path: self.path,
                subject_code: self.subject_code,
                subject_name: self.subject_name,
                number: self.number,
                name: self.name,
                credits_min,
                credits_max,
                description: self.description,
                prerequisite_narrative: self.prerequisite_narrative,
                prerequisite: self.prerequisite,
                corequisite_narrative: self.corequisite_narrative,
                corequisite: self.corequisite,
            },
        )
    }
}

} // verus!
