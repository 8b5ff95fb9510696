//! A course record is read back from the mapping that it is written as.

use crate::details::{
    details_duplicate, draft_spec, finish_spec, requisite_field, requisite_spec,
    CourseDetailsDraftView,
};
use crate::encode::{details_entries_of, requisite_node};
use crate::error::DecodeErrorView;
use crate::guid_laws::lemma_parse_braced_format;
use crate::key::Key;
use crate::key_laws::{keyed_by, lemma_not_written, lemma_written_once};
use crate::model::CourseDetailsView;
use crate::node::{field, repeated, NodeView};
use crate::record::{guid_field, optional_text_field, text_field};
use crate::scalars::decimal_text;
use vstd::prelude::*;

verus! {

/// A course record whose identifiers have 16 bytes.
pub open spec fn canonical_details(d: CourseDetailsView) -> bool {
    &&& d.guid.len() == 16
    &&& d.prerequisite matches Some(guid) ==> guid.len() == 16
    &&& d.corequisite matches Some(guid) ==> guid.len() == 16
}

/// The draft of a course record as it is written: the two credit numbers are decimal texts.
pub open spec fn draft_of(d: CourseDetailsView) -> CourseDetailsDraftView {
    CourseDetailsDraftView {
        url: d.url,
        guid: d.guid,
        path: d.path,
        subject_code: d.subject_code,
        subject_name: d.subject_name,
        number: d.number,
        name: d.name,
        credits_min: Some(decimal_text(d.credits_min as nat)),
        credits_max: match d.credits_max {
            Some(v) => Some(decimal_text(v as nat)),
            None => None,
        },
        description: d.description,
        prerequisite_narrative: d.prerequisite_narrative,
        prerequisite: d.prerequisite,
        corequisite_narrative: d.corequisite_narrative,
        corequisite: d.corequisite,
    }
}

/// The keys with which a course record is written, in the order in which they are written.
pub open spec fn details_keys(d: CourseDetailsView) -> Seq<Key> {
    seq![
        Key::Url,
        Key::UpperGuid,
        Key::Path,
        Key::SubjectCode,
        Key::SubjectName,
        Key::Number,
        Key::Name,
        Key::CreditsMin,
        Key::CreditsMax,
        Key::Description,
        Key::PrerequisiteNarrative,
        Key::CorequisiteNarrative,
    ] + (if d.prerequisite is Some {
        seq![Key::Prerequisite]
    } else {
        Seq::empty()
    }) + (if d.corequisite is Some {
        seq![Key::Corequisite]
    } else {
        Seq::empty()
    })
}

/// The mapping that a requisite is written as is read back as its identifier.
pub proof fn lemma_requisite_round_trip(guid: Seq<u8>)
    requires
        guid.len() == 16,
    ensures
        requisite_spec(requisite_node(guid)) == Ok::<_, DecodeErrorView>(guid),
{
    let e = requisite_node(guid)->Object_0;
    let keys = seq![Key::UpperGuid];
    assert(keyed_by(e, keys));
    assert(keys.no_duplicates());
    lemma_written_once(e, keys, 0);
    lemma_parse_braced_format(guid);
}

/// The mapping that a course record is written as is written with the keys of the record,
/// none of them twice.
proof fn lemma_details_shape(d: CourseDetailsView)
    ensures
        keyed_by(details_entries_of(d), details_keys(d)),
        details_keys(d).no_duplicates(),
        12 <= details_keys(d).len() <= 14,
{
}

/// In the mapping that a course record is written as, the key at each position stands
/// once, with the value at that position under it.
proof fn lemma_details_at(d: CourseDetailsView, i: int)
    requires
        0 <= i < details_keys(d).len(),
    ensures
        !repeated(details_entries_of(d), details_keys(d)[i].name_spec()),
        field(details_entries_of(d), details_keys(d)[i].name_spec()) == Some(
            details_entries_of(d)[i].value,
        ),
{
    lemma_details_shape(d);
    lemma_written_once(details_entries_of(d), details_keys(d), i);
}

/// What the mapping of a course record holds under the key of a requisite.
proof fn lemma_details_requisites(d: CourseDetailsView)
    requires
        canonical_details(d),
    ensures
        !repeated(details_entries_of(d), Key::Prerequisite.name_spec()),
        !repeated(details_entries_of(d), Key::Corequisite.name_spec()),
        requisite_field(details_entries_of(d), Key::Prerequisite) == Ok::<_, DecodeErrorView>(
            d.prerequisite,
        ),
        requisite_field(details_entries_of(d), Key::Corequisite) == Ok::<_, DecodeErrorView>(
            d.corequisite,
        ),
{
    let e = details_entries_of(d);
    let keys = details_keys(d);
    lemma_details_shape(d);
    match d.prerequisite {
        Some(guid) => {
            assert(keys[12] == Key::Prerequisite);
            lemma_details_at(d, 12);
            assert(e[12].value == requisite_node(guid));
            lemma_requisite_round_trip(guid);
        },
        None => {
            assert(!keys.contains(Key::Prerequisite));
            lemma_not_written(e, keys, Key::Prerequisite);
        },
    }
    match d.corequisite {
        Some(guid) => {
            let last = keys.len() - 1;
            assert(keys[last] == Key::Corequisite);
            lemma_details_at(d, last);
            assert(e[last].value == requisite_node(guid));
            lemma_requisite_round_trip(guid);
        },
        None => {
            assert(!keys.contains(Key::Corequisite));
            lemma_not_written(e, keys, Key::Corequisite);
        },
    }
}

/// What the mapping of a course record holds under the keys that are always written.
proof fn lemma_details_fields(d: CourseDetailsView)
    requires
        canonical_details(d),
    ensures
        text_field(details_entries_of(d), Key::Url) == Ok::<_, DecodeErrorView>(d.url),
        guid_field(details_entries_of(d), Key::UpperGuid) == Ok::<_, DecodeErrorView>(d.guid),
        text_field(details_entries_of(d), Key::Path) == Ok::<_, DecodeErrorView>(d.path),
        text_field(details_entries_of(d), Key::SubjectCode) == Ok::<_, DecodeErrorView>(
            d.subject_code,
        ),
        optional_text_field(details_entries_of(d), Key::SubjectName) == Ok::<_, DecodeErrorView>(
            d.subject_name,
        ),
        text_field(details_entries_of(d), Key::Number) == Ok::<_, DecodeErrorView>(d.number),
        text_field(details_entries_of(d), Key::Name) == Ok::<_, DecodeErrorView>(d.name),
        optional_text_field(details_entries_of(d), Key::CreditsMin) == Ok::<_, DecodeErrorView>(
            draft_of(d).credits_min,
        ),
        optional_text_field(details_entries_of(d), Key::CreditsMax) == Ok::<_, DecodeErrorView>(
            draft_of(d).credits_max,
        ),
        text_field(details_entries_of(d), Key::Description) == Ok::<_, DecodeErrorView>(
            d.description,
        ),
        optional_text_field(details_entries_of(d), Key::PrerequisiteNarrative) == Ok::<
            _,
            DecodeErrorView,
        >(d.prerequisite_narrative),
        optional_text_field(details_entries_of(d), Key::CorequisiteNarrative) == Ok::<
            _,
            DecodeErrorView,
        >(d.corequisite_narrative),
{
    lemma_details_shape(d);
    lemma_details_at(d, 0);
    lemma_details_at(d, 1);
    lemma_details_at(d, 2);
    lemma_details_at(d, 3);
    lemma_details_at(d, 4);
    lemma_details_at(d, 5);
    lemma_details_at(d, 6);
    lemma_details_at(d, 7);
    lemma_details_at(d, 8);
    lemma_details_at(d, 9);
    lemma_details_at(d, 10);
    lemma_details_at(d, 11);
    lemma_parse_braced_format(d.guid);
}

/// In the mapping that a course record is written as, no recognised key stands twice.
proof fn lemma_details_once(d: CourseDetailsView, key: Key)
    ensures
        !repeated(details_entries_of(d), key.name_spec()),
{
    let e = details_entries_of(d);
    let keys = details_keys(d);
    lemma_details_shape(d);
    if keys.contains(key) {
        let i = choose|i: int| 0 <= i < keys.len() && keys[i] == key;
        lemma_written_once(e, keys, i);
    } else {
        lemma_not_written(e, keys, key);
    }
}

/// In the mapping that a course record is written as, no key of the record stands twice.
proof fn lemma_details_unique(d: CourseDetailsView)
    ensures
        details_duplicate(details_entries_of(d)) is None,
{
    lemma_details_once(d, Key::Url);
    lemma_details_once(d, Key::UpperGuid);
    lemma_details_once(d, Key::Path);
    lemma_details_once(d, Key::SubjectCode);
    lemma_details_once(d, Key::SubjectName);
    lemma_details_once(d, Key::Number);
    lemma_details_once(d, Key::Name);
    lemma_details_once(d, Key::CreditsMin);
    lemma_details_once(d, Key::CreditsMax);
    lemma_details_once(d, Key::Description);
    lemma_details_once(d, Key::PrerequisiteNarrative);
    lemma_details_once(d, Key::Prerequisite);
    lemma_details_once(d, Key::CorequisiteNarrative);
    lemma_details_once(d, Key::Corequisite);
}

/// The mapping that a canonical course record is written as is read back as the draft of
/// that record, and the draft is finished to the record by the numbers that its decimal
/// texts denote.
pub proof fn lemma_details_round_trip(d: CourseDetailsView)
    requires
        canonical_details(d),
    ensures
        draft_spec(NodeView::Object(details_entries_of(d))) == Ok::<_, DecodeErrorView>(
            draft_of(d),
        ),
        finish_spec(draft_of(d), Some(d.credits_min), d.credits_max) == Ok::<
            _,
            DecodeErrorView,
        >(d),
{
    lemma_details_unique(d);
    lemma_details_fields(d);
    lemma_details_requisites(d);
}

/// A course record that was decoded is canonical.
pub proof fn lemma_details_canonical(n: NodeView, floored_min: Option<u8>, floored_max: Option<u8>)
    requires
        draft_spec(n) is Ok,
        finish_spec(draft_spec(n)->Ok_0, floored_min, floored_max) is Ok,
    ensures
        canonical_details(finish_spec(draft_spec(n)->Ok_0, floored_min, floored_max)->Ok_0),
{
}

/// A course record that was decoded from any document, written as its canonical mapping
/// and decoded again, is the same course record, where the numbers that are read from its
/// two decimal texts are the numbers that the texts were written for.
pub proof fn lemma_details_idempotent(
    n: NodeView,
    floored_min: Option<u8>,
    floored_max: Option<u8>,
)
    requires
        draft_spec(n) is Ok,
        finish_spec(draft_spec(n)->Ok_0, floored_min, floored_max) is Ok,
    ensures
        ({
            let d = finish_spec(draft_spec(n)->Ok_0, floored_min, floored_max)->Ok_0;
            let again = draft_spec(NodeView::Object(details_entries_of(d)));
            again is Ok && finish_spec(again->Ok_0, Some(d.credits_min), d.credits_max) == Ok::<
                _,
                DecodeErrorView,
            >(d)
        }),
{
    lemma_details_canonical(n, floored_min, floored_max);
    lemma_details_round_trip(finish_spec(draft_spec(n)->Ok_0, floored_min, floored_max)->Ok_0);
}

} // verus!
