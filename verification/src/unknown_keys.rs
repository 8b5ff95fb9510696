//! Keys that a decoder does not recognise are not looked at.
//!
//! An entry under such a key may be added to a mapping anywhere, whatever its value, and
//! the mapping is decoded as before.

use crate::courses::{leaf_spec, raw_entry_spec};
use crate::details::{draft_spec, requisite_spec};
use crate::key::Key;
use crate::node::{
    field, first_keyed, has_key, keyed, lemma_field_at, repeated, EntryView, NodeView,
};
use crate::program::program_spec;
use crate::requirement::{module_spec, requirement_spec};
use vstd::prelude::*;

verus! {

/// Where a key stands at all, it stands somewhere first.
pub proof fn lemma_first_keyed_exists(e: Seq<EntryView>, name: Seq<char>, i: int) -> (first: int)
    requires
        keyed(e, i, name),
    ensures
        first_keyed(e, first, name),
        first <= i,
    decreases i,
{
    if exists|j: int| 0 <= j < i && keyed(e, j, name) {
        let j = choose|j: int| 0 <= j < i && keyed(e, j, name);
        lemma_first_keyed_exists(e, name, j)
    } else {
        i
    }
}

/// Where an entry stands after another was added at `at`.
pub open spec fn moved_up(at: int, j: int) -> int {
    if j < at {
        j
    } else {
        j + 1
    }
}

/// Where an entry stood before another was added at `at`.
pub open spec fn moved_down(at: int, j: int) -> int {
    if j < at {
        j
    } else {
        j - 1
    }
}

/// An entry keeps its key when another is added.
proof fn lemma_keyed_up(e: Seq<EntryView>, at: int, x: EntryView, name: Seq<char>, j: int)
    requires
        0 <= at <= e.len(),
        keyed(e, j, name),
    ensures
        keyed(e.insert(at, x), moved_up(at, j), name),
{
}

/// An entry under `name` was there before an entry under another key was added.
proof fn lemma_keyed_down(e: Seq<EntryView>, at: int, x: EntryView, name: Seq<char>, j: int)
    requires
        0 <= at <= e.len(),
        x.key != name,
        keyed(e.insert(at, x), j, name),
    ensures
        j != at,
        keyed(e, moved_down(at, j), name),
{
}

/// An entry that is added under another key does not change whether `name` stands.
proof fn lemma_has_key_kept(e: Seq<EntryView>, at: int, x: EntryView, name: Seq<char>)
    requires
        0 <= at <= e.len(),
        x.key != name,
    ensures
        has_key(e.insert(at, x), name) == has_key(e, name),
{
    if has_key(e, name) {
        let i = choose|i: int| keyed(e, i, name);
        lemma_keyed_up(e, at, x, name, i);
    }
    if has_key(e.insert(at, x), name) {
        let i = choose|i: int| keyed(e.insert(at, x), i, name);
        lemma_keyed_down(e, at, x, name, i);
    }
}

/// An entry that is added under another key does not change whether `name` stands twice.
proof fn lemma_repeated_kept(e: Seq<EntryView>, at: int, x: EntryView, name: Seq<char>)
    requires
        0 <= at <= e.len(),
        x.key != name,
    ensures
        repeated(e.insert(at, x), name) == repeated(e, name),
{
    if repeated(e, name) {
        let (a, b) = choose|a: int, b: int| a < b && keyed(e, a, name) && keyed(e, b, name);
        lemma_keyed_up(e, at, x, name, a);
        lemma_keyed_up(e, at, x, name, b);
        assert(moved_up(at, a) < moved_up(at, b));
    }
    if repeated(e.insert(at, x), name) {
        let more = e.insert(at, x);
        let (a, b) = choose|a: int, b: int| a < b && keyed(more, a, name) && keyed(more, b, name);
        lemma_keyed_down(e, at, x, name, a);
        lemma_keyed_down(e, at, x, name, b);
        assert(moved_down(at, a) < moved_down(at, b));
    }
}

/// An entry that is added under another key does not change what stands under `name`.
proof fn lemma_field_kept(e: Seq<EntryView>, at: int, x: EntryView, name: Seq<char>)
    requires
        0 <= at <= e.len(),
        x.key != name,
    ensures
        field(e.insert(at, x), name) == field(e, name),
{
    let more = e.insert(at, x);
    lemma_has_key_kept(e, at, x, name);
    if has_key(e, name) {
        let i = choose|i: int| keyed(e, i, name);
        let first = lemma_first_keyed_exists(e, name, i);
        let moved = moved_up(at, first);
        lemma_keyed_up(e, at, x, name, first);
        assert forall|j: int| 0 <= j < moved implies !keyed(more, j, name) by {
            if keyed(more, j, name) {
                lemma_keyed_down(e, at, x, name, j);
                assert(moved_down(at, j) < first);
            }
        }
        lemma_field_at(e, first, name);
        lemma_field_at(more, moved, name);
        assert(more[moved].value == e[first].value);
    }
}

/// An entry that is added under another key changes nothing of what stands under `name`.
pub proof fn lemma_other_key_added(e: Seq<EntryView>, at: int, x: EntryView, name: Seq<char>)
    requires
        0 <= at <= e.len(),
        x.key != name,
    ensures
        field(e.insert(at, x), name) == field(e, name),
        repeated(e.insert(at, x), name) == repeated(e, name),
        has_key(e.insert(at, x), name) == has_key(e, name),
{
    lemma_has_key_kept(e, at, x, name);
    lemma_repeated_kept(e, at, x, name);
    lemma_field_kept(e, at, x, name);
}

/// The spelling of an entry's key is that of none of the recognised keys of a course or
/// label.
pub open spec fn unknown_to_leaf(x: EntryView) -> bool {
    &&& x.key != Key::Url.name_spec()
    &&& x.key != Key::Path.name_spec()
    &&& x.key != Key::Guid.name_spec()
    &&& x.key != Key::Name.name_spec()
    &&& x.key != Key::Number.name_spec()
    &&& x.key != Key::SubjectName.name_spec()
    &&& x.key != Key::SubjectCode.name_spec()
    &&& x.key != Key::Credits.name_spec()
    &&& x.key != Key::IsNarrative.name_spec()
}

/// A course or label is decoded alike with and without an entry that it does not
/// recognise.
pub proof fn lemma_leaf_ignores(e: Seq<EntryView>, at: int, x: EntryView)
    requires
        0 <= at <= e.len(),
        unknown_to_leaf(x),
    ensures
        leaf_spec(e.insert(at, x)) == leaf_spec(e),
{
    lemma_other_key_added(e, at, x, Key::Url.name_spec());
    lemma_other_key_added(e, at, x, Key::Path.name_spec());
    lemma_other_key_added(e, at, x, Key::Guid.name_spec());
    lemma_other_key_added(e, at, x, Key::Name.name_spec());
    lemma_other_key_added(e, at, x, Key::Number.name_spec());
    lemma_other_key_added(e, at, x, Key::SubjectName.name_spec());
    lemma_other_key_added(e, at, x, Key::SubjectCode.name_spec());
    lemma_other_key_added(e, at, x, Key::Credits.name_spec());
    lemma_other_key_added(e, at, x, Key::IsNarrative.name_spec());
}

/// A raw entry is decoded alike with and without an entry that it does not recognise.
pub proof fn lemma_raw_entry_ignores(e: Seq<EntryView>, at: int, x: EntryView)
    requires
        0 <= at <= e.len(),
        unknown_to_leaf(x),
        x.key != Key::Group.name_spec(),
    ensures
        raw_entry_spec(NodeView::Object(e.insert(at, x))) == raw_entry_spec(NodeView::Object(e)),
{
    lemma_other_key_added(e, at, x, Key::Group.name_spec());
    lemma_leaf_ignores(e, at, x);
}

/// A requirement is decoded alike with and without an entry that it does not recognise.
pub proof fn lemma_requirement_ignores(e: Seq<EntryView>, at: int, x: EntryView)
    requires
        0 <= at <= e.len(),
        x.key != Key::Title.name_spec(),
        x.key != Key::ReqNarrative.name_spec(),
        x.key != Key::Course.name_spec(),
    ensures
        requirement_spec(NodeView::Object(e.insert(at, x))) == requirement_spec(
            NodeView::Object(e),
        ),
{
    lemma_other_key_added(e, at, x, Key::Title.name_spec());
    lemma_other_key_added(e, at, x, Key::ReqNarrative.name_spec());
    lemma_other_key_added(e, at, x, Key::Course.name_spec());
}

/// A module is decoded alike with and without an entry that it does not recognise.
pub proof fn lemma_module_ignores(e: Seq<EntryView>, at: int, x: EntryView)
    requires
        0 <= at <= e.len(),
        x.key != Key::Title.name_spec(),
        x.key != Key::ReqNarrative.name_spec(),
        x.key != Key::RequirementList.name_spec(),
    ensures
        module_spec(NodeView::Object(e.insert(at, x))) == module_spec(NodeView::Object(e)),
{
    lemma_other_key_added(e, at, x, Key::Title.name_spec());
    lemma_other_key_added(e, at, x, Key::ReqNarrative.name_spec());
    lemma_other_key_added(e, at, x, Key::RequirementList.name_spec());
}

/// A programme is decoded alike with and without an entry that it does not recognise.
pub proof fn lemma_program_ignores(e: Seq<EntryView>, at: int, x: EntryView)
    requires
        0 <= at <= e.len(),
        x.key != Key::Title.name_spec(),
        x.key != Key::Requirements.name_spec(),
    ensures
        program_spec(NodeView::Object(e.insert(at, x))) == program_spec(NodeView::Object(e)),
{
    lemma_other_key_added(e, at, x, Key::Title.name_spec());
    lemma_other_key_added(e, at, x, Key::Requirements.name_spec());
}

/// A requisite is decoded alike with and without an entry under another key than `GUID`.
pub proof fn lemma_requisite_ignores(e: Seq<EntryView>, at: int, x: EntryView)
    requires
        0 <= at <= e.len(),
        x.key != Key::UpperGuid.name_spec(),
    ensures
        requisite_spec(NodeView::Object(e.insert(at, x))) == requisite_spec(NodeView::Object(e)),
{
    lemma_other_key_added(e, at, x, Key::UpperGuid.name_spec());
}

/// The spelling of an entry's key is that of none of the recognised keys of a course
/// record.
pub open spec fn unknown_to_details(x: EntryView) -> bool {
    &&& x.key != Key::Url.name_spec()
    &&& x.key != Key::UpperGuid.name_spec()
    &&& x.key != Key::Path.name_spec()
    &&& x.key != Key::SubjectCode.name_spec()
    &&& x.key != Key::SubjectName.name_spec()
    &&& x.key != Key::Number.name_spec()
    &&& x.key != Key::Name.name_spec()
    &&& x.key != Key::CreditsMin.name_spec()
    &&& x.key != Key::CreditsMax.name_spec()
    &&& x.key != Key::Description.name_spec()
    &&& x.key != Key::PrerequisiteNarrative.name_spec()
    &&& x.key != Key::Prerequisite.name_spec()
    &&& x.key != Key::CorequisiteNarrative.name_spec()
    &&& x.key != Key::Corequisite.name_spec()
}

/// A course record is decoded alike with and without an entry that it does not recognise.
pub proof fn lemma_details_ignores(e: Seq<EntryView>, at: int, x: EntryView)
    requires
        0 <= at <= e.len(),
        unknown_to_details(x),
    ensures
        draft_spec(NodeView::Object(e.insert(at, x))) == draft_spec(NodeView::Object(e)),
{
    lemma_other_key_added(e, at, x, Key::Url.name_spec());
    lemma_other_key_added(e, at, x, Key::UpperGuid.name_spec());
    lemma_other_key_added(e, at, x, Key::Path.name_spec());
    lemma_other_key_added(e, at, x, Key::SubjectCode.name_spec());
    lemma_other_key_added(e, at, x, Key::SubjectName.name_spec());
    lemma_other_key_added(e, at, x, Key::Number.name_spec());
    lemma_other_key_added(e, at, x, Key::Name.name_spec());
    lemma_other_key_added(e, at, x, Key::CreditsMin.name_spec());
    lemma_other_key_added(e, at, x, Key::CreditsMax.name_spec());
    lemma_other_key_added(e, at, x, Key::Description.name_spec());
    lemma_other_key_added(e, at, x, Key::PrerequisiteNarrative.name_spec());
    lemma_other_key_added(e, at, x, Key::Prerequisite.name_spec());
    lemma_other_key_added(e, at, x, Key::CorequisiteNarrative.name_spec());
    lemma_other_key_added(e, at, x, Key::Corequisite.name_spec());
}

} // verus!
