//! Laws of the variant inference: which variant a requirement becomes, and what a repeated
//! key does.

use crate::courses::leaf_spec;
use crate::details::draft_spec;
use crate::error::DecodeErrorView;
use crate::key::Key;
use crate::model::RequirementView;
use crate::node::{field, keyed, repeated, EntryView, NodeView};
use crate::program::program_spec;
use crate::record::optional_text_field;
use crate::requirement::{courses_field, module_spec, requirement_spec, selects};
use vstd::prelude::*;

verus! {

/// A requirement whose title selects is a choice among courses, whether or not it lists
/// courses; without the key `course` it is a choice with no courses listed, never a label.
pub proof fn lemma_select_wins(e: Seq<EntryView>, title: Seq<char>)
    requires
        requirement_spec(NodeView::Object(e)) is Ok,
        optional_text_field(e, Key::Title) == Ok::<_, DecodeErrorView>(Some(title)),
        selects(title),
    ensures
        requirement_spec(NodeView::Object(e)) == Ok::<_, DecodeErrorView>(
            RequirementView::SelectFromCourses { title, courses: courses_field(e)->Ok_0 },
        ),
        field(e, Key::Course.name_spec()) is None ==> requirement_spec(NodeView::Object(e))
            == Ok::<_, DecodeErrorView>(
            RequirementView::SelectFromCourses { title, courses: None },
        ),
{
}

/// A requirement that lists courses and whose title does not select is a course
/// requirement, never a choice among courses.
pub proof fn lemma_courses_without_select(e: Seq<EntryView>)
    requires
        requirement_spec(NodeView::Object(e)) is Ok,
        field(e, Key::Course.name_spec()) is Some,
        optional_text_field(e, Key::Title) matches Ok(Some(title)) ==> !selects(title),
    ensures
        requirement_spec(NodeView::Object(e)) == Ok::<_, DecodeErrorView>(
            RequirementView::Courses {
                title: optional_text_field(e, Key::Title)->Ok_0,
                courses: courses_field(e)->Ok_0->0,
            },
        ),
{
}

/// A requirement that does not list courses and whose title does not select is a label.
pub proof fn lemma_label_without_courses(e: Seq<EntryView>)
    requires
        requirement_spec(NodeView::Object(e)) is Ok,
        field(e, Key::Course.name_spec()) is None,
        optional_text_field(e, Key::Title) matches Ok(Some(title)) ==> !selects(title),
    ensures
        requirement_spec(NodeView::Object(e)) == Ok::<_, DecodeErrorView>(
            RequirementView::Label {
                title: optional_text_field(e, Key::Title)->Ok_0,
                req_narrative: optional_text_field(e, Key::ReqNarrative)->Ok_0,
            },
        ),
{
}

/// A mapping in which the key `title` stands twice is refused as a requirement, as a module
/// and as a programme, with the error that names the key, whatever the two values and the
/// rest of the mapping hold.
pub proof fn lemma_duplicate_title(e: Seq<EntryView>, i: int, j: int)
    requires
        0 <= i < j < e.len(),
        e[i].key == Key::Title.name_spec(),
        e[j].key == Key::Title.name_spec(),
    ensures
        requirement_spec(NodeView::Object(e)) == Err::<RequirementView, _>(
            DecodeErrorView::DuplicateField(Key::Title),
        ),
        module_spec(NodeView::Object(e)) is Err && module_spec(NodeView::Object(e))->Err_0
            == DecodeErrorView::DuplicateField(Key::Title),
        program_spec(NodeView::Object(e)) is Err && program_spec(NodeView::Object(e))->Err_0
            == DecodeErrorView::DuplicateField(Key::Title),
{
    assert(keyed(e, i, Key::Title.name_spec()) && keyed(e, j, Key::Title.name_spec()));
    assert(repeated(e, Key::Title.name_spec()));
}

/// No decoder accepts a mapping in which one of its recognised keys stands twice: every
/// such mapping is refused with the error that names a repeated key.
pub proof fn lemma_repeated_key_refused(e: Seq<EntryView>)
    ensures
        requirement_spec(NodeView::Object(e)) is Ok ==> !repeated(e, Key::Title.name_spec())
            && !repeated(e, Key::ReqNarrative.name_spec()) && !repeated(
            e,
            Key::Course.name_spec(),
        ),
        module_spec(NodeView::Object(e)) is Ok ==> !repeated(e, Key::Title.name_spec())
            && !repeated(e, Key::ReqNarrative.name_spec()) && !repeated(
            e,
            Key::RequirementList.name_spec(),
        ),
        program_spec(NodeView::Object(e)) is Ok ==> !repeated(e, Key::Title.name_spec())
            && !repeated(e, Key::Requirements.name_spec()),
        leaf_spec(e) is Ok ==> !repeated(e, Key::Url.name_spec()) && !repeated(
            e,
            Key::Path.name_spec(),
        ) && !repeated(e, Key::Guid.name_spec()) && !repeated(e, Key::Name.name_spec())
            && !repeated(e, Key::Number.name_spec()) && !repeated(e, Key::SubjectName.name_spec())
            && !repeated(e, Key::SubjectCode.name_spec()) && !repeated(
            e,
            Key::Credits.name_spec(),
        ) && !repeated(e, Key::IsNarrative.name_spec()),
        draft_spec(NodeView::Object(e)) is Ok ==> !repeated(e, Key::Url.name_spec())
            && !repeated(e, Key::UpperGuid.name_spec()) && !repeated(e, Key::Path.name_spec())
            && !repeated(e, Key::SubjectCode.name_spec()) && !repeated(
            e,
            Key::SubjectName.name_spec(),
        ) && !repeated(e, Key::Number.name_spec()) && !repeated(e, Key::Name.name_spec())
            && !repeated(e, Key::CreditsMin.name_spec()) && !repeated(
            e,
            Key::CreditsMax.name_spec(),
        ) && !repeated(e, Key::Description.name_spec()) && !repeated(
            e,
            Key::PrerequisiteNarrative.name_spec(),
        ) && !repeated(e, Key::Prerequisite.name_spec()) && !repeated(
            e,
            Key::CorequisiteNarrative.name_spec(),
        ) && !repeated(e, Key::Corequisite.name_spec()),
{
}

/// A requirement without one of its two required keys is refused with the error that names
/// the missing key, the title first.
pub proof fn lemma_missing_key_refused(e: Seq<EntryView>)
    requires
        !repeated(e, Key::Title.name_spec()),
        !repeated(e, Key::ReqNarrative.name_spec()),
        !repeated(e, Key::Course.name_spec()),
    ensures
        field(e, Key::Title.name_spec()) is None ==> requirement_spec(NodeView::Object(e))
            == Err::<RequirementView, _>(DecodeErrorView::MissingField(Key::Title)),
        field(e, Key::Title.name_spec()) is Some && optional_text_field(e, Key::Title) is Ok
            && field(e, Key::ReqNarrative.name_spec()) is None ==> requirement_spec(
            NodeView::Object(e),
        ) == Err::<RequirementView, _>(DecodeErrorView::MissingField(Key::ReqNarrative)),
{
}

} // verus!
