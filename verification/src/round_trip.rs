//! Decoding and writing are inverse to each other on what the decoders give.
//!
//! A typed value that was decoded from some document, written as its canonical document
//! and decoded again, is the same typed value. The proof goes in two steps: what a decoder
//! gives is canonical, and a canonical value is read back from its canonical document.

use crate::courses::{
    course_entries_spec, entry_of_leaf, leaf_duplicate, leaf_spec, raw_entries_spec,
    raw_entry_spec, raw_of_leaf, LeafView,
};
use crate::encode::{
    course_entries_of, encode_entries, encode_module, encode_module_list, encode_program,
    encode_raw, encode_raws, encode_requirement, encode_requirement_list, encode_requirements,
    encode_single, is_single_course, label_entries_of,
};
use crate::error::DecodeErrorView;
use crate::guid_laws::lemma_parse_braced_format;
use crate::key::Key;
use crate::key_laws::{entry, keyed_by, lemma_not_written, lemma_written_once};
use crate::model::{
    CourseEntryView, CourseView, LabelView, ProgramView, RequirementModuleView, RequirementView,
    RequirementsView,
};
use crate::node::{field, has_key, repeated, EntryView, NodeView};
use crate::program::program_spec;
use crate::requirement::{
    module_list_spec, module_spec, payload_spec, requirement_list_spec, requirement_spec,
    requirements_spec, selects, single_course_spec, PayloadView,
};
use crate::scalars::{lemma_credits_round_trip, lemma_flag_round_trip};
use crate::tree::{
    flatten, flatten_entry, lemma_assemble_balanced, lemma_assemble_flatten, lemma_flatten_push,
    RawView,
};
use vstd::prelude::*;

verus! {

/// A raw entry whose identifier, where it has one, has 16 bytes.
pub open spec fn canonical_raw(raw: RawView) -> bool {
    match raw {
        RawView::Label(label) => label.guid.len() == 16,
        RawView::Course(course) => course.guid.len() == 16,
        _ => true,
    }
}

/// Raw entries that are all canonical.
pub open spec fn canonical_tokens(tokens: Seq<RawView>) -> bool {
    forall|i: int| 0 <= i < tokens.len() ==> canonical_raw(#[trigger] tokens[i])
}

/// A tree all of whose leaves are canonical.
pub open spec fn canonical_entries(tree: Seq<CourseEntryView>) -> bool {
    canonical_tokens(flatten(tree))
}

/// A requirement in the variant that its title and its courses call for, with canonical
/// course entries.
pub open spec fn canonical_requirement(r: RequirementView) -> bool {
    match r {
        RequirementView::Courses { title, courses } => (title is Some ==> !selects(title->0))
            && canonical_entries(courses),
        RequirementView::SelectFromCourses { title, courses } => selects(title) && (courses
            is Some ==> canonical_entries(courses->0)),
        RequirementView::Label { title, req_narrative } => title is Some ==> !selects(title->0),
    }
}

/// The one requirement of a module: a canonical requirement, or one canonical course under
/// any title.
pub open spec fn canonical_single(r: RequirementView) -> bool {
    match r {
        RequirementView::Courses { title, courses } => if is_single_course(r) {
            canonical_entries(courses)
        } else {
            canonical_requirement(r)
        },
        _ => canonical_requirement(r),
    }
}

/// Requirements that are all canonical.
pub open spec fn canonical_requirement_list(requirements: Seq<RequirementView>) -> bool {
    forall|i: int|
        0 <= i < requirements.len() ==> canonical_requirement(#[trigger] requirements[i])
}

/// A module of one of the two kinds that the decoder gives, with canonical requirements.
pub open spec fn canonical_module(m: RequirementModuleView) -> bool {
    match m {
        RequirementModuleView::SingleBasicRequirement { title, requirement } => canonical_single(
            requirement,
        ),
        RequirementModuleView::BasicRequirements { title, requirements } => {
            canonical_requirement_list(requirements)
        },
        _ => false,
    }
}

/// Modules that are all canonical.
pub open spec fn canonical_module_list(modules: Seq<RequirementModuleView>) -> bool {
    forall|i: int| 0 <= i < modules.len() ==> canonical_module(#[trigger] modules[i])
}

/// Requirements of one of the two kinds that the decoder gives, with canonical modules.
pub open spec fn canonical_requirements(r: RequirementsView) -> bool {
    match r {
        RequirementsView::Single(module) => canonical_module(module),
        RequirementsView::Many(modules) => canonical_module_list(modules),
        RequirementsView::SelectTrack => false,
    }
}

/// A programme whose requirements, where it has any, are canonical.
pub open spec fn canonical_program(p: ProgramView) -> bool {
    p.requirements is Some ==> canonical_requirements(p.requirements->0)
}

/// The recognised keys of a course or label, in the order in which they are written.
pub open spec fn leaf_keys() -> Seq<Key> {
    seq![
        Key::Url,
        Key::Path,
        Key::Guid,
        Key::Name,
        Key::Number,
        Key::SubjectName,
        Key::SubjectCode,
        Key::Credits,
        Key::IsNarrative,
    ]
}

/// In a mapping written with the keys of a course or label, each of them stands once with
/// its value, and the key `group` does not stand.
proof fn lemma_leaf_fields(e: Seq<EntryView>)
    requires
        keyed_by(e, leaf_keys()),
    ensures
        leaf_duplicate(e) is None,
        field(e, Key::Url.name_spec()) == Some(e[0].value),
        field(e, Key::Path.name_spec()) == Some(e[1].value),
        field(e, Key::Guid.name_spec()) == Some(e[2].value),
        field(e, Key::Name.name_spec()) == Some(e[3].value),
        field(e, Key::Number.name_spec()) == Some(e[4].value),
        field(e, Key::SubjectName.name_spec()) == Some(e[5].value),
        field(e, Key::SubjectCode.name_spec()) == Some(e[6].value),
        field(e, Key::Credits.name_spec()) == Some(e[7].value),
        field(e, Key::IsNarrative.name_spec()) == Some(e[8].value),
        !has_key(e, Key::Group.name_spec()),
        !repeated(e, Key::Group.name_spec()),
{
    let keys = leaf_keys();
    assert(keys.no_duplicates());
    lemma_written_once(e, keys, 0);
    lemma_written_once(e, keys, 1);
    lemma_written_once(e, keys, 2);
    lemma_written_once(e, keys, 3);
    lemma_written_once(e, keys, 4);
    lemma_written_once(e, keys, 5);
    lemma_written_once(e, keys, 6);
    lemma_written_once(e, keys, 7);
    lemma_written_once(e, keys, 8);
    assert(!keys.contains(Key::Group));
    lemma_not_written(e, keys, Key::Group);
}

/// The mapping that a course is written as is read back as that course.
pub proof fn lemma_course_round_trip(c: CourseView)
    requires
        c.guid.len() == 16,
    ensures
        leaf_spec(course_entries_of(c)) == Ok::<_, DecodeErrorView>(LeafView::Course(c)),
{
    let e = course_entries_of(c);
    assert(keyed_by(e, leaf_keys()));
    lemma_leaf_fields(e);
    lemma_parse_braced_format(c.guid);
    lemma_credits_round_trip(c.credits);
    lemma_flag_round_trip(false);
}

/// The mapping that a label is written as is read back as that label.
pub proof fn lemma_label_round_trip(l: LabelView)
    requires
        l.guid.len() == 16,
    ensures
        leaf_spec(label_entries_of(l)) == Ok::<_, DecodeErrorView>(LeafView::Label(l)),
{
    let e = label_entries_of(l);
    assert(keyed_by(e, leaf_keys()));
    lemma_leaf_fields(e);
    lemma_parse_braced_format(l.guid);
    lemma_credits_round_trip(l.credits);
    lemma_flag_round_trip(true);
}

/// The mapping that a group marker is written as is read back as that marker.
proof fn lemma_marker_round_trip(raw: RawView)
    requires
        raw is And || raw is Or || raw is End,
    ensures
        raw_entry_spec(encode_raw(raw)) == Ok::<_, DecodeErrorView>(raw),
{
    reveal_strlit("And");
    reveal_strlit("Or");
    reveal_strlit("End");
    let e = encode_raw(raw)->Object_0;
    let keys = seq![Key::Group];
    assert(keyed_by(e, keys));
    assert(keys.no_duplicates());
    lemma_written_once(e, keys, 0);
    assert("And"@.len() != "Or"@.len());
    assert("And"@[0] != "End"@[0]);
    assert("Or"@.len() != "End"@.len());
}

/// The mapping that a course is written as is read back, as an element of a list, as that
/// course.
proof fn lemma_raw_course_round_trip(course: CourseView)
    requires
        course.guid.len() == 16,
    ensures
        raw_entry_spec(encode_raw(RawView::Course(course))) == Ok::<_, DecodeErrorView>(
            RawView::Course(course),
        ),
{
    lemma_course_round_trip(course);
    assert(keyed_by(course_entries_of(course), leaf_keys()));
    lemma_leaf_fields(course_entries_of(course));
}

/// The mapping that a label is written as is read back, as an element of a list, as that
/// label.
proof fn lemma_raw_label_round_trip(label: LabelView)
    requires
        label.guid.len() == 16,
    ensures
        raw_entry_spec(encode_raw(RawView::Label(label))) == Ok::<_, DecodeErrorView>(
            RawView::Label(label),
        ),
{
    lemma_label_round_trip(label);
    assert(keyed_by(label_entries_of(label), leaf_keys()));
    lemma_leaf_fields(label_entries_of(label));
}

/// The node that a canonical raw entry is written as is read back as that raw entry.
pub proof fn lemma_raw_round_trip(raw: RawView)
    requires
        canonical_raw(raw),
    ensures
        raw_entry_spec(encode_raw(raw)) == Ok::<_, DecodeErrorView>(raw),
{
    match raw {
        RawView::Label(label) => {
            lemma_raw_label_round_trip(label);
        },
        RawView::Course(course) => {
            lemma_raw_course_round_trip(course);
        },
        _ => {
            lemma_marker_round_trip(raw);
        },
    }
}

/// The nodes that canonical raw entries are written as are read back as those raw entries.
pub proof fn lemma_raws_round_trip(tokens: Seq<RawView>, n: nat)
    requires
        canonical_tokens(tokens),
        n <= tokens.len(),
    ensures
        raw_entries_spec(encode_raws(tokens), n) == Ok::<_, DecodeErrorView>(tokens.take(n as int)),
    decreases n,
{
    if n == 0 {
        assert(tokens.take(0) =~= Seq::<RawView>::empty());
    } else {
        lemma_raws_round_trip(tokens, (n - 1) as nat);
        lemma_raw_round_trip(tokens[n - 1]);
        assert(tokens.take(n as int) =~= tokens.take(n - 1).push(tokens[n - 1]));
    }
}

/// The list that a canonical tree is written as is read back as that tree.
pub proof fn lemma_entries_round_trip(tree: Seq<CourseEntryView>)
    requires
        canonical_entries(tree),
    ensures
        course_entries_spec(encode_entries(tree)) == Ok::<_, DecodeErrorView>(tree),
{
    let tokens = flatten(tree);
    lemma_raws_round_trip(tokens, tokens.len());
    assert(tokens.take(tokens.len() as int) =~= tokens);
    lemma_assemble_flatten(tree);
}

/// The mapping that a canonical requirement is written as is read back as that
/// requirement.
pub proof fn lemma_requirement_round_trip(r: RequirementView)
    requires
        canonical_requirement(r),
    ensures
        requirement_spec(encode_requirement(r)) == Ok::<_, DecodeErrorView>(r),
        encode_requirement(r) is Object,
        single_course_spec(encode_requirement(r)->Object_0) is None,
{
    let e = encode_requirement(r)->Object_0;
    match r {
        RequirementView::Courses { title, courses } => {
            let keys = seq![Key::Title, Key::ReqNarrative, Key::Course];
            assert(keyed_by(e, keys));
            assert(keys.no_duplicates());
            lemma_written_once(e, keys, 0);
            lemma_written_once(e, keys, 1);
            lemma_written_once(e, keys, 2);
            lemma_entries_round_trip(courses);
        },
        RequirementView::SelectFromCourses { title, courses: Some(courses) } => {
            let keys = seq![Key::Title, Key::ReqNarrative, Key::Course];
            assert(keyed_by(e, keys));
            assert(keys.no_duplicates());
            lemma_written_once(e, keys, 0);
            lemma_written_once(e, keys, 1);
            lemma_written_once(e, keys, 2);
            lemma_entries_round_trip(courses);
        },
        RequirementView::SelectFromCourses { title, courses: None } => {
            let keys = seq![Key::Title, Key::ReqNarrative];
            assert(keyed_by(e, keys));
            assert(keys.no_duplicates());
            lemma_written_once(e, keys, 0);
            lemma_written_once(e, keys, 1);
            assert(!keys.contains(Key::Course));
            lemma_not_written(e, keys, Key::Course);
        },
        RequirementView::Label { title, req_narrative } => {
            let keys = seq![Key::Title, Key::ReqNarrative];
            assert(keyed_by(e, keys));
            assert(keys.no_duplicates());
            lemma_written_once(e, keys, 0);
            lemma_written_once(e, keys, 1);
            assert(!keys.contains(Key::Course));
            lemma_not_written(e, keys, Key::Course);
        },
    }
}

/// The mapping that the one canonical requirement of a module is written as is read back
/// as that requirement.
pub proof fn lemma_single_round_trip(r: RequirementView)
    requires
        canonical_single(r),
    ensures
        payload_spec(encode_single(r)) == Ok::<_, DecodeErrorView>(PayloadView::Single(r)),
{
    if is_single_course(r) {
        let title = r->Courses_title;
        let courses = r->Courses_courses;
        let course = courses[0]->Course_0;
        let e = encode_single(r)->Object_0;
        let keys = seq![Key::Title, Key::Course];
        assert(keyed_by(e, keys));
        assert(keys.no_duplicates());
        lemma_written_once(e, keys, 0);
        lemma_written_once(e, keys, 1);
        assert(flatten(courses) =~= flatten_entry(courses[0])) by {
            assert(courses =~= Seq::<CourseEntryView>::empty().push(courses[0]));
            lemma_flatten_push(Seq::<CourseEntryView>::empty(), courses[0]);
        }
        assert(canonical_raw(flatten(courses)[0]));
        lemma_course_round_trip(course);
        assert(courses =~= seq![CourseEntryView::Course(course)]);
    } else {
        lemma_requirement_round_trip(r);
    }
}

/// The nodes that canonical requirements are written as are read back as those
/// requirements.
pub proof fn lemma_requirement_list_round_trip(requirements: Seq<RequirementView>, n: nat)
    requires
        canonical_requirement_list(requirements),
        n <= requirements.len(),
    ensures
        requirement_list_spec(encode_requirement_list(requirements), n) == Ok::<
            _,
            DecodeErrorView,
        >(requirements.take(n as int)),
    decreases n,
{
    if n == 0 {
        assert(requirements.take(0) =~= Seq::<RequirementView>::empty());
    } else {
        lemma_requirement_list_round_trip(requirements, (n - 1) as nat);
        lemma_requirement_round_trip(requirements[n - 1]);
        assert(requirements.take(n as int) =~= requirements.take(n - 1).push(requirements[n - 1]));
    }
}

/// The node that a canonical module is written as is read back as that module.
pub proof fn lemma_module_round_trip(m: RequirementModuleView)
    requires
        canonical_module(m),
    ensures
        module_spec(encode_module(m)) == Ok::<_, DecodeErrorView>(m),
        encode_module(m) is Object,
{
    let e = encode_module(m)->Object_0;
    let keys = seq![Key::Title, Key::RequirementList];
    assert(keyed_by(e, keys));
    assert(keys.no_duplicates());
    lemma_written_once(e, keys, 0);
    lemma_written_once(e, keys, 1);
    assert(!keys.contains(Key::ReqNarrative));
    lemma_not_written(e, keys, Key::ReqNarrative);
    match m {
        RequirementModuleView::SingleBasicRequirement { title, requirement } => {
            lemma_single_round_trip(requirement);
        },
        RequirementModuleView::BasicRequirements { title, requirements } => {
            lemma_requirement_list_round_trip(requirements, requirements.len());
            assert(requirements.take(requirements.len() as int) =~= requirements);
        },
        _ => {},
    }
}

/// A module that is only a title is not read back from the mapping that it is written
/// as: the mapping has no requirement list, and is refused for want of it.
pub proof fn lemma_label_module_refused(title: Seq<char>)
    ensures
        module_spec(encode_module(RequirementModuleView::Label { title })) == Err::<
            RequirementModuleView,
            _,
        >(DecodeErrorView::MissingField(Key::RequirementList)),
{
    let e = encode_module(RequirementModuleView::Label { title })->Object_0;
    let keys = seq![Key::Title];
    assert(keyed_by(e, keys));
    assert(keys.no_duplicates());
    lemma_written_once(e, keys, 0);
    assert(!keys.contains(Key::ReqNarrative));
    lemma_not_written(e, keys, Key::ReqNarrative);
    assert(!keys.contains(Key::RequirementList));
    lemma_not_written(e, keys, Key::RequirementList);
}

/// The nodes that canonical modules are written as are read back as those modules.
pub proof fn lemma_module_list_round_trip(modules: Seq<RequirementModuleView>, n: nat)
    requires
        canonical_module_list(modules),
        n <= modules.len(),
    ensures
        module_list_spec(encode_module_list(modules), n) == Ok::<_, DecodeErrorView>(
            modules.take(n as int),
        ),
    decreases n,
{
    if n == 0 {
        assert(modules.take(0) =~= Seq::<RequirementModuleView>::empty());
    } else {
        lemma_module_list_round_trip(modules, (n - 1) as nat);
        lemma_module_round_trip(modules[n - 1]);
        assert(modules.take(n as int) =~= modules.take(n - 1).push(modules[n - 1]));
    }
}

/// The node that canonical requirements are written as is read back as those
/// requirements.
pub proof fn lemma_requirements_round_trip(r: RequirementsView)
    requires
        canonical_requirements(r),
    ensures
        requirements_spec(encode_requirements(r)) == Ok::<_, DecodeErrorView>(r),
        !(encode_requirements(r) is Null),
{
    match r {
        RequirementsView::Single(module) => {
            lemma_module_round_trip(module);
        },
        RequirementsView::Many(modules) => {
            lemma_module_list_round_trip(modules, modules.len());
            assert(modules.take(modules.len() as int) =~= modules);
        },
        RequirementsView::SelectTrack => {},
    }
}

/// The document that a canonical programme is written as is read back as that programme.
pub proof fn lemma_program_round_trip(p: ProgramView)
    requires
        canonical_program(p),
    ensures
        program_spec(encode_program(p)) == Ok::<_, DecodeErrorView>(p),
{
    let e = encode_program(p)->Object_0;
    match p.requirements {
        Some(requirements) => {
            let keys = seq![Key::Title, Key::Requirements];
            assert(keyed_by(e, keys));
            assert(keys.no_duplicates());
            lemma_written_once(e, keys, 0);
            lemma_written_once(e, keys, 1);
            lemma_requirements_round_trip(requirements);
        },
        None => {
            let keys = seq![Key::Title];
            assert(keyed_by(e, keys));
            assert(keys.no_duplicates());
            lemma_written_once(e, keys, 0);
            assert(!keys.contains(Key::Requirements));
            lemma_not_written(e, keys, Key::Requirements);
        },
    }
}

/// A leaf that was decoded has an identifier of 16 bytes.
pub proof fn lemma_leaf_canonical(e: Seq<EntryView>)
    requires
        leaf_spec(e) is Ok,
    ensures
        canonical_raw(raw_of_leaf(leaf_spec(e)->Ok_0)),
{
}

/// A raw entry that was decoded is canonical.
pub proof fn lemma_raw_canonical(n: NodeView)
    requires
        raw_entry_spec(n) is Ok,
    ensures
        canonical_raw(raw_entry_spec(n)->Ok_0),
{
    match n {
        NodeView::Object(e) => {
            if leaf_spec(e) is Ok {
                lemma_leaf_canonical(e);
            }
        },
        _ => {},
    }
}

/// Raw entries that were decoded are canonical, and there are as many of them as nodes.
pub proof fn lemma_raws_canonical(items: Seq<NodeView>, n: nat)
    requires
        n <= items.len(),
        raw_entries_spec(items, n) is Ok,
    ensures
        canonical_tokens(raw_entries_spec(items, n)->Ok_0),
        raw_entries_spec(items, n)->Ok_0.len() == n,
    decreases n,
{
    if n > 0 {
        lemma_raws_canonical(items, (n - 1) as nat);
        lemma_raw_canonical(items[n - 1]);
        let done = raw_entries_spec(items, (n - 1) as nat)->Ok_0;
        let all = raw_entries_spec(items, n)->Ok_0;
        assert forall|i: int| 0 <= i < all.len() implies canonical_raw(#[trigger] all[i]) by {
            if i < done.len() {
                assert(all[i] == done[i]);
            }
        }
    }
}

/// Course entries that were decoded are canonical.
pub proof fn lemma_entries_canonical(n: NodeView)
    requires
        course_entries_spec(n) is Ok,
    ensures
        canonical_entries(course_entries_spec(n)->Ok_0),
{
    let tree = course_entries_spec(n)->Ok_0;
    match n {
        NodeView::List(items) => {
            lemma_raws_canonical(items, items.len());
            lemma_assemble_balanced(raw_entries_spec(items, items.len())->Ok_0);
        },
        NodeView::Object(e) => {
            lemma_leaf_canonical(e);
            let leaf = entry_of_leaf(leaf_spec(e)->Ok_0);
            assert(tree =~= Seq::<CourseEntryView>::empty().push(leaf));
            lemma_flatten_push(Seq::<CourseEntryView>::empty(), leaf);
            assert(flatten(tree) =~= flatten_entry(leaf));
        },
        _ => {},
    }
}

/// A requirement that was decoded is canonical.
pub proof fn lemma_requirement_canonical(n: NodeView)
    requires
        requirement_spec(n) is Ok,
    ensures
        canonical_requirement(requirement_spec(n)->Ok_0),
{
    match n {
        NodeView::Object(e) => {
            match field(e, Key::Course.name_spec()) {
                Some(value) => {
                    lemma_entries_canonical(value);
                },
                None => {},
            }
        },
        _ => {},
    }
}

/// Requirements that were decoded are canonical, and there are as many of them as nodes.
pub proof fn lemma_requirement_list_canonical(items: Seq<NodeView>, n: nat)
    requires
        n <= items.len(),
        requirement_list_spec(items, n) is Ok,
    ensures
        canonical_requirement_list(requirement_list_spec(items, n)->Ok_0),
        requirement_list_spec(items, n)->Ok_0.len() == n,
    decreases n,
{
    if n > 0 {
        lemma_requirement_list_canonical(items, (n - 1) as nat);
        lemma_requirement_canonical(items[n - 1]);
        let done = requirement_list_spec(items, (n - 1) as nat)->Ok_0;
        let all = requirement_list_spec(items, n)->Ok_0;
        assert forall|i: int| 0 <= i < all.len() implies canonical_requirement(
            #[trigger] all[i],
        ) by {
            if i < done.len() {
                assert(all[i] == done[i]);
            }
        }
    }
}

/// What was decoded from under `requirement_list` is canonical.
pub proof fn lemma_payload_canonical(p: NodeView)
    requires
        payload_spec(p) is Ok,
    ensures
        match payload_spec(p)->Ok_0 {
            PayloadView::Single(r) => canonical_single(r),
            PayloadView::Many(requirements) => canonical_requirement_list(requirements),
        },
{
    match p {
        NodeView::Object(e) => {
            match single_course_spec(e) {
                Some(r) => {
                    let inner = field(e, Key::Course.name_spec())->0->Object_0;
                    lemma_leaf_canonical(inner);
                    let courses = r->Courses_courses;
                    assert(courses =~= Seq::<CourseEntryView>::empty().push(courses[0]));
                    lemma_flatten_push(Seq::<CourseEntryView>::empty(), courses[0]);
                    assert(flatten(courses) =~= flatten_entry(courses[0]));
                },
                None => {
                    lemma_requirement_canonical(p);
                },
            }
        },
        NodeView::List(items) => {
            lemma_requirement_list_canonical(items, items.len());
        },
        _ => {},
    }
}

/// A module that was decoded is canonical.
pub proof fn lemma_module_canonical(n: NodeView)
    requires
        module_spec(n) is Ok,
    ensures
        canonical_module(module_spec(n)->Ok_0),
{
    match n {
        NodeView::Object(e) => {
            lemma_payload_canonical(field(e, Key::RequirementList.name_spec())->0);
        },
        _ => {},
    }
}

/// Modules that were decoded are canonical, and there are as many of them as nodes.
pub proof fn lemma_module_list_canonical(items: Seq<NodeView>, n: nat)
    requires
        n <= items.len(),
        module_list_spec(items, n) is Ok,
    ensures
        canonical_module_list(module_list_spec(items, n)->Ok_0),
        module_list_spec(items, n)->Ok_0.len() == n,
    decreases n,
{
    if n > 0 {
        lemma_module_list_canonical(items, (n - 1) as nat);
        lemma_module_canonical(items[n - 1]);
        let done = module_list_spec(items, (n - 1) as nat)->Ok_0;
        let all = module_list_spec(items, n)->Ok_0;
        assert forall|i: int| 0 <= i < all.len() implies canonical_module(#[trigger] all[i]) by {
            if i < done.len() {
                assert(all[i] == done[i]);
            }
        }
    }
}

/// Requirements that were decoded are canonical.
pub proof fn lemma_requirements_canonical(n: NodeView)
    requires
        requirements_spec(n) is Ok,
    ensures
        canonical_requirements(requirements_spec(n)->Ok_0),
{
    match n {
        NodeView::Object(_) => {
            lemma_module_canonical(n);
        },
        NodeView::List(items) => {
            lemma_module_list_canonical(items, items.len());
        },
        _ => {},
    }
}

/// A programme that was decoded is canonical.
pub proof fn lemma_program_canonical(n: NodeView)
    requires
        program_spec(n) is Ok,
    ensures
        canonical_program(program_spec(n)->Ok_0),
{
    match n {
        NodeView::Object(e) => {
            match field(e, Key::Requirements.name_spec()) {
                Some(value) => {
                    if !(value is Null) {
                        lemma_requirements_canonical(value);
                    }
                },
                None => {},
            }
        },
        _ => {},
    }
}

/// Course entries that were decoded from any node, written as their canonical list and
/// decoded again, are the same course entries.
pub proof fn lemma_entries_idempotent(n: NodeView)
    requires
        course_entries_spec(n) is Ok,
    ensures
        course_entries_spec(encode_entries(course_entries_spec(n)->Ok_0)) == course_entries_spec(n),
{
    lemma_entries_canonical(n);
    lemma_entries_round_trip(course_entries_spec(n)->Ok_0);
}

/// A requirement that was decoded from any node, written as its canonical mapping and
/// decoded again, is the same requirement.
pub proof fn lemma_requirement_idempotent(n: NodeView)
    requires
        requirement_spec(n) is Ok,
    ensures
        requirement_spec(encode_requirement(requirement_spec(n)->Ok_0)) == requirement_spec(n),
{
    lemma_requirement_canonical(n);
    lemma_requirement_round_trip(requirement_spec(n)->Ok_0);
}

/// A module that was decoded from any node, written as its canonical mapping and decoded
/// again, is the same module.
pub proof fn lemma_module_idempotent(n: NodeView)
    requires
        module_spec(n) is Ok,
    ensures
        module_spec(encode_module(module_spec(n)->Ok_0)) == module_spec(n),
{
    lemma_module_canonical(n);
    lemma_module_round_trip(module_spec(n)->Ok_0);
}

/// Requirements that were decoded from any node, written as their canonical node and
/// decoded again, are the same requirements.
pub proof fn lemma_requirements_idempotent(n: NodeView)
    requires
        requirements_spec(n) is Ok,
    ensures
        requirements_spec(encode_requirements(requirements_spec(n)->Ok_0)) == requirements_spec(
            n,
        ),
{
    lemma_requirements_canonical(n);
    lemma_requirements_round_trip(requirements_spec(n)->Ok_0);
}

/// A programme that was decoded from any document, written as its canonical document and
/// decoded again, is the same programme.
pub proof fn lemma_program_idempotent(n: NodeView)
    requires
        program_spec(n) is Ok,
    ensures
        program_spec(encode_program(program_spec(n)->Ok_0)) == program_spec(n),
{
    lemma_program_canonical(n);
    lemma_program_round_trip(program_spec(n)->Ok_0);
}

} // verus!
