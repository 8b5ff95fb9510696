//! The canonical document of a typed tree.
//!
//! Course entries are always written as a list of raw entries. A requirement is written
//! with both of the keys that every requirement must have. The one requirement of a module
//! is written as a mapping that wraps a single course where it is one course and nothing
//! else, since only that shape keeps such a requirement from being read as a choice.
//!
//! A value that a decoder gave is read back from its canonical document as the same value:
//! that is proved in `round_trip`. A value that was put together by hand need not be. A
//! course requirement or a label whose title selects is read back as a choice among
//! courses, and a module that is only a title is written as a mapping with its title alone,
//! which the decoder of modules refuses for want of a requirement list.

use crate::guid::{braced_spec, Guid};
use crate::key::Key;
use crate::key_laws::entry;
use crate::model::{
    guid_view, lemma_and_view, lemma_or_view, modules_view, requirements_view, Course,
    CourseDetails, CourseDetailsView, CourseEntries, CourseEntry, CourseEntryView, CourseView,
    Label, LabelView, Program, ProgramView, Requirement, RequirementModule,
    RequirementModuleView, RequirementView, Requirements, RequirementsView,
};
use crate::node::{
    entries_view, items_view, lemma_list_view, lemma_object_view, Entry, EntryView, Node,
    NodeView,
};
use crate::scalars::{credits_text, decimal_text, flag_text, format_course_credits, format_flag};
use crate::tree::{flatten, flatten_entry, flatten_first, RawView};
use vstd::prelude::*;

verus! {

/// A variant for which no document shape is known yet.
#[derive(Clone, Copy, PartialEq, Eq, Debug, Structural)]
pub enum NotYetSupported {
    /// The choice of a track.
    SelectTrack,
    /// The choice of one emphasis.
    SelectOneEmphasis,
    /// A module that was kept because no mapping is known for its shape.
    Unimplemented,
}

/// The node of a text that may be absent: null where it is.
pub open spec fn optional_text_node(text: Option<Seq<char>>) -> NodeView {
    match text {
        Some(t) => NodeView::Text(t),
        None => NodeView::Null,
    }
}

/// The entries of the mapping that a course is written as.
pub open spec fn course_entries_of(c: CourseView) -> Seq<EntryView> {
    seq![
        entry(Key::Url, NodeView::Text(c.url)),
        entry(Key::Path, NodeView::Text(c.path)),
        entry(Key::Guid, NodeView::Text(braced_spec(c.guid))),
        entry(Key::Name, optional_text_node(c.name)),
        entry(Key::Number, NodeView::Text(c.number)),
        entry(Key::SubjectName, optional_text_node(c.subject_name)),
        entry(Key::SubjectCode, NodeView::Text(c.subject_code)),
        entry(Key::Credits, NodeView::Text(credits_text(c.credits))),
        entry(Key::IsNarrative, NodeView::Text(flag_text(false))),
    ]
}

/// The entries of the mapping that a label is written as. A label has no path and no
/// subject name: the one is written as the empty text, the other as null.
pub open spec fn label_entries_of(l: LabelView) -> Seq<EntryView> {
    seq![
        entry(Key::Url, NodeView::Text(l.url)),
        entry(Key::Path, NodeView::Text(Seq::empty())),
        entry(Key::Guid, NodeView::Text(braced_spec(l.guid))),
        entry(Key::Name, NodeView::Text(l.name)),
        entry(Key::Number, optional_text_node(l.number)),
        entry(Key::SubjectName, NodeView::Null),
        entry(Key::SubjectCode, optional_text_node(l.subject_code)),
        entry(Key::Credits, NodeView::Text(credits_text(l.credits))),
        entry(Key::IsNarrative, NodeView::Text(flag_text(true))),
    ]
}

/// The mapping that a group marker is written as.
pub open spec fn marker_node(word: Seq<char>) -> NodeView {
    NodeView::Object(seq![entry(Key::Group, NodeView::Text(word))])
}

/// The node that a raw entry is written as.
pub open spec fn encode_raw(raw: RawView) -> NodeView {
    match raw {
        RawView::And => marker_node("And"@),
        RawView::Or => marker_node("Or"@),
        RawView::End => marker_node("End"@),
        RawView::Label(label) => NodeView::Object(label_entries_of(label)),
        RawView::Course(course) => NodeView::Object(course_entries_of(course)),
    }
}

/// The nodes that raw entries are written as, in order.
pub open spec fn encode_raws(tokens: Seq<RawView>) -> Seq<NodeView> {
    Seq::new(tokens.len(), |i: int| encode_raw(tokens[i]))
}

/// The list that course entries are written as: their flat form, entry by entry.
pub open spec fn encode_entries(tree: Seq<CourseEntryView>) -> NodeView {
    NodeView::List(encode_raws(flatten(tree)))
}

/// The mapping that a requirement is written as.
pub open spec fn encode_requirement(r: RequirementView) -> NodeView {
    match r {
        RequirementView::Courses { title, courses } => NodeView::Object(
            seq![
                entry(Key::Title, optional_text_node(title)),
                entry(Key::ReqNarrative, NodeView::Null),
                entry(Key::Course, encode_entries(courses)),
            ],
        ),
        RequirementView::SelectFromCourses { title, courses: Some(courses) } => NodeView::Object(
            seq![
                entry(Key::Title, NodeView::Text(title)),
                entry(Key::ReqNarrative, NodeView::Null),
                entry(Key::Course, encode_entries(courses)),
            ],
        ),
        RequirementView::SelectFromCourses { title, courses: None } => NodeView::Object(
            seq![
                entry(Key::Title, NodeView::Text(title)),
                entry(Key::ReqNarrative, NodeView::Null),
            ],
        ),
        RequirementView::Label { title, req_narrative } => NodeView::Object(
            seq![
                entry(Key::Title, optional_text_node(title)),
                entry(Key::ReqNarrative, optional_text_node(req_narrative)),
            ],
        ),
    }
}

/// A course requirement that is one course and nothing else.
pub open spec fn is_single_course(r: RequirementView) -> bool {
    r matches RequirementView::Courses { courses, .. } && courses.len() == 1
        && courses[0] is Course
}

/// The mapping that the one requirement of a module is written as: a mapping that wraps a
/// single course where the requirement is one, else the mapping of the requirement.
pub open spec fn encode_single(r: RequirementView) -> NodeView {
    match r {
        RequirementView::Courses { title, courses } => if is_single_course(r) {
            NodeView::Object(
                seq![
                    entry(Key::Title, optional_text_node(title)),
                    entry(Key::Course, NodeView::Object(course_entries_of(courses[0]->Course_0))),
                ],
            )
        } else {
            encode_requirement(r)
        },
        _ => encode_requirement(r),
    }
}

/// The nodes that requirements are written as, in order.
pub open spec fn encode_requirement_list(requirements: Seq<RequirementView>) -> Seq<NodeView> {
    Seq::new(requirements.len(), |i: int| encode_requirement(requirements[i]))
}

/// What stands in the way of writing a module, if anything does.
pub open spec fn module_obstacle(m: RequirementModuleView) -> Option<NotYetSupported> {
    match m {
        RequirementModuleView::SelectOneEmphasis => Some(NotYetSupported::SelectOneEmphasis),
        RequirementModuleView::Unimplemented(_) => Some(NotYetSupported::Unimplemented),
        _ => None,
    }
}

/// The node that a module is written as. A module that is only a title is written with
/// its title alone.
pub open spec fn encode_module(m: RequirementModuleView) -> NodeView {
    match m {
        RequirementModuleView::SingleBasicRequirement { title, requirement } => NodeView::Object(
            seq![
                entry(Key::Title, optional_text_node(title)),
                entry(Key::RequirementList, encode_single(requirement)),
            ],
        ),
        RequirementModuleView::BasicRequirements { title, requirements } => NodeView::Object(
            seq![
                entry(Key::Title, optional_text_node(title)),
                entry(
                    Key::RequirementList,
                    NodeView::List(encode_requirement_list(requirements)),
                ),
            ],
        ),
        RequirementModuleView::Label { title } => NodeView::Object(
            seq![entry(Key::Title, NodeView::Text(title))],
        ),
        _ => NodeView::Null,
    }
}

/// The nodes that modules are written as, in order.
pub open spec fn encode_module_list(modules: Seq<RequirementModuleView>) -> Seq<NodeView> {
    Seq::new(modules.len(), |i: int| encode_module(modules[i]))
}

/// Module `i` is the first of the list that cannot be written.
pub open spec fn first_obstacle_at(modules: Seq<RequirementModuleView>, i: int) -> bool {
    &&& 0 <= i < modules.len()
    &&& module_obstacle(modules[i]) is Some
    &&& forall|j: int| 0 <= j < i ==> module_obstacle(#[trigger] modules[j]) is None
}

/// What stands in the way of writing requirements, if anything does: a choice of track,
/// or what stands in the way of the first module that cannot be written.
pub open spec fn requirements_obstacle(r: RequirementsView) -> Option<NotYetSupported> {
    match r {
        RequirementsView::Single(module) => module_obstacle(module),
        RequirementsView::Many(modules) => if exists|i: int| first_obstacle_at(modules, i) {
            module_obstacle(modules[choose|i: int| first_obstacle_at(modules, i)])
        } else {
            None
        },
        RequirementsView::SelectTrack => Some(NotYetSupported::SelectTrack),
    }
}

/// The node that requirements are written as: a mapping for one module, a list for
/// several.
pub open spec fn encode_requirements(r: RequirementsView) -> NodeView {
    match r {
        RequirementsView::Single(module) => encode_module(module),
        RequirementsView::Many(modules) => NodeView::List(encode_module_list(modules)),
        RequirementsView::SelectTrack => NodeView::Null,
    }
}

/// The mapping that a programme is written as.
pub open spec fn encode_program(p: ProgramView) -> NodeView {
    match p.requirements {
        Some(requirements) => NodeView::Object(
            seq![
                entry(Key::Title, NodeView::Text(p.title)),
                entry(Key::Requirements, encode_requirements(requirements)),
            ],
        ),
        None => NodeView::Object(seq![entry(Key::Title, NodeView::Text(p.title))]),
    }
}

/// The mapping that a requisite is written as: nothing but its identifier.
pub open spec fn requisite_node(guid: Seq<u8>) -> NodeView {
    NodeView::Object(seq![entry(Key::UpperGuid, NodeView::Text(braced_spec(guid)))])
}

/// The entries that a requisite is written as under `key`: one where there is a requisite,
/// none where there is not.
pub open spec fn requisite_entries(key: Key, guid: Option<Seq<u8>>) -> Seq<EntryView> {
    match guid {
        Some(bytes) => seq![entry(key, requisite_node(bytes))],
        None => Seq::empty(),
    }
}

/// The text that a greatest number of credits is written as: null where there is none.
pub open spec fn credits_max_node(max: Option<u8>) -> NodeView {
    match max {
        Some(v) => NodeView::Text(decimal_text(v as nat)),
        None => NodeView::Null,
    }
}

/// The entries of the mapping that a course record is written as. The two credit numbers
/// are written as decimal texts.
pub open spec fn details_entries_of(d: CourseDetailsView) -> Seq<EntryView> {
    seq![
        entry(Key::Url, NodeView::Text(d.url)),
        entry(Key::UpperGuid, NodeView::Text(braced_spec(d.guid))),
        entry(Key::Path, NodeView::Text(d.path)),
        entry(Key::SubjectCode, NodeView::Text(d.subject_code)),
        entry(Key::SubjectName, optional_text_node(d.subject_name)),
        entry(Key::Number, NodeView::Text(d.number)),
        entry(Key::Name, NodeView::Text(d.name)),
        entry(Key::CreditsMin, NodeView::Text(decimal_text(d.credits_min as nat))),
        entry(Key::CreditsMax, credits_max_node(d.credits_max)),
        entry(Key::Description, NodeView::Text(d.description)),
        entry(Key::PrerequisiteNarrative, optional_text_node(d.prerequisite_narrative)),
        entry(Key::CorequisiteNarrative, optional_text_node(d.corequisite_narrative)),
    ] + requisite_entries(Key::Prerequisite, d.prerequisite) + requisite_entries(
        Key::Corequisite,
        d.corequisite,
    )
}

/// The entry that carries a node under a recognised key.
fn node_entry(key: Key, value: Node) -> (e: Entry)
    ensures
        e@ == entry(key, value@),
{
    Entry { key: key.name().to_owned(), value }
}

/// The entry that carries a text under a recognised key.
fn text_entry(key: Key, text: &str) -> (e: Entry)
    ensures
        e@ == entry(key, NodeView::Text(text@)),
{
    node_entry(key, Node::Text(text.to_owned()))
}

/// The entry that carries a text, or null, under a recognised key.
fn optional_text_entry(key: Key, text: &Option<String>) -> (e: Entry)
    ensures
        e@ == entry(
            key,
            optional_text_node(
                match text {
                    Some(t) => Some(t@),
                    None => None,
                },
            ),
        ),
{
    match text {
        Some(t) => node_entry(key, Node::Text(t.clone())),
        None => node_entry(key, Node::Null),
    }
}

impl Course {
    /// Writes the course as the mapping that describes it.
    pub fn encode(&self) -> (node: Node)
        ensures
            node@ == NodeView::Object(course_entries_of(self@)),
    {
        let mut entries: Vec<Entry> = Vec::new();
        entries.push(text_entry(Key::Url, self.url.as_str()));
        entries.push(text_entry(Key::Path, self.path.as_str()));
        entries.push(node_entry(Key::Guid, Node::Text(self.guid.to_braced_string())));
        entries.push(optional_text_entry(Key::Name, &self.name));
        entries.push(text_entry(Key::Number, self.number.as_str()));
        entries.push(optional_text_entry(Key::SubjectName, &self.subject_name));
        entries.push(text_entry(Key::SubjectCode, self.subject_code.as_str()));
        entries.push(node_entry(Key::Credits, Node::Text(format_course_credits(self.credits))));
        entries.push(text_entry(Key::IsNarrative, format_flag(false)));
        proof {
            lemma_object_view(entries);
            assert(entries_view(entries@) =~= course_entries_of(self@));
        }
        Node::Object(entries)
    }
}

impl Label {
    /// Writes the label as the mapping that describes it.
    pub fn encode(&self) -> (node: Node)
        ensures
            node@ == NodeView::Object(label_entries_of(self@)),
    {
        let mut entries: Vec<Entry> = Vec::new();
        entries.push(text_entry(Key::Url, self.url.as_str()));
        entries.push(node_entry(Key::Path, Node::Text(String::new())));
        entries.push(node_entry(Key::Guid, Node::Text(self.guid.to_braced_string())));
        entries.push(text_entry(Key::Name, self.name.as_str()));
        entries.push(optional_text_entry(Key::Number, &self.number));
        entries.push(node_entry(Key::SubjectName, Node::Null));
        entries.push(optional_text_entry(Key::SubjectCode, &self.subject_code));
        entries.push(node_entry(Key::Credits, Node::Text(format_course_credits(self.credits))));
        entries.push(text_entry(Key::IsNarrative, format_flag(true)));
        proof {
            lemma_object_view(entries);
            assert(entries_view(entries@) =~= label_entries_of(self@));
        }
        Node::Object(entries)
    }
}

/// Appends the entry of a requisite, where there is one.
fn push_requisite(entries: &mut Vec<Entry>, key: Key, guid: &Option<Guid>)
    ensures
        entries_view(final(entries)@) == entries_view(old(entries)@) + requisite_entries(
            key,
            guid_view(*guid),
        ),
{
    let ghost before = entries_view(entries@);
    match guid {
        Some(guid) => {
            let mut inner: Vec<Entry> = Vec::new();
            inner.push(node_entry(Key::UpperGuid, Node::Text(guid.to_braced_string())));
            proof {
                lemma_object_view(inner);
                assert(entries_view(inner@) =~= requisite_node(guid@)->Object_0);
            }
            entries.push(node_entry(key, Node::Object(inner)));
            assert(entries_view(entries@) =~= before + requisite_entries(key, Some(guid@)));
        },
        None => {
            assert(entries_view(entries@) =~= before + requisite_entries(key, None));
        },
    }
}

impl CourseDetails {
    /// Writes the course record as the mapping that describes it, with the two credit
    /// numbers as decimal texts.
    pub fn encode(&self) -> (node: Node)
        ensures
            node@ == NodeView::Object(details_entries_of(self@)),
    {
        let mut entries: Vec<Entry> = Vec::new();
        entries.push(text_entry(Key::Url, self.url.as_str()));
        entries.push(node_entry(Key::UpperGuid, Node::Text(self.guid.to_braced_string())));
        entries.push(text_entry(Key::Path, self.path.as_str()));
        entries.push(text_entry(Key::SubjectCode, self.subject_code.as_str()));
        entries.push(optional_text_entry(Key::SubjectName, &self.subject_name));
        entries.push(text_entry(Key::Number, self.number.as_str()));
        entries.push(text_entry(Key::Name, self.name.as_str()));
        let min = Node::Text(format_course_credits((self.credits_min, None)));
        entries.push(node_entry(Key::CreditsMin, min));
        let max = match self.credits_max {
            Some(v) => Node::Text(format_course_credits((v, None))),
            None => Node::Null,
        };
        entries.push(node_entry(Key::CreditsMax, max));
        entries.push(text_entry(Key::Description, self.description.as_str()));
        entries.push(optional_text_entry(Key::PrerequisiteNarrative, &self.prerequisite_narrative));
        entries.push(optional_text_entry(Key::CorequisiteNarrative, &self.corequisite_narrative));
        let ghost base = entries_view(entries@);
        push_requisite(&mut entries, Key::Prerequisite, &self.prerequisite);
        push_requisite(&mut entries, Key::Corequisite, &self.corequisite);
        proof {
            lemma_object_view(entries);
            assert(base + requisite_entries(Key::Prerequisite, self@.prerequisite)
                + requisite_entries(Key::Corequisite, self@.corequisite) =~= details_entries_of(
                self@,
            ));
        }
        Node::Object(entries)
    }
}

/// The mapping of a group marker.
fn encode_marker(word: &str) -> (node: Node)
    ensures
        node@ == marker_node(word@),
{
    let mut entries: Vec<Entry> = Vec::new();
    entries.push(text_entry(Key::Group, word));
    proof {
        lemma_object_view(entries);
        assert(entries_view(entries@) =~= seq![entry(Key::Group, NodeView::Text(word@))]);
    }
    Node::Object(entries)
}

/// Appends the nodes of the flat form of one entry of the tree.
fn encode_entry_into(entry: &CourseEntry, out: &mut Vec<Node>)
    ensures
        items_view(final(out)@) == items_view(old(out)@) + encode_raws(flatten_entry(entry@)),
    decreases entry,
{
    let ghost before = items_view(out@);
    match entry {
        CourseEntry::And(inner) => {
            proof {
                lemma_and_view(*inner);
            }
            out.push(encode_marker("And"));
            let ghost opened = items_view(out@);
            assert(opened =~= before.push(marker_node("And"@)));
            encode_list_into(inner, out);
            let ghost filled = items_view(out@);
            out.push(encode_marker("End"));
            proof {
                let inner_raws = flatten(inner@);
                let raws = flatten_entry(entry@);
                assert(raws =~= seq![RawView::And] + inner_raws + seq![RawView::End]);
                assert(items_view(out@) =~= filled.push(marker_node("End"@)));
                assert(encode_raws(raws) =~= seq![marker_node("And"@)] + encode_raws(inner_raws)
                    + seq![marker_node("End"@)]);
                assert(items_view(out@) =~= before + encode_raws(raws));
            }
        },
        CourseEntry::Or(inner) => {
            proof {
                lemma_or_view(*inner);
            }
            out.push(encode_marker("Or"));
            let ghost opened = items_view(out@);
            assert(opened =~= before.push(marker_node("Or"@)));
            encode_list_into(inner, out);
            let ghost filled = items_view(out@);
            out.push(encode_marker("End"));
            proof {
                let inner_raws = flatten(inner@);
                let raws = flatten_entry(entry@);
                assert(raws =~= seq![RawView::Or] + inner_raws + seq![RawView::End]);
                assert(items_view(out@) =~= filled.push(marker_node("End"@)));
                assert(encode_raws(raws) =~= seq![marker_node("Or"@)] + encode_raws(inner_raws)
                    + seq![marker_node("End"@)]);
                assert(items_view(out@) =~= before + encode_raws(raws));
            }
        },
        CourseEntry::Label(label) => {
            out.push(label.encode());
            assert(items_view(out@) =~= before + encode_raws(flatten_entry(entry@)));
        },
        CourseEntry::Course(course) => {
            out.push(course.encode());
            assert(items_view(out@) =~= before + encode_raws(flatten_entry(entry@)));
        },
    }
}

/// Appends the nodes of the flat form of a list of entries.
#[verifier::loop_isolation(false)]
fn encode_list_into(entries: &CourseEntries, out: &mut Vec<Node>)
    ensures
        items_view(final(out)@) == items_view(old(out)@) + encode_raws(flatten(entries@)),
    decreases entries,
{
    let ghost before = items_view(out@);
    let mut i: usize = 0;
    assert(items_view(out@) =~= before + encode_raws(flatten_first(entries@, 0)));
    while i < entries.0.len()
        invariant
            i <= entries.0.len(),
            items_view(out@) == before + encode_raws(flatten_first(entries@, i as nat)),
        decreases entries.0.len() - i,
    {
        let ghost so_far = items_view(out@);
        encode_entry_into(&entries.0[i], out);
        proof {
            assert(entries@[i as int] == entries.0@[i as int]@);
            assert(so_far + encode_raws(flatten_entry(entries@[i as int])) =~= before
                + encode_raws(flatten_first(entries@, (i + 1) as nat)));
        }
        i = i + 1;
    }
}

impl CourseEntries {
    /// Writes the entries as the list of raw entries that `decode` assembles into the same
    /// tree.
    pub fn encode(&self) -> (node: Node)
        ensures
            node@ == encode_entries(self@),
    {
        let mut items: Vec<Node> = Vec::new();
        encode_list_into(self, &mut items);
        proof {
            lemma_list_view(items);
            assert(items_view(items@) =~= encode_raws(flatten(self@)));
        }
        Node::List(items)
    }
}

/// The mapping with the given entries.
fn object_of(entries: Vec<Entry>) -> (node: Node)
    ensures
        node@ == NodeView::Object(entries_view(entries@)),
{
    proof {
        lemma_object_view(entries);
    }
    Node::Object(entries)
}

impl Requirement {
    /// Writes the requirement as its canonical mapping, with the keys `title` and
    /// `req_narrative` and, where it has course entries, `course`.
    ///
    /// `decode` reads the mapping back as the same requirement where the variant is the one
    /// that the title and the courses call for, as it is in every requirement that `decode`
    /// gave. A course requirement or a label whose title selects is read back as a choice
    /// among courses.
    pub fn encode(&self) -> (node: Node)
        ensures
            node@ == encode_requirement(self@),
    {
        let mut entries: Vec<Entry> = Vec::new();
        match self {
            Requirement::Courses { title, courses } => {
                entries.push(optional_text_entry(Key::Title, title));
                entries.push(node_entry(Key::ReqNarrative, Node::Null));
                entries.push(node_entry(Key::Course, courses.encode()));
                assert(entries_view(entries@) =~= encode_requirement(self@)->Object_0);
            },
            Requirement::SelectFromCourses { title, courses: Some(courses) } => {
                entries.push(text_entry(Key::Title, title.as_str()));
                entries.push(node_entry(Key::ReqNarrative, Node::Null));
                entries.push(node_entry(Key::Course, courses.encode()));
                assert(entries_view(entries@) =~= encode_requirement(self@)->Object_0);
            },
            Requirement::SelectFromCourses { title, courses: None } => {
                entries.push(text_entry(Key::Title, title.as_str()));
                entries.push(node_entry(Key::ReqNarrative, Node::Null));
                assert(entries_view(entries@) =~= encode_requirement(self@)->Object_0);
            },
            Requirement::Label { title, req_narrative } => {
                entries.push(optional_text_entry(Key::Title, title));
                entries.push(optional_text_entry(Key::ReqNarrative, req_narrative));
                assert(entries_view(entries@) =~= encode_requirement(self@)->Object_0);
            },
        }
        object_of(entries)
    }

    /// Writes the requirement as the one requirement of a module: as a mapping that wraps
    /// a single course where it is one course and nothing else.
    pub fn encode_single(&self) -> (node: Node)
        ensures
            node@ == encode_single(self@),
    {
        match self {
            Requirement::Courses { title, courses } => {
                if courses.0.len() == 1 {
                    assert(courses@[0] == courses.0@[0]@);
                    match &courses.0[0] {
                        CourseEntry::Course(course) => {
                            let mut entries: Vec<Entry> = Vec::new();
                            entries.push(optional_text_entry(Key::Title, title));
                            entries.push(node_entry(Key::Course, course.encode()));
                            assert(entries_view(entries@) =~= encode_single(self@)->Object_0);
                            return object_of(entries);
                        },
                        _ => {},
                    }
                }
                self.encode()
            },
            _ => self.encode(),
        }
    }
}

impl RequirementModule {
    /// Writes the module as its canonical mapping. A choice of one emphasis and a module of
    /// unknown shape have no document shape yet and are refused.
    ///
    /// `decode` reads the mapping back as the same module where the module has one
    /// requirement or a list of them and was itself given by `decode`. A module that is only
    /// a title is written as a mapping with its title alone; `decode` gives no such module
    /// and refuses that mapping, since it has no requirement list.
    pub fn encode(&self) -> (r: Result<Node, NotYetSupported>)
        ensures
            match r {
                Ok(node) => module_obstacle(self@) is None && node@ == encode_module(self@),
                Err(e) => module_obstacle(self@) == Some(e),
            },
    {
        let mut entries: Vec<Entry> = Vec::new();
        match self {
            RequirementModule::SingleBasicRequirement { title, requirement } => {
                entries.push(optional_text_entry(Key::Title, title));
                entries.push(node_entry(Key::RequirementList, requirement.encode_single()));
                assert(entries_view(entries@) =~= encode_module(self@)->Object_0);
                Ok(object_of(entries))
            },
            RequirementModule::BasicRequirements { title, requirements } => {
                let mut items: Vec<Node> = Vec::new();
                let mut i: usize = 0;
                while i < requirements.len()
                    invariant
                        i <= requirements.len(),
                        items@.len() == i,
                        forall|k: int|
                            0 <= k < i ==> items@[k]@ == encode_requirement(requirements@[k]@),
                    decreases requirements.len() - i,
                {
                    items.push(requirements[i].encode());
                    i = i + 1;
                }
                proof {
                    lemma_list_view(items);
                    assert(items_view(items@) =~= encode_requirement_list(
                        requirements_view(requirements@),
                    ));
                }
                entries.push(optional_text_entry(Key::Title, title));
                entries.push(node_entry(Key::RequirementList, Node::List(items)));
                assert(entries_view(entries@) =~= encode_module(self@)->Object_0);
                Ok(object_of(entries))
            },
            RequirementModule::Label { title } => {
                entries.push(text_entry(Key::Title, title.as_str()));
                assert(entries_view(entries@) =~= encode_module(self@)->Object_0);
                Ok(object_of(entries))
            },
            RequirementModule::Unimplemented(_) => Err(NotYetSupported::Unimplemented),
            RequirementModule::SelectOneEmphasis => Err(NotYetSupported::SelectOneEmphasis),
        }
    }
}

impl Requirements {
    /// Writes the requirements as their canonical node: a mapping for one module, a list
    /// for several. A choice of track has no document shape yet and is refused, and so is
    /// the first module that cannot be written.
    ///
    /// `decode` reads the node back as the same requirements where they were themselves
    /// given by `decode`; a module that is only a title is written and not read back.
    pub fn encode(&self) -> (r: Result<Node, NotYetSupported>)
        ensures
            match r {
                Ok(node) => requirements_obstacle(self@) is None && node@ == encode_requirements(
                    self@,
                ),
                Err(e) => requirements_obstacle(self@) == Some(e),
            },
    {
        match self {
            Requirements::Single(module) => module.encode(),
            Requirements::Many(modules) => {
                let mut items: Vec<Node> = Vec::new();
                let mut i: usize = 0;
                let ghost views = modules_view(modules@);
                while i < modules.len()
                    invariant
                        i <= modules.len(),
                        items@.len() == i,
                        views == modules_view(modules@),
                        self@ == RequirementsView::Many(views),
                        forall|k: int| 0 <= k < i ==> module_obstacle(#[trigger] views[k]) is None,
                        forall|k: int| 0 <= k < i ==> items@[k]@ == encode_module(views[k]),
                    decreases modules.len() - i,
                {
                    assert(views[i as int] == modules@[i as int]@);
                    match modules[i].encode() {
                        Ok(node) => {
                            items.push(node);
                        },
                        Err(e) => {
                            proof {
                                assert(first_obstacle_at(views, i as int));
                                let chosen = choose|k: int| first_obstacle_at(views, k);
                                if chosen < i {
                                    assert(module_obstacle(views[chosen]) is None);
                                } else if chosen > i {
                                    assert(module_obstacle(views[i as int]) is None);
                                }
                            }
                            return Err(e);
                        },
                    }
                    i = i + 1;
                }
                proof {
                    lemma_list_view(items);
                    assert(items_view(items@) =~= encode_module_list(views));
                    assert forall|k: int| !first_obstacle_at(views, k) by {
                        if 0 <= k < views.len() {
                            assert(module_obstacle(views[k]) is None);
                        }
                    }
                }
                Ok(Node::List(items))
            },
            Requirements::SelectTrack => Err(NotYetSupported::SelectTrack),
        }
    }
}

impl Program {
    /// Writes the programme as its canonical document. What cannot be written of its
    /// requirements is refused.
    ///
    /// `decode` reads the document back as the same programme where the programme was
    /// itself given by `decode`.
    pub fn encode(&self) -> (r: Result<Node, NotYetSupported>)
        ensures
            match (r, self@.requirements) {
                (Ok(node), None) => node@ == encode_program(self@),
                (Ok(node), Some(requirements)) => requirements_obstacle(requirements) is None
                    && node@ == encode_program(self@),
                (Err(e), Some(requirements)) => requirements_obstacle(requirements) == Some(e),
                (Err(_), None) => false,
            },
    {
        let mut entries: Vec<Entry> = Vec::new();
        entries.push(text_entry(Key::Title, self.title.as_str()));
        match &self.requirements {
            None => {
                assert(entries_view(entries@) =~= encode_program(self@)->Object_0);
            },
            Some(requirements) => {
                let node = match requirements.encode() {
                    Ok(node) => node,
                    Err(e) => {
                        return Err(e);
                    },
                };
                entries.push(node_entry(Key::Requirements, node));
                assert(entries_view(entries@) =~= encode_program(self@)->Object_0);
            },
        }
        Ok(object_of(entries))
    }
}

} // verus!
