//! Decoding of requirements, requirement modules and the requirements of a programme.
//!
//! The documents carry no tag that says which variant a record is. Each decoder decides
//! from the keys that are there, from the kind of their values and, for a requirement,
//! from the words of its title.

use crate::courses::{course_entries_spec, decode_leaf, leaf_spec, repeated_or, Leaf, LeafView};
use crate::error::{decoded, DecodeError, DecodeErrorView, Shape};
use crate::key::Key;
use crate::model::{
    entries_option_view, modules_view, requirements_view, text_view, CourseEntries, CourseEntry,
    CourseEntryView, Requirement, RequirementModule, RequirementModuleView, RequirementView,
    Requirements, RequirementsView,
};
use crate::node::{
    entries_view, field, items_view, lemma_list_view, lemma_object_view, repeated, Entry,
    EntryView, Node, NodeView,
};
use crate::record::{as_optional_text, locate, optional_text, optional_text_field};
use crate::text::{contains_text, occurs_in};
use vstd::prelude::*;

verus! {

/// The rule that tells a choice among courses from the other requirements: somewhere in
/// its title stand the letters `Select`, the first of them a capital.
pub open spec fn selects(title: Seq<char>) -> bool {
    occurs_in("Select"@, title)
}

/// The variant of a requirement with the given title, narrative and course entries.
///
/// A title that selects makes a choice among courses, whether or not courses are listed.
/// Otherwise listed courses make a course requirement, and a record without courses is a
/// label.
pub open spec fn classify(
    title: Option<Seq<char>>,
    narrative: Option<Seq<char>>,
    courses: Option<Seq<CourseEntryView>>,
) -> RequirementView {
    if title is Some && selects(title->0) {
        RequirementView::SelectFromCourses { title: title->0, courses }
    } else if courses is Some {
        RequirementView::Courses { title, courses: courses->0 }
    } else {
        RequirementView::Label { title, req_narrative: narrative }
    }
}

/// The first of the keys of a requirement that occurs more than once.
pub open spec fn requirement_duplicate(e: Seq<EntryView>) -> Option<Key> {
    repeated_or(e, Key::Title, repeated_or(e, Key::ReqNarrative, repeated_or(e, Key::Course, None)))
}

/// The course entries under the key `course`, which may be missing.
pub open spec fn courses_field(e: Seq<EntryView>) -> Result<
    Option<Seq<CourseEntryView>>,
    DecodeErrorView,
> {
    match field(e, Key::Course.name_spec()) {
        None => Ok(None),
        Some(value) => match course_entries_spec(value) {
            Ok(tree) => Ok(Some(tree)),
            Err(x) => Err(x),
        },
    }
}

/// The requirement that a node describes.
///
/// The node must be a mapping in which none of `title`, `req_narrative` and `course`
/// occurs twice. `title` and `req_narrative` must be there and hold a text or null;
/// `course` may be missing.
pub open spec fn requirement_spec(n: NodeView) -> Result<RequirementView, DecodeErrorView> {
    match n {
        NodeView::Object(e) => {
            let title = optional_text_field(e, Key::Title);
            let narrative = optional_text_field(e, Key::ReqNarrative);
            let courses = courses_field(e);
            if requirement_duplicate(e) is Some {
                Err(DecodeErrorView::DuplicateField(requirement_duplicate(e)->0))
            } else if title is Err {
                Err(title->Err_0)
            } else if narrative is Err {
                Err(narrative->Err_0)
            } else if courses is Err {
                Err(courses->Err_0)
            } else {
                Ok(classify(title->Ok_0, narrative->Ok_0, courses->Ok_0))
            }
        },
        _ => Err(DecodeErrorView::WrongShape { expected: Shape::Object }),
    }
}

/// The requirements that the first `n` nodes of a list describe; the first node that
/// describes none decides the error, which carries its position.
pub open spec fn requirement_list_spec(items: Seq<NodeView>, n: nat) -> Result<
    Seq<RequirementView>,
    DecodeErrorView,
>
    decreases n,
{
    if n == 0 || n > items.len() {
        Ok(Seq::empty())
    } else {
        match requirement_list_spec(items, (n - 1) as nat) {
            Err(x) => Err(x),
            Ok(done) => match requirement_spec(items[n - 1]) {
                Ok(requirement) => Ok(done.push(requirement)),
                Err(x) => Err(DecodeErrorView::AtIndex(n - 1, Box::new(x))),
            },
        }
    }
}

/// The title of a mapping that wraps a single course: a missing key counts as null.
pub open spec fn wrapper_title(e: Seq<EntryView>) -> Result<Option<Seq<char>>, DecodeErrorView> {
    match field(e, Key::Title.name_spec()) {
        None => Ok(None),
        Some(value) => as_optional_text(Some(value), Key::Title),
    }
}

/// The course requirement that a mapping is which wraps a single course: its `course` is
/// one mapping that describes a course, not a label and not a list. Any other mapping
/// gives `None`.
pub open spec fn single_course_spec(e: Seq<EntryView>) -> Option<RequirementView> {
    if repeated(e, Key::Title.name_spec()) || repeated(e, Key::Course.name_spec()) {
        None
    } else {
        match (wrapper_title(e), field(e, Key::Course.name_spec())) {
            (Ok(title), Some(NodeView::Object(inner))) => match leaf_spec(inner) {
                Ok(LeafView::Course(course)) => Some(
                    RequirementView::Courses {
                        title,
                        courses: seq![CourseEntryView::Course(course)],
                    },
                ),
                _ => None,
            },
            _ => None,
        }
    }
}

/// What stands under `requirement_list`: one requirement or a list of them.
pub enum PayloadView {
    /// One requirement.
    Single(RequirementView),
    /// Requirements in document order.
    Many(Seq<RequirementView>),
}

/// The requirements that the value under `requirement_list` describes.
///
/// Three shapes are tried in this order, each taken whole or not at all: a mapping that
/// wraps a single course, a mapping that is one requirement, and a list of requirements.
pub open spec fn payload_spec(p: NodeView) -> Result<PayloadView, DecodeErrorView> {
    match p {
        NodeView::Object(e) => match single_course_spec(e) {
            Some(requirement) => Ok(PayloadView::Single(requirement)),
            None => match requirement_spec(p) {
                Ok(requirement) => Ok(PayloadView::Single(requirement)),
                Err(x) => Err(x),
            },
        },
        NodeView::List(items) => match requirement_list_spec(items, items.len()) {
            Ok(requirements) => Ok(PayloadView::Many(requirements)),
            Err(x) => Err(x),
        },
        _ => Err(
            DecodeErrorView::WrongType { key: Key::RequirementList, expected: Shape::ObjectOrList },
        ),
    }
}

/// The first of the keys of a module that occurs more than once.
pub open spec fn module_duplicate(e: Seq<EntryView>) -> Option<Key> {
    repeated_or(
        e,
        Key::Title,
        repeated_or(e, Key::ReqNarrative, repeated_or(e, Key::RequirementList, None)),
    )
}

/// The narrative of a module, which may be missing; where it is there it must hold a text
/// or null.
pub open spec fn module_narrative(e: Seq<EntryView>) -> Result<Option<Seq<char>>, DecodeErrorView> {
    match field(e, Key::ReqNarrative.name_spec()) {
        None => Ok(None),
        Some(value) => as_optional_text(Some(value), Key::ReqNarrative),
    }
}

/// The requirements of a module, which must be there.
pub open spec fn module_payload(e: Seq<EntryView>) -> Result<PayloadView, DecodeErrorView> {
    match field(e, Key::RequirementList.name_spec()) {
        None => Err(DecodeErrorView::MissingField(Key::RequirementList)),
        Some(value) => payload_spec(value),
    }
}

/// The module that a node describes.
///
/// The node must be a mapping in which none of `title`, `req_narrative` and
/// `requirement_list` occurs twice. A list under `requirement_list` makes a module of
/// several requirements, a single mapping a module of one.
pub open spec fn module_spec(n: NodeView) -> Result<RequirementModuleView, DecodeErrorView> {
    match n {
        NodeView::Object(e) => {
            let title = optional_text_field(e, Key::Title);
            let narrative = module_narrative(e);
            let payload = module_payload(e);
            if module_duplicate(e) is Some {
                Err(DecodeErrorView::DuplicateField(module_duplicate(e)->0))
            } else if title is Err {
                Err(title->Err_0)
            } else if narrative is Err {
                Err(narrative->Err_0)
            } else if payload is Err {
                Err(payload->Err_0)
            } else {
                match payload->Ok_0 {
                    PayloadView::Single(requirement) => Ok(
                        RequirementModuleView::SingleBasicRequirement {
                            title: title->Ok_0,
                            requirement,
                        },
                    ),
                    PayloadView::Many(requirements) => Ok(
                        RequirementModuleView::BasicRequirements {
                            title: title->Ok_0,
                            requirements,
                        },
                    ),
                }
            }
        },
        _ => Err(DecodeErrorView::WrongShape { expected: Shape::Object }),
    }
}

/// The modules that the first `n` nodes of a list describe; the first node that describes
/// none decides the error, which carries its position.
pub open spec fn module_list_spec(items: Seq<NodeView>, n: nat) -> Result<
    Seq<RequirementModuleView>,
    DecodeErrorView,
>
    decreases n,
{
    if n == 0 || n > items.len() {
        Ok(Seq::empty())
    } else {
        match module_list_spec(items, (n - 1) as nat) {
            Err(x) => Err(x),
            Ok(done) => match module_spec(items[n - 1]) {
                Ok(module) => Ok(done.push(module)),
                Err(x) => Err(DecodeErrorView::AtIndex(n - 1, Box::new(x))),
            },
        }
    }
}

/// The requirements that a node describes: a mapping is one module, a list is a list of
/// modules in the same order.
pub open spec fn requirements_spec(n: NodeView) -> Result<RequirementsView, DecodeErrorView> {
    match n {
        NodeView::Object(_) => match module_spec(n) {
            Ok(module) => Ok(RequirementsView::Single(module)),
            Err(x) => Err(x),
        },
        NodeView::List(items) => match module_list_spec(items, items.len()) {
            Ok(modules) => Ok(RequirementsView::Many(modules)),
            Err(x) => Err(x),
        },
        _ => Err(DecodeErrorView::WrongShape { expected: Shape::ObjectOrList }),
    }
}

/// Whether a title makes its requirement a choice among courses.
pub fn title_selects(title: &str) -> (r: bool)
    ensures
        r == selects(title@),
{
    contains_text(title, "Select")
}

impl Requirement {
    /// Decodes a requirement, and decides its variant from its title and from whether it
    /// lists courses.
    pub fn decode(node: &Node) -> (r: Result<Requirement, DecodeError>)
        ensures
            decoded(r) == requirement_spec(node@),
    {
        let entries = match node {
            Node::Object(entries) => entries,
            _ => {
                return Err(DecodeError::WrongShape { expected: Shape::Object });
            },
        };
        proof {
            lemma_object_view(*entries);
        }
        let title = match locate(entries, Key::Title) {
            Ok(found) => found,
            Err(e) => {
                return Err(e);
            },
        };
        let narrative = match locate(entries, Key::ReqNarrative) {
            Ok(found) => found,
            Err(e) => {
                return Err(e);
            },
        };
        let course = match locate(entries, Key::Course) {
            Ok(found) => found,
            Err(e) => {
                return Err(e);
            },
        };
        let title = match optional_text(title, Key::Title) {
            Ok(v) => v,
            Err(e) => {
                return Err(e);
            },
        };
        let req_narrative = match optional_text(narrative, Key::ReqNarrative) {
            Ok(v) => v,
            Err(e) => {
                return Err(e);
            },
        };
        let courses = match course {
            None => None,
            Some(value) => match CourseEntries::decode(value) {
                Ok(tree) => Some(tree),
                Err(e) => {
                    return Err(e);
                },
            },
        };
        Ok(Requirement::assemble(title, req_narrative, courses))
    }

    /// The requirement with the given title, narrative and course entries, in the variant
    /// that the title and the presence of courses call for.
    pub fn assemble(
        title: Option<String>,
        req_narrative: Option<String>,
        courses: Option<CourseEntries>,
    ) -> (r: Requirement)
        ensures
            r@ == classify(
                text_view(title),
                text_view(req_narrative),
                entries_option_view(courses),
            ),
    {
        match title {
            Some(text) => {
                if title_selects(text.as_str()) {
                    return Requirement::SelectFromCourses { title: text, courses };
                }
                match courses {
                    Some(courses) => Requirement::Courses { title: Some(text), courses },
                    None => Requirement::Label { title: Some(text), req_narrative },
                }
            },
            None => match courses {
                Some(courses) => Requirement::Courses { title: None, courses },
                None => Requirement::Label { title: None, req_narrative },
            },
        }
    }
}

/// Once an element has failed, the elements after it are not looked at.
proof fn lemma_requirement_list_failed(items: Seq<NodeView>, n: nat, m: nat)
    requires
        n <= m <= items.len(),
        requirement_list_spec(items, n) is Err,
    ensures
        requirement_list_spec(items, m) == requirement_list_spec(items, n),
    decreases m - n,
{
    if n < m {
        lemma_requirement_list_failed(items, n, (m - 1) as nat);
    }
}

/// Once an element has failed, the elements after it are not looked at.
proof fn lemma_module_list_failed(items: Seq<NodeView>, n: nat, m: nat)
    requires
        n <= m <= items.len(),
        module_list_spec(items, n) is Err,
    ensures
        module_list_spec(items, m) == module_list_spec(items, n),
    decreases m - n,
{
    if n < m {
        lemma_module_list_failed(items, n, (m - 1) as nat);
    }
}

/// Decodes every element of a list of requirements, in order. The first element that
/// cannot be decoded decides the error, which carries its position.
pub fn decode_requirement_list(items: &Vec<Node>) -> (r: Result<Vec<Requirement>, DecodeError>)
    ensures
        match r {
            Ok(list) => requirement_list_spec(items_view(items@), items@.len()) == Ok::<
                _,
                DecodeErrorView,
            >(requirements_view(list@)),
            Err(e) => requirement_list_spec(items_view(items@), items@.len()) == Err::<
                Seq<RequirementView>,
                _,
            >(e@),
        },
{
    let ghost nodes = items_view(items@);
    let mut list: Vec<Requirement> = Vec::new();
    let mut i: usize = 0;
    assert(requirements_view(list@) =~= Seq::<RequirementView>::empty());
    while i < items.len()
        invariant
            i <= items.len(),
            nodes == items_view(items@),
            requirement_list_spec(nodes, i as nat) == Ok::<_, DecodeErrorView>(
                requirements_view(list@),
            ),
        decreases items.len() - i,
    {
        let ghost before = requirements_view(list@);
        assert(nodes[i as int] == items@[i as int]@);
        match Requirement::decode(&items[i]) {
            Ok(requirement) => {
                list.push(requirement);
                assert(requirements_view(list@) =~= before.push(requirement@));
            },
            Err(e) => {
                proof {
                    lemma_requirement_list_failed(nodes, (i + 1) as nat, items@.len());
                }
                return Err(DecodeError::AtIndex(i, Box::new(e)));
            },
        }
        i = i + 1;
    }
    Ok(list)
}

/// Decodes a mapping that wraps a single course into the course requirement that it
/// stands for; any other mapping gives `None`.
pub fn decode_single_course(entries: &Vec<Entry>) -> (r: Option<Requirement>)
    ensures
        match r {
            Some(requirement) => single_course_spec(entries_view(entries@)) == Some(requirement@),
            None => single_course_spec(entries_view(entries@)) is None,
        },
{
    let title = match locate(entries, Key::Title) {
        Ok(found) => found,
        Err(_) => {
            return None;
        },
    };
    let course = match locate(entries, Key::Course) {
        Ok(found) => found,
        Err(_) => {
            return None;
        },
    };
    let title = match title {
        None => None,
        Some(_) => match optional_text(title, Key::Title) {
            Ok(text) => text,
            Err(_) => {
                return None;
            },
        },
    };
    match course {
        Some(Node::Object(inner)) => {
            proof {
                lemma_object_view(*inner);
            }
            match decode_leaf(inner) {
                Ok(Leaf::Course(course)) => {
                    let entry = CourseEntry::Course(course);
                    let mut list: Vec<CourseEntry> = Vec::new();
                    list.push(entry);
                    let courses = CourseEntries(list);
                    assert(courses@ =~= seq![entry@]);
                    Some(Requirement::Courses { title, courses })
                },
                _ => None,
            }
        },
        _ => None,
    }
}

/// What stands under `requirement_list`: one requirement or a list of them.
#[derive(PartialEq, Eq, Debug)]
pub enum Payload {
    /// One requirement.
    Single(Requirement),
    /// Requirements in document order.
    Many(Vec<Requirement>),
}

impl View for Payload {
    type V = PayloadView;

    open spec fn view(&self) -> PayloadView {
        match self {
            Payload::Single(requirement) => PayloadView::Single(requirement@),
            Payload::Many(requirements) => PayloadView::Many(requirements_view(requirements@)),
        }
    }
}

/// Decodes the value under `requirement_list`, trying in turn the mapping that wraps a
/// single course, the mapping that is one requirement, and the list of requirements.
pub fn decode_payload(node: &Node) -> (r: Result<Payload, DecodeError>)
    ensures
        decoded(r) == payload_spec(node@),
{
    match node {
        Node::Object(entries) => {
            proof {
                lemma_object_view(*entries);
            }
            match decode_single_course(entries) {
                Some(requirement) => Ok(Payload::Single(requirement)),
                None => match Requirement::decode(node) {
                    Ok(requirement) => Ok(Payload::Single(requirement)),
                    Err(e) => Err(e),
                },
            }
        },
        Node::List(items) => {
            proof {
                lemma_list_view(*items);
            }
            match decode_requirement_list(items) {
                Ok(requirements) => Ok(Payload::Many(requirements)),
                Err(e) => Err(e),
            }
        },
        _ => Err(
            DecodeError::WrongType { key: Key::RequirementList, expected: Shape::ObjectOrList },
        ),
    }
}

impl RequirementModule {
    /// Decodes a module: one with several requirements where `requirement_list` holds a
    /// list, one with a single requirement where it holds a mapping.
    pub fn decode(node: &Node) -> (r: Result<RequirementModule, DecodeError>)
        ensures
            decoded(r) == module_spec(node@),
    {
        let entries = match node {
            Node::Object(entries) => entries,
            _ => {
                return Err(DecodeError::WrongShape { expected: Shape::Object });
            },
        };
        proof {
            lemma_object_view(*entries);
        }
        let title = match locate(entries, Key::Title) {
            Ok(found) => found,
            Err(e) => {
                return Err(e);
            },
        };
        let narrative = match locate(entries, Key::ReqNarrative) {
            Ok(found) => found,
            Err(e) => {
                return Err(e);
            },
        };
        let list = match locate(entries, Key::RequirementList) {
            Ok(found) => found,
            Err(e) => {
                return Err(e);
            },
        };
        let title = match optional_text(title, Key::Title) {
            Ok(v) => v,
            Err(e) => {
                return Err(e);
            },
        };
        match narrative {
            None => {},
            Some(_) => match optional_text(narrative, Key::ReqNarrative) {
                Ok(_) => {},
                Err(e) => {
                    return Err(e);
                },
            },
        }
        let payload = match list {
            None => {
                return Err(DecodeError::MissingField(Key::RequirementList));
            },
            Some(value) => match decode_payload(value) {
                Ok(payload) => payload,
                Err(e) => {
                    return Err(e);
                },
            },
        };
        match payload {
            Payload::Single(requirement) => Ok(
                RequirementModule::SingleBasicRequirement { title, requirement },
            ),
            Payload::Many(requirements) => Ok(
                RequirementModule::BasicRequirements { title, requirements },
            ),
        }
    }
}

/// Decodes every element of a list of modules, in order. The first element that cannot be
/// decoded decides the error, which carries its position.
pub fn decode_module_list(items: &Vec<Node>) -> (r: Result<Vec<RequirementModule>, DecodeError>)
    ensures
        match r {
            Ok(list) => module_list_spec(items_view(items@), items@.len()) == Ok::<
                _,
                DecodeErrorView,
            >(modules_view(list@)),
            Err(e) => module_list_spec(items_view(items@), items@.len()) == Err::<
                Seq<RequirementModuleView>,
                _,
            >(e@),
        },
{
    let ghost nodes = items_view(items@);
    let mut list: Vec<RequirementModule> = Vec::new();
    let mut i: usize = 0;
    assert(modules_view(list@) =~= Seq::<RequirementModuleView>::empty());
    while i < items.len()
        invariant
            i <= items.len(),
            nodes == items_view(items@),
            module_list_spec(nodes, i as nat) == Ok::<_, DecodeErrorView>(modules_view(list@)),
        decreases items.len() - i,
    {
        let ghost before = modules_view(list@);
        assert(nodes[i as int] == items@[i as int]@);
        match RequirementModule::decode(&items[i]) {
            Ok(module) => {
                list.push(module);
                assert(modules_view(list@) =~= before.push(module@));
            },
            Err(e) => {
                proof {
                    lemma_module_list_failed(nodes, (i + 1) as nat, items@.len());
                }
                return Err(DecodeError::AtIndex(i, Box::new(e)));
            },
        }
        i = i + 1;
    }
    Ok(list)
}

impl Requirements {
    /// Decodes the requirements of a programme: a mapping is a single module, a list is a
    /// list of modules in the same order.
    pub fn decode(node: &Node) -> (r: Result<Requirements, DecodeError>)
        ensures
            decoded(r) == requirements_spec(node@),
    {
        match node {
            Node::Object(_) => match RequirementModule::decode(node) {
                Ok(module) => Ok(Requirements::Single(module)),
                Err(e) => Err(e),
            },
            Node::List(items) => {
                proof {
                    lemma_list_view(*items);
                }
                match decode_module_list(items) {
                    Ok(modules) => Ok(Requirements::Many(modules)),
                    Err(e) => Err(e),
                }
            },
            _ => Err(DecodeError::WrongShape { expected: Shape::ObjectOrList }),
        }
    }
}

} // verus!
