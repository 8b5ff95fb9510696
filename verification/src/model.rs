//! The typed tree that a document is normalised into, and its mathematical values.

use crate::guid::Guid;
use crate::node::{Node, NodeView};
use vstd::prelude::*;

verus! {

/// A concrete course reference.
#[derive(PartialEq, Eq, Debug)]
pub struct Course {
    pub url: String,
    pub path: String,
    pub guid: Guid,
    pub name: Option<String>,
    pub number: String,
    pub subject_name: Option<String>,
    pub subject_code: String,
    /// The least number of credits, and the greatest where the course has a range.
    pub credits: (u8, Option<u8>),
}

/// A narrative entry: it carries the metadata of a course but names nothing to enrol in.
#[derive(PartialEq, Eq, Debug)]
pub struct Label {
    pub url: String,
    pub guid: Guid,
    pub name: String,
    pub subject_code: Option<String>,
    pub credits: (u8, Option<u8>),
    pub number: Option<String>,
}

/// A node of the course tree.
#[derive(PartialEq, Eq, Debug)]
pub enum CourseEntry {
    /// All of the nested entries are asked for.
    And(CourseEntries),
    /// Any one of the nested entries will do.
    Or(CourseEntries),
    /// A narrative entry.
    Label(Label),
    /// A course.
    Course(Course),
}

/// Course entries in document order.
#[derive(PartialEq, Eq, Debug)]
pub struct CourseEntries(pub Vec<CourseEntry>);

/// One requirement of a module.
#[derive(PartialEq, Eq, Debug)]
#[allow(inconsistent_fields)]
pub enum Requirement {
    /// The listed courses.
    Courses { title: Option<String>, courses: CourseEntries },
    /// A choice among the listed courses, where any are listed.
    SelectFromCourses { title: String, courses: Option<CourseEntries> },
    /// A requirement that is only described in words.
    Label { title: Option<String>, req_narrative: Option<String> },
}

/// A named group of requirements.
#[derive(PartialEq, Eq, Debug)]
#[allow(inconsistent_fields)]
pub enum RequirementModule {
    /// A module with one requirement.
    SingleBasicRequirement { title: Option<String>, requirement: Requirement },
    /// A module with a list of requirements.
    BasicRequirements { title: Option<String>, requirements: Vec<Requirement> },
    /// A choice of one emphasis: no document shape is known for it.
    SelectOneEmphasis,
    /// A module that is only a title.
    Label { title: String },
    /// A shape for which no mapping is known, kept as it was found.
    Unimplemented(Node),
}

/// The requirements of a programme.
#[derive(PartialEq, Eq, Debug)]
pub enum Requirements {
    /// One module.
    Single(RequirementModule),
    /// Modules in document order.
    Many(Vec<RequirementModule>),
    /// A choice of track: no document shape is known for it.
    SelectTrack,
}

/// An academic programme.
#[derive(PartialEq, Eq, Debug)]
pub struct Program {
    pub title: String,
    pub requirements: Option<Requirements>,
}

/// The full record of a course.
#[derive(PartialEq, Eq, Debug)]
pub struct CourseDetails {
    pub url: String,
    pub guid: Guid,
    pub path: String,
    pub subject_code: String,
    pub subject_name: Option<String>,
    pub number: String,
    pub name: String,
    pub credits_min: u8,
    pub credits_max: Option<u8>,
    pub description: String,
    pub prerequisite_narrative: Option<String>,
    pub prerequisite: Option<Guid>,
    pub corequisite_narrative: Option<String>,
    pub corequisite: Option<Guid>,
}

/// The mathematical value of a [`Course`].
pub struct CourseView {
    pub url: Seq<char>,
    pub path: Seq<char>,
    pub guid: Seq<u8>,
    pub name: Option<Seq<char>>,
    pub number: Seq<char>,
    pub subject_name: Option<Seq<char>>,
    pub subject_code: Seq<char>,
    pub credits: (u8, Option<u8>),
}

/// The mathematical value of a [`Label`].
pub struct LabelView {
    pub url: Seq<char>,
    pub guid: Seq<u8>,
    pub name: Seq<char>,
    pub subject_code: Option<Seq<char>>,
    pub credits: (u8, Option<u8>),
    pub number: Option<Seq<char>>,
}

/// The mathematical value of a [`CourseEntry`].
pub enum CourseEntryView {
    And(Seq<CourseEntryView>),
    Or(Seq<CourseEntryView>),
    Label(LabelView),
    Course(CourseView),
}

/// The mathematical value of a [`Requirement`].
#[allow(inconsistent_fields)]
pub enum RequirementView {
    Courses { title: Option<Seq<char>>, courses: Seq<CourseEntryView> },
    SelectFromCourses { title: Seq<char>, courses: Option<Seq<CourseEntryView>> },
    Label { title: Option<Seq<char>>, req_narrative: Option<Seq<char>> },
}

/// The mathematical value of a [`RequirementModule`].
#[allow(inconsistent_fields)]
pub enum RequirementModuleView {
    SingleBasicRequirement { title: Option<Seq<char>>, requirement: RequirementView },
    BasicRequirements { title: Option<Seq<char>>, requirements: Seq<RequirementView> },
    SelectOneEmphasis,
    Label { title: Seq<char> },
    Unimplemented(NodeView),
}

/// The mathematical value of [`Requirements`].
pub enum RequirementsView {
    Single(RequirementModuleView),
    Many(Seq<RequirementModuleView>),
    SelectTrack,
}

/// The mathematical value of a [`Program`].
pub struct ProgramView {
    pub title: Seq<char>,
    pub requirements: Option<RequirementsView>,
}

/// The mathematical value of [`CourseDetails`].
pub struct CourseDetailsView {
    pub url: Seq<char>,
    pub guid: Seq<u8>,
    pub path: Seq<char>,
    pub subject_code: Seq<char>,
    pub subject_name: Option<Seq<char>>,
    pub number: Seq<char>,
    pub name: Seq<char>,
    pub credits_min: u8,
    pub credits_max: Option<u8>,
    pub description: Seq<char>,
    pub prerequisite_narrative: Option<Seq<char>>,
    pub prerequisite: Option<Seq<u8>>,
    pub corequisite_narrative: Option<Seq<char>>,
    pub corequisite: Option<Seq<u8>>,
}

/// The characters of a text that may be absent.
pub open spec fn text_view(text: Option<String>) -> Option<Seq<char>> {
    match text {
        Some(s) => Some(s@),
        None => None,
    }
}

/// The bytes of an identifier that may be absent.
pub open spec fn guid_view(guid: Option<Guid>) -> Option<Seq<u8>> {
    match guid {
        Some(g) => Some(g@),
        None => None,
    }
}

impl View for Course {
    type V = CourseView;

    open spec fn view(&self) -> CourseView {
        CourseView {
            url: self.url@,
            path: self.path@,
            guid: self.guid@,
            name: text_view(self.name),
            number: self.number@,
            subject_name: text_view(self.subject_name),
            subject_code: self.subject_code@,
            credits: self.credits,
        }
    }
}

impl View for Label {
    type V = LabelView;

    open spec fn view(&self) -> LabelView {
        LabelView {
            url: self.url@,
            guid: self.guid@,
            name: self.name@,
            subject_code: text_view(self.subject_code),
            credits: self.credits,
            number: text_view(self.number),
        }
    }
}

impl View for CourseEntry {
    type V = CourseEntryView;

    open spec fn view(&self) -> CourseEntryView
        decreases self, 0nat,
    {
        match self {
            CourseEntry::And(entries) => CourseEntryView::And(
                first_course_entries_view(entries.0@, entries.0@.len()),
            ),
            CourseEntry::Or(entries) => CourseEntryView::Or(
                first_course_entries_view(entries.0@, entries.0@.len()),
            ),
            CourseEntry::Label(label) => CourseEntryView::Label(label@),
            CourseEntry::Course(course) => CourseEntryView::Course(course@),
        }
    }
}

/// The values of the first `n` of some course entries, in order.
pub open spec fn first_course_entries_view(entries: Seq<CourseEntry>, n: nat) -> Seq<
    CourseEntryView,
>
    decreases entries, n,
{
    if n == 0 || n > entries.len() {
        Seq::empty()
    } else {
        first_course_entries_view(entries, (n - 1) as nat).push(entries[n - 1].view())
    }
}

/// The values of course entries, in order.
pub open spec fn course_entries_view(entries: Seq<CourseEntry>) -> Seq<CourseEntryView> {
    Seq::new(entries.len(), |i: int| entries[i]@)
}

impl View for CourseEntries {
    type V = Seq<CourseEntryView>;

    open spec fn view(&self) -> Seq<CourseEntryView> {
        course_entries_view(self.0@)
    }
}

/// The values of the first `n` entries are the first `n` of the entries' values.
pub proof fn lemma_first_course_entries_view(entries: Seq<CourseEntry>, n: nat)
    requires
        n <= entries.len(),
    ensures
        first_course_entries_view(entries, n) == course_entries_view(entries).take(n as int),
    decreases n,
{
    let all = course_entries_view(entries);
    if n > 0 {
        lemma_first_course_entries_view(entries, (n - 1) as nat);
        assert(all.take(n as int) =~= all.take(n - 1).push(entries[n - 1]@));
    } else {
        assert(all.take(0) =~= Seq::<CourseEntryView>::empty());
    }
}

/// The value of a conjunction is the conjunction of its entries' values.
pub proof fn lemma_and_view(entries: CourseEntries)
    ensures
        CourseEntry::And(entries)@ == CourseEntryView::And(entries@),
{
    lemma_first_course_entries_view(entries.0@, entries.0@.len());
    assert(entries@.take(entries.0@.len() as int) =~= entries@);
}

/// The value of a disjunction is the disjunction of its entries' values.
pub proof fn lemma_or_view(entries: CourseEntries)
    ensures
        CourseEntry::Or(entries)@ == CourseEntryView::Or(entries@),
{
    lemma_first_course_entries_view(entries.0@, entries.0@.len());
    assert(entries@.take(entries.0@.len() as int) =~= entries@);
}

/// The value of course entries that may be absent.
pub open spec fn entries_option_view(entries: Option<CourseEntries>) -> Option<
    Seq<CourseEntryView>,
> {
    match entries {
        Some(e) => Some(e@),
        None => None,
    }
}

impl View for Requirement {
    type V = RequirementView;

    open spec fn view(&self) -> RequirementView {
        match self {
            Requirement::Courses { title, courses } => RequirementView::Courses {
                title: text_view(*title),
                courses: courses@,
            },
            Requirement::SelectFromCourses { title, courses } => {
                RequirementView::SelectFromCourses {
                    title: title@,
                    courses: entries_option_view(*courses),
                }
            },
            Requirement::Label { title, req_narrative } => RequirementView::Label {
                title: text_view(*title),
                req_narrative: text_view(*req_narrative),
            },
        }
    }
}

/// The values of requirements, in order.
pub open spec fn requirements_view(requirements: Seq<Requirement>) -> Seq<RequirementView> {
    Seq::new(requirements.len(), |i: int| requirements[i]@)
}

impl View for RequirementModule {
    type V = RequirementModuleView;

    open spec fn view(&self) -> RequirementModuleView {
        match self {
            RequirementModule::SingleBasicRequirement { title, requirement } => {
                RequirementModuleView::SingleBasicRequirement {
                    title: text_view(*title),
                    requirement: requirement@,
                }
            },
            RequirementModule::BasicRequirements { title, requirements } => {
                RequirementModuleView::BasicRequirements {
                    title: text_view(*title),
                    requirements: requirements_view(requirements@),
                }
            },
            RequirementModule::SelectOneEmphasis => RequirementModuleView::SelectOneEmphasis,
            RequirementModule::Label { title } => RequirementModuleView::Label { title: title@ },
            RequirementModule::Unimplemented(node) => RequirementModuleView::Unimplemented(node@),
        }
    }
}

/// The values of modules, in order.
pub open spec fn modules_view(modules: Seq<RequirementModule>) -> Seq<RequirementModuleView> {
    Seq::new(modules.len(), |i: int| modules[i]@)
}

impl View for Requirements {
    type V = RequirementsView;

    open spec fn view(&self) -> RequirementsView {
        match self {
            Requirements::Single(module) => RequirementsView::Single(module@),
            Requirements::Many(modules) => RequirementsView::Many(modules_view(modules@)),
            Requirements::SelectTrack => RequirementsView::SelectTrack,
        }
    }
}

impl View for Program {
    type V = ProgramView;

    open spec fn view(&self) -> ProgramView {
        ProgramView {
            title: self.title@,
            requirements: match self.requirements {
                Some(r) => Some(r@),
                None => None,
            },
        }
    }
}

impl View for CourseDetails {
    type V = CourseDetailsView;

    open spec fn view(&self) -> CourseDetailsView {
        CourseDetailsView {
            url: self.url@,
            guid: self.guid@,
            path: self.path@,
            subject_code: self.subject_code@,
            subject_name: text_view(self.subject_name),
            number: self.number@,
            name: self.name@,
            credits_min: self.credits_min,
            credits_max: self.credits_max,
            description: self.description@,
            prerequisite_narrative: text_view(self.prerequisite_narrative),
            prerequisite: guid_view(self.prerequisite),
            corequisite_narrative: text_view(self.corequisite_narrative),
            corequisite: guid_view(self.corequisite),
        }
    }
}

/// A copy of a text that may be absent.
fn clone_text(text: &Option<String>) -> (copy: Option<String>)
    ensures
        text_view(copy) == text_view(*text),
{
    match text {
        Some(t) => Some(t.clone()),
        None => None,
    }
}

impl Clone for Course {
    fn clone(&self) -> (copy: Course)
        ensures
            copy@ == self@,
    {
        Course {
            url: self.url.clone(),
            path: self.path.clone(),
            guid: self.guid,
            name: clone_text(&self.name),
            number: self.number.clone(),
            subject_name: clone_text(&self.subject_name),
            subject_code: self.subject_code.clone(),
            credits: self.credits,
        }
    }
}

impl Clone for Label {
    fn clone(&self) -> (copy: Label)
        ensures
            copy@ == self@,
    {
        Label {
            url: self.url.clone(),
            guid: self.guid,
            name: self.name.clone(),
            subject_code: clone_text(&self.subject_code),
            credits: self.credits,
            number: clone_text(&self.number),
        }
    }
}

impl Clone for CourseEntry {
    /// A copy of the entry and of everything below it.
    fn clone(&self) -> (copy: CourseEntry)
        ensures
            copy@ == self@,
        decreases self, 1nat,
    {
        match self {
            CourseEntry::And(entries) => {
                let inner = entries.clone();
                proof {
                    lemma_and_view(inner);
                    lemma_and_view(*entries);
                }
                CourseEntry::And(inner)
            },
            CourseEntry::Or(entries) => {
                let inner = entries.clone();
                proof {
                    lemma_or_view(inner);
                    lemma_or_view(*entries);
                }
                CourseEntry::Or(inner)
            },
            CourseEntry::Label(label) => CourseEntry::Label(label.clone()),
            CourseEntry::Course(course) => CourseEntry::Course(course.clone()),
        }
    }
}

impl Clone for CourseEntries {
    /// A copy of the entries and of everything below them.
    #[verifier::loop_isolation(false)]
    fn clone(&self) -> (copy: CourseEntries)
        ensures
            copy@ == self@,
        decreases self, 0nat,
    {
        let mut copies: Vec<CourseEntry> = Vec::new();
        let mut i: usize = 0;
        while i < self.0.len()
            invariant
                i <= self.0.len(),
                copies@.len() == i,
                forall|k: int| 0 <= k < i ==> copies@[k]@ == self.0@[k]@,
            decreases self.0.len() - i,
        {
            copies.push(self.0[i].clone());
            i = i + 1;
        }
        let copy = CourseEntries(copies);
        assert(copy@ =~= self@);
        copy
    }
}

impl Clone for Requirement {
    fn clone(&self) -> (copy: Requirement)
        ensures
            copy@ == self@,
    {
        match self {
            Requirement::Courses { title, courses } => Requirement::Courses {
                title: clone_text(title),
                courses: courses.clone(),
            },
            Requirement::SelectFromCourses { title, courses } => Requirement::SelectFromCourses {
                title: title.clone(),
                courses: match courses {
                    Some(entries) => Some(entries.clone()),
                    None => None,
                },
            },
            Requirement::Label { title, req_narrative } => Requirement::Label {
                title: clone_text(title),
                req_narrative: clone_text(req_narrative),
            },
        }
    }
}

impl Clone for RequirementModule {
    fn clone(&self) -> (copy: RequirementModule)
        ensures
            copy@ == self@,
    {
        match self {
            RequirementModule::SingleBasicRequirement { title, requirement } => {
                RequirementModule::SingleBasicRequirement {
                    title: clone_text(title),
                    requirement: requirement.clone(),
                }
            },
            RequirementModule::BasicRequirements { title, requirements } => {
                let mut copies: Vec<Requirement> = Vec::new();
                let mut i: usize = 0;
                while i < requirements.len()
                    invariant
                        i <= requirements.len(),
                        copies@.len() == i,
                        forall|k: int| 0 <= k < i ==> copies@[k]@ == requirements@[k]@,
                    decreases requirements.len() - i,
                {
                    copies.push(requirements[i].clone());
                    i = i + 1;
                }
                assert(requirements_view(copies@) =~= requirements_view(requirements@));
                RequirementModule::BasicRequirements {
                    title: clone_text(title),
                    requirements: copies,
                }
            },
            RequirementModule::SelectOneEmphasis => RequirementModule::SelectOneEmphasis,
            RequirementModule::Label { title } => RequirementModule::Label {
                title: title.clone(),
            },
            RequirementModule::Unimplemented(node) => RequirementModule::Unimplemented(
                node.clone(),
            ),
        }
    }
}

impl Clone for Requirements {
    fn clone(&self) -> (copy: Requirements)
        ensures
            copy@ == self@,
    {
        match self {
            Requirements::Single(module) => Requirements::Single(module.clone()),
            Requirements::Many(modules) => {
                let mut copies: Vec<RequirementModule> = Vec::new();
                let mut i: usize = 0;
                while i < modules.len()
                    invariant
                        i <= modules.len(),
                        copies@.len() == i,
                        forall|k: int| 0 <= k < i ==> copies@[k]@ == modules@[k]@,
                    decreases modules.len() - i,
                {
                    copies.push(modules[i].clone());
                    i = i + 1;
                }
                assert(modules_view(copies@) =~= modules_view(modules@));
                Requirements::Many(copies)
            },
            Requirements::SelectTrack => Requirements::SelectTrack,
        }
    }
}

impl Clone for Program {
    fn clone(&self) -> (copy: Program)
        ensures
            copy@ == self@,
    {
        Program {
            title: self.title.clone(),
            requirements: match &self.requirements {
                Some(requirements) => Some(requirements.clone()),
                None => None,
            },
        }
    }
}

impl Clone for CourseDetails {
    fn clone(&self) -> (copy: CourseDetails)
        ensures
            copy@ == self@,
    {
        CourseDetails {
            url: self.url.clone(),
            guid: self.guid,
            path: self.path.clone(),
            subject_code: self.subject_code.clone(),
            subject_name: clone_text(&self.subject_name),
            number: self.number.clone(),
            name: self.name.clone(),
            credits_min: self.credits_min,
            credits_max: self.credits_max,
            description: self.description.clone(),
            prerequisite_narrative: clone_text(&self.prerequisite_narrative),
            prerequisite: self.prerequisite,
            corequisite_narrative: clone_text(&self.corequisite_narrative),
            corequisite: self.corequisite,
        }
    }
}

} // verus!
