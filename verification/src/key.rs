//! The keys that the decoders recognise in a keyed mapping.

use vstd::prelude::*;

verus! {

/// A recognised key of the source documents.
#[derive(Clone, Copy, PartialEq, Eq, Debug, Hash, Structural)]
pub enum Key {
    /// `title`
    Title,
    /// `req_narrative`
    ReqNarrative,
    /// `requirement_list`
    RequirementList,
    /// `requirements`
    Requirements,
    /// `course`
    Course,
    /// `group`
    Group,
    /// `url`
    Url,
    /// `path`
    Path,
    /// `guid`
    Guid,
    /// `GUID`, the spelling used by course details and requisites
    UpperGuid,
    /// `name`
    Name,
    /// `number`
    Number,
    /// `subject_name`
    SubjectName,
    /// `subject_code`
    SubjectCode,
    /// `credits`
    Credits,
    /// `is_narrative`
    IsNarrative,
    /// `credits_min`
    CreditsMin,
    /// `credits_max`
    CreditsMax,
    /// `description`
    Description,
    /// `prerequisite_narrative`
    PrerequisiteNarrative,
    /// `prerequisite`
    Prerequisite,
    /// `corequisite_narrative`
    CorequisiteNarrative,
    /// `corequisite`
    Corequisite,
}

impl Key {
    /// The key as it is spelled in a document.
    pub open spec fn name_spec(self) -> Seq<char> {
        match self {
            Key::Title => "title"@,
            Key::ReqNarrative => "req_narrative"@,
            Key::RequirementList => "requirement_list"@,
            Key::Requirements => "requirements"@,
            Key::Course => "course"@,
            Key::Group => "group"@,
            Key::Url => "url"@,
            Key::Path => "path"@,
            Key::Guid => "guid"@,
            Key::UpperGuid => "GUID"@,
            Key::Name => "name"@,
            Key::Number => "number"@,
            Key::SubjectName => "subject_name"@,
            Key::SubjectCode => "subject_code"@,
            Key::Credits => "credits"@,
            Key::IsNarrative => "is_narrative"@,
            Key::CreditsMin => "credits_min"@,
            Key::CreditsMax => "credits_max"@,
            Key::Description => "description"@,
            Key::PrerequisiteNarrative => "prerequisite_narrative"@,
            Key::Prerequisite => "prerequisite"@,
            Key::CorequisiteNarrative => "corequisite_narrative"@,
            Key::Corequisite => "corequisite"@,
        }
    }

    /// The key as it is spelled in a document.
    pub fn name(self) -> (r: &'static str)
        ensures
            r@ == self.name_spec(),
    {
        match self {
            Key::Title => "title",
            Key::ReqNarrative => "req_narrative",
            Key::RequirementList => "requirement_list",
            Key::Requirements => "requirements",
            Key::Course => "course",
            Key::Group => "group",
            Key::Url => "url",
            Key::Path => "path",
            Key::Guid => "guid",
            Key::UpperGuid => "GUID",
            Key::Name => "name",
            Key::Number => "number",
            Key::SubjectName => "subject_name",
            Key::SubjectCode => "subject_code",
            Key::Credits => "credits",
            Key::IsNarrative => "is_narrative",
            Key::CreditsMin => "credits_min",
            Key::CreditsMax => "credits_max",
            Key::Description => "description",
            Key::PrerequisiteNarrative => "prerequisite_narrative",
            Key::Prerequisite => "prerequisite",
            Key::CorequisiteNarrative => "corequisite_narrative",
            Key::Corequisite => "corequisite",
        }
    }
}

} // verus!
