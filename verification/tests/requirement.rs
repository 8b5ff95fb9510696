use vislog_core::error::{DecodeError, Shape};
use vislog_core::guid::Guid;
use vislog_core::key::Key;
use vislog_core::model::{
    Course, CourseEntries, CourseEntry, Label, Program, Requirement, RequirementModule,
    Requirements,
};
use vislog_core::node::{Entry, Node};
use vislog_core::requirement::{
    decode_module_list, decode_payload, decode_requirement_list, decode_single_course,
    title_selects, Payload,
};

fn text(s: &str) -> Node {
    Node::Text(s.to_string())
}

fn entries(pairs: Vec<(&str, Node)>) -> Vec<Entry> {
    pairs.into_iter().map(|(key, value)| Entry { key: key.to_string(), value }).collect()
}

fn object(pairs: Vec<(&str, Node)>) -> Node {
    Node::Object(entries(pairs))
}

fn course_node(number: &str) -> Node {
    object(vec![
        ("url", text("https://catalog.example.edu/course/1")),
        ("path", text("/course/1")),
        ("guid", text("{C7AD875E-1344-4D9B-A883-32E748890908}")),
        ("name", text("Algorithms")),
        ("number", text(number)),
        ("subject_name", Node::Null),
        ("subject_code", text("CSC")),
        ("credits", text("3")),
        ("is_narrative", text("False")),
    ])
}

fn label_node(name: &str) -> Node {
    object(vec![
        ("url", text("https://catalog.example.edu/course/1")),
        ("path", text("/course/1")),
        ("guid", text("{C7AD875E-1344-4D9B-A883-32E748890908}")),
        ("name", text(name)),
        ("number", Node::Null),
        ("subject_name", Node::Null),
        ("subject_code", Node::Null),
        ("credits", text("0")),
        ("is_narrative", text("True")),
    ])
}

fn course(number: &str) -> Course {
    Course {
        url: "https://catalog.example.edu/course/1".to_string(),
        path: "/course/1".to_string(),
        guid: Guid::try_from("C7AD875E-1344-4D9B-A883-32E748890908").unwrap(),
        name: Some("Algorithms".to_string()),
        number: number.to_string(),
        subject_name: None,
        subject_code: "CSC".to_string(),
        credits: (3, None),
    }
}

fn label(name: &str) -> Label {
    Label {
        url: "https://catalog.example.edu/course/1".to_string(),
        guid: Guid::try_from("C7AD875E-1344-4D9B-A883-32E748890908").unwrap(),
        name: name.to_string(),
        subject_code: None,
        credits: (0, None),
        number: None,
    }
}

fn courses(numbers: &[&str]) -> CourseEntries {
    CourseEntries(numbers.iter().map(|n| CourseEntry::Course(course(n))).collect())
}

fn requirement_node(title: Node, course: Option<Node>) -> Node {
    let mut pairs = vec![("title", title), ("req_narrative", text("<p>words</p>"))];
    if let Some(course) = course {
        pairs.push(("course", course));
    }
    object(pairs)
}

#[test]
fn select_title_without_courses_is_a_selection() {
    let node = object(vec![
        ("title", text("Select One of the Following")),
        ("req_narrative", Node::Null),
    ]);
    assert_eq!(
        Requirement::decode(&node),
        Ok(Requirement::SelectFromCourses {
            title: "Select One of the Following".to_string(),
            courses: None,
        })
    );
}

#[test]
fn select_title_with_courses_is_a_selection() {
    let node = requirement_node(
        text("Select two courses"),
        Some(Node::List(vec![course_node("1"), course_node("2")])),
    );
    assert_eq!(
        Requirement::decode(&node),
        Ok(Requirement::SelectFromCourses {
            title: "Select two courses".to_string(),
            courses: Some(courses(&["1", "2"])),
        })
    );
}

#[test]
fn plain_title_with_courses_is_a_course_requirement() {
    let node = requirement_node(
        text("General Education"),
        Some(Node::List(vec![course_node("1"), course_node("2")])),
    );
    assert_eq!(
        Requirement::decode(&node),
        Ok(Requirement::Courses {
            title: Some("General Education".to_string()),
            courses: courses(&["1", "2"]),
        })
    );
}

#[test]
fn lower_case_select_does_not_select() {
    let node = requirement_node(text("Please select"), Some(course_node("1")));
    assert_eq!(
        Requirement::decode(&node),
        Ok(Requirement::Courses {
            title: Some("Please select".to_string()),
            courses: courses(&["1"]),
        })
    );
    assert!(title_selects("Select"));
    assert!(title_selects("PreSelected"));
    assert!(!title_selects("select"));
    assert!(!title_selects("SELECT"));
    assert!(!title_selects("Sel ect"));
    assert!(!title_selects(""));
}

#[test]
fn null_title_with_courses_is_a_course_requirement() {
    let node = requirement_node(Node::Null, Some(course_node("7")));
    assert_eq!(
        Requirement::decode(&node),
        Ok(Requirement::Courses { title: None, courses: courses(&["7"]) })
    );
}

#[test]
fn requirement_without_courses_is_a_label() {
    let node = requirement_node(text("Residency"), None);
    assert_eq!(
        Requirement::decode(&node),
        Ok(Requirement::Label {
            title: Some("Residency".to_string()),
            req_narrative: Some("<p>words</p>".to_string()),
        })
    );
    let bare = object(vec![("req_narrative", Node::Null), ("title", Node::Null)]);
    assert_eq!(
        Requirement::decode(&bare),
        Ok(Requirement::Label { title: None, req_narrative: None })
    );
}

#[test]
fn assemble_follows_the_same_rule() {
    assert_eq!(
        Requirement::assemble(Some("Select".to_string()), Some("n".to_string()), None),
        Requirement::SelectFromCourses { title: "Select".to_string(), courses: None }
    );
    assert_eq!(
        Requirement::assemble(Some("Core".to_string()), None, Some(courses(&["1"]))),
        Requirement::Courses { title: Some("Core".to_string()), courses: courses(&["1"]) }
    );
    assert_eq!(
        Requirement::assemble(None, Some("n".to_string()), None),
        Requirement::Label { title: None, req_narrative: Some("n".to_string()) }
    );
}

#[test]
fn duplicate_title_fails_whatever_the_values() {
    let node = object(vec![
        ("title", text("One")),
        ("req_narrative", Node::Null),
        ("title", text("Two")),
    ]);
    assert_eq!(Requirement::decode(&node), Err(DecodeError::DuplicateField(Key::Title)));
    let odd = object(vec![
        ("title", Node::Number("1".to_string())),
        ("title", Node::List(vec![])),
    ]);
    assert_eq!(Requirement::decode(&odd), Err(DecodeError::DuplicateField(Key::Title)));
    let same = object(vec![
        ("title", text("One")),
        ("req_narrative", Node::Null),
        ("title", text("One")),
    ]);
    assert_eq!(Requirement::decode(&same), Err(DecodeError::DuplicateField(Key::Title)));
    assert_eq!(Key::Title.name(), "title");
}

#[test]
fn duplicate_narrative_and_course_fail() {
    let node = object(vec![
        ("title", Node::Null),
        ("req_narrative", Node::Null),
        ("req_narrative", Node::Null),
    ]);
    assert_eq!(Requirement::decode(&node), Err(DecodeError::DuplicateField(Key::ReqNarrative)));
    let node = object(vec![
        ("course", course_node("1")),
        ("title", Node::Null),
        ("req_narrative", Node::Null),
        ("course", course_node("1")),
    ]);
    assert_eq!(Requirement::decode(&node), Err(DecodeError::DuplicateField(Key::Course)));
}

#[test]
fn missing_required_keys_fail() {
    assert_eq!(
        Requirement::decode(&object(vec![("req_narrative", Node::Null)])),
        Err(DecodeError::MissingField(Key::Title))
    );
    assert_eq!(
        Requirement::decode(&object(vec![("title", Node::Null)])),
        Err(DecodeError::MissingField(Key::ReqNarrative))
    );
    assert_eq!(Requirement::decode(&object(vec![])), Err(DecodeError::MissingField(Key::Title)));
}

#[test]
fn unknown_keys_are_ignored() {
    let node = object(vec![
        ("id", Node::Number("12".to_string())),
        ("title", text("Residency")),
        ("extra", object(vec![("title", text("inner"))])),
        ("req_narrative", Node::Null),
        ("id", Node::Bool(false)),
    ]);
    assert_eq!(
        Requirement::decode(&node),
        Ok(Requirement::Label { title: Some("Residency".to_string()), req_narrative: None })
    );
}

#[test]
fn requirement_of_wrong_kind_fails() {
    assert_eq!(
        Requirement::decode(&Node::List(vec![])),
        Err(DecodeError::WrongShape { expected: Shape::Object })
    );
    assert_eq!(
        Requirement::decode(&requirement_node(Node::Bool(true), None)),
        Err(DecodeError::WrongType { key: Key::Title, expected: Shape::OptionalText })
    );
    assert_eq!(
        Requirement::decode(&requirement_node(Node::Null, Some(Node::Null))),
        Err(DecodeError::WrongShape { expected: Shape::ObjectOrList })
    );
}

#[test]
fn requirement_with_label_entry() {
    let node = requirement_node(text("Advice"), Some(label_node("See your advisor")));
    assert_eq!(
        Requirement::decode(&node),
        Ok(Requirement::Courses {
            title: Some("Advice".to_string()),
            courses: CourseEntries(vec![CourseEntry::Label(label("See your advisor"))]),
        })
    );
}

#[test]
fn single_course_wrapper() {
    let wrapper = entries(vec![("title", text("Select the capstone")), ("course", course_node("498"))]);
    assert_eq!(
        decode_single_course(&wrapper),
        Some(Requirement::Courses {
            title: Some("Select the capstone".to_string()),
            courses: courses(&["498"]),
        })
    );
    let untitled = entries(vec![("course", course_node("498"))]);
    assert_eq!(
        decode_single_course(&untitled),
        Some(Requirement::Courses { title: None, courses: courses(&["498"]) })
    );
    assert_eq!(decode_single_course(&entries(vec![("title", text("x"))])), None);
    assert_eq!(
        decode_single_course(&entries(vec![("course", Node::List(vec![course_node("1")]))])),
        None
    );
    assert_eq!(decode_single_course(&entries(vec![("course", label_node("x"))])), None);
    assert_eq!(
        decode_single_course(&entries(vec![
            ("title", Node::Bool(true)),
            ("course", course_node("1"))
        ])),
        None
    );
    assert_eq!(
        decode_single_course(&entries(vec![
            ("course", course_node("1")),
            ("course", course_node("1"))
        ])),
        None
    );
}

#[test]
fn payload_shapes_in_order() {
    // A wrapper of one course wins over the requirement that the same mapping would be.
    let both = object(vec![
        ("title", text("Select the capstone")),
        ("req_narrative", Node::Null),
        ("course", course_node("498")),
    ]);
    assert_eq!(
        decode_payload(&both),
        Ok(Payload::Single(Requirement::Courses {
            title: Some("Select the capstone".to_string()),
            courses: courses(&["498"]),
        }))
    );
    // A label under `course` is no wrapper of one course, so the mapping is a requirement.
    let with_label = object(vec![
        ("title", text("Select the capstone")),
        ("req_narrative", Node::Null),
        ("course", label_node("x")),
    ]);
    assert_eq!(
        decode_payload(&with_label),
        Ok(Payload::Single(Requirement::SelectFromCourses {
            title: "Select the capstone".to_string(),
            courses: Some(CourseEntries(vec![CourseEntry::Label(label("x"))])),
        }))
    );
    assert_eq!(
        decode_payload(&Node::List(vec![requirement_node(text("A"), None)])),
        Ok(Payload::Many(vec![Requirement::Label {
            title: Some("A".to_string()),
            req_narrative: Some("<p>words</p>".to_string()),
        }]))
    );
    assert_eq!(
        decode_payload(&text("x")),
        Err(DecodeError::WrongType { key: Key::RequirementList, expected: Shape::ObjectOrList })
    );
    assert_eq!(
        decode_payload(&object(vec![("title", Node::Null)])),
        Err(DecodeError::MissingField(Key::ReqNarrative))
    );
}

#[test]
fn requirement_list_carries_the_position_of_a_failure() {
    let items = vec![
        requirement_node(text("A"), None),
        object(vec![("title", text("B")), ("title", text("B")), ("req_narrative", Node::Null)]),
        text("junk"),
    ];
    assert_eq!(
        decode_requirement_list(&items),
        Err(DecodeError::AtIndex(1, Box::new(DecodeError::DuplicateField(Key::Title))))
    );
    assert_eq!(decode_requirement_list(&vec![]), Ok(vec![]));
}

#[test]
fn module_with_list_of_requirements() {
    let node = object(vec![
        ("title", text("Core Courses")),
        ("req_narrative", Node::Null),
        (
            "requirement_list",
            Node::List(vec![
                requirement_node(text("Select one"), None),
                requirement_node(text("Theory"), Some(Node::List(vec![course_node("1")]))),
            ]),
        ),
    ]);
    assert_eq!(
        RequirementModule::decode(&node),
        Ok(RequirementModule::BasicRequirements {
            title: Some("Core Courses".to_string()),
            requirements: vec![
                Requirement::SelectFromCourses { title: "Select one".to_string(), courses: None },
                Requirement::Courses { title: Some("Theory".to_string()), courses: courses(&["1"]) },
            ],
        })
    );
}

#[test]
fn module_with_empty_list() {
    let node = object(vec![("title", Node::Null), ("requirement_list", Node::List(vec![]))]);
    assert_eq!(
        RequirementModule::decode(&node),
        Ok(RequirementModule::BasicRequirements { title: None, requirements: vec![] })
    );
}

#[test]
fn module_with_single_requirement() {
    let node = object(vec![
        ("title", text("Capstone")),
        ("requirement_list", requirement_node(text("Thesis"), None)),
    ]);
    assert_eq!(
        RequirementModule::decode(&node),
        Ok(RequirementModule::SingleBasicRequirement {
            title: Some("Capstone".to_string()),
            requirement: Requirement::Label {
                title: Some("Thesis".to_string()),
                req_narrative: Some("<p>words</p>".to_string()),
            },
        })
    );
}

#[test]
fn module_with_single_course_wrapper() {
    let node = object(vec![
        ("title", text("Capstone")),
        ("requirement_list", object(vec![("course", course_node("498"))])),
    ]);
    assert_eq!(
        RequirementModule::decode(&node),
        Ok(RequirementModule::SingleBasicRequirement {
            title: Some("Capstone".to_string()),
            requirement: Requirement::Courses { title: None, courses: courses(&["498"]) },
        })
    );
}

#[test]
fn module_errors() {
    assert_eq!(
        RequirementModule::decode(&object(vec![("requirement_list", Node::List(vec![]))])),
        Err(DecodeError::MissingField(Key::Title))
    );
    assert_eq!(
        RequirementModule::decode(&object(vec![("title", Node::Null)])),
        Err(DecodeError::MissingField(Key::RequirementList))
    );
    assert_eq!(
        RequirementModule::decode(&object(vec![
            ("title", Node::Null),
            ("requirement_list", Node::Null)
        ])),
        Err(DecodeError::WrongType { key: Key::RequirementList, expected: Shape::ObjectOrList })
    );
    assert_eq!(
        RequirementModule::decode(&object(vec![
            ("title", Node::Null),
            ("requirement_list", Node::List(vec![])),
            ("requirement_list", Node::List(vec![])),
        ])),
        Err(DecodeError::DuplicateField(Key::RequirementList))
    );
    assert_eq!(
        RequirementModule::decode(&object(vec![
            ("title", Node::Null),
            ("req_narrative", Node::Bool(false)),
            ("requirement_list", Node::List(vec![])),
        ])),
        Err(DecodeError::WrongType { key: Key::ReqNarrative, expected: Shape::OptionalText })
    );
    assert_eq!(
        RequirementModule::decode(&Node::Null),
        Err(DecodeError::WrongShape { expected: Shape::Object })
    );
    assert_eq!(
        RequirementModule::decode(&object(vec![
            ("title", Node::Null),
            ("requirement_list", Node::List(vec![requirement_node(Node::Null, None), Node::Null])),
        ])),
        Err(DecodeError::AtIndex(
            1,
            Box::new(DecodeError::WrongShape { expected: Shape::Object })
        ))
    );
}

fn module_node(title: &str) -> Node {
    object(vec![("title", text(title)), ("requirement_list", Node::List(vec![]))])
}

fn module(title: &str) -> RequirementModule {
    RequirementModule::BasicRequirements { title: Some(title.to_string()), requirements: vec![] }
}

#[test]
fn requirements_single_and_many() {
    assert_eq!(Requirements::decode(&module_node("A")), Ok(Requirements::Single(module("A"))));
    assert_eq!(
        Requirements::decode(&Node::List(vec![module_node("A"), module_node("B"), module_node("C")])),
        Ok(Requirements::Many(vec![module("A"), module("B"), module("C")]))
    );
    assert_eq!(Requirements::decode(&Node::List(vec![])), Ok(Requirements::Many(vec![])));
    assert_eq!(decode_module_list(&vec![module_node("A")]), Ok(vec![module("A")]));
}

#[test]
fn requirements_list_failure_is_not_skipped() {
    let node = Node::List(vec![module_node("A"), object(vec![("title", text("B"))]), module_node("C")]);
    assert_eq!(
        Requirements::decode(&node),
        Err(DecodeError::AtIndex(1, Box::new(DecodeError::MissingField(Key::RequirementList))))
    );
    assert_eq!(
        Requirements::decode(&text("x")),
        Err(DecodeError::WrongShape { expected: Shape::ObjectOrList })
    );
}

#[test]
fn program_with_and_without_requirements() {
    let node = object(vec![
        ("title", text("Computer Science")),
        ("requirements", Node::List(vec![module_node("A")])),
    ]);
    assert_eq!(
        Program::decode(&node),
        Ok(Program {
            title: "Computer Science".to_string(),
            requirements: Some(Requirements::Many(vec![module("A")])),
        })
    );
    assert_eq!(
        Program::decode(&object(vec![("title", text("Art"))])),
        Ok(Program { title: "Art".to_string(), requirements: None })
    );
    assert_eq!(
        Program::decode(&object(vec![("requirements", Node::Null), ("title", text("Art"))])),
        Ok(Program { title: "Art".to_string(), requirements: None })
    );
}

#[test]
fn program_errors() {
    assert_eq!(
        Program::decode(&object(vec![("title", Node::Null)])),
        Err(DecodeError::WrongType { key: Key::Title, expected: Shape::Text })
    );
    assert_eq!(Program::decode(&object(vec![])), Err(DecodeError::MissingField(Key::Title)));
    assert_eq!(
        Program::decode(&object(vec![("title", text("a")), ("title", text("a"))])),
        Err(DecodeError::DuplicateField(Key::Title))
    );
    assert_eq!(
        Program::decode(&object(vec![
            ("title", text("a")),
            ("requirements", Node::Null),
            ("requirements", Node::Null)
        ])),
        Err(DecodeError::DuplicateField(Key::Requirements))
    );
    assert_eq!(
        Program::decode(&object(vec![("title", text("a")), ("requirements", text("none"))])),
        Err(DecodeError::WrongShape { expected: Shape::ObjectOrList })
    );
    assert_eq!(
        Program::decode(&Node::List(vec![])),
        Err(DecodeError::WrongShape { expected: Shape::Object })
    );
}
