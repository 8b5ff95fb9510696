use vislog_core::encode::NotYetSupported;
use vislog_core::error::DecodeError;
use vislog_core::guid::Guid;
use vislog_core::key::Key;
use vislog_core::model::{
    Course, CourseEntries, CourseEntry, Label, Program, Requirement, RequirementModule,
    Requirements,
};
use vislog_core::node::{Entry, Node};
use vislog_core::scalars::{format_course_credits, format_flag, parse_course_credits, parse_flag};

fn text(s: &str) -> Node {
    Node::Text(s.to_string())
}

fn object(pairs: Vec<(&str, Node)>) -> Node {
    Node::Object(
        pairs.into_iter().map(|(key, value)| Entry { key: key.to_string(), value }).collect(),
    )
}

fn course(number: &str) -> Course {
    Course {
        url: "https://catalog.example.edu/course/1".to_string(),
        path: "/course/1".to_string(),
        guid: Guid::try_from("C7AD875E-1344-4D9B-A883-32E748890908").unwrap(),
        name: None,
        number: number.to_string(),
        subject_name: Some("Computer Science".to_string()),
        subject_code: "CSC".to_string(),
        credits: (3, Some(12)),
    }
}

fn label(name: &str) -> Label {
    Label {
        url: "https://catalog.example.edu/label".to_string(),
        guid: Guid::try_from("08DD69D3-9F67-4A81-A5AA-5738B6A79D2B").unwrap(),
        name: name.to_string(),
        subject_code: Some("CSC".to_string()),
        credits: (0, None),
        number: None,
    }
}

fn tree() -> CourseEntries {
    CourseEntries(vec![
        CourseEntry::Course(course("1")),
        CourseEntry::Or(CourseEntries(vec![
            CourseEntry::And(CourseEntries(vec![
                CourseEntry::Course(course("2")),
                CourseEntry::Label(label("with permission")),
            ])),
            CourseEntry::Course(course("3")),
            CourseEntry::Or(CourseEntries(vec![])),
        ])),
        CourseEntry::Label(label("see advisor")),
    ])
}

#[test]
fn credits_text_is_canonical() {
    assert_eq!(format_course_credits((3, None)), "3");
    assert_eq!(format_course_credits((3, Some(4))), "3-4");
    assert_eq!(format_course_credits((0, Some(0))), "0-0");
    assert_eq!(format_course_credits((10, Some(255))), "10-255");
    assert_eq!(format_course_credits((100, Some(99))), "100-99");
    assert_eq!(format_course_credits((255, None)), "255");
}

#[test]
fn credits_round_trip_for_every_range() {
    for min in 0..=255u8 {
        assert_eq!(parse_course_credits(&format_course_credits((min, None))), Ok((min, None)));
        for max in [0u8, 1, 9, 10, 99, 100, 199, 200, 255] {
            let range = (min, Some(max));
            assert_eq!(parse_course_credits(&format_course_credits(range)), Ok(range));
        }
    }
}

#[test]
fn flag_round_trip() {
    assert_eq!(format_flag(true), "True");
    assert_eq!(format_flag(false), "False");
    assert_eq!(parse_flag(format_flag(true)), Ok(true));
    assert_eq!(parse_flag(format_flag(false)), Ok(false));
}

#[test]
fn braced_identifier_round_trip() {
    let guid = Guid::try_from("08dd69d39f674a81a5aa5738b6a79d2b").unwrap();
    assert_eq!(guid.to_braced_string(), "{08DD69D3-9F67-4A81-A5AA-5738B6A79D2B}");
    assert_eq!(Guid::from_braced(&guid.to_braced_string()), Ok(guid));
}

#[test]
fn course_is_written_with_all_its_keys() {
    let expected = object(vec![
        ("url", text("https://catalog.example.edu/course/1")),
        ("path", text("/course/1")),
        ("guid", text("{C7AD875E-1344-4D9B-A883-32E748890908}")),
        ("name", Node::Null),
        ("number", text("255")),
        ("subject_name", text("Computer Science")),
        ("subject_code", text("CSC")),
        ("credits", text("3-12")),
        ("is_narrative", text("False")),
    ]);
    assert_eq!(course("255").encode(), expected);
}

#[test]
fn label_is_written_with_all_its_keys() {
    let expected = object(vec![
        ("url", text("https://catalog.example.edu/label")),
        ("path", text("")),
        ("guid", text("{08DD69D3-9F67-4A81-A5AA-5738B6A79D2B}")),
        ("name", text("see advisor")),
        ("number", Node::Null),
        ("subject_name", Node::Null),
        ("subject_code", text("CSC")),
        ("credits", text("0")),
        ("is_narrative", text("True")),
    ]);
    assert_eq!(label("see advisor").encode(), expected);
}

#[test]
fn tree_is_written_flat_with_markers() {
    let node = CourseEntries(vec![
        CourseEntry::Or(CourseEntries(vec![CourseEntry::Course(course("1"))])),
        CourseEntry::And(CourseEntries(vec![])),
    ])
    .encode();
    let marker = |word: &str| object(vec![("group", text(word))]);
    assert_eq!(
        node,
        Node::List(vec![
            marker("Or"),
            course("1").encode(),
            marker("End"),
            marker("And"),
            marker("End"),
        ])
    );
    assert_eq!(CourseEntries(vec![]).encode(), Node::List(vec![]));
}

#[test]
fn tree_round_trip() {
    assert_eq!(CourseEntries::decode(&tree().encode()), Ok(tree()));
}

#[test]
fn requirement_round_trip() {
    let requirements = vec![
        Requirement::Courses { title: Some("Core".to_string()), courses: tree() },
        Requirement::Courses { title: None, courses: CourseEntries(vec![]) },
        Requirement::SelectFromCourses { title: "Select two".to_string(), courses: Some(tree()) },
        Requirement::SelectFromCourses { title: "Select two".to_string(), courses: None },
        Requirement::Label { title: Some("Residency".to_string()), req_narrative: None },
        Requirement::Label { title: None, req_narrative: Some("<p>words</p>".to_string()) },
    ];
    for requirement in requirements {
        assert_eq!(Requirement::decode(&requirement.encode()), Ok(requirement));
    }
}

#[test]
fn single_course_under_a_selecting_title_keeps_its_variant() {
    let requirement = Requirement::Courses {
        title: Some("Select the capstone".to_string()),
        courses: CourseEntries(vec![CourseEntry::Course(course("498"))]),
    };
    assert_eq!(
        requirement.encode_single(),
        object(vec![("title", text("Select the capstone")), ("course", course("498").encode())])
    );
    let module = RequirementModule::SingleBasicRequirement {
        title: Some("Capstone".to_string()),
        requirement,
    };
    let written = module.encode().unwrap();
    assert_eq!(RequirementModule::decode(&written), Ok(module));
}

#[test]
fn single_requirement_that_is_no_single_course_is_written_in_full() {
    let requirement = Requirement::Courses { title: Some("Core".to_string()), courses: tree() };
    assert_eq!(requirement.encode_single(), requirement.encode());
    let label = Requirement::Label { title: None, req_narrative: None };
    assert_eq!(label.encode_single(), label.encode());
    let one_label = Requirement::Courses {
        title: None,
        courses: CourseEntries(vec![CourseEntry::Label(crate::label("x"))]),
    };
    assert_eq!(one_label.encode_single(), one_label.encode());
}

fn program() -> Program {
    Program {
        title: "Computer Science".to_string(),
        requirements: Some(Requirements::Many(vec![
            RequirementModule::BasicRequirements {
                title: Some("Core Courses".to_string()),
                requirements: vec![
                    Requirement::Courses { title: Some("Theory".to_string()), courses: tree() },
                    Requirement::SelectFromCourses {
                        title: "Select One of the Following".to_string(),
                        courses: None,
                    },
                ],
            },
            RequirementModule::SingleBasicRequirement {
                title: None,
                requirement: Requirement::Courses {
                    title: Some("Select the capstone".to_string()),
                    courses: CourseEntries(vec![CourseEntry::Course(course("498"))]),
                },
            },
            RequirementModule::SingleBasicRequirement {
                title: Some("Residency".to_string()),
                requirement: Requirement::Label {
                    title: Some("Residency".to_string()),
                    req_narrative: Some("Two semesters".to_string()),
                },
            },
            RequirementModule::BasicRequirements { title: None, requirements: vec![] },
        ])),
    }
}

#[test]
fn program_round_trip() {
    let written = program().encode().unwrap();
    assert_eq!(Program::decode(&written), Ok(program()));
    let again = Program::decode(&written).unwrap().encode().unwrap();
    assert_eq!(again, written);
}

#[test]
fn program_without_requirements_round_trip() {
    let bare = Program { title: "Art".to_string(), requirements: None };
    assert_eq!(bare.encode(), Ok(object(vec![("title", text("Art"))])));
    assert_eq!(Program::decode(&bare.encode().unwrap()), Ok(bare));
}

#[test]
fn single_module_round_trip() {
    let requirements = Requirements::Single(RequirementModule::BasicRequirements {
        title: Some("Core".to_string()),
        requirements: vec![Requirement::Label { title: None, req_narrative: None }],
    });
    assert_eq!(Requirements::decode(&requirements.encode().unwrap()), Ok(requirements));
}

#[test]
fn decoding_a_loose_document_then_writing_it_is_stable() {
    let loose = object(vec![
        ("id", Node::Number("7".to_string())),
        ("title", text("Mathematics")),
        (
            "requirements",
            object(vec![
                ("requirement_list", object(vec![
                    ("course", object(vec![
                        ("is_narrative", text("False")),
                        ("credits", text("004")),
                        ("guid", text("{c7ad875e13444d9ba88332e748890908}")),
                        ("url", text("u")),
                        ("path", text("p")),
                        ("name", text("Calculus")),
                        ("number", text("211")),
                        ("subject_code", text("MAT")),
                        ("subject_name", Node::Null),
                        ("seats", Node::Number("30".to_string())),
                    ])),
                ])),
                ("title", Node::Null),
                ("req_narrative", text("dropped")),
            ]),
        ),
    ]);
    let decoded = Program::decode(&loose).unwrap();
    let written = decoded.encode().unwrap();
    assert_ne!(written, loose);
    assert_eq!(Program::decode(&written), Ok(decoded));
}

#[test]
fn variants_without_a_document_shape_are_refused() {
    assert_eq!(RequirementModule::SelectOneEmphasis.encode(), Err(NotYetSupported::SelectOneEmphasis));
    assert_eq!(Requirements::SelectTrack.encode(), Err(NotYetSupported::SelectTrack));
    assert_eq!(
        Requirements::Single(RequirementModule::SelectOneEmphasis).encode(),
        Err(NotYetSupported::SelectOneEmphasis)
    );
    assert_eq!(
        Requirements::Many(vec![
            RequirementModule::Label { title: "a".to_string() },
            RequirementModule::SelectOneEmphasis,
            RequirementModule::Unimplemented(Node::Null),
        ])
        .encode(),
        Err(NotYetSupported::SelectOneEmphasis)
    );
    assert_eq!(
        Requirements::Many(vec![
            RequirementModule::Unimplemented(Node::Null),
            RequirementModule::SelectOneEmphasis,
        ])
        .encode(),
        Err(NotYetSupported::Unimplemented)
    );
    let program = Program { title: "x".to_string(), requirements: Some(Requirements::SelectTrack) };
    assert_eq!(program.encode(), Err(NotYetSupported::SelectTrack));
}

#[test]
fn label_module_is_written_and_kept_module_is_refused() {
    let only_title = RequirementModule::Label { title: "General".to_string() };
    assert_eq!(only_title.encode(), Ok(object(vec![("title", text("General"))])));
    // Such a module is written, and is not read back: the mapping has no requirement list.
    assert_eq!(
        RequirementModule::decode(&only_title.encode().unwrap()),
        Err(DecodeError::MissingField(Key::RequirementList))
    );
    let kept = object(vec![("odd", Node::List(vec![Node::Bool(true), Node::Null]))]);
    assert_eq!(
        RequirementModule::Unimplemented(kept).encode(),
        Err(NotYetSupported::Unimplemented)
    );
}

#[test]
fn node_clone_is_deep() {
    let node = object(vec![
        ("a", Node::List(vec![text("x"), Node::Number("1.5".to_string()), Node::Bool(false)])),
        ("a", object(vec![("b", Node::Null)])),
    ]);
    let copy = node.clone();
    assert_eq!(copy, node);
    if let Node::Object(entries) = &node {
        assert_eq!(entries[1].clone(), entries[1]);
    }
}

#[test]
fn typed_records_can_be_copied() {
    let first = program();
    let copy = first.clone();
    assert_eq!(copy, first);
    assert_eq!(tree().clone(), tree());
    assert_eq!(course("1").clone(), course("1"));
    assert_eq!(label("x").clone(), label("x"));
    let kept = RequirementModule::Unimplemented(object(vec![("a", Node::Null)]));
    assert_eq!(kept.clone(), kept);
    assert_eq!(Requirements::SelectTrack.clone(), Requirements::SelectTrack);
}

#[test]
fn requirement_put_together_by_hand_may_be_read_back_as_a_choice() {
    let courses = Requirement::Courses { title: Some("Select two".to_string()), courses: tree() };
    assert_eq!(
        Requirement::decode(&courses.encode()),
        Ok(Requirement::SelectFromCourses { title: "Select two".to_string(), courses: Some(tree()) })
    );
    let label = Requirement::Label { title: Some("Select two".to_string()), req_narrative: None };
    assert_eq!(
        Requirement::decode(&label.encode()),
        Ok(Requirement::SelectFromCourses { title: "Select two".to_string(), courses: None })
    );
}
