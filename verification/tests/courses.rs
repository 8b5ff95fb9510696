use vislog_core::courses::{
    decode_leaf, decode_raw_entries, decode_raw_entry, CoursesParser, Leaf, RawCourseEntry,
};
use vislog_core::error::{DecodeError, Shape, StructureError};
use vislog_core::guid::{GUIDParsingError, Guid};
use vislog_core::key::Key;
use vislog_core::model::{Course, CourseEntries, CourseEntry, Label};
use vislog_core::node::{Entry, Node};

fn text(s: &str) -> Node {
    Node::Text(s.to_string())
}

fn entries(pairs: Vec<(&str, Node)>) -> Vec<Entry> {
    pairs.into_iter().map(|(key, value)| Entry { key: key.to_string(), value }).collect()
}

fn object(pairs: Vec<(&str, Node)>) -> Node {
    Node::Object(entries(pairs))
}

fn leaf_fields(number: Node, name: Node, narrative: &str) -> Vec<(&'static str, Node)> {
    vec![
        ("url", text("https://catalog.example.edu/course/1")),
        ("path", text("/course/1")),
        ("guid", text("{C7AD875E-1344-4D9B-A883-32E748890908}")),
        ("name", name),
        ("number", number),
        ("subject_name", text("Computer Science")),
        ("subject_code", text("CSC")),
        ("credits", text("3-4")),
        ("is_narrative", text(narrative)),
    ]
}

fn sample_guid() -> Guid {
    Guid::try_from("C7AD875E-1344-4D9B-A883-32E748890908").unwrap()
}

fn sample_course(number: &str) -> Course {
    Course {
        url: "https://catalog.example.edu/course/1".to_string(),
        path: "/course/1".to_string(),
        guid: sample_guid(),
        name: Some("Algorithms".to_string()),
        number: number.to_string(),
        subject_name: Some("Computer Science".to_string()),
        subject_code: "CSC".to_string(),
        credits: (3, Some(4)),
    }
}

fn sample_label(name: &str) -> Label {
    Label {
        url: "https://catalog.example.edu/course/1".to_string(),
        guid: sample_guid(),
        name: name.to_string(),
        subject_code: Some("CSC".to_string()),
        credits: (3, Some(4)),
        number: Some("255".to_string()),
    }
}

fn course_node(number: &str) -> Node {
    object(leaf_fields(text(number), text("Algorithms"), "False"))
}

fn label_node(name: &str) -> Node {
    object(leaf_fields(text("255"), text(name), "True"))
}

fn marker(word: &str) -> Node {
    object(vec![("group", text(word))])
}

#[test]
fn single_course_object() {
    let node = course_node("255");
    assert_eq!(
        CourseEntries::decode(&node),
        Ok(CourseEntries(vec![CourseEntry::Course(sample_course("255"))]))
    );
}

#[test]
fn single_label_object() {
    let node = label_node("Consult your advisor");
    assert_eq!(
        CourseEntries::decode(&node),
        Ok(CourseEntries(vec![CourseEntry::Label(sample_label("Consult your advisor"))]))
    );
}

#[test]
fn course_without_number_fails() {
    let null_number = object(leaf_fields(Node::Null, text("Algorithms"), "False"));
    assert_eq!(CourseEntries::decode(&null_number), Err(DecodeError::NullField(Key::Number)));
    let mut fields = leaf_fields(text("255"), text("Algorithms"), "False");
    fields.retain(|(key, _)| *key != "number");
    assert_eq!(CourseEntries::decode(&object(fields)), Err(DecodeError::MissingField(Key::Number)));
}

#[test]
fn course_without_subject_code_fails() {
    let mut fields = leaf_fields(text("255"), text("Algorithms"), "False");
    fields[6] = ("subject_code", Node::Null);
    assert_eq!(CourseEntries::decode(&object(fields)), Err(DecodeError::NullField(Key::SubjectCode)));
}

#[test]
fn course_without_name_is_fine() {
    let node = object(leaf_fields(text("255"), Node::Null, "False"));
    let mut expected = sample_course("255");
    expected.name = None;
    assert_eq!(
        CourseEntries::decode(&node),
        Ok(CourseEntries(vec![CourseEntry::Course(expected)]))
    );
}

#[test]
fn label_without_name_fails() {
    let null_name = object(leaf_fields(text("255"), Node::Null, "True"));
    assert_eq!(CourseEntries::decode(&null_name), Err(DecodeError::NullField(Key::Name)));
    let mut fields = leaf_fields(text("255"), text("Advice"), "True");
    fields.retain(|(key, _)| *key != "name");
    assert_eq!(CourseEntries::decode(&object(fields)), Err(DecodeError::MissingField(Key::Name)));
}

#[test]
fn label_without_number_is_fine() {
    let node = object(leaf_fields(Node::Null, text("Advice"), "True"));
    let mut expected = sample_label("Advice");
    expected.number = None;
    assert_eq!(
        CourseEntries::decode(&node),
        Ok(CourseEntries(vec![CourseEntry::Label(expected)]))
    );
}

#[test]
fn leaf_errors_by_field() {
    let fields = || leaf_fields(text("255"), text("Algorithms"), "False");
    let with = |index: usize, key: &'static str, value: Node| {
        let mut f = fields();
        f[index] = (key, value);
        decode_leaf(&entries(f))
    };
    assert_eq!(
        with(0, "url", Node::Null),
        Err(DecodeError::WrongType { key: Key::Url, expected: Shape::Text })
    );
    assert_eq!(
        with(1, "path", Node::Bool(true)),
        Err(DecodeError::WrongType { key: Key::Path, expected: Shape::Text })
    );
    assert_eq!(
        with(2, "guid", text("{C7AD875E}")),
        Err(DecodeError::Identifier(GUIDParsingError::TooShort))
    );
    assert_eq!(
        with(2, "guid", text("C7AD875E-1344-4D9B-A883-32E748890908")),
        Err(DecodeError::Identifier(GUIDParsingError::InvalidCharacter))
    );
    assert_eq!(
        with(3, "name", Node::Number("3".to_string())),
        Err(DecodeError::WrongType { key: Key::Name, expected: Shape::OptionalText })
    );
    assert_eq!(
        with(7, "credits", text("3-4-5")),
        Err(DecodeError::InvalidCredits("3-4-5".to_string()))
    );
    assert_eq!(
        with(7, "credits", Node::Null),
        Err(DecodeError::WrongType { key: Key::Credits, expected: Shape::Text })
    );
    assert_eq!(
        with(8, "is_narrative", text("true")),
        Err(DecodeError::InvalidFlag("true".to_string()))
    );
    assert_eq!(with(8, "other", text("True")), Err(DecodeError::MissingField(Key::IsNarrative)));
    assert_eq!(with(0, "URL", text("x")), Err(DecodeError::MissingField(Key::Url)));
}

#[test]
fn leaf_duplicate_key_wins_over_other_errors() {
    let mut fields = leaf_fields(text("255"), text("Algorithms"), "False");
    fields.push(("credits", text("bad")));
    fields[0] = ("url", Node::Null);
    assert_eq!(decode_leaf(&entries(fields)), Err(DecodeError::DuplicateField(Key::Credits)));
}

#[test]
fn leaf_ignores_unknown_keys() {
    let mut fields = leaf_fields(text("255"), text("Algorithms"), "False");
    fields.insert(0, ("legacy_id", Node::Number("17".to_string())));
    fields.push(("legacy_id", Node::List(vec![])));
    assert_eq!(decode_leaf(&entries(fields)), Ok(Leaf::Course(sample_course("255"))));
}

#[test]
fn raw_entry_markers() {
    assert_eq!(decode_raw_entry(&marker("And")), Ok(RawCourseEntry::And));
    assert_eq!(decode_raw_entry(&marker("Or")), Ok(RawCourseEntry::Or));
    assert_eq!(decode_raw_entry(&marker("End")), Ok(RawCourseEntry::End));
    assert_eq!(
        decode_raw_entry(&marker("and")),
        Err(DecodeError::Structure(StructureError::UnknownConnective("and".to_string())))
    );
    assert_eq!(
        decode_raw_entry(&object(vec![("group", Node::Null)])),
        Err(DecodeError::WrongType { key: Key::Group, expected: Shape::Text })
    );
    assert_eq!(
        decode_raw_entry(&object(vec![("group", text("And")), ("group", text("And"))])),
        Err(DecodeError::DuplicateField(Key::Group))
    );
    assert_eq!(
        decode_raw_entry(&text("And")),
        Err(DecodeError::WrongShape { expected: Shape::Object })
    );
    assert_eq!(decode_raw_entry(&course_node("1")), Ok(RawCourseEntry::Course(sample_course("1"))));
    assert_eq!(decode_raw_entry(&label_node("x")), Ok(RawCourseEntry::Label(sample_label("x"))));
}

#[test]
fn raw_entries_carry_the_position_of_a_failure() {
    let items = vec![course_node("1"), marker("Or"), marker("Xor"), text("junk")];
    assert_eq!(
        decode_raw_entries(&items),
        Err(DecodeError::AtIndex(
            2,
            Box::new(DecodeError::Structure(StructureError::UnknownConnective("Xor".to_string())))
        ))
    );
    assert_eq!(decode_raw_entries(&vec![]), Ok(vec![]));
}

#[test]
fn flat_list_of_courses() {
    let node = Node::List(vec![course_node("1"), label_node("x"), course_node("2")]);
    assert_eq!(
        CourseEntries::decode(&node),
        Ok(CourseEntries(vec![
            CourseEntry::Course(sample_course("1")),
            CourseEntry::Label(sample_label("x")),
            CourseEntry::Course(sample_course("2")),
        ]))
    );
    assert_eq!(CourseEntries::decode(&Node::List(vec![])), Ok(CourseEntries(vec![])));
}

#[test]
fn nested_groups() {
    let node = Node::List(vec![
        course_node("1"),
        marker("Or"),
        course_node("2"),
        marker("And"),
        course_node("3"),
        course_node("4"),
        marker("End"),
        marker("End"),
        marker("And"),
        marker("End"),
        course_node("5"),
    ]);
    let expected = CourseEntries(vec![
        CourseEntry::Course(sample_course("1")),
        CourseEntry::Or(CourseEntries(vec![
            CourseEntry::Course(sample_course("2")),
            CourseEntry::And(CourseEntries(vec![
                CourseEntry::Course(sample_course("3")),
                CourseEntry::Course(sample_course("4")),
            ])),
        ])),
        CourseEntry::And(CourseEntries(vec![])),
        CourseEntry::Course(sample_course("5")),
    ]);
    assert_eq!(CourseEntries::decode(&node), Ok(expected));
}

#[test]
fn deep_nesting_does_not_use_the_call_stack() {
    let depth = 20_000;
    let mut raw = Vec::new();
    for _ in 0..depth {
        raw.push(RawCourseEntry::And);
    }
    for _ in 0..depth {
        raw.push(RawCourseEntry::End);
    }
    let tree = CoursesParser::new(raw).parse().unwrap();
    let mut levels = 0;
    let mut here = &tree;
    while let Some(CourseEntry::And(inner)) = here.0.first() {
        levels += 1;
        here = inner;
    }
    assert_eq!(levels, depth);
    // Take the tree apart from the outside in, so that dropping it does not recurse.
    let mut pending = vec![tree];
    while let Some(CourseEntries(items)) = pending.pop() {
        for item in items {
            match item {
                CourseEntry::And(inner) | CourseEntry::Or(inner) => pending.push(inner),
                _ => {}
            }
        }
    }
}

#[test]
fn end_marker_without_group_fails() {
    let raw = vec![
        RawCourseEntry::Or,
        RawCourseEntry::End,
        RawCourseEntry::Course(sample_course("1")),
        RawCourseEntry::End,
        RawCourseEntry::End,
    ];
    assert_eq!(CoursesParser::new(raw).parse(), Err(StructureError::UnmatchedEnd { index: 3 }));
    assert_eq!(
        CoursesParser::new(vec![RawCourseEntry::End]).parse(),
        Err(StructureError::UnmatchedEnd { index: 0 })
    );
    assert_eq!(
        CourseEntries::decode(&Node::List(vec![course_node("1"), marker("End")])),
        Err(DecodeError::Structure(StructureError::UnmatchedEnd { index: 1 }))
    );
}

#[test]
fn unclosed_group_fails() {
    let raw = vec![
        RawCourseEntry::Or,
        RawCourseEntry::And,
        RawCourseEntry::Course(sample_course("1")),
        RawCourseEntry::End,
        RawCourseEntry::And,
    ];
    assert_eq!(CoursesParser::new(raw).parse(), Err(StructureError::UnclosedGroup { open: 2 }));
    assert_eq!(
        CourseEntries::decode(&Node::List(vec![marker("Or")])),
        Err(DecodeError::Structure(StructureError::UnclosedGroup { open: 1 }))
    );
}

#[test]
fn unmatched_end_is_reported_before_an_unclosed_group() {
    let raw = vec![RawCourseEntry::End, RawCourseEntry::And];
    assert_eq!(CoursesParser::new(raw).parse(), Err(StructureError::UnmatchedEnd { index: 0 }));
}

#[test]
fn course_entries_of_other_shapes_fail() {
    assert_eq!(
        CourseEntries::decode(&Node::Null),
        Err(DecodeError::WrongShape { expected: Shape::ObjectOrList })
    );
    assert_eq!(
        CourseEntries::decode(&text("CSC 255")),
        Err(DecodeError::WrongShape { expected: Shape::ObjectOrList })
    );
}

#[test]
fn empty_parser_gives_empty_tree() {
    assert_eq!(CoursesParser::new(vec![]).parse(), Ok(CourseEntries(vec![])));
}

#[test]
fn marker_wins_over_the_keys_of_a_course() {
    let mut fields = leaf_fields(text("255"), text("Algorithms"), "False");
    fields.push(("group", text("Or")));
    assert_eq!(decode_raw_entry(&object(fields)), Ok(RawCourseEntry::Or));
    // In the single-object shape there are no markers: `group` is a key like any unknown one.
    let mut fields = leaf_fields(text("255"), text("Algorithms"), "False");
    fields.push(("group", text("Or")));
    assert_eq!(
        CourseEntries::decode(&object(fields)),
        Ok(CourseEntries(vec![CourseEntry::Course(sample_course("255"))]))
    );
}

#[test]
fn empty_mapping_is_no_course() {
    assert_eq!(decode_leaf(&entries(vec![])), Err(DecodeError::MissingField(Key::Url)));
    assert_eq!(
        CourseEntries::decode(&Node::List(vec![object(vec![])])),
        Err(DecodeError::AtIndex(0, Box::new(DecodeError::MissingField(Key::Url))))
    );
}
