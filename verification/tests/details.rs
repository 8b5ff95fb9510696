use vislog_core::details::{
    extract_guid_from_requisite, extract_guid_only, requisite_from, requisite_guid,
    CourseDetailsDraft, Found,
};
use vislog_core::error::{DecodeError, Shape};
use vislog_core::guid::{GUIDParsingError, Guid};
use vislog_core::key::Key;
use vislog_core::model::CourseDetails;
use vislog_core::node::{Entry, Node};

fn text(s: &str) -> Node {
    Node::Text(s.to_string())
}

fn object(pairs: Vec<(&str, Node)>) -> Node {
    Node::Object(
        pairs.into_iter().map(|(key, value)| Entry { key: key.to_string(), value }).collect(),
    )
}

fn requisite(guid: &str) -> Node {
    object(vec![
        ("course", object(vec![("name", text("Calculus"))])),
        ("GUID", text(guid)),
        ("kind", Node::Number("2".to_string())),
    ])
}

fn details_fields() -> Vec<(&'static str, Node)> {
    vec![
        ("url", text("https://catalog.example.edu/course/255")),
        ("GUID", text("{C7AD875E-1344-4D9B-A883-32E748890908}")),
        ("path", text("/course/255")),
        ("subject_code", text("CSC")),
        ("subject_name", text("Computer Science")),
        ("number", text("255")),
        ("name", text("Algorithms")),
        ("credits_min", text("3.0000")),
        ("credits_max", Node::Null),
        ("description", text("Design and analysis.")),
        ("prerequisite_narrative", text("CSC 125")),
        ("prerequisite", requisite("{08DD69D3-9F67-4A81-A5AA-5738B6A79D2B}")),
        ("corequisite_narrative", Node::Null),
    ]
}

fn expected_draft() -> CourseDetailsDraft {
    CourseDetailsDraft {
        url: "https://catalog.example.edu/course/255".to_string(),
        guid: Guid::try_from("C7AD875E-1344-4D9B-A883-32E748890908").unwrap(),
        path: "/course/255".to_string(),
        subject_code: "CSC".to_string(),
        subject_name: Some("Computer Science".to_string()),
        number: "255".to_string(),
        name: "Algorithms".to_string(),
        credits_min: Some("3.0000".to_string()),
        credits_max: None,
        description: "Design and analysis.".to_string(),
        prerequisite_narrative: Some("CSC 125".to_string()),
        prerequisite: Some(Guid::try_from("08DD69D3-9F67-4A81-A5AA-5738B6A79D2B").unwrap()),
        corequisite_narrative: None,
        corequisite: None,
    }
}

fn expected_details(credits_min: u8, credits_max: Option<u8>) -> CourseDetails {
    CourseDetails {
        url: "https://catalog.example.edu/course/255".to_string(),
        guid: Guid::try_from("C7AD875E-1344-4D9B-A883-32E748890908").unwrap(),
        path: "/course/255".to_string(),
        subject_code: "CSC".to_string(),
        subject_name: Some("Computer Science".to_string()),
        number: "255".to_string(),
        name: "Algorithms".to_string(),
        credits_min,
        credits_max,
        description: "Design and analysis.".to_string(),
        prerequisite_narrative: Some("CSC 125".to_string()),
        prerequisite: Some(Guid::try_from("08DD69D3-9F67-4A81-A5AA-5738B6A79D2B").unwrap()),
        corequisite_narrative: None,
        corequisite: None,
    }
}

#[test]
fn draft_of_a_full_record() {
    assert_eq!(CourseDetails::draft(&object(details_fields())), Ok(expected_draft()));
}

#[test]
fn finish_takes_the_floored_number() {
    assert_eq!(expected_draft().finish(Some(3), Some(9)), Ok(expected_details(3, None)));
    let mut draft = expected_draft();
    draft.credits_max = Some("4.5".to_string());
    assert_eq!(draft.finish(Some(3), Some(4)), Ok(expected_details(3, Some(4))));
}

#[test]
fn finish_defaults_the_least_credits_to_zero() {
    let mut draft = expected_draft();
    draft.credits_min = None;
    assert_eq!(draft.finish(Some(7), None), Ok(expected_details(0, None)));
}

#[test]
fn finish_refuses_a_text_without_number() {
    let mut draft = expected_draft();
    draft.credits_min = Some("many".to_string());
    draft.credits_max = Some("300".to_string());
    assert_eq!(draft.finish(None, None), Err(DecodeError::InvalidNumber("many".to_string())));
    let mut draft = expected_draft();
    draft.credits_max = Some("300".to_string());
    assert_eq!(draft.finish(Some(3), None), Err(DecodeError::InvalidNumber("300".to_string())));
}

#[test]
fn draft_errors_by_field() {
    let with = |key: &'static str, value: Option<Node>| {
        let mut fields = details_fields();
        fields.retain(|(k, _)| *k != key);
        if let Some(value) = value {
            fields.push((key, value));
        }
        CourseDetails::draft(&object(fields))
    };
    assert_eq!(with("url", None), Err(DecodeError::MissingField(Key::Url)));
    assert_eq!(with("GUID", None), Err(DecodeError::MissingField(Key::UpperGuid)));
    assert_eq!(with("credits_min", None), Err(DecodeError::MissingField(Key::CreditsMin)));
    assert_eq!(with("credits_max", None), Err(DecodeError::MissingField(Key::CreditsMax)));
    assert_eq!(
        with("corequisite_narrative", None),
        Err(DecodeError::MissingField(Key::CorequisiteNarrative))
    );
    assert_eq!(
        with("name", Some(Node::Null)),
        Err(DecodeError::WrongType { key: Key::Name, expected: Shape::Text })
    );
    assert_eq!(
        with("credits_min", Some(Node::Number("3".to_string()))),
        Err(DecodeError::WrongType { key: Key::CreditsMin, expected: Shape::OptionalText })
    );
    assert_eq!(
        with("GUID", Some(text("{C7AD}"))),
        Err(DecodeError::Identifier(GUIDParsingError::TooShort))
    );
    assert_eq!(
        with("prerequisite", Some(Node::Null)),
        Err(DecodeError::WrongShape { expected: Shape::Object })
    );
    assert_eq!(
        with("corequisite", Some(object(vec![]))),
        Err(DecodeError::MissingField(Key::UpperGuid))
    );
    assert_eq!(
        with("guid", Some(text("lower-case key is not recognised"))),
        Ok(expected_draft())
    );
    let mut expected = expected_draft();
    expected.prerequisite = None;
    assert_eq!(with("prerequisite", None), Ok(expected));
}

#[test]
fn draft_duplicate_key_fails() {
    let mut fields = details_fields();
    fields.push(("description", text("again")));
    assert_eq!(
        CourseDetails::draft(&object(fields)),
        Err(DecodeError::DuplicateField(Key::Description))
    );
    let mut fields = details_fields();
    fields.push(("GUID", Node::Null));
    fields.push(("url", Node::Null));
    assert_eq!(CourseDetails::draft(&object(fields)), Err(DecodeError::DuplicateField(Key::Url)));
    assert_eq!(
        CourseDetails::draft(&Node::List(vec![])),
        Err(DecodeError::WrongShape { expected: Shape::Object })
    );
}

#[test]
fn requisite_identifier() {
    let expected = Guid::try_from("08DD69D3-9F67-4A81-A5AA-5738B6A79D2B").unwrap();
    assert_eq!(
        requisite_guid(&requisite("{08DD69D3-9F67-4A81-A5AA-5738B6A79D2B}")),
        Ok(expected)
    );
    assert_eq!(
        requisite_guid(&object(vec![("guid", text("{08DD}"))])),
        Err(DecodeError::MissingField(Key::UpperGuid))
    );
    assert_eq!(
        requisite_guid(&object(vec![("GUID", Node::Number("8".to_string()))])),
        Err(DecodeError::WrongType { key: Key::UpperGuid, expected: Shape::Text })
    );
    assert_eq!(
        requisite_guid(&text("{08DD69D3-9F67-4A81-A5AA-5738B6A79D2B}")),
        Err(DecodeError::WrongShape { expected: Shape::Object })
    );
    assert_eq!(
        requisite_guid(&requisite("08DD69D3-9F67-4A81-A5AA-5738B6A79D2B")),
        Err(DecodeError::Identifier(GUIDParsingError::InvalidCharacter))
    );
    assert_eq!(
        requisite_guid(&object(vec![
            ("GUID", text("{08DD69D3-9F67-4A81-A5AA-5738B6A79D2B}")),
            ("GUID", text("{08DD69D3-9F67-4A81-A5AA-5738B6A79D2B}")),
        ])),
        Err(DecodeError::DuplicateField(Key::UpperGuid))
    );
}

#[test]
fn identifier_alone_must_be_there() {
    let expected = Guid::try_from("08DD69D3-9F67-4A81-A5AA-5738B6A79D2B").unwrap();
    assert_eq!(
        extract_guid_only(&requisite("{08DD69D3-9F67-4A81-A5AA-5738B6A79D2B}")),
        Ok(Some(expected))
    );
    assert_eq!(
        extract_guid_only(&object(vec![("GUID", text("{C7AD875E-1344-4D9B-A883-32E748890908}"))])),
        Ok(Some(Guid::try_from("C7AD875E-1344-4D9B-A883-32E748890908").unwrap()))
    );
    assert_eq!(
        extract_guid_only(&object(vec![("other", text("x"))])),
        Err(DecodeError::MissingField(Key::UpperGuid))
    );
    assert_eq!(
        extract_guid_only(&object(vec![("other", Node::Null)])),
        Err(DecodeError::MissingField(Key::UpperGuid))
    );
    assert_eq!(extract_guid_only(&object(vec![])), Err(DecodeError::MissingField(Key::UpperGuid)));
    assert_eq!(
        extract_guid_only(&object(vec![("GUID", Node::Null)])),
        Err(DecodeError::WrongType { key: Key::UpperGuid, expected: Shape::Text })
    );
    assert_eq!(
        extract_guid_only(&object(vec![
            ("GUID", text("{C7AD875E-1344-4D9B-A883-32E748890908}")),
            ("GUID", text("{C7AD875E-1344-4D9B-A883-32E748890908}")),
        ])),
        Err(DecodeError::DuplicateField(Key::UpperGuid))
    );
    assert_eq!(
        extract_guid_only(&object(vec![("GUID", text("{08DD}"))])),
        Err(DecodeError::Identifier(GUIDParsingError::TooShort))
    );
    assert_eq!(
        extract_guid_only(&object(vec![("GUID", Node::Bool(true))])),
        Err(DecodeError::WrongType { key: Key::UpperGuid, expected: Shape::Text })
    );
    assert_eq!(
        extract_guid_only(&Node::Null),
        Err(DecodeError::WrongShape { expected: Shape::Object })
    );
}

#[test]
fn identifier_nodes() {
    let expected = Guid::try_from("08DD69D3-9F67-4A81-A5AA-5738B6A79D2B").unwrap();
    assert_eq!(Guid::decode(&text("08dd69d39f674a81a5aa5738b6a79d2b")), Ok(expected));
    assert_eq!(
        Guid::decode(&text("{08DD69D3-9F67-4A81-A5AA-5738B6A79D2B}")),
        Err(DecodeError::Identifier(GUIDParsingError::TooLong))
    );
    assert_eq!(Guid::decode(&Node::Null), Err(DecodeError::WrongShape { expected: Shape::Text }));
    assert_eq!(
        Guid::decode_braced(&text("{08DD69D3-9F67-4A81-A5AA-5738B6A79D2B}")),
        Ok(expected)
    );
    assert_eq!(
        Guid::decode_braced(&Node::Bool(true)),
        Err(DecodeError::WrongShape { expected: Shape::Text })
    );
}

#[test]
fn details_are_written_with_decimal_credits() {
    let details = expected_details(3, Some(12));
    let written = details.encode();
    let expected = object(vec![
        ("url", text("https://catalog.example.edu/course/255")),
        ("GUID", text("{C7AD875E-1344-4D9B-A883-32E748890908}")),
        ("path", text("/course/255")),
        ("subject_code", text("CSC")),
        ("subject_name", text("Computer Science")),
        ("number", text("255")),
        ("name", text("Algorithms")),
        ("credits_min", text("3")),
        ("credits_max", text("12")),
        ("description", text("Design and analysis.")),
        ("prerequisite_narrative", text("CSC 125")),
        ("corequisite_narrative", Node::Null),
        ("prerequisite", object(vec![("GUID", text("{08DD69D3-9F67-4A81-A5AA-5738B6A79D2B}"))])),
    ]);
    assert_eq!(written, expected);
}

#[test]
fn details_round_trip() {
    let mut both = expected_details(0, None);
    both.corequisite = Some(Guid::from_bytes([7; 16]));
    let mut neither = expected_details(255, Some(0));
    neither.prerequisite = None;
    let mut only_co = expected_details(9, Some(10));
    only_co.prerequisite = None;
    only_co.corequisite = Some(Guid::from_bytes([0xAB; 16]));
    for details in [expected_details(3, Some(12)), both, neither, only_co] {
        let draft = CourseDetails::draft(&details.encode()).unwrap();
        let min = details.credits_min;
        let max = details.credits_max;
        assert_eq!(draft.credits_min, Some(min.to_string()));
        assert_eq!(draft.credits_max, max.map(|v| v.to_string()));
        assert_eq!(draft.finish(Some(min), max), Ok(details));
    }
}

#[test]
fn course_record_can_be_copied() {
    let details = expected_details(3, Some(12));
    assert_eq!(details.clone(), details);
}

fn json(text: &str) -> serde_json::Value {
    serde_json::from_str(text).unwrap()
}

#[test]
fn requisite_identifier_from_a_json_value() {
    let expected = Guid::try_from("08DD69D3-9F67-4A81-A5AA-5738B6A79D2B").unwrap();
    assert_eq!(
        extract_guid_from_requisite(&json(
            r#"{"course": {"GUID": "inner"}, "GUID": "{08DD69D3-9F67-4A81-A5AA-5738B6A79D2B}", "n": 2}"#
        )),
        Ok(expected)
    );
    assert_eq!(
        extract_guid_from_requisite(&json(r#"{"GUID": "{08dd69d39f674a81a5aa5738b6a79d2b}"}"#)),
        Ok(expected)
    );
}

#[test]
fn requisite_json_value_failures() {
    assert_eq!(
        extract_guid_from_requisite(&json(r#"{"guid": "{08DD69D3-9F67-4A81-A5AA-5738B6A79D2B}"}"#)),
        Err(DecodeError::MissingField(Key::UpperGuid))
    );
    assert_eq!(
        extract_guid_from_requisite(&json("{}")),
        Err(DecodeError::MissingField(Key::UpperGuid))
    );
    assert_eq!(
        extract_guid_from_requisite(&json(r#"{"GUID": 7}"#)),
        Err(DecodeError::WrongType { key: Key::UpperGuid, expected: Shape::Text })
    );
    assert_eq!(
        extract_guid_from_requisite(&json(r#"{"GUID": null}"#)),
        Err(DecodeError::WrongType { key: Key::UpperGuid, expected: Shape::Text })
    );
    assert_eq!(
        extract_guid_from_requisite(&json(r#"{"GUID": {"GUID": "{08DD69D3-9F67-4A81-A5AA-5738B6A79D2B}"}}"#)),
        Err(DecodeError::WrongType { key: Key::UpperGuid, expected: Shape::Text })
    );
    for other in ["null", "true", "12", "\"{08DD69D3-9F67-4A81-A5AA-5738B6A79D2B}\"", "[]"] {
        assert_eq!(
            extract_guid_from_requisite(&json(other)),
            Err(DecodeError::WrongShape { expected: Shape::Object })
        );
    }
    assert_eq!(
        extract_guid_from_requisite(&json(r#"{"GUID": "08DD69D3-9F67-4A81-A5AA-5738B6A79D2B"}"#)),
        Err(DecodeError::Identifier(GUIDParsingError::InvalidCharacter))
    );
    assert_eq!(
        extract_guid_from_requisite(&json(r#"{"GUID": "{08DD}"}"#)),
        Err(DecodeError::Identifier(GUIDParsingError::TooShort))
    );
}

#[test]
fn requisite_from_what_was_found() {
    let expected = Guid::try_from("08DD69D3-9F67-4A81-A5AA-5738B6A79D2B").unwrap();
    assert_eq!(
        requisite_from(Found::Text("{08DD69D3-9F67-4A81-A5AA-5738B6A79D2B}".to_string())),
        Ok(expected)
    );
    assert_eq!(
        requisite_from(Found::Text("{}".to_string())),
        Err(DecodeError::Identifier(GUIDParsingError::TooShort))
    );
    assert_eq!(requisite_from(Found::Missing), Err(DecodeError::MissingField(Key::UpperGuid)));
    assert_eq!(
        requisite_from(Found::NotText),
        Err(DecodeError::WrongType { key: Key::UpperGuid, expected: Shape::Text })
    );
    assert_eq!(
        requisite_from(Found::NotAnObject),
        Err(DecodeError::WrongShape { expected: Shape::Object })
    );
}
