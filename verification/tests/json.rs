use vislog_core::error::DecodeError;
use vislog_core::key::Key;
use vislog_core::model::{
    CourseEntries, CourseEntry, Program, Requirement, RequirementModule, Requirements,
};
use vislog_core::node::{Entry, Node};

/// A document read with serde in a way that keeps every entry of a mapping, in document
/// order, also where a key is repeated.
struct Document(Node);

struct NodeVisitor;

impl<'de> serde::de::Visitor<'de> for NodeVisitor {
    type Value = Node;

    fn expecting(&self, formatter: &mut std::fmt::Formatter) -> std::fmt::Result {
        formatter.write_str("any JSON value")
    }

    fn visit_unit<E: serde::de::Error>(self) -> Result<Node, E> {
        Ok(Node::Null)
    }

    fn visit_bool<E: serde::de::Error>(self, v: bool) -> Result<Node, E> {
        Ok(Node::Bool(v))
    }

    fn visit_i64<E: serde::de::Error>(self, v: i64) -> Result<Node, E> {
        Ok(Node::Number(v.to_string()))
    }

    fn visit_u64<E: serde::de::Error>(self, v: u64) -> Result<Node, E> {
        Ok(Node::Number(v.to_string()))
    }

    fn visit_f64<E: serde::de::Error>(self, v: f64) -> Result<Node, E> {
        Ok(Node::Number(v.to_string()))
    }

    fn visit_str<E: serde::de::Error>(self, v: &str) -> Result<Node, E> {
        Ok(Node::Text(v.to_owned()))
    }

    fn visit_seq<A: serde::de::SeqAccess<'de>>(self, mut seq: A) -> Result<Node, A::Error> {
        let mut items = Vec::new();
        while let Some(Document(item)) = seq.next_element()? {
            items.push(item);
        }
        Ok(Node::List(items))
    }

    fn visit_map<A: serde::de::MapAccess<'de>>(self, mut map: A) -> Result<Node, A::Error> {
        let mut entries = Vec::new();
        while let Some(key) = map.next_key::<String>()? {
            let Document(value) = map.next_value()?;
            entries.push(Entry { key, value });
        }
        Ok(Node::Object(entries))
    }
}

impl<'de> serde::de::Deserialize<'de> for Document {
    fn deserialize<D: serde::de::Deserializer<'de>>(deserializer: D) -> Result<Self, D::Error> {
        deserializer.deserialize_any(NodeVisitor).map(Document)
    }
}

fn read(json: &str) -> Node {
    serde_json::from_str::<Document>(json).unwrap().0
}

const PROGRAM: &str = r#"
{
    "url": "https://catalog.example.edu/programs/cs",
    "title": "Computer Science, B.S.",
    "requirements": [
        {
            "id": 11,
            "title": "Major Requirements",
            "req_narrative": null,
            "requirement_list": [
                {
                    "title": "Core",
                    "req_narrative": "<p>All of the following.</p>",
                    "course": [
                        {
                            "url": "https://catalog.example.edu/c/125",
                            "path": "/c/125",
                            "guid": "{08DD69D3-9F67-4A81-A5AA-5738B6A79D2B}",
                            "name": "Programming I",
                            "number": "125",
                            "subject_name": "Computer Science",
                            "subject_code": "CSC",
                            "credits": "4",
                            "is_narrative": "False"
                        },
                        { "group": "Or" },
                        {
                            "url": "https://catalog.example.edu/c/211",
                            "path": "/c/211",
                            "guid": "{c7ad875e-1344-4d9b-a883-32e748890908}",
                            "name": "Calculus I",
                            "number": "211",
                            "subject_name": null,
                            "subject_code": "MAT",
                            "credits": "3-4",
                            "is_narrative": "False"
                        },
                        {
                            "url": "https://catalog.example.edu/n/1",
                            "path": "/n/1",
                            "guid": "{C7AD875E13444D9BA88332E748890908}",
                            "name": "or placement by examination",
                            "number": null,
                            "subject_name": null,
                            "subject_code": null,
                            "credits": "0",
                            "is_narrative": "True"
                        },
                        { "group": "End" }
                    ]
                },
                {
                    "title": "Select One of the Following",
                    "req_narrative": null
                }
            ]
        },
        {
            "title": "Residency",
            "requirement_list": {
                "title": "Residency",
                "req_narrative": "Thirty credits in residence."
            }
        }
    ]
}"#;

#[test]
fn program_from_json_text() {
    let program = Program::decode(&read(PROGRAM)).unwrap();
    assert_eq!(program.title, "Computer Science, B.S.");
    let modules = match program.requirements {
        Some(Requirements::Many(modules)) => modules,
        other => panic!("expected a list of modules, got {:?}", other),
    };
    assert_eq!(modules.len(), 2);
    match &modules[0] {
        RequirementModule::BasicRequirements { title, requirements } => {
            assert_eq!(title.as_deref(), Some("Major Requirements"));
            assert_eq!(requirements.len(), 2);
            match &requirements[0] {
                Requirement::Courses { title, courses: CourseEntries(entries) } => {
                    assert_eq!(title.as_deref(), Some("Core"));
                    assert_eq!(entries.len(), 2);
                    match &entries[0] {
                        CourseEntry::Course(course) => {
                            assert_eq!(course.number, "125");
                            assert_eq!(course.credits, (4, None));
                            assert_eq!(
                                course.guid.to_string(),
                                "08DD69D3-9F67-4A81-A5AA-5738B6A79D2B"
                            );
                        }
                        other => panic!("expected a course, got {:?}", other),
                    }
                    match &entries[1] {
                        CourseEntry::Or(CourseEntries(inner)) => {
                            assert_eq!(inner.len(), 2);
                            assert!(matches!(&inner[0], CourseEntry::Course(c) if c.credits == (3, Some(4))));
                            assert!(matches!(&inner[1], CourseEntry::Label(l) if l.name == "or placement by examination"));
                        }
                        other => panic!("expected a group, got {:?}", other),
                    }
                }
                other => panic!("expected a course requirement, got {:?}", other),
            }
            assert_eq!(
                requirements[1],
                Requirement::SelectFromCourses {
                    title: "Select One of the Following".to_string(),
                    courses: None,
                }
            );
        }
        other => panic!("expected a module of several requirements, got {:?}", other),
    }
    assert_eq!(
        modules[1],
        RequirementModule::SingleBasicRequirement {
            title: Some("Residency".to_string()),
            requirement: Requirement::Label {
                title: Some("Residency".to_string()),
                req_narrative: Some("Thirty credits in residence.".to_string()),
            },
        }
    );
}

#[test]
fn program_from_json_text_round_trip() {
    let program = Program::decode(&read(PROGRAM)).unwrap();
    let written = program.encode().unwrap();
    assert_eq!(Program::decode(&written), Ok(program));
}

#[test]
fn failure_deep_in_json_text_carries_its_positions() {
    let broken = PROGRAM.replace("\"credits\": \"3-4\"", "\"credits\": \"3 to 4\"");
    assert_eq!(
        Program::decode(&read(&broken)),
        Err(DecodeError::AtIndex(
            0,
            Box::new(DecodeError::AtIndex(
                0,
                Box::new(DecodeError::AtIndex(
                    2,
                    Box::new(DecodeError::InvalidCredits("3 to 4".to_string()))
                ))
            ))
        ))
    );
    let missing = PROGRAM.replace("\"title\": \"Computer Science, B.S.\",", "");
    assert_eq!(Program::decode(&read(&missing)), Err(DecodeError::MissingField(Key::Title)));
}

#[test]
fn json_text_keeps_document_order_and_repeated_keys() {
    let node = read(r#"{"b": 1, "a": [true, null, "x", 2.5], "b": {"c": -3}}"#);
    let entry = |key: &str, value: Node| Entry { key: key.to_string(), value };
    assert_eq!(
        node,
        Node::Object(vec![
            entry("b", Node::Number("1".to_string())),
            entry(
                "a",
                Node::List(vec![
                    Node::Bool(true),
                    Node::Null,
                    Node::Text("x".to_string()),
                    Node::Number("2.5".to_string()),
                ])
            ),
            entry("b", Node::Object(vec![entry("c", Node::Number("-3".to_string()))])),
        ])
    );
}

#[test]
fn repeated_title_in_json_text_is_refused() {
    let node = read(r#"{"title": "A", "req_narrative": null, "title": 7}"#);
    assert_eq!(Requirement::decode(&node), Err(DecodeError::DuplicateField(Key::Title)));
    let node = read(r#"{"title": "A", "title": "A", "requirement_list": []}"#);
    assert_eq!(RequirementModule::decode(&node), Err(DecodeError::DuplicateField(Key::Title)));
    let node = read(r#"{"title": "A", "extra": 1, "extra": 2, "req_narrative": null}"#);
    assert_eq!(
        Requirement::decode(&node),
        Ok(Requirement::Label { title: Some("A".to_string()), req_narrative: None })
    );
}
