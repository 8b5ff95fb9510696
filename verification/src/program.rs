//! Decoding of a programme, the root of the typed tree.

use crate::courses::repeated_or;
use crate::error::{decoded, DecodeError, DecodeErrorView, Shape};
use crate::key::Key;
use crate::model::{Program, ProgramView, Requirements, RequirementsView};
use crate::node::{field, lemma_object_view, EntryView, Node, NodeView};
use crate::record::{locate, required_text, text_field};
use crate::requirement::requirements_spec;
use vstd::prelude::*;

verus! {

/// The first of the keys of a programme that occurs more than once.
pub open spec fn program_duplicate(e: Seq<EntryView>) -> Option<Key> {
    repeated_or(e, Key::Title, repeated_or(e, Key::Requirements, None))
}

/// The requirements of a programme: none where the key is missing or holds null.
pub open spec fn program_requirements(e: Seq<EntryView>) -> Result<
    Option<RequirementsView>,
    DecodeErrorView,
> {
    match field(e, Key::Requirements.name_spec()) {
        None => Ok(None),
        Some(NodeView::Null) => Ok(None),
        Some(value) => match requirements_spec(value) {
            Ok(requirements) => Ok(Some(requirements)),
            Err(x) => Err(x),
        },
    }
}

/// The programme that a node describes.
///
/// The node must be a mapping in which neither `title` nor `requirements` occurs twice.
/// `title` must be there and hold a text.
pub open spec fn program_spec(n: NodeView) -> Result<ProgramView, DecodeErrorView> {
    match n {
        NodeView::Object(e) => {
            let title = text_field(e, Key::Title);
            let requirements = program_requirements(e);
            if program_duplicate(e) is Some {
                Err(DecodeErrorView::DuplicateField(program_duplicate(e)->0))
            } else if title is Err {
                Err(title->Err_0)
            } else if requirements is Err {
                Err(requirements->Err_0)
            } else {
                Ok(ProgramView { title: title->Ok_0, requirements: requirements->Ok_0 })
            }
        },
        _ => Err(DecodeErrorView::WrongShape { expected: Shape::Object }),
    }
}

impl Program {
    /// Decodes a programme from the root of a document.
    pub fn decode(node: &Node) -> (r: Result<Program, DecodeError>)
        ensures
            decoded(r) == program_spec(node@),
    {
        let entries = match node {
            Node::Object(entries) => entries,
            _ => {
                return Err(DecodeError::WrongShape { expected: Shape::Object });
            },
        };
        proof {
            lemma_object_view(*entries);
        }
        let title = match locate(entries, Key::Title) {
            Ok(found) => found,
            Err(e) => {
                return Err(e);
            },
        };
        let requirements = match locate(entries, Key::Requirements) {
            Ok(found) => found,
            Err(e) => {
                return Err(e);
            },
        };
        let title = match required_text(title, Key::Title) {
            Ok(v) => v,
            Err(e) => {
                return Err(e);
            },
        };
        let requirements = match requirements {
            None => None,
            Some(Node::Null) => None,
            Some(value) => match Requirements::decode(value) {
                Ok(requirements) => Some(requirements),
                Err(e) => {
                    return Err(e);
                },
            },
        };
        Ok(Program { title, requirements })
    }
}

} // verus!
