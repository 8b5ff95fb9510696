//! What can go wrong while a document is decoded.

use crate::guid::GUIDParsingError;
use crate::key::Key;
use vstd::prelude::*;

verus! {

/// The kinds of node that a decoder may ask for.
#[derive(Clone, Copy, PartialEq, Eq, Debug, Structural)]
pub enum Shape {
    /// A text.
    Text,
    /// A text or null.
    OptionalText,
    /// A keyed mapping.
    Object,
    /// A keyed mapping or an ordered list.
    ObjectOrList,
}

/// The ways in which a list of raw course entries fails to describe a tree.
#[derive(PartialEq, Eq, Debug)]
pub enum StructureError {
    /// The entry at `index` closes a group although none is open.
    UnmatchedEnd { index: usize },
    /// The list ends while `open` groups are still open.
    UnclosedGroup { open: usize },
    /// A group marker names neither of the two connectives nor the end of a group.
    UnknownConnective(String),
}

/// The mathematical value of a [`StructureError`].
pub enum StructureErrorView {
    /// The entry at `index` closes a group although none is open.
    UnmatchedEnd { index: int },
    /// The list ends while `open` groups are still open.
    UnclosedGroup { open: int },
    /// A group marker names neither of the two connectives nor the end of a group.
    UnknownConnective(Seq<char>),
}

impl View for StructureError {
    type V = StructureErrorView;

    open spec fn view(&self) -> StructureErrorView {
        match self {
            StructureError::UnmatchedEnd { index } => StructureErrorView::UnmatchedEnd {
                index: *index as int,
            },
            StructureError::UnclosedGroup { open } => StructureErrorView::UnclosedGroup {
                open: *open as int,
            },
            StructureError::UnknownConnective(text) => StructureErrorView::UnknownConnective(text@),
        }
    }
}

/// Why a document could not be decoded.
#[derive(PartialEq, Eq, Debug)]
pub enum DecodeError {
    /// A required key does not occur in the mapping.
    MissingField(Key),
    /// A recognised key occurs more than once in the mapping.
    DuplicateField(Key),
    /// The key holds null where this kind of record needs a text.
    NullField(Key),
    /// The value under the key is not of the kind that the key calls for.
    WrongType { key: Key, expected: Shape },
    /// The node itself is not of the kind that the decoder calls for.
    WrongShape { expected: Shape },
    /// A text that should hold an identifier does not.
    Identifier(GUIDParsingError),
    /// A text that should hold a credits range does not; the text is carried along.
    InvalidCredits(String),
    /// A text that should hold one of the two flag words does not; the text is carried along.
    InvalidFlag(String),
    /// A text that should hold a number of credits does not; the text is carried along.
    InvalidNumber(String),
    /// The raw course entries do not describe a tree.
    Structure(StructureError),
    /// The element at this position of a list could not be decoded.
    AtIndex(usize, Box<DecodeError>),
}

/// The mathematical value of a [`DecodeError`].
pub enum DecodeErrorView {
    /// A required key does not occur in the mapping.
    MissingField(Key),
    /// A recognised key occurs more than once in the mapping.
    DuplicateField(Key),
    /// The key holds null where this kind of record needs a text.
    NullField(Key),
    /// The value under the key is not of the kind that the key calls for.
    WrongType { key: Key, expected: Shape },
    /// The node itself is not of the kind that the decoder calls for.
    WrongShape { expected: Shape },
    /// A text that should hold an identifier does not.
    Identifier(GUIDParsingError),
    /// A text that should hold a credits range does not.
    InvalidCredits(Seq<char>),
    /// A text that should hold one of the two flag words does not.
    InvalidFlag(Seq<char>),
    /// A text that should hold a number of credits does not.
    InvalidNumber(Seq<char>),
    /// The raw course entries do not describe a tree.
    Structure(StructureErrorView),
    /// The element at this position of a list could not be decoded.
    AtIndex(int, Box<DecodeErrorView>),
}

impl View for DecodeError {
    type V = DecodeErrorView;

    open spec fn view(&self) -> DecodeErrorView
        decreases self,
    {
        match self {
            DecodeError::MissingField(key) => DecodeErrorView::MissingField(*key),
            DecodeError::DuplicateField(key) => DecodeErrorView::DuplicateField(*key),
            DecodeError::NullField(key) => DecodeErrorView::NullField(*key),
            DecodeError::WrongType { key, expected } => DecodeErrorView::WrongType {
                key: *key,
                expected: *expected,
            },
            DecodeError::WrongShape { expected } => DecodeErrorView::WrongShape {
                expected: *expected,
            },
            DecodeError::Identifier(e) => DecodeErrorView::Identifier(*e),
            DecodeError::InvalidCredits(text) => DecodeErrorView::InvalidCredits(text@),
            DecodeError::InvalidFlag(text) => DecodeErrorView::InvalidFlag(text@),
            DecodeError::InvalidNumber(text) => DecodeErrorView::InvalidNumber(text@),
            DecodeError::Structure(e) => DecodeErrorView::Structure(e@),
            DecodeError::AtIndex(index, inner) => DecodeErrorView::AtIndex(
                *index as int,
                Box::new((**inner).view()),
            ),
        }
    }
}

/// An outcome of decoding, with the value and the error replaced by their mathematical
/// values.
pub open spec fn decoded<T: View>(r: Result<T, DecodeError>) -> Result<T::V, DecodeErrorView> {
    match r {
        Ok(v) => Ok(v@),
        Err(e) => Err(e@),
    }
}

} // verus!
