//! Normalisation of loosely-typed documents that describe academic programmes into a
//! strongly-typed tree.
//!
//! The documents come from a catalogue system that marks no variant: whether a record is
//! one requirement or a group of them, a course or a narrative label, is told by the keys
//! that are there and by what their values hold. This crate decides the variant by fixed
//! rules, decodes the scalar encodings of the catalogue (brace-wrapped hexadecimal
//! identifiers, credits ranges, flag words), and assembles flat lists of course entries
//! into trees of conjunctions and disjunctions.
//!
//! A document is handed over as a [`node::Node`]. The decoders are the `decode` functions
//! of the types in [`model`]; what each of them gives is stated by a function of the
//! mathematical value of the document, and every decoder is proved to compute it. The
//! `encode` functions write a typed value as its canonical document, and [`round_trip`]
//! proves that a decoded value is read back from it unchanged.

pub mod courses;
pub mod details;
pub mod details_laws;
pub mod encode;
pub mod error;
pub mod guid;
pub mod guid_laws;
pub mod key;
pub mod key_laws;
pub mod model;
pub mod node;
pub mod program;
pub mod record;
pub mod requirement;
pub mod requirement_laws;
pub mod round_trip;
pub mod scalars;
pub mod text;
pub mod tree;
pub mod unknown_keys;

pub use crate::courses::{CoursesParser, RawCourseEntry};
pub use crate::details::CourseDetailsDraft;
pub use crate::error::{DecodeError, StructureError};
pub use crate::guid::{GUIDParsingError, Guid};
pub use crate::model::{
    Course, CourseDetails, CourseEntries, CourseEntry, Label, Program, Requirement,
    RequirementModule, Requirements,
};
pub use crate::node::{Entry, Node};
pub use crate::scalars::parse_course_credits;
