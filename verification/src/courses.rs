//! Decoding of course entries: the single course or label, the raw entries of a list, and
//! the assembly of raw entries into a tree.
//!
//! A course or a label is a mapping with the keys `url`, `path`, `guid`, `name`, `number`,
//! `subject_name`, `subject_code`, `credits` and `is_narrative`; the last of these says
//! which of the two it is, and nothing else does.
//!
//! A list of course entries holds such mappings and, between them, markers. A marker is a
//! mapping with the key `group`, whose text is `And` or `Or` where a group opens and `End`
//! where the innermost open group closes. So
//! `[c1, {"group": "Or"}, c2, c3, {"group": "End"}]` is the course `c1` followed by the
//! choice between `c2` and `c3`. Groups may stand in groups.

use crate::error::{
    decoded, DecodeError, DecodeErrorView, Shape, StructureError, StructureErrorView,
};
use crate::key::Key;
use crate::model::{
    course_entries_view, lemma_and_view, lemma_or_view, Course, CourseEntries, CourseEntry,
    CourseEntryView, CourseView, Label, LabelView,
};
use crate::node::{
    entries_view, field, has_key, items_view, lemma_list_view, lemma_object_view, repeated, Entry,
    EntryView, Node, NodeView,
};
use crate::record::{
    credits_field, flag_field, guid_field, locate, optional_text, optional_text_field,
    required_credits, required_flag, required_guid, required_str, required_text, text_field,
};
use crate::text::same_text;
use crate::tree::{
    assemble_spec, balanced, depth, first_unmatched, flatten, flatten_entry,
    lemma_first_unmatched_unique, lemma_flatten_empty, lemma_flatten_injective,
    lemma_flatten_push, never_negative, step, RawView,
};
use vstd::prelude::*;

verus! {

/// A course or a label that one keyed mapping describes.
#[derive(PartialEq, Eq, Debug)]
pub enum Leaf {
    /// A narrative entry.
    Label(Label),
    /// A course.
    Course(Course),
}

/// The mathematical value of a [`Leaf`].
pub enum LeafView {
    /// A narrative entry.
    Label(LabelView),
    /// A course.
    Course(CourseView),
}

impl View for Leaf {
    type V = LeafView;

    open spec fn view(&self) -> LeafView {
        match self {
            Leaf::Label(label) => LeafView::Label(label@),
            Leaf::Course(course) => LeafView::Course(course@),
        }
    }
}

/// One element of a list of course entries as it stands in a document: a leaf, or a marker
/// that opens or closes a group.
#[derive(PartialEq, Eq, Debug)]
pub enum RawCourseEntry {
    /// Opens a group all of whose entries are asked for.
    And,
    /// Opens a group any one of whose entries will do.
    Or,
    /// Closes the innermost open group.
    End,
    /// A narrative entry.
    Label(Label),
    /// A course.
    Course(Course),
}

impl View for RawCourseEntry {
    type V = RawView;

    open spec fn view(&self) -> RawView {
        match self {
            RawCourseEntry::And => RawView::And,
            RawCourseEntry::Or => RawView::Or,
            RawCourseEntry::End => RawView::End,
            RawCourseEntry::Label(label) => RawView::Label(label@),
            RawCourseEntry::Course(course) => RawView::Course(course@),
        }
    }
}

/// The values of raw entries, in order.
pub open spec fn raw_view(raw: Seq<RawCourseEntry>) -> Seq<RawView> {
    Seq::new(raw.len(), |i: int| raw[i]@)
}

/// The tree entry that a leaf is.
pub open spec fn entry_of_leaf(leaf: LeafView) -> CourseEntryView {
    match leaf {
        LeafView::Label(label) => CourseEntryView::Label(label),
        LeafView::Course(course) => CourseEntryView::Course(course),
    }
}

/// The raw entry that a leaf is.
pub open spec fn raw_of_leaf(leaf: LeafView) -> RawView {
    match leaf {
        LeafView::Label(label) => RawView::Label(label),
        LeafView::Course(course) => RawView::Course(course),
    }
}

/// `key` if it occurs more than once among the entries, else `rest`.
pub open spec fn repeated_or(entries: Seq<EntryView>, key: Key, rest: Option<Key>) -> Option<
    Key,
> {
    if repeated(entries, key.name_spec()) {
        Some(key)
    } else {
        rest
    }
}

/// The first of the keys of a course or label that occurs more than once.
pub open spec fn leaf_duplicate(e: Seq<EntryView>) -> Option<Key> {
    repeated_or(
        e,
        Key::Url,
        repeated_or(
            e,
            Key::Path,
            repeated_or(
                e,
                Key::Guid,
                repeated_or(
                    e,
                    Key::Name,
                    repeated_or(
                        e,
                        Key::Number,
                        repeated_or(
                            e,
                            Key::SubjectName,
                            repeated_or(
                                e,
                                Key::SubjectCode,
                                repeated_or(
                                    e,
                                    Key::Credits,
                                    repeated_or(e, Key::IsNarrative, None),
                                ),
                            ),
                        ),
                    ),
                ),
            ),
        ),
    )
}

/// The course or label that the entries of a mapping describe.
///
/// No recognised key may occur twice. Then each field is read in turn, and the first that
/// is missing or ill-formed decides the error. The flag decides between a label, which
/// needs a name, and a course, which needs a number and a subject code.
pub open spec fn leaf_spec(e: Seq<EntryView>) -> Result<LeafView, DecodeErrorView> {
    let url = text_field(e, Key::Url);
    let path = text_field(e, Key::Path);
    let guid = guid_field(e, Key::Guid);
    let name = optional_text_field(e, Key::Name);
    let number = optional_text_field(e, Key::Number);
    let subject_name = optional_text_field(e, Key::SubjectName);
    let subject_code = optional_text_field(e, Key::SubjectCode);
    let credits = credits_field(e, Key::Credits);
    let narrative = flag_field(e, Key::IsNarrative);
    if leaf_duplicate(e) is Some {
        Err(DecodeErrorView::DuplicateField(leaf_duplicate(e)->0))
    } else if url is Err {
        Err(url->Err_0)
    } else if path is Err {
        Err(path->Err_0)
    } else if guid is Err {
        Err(guid->Err_0)
    } else if name is Err {
        Err(name->Err_0)
    } else if number is Err {
        Err(number->Err_0)
    } else if subject_name is Err {
        Err(subject_name->Err_0)
    } else if subject_code is Err {
        Err(subject_code->Err_0)
    } else if credits is Err {
        Err(credits->Err_0)
    } else if narrative is Err {
        Err(narrative->Err_0)
    } else if narrative->Ok_0 {
        match name->Ok_0 {
            None => Err(DecodeErrorView::NullField(Key::Name)),
            Some(label_name) => Ok(
                LeafView::Label(
                    LabelView {
                        url: url->Ok_0,
                        guid: guid->Ok_0,
                        name: label_name,
                        subject_code: subject_code->Ok_0,
                        credits: credits->Ok_0,
                        number: number->Ok_0,
                    },
                ),
            ),
        }
    } else {
        match (number->Ok_0, subject_code->Ok_0) {
            (None, _) => Err(DecodeErrorView::NullField(Key::Number)),
            (Some(_), None) => Err(DecodeErrorView::NullField(Key::SubjectCode)),
            (Some(course_number), Some(code)) => Ok(
                LeafView::Course(
                    CourseView {
                        url: url->Ok_0,
                        path: path->Ok_0,
                        guid: guid->Ok_0,
                        name: name->Ok_0,
                        number: course_number,
                        subject_name: subject_name->Ok_0,
                        subject_code: code,
                        credits: credits->Ok_0,
                    },
                ),
            ),
        }
    }
}

/// The marker that a group text names.
pub open spec fn marker_spec(text: Seq<char>) -> Result<RawView, DecodeErrorView> {
    if text == "And"@ {
        Ok(RawView::And)
    } else if text == "Or"@ {
        Ok(RawView::Or)
    } else if text == "End"@ {
        Ok(RawView::End)
    } else {
        Err(DecodeErrorView::Structure(StructureErrorView::UnknownConnective(text)))
    }
}

/// The raw entry that a node describes: a mapping with the key `group` is a marker, any
/// other mapping is a course or a label.
pub open spec fn raw_entry_spec(n: NodeView) -> Result<RawView, DecodeErrorView> {
    match n {
        NodeView::Object(e) => {
            if repeated(e, Key::Group.name_spec()) {
                Err(DecodeErrorView::DuplicateField(Key::Group))
            } else if has_key(e, Key::Group.name_spec()) {
                match text_field(e, Key::Group) {
                    Ok(text) => marker_spec(text),
                    Err(x) => Err(x),
                }
            } else {
                match leaf_spec(e) {
                    Ok(leaf) => Ok(raw_of_leaf(leaf)),
                    Err(x) => Err(x),
                }
            }
        },
        _ => Err(DecodeErrorView::WrongShape { expected: Shape::Object }),
    }
}

/// The raw entries that the first `n` nodes of a list describe; the first node that
/// describes none decides the error, which carries its position.
pub open spec fn raw_entries_spec(items: Seq<NodeView>, n: nat) -> Result<
    Seq<RawView>,
    DecodeErrorView,
>
    decreases n,
{
    if n == 0 || n > items.len() {
        Ok(Seq::empty())
    } else {
        match raw_entries_spec(items, (n - 1) as nat) {
            Err(x) => Err(x),
            Ok(done) => match raw_entry_spec(items[n - 1]) {
                Ok(raw) => Ok(done.push(raw)),
                Err(x) => Err(DecodeErrorView::AtIndex(n - 1, Box::new(x))),
            },
        }
    }
}

/// The course entries that a node describes: a list of raw entries is assembled into a
/// tree, and a single mapping is the one course or label of a list of one.
pub open spec fn course_entries_spec(n: NodeView) -> Result<Seq<CourseEntryView>, DecodeErrorView> {
    match n {
        NodeView::List(items) => match raw_entries_spec(items, items.len()) {
            Err(x) => Err(x),
            Ok(tokens) => match assemble_spec(tokens) {
                Ok(tree) => Ok(tree),
                Err(x) => Err(DecodeErrorView::Structure(x)),
            },
        },
        NodeView::Object(e) => match leaf_spec(e) {
            Ok(leaf) => Ok(seq![entry_of_leaf(leaf)]),
            Err(x) => Err(x),
        },
        _ => Err(DecodeErrorView::WrongShape { expected: Shape::ObjectOrList }),
    }
}

/// Decodes the one course or label that the entries of a mapping describe.
pub fn decode_leaf(entries: &Vec<Entry>) -> (r: Result<Leaf, DecodeError>)
    ensures
        decoded(r) == leaf_spec(entries_view(entries@)),
{
    let url = match locate(entries, Key::Url) {
        Ok(found) => found,
        Err(e) => {
            return Err(e);
        },
    };
    let path = match locate(entries, Key::Path) {
        Ok(found) => found,
        Err(e) => {
            return Err(e);
        },
    };
    let guid = match locate(entries, Key::Guid) {
        Ok(found) => found,
        Err(e) => {
            return Err(e);
        },
    };
    let name = match locate(entries, Key::Name) {
        Ok(found) => found,
        Err(e) => {
            return Err(e);
        },
    };
    let number = match locate(entries, Key::Number) {
        Ok(found) => found,
        Err(e) => {
            return Err(e);
        },
    };
    let subject_name = match locate(entries, Key::SubjectName) {
        Ok(found) => found,
        Err(e) => {
            return Err(e);
        },
    };
    let subject_code = match locate(entries, Key::SubjectCode) {
        Ok(found) => found,
        Err(e) => {
            return Err(e);
        },
    };
    let credits = match locate(entries, Key::Credits) {
        Ok(found) => found,
        Err(e) => {
            return Err(e);
        },
    };
    let narrative = match locate(entries, Key::IsNarrative) {
        Ok(found) => found,
        Err(e) => {
            return Err(e);
        },
    };
    assert(leaf_duplicate(entries_view(entries@)) is None);
    let url = match required_text(url, Key::Url) {
        Ok(v) => v,
        Err(e) => {
            return Err(e);
        },
    };
    let path = match required_text(path, Key::Path) {
        Ok(v) => v,
        Err(e) => {
            return Err(e);
        },
    };
    let guid = match required_guid(guid, Key::Guid) {
        Ok(v) => v,
        Err(e) => {
            return Err(e);
        },
    };
    let name = match optional_text(name, Key::Name) {
        Ok(v) => v,
        Err(e) => {
            return Err(e);
        },
    };
    let number = match optional_text(number, Key::Number) {
        Ok(v) => v,
        Err(e) => {
            return Err(e);
        },
    };
    let subject_name = match optional_text(subject_name, Key::SubjectName) {
        Ok(v) => v,
        Err(e) => {
            return Err(e);
        },
    };
    let subject_code = match optional_text(subject_code, Key::SubjectCode) {
        Ok(v) => v,
        Err(e) => {
            return Err(e);
        },
    };
    let credits = match required_credits(credits, Key::Credits) {
        Ok(v) => v,
        Err(e) => {
            return Err(e);
        },
    };
    let narrative = match required_flag(narrative, Key::IsNarrative) {
        Ok(v) => v,
        Err(e) => {
            return Err(e);
        },
    };
    if narrative {
        match name {
            None => Err(DecodeError::NullField(Key::Name)),
            Some(name) => Ok(Leaf::Label(Label { url, guid, name, subject_code, credits, number })),
        }
    } else {
        let number = match number {
            Some(number) => number,
            None => {
                return Err(DecodeError::NullField(Key::Number));
            },
        };
        let subject_code = match subject_code {
            Some(subject_code) => subject_code,
            None => {
                return Err(DecodeError::NullField(Key::SubjectCode));
            },
        };
        Ok(
            Leaf::Course(
                Course { url, path, guid, name, number, subject_name, subject_code, credits },
            ),
        )
    }
}

/// Decodes the marker that a group text names.
fn decode_marker(text: &str) -> (r: Result<RawCourseEntry, DecodeError>)
    ensures
        decoded(r) == marker_spec(text@),
{
    if same_text(text, "And") {
        Ok(RawCourseEntry::And)
    } else if same_text(text, "Or") {
        Ok(RawCourseEntry::Or)
    } else if same_text(text, "End") {
        Ok(RawCourseEntry::End)
    } else {
        Err(DecodeError::Structure(StructureError::UnknownConnective(text.to_owned())))
    }
}

/// Decodes one element of a list of course entries: a marker where the mapping has the
/// key `group`, else a course or a label.
pub fn decode_raw_entry(node: &Node) -> (r: Result<RawCourseEntry, DecodeError>)
    ensures
        decoded(r) == raw_entry_spec(node@),
{
    match node {
        Node::Object(entries) => {
            proof {
                lemma_object_view(*entries);
            }
            let group = match locate(entries, Key::Group) {
                Ok(found) => found,
                Err(e) => {
                    return Err(e);
                },
            };
            match group {
                Some(_) => {
                    match required_str(group, Key::Group) {
                        Ok(text) => decode_marker(text),
                        Err(e) => Err(e),
                    }
                },
                None => {
                    match decode_leaf(entries) {
                        Ok(Leaf::Label(label)) => Ok(RawCourseEntry::Label(label)),
                        Ok(Leaf::Course(course)) => Ok(RawCourseEntry::Course(course)),
                        Err(e) => Err(e),
                    }
                },
            }
        },
        _ => Err(DecodeError::WrongShape { expected: Shape::Object }),
    }
}

/// Decodes every element of a list of course entries, in order. The first element that
/// cannot be decoded decides the error, which carries its position.
pub fn decode_raw_entries(items: &Vec<Node>) -> (r: Result<Vec<RawCourseEntry>, DecodeError>)
    ensures
        match r {
            Ok(raw) => raw_entries_spec(items_view(items@), items@.len()) == Ok::<
                _,
                DecodeErrorView,
            >(raw_view(raw@)),
            Err(e) => raw_entries_spec(items_view(items@), items@.len()) == Err::<
                Seq<RawView>,
                _,
            >(e@),
        },
{
    let ghost nodes = items_view(items@);
    let mut raw: Vec<RawCourseEntry> = Vec::new();
    let mut i: usize = 0;
    assert(raw_view(raw@) =~= Seq::<RawView>::empty());
    while i < items.len()
        invariant
            i <= items.len(),
            nodes == items_view(items@),
            raw_entries_spec(nodes, i as nat) == Ok::<_, DecodeErrorView>(raw_view(raw@)),
        decreases items.len() - i,
    {
        let ghost before = raw_view(raw@);
        assert(nodes[i as int] == items@[i as int]@);
        match decode_raw_entry(&items[i]) {
            Ok(entry) => {
                raw.push(entry);
                assert(raw_view(raw@) =~= before.push(entry@));
            },
            Err(e) => {
                proof {
                    lemma_raw_entries_failed(nodes, (i + 1) as nat, items@.len());
                }
                return Err(DecodeError::AtIndex(i, Box::new(e)));
            },
        }
        i = i + 1;
    }
    Ok(raw)
}

/// Once an element has failed, the elements after it are not looked at.
proof fn lemma_raw_entries_failed(items: Seq<NodeView>, n: nat, m: nat)
    requires
        n <= m <= items.len(),
        raw_entries_spec(items, n) is Err,
    ensures
        raw_entries_spec(items, m) == raw_entries_spec(items, n),
    decreases m - n,
{
    if n < m {
        lemma_raw_entries_failed(items, n, (m - 1) as nat);
    }
}

/// One of the two connectives of a group.
enum Connective {
    And,
    Or,
}

/// A group that has been opened and not yet closed, together with the entries that came
/// before it in the list that holds it.
struct Frame {
    connective: Connective,
    before: Vec<CourseEntry>,
}

/// The marker that opens a group of the given connective.
spec fn opener(connective: Connective) -> RawView {
    match connective {
        Connective::And => RawView::And,
        Connective::Or => RawView::Or,
    }
}

/// The raw entries that the first `n` open groups have taken in before their last opening
/// marker, that marker included.
spec fn taken(stack: Seq<Frame>, n: nat) -> Seq<RawView>
    decreases n,
{
    if n == 0 || n > stack.len() {
        Seq::empty()
    } else {
        taken(stack, (n - 1) as nat) + flatten(course_entries_view(stack[n - 1].before@)) + seq![
            opener(stack[n - 1].connective),
        ]
    }
}

/// What open groups have taken in does not depend on groups opened later.
proof fn lemma_taken_agrees(a: Seq<Frame>, b: Seq<Frame>, n: nat)
    requires
        n <= a.len(),
        n <= b.len(),
        forall|k: int| 0 <= k < n ==> a[k] == b[k],
    ensures
        taken(a, n) == taken(b, n),
    decreases n,
{
    if n > 0 {
        lemma_taken_agrees(a, b, (n - 1) as nat);
    }
}

/// The state of an assembly: the groups that are open, innermost last, and the entries
/// collected so far for the innermost open list.
struct Assembly {
    stack: Vec<Frame>,
    current: Vec<CourseEntry>,
}

impl Assembly {
    /// The raw entries taken in so far.
    spec fn consumed(&self) -> Seq<RawView> {
        taken(self.stack@, self.stack@.len()) + flatten(course_entries_view(self.current@))
    }

    /// The number of open groups.
    spec fn open(&self) -> nat {
        self.stack@.len()
    }

    /// An assembly that has taken in nothing.
    fn new() -> (a: Assembly)
        ensures
            a.consumed() == Seq::<RawView>::empty(),
            a.open() == 0,
    {
        let a = Assembly { stack: Vec::new(), current: Vec::new() };
        proof {
            lemma_flatten_empty();
            assert(course_entries_view(a.current@) =~= Seq::<CourseEntryView>::empty());
        }
        a
    }

    /// Takes in a marker that opens a group.
    fn open_group(&mut self, connective: Connective)
        ensures
            final(self).consumed() == old(self).consumed().push(opener(connective)),
            final(self).open() == old(self).open() + 1,
    {
        let ghost old_stack = self.stack@;
        let ghost old_current = course_entries_view(self.current@);
        let mut before: Vec<CourseEntry> = Vec::new();
        core::mem::swap(&mut self.current, &mut before);
        self.stack.push(Frame { connective, before });
        proof {
            lemma_taken_agrees(self.stack@, old_stack, old_stack.len());
            lemma_flatten_empty();
            assert(course_entries_view(self.current@) =~= Seq::<CourseEntryView>::empty());
            assert(self.consumed() =~= (taken(old_stack, old_stack.len()) + flatten(
                old_current,
            )).push(opener(connective)));
        }
    }

    /// Takes in a leaf.
    fn add(&mut self, entry: CourseEntry)
        ensures
            final(self).consumed() == old(self).consumed() + flatten_entry(entry@),
            final(self).open() == old(self).open(),
    {
        let ghost old_current = course_entries_view(self.current@);
        self.current.push(entry);
        proof {
            assert(course_entries_view(self.current@) =~= old_current.push(entry@));
            lemma_flatten_push(old_current, entry@);
            assert(self.consumed() =~= old(self).consumed() + flatten_entry(entry@));
        }
    }

    /// Takes in an end marker, if a group is open.
    fn close_group(&mut self) -> (closed: bool)
        ensures
            closed == (old(self).open() > 0),
            closed ==> final(self).consumed() == old(self).consumed().push(RawView::End),
            closed ==> final(self).open() == old(self).open() - 1,
    {
        let ghost old_stack = self.stack@;
        let ghost old_current = course_entries_view(self.current@);
        match self.stack.pop() {
            None => false,
            Some(frame) => {
                let Frame { connective, before } = frame;
                let ghost before_view = course_entries_view(before@);
                let mut items = before;
                core::mem::swap(&mut self.current, &mut items);
                let inner = CourseEntries(items);
                let group = match connective {
                    Connective::And => {
                        proof {
                            lemma_and_view(inner);
                        }
                        CourseEntry::And(inner)
                    },
                    Connective::Or => {
                        proof {
                            lemma_or_view(inner);
                        }
                        CourseEntry::Or(inner)
                    },
                };
                self.current.push(group);
                proof {
                    lemma_taken_agrees(self.stack@, old_stack, self.stack@.len());
                    assert(course_entries_view(self.current@) =~= before_view.push(group@));
                    lemma_flatten_push(before_view, group@);
                    assert(flatten_entry(group@) =~= seq![opener(connective)] + flatten(
                        old_current,
                    ) + seq![RawView::End]);
                    assert(taken(old_stack, old_stack.len()) == taken(
                        self.stack@,
                        self.stack@.len(),
                    ) + flatten(before_view) + seq![opener(connective)]);
                    assert(self.consumed() =~= (taken(old_stack, old_stack.len()) + flatten(
                        old_current,
                    )).push(RawView::End));
                }
                true
            },
        }
    }

    /// The tree, once no group is open.
    fn finish(self) -> (tree: CourseEntries)
        requires
            self.open() == 0,
        ensures
            flatten(tree@) == self.consumed(),
    {
        let tree = CourseEntries(self.current);
        proof {
            assert(taken(self.stack@, 0) =~= Seq::<RawView>::empty());
            assert(flatten(tree@) =~= self.consumed());
        }
        tree
    }
}

/// Assembles a list of raw course entries into a tree.
pub struct CoursesParser {
    raw: Vec<RawCourseEntry>,
}

impl CoursesParser {
    /// The raw entries that the parser was made with.
    pub closed spec fn tokens(&self) -> Seq<RawView> {
        raw_view(self.raw@)
    }

    /// A parser for the given raw entries.
    pub fn new(raw: Vec<RawCourseEntry>) -> (parser: CoursesParser)
        ensures
            parser.tokens() == raw_view(raw@),
    {
        CoursesParser { raw }
    }

    /// Assembles the raw entries into the tree that they are the flat form of.
    ///
    /// The entries are taken in document order, and groups may hold groups to any depth:
    /// open groups are kept on a stack, not on the call stack. An end marker with no open
    /// group, and a group that is still open at the end, are refused.
    pub fn parse(self) -> (r: Result<CourseEntries, StructureError>)
        ensures
            match r {
                Ok(tree) => assemble_spec(self.tokens()) == Ok::<_, StructureErrorView>(tree@)
                    && flatten(tree@) == self.tokens(),
                Err(e) => assemble_spec(self.tokens()) == Err::<Seq<CourseEntryView>, _>(e@),
            },
            r is Ok <==> balanced(self.tokens()),
    {
        let ghost tokens = self.tokens();
        let ghost raw_seq = self.raw@;
        let count = self.raw.len();
        let mut assembly = Assembly::new();
        let mut index: usize = 0;
        assert(tokens.take(0) =~= Seq::<RawView>::empty());
        for entry in it: self.raw
            invariant
                it.seq() == raw_seq,
                tokens == raw_view(raw_seq),
                index == it.index(),
                index <= raw_seq.len() == count,
                never_negative(tokens, index as int),
                assembly.open() == depth(tokens, index as int),
                assembly.consumed() == tokens.take(index as int),
        {
            let ghost i = index as int;
            proof {
                assert(i < raw_seq.len());
                assert(tokens[i] == entry@);
                assert(tokens.take(i + 1) =~= tokens.take(i).push(entry@));
                assert(depth(tokens, i + 1) == depth(tokens, i) + step(tokens[i]));
            }
            match entry {
                RawCourseEntry::And => {
                    assembly.open_group(Connective::And);
                },
                RawCourseEntry::Or => {
                    assembly.open_group(Connective::Or);
                },
                RawCourseEntry::End => {
                    if !assembly.close_group() {
                        proof {
                            assert(first_unmatched(tokens, i));
                            let chosen = choose|k: int| first_unmatched(tokens, k);
                            lemma_first_unmatched_unique(tokens, i, chosen);
                            assert(!never_negative(tokens, tokens.len() as int));
                        }
                        return Err(StructureError::UnmatchedEnd { index });
                    }
                },
                RawCourseEntry::Label(label) => {
                    assembly.add(CourseEntry::Label(label));
                },
                RawCourseEntry::Course(course) => {
                    assembly.add(CourseEntry::Course(course));
                },
            }
            proof {
                assert forall|k: int| 0 <= k <= i + 1 implies depth(tokens, k) >= 0 by {
                    if k <= i {
                        assert(depth(tokens, k) >= 0);
                    }
                }
            }
            index = index + 1;
        }
        proof {
            assert(tokens.take(tokens.len() as int) =~= tokens);
            assert forall|k: int| !first_unmatched(tokens, k) by {
                if 0 <= k < tokens.len() {
                    assert(depth(tokens, k + 1) >= 0);
                }
            }
        }
        let open = assembly.stack.len();
        if open > 0 {
            return Err(StructureError::UnclosedGroup { open });
        }
        let tree = assembly.finish();
        proof {
            let chosen = choose|t: Seq<CourseEntryView>| flatten(t) == tokens;
            lemma_flatten_injective(chosen, tree@);
        }
        Ok(tree)
    }
}

impl CourseEntries {
    /// Decodes the course entries that a node describes: a list of raw entries, which is
    /// assembled into a tree, or a single mapping, which is the one course or label of a list
    /// of one.
    pub fn decode(node: &Node) -> (r: Result<CourseEntries, DecodeError>)
        ensures
            decoded(r) == course_entries_spec(node@),
    {
        match node {
            Node::List(items) => {
                proof {
                    lemma_list_view(*items);
                }
                let raw = match decode_raw_entries(items) {
                    Ok(raw) => raw,
                    Err(e) => {
                        return Err(e);
                    },
                };
                match CoursesParser::new(raw).parse() {
                    Ok(tree) => Ok(tree),
                    Err(e) => Err(DecodeError::Structure(e)),
                }
            },
            Node::Object(entries) => {
                proof {
                    lemma_object_view(*entries);
                }
                match decode_leaf(entries) {
                    Ok(leaf) => {
                        let entry = match leaf {
                            Leaf::Label(label) => CourseEntry::Label(label),
                            Leaf::Course(course) => CourseEntry::Course(course),
                        };
                        let mut list: Vec<CourseEntry> = Vec::new();
                        list.push(entry);
                        let tree = CourseEntries(list);
                        assert(tree@ =~= seq![entry@]);
                        Ok(tree)
                    },
                    Err(e) => Err(e),
                }
            },
            _ => Err(DecodeError::WrongShape { expected: Shape::ObjectOrList }),
        }
    }
}

} // verus!
