//! The generic document: scalars, ordered lists and keyed mappings.
//!
//! A mapping keeps its entries in document order and keeps every entry, also where a key
//! occurs more than once, so that the decoders can tell a repeated key from a single one.

use vstd::prelude::*;

verus! {

/// A node of a parsed document.
#[derive(PartialEq, Eq, Debug)]
pub enum Node {
    /// The null value.
    Null,
    /// A boolean.
    Bool(bool),
    /// A number, kept as the literal it was written with.
    Number(String),
    /// A text.
    Text(String),
    /// An ordered list.
    List(Vec<Node>),
    /// A keyed mapping: its entries in document order.
    Object(Vec<Entry>),
}

/// One entry of a keyed mapping.
#[derive(PartialEq, Eq, Debug)]
pub struct Entry {
    /// The key.
    pub key: String,
    /// The value that stands under the key.
    pub value: Node,
}

/// The mathematical value of a [`Node`].
pub enum NodeView {
    /// The null value.
    Null,
    /// A boolean.
    Bool(bool),
    /// A number, as its literal.
    Number(Seq<char>),
    /// A text.
    Text(Seq<char>),
    /// An ordered list.
    List(Seq<NodeView>),
    /// A keyed mapping: its entries in document order.
    Object(Seq<EntryView>),
}

/// The mathematical value of an [`Entry`].
pub struct EntryView {
    /// The key.
    pub key: Seq<char>,
    /// The value that stands under the key.
    pub value: NodeView,
}

impl View for Node {
    type V = NodeView;

    open spec fn view(&self) -> NodeView
        decreases self, 0nat,
    {
        match self {
            Node::Null => NodeView::Null,
            Node::Bool(b) => NodeView::Bool(*b),
            Node::Number(s) => NodeView::Number(s@),
            Node::Text(s) => NodeView::Text(s@),
            Node::List(items) => NodeView::List(first_items_view(items@, items@.len())),
            Node::Object(entries) => NodeView::Object(
                first_entries_view(entries@, entries@.len()),
            ),
        }
    }
}

/// The values of the first `n` items of a list, in order.
pub open spec fn first_items_view(items: Seq<Node>, n: nat) -> Seq<NodeView>
    decreases items, n,
{
    if n == 0 || n > items.len() {
        Seq::empty()
    } else {
        first_items_view(items, (n - 1) as nat).push(items[n - 1].view())
    }
}

/// The values of the first `n` entries of a mapping, in order.
pub open spec fn first_entries_view(entries: Seq<Entry>, n: nat) -> Seq<EntryView>
    decreases entries, n,
{
    if n == 0 || n > entries.len() {
        Seq::empty()
    } else {
        first_entries_view(entries, (n - 1) as nat).push(
            EntryView { key: entries[n - 1].key@, value: entries[n - 1].value.view() },
        )
    }
}

impl View for Entry {
    type V = EntryView;

    open spec fn view(&self) -> EntryView {
        EntryView { key: self.key@, value: self.value@ }
    }
}

/// The values of the items of a list, in order.
pub open spec fn items_view(items: Seq<Node>) -> Seq<NodeView> {
    Seq::new(items.len(), |i: int| items[i]@)
}

/// The values of the entries of a mapping, in order.
pub open spec fn entries_view(entries: Seq<Entry>) -> Seq<EntryView> {
    Seq::new(entries.len(), |i: int| entries[i]@)
}

/// The values of the first `n` items are the first `n` of the items' values.
proof fn lemma_first_items_view(items: Seq<Node>, n: nat)
    requires
        n <= items.len(),
    ensures
        first_items_view(items, n) == items_view(items).take(n as int),
    decreases n,
{
    let all = items_view(items);
    if n > 0 {
        lemma_first_items_view(items, (n - 1) as nat);
        assert(all.take(n as int) =~= all.take(n - 1).push(items[n - 1]@));
    } else {
        assert(all.take(0) =~= Seq::<NodeView>::empty());
    }
}

/// The values of the first `n` entries are the first `n` of the entries' values.
proof fn lemma_first_entries_view(entries: Seq<Entry>, n: nat)
    requires
        n <= entries.len(),
    ensures
        first_entries_view(entries, n) == entries_view(entries).take(n as int),
    decreases n,
{
    let all = entries_view(entries);
    if n > 0 {
        lemma_first_entries_view(entries, (n - 1) as nat);
        assert(all.take(n as int) =~= all.take(n - 1).push(entries[n - 1]@));
    } else {
        assert(all.take(0) =~= Seq::<EntryView>::empty());
    }
}

/// The value of a list node is the list of its items' values.
pub proof fn lemma_list_view(items: Vec<Node>)
    ensures
        Node::List(items)@ == NodeView::List(items_view(items@)),
{
    lemma_first_items_view(items@, items@.len());
    assert(items_view(items@).take(items@.len() as int) =~= items_view(items@));
}

/// The value of a mapping node is the list of its entries' values.
pub proof fn lemma_object_view(entries: Vec<Entry>)
    ensures
        Node::Object(entries)@ == NodeView::Object(entries_view(entries@)),
{
    lemma_first_entries_view(entries@, entries@.len());
    assert(entries_view(entries@).take(entries@.len() as int) =~= entries_view(entries@));
}

impl Clone for Node {
    /// A copy of the node and of everything below it.
    #[verifier::loop_isolation(false)]
    fn clone(&self) -> (copy: Node)
        ensures
            copy@ == self@,
        decreases self,
    {
        match self {
            Node::Null => Node::Null,
            Node::Bool(b) => Node::Bool(*b),
            Node::Number(literal) => Node::Number(literal.clone()),
            Node::Text(text) => Node::Text(text.clone()),
            Node::List(items) => {
                let mut copies: Vec<Node> = Vec::new();
                let mut i: usize = 0;
                while i < items.len()
                    invariant
                        i <= items.len(),
                        copies@.len() == i,
                        forall|k: int| 0 <= k < i ==> copies@[k]@ == items@[k]@,
                    decreases items.len() - i,
                {
                    copies.push(items[i].clone());
                    i = i + 1;
                }
                proof {
                    lemma_list_view(copies);
                    lemma_list_view(*items);
                    assert(items_view(copies@) =~= items_view(items@));
                }
                Node::List(copies)
            },
            Node::Object(entries) => {
                let mut copies: Vec<Entry> = Vec::new();
                let mut i: usize = 0;
                while i < entries.len()
                    invariant
                        i <= entries.len(),
                        copies@.len() == i,
                        forall|k: int| 0 <= k < i ==> copies@[k]@ == entries@[k]@,
                    decreases entries.len() - i,
                {
                    let value = entries[i].value.clone();
                    copies.push(Entry { key: entries[i].key.clone(), value });
                    i = i + 1;
                }
                proof {
                    lemma_object_view(copies);
                    lemma_object_view(*entries);
                    assert(entries_view(copies@) =~= entries_view(entries@));
                }
                Node::Object(copies)
            },
        }
    }
}

impl Clone for Entry {
    /// A copy of the entry and of everything below it.
    fn clone(&self) -> (copy: Entry)
        ensures
            copy@ == self@,
    {
        Entry { key: self.key.clone(), value: self.value.clone() }
    }
}

/// An entry carries `name` as its key.
pub open spec fn keyed(entries: Seq<EntryView>, i: int, name: Seq<char>) -> bool {
    0 <= i < entries.len() && entries[i].key == name
}

/// Some entry carries `name` as its key.
pub open spec fn has_key(entries: Seq<EntryView>, name: Seq<char>) -> bool {
    exists|i: int| keyed(entries, i, name)
}

/// More than one entry carries `name` as its key.
pub open spec fn repeated(entries: Seq<EntryView>, name: Seq<char>) -> bool {
    exists|i: int, j: int| i < j && keyed(entries, i, name) && keyed(entries, j, name)
}

/// Entry `i` is the first that carries `name` as its key.
pub open spec fn first_keyed(entries: Seq<EntryView>, i: int, name: Seq<char>) -> bool {
    keyed(entries, i, name) && forall|j: int| 0 <= j < i ==> !keyed(entries, j, name)
}

/// The value that stands under `name`: that of the first entry so keyed, if there is one.
pub open spec fn field(entries: Seq<EntryView>, name: Seq<char>) -> Option<NodeView> {
    if has_key(entries, name) {
        Some(entries[choose|i: int| first_keyed(entries, i, name)].value)
    } else {
        None
    }
}

/// The first entry keyed `name` is the one whose value `field` gives.
pub proof fn lemma_field_at(entries: Seq<EntryView>, i: int, name: Seq<char>)
    requires
        first_keyed(entries, i, name),
    ensures
        field(entries, name) == Some(entries[i].value),
{
    let j = choose|j: int| first_keyed(entries, j, name);
    assert(first_keyed(entries, j, name));
    assert(keyed(entries, i, name));
    if j < i {
        assert(!keyed(entries, j, name));
    } else if i < j {
        assert(!keyed(entries, i, name));
    }
}

} // verus!
