//! Laws of the recognised keys and of mappings that are written with them.

use crate::key::Key;
use crate::node::{
    field, first_keyed, has_key, keyed, lemma_field_at, repeated, EntryView, NodeView,
};
use vstd::prelude::*;

verus! {

/// Different keys are spelled differently.
pub proof fn lemma_names_distinct()
    ensures
        forall|a: Key, b: Key| a != b ==> #[trigger] a.name_spec() != #[trigger] b.name_spec(),
{
    assert forall|a: Key, b: Key| a != b implies #[trigger] a.name_spec()
        != #[trigger] b.name_spec() by {
        lemma_spelling(a);
        lemma_spelling(b);
    }
}

/// What tells the spelling of a key from that of every other: its length and three of its
/// characters.
spec fn mark(name: Seq<char>) -> (nat, char, char, char) {
    (name.len(), name[0], name[2], name[name.len() - 1])
}

/// The mark of each key.
proof fn lemma_spelling(key: Key)
    ensures
        mark(key.name_spec()) == match key {
            Key::Title => (5nat, 't', 't', 'e'),
            Key::ReqNarrative => (13nat, 'r', 'q', 'e'),
            Key::RequirementList => (16nat, 'r', 'q', 't'),
            Key::Requirements => (12nat, 'r', 'q', 's'),
            Key::Course => (6nat, 'c', 'u', 'e'),
            Key::Group => (5nat, 'g', 'o', 'p'),
            Key::Url => (3nat, 'u', 'l', 'l'),
            Key::Path => (4nat, 'p', 't', 'h'),
            Key::Guid => (4nat, 'g', 'i', 'd'),
            Key::UpperGuid => (4nat, 'G', 'I', 'D'),
            Key::Name => (4nat, 'n', 'm', 'e'),
            Key::Number => (6nat, 'n', 'm', 'r'),
            Key::SubjectName => (12nat, 's', 'b', 'e'),
            Key::SubjectCode => (12nat, 's', 'b', 'e'),
            Key::Credits => (7nat, 'c', 'e', 's'),
            Key::IsNarrative => (12nat, 'i', '_', 'e'),
            Key::CreditsMin => (11nat, 'c', 'e', 'n'),
            Key::CreditsMax => (11nat, 'c', 'e', 'x'),
            Key::Description => (11nat, 'd', 's', 'n'),
            Key::PrerequisiteNarrative => (22nat, 'p', 'e', 'e'),
            Key::Prerequisite => (12nat, 'p', 'e', 'e'),
            Key::CorequisiteNarrative => (21nat, 'c', 'r', 'e'),
            Key::Corequisite => (11nat, 'c', 'r', 'e'),
        },
        key == Key::SubjectName ==> key.name_spec()[8] == 'n',
        key == Key::SubjectCode ==> key.name_spec()[8] == 'c',
{
    reveal_strlit("title");
    reveal_strlit("req_narrative");
    reveal_strlit("requirement_list");
    reveal_strlit("requirements");
    reveal_strlit("course");
    reveal_strlit("group");
    reveal_strlit("url");
    reveal_strlit("path");
    reveal_strlit("guid");
    reveal_strlit("GUID");
    reveal_strlit("name");
    reveal_strlit("number");
    reveal_strlit("subject_name");
    reveal_strlit("subject_code");
    reveal_strlit("credits");
    reveal_strlit("is_narrative");
    reveal_strlit("credits_min");
    reveal_strlit("credits_max");
    reveal_strlit("description");
    reveal_strlit("prerequisite_narrative");
    reveal_strlit("prerequisite");
    reveal_strlit("corequisite_narrative");
    reveal_strlit("corequisite");
}

/// The entry that carries a value under a recognised key.
pub open spec fn entry(key: Key, value: NodeView) -> EntryView {
    EntryView { key: key.name_spec(), value }
}

/// The keys of the entries are, in order, the given recognised keys.
pub open spec fn keyed_by(e: Seq<EntryView>, keys: Seq<Key>) -> bool {
    e.len() == keys.len() && forall|i: int| 0 <= i < e.len() ==> (#[trigger] e[i]).key
        == keys[i].name_spec()
}

/// In a mapping written with different recognised keys, each of them stands once, with its
/// value under it.
pub proof fn lemma_written_once(e: Seq<EntryView>, keys: Seq<Key>, i: int)
    requires
        keyed_by(e, keys),
        keys.no_duplicates(),
        0 <= i < keys.len(),
    ensures
        !repeated(e, keys[i].name_spec()),
        has_key(e, keys[i].name_spec()),
        field(e, keys[i].name_spec()) == Some(e[i].value),
{
    lemma_names_distinct();
    let name = keys[i].name_spec();
    assert forall|j: int| 0 <= j < e.len() && j != i implies !keyed(e, j, name) by {
        assert(e[j].key == keys[j].name_spec());
        assert(keys[j] != keys[i]);
    }
    assert(e[i].key == name);
    assert(keyed(e, i, name));
    assert(first_keyed(e, i, name));
    lemma_field_at(e, i, name);
    assert(!repeated(e, name)) by {
        if repeated(e, name) {
            let (a, b) = choose|a: int, b: int| a < b && keyed(e, a, name) && keyed(e, b, name);
            assert(a == i && b == i);
        }
    }
}

/// In a mapping written with recognised keys, a key that is not among them does not stand.
pub proof fn lemma_not_written(e: Seq<EntryView>, keys: Seq<Key>, key: Key)
    requires
        keyed_by(e, keys),
        !keys.contains(key),
    ensures
        !repeated(e, key.name_spec()),
        !has_key(e, key.name_spec()),
        field(e, key.name_spec()) is None,
{
    lemma_names_distinct();
    let name = key.name_spec();
    assert forall|j: int| 0 <= j < e.len() implies !keyed(e, j, name) by {
        assert(e[j].key == keys[j].name_spec());
        assert(keys[j] != key);
    }
}

} // verus!
