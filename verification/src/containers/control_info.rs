//! Control information: what precedes each section of an HDT file and tells
//! what the section is.
use crate::text::{decimal_text, same_text};
use vstd::prelude::*;

verus! {

/// What kind of section follows.
#[derive(Debug, Clone, Copy, PartialEq, Eq, Structural)]
pub enum ControlType {
    Global,
    Header,
    Dictionary,
    Triples,
    Index,
}

impl ControlType {
    /// The kind's name.
    pub open spec fn spec_name(self) -> Seq<char> {
        match self {
            ControlType::Global => "Global"@,
            ControlType::Header => "Header"@,
            ControlType::Dictionary => "Dictionary"@,
            ControlType::Triples => "Triples"@,
            ControlType::Index => "Index"@,
        }
    }

    /// The kind's name.
    pub fn name(&self) -> (name: &'static str)
        ensures
            name@ == self.spec_name(),
            match self {
                ControlType::Global => name@ == "Global"@,
                ControlType::Header => name@ == "Header"@,
                ControlType::Dictionary => name@ == "Dictionary"@,
                ControlType::Triples => name@ == "Triples"@,
                ControlType::Index => name@ == "Index"@,
            },
    {
        match self {
            ControlType::Global => "Global",
            ControlType::Header => "Header",
            ControlType::Dictionary => "Dictionary",
            ControlType::Triples => "Triples",
            ControlType::Index => "Index",
        }
    }
}

/// Texts by their keys, each key once.
#[derive(Debug)]
pub struct Properties {
    entries: Vec<(String, String)>,
}

/// The map that a list of entries with different keys holds.
spec fn entries_map(entries: Seq<(String, String)>) -> Map<Seq<char>, Seq<char>>
    decreases entries.len(),
{
    if entries.len() == 0 {
        Map::empty()
    } else {
        entries_map(entries.drop_last()).insert(entries.last().0@, entries.last().1@)
    }
}

spec fn keys_differ(entries: Seq<(String, String)>) -> bool {
    forall|i: int, j: int|
        0 <= i < j < entries.len() ==> (#[trigger] entries[i]).0@ != (#[trigger] entries[j]).0@
}

proof fn lemma_key_absent(entries: Seq<(String, String)>, key: Seq<char>)
    requires
        forall|i: int| 0 <= i < entries.len() ==> (#[trigger] entries[i]).0@ != key,
    ensures
        !entries_map(entries).contains_key(key),
    decreases entries.len(),
{
    if entries.len() > 0 {
        assert forall|i: int| 0 <= i < entries.drop_last().len() implies (
        #[trigger] entries.drop_last()[i]).0@ != key by {
            assert(entries.drop_last()[i] == entries[i]);
        }
        lemma_key_absent(entries.drop_last(), key);
    }
}

proof fn lemma_key_present(entries: Seq<(String, String)>, i: int)
    requires
        keys_differ(entries),
        0 <= i < entries.len(),
    ensures
        entries_map(entries).contains_key(entries[i].0@),
        entries_map(entries)[entries[i].0@] == entries[i].1@,
    decreases entries.len(),
{
    if i < entries.len() - 1 {
        let rest = entries.drop_last();
        assert(rest[i] == entries[i]);
        assert(keys_differ(rest)) by {
            assert forall|j: int, k: int| 0 <= j < k < rest.len() implies (#[trigger] rest[j]).0@
                != (#[trigger] rest[k]).0@ by {
                assert(rest[j] == entries[j] && rest[k] == entries[k]);
            }
        }
        lemma_key_present(rest, i);
        assert(entries[i].0@ != entries[entries.len() - 1].0@);
    }
}

proof fn lemma_entry_replaced(entries: Seq<(String, String)>, i: int, entry: (String, String))
    requires
        keys_differ(entries),
        0 <= i < entries.len(),
        entries[i].0@ == entry.0@,
    ensures
        keys_differ(entries.update(i, entry)),
        entries_map(entries.update(i, entry)) == entries_map(entries).insert(entry.0@, entry.1@),
    decreases entries.len(),
{
    let updated = entries.update(i, entry);
    assert(keys_differ(updated)) by {
        assert forall|j: int, k: int| 0 <= j < k < updated.len() implies (#[trigger] updated[j]).0@
            != (#[trigger] updated[k]).0@ by {
            assert(updated[j].0@ == entries[j].0@);
            assert(updated[k].0@ == entries[k].0@);
        }
    }
    if i == entries.len() - 1 {
        assert(updated.drop_last() =~= entries.drop_last());
        assert(entries_map(updated) =~= entries_map(entries).insert(entry.0@, entry.1@));
    } else {
        let rest = entries.drop_last();
        assert(updated.drop_last() =~= rest.update(i, entry));
        assert(keys_differ(rest)) by {
            assert forall|j: int, k: int| 0 <= j < k < rest.len() implies (#[trigger] rest[j]).0@
                != (#[trigger] rest[k]).0@ by {
                assert(rest[j] == entries[j] && rest[k] == entries[k]);
            }
        }
        lemma_entry_replaced(rest, i, entry);
        assert(entries[i].0@ != entries[entries.len() - 1].0@);
        assert(entries_map(updated) =~= entries_map(entries).insert(entry.0@, entry.1@));
    }
}

impl View for Properties {
    type V = Map<Seq<char>, Seq<char>>;

    closed spec fn view(&self) -> Map<Seq<char>, Seq<char>> {
        entries_map(self.entries@)
    }
}

impl Properties {
    #[verifier::type_invariant]
    spec fn each_key_once(self) -> bool {
        keys_differ(self.entries@)
    }

    /// No texts.
    pub fn new() -> (properties: Properties)
        ensures
            properties@ == Map::<Seq<char>, Seq<char>>::empty(),
    {
        Properties { entries: Vec::new() }
    }

    /// Finds where a key stands.
    fn position(&self, key: &str) -> (found: Option<usize>)
        ensures
            match found {
                Some(i) => i < self.entries@.len() && self.entries@[i as int].0@ == key@,
                None => forall|i: int|
                    0 <= i < self.entries@.len() ==> (#[trigger] self.entries@[i]).0@ != key@,
            },
    {
        let mut i: usize = 0;
        while i < self.entries.len()
            invariant
                i <= self.entries@.len(),
                forall|j: int| 0 <= j < i ==> (#[trigger] self.entries@[j]).0@ != key@,
            decreases self.entries@.len() - i,
        {
            if same_text(self.entries[i].0.as_str(), key) {
                return Some(i);
            }
            i = i + 1;
        }
        None
    }

    /// Puts a text under a key, in the place of the one that was there.
    pub fn insert(&mut self, key: String, value: String)
        ensures
            final(self)@ == old(self)@.insert(key@, value@),
    {
        proof {
            use_type_invariant(&*self);
        }
        let found = self.position(key.as_str());
        let ghost entry = (key, value);
        let ghost before = self.entries@;
        let mut entries: Vec<(String, String)> = Vec::new();
        std::mem::swap(&mut self.entries, &mut entries);
        match found {
            Some(i) => {
                entries.set(i, (key, value));
                proof {
                    lemma_entry_replaced(before, i as int, entry);
                    assert(entries@ =~= before.update(i as int, entry));
                }
            },
            None => {
                entries.push((key, value));
                proof {
                    assert(entries@.drop_last() =~= before);
                }
            },
        }
        self.entries = entries;
    }

    /// The text under a key.
    pub fn get(&self, key: &str) -> (value: Option<String>)
        ensures
            match value {
                Some(value) => self@.contains_key(key@) && self@[key@] == value@,
                None => !self@.contains_key(key@),
            },
    {
        proof {
            use_type_invariant(&*self);
        }
        match self.position(key) {
            Some(i) => {
                proof {
                    lemma_key_present(self.entries@, i as int);
                }
                Some(self.entries[i].1.clone())
            },
            None => {
                proof {
                    lemma_key_absent(self.entries@, key@);
                }
                None
            },
        }
    }
}

impl Properties {
    /// The texts with their keys, in the order in which the keys came.
    pub fn entries(&self) -> (entries: &[(String, String)])
        ensures
            forall|i: int|
                0 <= i < entries@.len() ==> self@.contains_key((#[trigger] entries@[i]).0@)
                    && self@[entries@[i].0@] == entries@[i].1@,
            forall|i: int, j: int|
                0 <= i < j < entries@.len() ==> (#[trigger] entries@[i]).0@ != (
                #[trigger] entries@[j]).0@,
            forall|key: Seq<char>| #[trigger]
                self@.contains_key(key) ==> exists|i: int|
                    0 <= i < entries@.len() && (#[trigger] entries@[i]).0@ == key,
    {
        proof {
            use_type_invariant(self);
            assert forall|i: int| 0 <= i < self.entries@.len() implies self@.contains_key(
                (#[trigger] self.entries@[i]).0@,
            ) && self@[self.entries@[i].0@] == self.entries@[i].1@ by {
                lemma_key_present(self.entries@, i);
            }
            assert forall|key: Seq<char>| #[trigger] self@.contains_key(key) implies exists|i: int|
                0 <= i < self.entries@.len() && (#[trigger] self.entries@[i]).0@ == key by {
                if forall|i: int|
                    0 <= i < self.entries@.len() ==> (#[trigger] self.entries@[i]).0@ != key {
                    lemma_key_absent(self.entries@, key);
                }
            }
        }
        self.entries.as_slice()
    }
}

/// What precedes a section of an HDT file.
#[derive(Debug)]
pub struct ControlInfo {
    pub control_type: ControlType,
    /// The section's format.
    pub format: String,
    /// The section's metadata.
    pub properties: Properties,
}

/// The model of [`ControlInfo`].
pub struct ControlInfoView {
    pub control_type: ControlType,
    pub format: Seq<char>,
    pub properties: Map<Seq<char>, Seq<char>>,
}

impl View for ControlInfo {
    type V = ControlInfoView;

    open spec fn view(&self) -> ControlInfoView {
        ControlInfoView {
            control_type: self.control_type,
            format: self.format@,
            properties: self.properties@,
        }
    }
}

impl ControlInfoView {
    /// The property under a key.
    pub open spec fn property(self, key: Seq<char>) -> Option<Seq<char>> {
        if self.properties.contains_key(key) {
            Some(self.properties[key])
        } else {
            None
        }
    }
}

/// What precedes a header of `length` bytes.
pub open spec fn header_control_info(length: nat) -> ControlInfoView {
    ControlInfoView {
        control_type: ControlType::Header,
        format: "ntriples"@,
        properties: Map::empty().insert("length"@, crate::text::decimal(length)),
    }
}

impl ControlInfo {
    /// The property under a key.
    pub fn get(&self, key: &str) -> (value: Option<String>)
        ensures
            match value {
                Some(value) => self@.property(key@) == Some(value@) && self.properties@.contains_key(
                    key@,
                ) && self.properties@[key@] == value@,
                None => self@.property(key@) is None && !self.properties@.contains_key(key@),
            },
    {
        self.properties.get(key)
    }

    /// What precedes a header of `length` bytes.
    pub fn header(length: usize) -> (control_info: ControlInfo)
        ensures
            control_info@ == header_control_info(length as nat),
            control_info.control_type == ControlType::Header,
            control_info.format@ == "ntriples"@,
            control_info.properties@ == Map::<Seq<char>, Seq<char>>::empty().insert(
                "length"@,
                crate::text::decimal(length as nat),
            ),
    {
        let mut properties = Properties::new();
        properties.insert("length".to_owned(), decimal_text(length as u64));
        ControlInfo {
            control_type: ControlType::Header,
            format: "ntriples".to_owned(),
            properties,
        }
    }
}

/// The model of control information holds what this holds, and a property is
/// what the map has under its key.
pub proof fn control_info_model_holds_the_same(info: ControlInfo, key: Seq<char>)
    ensures
        info@.control_type == info.control_type,
        info@.format == info.format@,
        info@.properties == info.properties@,
        info.properties@.contains_key(key) ==> info@.property(key) == Some(info.properties@[key]),
        !info.properties@.contains_key(key) ==> info@.property(key) is None,
{
}

/// What precedes a header tells that one follows, in N-Triples, and its length
/// in decimal and nothing more.
pub proof fn header_is_preceded_by_its_length(length: nat, key: Seq<char>)
    ensures
        header_control_info(length).control_type == ControlType::Header,
        header_control_info(length).format == "ntriples"@,
        header_control_info(length).properties.contains_key(key) <==> key == "length"@,
        header_control_info(length).properties["length"@] == crate::text::decimal(length),
{
}

} // verus!
