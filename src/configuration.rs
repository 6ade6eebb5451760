//! Per-element configuration: the tagged configuration value, its flag
//! accessors, and the store that maps element paths to values.
use vstd::prelude::*;
use vstd::string::StringExecFns;

use crate::graph::TypeGraph;
use crate::path::{element_ok, element_path, path, Element};

verus! {

/// The configuration of one element. Each arm belongs to one kind of
/// element; `Unset` means that nothing was configured.
#[derive(Clone, Copy, Debug, PartialEq, Eq, Structural)]
pub enum ElementConfig {
    Unset,
    Record { as_class: bool },
    Resource { as_iterator: bool, use_guest_class: bool },
    Enum { as_typescript_enum: bool },
    Variant { as_direct_union_of_resource_classes: bool },
    ListOfTuple { as_dictionary: bool },
}

impl ElementConfig {
    pub open spec fn spec_enum_as_typescript_enum(self) -> bool {
        match self {
            ElementConfig::Enum { as_typescript_enum } => as_typescript_enum,
            _ => false,
        }
    }

    pub open spec fn spec_record_as_class(self) -> bool {
        match self {
            ElementConfig::Record { as_class } => as_class,
            _ => false,
        }
    }

    pub open spec fn spec_resource_as_iterator(self) -> bool {
        match self {
            ElementConfig::Resource { as_iterator, .. } => as_iterator,
            _ => false,
        }
    }

    pub open spec fn spec_resource_use_guest_class(self) -> bool {
        match self {
            ElementConfig::Resource { use_guest_class, .. } => use_guest_class,
            _ => false,
        }
    }

    pub open spec fn spec_variant_as_direct_union_of_resource_classes(self) -> bool {
        match self {
            ElementConfig::Variant { as_direct_union_of_resource_classes } => as_direct_union_of_resource_classes,
            _ => false,
        }
    }

    pub open spec fn spec_list_of_tuple_as_dictionary(self) -> bool {
        match self {
            ElementConfig::ListOfTuple { as_dictionary } => as_dictionary,
            _ => false,
        }
    }

    pub fn enum_as_typescript_enum(&self) -> (r: bool)
        ensures
            r == self.spec_enum_as_typescript_enum(),
    {
        match self {
            ElementConfig::Enum { as_typescript_enum } => *as_typescript_enum,
            _ => false,
        }
    }

    pub fn record_as_class(&self) -> (r: bool)
        ensures
            r == self.spec_record_as_class(),
    {
        match self {
            ElementConfig::Record { as_class } => *as_class,
            _ => false,
        }
    }

    pub fn resource_as_iterator(&self) -> (r: bool)
        ensures
            r == self.spec_resource_as_iterator(),
    {
        match self {
            ElementConfig::Resource { as_iterator, .. } => *as_iterator,
            _ => false,
        }
    }

    pub fn resource_use_guest_class(&self) -> (r: bool)
        ensures
            r == self.spec_resource_use_guest_class(),
    {
        match self {
            ElementConfig::Resource { use_guest_class, .. } => *use_guest_class,
            _ => false,
        }
    }

    pub fn variant_as_direct_union_of_resource_classes(&self) -> (r: bool)
        ensures
            r == self.spec_variant_as_direct_union_of_resource_classes(),
    {
        match self {
            ElementConfig::Variant { as_direct_union_of_resource_classes } => *as_direct_union_of_resource_classes,
            _ => false,
        }
    }

    pub fn list_of_tuple_as_dictionary(&self) -> (r: bool)
        ensures
            r == self.spec_list_of_tuple_as_dictionary(),
    {
        match self {
            ElementConfig::ListOfTuple { as_dictionary } => *as_dictionary,
            _ => false,
        }
    }
}

/// An accessor read on a value of another arm gives `false`: each flag is
/// `true` only on the arm it belongs to.
pub proof fn lemma_flags_of_other_arms_are_false(c: ElementConfig)
    ensures
        !(c is Enum) ==> !c.spec_enum_as_typescript_enum(),
        !(c is Record) ==> !c.spec_record_as_class(),
        !(c is Resource) ==> !c.spec_resource_as_iterator(),
        !(c is Resource) ==> !c.spec_resource_use_guest_class(),
        !(c is Variant) ==> !c.spec_variant_as_direct_union_of_resource_classes(),
        !(c is ListOfTuple) ==> !c.spec_list_of_tuple_as_dictionary(),
{
}

/// What a lookup of `key` in `m` gives: the stored value, or `Unset`.
pub open spec fn lookup(m: Map<Seq<char>, ElementConfig>, key: Seq<char>) -> ElementConfig {
    if m.contains_key(key) {
        m[key]
    } else {
        ElementConfig::Unset
    }
}

/// Key of a member-level entry: the element's path, a dot, the member name.
pub open spec fn member_key(g: TypeGraph, e: Element, name: Seq<char>) -> Seq<char> {
    element_path(g, e) + "."@ + name
}

/// Element configuration keyed by element path, optionally followed by
/// `.<member>`.
///
/// The entries are kept in a vector with unique keys and looked up by a
/// scan. vstd specifies `HashMap` only for key types with a proved hashing
/// model (integers, `bool`, boxes of them); for `String` keys it states no
/// result of `get` that a proof could use, so the lookup contract below
/// could not be established over it.
#[derive(Clone)]
pub struct Configuration {
    mappings: Vec<(String, ElementConfig)>,
    contents: Ghost<Map<Seq<char>, ElementConfig>>,
}

impl View for Configuration {
    type V = Map<Seq<char>, ElementConfig>;

    closed spec fn view(&self) -> Map<Seq<char>, ElementConfig> {
        self.contents@
    }
}

impl Configuration {
    /// Each key stands once in `mappings`, and the entries are exactly the map.
    pub closed spec fn wf(&self) -> bool {
        &&& forall|i: int, j: int|
            0 <= i < j < self.mappings@.len() ==> (#[trigger] self.mappings@[i]).0@
                != (#[trigger] self.mappings@[j]).0@
        &&& forall|i: int|
            0 <= i < self.mappings@.len() ==> self.contents@.contains_key(
                (#[trigger] self.mappings@[i]).0@,
            ) && self.contents@[self.mappings@[i].0@] == self.mappings@[i].1
        &&& forall|k: Seq<char>|
            #[trigger] self.contents@.contains_key(k) ==> exists|i: int|
                0 <= i < self.mappings@.len() && (#[trigger] self.mappings@[i]).0@ == k
    }

    /// A configuration with no entries.
    pub fn new() -> (r: Configuration)
        ensures
            r.wf(),
            r@ == Map::<Seq<char>, ElementConfig>::empty(),
    {
        Configuration { mappings: Vec::new(), contents: Ghost(Map::empty()) }
    }

    /// Index of the entry whose key is `key`, if there is one.
    fn position(&self, key: &String) -> (r: Option<usize>)
        requires
            self.wf(),
        ensures
            match r {
                Some(i) => i < self.mappings@.len() && self.mappings@[i as int].0@ == key@,
                None => !self@.contains_key(key@),
            },
    {
        let mut i: usize = 0;
        while i < self.mappings.len()
            invariant
                self.wf(),
                i <= self.mappings@.len(),
                forall|j: int| 0 <= j < i ==> (#[trigger] self.mappings@[j]).0@ != key@,
            decreases self.mappings@.len() - i,
        {
            if self.mappings[i].0 == *key {
                return Some(i);
            }
            i = i + 1;
        }
        None
    }

    /// Sets the configuration stored under `key`, replacing any earlier one.
    pub fn insert(&mut self, key: String, value: ElementConfig)
        requires
            old(self).wf(),
        ensures
            final(self).wf(),
            final(self)@ == old(self)@.insert(key@, value),
    {
        let ghost k = key@;
        let ghost new_contents = self.contents@.insert(k, value);
        match self.position(&key) {
            Some(i) => {
                self.mappings.set(i, (key, value));
                self.contents = Ghost(new_contents);
                assert forall|k2: Seq<char>| #[trigger] self.contents@.contains_key(k2) implies exists|j: int|
                    0 <= j < self.mappings@.len() && (#[trigger] self.mappings@[j]).0@ == k2 by {
                    if k2 != k {
                        let j = choose|j: int|
                            0 <= j < old(self).mappings@.len() && (#[trigger] old(self).mappings@[j]).0@ == k2;
                        assert(self.mappings@[j] == old(self).mappings@[j]);
                    } else {
                        assert(self.mappings@[i as int].0@ == k2);
                    }
                }
            },
            None => {
                self.mappings.push((key, value));
                self.contents = Ghost(new_contents);
                assert forall|k2: Seq<char>| #[trigger] self.contents@.contains_key(k2) implies exists|j: int|
                    0 <= j < self.mappings@.len() && (#[trigger] self.mappings@[j]).0@ == k2 by {
                    if k2 != k {
                        let j = choose|j: int|
                            0 <= j < old(self).mappings@.len() && (#[trigger] old(self).mappings@[j]).0@ == k2;
                        assert(self.mappings@[j] == old(self).mappings@[j]);
                    } else {
                        assert(self.mappings@[old(self).mappings@.len() as int].0@ == k2);
                    }
                }
            },
        }
    }

    /// The configuration stored under `key`, or `Unset`.
    pub fn get_by_key(&self, key: &String) -> (r: ElementConfig)
        requires
            self.wf(),
        ensures
            r == lookup(self@, key@),
    {
        match self.position(key) {
            Some(i) => self.mappings[i].1,
            None => ElementConfig::Unset,
        }
    }

    /// The configuration of an element, or `Unset` where none was given.
    pub fn get(&self, g: &TypeGraph, element: &Element) -> (r: ElementConfig)
        requires
            self.wf(),
            g.wf(),
            element_ok(*g, *element),
        ensures
            r == lookup(self@, element_path(*g, *element)),
    {
        let key = path(element, g);
        self.get_by_key(&key)
    }

    /// The configuration of the member `name` of an element, or `Unset`.
    pub fn get_member(&self, g: &TypeGraph, element: &Element, name: &String) -> (r: ElementConfig)
        requires
            self.wf(),
            g.wf(),
            element_ok(*g, *element),
        ensures
            r == lookup(self@, member_key(*g, *element, name@)),
    {
        let mut key = path(element, g);
        key.append(".");
        key.append(name.as_str());
        self.get_by_key(&key)
    }
}

impl Default for Configuration {
    fn default() -> (r: Configuration)
        ensures
            r.wf(),
            r@ == Map::<Seq<char>, ElementConfig>::empty(),
    {
        Configuration::new()
    }
}

/// An element, or a member of it, with no entry in the configuration
/// resolves to `Unset`.
pub proof fn lemma_absent_is_unset(c: Configuration, g: TypeGraph, e: Element, member: Seq<char>)
    ensures
        !c@.contains_key(element_path(g, e)) ==> lookup(c@, element_path(g, e))
            == ElementConfig::Unset,
        !c@.contains_key(member_key(g, e, member)) ==> lookup(c@, member_key(g, e, member))
            == ElementConfig::Unset,
{
}

/// Looking the same key up twice in an unchanged configuration gives the
/// same value both times.
pub proof fn lemma_lookup_repeatable(c: Configuration, key: Seq<char>, a: ElementConfig, b: ElementConfig)
    requires
        a == lookup(c@, key),
        b == lookup(c@, key),
    ensures
        a == b,
{
}

} // verus!
