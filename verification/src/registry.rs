//! The catalogue of object types and their tags.

use vstd::prelude::*;
use crate::decimal::{decimal_string, tag_string};

verus! {

/// The tag that no type has: it marks an unknown type, and no identifier
/// with it leads anywhere.
pub const UNKNOWN_TAG: u64 = 0;

/// The tag of the type declared at `position`: tags count from 1, and
/// `UNKNOWN_TAG` is never given out.
pub open spec fn tag_at(position: int) -> nat
    recommends
        position >= 0,
{
    (position + 1) as nat
}

/// `tag` is written exactly as the tag of the type at `position`, one of the
/// first `count` types.
pub open spec fn denotes(count: nat, tag: Seq<char>, position: int) -> bool {
    0 <= position < count && decimal_string(tag_at(position)) == tag
}

/// `tag` is written exactly as the tag of one of the first `count` types.
pub open spec fn is_registered(count: nat, tag: Seq<char>) -> bool {
    exists|position: int| denotes(count, tag, position)
}

/// The position of the type that `tag` names among the first `count`.
pub open spec fn position_of(count: nat, tag: Seq<char>) -> int
    recommends
        is_registered(count, tag),
{
    choose|position: int| denotes(count, tag, position)
}

/// The name of the type that `tag` names, by exact comparison of `tag` with
/// the decimal notation of each registered tag.
pub open spec fn lookup_spec(names: Seq<Seq<char>>, tag: Seq<char>) -> Option<Seq<char>> {
    if is_registered(names.len(), tag) {
        Some(names[position_of(names.len(), tag)])
    } else {
        None
    }
}

/// An ordered list of type names. The type at position `p` has the tag
/// `p + 1`; the list is never changed once built.
pub struct NodeRegistry {
    names: Vec<String>,
    tags: Vec<String>,
}

impl View for NodeRegistry {
    type V = Seq<Seq<char>>;

    /// The type names, in the order of declaration.
    closed spec fn view(&self) -> Seq<Seq<char>> {
        self.names.deep_view()
    }
}

impl NodeRegistry {
    /// Beside each name stands its tag, written out.
    #[verifier::type_invariant]
    spec fn well_formed(self) -> bool {
        &&& self.tags@.len() == self.names@.len()
        &&& forall|p: int|
            0 <= p < self.tags@.len() ==> (#[trigger] self.tags@[p])@ == decimal_string(tag_at(p))
    }

    /// Builds the registry of the given types; their order gives the tags.
    pub fn new(names: Vec<String>) -> (registry: NodeRegistry)
        ensures
            registry@ == names.deep_view(),
    {
        let mut tags: Vec<String> = Vec::new();
        let mut position: usize = 0;
        while position < names.len()
            invariant
                position <= names.len(),
                tags@.len() == position,
                forall|p: int|
                    0 <= p < position ==> (#[trigger] tags@[p])@ == decimal_string(tag_at(p)),
            decreases names.len() - position,
        {
            tags.push(tag_string(position as u64 + 1));
            position += 1;
        }
        NodeRegistry { names, tags }
    }

    /// The number of registered types.
    pub fn len(&self) -> (count: usize)
        ensures
            count == self@.len(),
    {
        self.names.len()
    }

    /// The name of the type declared at `position`, if there is one.
    pub fn name_at(&self, position: usize) -> (name: Option<&String>)
        ensures
            match name {
                Some(name) => position < self@.len() && name@ == self@[position as int],
                None => position >= self@.len(),
            },
    {
        if position < self.names.len() {
            Some(&self.names[position])
        } else {
            None
        }
    }

    /// The tag of the type declared at `position`, if there is one.
    pub fn tag_of(&self, position: usize) -> (tag: Option<u64>)
        ensures
            match tag {
                Some(tag) => position < self@.len() && tag == tag_at(position as int),
                None => position >= self@.len(),
            },
    {
        if position < self.names.len() {
            Some(position as u64 + 1)
        } else {
            None
        }
    }

    /// The position of the type whose tag is written exactly as `tag`.
    fn find(&self, tag: &str) -> (found: Option<usize>)
        ensures
            match found {
                Some(position) => denotes(self@.len(), tag@, position as int),
                None => !is_registered(self@.len(), tag@),
            },
    {
        proof {
            use_type_invariant(self);
        }
        let wanted = String::from_str(tag);
        let mut position: usize = 0;
        while position < self.tags.len()
            invariant
                position <= self.tags@.len(),
                self.tags@.len() == self.names@.len(),
                wanted@ == tag@,
                forall|p: int|
                    0 <= p < self.tags@.len() ==> (#[trigger] self.tags@[p])@ == decimal_string(
                        tag_at(p),
                    ),
                forall|p: int| 0 <= p < position ==> !denotes(self@.len(), tag@, p),
            decreases self.tags@.len() - position,
        {
            if self.tags[position] == wanted {
                return Some(position);
            }
            position += 1;
        }
        None
    }

    /// The tag and the name of the type whose tag is written exactly as
    /// `tag`.
    ///
    /// The comparison is between strings, in the order of declaration: `tag`
    /// is not read as a number, so a leading zero, a sign or a space makes
    /// it unknown.
    pub fn resolve(&self, tag: &str) -> (found: Option<(u64, &String)>)
        ensures
            match found {
                Some((number, name)) => {
                    &&& denotes(self@.len(), tag@, number - 1)
                    &&& name@ == self@[number - 1]
                },
                None => !is_registered(self@.len(), tag@),
            },
    {
        match self.find(tag) {
            Some(position) => {
                assert(self.names.len() == self.names@.len());
                Some((position as u64 + 1, &self.names[position]))
            },
            None => None,
        }
    }

    /// The name of the type whose tag is written exactly as `tag`; see
    /// `resolve`.
    pub fn lookup(&self, tag: &str) -> (name: Option<&String>)
        ensures
            match name {
                Some(name) => lookup_spec(self@, tag@) == Some(name@),
                None => lookup_spec(self@, tag@) is None,
            },
    {
        match self.resolve(tag) {
            Some((number, name)) => {
                proof {
                    lemma_position_unique(self@.len(), tag@, number - 1);
                }
                Some(name)
            },
            None => None,
        }
    }
}

/// Every registered type is found under its own tag, written in decimal.
pub proof fn lemma_lookup_own_tag(names: Seq<Seq<char>>, position: int)
    requires
        0 <= position < names.len(),
    ensures
        lookup_spec(names, decimal_string(tag_at(position))) == Some(names[position]),
{
    lemma_position_unique(names.len(), decimal_string(tag_at(position)), position);
}

/// A tag string that is not written exactly as one of the registered tags
/// names no type.
pub proof fn lemma_unknown_tag(names: Seq<Seq<char>>, tag: Seq<char>)
    requires
        forall|position: int|
            0 <= position < names.len() ==> #[trigger] decimal_string(tag_at(position)) != tag,
    ensures
        lookup_spec(names, tag) is None,
{
}

/// A tag string with a leading zero names no type, whatever number it would
/// stand for: the unknown tag is never given to a type, and the comparison
/// is between strings.
pub proof fn lemma_leading_zero_unknown(names: Seq<Seq<char>>, tag: Seq<char>)
    requires
        tag.len() > 0,
        tag[0] == '0',
    ensures
        !is_registered(names.len(), tag),
        lookup_spec(names, tag) is None,
{
    assert forall|position: int| 0 <= position < names.len() implies #[trigger] decimal_string(
        tag_at(position),
    ) != tag by {
        crate::decimal::lemma_decimal_leading_digit(tag_at(position));
    }
}

/// The unknown tag names no type, in any registry.
pub proof fn lemma_unknown_tag_unassigned(names: Seq<Seq<char>>)
    ensures
        forall|position: int| 0 <= position < names.len() ==> tag_at(position) != UNKNOWN_TAG,
        lookup_spec(names, decimal_string(UNKNOWN_TAG as nat)) is None,
{
    lemma_leading_zero_unknown(names, decimal_string(UNKNOWN_TAG as nat));
}

/// Types declared after the others leave the tags of the others as they
/// were.
pub proof fn lemma_append_keeps_tags(names: Seq<Seq<char>>, more: Seq<Seq<char>>, tag: Seq<char>)
    requires
        lookup_spec(names, tag) is Some,
    ensures
        lookup_spec(names + more, tag) == lookup_spec(names, tag),
{
    let position = position_of(names.len(), tag);
    lemma_position_unique((names + more).len(), tag, position);
}

/// At most one position is named by a tag string.
pub proof fn lemma_position_unique(count: nat, tag: Seq<char>, position: int)
    requires
        denotes(count, tag, position),
    ensures
        is_registered(count, tag),
        position_of(count, tag) == position,
{
    let chosen = position_of(count, tag);
    crate::decimal::lemma_decimal_injective(tag_at(chosen), tag_at(position));
}

} // verus!
