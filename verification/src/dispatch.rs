//! Routing of a global identifier to the loader of its type.

use vstd::prelude::*;
use crate::canonical::is_canonical;
use crate::codec::{decode, decode_spec, encode_spec, lemma_round_trip};
use crate::decimal::decimal_string;
use crate::registry::{
    is_registered, lemma_position_unique, lookup_spec, position_of, tag_at, NodeRegistry,
};

verus! {

/// What a `Target` stands for.
pub struct TargetView {
    pub tag: nat,
    pub name: Seq<char>,
    pub local_id: Seq<char>,
}

/// What a `Node` stands for.
pub struct NodeView<V> {
    pub tag: nat,
    pub value: V,
}

/// Where a global identifier leads: the registered type to ask, and the
/// local identifier to ask it for.
pub struct Target {
    tag: u64,
    name: String,
    local_id: String,
}

/// An object of one of the registered types, marked with the tag of its
/// type.
pub struct Node<V> {
    tag: u64,
    value: V,
}

impl View for Target {
    type V = TargetView;

    closed spec fn view(&self) -> TargetView {
        TargetView { tag: self.tag as nat, name: self.name@, local_id: self.local_id@ }
    }
}

impl<V> View for Node<V> {
    type V = NodeView<V>;

    closed spec fn view(&self) -> NodeView<V> {
        NodeView { tag: self.tag as nat, value: self.value }
    }
}

/// Where `global` leads among the types `names`: nowhere if it is shorter
/// than 32 characters or if what follows the 32nd character is not written
/// exactly as a registered tag.
pub open spec fn route_spec(names: Seq<Seq<char>>, global: Seq<char>) -> Option<TargetView> {
    match decode_spec(global) {
        Some((local_id, tag)) if is_registered(names.len(), tag) => {
            let position = position_of(names.len(), tag);
            Some(TargetView { tag: tag_at(position), name: names[position], local_id })
        },
        _ => None,
    }
}

/// What is returned for an identifier that led to `target`, once the loader
/// of that type has answered `loaded`.
pub open spec fn wrap_spec<V>(target: TargetView, loaded: Option<V>) -> Option<NodeView<V>> {
    match loaded {
        Some(value) => Some(NodeView { tag: target.tag, value }),
        None => None,
    }
}

/// What fetching `global` among the types `names` gives, where the loader
/// of the type it leads to, if it leads anywhere, answers `loaded`.
pub open spec fn fetch_spec<V>(
    names: Seq<Seq<char>>,
    global: Seq<char>,
    loaded: Option<V>,
) -> Option<NodeView<V>> {
    match route_spec(names, global) {
        Some(target) => wrap_spec(target, loaded),
        None => None,
    }
}

/// `node` is the value that `view` describes, or both are absent.
pub open spec fn stands_for<V>(node: Option<Node<V>>, view: Option<NodeView<V>>) -> bool {
    match node {
        Some(node) => view == Some(node@),
        None => view is None,
    }
}

impl Target {
    /// The tag of the type to ask.
    pub fn tag(&self) -> (tag: u64)
        ensures
            tag == self@.tag,
    {
        self.tag
    }

    /// The name of the type to ask.
    pub fn name(&self) -> (name: &String)
        ensures
            name@ == self@.name,
    {
        &self.name
    }

    /// The local identifier to ask for, in canonical form.
    pub fn local_id(&self) -> (id: &String)
        ensures
            id@ == self@.local_id,
    {
        &self.local_id
    }
}

impl<V> Node<V> {
    /// The tag of the object's type.
    pub fn tag(&self) -> (tag: u64)
        ensures
            tag == self@.tag,
    {
        self.tag
    }

    /// The object.
    pub fn value(&self) -> (value: &V)
        ensures
            *value == self@.value,
    {
        &self.value
    }

    /// The object, by value.
    pub fn into_value(self) -> (value: V)
        ensures
            value == self@.value,
    {
        self.value
    }
}

/// Finds objects by their global identifier.
pub struct Dispatcher {
    registry: NodeRegistry,
}

impl View for Dispatcher {
    type V = Seq<Seq<char>>;

    /// The names of the types that can be reached, in the order of their
    /// tags.
    closed spec fn view(&self) -> Seq<Seq<char>> {
        self.registry@
    }
}

impl Dispatcher {
    /// A dispatcher over the types of `registry`.
    pub fn new(registry: NodeRegistry) -> (dispatcher: Dispatcher)
        ensures
            dispatcher@ == registry@,
    {
        Dispatcher { registry }
    }

    /// The registry that tags are resolved against.
    pub fn registry(&self) -> (registry: &NodeRegistry)
        ensures
            registry@ == self@,
    {
        &self.registry
    }

    /// The loader `loader`, asked for the object that `global` leads to, may
    /// answer `loaded`.
    pub open spec fn may_load<V, L: FnOnce(Target) -> Option<V>>(
        &self,
        global: Seq<char>,
        loader: L,
        loaded: Option<V>,
    ) -> bool {
        exists|target: Target|
            route_spec(self@, global) == Some(target@) && #[trigger] call_ensures(
                loader,
                (target,),
                loaded,
            )
    }

    /// Decides which type an identifier belongs to, and under which local
    /// identifier that type knows the object. Nothing is loaded.
    pub fn route(&self, global_id: &str) -> (target: Option<Target>)
        ensures
            match target {
                Some(target) => route_spec(self@, global_id@) == Some(target@),
                None => route_spec(self@, global_id@) is None,
            },
    {
        match decode(global_id) {
            None => None,
            Some((local_id, tag)) => {
                match self.registry.resolve(tag.as_str()) {
                    None => None,
                    Some((number, name)) => {
                        proof {
                            lemma_position_unique(self@.len(), tag@, number - 1);
                        }
                        Some(Target { tag: number, name: name.clone(), local_id })
                    },
                }
            },
        }
    }

    /// Marks what the loader of the target's type answered with the tag of
    /// that type; no answer stays no answer.
    pub fn wrap<V>(target: &Target, loaded: Option<V>) -> (node: Option<Node<V>>)
        ensures
            stands_for(node, wrap_spec(target@, loaded)),
    {
        match loaded {
            Some(value) => Some(Node { tag: target.tag, value }),
            None => None,
        }
    }

    /// Fetches the object that a global identifier names.
    ///
    /// The loader is asked only if the identifier leads to a registered
    /// type, and then once, for that type and the decoded local identifier.
    /// The answer is what the loader answered, marked with the tag of the
    /// type that was asked: there is an object in it only if the identifier
    /// decoded, its tag was known and the loader found the object.
    pub fn get<V, L: FnOnce(Target) -> Option<V>>(&self, global_id: &str, loader: L) -> (node:
        Option<Node<V>>)
        requires
            forall|target: Target|
                route_spec(self@, global_id@) == Some(target@) ==> call_requires(loader, (target,)),
        ensures
            route_spec(self@, global_id@) is None ==> node is None,
            exists|loaded: Option<V>|
                {
                    &&& route_spec(self@, global_id@) is Some ==> self.may_load(
                        global_id@,
                        loader,
                        loaded,
                    )
                    &&& stands_for(node, #[trigger] fetch_spec(self@, global_id@, loaded))
                },
    {
        match self.route(global_id) {
            None => {
                assert(stands_for(None::<Node<V>>, fetch_spec(self@, global_id@, None::<V>)));
                None
            },
            Some(target) => {
                let ghost asked = target;
                let tag = target.tag;
                let loaded = loader(target);
                let node = match loaded {
                    Some(value) => Some(Node { tag, value }),
                    None => None,
                };
                assert(stands_for(node, fetch_spec(self@, global_id@, loaded))
                    && self.may_load(global_id@, loader, loaded)) by {
                    assert(call_ensures(loader, (asked,), loaded));
                }
                node
            },
        }
    }
}

/// The identifier that `encode` gives an object of a registered type leads
/// back to that type and to the object's own identifier.
pub proof fn lemma_route_encoded(names: Seq<Seq<char>>, u: Seq<char>, position: int)
    requires
        is_canonical(u),
        0 <= position < names.len(),
    ensures
        route_spec(names, encode_spec(u, tag_at(position))) == Some(
            TargetView { tag: tag_at(position), name: names[position], local_id: u },
        ),
{
    lemma_round_trip(u, tag_at(position));
    lemma_position_unique(names.len(), decimal_string(tag_at(position)), position);
}

/// An identifier whose part after the 32nd character is not written exactly
/// as a registered tag leads nowhere.
pub proof fn lemma_unknown_tag_unrouted(names: Seq<Seq<char>>, global: Seq<char>)
    requires
        global.len() >= 32,
        forall|position: int|
            0 <= position < names.len() ==> #[trigger] decimal_string(tag_at(position))
                != global.subrange(32, global.len() as int),
    ensures
        lookup_spec(names, global.subrange(32, global.len() as int)) is None,
        route_spec(names, global) is None,
{
}

/// An identifier of fewer than 32 characters leads nowhere.
pub proof fn lemma_short_unrouted(names: Seq<Seq<char>>, global: Seq<char>)
    requires
        global.len() < 32,
    ensures
        route_spec(names, global) is None,
{
}

/// An identifier leads somewhere exactly if it decodes and its tag string
/// names a registered type; the target then holds what was decoded and what
/// was looked up.
pub proof fn lemma_route_composition(names: Seq<Seq<char>>, global: Seq<char>)
    ensures
        route_spec(names, global) is Some <==> (decode_spec(global) matches Some((_, tag))
            && lookup_spec(names, tag) is Some),
        route_spec(names, global) matches Some(target) ==> {
            &&& decode_spec(global) matches Some((local_id, tag))
            &&& target.local_id == local_id
            &&& lookup_spec(names, tag) == Some(target.name)
            &&& decimal_string(target.tag) == tag
            &&& 1 <= target.tag <= names.len()
        },
{
}

/// Types declared after the others leave every identifier that led
/// somewhere leading to the same place.
pub proof fn lemma_append_keeps_routes(
    names: Seq<Seq<char>>,
    more: Seq<Seq<char>>,
    global: Seq<char>,
)
    requires
        route_spec(names, global) is Some,
    ensures
        route_spec(names + more, global) == route_spec(names, global),
{
    let tag = global.subrange(32, global.len() as int);
    lemma_position_unique((names + more).len(), tag, position_of(names.len(), tag));
}

/// Fetching gives an object exactly if the identifier decodes, its tag
/// string names a registered type and the loader of that type finds the
/// object. The object is then the one that the loader found, under the tag
/// that was written in the identifier.
pub proof fn lemma_fetch_composition<V>(
    names: Seq<Seq<char>>,
    global: Seq<char>,
    loaded: Option<V>,
)
    ensures
        fetch_spec(names, global, loaded) is Some <==> {
            &&& decode_spec(global) matches Some((_, tag))
            &&& lookup_spec(names, tag) is Some
            &&& loaded is Some
        },
        fetch_spec(names, global, loaded) matches Some(node) ==> {
            &&& decode_spec(global) matches Some((_, tag))
            &&& decimal_string(node.tag) == tag
            &&& Some(node.value) == loaded
        },
{
}

} // verus!
