use vstd::prelude::*;
use crate::node::{NodeHandle, NodeStore};
use crate::registry::Registry;

verus! {

/// The owned link from one script object to the node it wraps.
///
/// Only the binding layer makes one, and only finalization releases it.
pub struct Bundle {
    node: NodeHandle,
}

impl Bundle {
    pub closed spec fn handle(&self) -> NodeHandle {
        self.node
    }

    pub(crate) fn new(node: NodeHandle) -> (b: Bundle)
        ensures
            b.handle() == node,
    {
        Bundle { node }
    }

    /// The node this bundle wraps.
    pub fn node(&self) -> (r: NodeHandle)
        ensures
            r == self.handle(),
    {
        self.node
    }
}

/// An engine object of a DOM-bound class; its one private slot holds the bundle.
pub struct ScriptObject {
    pub class: usize,
    pub proto: usize,
    pub slot: Option<Bundle>,
}

/// A value handed back to script.
pub enum ScriptValue {
    Null,
    Str(String),
}

/// Why a native accessor call failed.
#[derive(Clone, Copy, Debug, PartialEq, Eq, Structural)]
pub enum AccessError {
    /// The receiver is absent or is not a live DOM-bound object.
    NoReceiver,
    /// The node is not of the kind the accessor is defined for.
    WrongKind,
    /// The node's scope is held in a mode that excludes this access.
    Contended,
}

/// Why wrapping a node failed.
#[derive(Clone, Copy, Debug, PartialEq, Eq, Structural)]
pub enum CreateError {
    /// A writer holds the node's scope.
    Contended,
    /// The instance class or the prototype interface is not registered.
    Instantiation,
}

/// A rendered rectangle in layout units.
#[derive(Clone, Copy, Debug, PartialEq, Eq, Structural)]
pub struct Rect {
    pub x: i32,
    pub y: i32,
    pub width: i32,
    pub height: i32,
}

/// One execution realm: its registry and the objects it has created.
pub struct Realm {
    pub registry: Registry,
    pub objects: Vec<ScriptObject>,
}

impl Realm {
    pub open spec fn wf(&self) -> bool {
        self.registry.wf()
    }

    /// The node bound to the receiver, if it is a live DOM-bound object.
    pub open spec fn bound(&self, recv: Option<usize>) -> Option<NodeHandle> {
        match recv {
            Some(o) => if o < self.objects@.len() && self.objects@[o as int].slot is Some {
                Some(self.objects@[o as int].slot->Some_0.handle())
            } else {
                None
            },
            None => None,
        }
    }

    /// Every live bundle names a node of `store`.
    pub open spec fn bundles_in(&self, store: &NodeStore) -> bool {
        forall|o: int| 0 <= o < self.objects@.len() && (#[trigger] self.objects@[o]).slot is Some
            ==> store.valid(self.objects@[o].slot->Some_0.handle())
    }

    /// A realm over `registry` with no objects.
    pub fn new(registry: Registry) -> (r: Realm)
        ensures
            r.registry == registry,
            r.objects@.len() == 0,
    {
        Realm { registry, objects: Vec::new() }
    }

    /// Whether every live bundle names a node of `store`.
    pub fn check_bundles_in(&self, store: &NodeStore) -> (r: bool)
        ensures
            r == self.bundles_in(store),
    {
        let mut o: usize = 0;
        while o < self.objects.len()
            invariant
                o <= self.objects@.len(),
                forall|j: int| 0 <= j < o && (#[trigger] self.objects@[j]).slot is Some
                    ==> store.valid(self.objects@[j].slot->Some_0.handle()),
            decreases self.objects@.len() - o,
        {
            match &self.objects[o].slot {
                Some(b) => if b.node().index >= store.nodes.len() {
                    return false;
                },
                None => {},
            }
            o = o + 1;
        }
        true
    }

    /// The node bound to the receiver, if it is a live DOM-bound object.
    pub fn bound_node(&self, recv: Option<usize>) -> (r: Option<NodeHandle>)
        ensures
            r == self.bound(recv),
    {
        match recv {
            Some(o) => if o < self.objects.len() {
                match &self.objects[o].slot {
                    Some(b) => Some(b.node()),
                    None => None,
                }
            } else {
                None
            },
            None => None,
        }
    }
}

} // verus!
