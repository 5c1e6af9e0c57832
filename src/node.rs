use vstd::prelude::*;
use crate::scope::AccessScope;

verus! {

/// The kinds of element that the bindings tell apart.
#[derive(Clone, Copy, Debug, PartialEq, Eq, Structural)]
pub enum ElementKind {
    Generic,
    HTMLDivElement,
    HTMLScriptElement,
    HTMLHeadElement,
    HTMLImageElement,
}

/// One entry of an element's attribute mapping.
pub struct Attribute {
    pub name: String,
    pub value: String,
}

/// What an element node carries.
pub struct ElementData {
    pub tag_name: String,
    pub attrs: Vec<Attribute>,
    pub kind: ElementKind,
}

/// The kinds of node in the store; only elements are looked into here.
pub enum NodeKind {
    Element(ElementData),
    Text,
    Comment,
    Document,
}

/// One node of the store with the scope guarding it.
pub struct NodeRecord {
    pub kind: NodeKind,
    pub scope: AccessScope,
}

/// A non-owning reference to a node of a [`NodeStore`].
#[derive(Clone, Copy, Debug, PartialEq, Eq, Structural)]
pub struct NodeHandle {
    pub index: usize,
}

/// An arena of nodes shared between script and layout.
pub struct NodeStore {
    pub nodes: Vec<NodeRecord>,
}

/// The value bound to `name` in an attribute list; a later entry hides an earlier one.
pub open spec fn attr_lookup(attrs: Seq<Attribute>, name: Seq<char>) -> Option<Seq<char>>
    decreases attrs.len(),
{
    if attrs.len() == 0 {
        None
    } else if attrs.last().name@ == name {
        Some(attrs.last().value@)
    } else {
        attr_lookup(attrs.drop_last(), name)
    }
}

proof fn lemma_lookup_absent(attrs: Seq<Attribute>, name: Seq<char>)
    requires
        forall|j: int| 0 <= j < attrs.len() ==> attrs[j].name@ != name,
    ensures
        attr_lookup(attrs, name) is None,
    decreases attrs.len(),
{
    if attrs.len() > 0 {
        lemma_lookup_absent(attrs.drop_last(), name);
    }
}

proof fn lemma_lookup_update(attrs: Seq<Attribute>, i: int, a: Attribute, k: Seq<char>)
    requires
        0 <= i < attrs.len(),
        attrs[i].name@ == a.name@,
        forall|j: int| i < j < attrs.len() ==> attrs[j].name@ != a.name@,
    ensures
        attr_lookup(attrs.update(i, a), k) == if k == a.name@ {
            Some(a.value@)
        } else {
            attr_lookup(attrs, k)
        },
    decreases attrs.len(),
{
    let u = attrs.update(i, a);
    if i == attrs.len() - 1 {
        assert(u.drop_last() =~= attrs.drop_last());
    } else {
        assert(u.drop_last() =~= attrs.drop_last().update(i, a));
        lemma_lookup_update(attrs.drop_last(), i, a, k);
    }
}

/// Binds `name` to `value` in an attribute list, replacing the visible binding if any.
pub fn set_attr(attrs: &mut Vec<Attribute>, name: String, value: String)
    ensures
        forall|k: Seq<char>| #[trigger] attr_lookup(final(attrs)@, k) == if k == name@ {
            Some(value@)
        } else {
            attr_lookup(old(attrs)@, k)
        },
{
    let len = attrs.len();
    let mut i: usize = len;
    while i > 0
        invariant
            i <= len,
            len == attrs@.len(),
            attrs@ == old(attrs)@,
            forall|j: int| i <= j < len ==> attrs@[j].name@ != name@,
        decreases i,
    {
        if attrs[i - 1].name == name {
            let a = Attribute { name, value };
            proof {
                assert forall|k: Seq<char>| #[trigger] attr_lookup(attrs@.update(i - 1, a), k) == if k == a.name@ {
                    Some(a.value@)
                } else {
                    attr_lookup(attrs@, k)
                } by {
                    lemma_lookup_update(attrs@, i - 1, a, k);
                }
            }
            attrs.set(i - 1, a);
            return;
        }
        i = i - 1;
    }
    let ghost before = attrs@;
    proof {
        lemma_lookup_absent(before, name@);
    }
    attrs.push(Attribute { name, value });
    assert(attrs@.drop_last() =~= before);
}

impl NodeStore {
    pub open spec fn valid(&self, h: NodeHandle) -> bool {
        h.index < self.nodes@.len()
    }

    /// Every node's scope keeps its discipline.
    pub open spec fn wf(&self) -> bool {
        forall|i: int| 0 <= i < self.nodes@.len() ==> (#[trigger] self.nodes@[i]).scope.wf()
    }

    pub open spec fn node(&self, h: NodeHandle) -> NodeRecord {
        self.nodes@[h.index as int]
    }

    pub open spec fn is_element(&self, h: NodeHandle) -> bool {
        self.node(h).kind is Element
    }

    /// Whether every node's scope keeps its discipline.
    pub fn check_wf(&self) -> (r: bool)
        ensures
            r == self.wf(),
    {
        let mut i: usize = 0;
        while i < self.nodes.len()
            invariant
                i <= self.nodes@.len(),
                forall|j: int| 0 <= j < i ==> (#[trigger] self.nodes@[j]).scope.wf(),
            decreases self.nodes@.len() - i,
        {
            let sc = self.nodes[i].scope;
            if sc.writer && sc.readers != 0 {
                assert(!self.nodes@[i as int].scope.wf());
                return false;
            }
            i = i + 1;
        }
        true
    }

    /// An empty store.
    pub fn new() -> (r: NodeStore)
        ensures
            r.wf(),
            r.nodes@.len() == 0,
    {
        NodeStore { nodes: Vec::new() }
    }

    /// Adds a node that nobody holds and returns its handle.
    pub fn add(&mut self, kind: NodeKind) -> (h: NodeHandle)
        requires
            old(self).wf(),
            old(self).nodes@.len() < usize::MAX,
        ensures
            final(self).wf(),
            h.index == old(self).nodes@.len(),
            final(self).nodes@ == old(self).nodes@.push(NodeRecord { kind, scope: AccessScope { readers: 0, writer: false } }),
    {
        let h = NodeHandle { index: self.nodes.len() };
        self.nodes.push(NodeRecord { kind, scope: AccessScope::new() });
        h
    }

    /// Adds an element node with no attributes.
    pub fn add_element(&mut self, tag_name: String, kind: ElementKind) -> (h: NodeHandle)
        requires
            old(self).wf(),
            old(self).nodes@.len() < usize::MAX,
        ensures
            final(self).wf(),
            h.index == old(self).nodes@.len(),
            final(self).nodes@.len() == old(self).nodes@.len() + 1,
            forall|i: int| 0 <= i < old(self).nodes@.len() ==> final(self).nodes@[i] == old(self).nodes@[i],
            final(self).is_element(h),
            final(self).node(h).kind->Element_0.tag_name@ == tag_name@,
            final(self).node(h).kind->Element_0.kind == kind,
            final(self).node(h).kind->Element_0.attrs@.len() == 0,
            final(self).node(h).scope == (AccessScope { readers: 0, writer: false }),
    {
        self.add(NodeKind::Element(ElementData { tag_name, attrs: Vec::new(), kind }))
    }

    /// The value bound to `name` on an element node; `None` for other nodes.
    pub fn get_attr(&self, h: NodeHandle, name: &String) -> (r: Option<String>)
        requires
            self.valid(h),
        ensures
            match self.node(h).kind {
                NodeKind::Element(ed) => match (r, attr_lookup(ed.attrs@, name@)) {
                    (Some(s), Some(v)) => s@ == v,
                    (None, None) => true,
                    _ => false,
                },
                _ => r is None,
            },
    {
        match &self.nodes[h.index].kind {
            NodeKind::Element(ed) => {
                let mut i: usize = ed.attrs.len();
                assert(self.node(h).kind == NodeKind::Element(*ed));
                assert(ed.attrs@.subrange(0, i as int) =~= ed.attrs@);
                while i > 0
                    invariant
                        i <= ed.attrs@.len(),
                        attr_lookup(ed.attrs@, name@) == attr_lookup(ed.attrs@.subrange(0, i as int), name@),
                        self.node(h).kind == NodeKind::Element(*ed),
                    decreases i,
                {
                    let ghost pre = ed.attrs@.subrange(0, i as int);
                    assert(pre.drop_last() =~= ed.attrs@.subrange(0, i - 1));
                    if ed.attrs[i - 1].name == *name {
                        assert(pre.last() == ed.attrs@[i - 1]);
                        let v = ed.attrs[i - 1].value.clone();
                        assert(attr_lookup(pre, name@) == Some(v@));
                        return Some(v);
                    }
                    i = i - 1;
                }
                None
            },
            _ => None,
        }
    }

    /// The store is as before except that node `h` now has scope `sc`.
    pub open spec fn rescoped(&self, prev: &NodeStore, h: NodeHandle, sc: AccessScope) -> bool {
        &&& self.nodes@.len() == prev.nodes@.len()
        &&& forall|i: int| 0 <= i < prev.nodes@.len() && i != h.index ==> self.nodes@[i] == prev.nodes@[i]
        &&& self.node(h).kind == prev.node(h).kind
        &&& self.node(h).scope == sc
    }

    /// Enters node `h`'s scope as a reader if no writer holds it.
    pub fn try_read(&mut self, h: NodeHandle) -> (r: bool)
        requires
            old(self).wf(),
            old(self).valid(h),
        ensures
            final(self).wf(),
            r == old(self).node(h).scope.can_read(),
            r ==> final(self).rescoped(old(self), h,
                AccessScope { readers: (old(self).node(h).scope.readers + 1) as u32, ..old(self).node(h).scope }),
            !r ==> final(self).nodes@ == old(self).nodes@,
    {
        let ghost before = self.nodes@;
        let r = self.nodes[h.index].scope.try_read();
        proof {
            if !r {
                assert(self.nodes@ =~= before);
            }
        }
        r
    }

    /// Leaves node `h`'s scope as a reader.
    pub fn release_read(&mut self, h: NodeHandle)
        requires
            old(self).wf(),
            old(self).valid(h),
            old(self).node(h).scope.readers > 0,
        ensures
            final(self).wf(),
            final(self).rescoped(old(self), h,
                AccessScope { readers: (old(self).node(h).scope.readers - 1) as u32, ..old(self).node(h).scope }),
    {
        self.nodes[h.index].scope.release_read();
    }

    /// Enters node `h`'s scope as the writer if nobody holds it.
    pub fn try_write(&mut self, h: NodeHandle) -> (r: bool)
        requires
            old(self).wf(),
            old(self).valid(h),
        ensures
            final(self).wf(),
            r == old(self).node(h).scope.can_write(),
            r ==> final(self).rescoped(old(self), h, AccessScope { writer: true, ..old(self).node(h).scope }),
            !r ==> final(self).nodes@ == old(self).nodes@,
    {
        let ghost before = self.nodes@;
        let r = self.nodes[h.index].scope.try_write();
        proof {
            if !r {
                assert(self.nodes@ =~= before);
            }
        }
        r
    }

    /// Leaves node `h`'s scope as the writer.
    pub fn release_write(&mut self, h: NodeHandle)
        requires
            old(self).wf(),
            old(self).valid(h),
            old(self).node(h).scope.writer,
        ensures
            final(self).wf(),
            final(self).rescoped(old(self), h, AccessScope { writer: false, ..old(self).node(h).scope }),
    {
        self.nodes[h.index].scope.release_write();
    }
}

} // verus!
