use vstd::prelude::*;

verus! {

/// The native accessors this layer installs on interfaces.
#[derive(Clone, Copy, Debug, PartialEq, Eq, Structural)]
pub enum NativeAccessor {
    TagNameGetter,
    ImageWidthGetter,
    ImageWidthSetter,
}

/// The hook an instance class runs when the collector finalizes one of its objects.
#[derive(Clone, Copy, Debug, PartialEq, Eq, Structural)]
pub enum FinalizeHook {
    ReclaimBundle,
}

/// Flags of a property descriptor.
#[derive(Clone, Copy, Debug, PartialEq, Eq, Structural)]
pub struct PropFlags {
    pub enumerable: bool,
    pub shared: bool,
    pub native_accessor: bool,
}

/// A native property on an interface.
pub struct PropertyDescriptor {
    pub name: String,
    pub flags: PropFlags,
    pub getter: Option<NativeAccessor>,
    pub setter: Option<NativeAccessor>,
}

/// A named interface with an optional parent (by index) and its properties.
pub struct InterfaceDescriptor {
    pub name: String,
    pub parent: Option<usize>,
    pub properties: Vec<PropertyDescriptor>,
}

/// A concrete class that objects are instantiated under.
pub struct InstanceClass {
    pub name: String,
    pub finalize: FinalizeHook,
}

#[derive(Clone, Copy, Debug, PartialEq, Eq, Structural)]
pub enum RegistryError {
    DuplicateInterface,
    UnknownParent,
    UnknownInterface,
    DuplicateClass,
}

/// The interfaces and instance classes of one realm.
pub struct Registry {
    pub interfaces: Vec<InterfaceDescriptor>,
    pub classes: Vec<InstanceClass>,
}

impl Registry {
    /// Names are distinct and every parent is defined before its child.
    pub open spec fn wf(&self) -> bool {
        &&& forall|i: int, j: int|
            0 <= i < j < self.interfaces@.len() ==> self.interfaces@[i].name@ != self.interfaces@[j].name@
        &&& forall|i: int|
            0 <= i < self.interfaces@.len() && (#[trigger] self.interfaces@[i]).parent is Some
                ==> self.interfaces@[i].parent->Some_0 < i
        &&& forall|i: int, j: int|
            0 <= i < j < self.classes@.len() ==> self.classes@[i].name@ != self.classes@[j].name@
    }

    pub open spec fn has_interface(&self, name: Seq<char>) -> bool {
        exists|i: int| 0 <= i < self.interfaces@.len() && self.interfaces@[i].name@ == name
    }

    pub open spec fn has_class(&self, name: Seq<char>) -> bool {
        exists|i: int| 0 <= i < self.classes@.len() && self.classes@[i].name@ == name
    }

    /// Interface `i` is named `name` and has a parent named `parent`.
    pub open spec fn declares(&self, name: Seq<char>, parent: Seq<char>) -> bool {
        exists|i: int|
            0 <= i < self.interfaces@.len() && self.interfaces@[i].name@ == name
                && self.interfaces@[i].parent is Some
                && self.interfaces@[self.interfaces@[i].parent->Some_0 as int].name@ == parent
    }

    /// The interface named `name` carries a property `prop` with these accessors.
    pub open spec fn has_accessor(
        &self,
        name: Seq<char>,
        prop: Seq<char>,
        getter: Option<NativeAccessor>,
        setter: Option<NativeAccessor>,
    ) -> bool {
        exists|i: int, k: int|
            0 <= i < self.interfaces@.len() && self.interfaces@[i].name@ == name
                && 0 <= k < self.interfaces@[i].properties@.len()
                && #[trigger] self.interfaces@[i].properties@[k].name@ == prop
                && self.interfaces@[i].properties@[k].getter == getter
                && self.interfaces@[i].properties@[k].setter == setter
    }

    /// The names from interface `i` up to the root of its chain.
    pub open spec fn chain(&self, i: int) -> Seq<Seq<char>>
        decreases i,
        when 0 <= i < self.interfaces@.len()
    {
        match self.interfaces@[i].parent {
            Some(p) => if 0 <= p < i {
                seq![self.interfaces@[i].name@] + self.chain(p as int)
            } else {
                seq![self.interfaces@[i].name@]
            },
            None => seq![self.interfaces@[i].name@],
        }
    }

    /// `self` holds everything `prev` held: the same interfaces with at least their
    /// properties, the same classes, and possibly more of each.
    pub open spec fn extends(&self, prev: &Registry) -> bool {
        &&& prev.interfaces@.len() <= self.interfaces@.len()
        &&& forall|j: int| 0 <= j < prev.interfaces@.len() ==> {
            &&& (#[trigger] self.interfaces@[j]).name == prev.interfaces@[j].name
            &&& self.interfaces@[j].parent == prev.interfaces@[j].parent
            &&& prev.interfaces@[j].properties@.len() <= self.interfaces@[j].properties@.len()
            &&& forall|k: int| 0 <= k < prev.interfaces@[j].properties@.len()
                ==> #[trigger] self.interfaces@[j].properties@[k] == prev.interfaces@[j].properties@[k]
        }
        &&& prev.classes@.len() <= self.classes@.len()
        &&& forall|j: int| 0 <= j < prev.classes@.len() ==> #[trigger] self.classes@[j] == prev.classes@[j]
    }

    /// What a registry holds stays in every registry that extends it.
    pub proof fn lemma_extends_keeps(&self, prev: &Registry)
        requires
            prev.wf(),
            self.extends(prev),
        ensures
            forall|n: Seq<char>| prev.has_interface(n) ==> #[trigger] self.has_interface(n),
            forall|n: Seq<char>| prev.has_class(n) ==> #[trigger] self.has_class(n),
            forall|n: Seq<char>, p: Seq<char>| prev.declares(n, p) ==> #[trigger] self.declares(n, p),
            forall|n: Seq<char>, p: Seq<char>, g: Option<NativeAccessor>, s: Option<NativeAccessor>|
                prev.has_accessor(n, p, g, s) ==> #[trigger] self.has_accessor(n, p, g, s),
    {
        assert forall|n: Seq<char>| prev.has_interface(n) implies #[trigger] self.has_interface(n) by {
            let i = choose|i: int| 0 <= i < prev.interfaces@.len() && prev.interfaces@[i].name@ == n;
            assert(self.interfaces@[i].name == prev.interfaces@[i].name);
            assert(self.interfaces@[i].name@ == n);
        }
        assert forall|n: Seq<char>| prev.has_class(n) implies #[trigger] self.has_class(n) by {
            let i = choose|i: int| 0 <= i < prev.classes@.len() && prev.classes@[i].name@ == n;
            assert(self.classes@[i] == prev.classes@[i]);
        }
        assert forall|n: Seq<char>, p: Seq<char>| prev.declares(n, p) implies #[trigger] self.declares(n, p) by {
            let i = choose|i: int|
                0 <= i < prev.interfaces@.len() && prev.interfaces@[i].name@ == n
                    && prev.interfaces@[i].parent is Some
                    && prev.interfaces@[prev.interfaces@[i].parent->Some_0 as int].name@ == p;
            let q = prev.interfaces@[i].parent->Some_0 as int;
            assert(self.interfaces@[i].name == prev.interfaces@[i].name);
            assert(q < i);
            assert(self.interfaces@[q].name == prev.interfaces@[q].name);
        }
        assert forall|n: Seq<char>, p: Seq<char>, g: Option<NativeAccessor>, s: Option<NativeAccessor>|
            prev.has_accessor(n, p, g, s) implies #[trigger] self.has_accessor(n, p, g, s) by {
            let (i, k) = choose|i: int, k: int|
                0 <= i < prev.interfaces@.len() && prev.interfaces@[i].name@ == n
                    && 0 <= k < prev.interfaces@[i].properties@.len()
                    && #[trigger] prev.interfaces@[i].properties@[k].name@ == p
                    && prev.interfaces@[i].properties@[k].getter == g
                    && prev.interfaces@[i].properties@[k].setter == s;
            assert(self.interfaces@[i].name == prev.interfaces@[i].name);
            assert(self.interfaces@[i].properties@[k] == prev.interfaces@[i].properties@[k]);
        }
    }

    /// A registry with nothing in it.
    pub fn new() -> (r: Registry)
        ensures
            r.wf(),
            r.interfaces@.len() == 0,
            r.classes@.len() == 0,
    {
        Registry { interfaces: Vec::new(), classes: Vec::new() }
    }

    /// The index of the interface named `name`, if any.
    pub fn find_interface(&self, name: &String) -> (r: Option<usize>)
        ensures
            match r {
                Some(i) => i < self.interfaces@.len() && self.interfaces@[i as int].name@ == name@,
                None => !self.has_interface(name@),
            },
    {
        let mut i: usize = 0;
        while i < self.interfaces.len()
            invariant
                i <= self.interfaces@.len(),
                forall|j: int| 0 <= j < i ==> self.interfaces@[j].name@ != name@,
            decreases self.interfaces@.len() - i,
        {
            if self.interfaces[i].name == *name {
                return Some(i);
            }
            i = i + 1;
        }
        None
    }

    /// The index of the instance class named `name`, if any.
    pub fn find_class(&self, name: &String) -> (r: Option<usize>)
        ensures
            match r {
                Some(i) => i < self.classes@.len() && self.classes@[i as int].name@ == name@,
                None => !self.has_class(name@),
            },
    {
        let mut i: usize = 0;
        while i < self.classes.len()
            invariant
                i <= self.classes@.len(),
                forall|j: int| 0 <= j < i ==> self.classes@[j].name@ != name@,
            decreases self.classes@.len() - i,
        {
            if self.classes[i].name == *name {
                return Some(i);
            }
            i = i + 1;
        }
        None
    }

    /// The names along the prototype chain of interface `i`, from `i` to its root.
    pub fn prototype_chain(&self, i: usize) -> (r: Vec<String>)
        requires
            self.wf(),
            i < self.interfaces@.len(),
        ensures
            r@.map_values(|s: String| s@) == self.chain(i as int),
    {
        let mut out: Vec<String> = Vec::new();
        let mut cur: usize = i;
        loop
            invariant
                self.wf(),
                cur < self.interfaces@.len(),
                out@.map_values(|s: String| s@) + self.chain(cur as int) == self.chain(i as int),
            decreases cur,
        {
            let ghost before = out@;
            out.push(self.interfaces[cur].name.clone());
            assert(out@.map_values(|s: String| s@) =~= before.map_values(|s: String| s@).push(self.interfaces@[cur as int].name@));
            match self.interfaces[cur].parent {
                Some(p) => {
                    assert(self.chain(cur as int) =~= seq![self.interfaces@[cur as int].name@] + self.chain(p as int));
                    assert(out@.map_values(|s: String| s@) + self.chain(p as int) =~= self.chain(i as int));
                    cur = p;
                },
                None => {
                    assert(out@.map_values(|s: String| s@) =~= self.chain(i as int));
                    return out;
                },
            }
        }
    }

    /// Defines an interface under `name`, extending `parent` when one is given.
    pub fn define_interface(&mut self, name: String, parent: Option<String>) -> (r: Result<usize, RegistryError>)
        requires
            old(self).wf(),
        ensures
            final(self).wf(),
            final(self).extends(old(self)),
            final(self).classes@ == old(self).classes@,
            r == Err::<usize, RegistryError>(RegistryError::DuplicateInterface) <==> old(self).has_interface(name@),
            r == Err::<usize, RegistryError>(RegistryError::UnknownParent) <==> !old(self).has_interface(name@)
                && parent is Some && !old(self).has_interface(parent->Some_0@),
            r is Err ==> final(self).interfaces@ == old(self).interfaces@,
            r is Ok <==> !old(self).has_interface(name@)
                && (parent is None || old(self).has_interface(parent->Some_0@)),
            r is Ok ==> forall|n: Seq<char>|
                #[trigger] final(self).has_interface(n) == (old(self).has_interface(n) || n == name@),
            r is Ok ==> {
                let i = r->Ok_0 as int;
                &&& i == old(self).interfaces@.len()
                &&& final(self).interfaces@.len() == i + 1
                &&& final(self).interfaces@.subrange(0, i) == old(self).interfaces@
                &&& final(self).interfaces@[i].name@ == name@
                &&& final(self).interfaces@[i].properties@.len() == 0
                &&& match parent {
                    None => final(self).interfaces@[i].parent is None,
                    Some(p) => final(self).interfaces@[i].parent is Some
                        && final(self).interfaces@[final(self).interfaces@[i].parent->Some_0 as int].name@ == p@,
                }
            },
    {
        if self.find_interface(&name).is_some() {
            return Err(RegistryError::DuplicateInterface);
        }
        let parent_index = match parent {
            None => None,
            Some(p) => match self.find_interface(&p) {
                None => return Err(RegistryError::UnknownParent),
                Some(pi) => Some(pi),
            },
        };
        let i = self.interfaces.len();
        let ghost before = self.interfaces@;
        let ghost nm = name@;
        self.interfaces.push(InterfaceDescriptor { name, parent: parent_index, properties: Vec::new() });
        assert(self.interfaces@.subrange(0, i as int) =~= before);
        assert forall|n: Seq<char>| #[trigger] self.has_interface(n) == (old(self).has_interface(n) || n == nm) by {
            if self.has_interface(n) {
                let a = choose|a: int| 0 <= a < self.interfaces@.len() && self.interfaces@[a].name@ == n;
                if a < i {
                    assert(old(self).interfaces@[a].name@ == n);
                }
            }
            if old(self).has_interface(n) {
                let a = choose|a: int| 0 <= a < old(self).interfaces@.len() && old(self).interfaces@[a].name@ == n;
                assert(self.interfaces@[a] == before[a]);
                assert(self.interfaces@[a].name@ == n);
            }
            if n == nm {
                assert(self.interfaces@[i as int].name@ == n);
            }
        }
        assert forall|a: int, b: int|
            0 <= a < b < self.interfaces@.len() implies self.interfaces@[a].name@ != self.interfaces@[b].name@ by {
            assert(self.interfaces@[a] == before[a]);
            if b < i {
                assert(self.interfaces@[b] == before[b]);
                assert(before[a].name@ != before[b].name@);
            } else {
                assert(old(self).interfaces@[a].name@ != nm);
            }
        }
        Ok(i)
    }

    /// Attaches a native property to interface `iface`.
    pub fn define_accessor(
        &mut self,
        iface: usize,
        prop: String,
        getter: Option<NativeAccessor>,
        setter: Option<NativeAccessor>,
        flags: PropFlags,
    ) -> (r: Result<(), RegistryError>)
        requires
            old(self).wf(),
        ensures
            final(self).wf(),
            final(self).extends(old(self)),
            final(self).classes@ == old(self).classes@,
            final(self).interfaces@.len() == old(self).interfaces@.len(),
            r is Err <==> iface >= old(self).interfaces@.len(),
            forall|n: Seq<char>| #[trigger] final(self).has_interface(n) == old(self).has_interface(n),
            r is Err ==> r == Err::<(), RegistryError>(RegistryError::UnknownInterface)
                && final(self).interfaces@ == old(self).interfaces@,
            r is Ok ==> {
                &&& forall|j: int| 0 <= j < old(self).interfaces@.len() && j != iface
                    ==> final(self).interfaces@[j] == old(self).interfaces@[j]
                &&& final(self).interfaces@[iface as int].name == old(self).interfaces@[iface as int].name
                &&& final(self).interfaces@[iface as int].parent == old(self).interfaces@[iface as int].parent
                &&& final(self).interfaces@[iface as int].properties@.len()
                    == old(self).interfaces@[iface as int].properties@.len() + 1
                &&& final(self).interfaces@[iface as int].properties@.drop_last()
                    == old(self).interfaces@[iface as int].properties@
                &&& final(self).interfaces@[iface as int].properties@.last().name@ == prop@
                &&& final(self).interfaces@[iface as int].properties@.last().getter == getter
                &&& final(self).interfaces@[iface as int].properties@.last().setter == setter
                &&& final(self).interfaces@[iface as int].properties@.last().flags == flags
            },
    {
        if iface >= self.interfaces.len() {
            return Err(RegistryError::UnknownInterface);
        }
        let ghost before = self.interfaces@;
        let ghost old_props = self.interfaces@[iface as int].properties@;
        let d = &mut self.interfaces[iface];
        d.properties.push(PropertyDescriptor { name: prop, flags, getter, setter });
        assert(self.interfaces@[iface as int].properties@.drop_last() =~= old_props);
        assert forall|j: int| 0 <= j < before.len() && j != iface implies self.interfaces@[j] == before[j] by {}
        assert(self.interfaces@[iface as int].name == before[iface as int].name);
        assert forall|n: Seq<char>| #[trigger] self.has_interface(n) == old(self).has_interface(n) by {
            if self.has_interface(n) {
                let a = choose|a: int| 0 <= a < self.interfaces@.len() && self.interfaces@[a].name@ == n;
                assert(self.interfaces@[a].name == before[a].name);
                assert(old(self).interfaces@[a].name@ == n);
            }
            if old(self).has_interface(n) {
                let a = choose|a: int| 0 <= a < old(self).interfaces@.len() && old(self).interfaces@[a].name@ == n;
                assert(self.interfaces@[a].name == before[a].name);
                assert(self.interfaces@[a].name@ == n);
            }
        }
        assert forall|i: int, j: int|
            0 <= i < j < self.interfaces@.len() implies self.interfaces@[i].name@ != self.interfaces@[j].name@ by {
            assert(self.interfaces@[i].name == before[i].name);
            assert(self.interfaces@[j].name == before[j].name);
            assert(before[i].name@ != before[j].name@);
        }
        assert forall|i: int|
            0 <= i < self.interfaces@.len() && (#[trigger] self.interfaces@[i]).parent is Some
                implies self.interfaces@[i].parent->Some_0 < i by {
            assert(self.interfaces@[i].parent == before[i].parent);
        }
        Ok(())
    }

    /// Registers the instance class `name` with the hook that finalizes its objects.
    pub fn register_instance_class(&mut self, name: String, hook: FinalizeHook) -> (r: Result<usize, RegistryError>)
        requires
            old(self).wf(),
        ensures
            final(self).wf(),
            final(self).extends(old(self)),
            final(self).interfaces@ == old(self).interfaces@,
            r is Err <==> old(self).has_class(name@),
            r is Err ==> r == Err::<usize, RegistryError>(RegistryError::DuplicateClass)
                && final(self).classes@ == old(self).classes@,
            r is Ok ==> forall|n: Seq<char>|
                #[trigger] final(self).has_class(n) == (old(self).has_class(n) || n == name@),
            r is Ok ==> {
                &&& r->Ok_0 == old(self).classes@.len()
                &&& final(self).classes@.drop_last() == old(self).classes@
                &&& final(self).classes@.last().name@ == name@
                &&& final(self).classes@.last().finalize == hook
            },
    {
        if self.find_class(&name).is_some() {
            return Err(RegistryError::DuplicateClass);
        }
        let i = self.classes.len();
        let ghost before = self.classes@;
        let ghost nm = name@;
        self.classes.push(InstanceClass { name, finalize: hook });
        assert(self.classes@.drop_last() =~= before);
        assert forall|n: Seq<char>| #[trigger] self.has_class(n) == (old(self).has_class(n) || n == nm) by {
            if self.has_class(n) {
                let a = choose|a: int| 0 <= a < self.classes@.len() && self.classes@[a].name@ == n;
                if a < i {
                    assert(self.classes@[a] == before[a]);
                }
            }
            if old(self).has_class(n) {
                let a = choose|a: int| 0 <= a < before.len() && before[a].name@ == n;
                assert(self.classes@[a] == before[a]);
            }
            if n == nm {
                assert(self.classes@[i as int].name@ == n);
            }
        }
        assert forall|a: int, b: int|
            0 <= a < b < self.classes@.len() implies self.classes@[a].name@ != self.classes@[b].name@ by {
            assert(self.classes@[a] == before[a]);
            if b < i {
                assert(self.classes@[b] == before[b]);
                assert(old(self).classes@[a].name@ != old(self).classes@[b].name@);
            } else {
                assert(old(self).classes@[a].name@ != nm);
            }
        }
        Ok(i)
    }
}

} // verus!
