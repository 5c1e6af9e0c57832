use vstd::prelude::*;
use crate::node::{attr_lookup, set_attr, ElementKind, NodeHandle, NodeKind, NodeStore};
use crate::registry::{FinalizeHook, NativeAccessor, PropFlags, Registry, RegistryError};
use crate::realm::{AccessError, Bundle, CreateError, Realm, Rect, ScriptObject, ScriptValue};
use crate::text::{decimal_of, int_to_decimal};

verus! {

/// Largest integer the engine holds as a tagged value (31-bit signed).
pub const ENGINE_INT_MAX: i32 = 1073741823;

/// Smallest integer the engine holds as a tagged value (31-bit signed).
pub const ENGINE_INT_MIN: i32 = -1073741824;

/// `w` saturated into the engine's integer range.
pub open spec fn engine_int(w: int) -> int {
    if w > ENGINE_INT_MAX as int {
        ENGINE_INT_MAX as int
    } else if w < ENGINE_INT_MIN as int {
        ENGINE_INT_MIN as int
    } else {
        w
    }
}

/// The width script sees for a layout reply: the box's width, or 0 when nothing is rendered.
pub open spec fn width_of(reply: Option<Rect>) -> int {
    match reply {
        Some(rect) => engine_int(rect.width as int),
        None => 0,
    }
}

/// The interface an element of this kind is instantiated under.
pub open spec fn interface_for(kind: ElementKind) -> Seq<char> {
    match kind {
        ElementKind::HTMLDivElement => "HTMLDivElement"@,
        ElementKind::HTMLHeadElement => "HTMLHeadElement"@,
        ElementKind::HTMLImageElement => "HTMLImageElement"@,
        ElementKind::HTMLScriptElement => "HTMLScriptElement"@,
        ElementKind::Generic => "HTMLElement"@,
    }
}

/// The name of the instance class that element objects are created under.
pub open spec fn instance_class_name() -> Seq<char> {
    "GenericElementInstance"@
}

/// Saturates a layout width into the engine's integer range.
pub fn clamp_to_engine_int(w: i32) -> (r: i32)
    ensures
        r as int == engine_int(w as int),
{
    if w > ENGINE_INT_MAX {
        ENGINE_INT_MAX
    } else if w < ENGINE_INT_MIN {
        ENGINE_INT_MIN
    } else {
        w
    }
}

/// The name of the interface an element of this kind is instantiated under.
pub fn interface_name(kind: ElementKind) -> (r: String)
    ensures
        r@ == interface_for(kind),
{
    match kind {
        ElementKind::HTMLDivElement => String::from_str("HTMLDivElement"),
        ElementKind::HTMLHeadElement => String::from_str("HTMLHeadElement"),
        ElementKind::HTMLImageElement => String::from_str("HTMLImageElement"),
        ElementKind::HTMLScriptElement => String::from_str("HTMLScriptElement"),
        ElementKind::Generic => String::from_str("HTMLElement"),
    }
}

/// What the `tagName` getter returns for `recv`, read against `store`.
pub open spec fn tag_name_result(
    realm: &Realm,
    store: &NodeStore,
    recv: Option<usize>,
    r: Result<ScriptValue, AccessError>,
) -> bool {
    match realm.bound(recv) {
        None => r == Err::<ScriptValue, AccessError>(AccessError::NoReceiver),
        Some(h) => if !store.node(h).scope.can_read() {
            r == Err::<ScriptValue, AccessError>(AccessError::Contended)
        } else {
            match store.node(h).kind {
                NodeKind::Element(ed) => r is Ok && r->Ok_0 is Str && r->Ok_0->Str_0@ == ed.tag_name@,
                _ => r == Ok::<ScriptValue, AccessError>(ScriptValue::Null),
            }
        },
    }
}

/// The `tagName` getter: the element's tag name, or null for a node that is no element.
///
/// Reads under the node's scope in read mode and leaves the store as it found it.
pub fn get_tag_name(realm: &Realm, store: &mut NodeStore, recv: Option<usize>) -> (r: Result<ScriptValue, AccessError>)
    requires
        old(store).wf(),
        realm.bundles_in(old(store)),
    ensures
        final(store).nodes@ == old(store).nodes@,
        tag_name_result(realm, old(store), recv, r),
{
    let h = match realm.bound_node(recv) {
        None => return Err(AccessError::NoReceiver),
        Some(h) => h,
    };
    proof {
        let o = recv->Some_0 as int;
        assert(realm.objects@[o].slot is Some);
    }
    if !store.try_read(h) {
        return Err(AccessError::Contended);
    }
    let v = match &store.nodes[h.index].kind {
        NodeKind::Element(ed) => ScriptValue::Str(ed.tag_name.clone()),
        _ => ScriptValue::Null,
    };
    store.release_read(h);
    assert(store.nodes@ =~= old(store).nodes@);
    Ok(v)
}

/// The node is an image element.
pub open spec fn is_image(store: &NodeStore, h: NodeHandle) -> bool {
    store.node(h).kind is Element && store.node(h).kind->Element_0.kind == ElementKind::HTMLImageElement
}

/// What the `width` getter returns for `recv`, given layout's reply for the bound node.
pub open spec fn width_result(
    realm: &Realm,
    store: &NodeStore,
    recv: Option<usize>,
    reply: Option<Rect>,
    r: Result<i32, AccessError>,
) -> bool {
    match realm.bound(recv) {
        None => r == Err::<i32, AccessError>(AccessError::NoReceiver),
        Some(h) => if !store.node(h).scope.can_read() {
            r == Err::<i32, AccessError>(AccessError::Contended)
        } else if !is_image(store, h) {
            r == Err::<i32, AccessError>(AccessError::WrongKind)
        } else {
            r is Ok && r->Ok_0 as int == width_of(reply)
        },
    }
}

/// The `width` getter of an image element: the rendered content box's width.
///
/// `reply` is layout's answer to a content-box query for the bound node, `None` when
/// the node has no box. Reads under the node's scope in read mode and leaves the
/// store as it found it.
pub fn image_get_width(realm: &Realm, store: &mut NodeStore, recv: Option<usize>, reply: Option<Rect>) -> (r: Result<i32, AccessError>)
    requires
        old(store).wf(),
        realm.bundles_in(old(store)),
    ensures
        final(store).nodes@ == old(store).nodes@,
        width_result(realm, old(store), recv, reply, r),
{
    let h = match realm.bound_node(recv) {
        None => return Err(AccessError::NoReceiver),
        Some(h) => h,
    };
    proof {
        let o = recv->Some_0 as int;
        assert(realm.objects@[o].slot is Some);
    }
    if !store.try_read(h) {
        return Err(AccessError::Contended);
    }
    let image = match &store.nodes[h.index].kind {
        NodeKind::Element(ed) => ed.kind == ElementKind::HTMLImageElement,
        _ => false,
    };
    store.release_read(h);
    assert(store.nodes@ =~= old(store).nodes@);
    if !image {
        return Err(AccessError::WrongKind);
    }
    let width = match reply {
        Some(rect) => clamp_to_engine_int(rect.width),
        None => 0,
    };
    Ok(width)
}

/// The store after the `width` setter wrote `v` on image node `h`: only that node's
/// `"width"` attribute changed, and it now reads as the decimal form of `v`.
pub open spec fn width_written(prev: &NodeStore, next: &NodeStore, h: NodeHandle, v: i32) -> bool {
    &&& next.nodes@.len() == prev.nodes@.len()
    &&& forall|i: int| 0 <= i < prev.nodes@.len() && i != h.index ==> next.nodes@[i] == prev.nodes@[i]
    &&& next.node(h).scope == prev.node(h).scope
    &&& next.node(h).kind is Element
    &&& next.node(h).kind->Element_0.tag_name == prev.node(h).kind->Element_0.tag_name
    &&& next.node(h).kind->Element_0.kind == prev.node(h).kind->Element_0.kind
    &&& forall|k: Seq<char>| #[trigger] attr_lookup(next.node(h).kind->Element_0.attrs@, k) == if k == "width"@ {
        Some(decimal_of(v as int))
    } else {
        attr_lookup(prev.node(h).kind->Element_0.attrs@, k)
    }
}

/// What the `width` setter did for `recv` and `v`, from store `prev` to store `next`.
pub open spec fn set_width_result(
    realm: &Realm,
    prev: &NodeStore,
    next: &NodeStore,
    recv: Option<usize>,
    v: i32,
    r: Result<(), AccessError>,
) -> bool {
    &&& r is Err ==> next.nodes@ == prev.nodes@
    &&& match realm.bound(recv) {
        None => r == Err::<(), AccessError>(AccessError::NoReceiver),
        Some(h) => if !prev.node(h).scope.can_write() {
            r == Err::<(), AccessError>(AccessError::Contended)
        } else if !is_image(prev, h) {
            r == Err::<(), AccessError>(AccessError::WrongKind)
        } else {
            r is Ok && width_written(prev, next, h, v)
        },
    }
}

/// The `width` setter of an image element: stores the decimal form of `v` as the
/// node's `"width"` attribute, under the node's scope in write mode.
pub fn image_set_width(realm: &Realm, store: &mut NodeStore, recv: Option<usize>, v: i32) -> (r: Result<(), AccessError>)
    requires
        old(store).wf(),
        realm.bundles_in(old(store)),
    ensures
        final(store).wf(),
        set_width_result(realm, old(store), final(store), recv, v, r),
{
    let h = match realm.bound_node(recv) {
        None => return Err(AccessError::NoReceiver),
        Some(h) => h,
    };
    proof {
        let o = recv->Some_0 as int;
        assert(realm.objects@[o].slot is Some);
    }
    if !store.try_write(h) {
        return Err(AccessError::Contended);
    }
    let ghost held = store.nodes@;
    let value = int_to_decimal(v);
    let name = String::from_str("width");
    let wrote = match &mut store.nodes[h.index].kind {
        NodeKind::Element(ed) => if ed.kind == ElementKind::HTMLImageElement {
            set_attr(&mut ed.attrs, name, value);
            true
        } else {
            false
        },
        _ => false,
    };
    proof {
        if !wrote {
            assert(store.nodes@ =~= held);
        }
    }
    store.release_write(h);
    if !wrote {
        assert(store.nodes@ =~= old(store).nodes@);
        return Err(AccessError::WrongKind);
    }
    Ok(())
}

/// What `create` did for node `h`, from realm `prev` to realm `next`.
pub open spec fn create_result(
    prev: &Realm,
    next: &Realm,
    store: &NodeStore,
    h: NodeHandle,
    r: Result<usize, CreateError>,
) -> bool {
    let kind = store.node(h).kind->Element_0.kind;
    &&& next.registry == prev.registry
    &&& r is Err ==> next.objects@ == prev.objects@
    &&& if !store.node(h).scope.can_read() {
        r == Err::<usize, CreateError>(CreateError::Contended)
    } else if !prev.registry.has_class(instance_class_name()) || !prev.registry.has_interface(interface_for(kind)) {
        r == Err::<usize, CreateError>(CreateError::Instantiation)
    } else {
        &&& r is Ok
        &&& r->Ok_0 == prev.objects@.len()
        &&& next.objects@.len() == prev.objects@.len() + 1
        &&& forall|o: int| 0 <= o < prev.objects@.len() ==> next.objects@[o] == prev.objects@[o]
        &&& next.objects@.last().slot is Some
        &&& next.objects@.last().slot->Some_0.handle() == h
        &&& next.objects@.last().class < next.registry.classes@.len()
        &&& next.registry.classes@[next.objects@.last().class as int].name@ == instance_class_name()
        &&& next.objects@.last().proto < next.registry.interfaces@.len()
        &&& next.registry.interfaces@[next.objects@.last().proto as int].name@ == interface_for(kind)
    }
}

/// Wraps element node `h` in a new script object whose private slot owns the bundle
/// for `h`, under the interface that matches the element's kind.
pub fn create(realm: &mut Realm, store: &mut NodeStore, h: NodeHandle) -> (r: Result<usize, CreateError>)
    requires
        old(store).wf(),
        old(store).valid(h),
        old(store).is_element(h),
        old(realm).bundles_in(old(store)),
    ensures
        final(store).nodes@ == old(store).nodes@,
        final(realm).bundles_in(final(store)),
        create_result(old(realm), final(realm), old(store), h, r),
{
    if !store.try_read(h) {
        return Err(CreateError::Contended);
    }
    let kind = match &store.nodes[h.index].kind {
        NodeKind::Element(ed) => ed.kind,
        _ => ElementKind::Generic,
    };
    store.release_read(h);
    assert(store.nodes@ =~= old(store).nodes@);
    let class = match realm.registry.find_class(&String::from_str("GenericElementInstance")) {
        None => return Err(CreateError::Instantiation),
        Some(c) => c,
    };
    let proto = match realm.registry.find_interface(&interface_name(kind)) {
        None => return Err(CreateError::Instantiation),
        Some(p) => p,
    };
    let id = realm.objects.len();
    let ghost before = realm.objects@;
    realm.objects.push(ScriptObject { class, proto, slot: Some(Bundle::new(h)) });
    proof {
        assert forall|o: int| 0 <= o < realm.objects@.len() && (#[trigger] realm.objects@[o]).slot is Some
            implies store.valid(realm.objects@[o].slot->Some_0.handle()) by {
            if o < before.len() {
                assert(realm.objects@[o] == before[o]);
            }
        }
    }
    Ok(id)
}

/// What finalizing object `obj` did, from realm `prev` to realm `next`.
pub open spec fn finalize_result(prev: &Realm, next: &Realm, obj: usize, reclaimed: bool) -> bool {
    &&& next.registry == prev.registry
    &&& reclaimed == (obj < prev.objects@.len() && prev.objects@[obj as int].slot is Some)
    &&& next.objects@.len() == prev.objects@.len()
    &&& forall|o: int| 0 <= o < prev.objects@.len() && o != obj ==> next.objects@[o] == prev.objects@[o]
    &&& obj < prev.objects@.len() ==> {
        &&& next.objects@[obj as int].slot is None
        &&& next.objects@[obj as int].class == prev.objects@[obj as int].class
        &&& next.objects@[obj as int].proto == prev.objects@[obj as int].proto
    }
}

/// The collector's finalize hook: takes the bundle out of `obj`'s private slot and
/// releases it. Returns whether there was one to release.
pub fn finalize(realm: &mut Realm, obj: usize) -> (reclaimed: bool)
    ensures
        finalize_result(old(realm), final(realm), obj, reclaimed),
{
    if obj >= realm.objects.len() {
        return false;
    }
    let bundle = realm.objects[obj].slot.take();
    match bundle {
        Some(_owned) => true,
        None => false,
    }
}

/// The registry holds none of the element interfaces or the instance class yet,
/// and holds the `Node` interface they extend.
pub open spec fn ready_for_elements(reg: &Registry) -> bool {
    &&& reg.has_interface("Node"@)
    &&& !reg.has_interface("Element"@)
    &&& !reg.has_interface("HTMLElement"@)
    &&& !reg.has_interface("HTMLDivElement"@)
    &&& !reg.has_interface("HTMLScriptElement"@)
    &&& !reg.has_interface("HTMLHeadElement"@)
    &&& !reg.has_interface("HTMLImageElement"@)
    &&& !reg.has_class(instance_class_name())
}

/// The element interfaces, their accessors and the instance class are registered.
pub open spec fn elements_registered(reg: &Registry) -> bool {
    &&& reg.declares("Element"@, "Node"@)
    &&& reg.declares("HTMLElement"@, "Element"@)
    &&& reg.declares("HTMLDivElement"@, "HTMLElement"@)
    &&& reg.declares("HTMLScriptElement"@, "HTMLElement"@)
    &&& reg.declares("HTMLHeadElement"@, "HTMLElement"@)
    &&& reg.declares("HTMLImageElement"@, "HTMLElement"@)
    &&& reg.has_accessor("Element"@, "tagName"@, Some(NativeAccessor::TagNameGetter), None)
    &&& reg.has_accessor(
        "HTMLImageElement"@,
        "width"@,
        Some(NativeAccessor::ImageWidthGetter),
        Some(NativeAccessor::ImageWidthSetter),
    )
    &&& reg.has_class(instance_class_name())
}

/// Defines interface `name` under `parent`, then gives it the native property `prop`
/// when `prop` is given.
fn define_under(
    registry: &mut Registry,
    name: &str,
    parent: &str,
    prop: Option<&str>,
    getter: Option<NativeAccessor>,
    setter: Option<NativeAccessor>,
) -> (r: Result<(), RegistryError>)
    requires
        old(registry).wf(),
    ensures
        final(registry).wf(),
        final(registry).extends(old(registry)),
        final(registry).classes@ == old(registry).classes@,
        r is Ok <==> !old(registry).has_interface(name@) && old(registry).has_interface(parent@),
        r is Ok ==> final(registry).declares(name@, parent@),
        r is Ok ==> forall|n: Seq<char>|
            #[trigger] final(registry).has_interface(n) == (old(registry).has_interface(n) || n == name@),
        r is Ok && prop is Some ==> final(registry).has_accessor(name@, prop->Some_0@, getter, setter),
{
    let i = match registry.define_interface(String::from_str(name), Some(String::from_str(parent))) {
        Ok(i) => i,
        Err(e) => return Err(e),
    };
    assert(registry.declares(name@, parent@)) by {
        assert(registry.interfaces@[i as int].name@ == name@);
    }
    match prop {
        None => Ok(()),
        Some(p) => {
            let ghost mid = *registry;
            let flags = PropFlags { enumerable: true, shared: true, native_accessor: true };
            match registry.define_accessor(i, String::from_str(p), getter, setter, flags) {
                Ok(()) => {},
                Err(e) => return Err(e),
            }
            proof {
                registry.lemma_extends_keeps(&mid);
                let k = registry.interfaces@[i as int].properties@.len() - 1;
                assert(registry.interfaces@[i as int].name@ == name@);
                assert(registry.interfaces@[i as int].properties@[k].name@ == p@);
                assert(registry.has_accessor(name@, p@, getter, setter));
            }
            Ok(())
        },
    }
}

/// Registers `Element` under `Node` with its read-only `tagName`, the element
/// instance class, `HTMLElement` under `Element`, and the div, script, head and
/// image interfaces under `HTMLElement`, the image one with a read/write `width`.
#[verifier::rlimit(40)]
pub fn init(registry: &mut Registry) -> (r: Result<(), RegistryError>)
    requires
        old(registry).wf(),
    ensures
        final(registry).wf(),
        final(registry).extends(old(registry)),
        r is Ok <==> ready_for_elements(old(registry)),
        r is Ok ==> elements_registered(final(registry)),
{
    proof {
        reveal_strlit("Node");
        reveal_strlit("Element");
        reveal_strlit("HTMLElement");
        reveal_strlit("HTMLDivElement");
        reveal_strlit("HTMLScriptElement");
        reveal_strlit("HTMLHeadElement");
        reveal_strlit("HTMLImageElement");
        assert("Node"@.len() == 4);
        assert("Element"@.len() == 7);
        assert("HTMLElement"@.len() == 11);
        assert("HTMLDivElement"@.len() == 14);
        assert("HTMLHeadElement"@.len() == 15);
        assert("HTMLImageElement"@.len() == 16);
        assert("HTMLScriptElement"@.len() == 17);
    }
    let ghost r0 = *registry;
    match define_under(registry, "Element", "Node", Some("tagName"), Some(NativeAccessor::TagNameGetter), None) {
        Ok(()) => {},
        Err(e) => return Err(e),
    }
    let ghost r1 = *registry;
    match registry.register_instance_class(String::from_str("GenericElementInstance"), FinalizeHook::ReclaimBundle) {
        Ok(_) => {},
        Err(e) => return Err(e),
    }
    proof { registry.lemma_extends_keeps(&r1); }
    let ghost r2 = *registry;
    match define_under(registry, "HTMLElement", "Element", None, None, None) {
        Ok(()) => {},
        Err(e) => {
            proof {
                assert(r2.has_interface("Element"@));
                assert(r1.has_interface("HTMLElement"@) ==> r0.has_interface("HTMLElement"@));
            }
            return Err(e);
        },
    }
    proof { registry.lemma_extends_keeps(&r2); }
    let ghost r3 = *registry;
    match define_under(registry, "HTMLDivElement", "HTMLElement", None, None, None) {
        Ok(()) => {},
        Err(e) => {
            proof {
                assert(r3.has_interface("HTMLElement"@));
                assert(r3.has_interface("HTMLDivElement"@) ==> r2.has_interface("HTMLDivElement"@));
                assert(r2.has_interface("HTMLDivElement"@) ==> r1.has_interface("HTMLDivElement"@));
                assert(r1.has_interface("HTMLDivElement"@) ==> r0.has_interface("HTMLDivElement"@));
            }
            return Err(e);
        },
    }
    proof { registry.lemma_extends_keeps(&r3); }
    let ghost r4 = *registry;
    match define_under(registry, "HTMLScriptElement", "HTMLElement", None, None, None) {
        Ok(()) => {},
        Err(e) => {
            proof {
                assert(r4.has_interface("HTMLElement"@));
                assert(r4.has_interface("HTMLScriptElement"@) ==> r3.has_interface("HTMLScriptElement"@));
                assert(r3.has_interface("HTMLScriptElement"@) ==> r2.has_interface("HTMLScriptElement"@));
                assert(r2.has_interface("HTMLScriptElement"@) ==> r1.has_interface("HTMLScriptElement"@));
                assert(r1.has_interface("HTMLScriptElement"@) ==> r0.has_interface("HTMLScriptElement"@));
            }
            return Err(e);
        },
    }
    proof { registry.lemma_extends_keeps(&r4); }
    let ghost r5 = *registry;
    match define_under(registry, "HTMLHeadElement", "HTMLElement", None, None, None) {
        Ok(()) => {},
        Err(e) => {
            proof {
                assert(r5.has_interface("HTMLElement"@));
                assert(r5.has_interface("HTMLHeadElement"@) ==> r4.has_interface("HTMLHeadElement"@));
                assert(r4.has_interface("HTMLHeadElement"@) ==> r3.has_interface("HTMLHeadElement"@));
                assert(r3.has_interface("HTMLHeadElement"@) ==> r2.has_interface("HTMLHeadElement"@));
                assert(r2.has_interface("HTMLHeadElement"@) ==> r1.has_interface("HTMLHeadElement"@));
                assert(r1.has_interface("HTMLHeadElement"@) ==> r0.has_interface("HTMLHeadElement"@));
            }
            return Err(e);
        },
    }
    proof { registry.lemma_extends_keeps(&r5); }
    let ghost r6 = *registry;
    match define_under(
        registry,
        "HTMLImageElement",
        "HTMLElement",
        Some("width"),
        Some(NativeAccessor::ImageWidthGetter),
        Some(NativeAccessor::ImageWidthSetter),
    ) {
        Ok(()) => {},
        Err(e) => {
            proof {
                assert(r6.has_interface("HTMLElement"@));
                assert(r6.has_interface("HTMLImageElement"@) ==> r5.has_interface("HTMLImageElement"@));
                assert(r5.has_interface("HTMLImageElement"@) ==> r4.has_interface("HTMLImageElement"@));
                assert(r4.has_interface("HTMLImageElement"@) ==> r3.has_interface("HTMLImageElement"@));
                assert(r3.has_interface("HTMLImageElement"@) ==> r2.has_interface("HTMLImageElement"@));
                assert(r2.has_interface("HTMLImageElement"@) ==> r1.has_interface("HTMLImageElement"@));
                assert(r1.has_interface("HTMLImageElement"@) ==> r0.has_interface("HTMLImageElement"@));
            }
            return Err(e);
        },
    }
    proof { registry.lemma_extends_keeps(&r6); }
    Ok(())
}

/// Once the element interfaces are registered, wrapping an element node whose scope
/// admits a reader succeeds, and reading `tagName` on the new object gives back the
/// element's own tag name, whatever kind of element it is.
pub proof fn lemma_create_then_tag_name(
    r0: Realm,
    r1: Realm,
    s0: NodeStore,
    h: NodeHandle,
    created: Result<usize, CreateError>,
    read: Result<ScriptValue, AccessError>,
)
    requires
        r0.wf(),
        elements_registered(&r0.registry),
        s0.valid(h),
        s0.is_element(h),
        s0.node(h).scope.can_read(),
        create_result(&r0, &r1, &s0, h, created),
        tag_name_result(&r1, &s0, Some(created->Ok_0), read),
    ensures
        created is Ok,
        read is Ok,
        read->Ok_0 is Str,
        read->Ok_0->Str_0@ == s0.node(h).kind->Element_0.tag_name@,
{
    let reg = r0.registry;
    let kind = s0.node(h).kind->Element_0.kind;
    assert(reg.has_interface(interface_for(kind))) by {
        let parent = if kind == ElementKind::Generic { "Element"@ } else { "HTMLElement"@ };
        assert(reg.declares(interface_for(kind), parent));
        let i = choose|i: int|
            0 <= i < reg.interfaces@.len() && reg.interfaces@[i].name@ == interface_for(kind)
                && reg.interfaces@[i].parent is Some
                && reg.interfaces@[i].parent->Some_0 < reg.interfaces@.len()
                && reg.interfaces@[reg.interfaces@[i].parent->Some_0 as int].name@ == parent;
        assert(0 <= i < reg.interfaces@.len() && reg.interfaces@[i].name@ == interface_for(kind));
    }
    let id = created->Ok_0 as int;
    assert(r1.objects@[id] == r1.objects@.last());
}

/// The collector's hook releases the bundle of an object made by `create` exactly
/// once: the first finalization reclaims it, a second reclaims nothing, and once it
/// is gone every accessor on that object fails for want of a receiver and leaves
/// the store alone.
pub proof fn lemma_finalize_once(
    r0: Realm,
    r1: Realm,
    r2: Realm,
    r3: Realm,
    s0: NodeStore,
    h: NodeHandle,
    created: Result<usize, CreateError>,
    first: bool,
    second: bool,
    store: NodeStore,
    after_set: NodeStore,
    reply: Option<Rect>,
    v: i32,
    tag: Result<ScriptValue, AccessError>,
    width: Result<i32, AccessError>,
    set: Result<(), AccessError>,
)
    requires
        create_result(&r0, &r1, &s0, h, created),
        created is Ok,
        finalize_result(&r1, &r2, created->Ok_0, first),
        finalize_result(&r2, &r3, created->Ok_0, second),
        tag_name_result(&r2, &store, Some(created->Ok_0), tag),
        width_result(&r2, &store, Some(created->Ok_0), reply, width),
        set_width_result(&r2, &store, &after_set, Some(created->Ok_0), v, set),
    ensures
        first,
        !second,
        r2.bound(Some(created->Ok_0)) is None,
        tag == Err::<ScriptValue, AccessError>(AccessError::NoReceiver),
        width == Err::<i32, AccessError>(AccessError::NoReceiver),
        set == Err::<(), AccessError>(AccessError::NoReceiver),
        after_set.nodes@ == store.nodes@,
{
    let id = created->Ok_0 as int;
    assert(r1.objects@[id] == r1.objects@.last());
}

/// Writing `width` on an image element and then reading the node's `"width"`
/// attribute gives the decimal form of the value written, and layout plays no part.
pub proof fn lemma_set_width_round_trip(
    realm: Realm,
    prev: NodeStore,
    next: NodeStore,
    recv: Option<usize>,
    v: i32,
)
    requires
        set_width_result(&realm, &prev, &next, recv, v, Ok(())),
    ensures
        realm.bound(recv) is Some,
        is_image(&prev, realm.bound(recv)->Some_0),
        attr_lookup(next.node(realm.bound(recv)->Some_0).kind->Element_0.attrs@, "width"@)
            == Some(decimal_of(v as int)),
{
    let h = realm.bound(recv)->Some_0;
    assert(attr_lookup(next.node(h).kind->Element_0.attrs@, "width"@) == Some(decimal_of(v as int)));
}

/// Getters share a node: while no writer holds its scope, `tagName` and `width` are
/// never turned away, however many readers are inside. A setter is turned away
/// while anyone holds the scope, and then changes nothing.
pub proof fn lemma_getters_share_setters_exclude(
    realm: Realm,
    prev: NodeStore,
    next: NodeStore,
    recv: Option<usize>,
    reply: Option<Rect>,
    v: i32,
    tag: Result<ScriptValue, AccessError>,
    width: Result<i32, AccessError>,
    set: Result<(), AccessError>,
)
    requires
        realm.bound(recv) is Some,
        tag_name_result(&realm, &prev, recv, tag),
        width_result(&realm, &prev, recv, reply, width),
        set_width_result(&realm, &prev, &next, recv, v, set),
    ensures
        ({
            let sc = prev.node(realm.bound(recv)->Some_0).scope;
            &&& (!sc.writer && sc.readers < u32::MAX) ==> tag != Err::<ScriptValue, AccessError>(AccessError::Contended)
                && width != Err::<i32, AccessError>(AccessError::Contended)
            &&& (sc.writer || sc.readers > 0) ==> set == Err::<(), AccessError>(AccessError::Contended)
                && next.nodes@ == prev.nodes@
        }),
{
}

} // verus!
