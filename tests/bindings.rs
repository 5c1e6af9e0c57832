use element_bindings::element::{
    clamp_to_engine_int, create, finalize, get_tag_name, image_get_width, image_set_width, init,
    interface_name, ENGINE_INT_MAX, ENGINE_INT_MIN,
};
use element_bindings::node::{set_attr, Attribute, ElementData, ElementKind, NodeHandle, NodeKind, NodeStore};
use element_bindings::realm::{AccessError, CreateError, Realm, Rect, ScriptValue};
use element_bindings::registry::{FinalizeHook, NativeAccessor, PropFlags, Registry, RegistryError};
use element_bindings::scope::AccessScope;
use element_bindings::text::int_to_decimal;

fn base_registry() -> Registry {
    let mut reg = Registry::new();
    reg.define_interface("Node".to_string(), None).unwrap();
    reg
}

fn ready_realm() -> Realm {
    let mut reg = base_registry();
    init(&mut reg).unwrap();
    Realm::new(reg)
}

fn str_of(v: &ScriptValue) -> String {
    match v {
        ScriptValue::Str(s) => s.clone(),
        _ => panic!("not a string"),
    }
}

fn width_attr(store: &NodeStore, h: NodeHandle) -> Option<String> {
    store.get_attr(h, &"width".to_string())
}

#[test]
fn create_then_tag_name_for_each_kind() {
    let cases = [
        ("div", ElementKind::HTMLDivElement, "HTMLDivElement"),
        ("script", ElementKind::HTMLScriptElement, "HTMLScriptElement"),
        ("head", ElementKind::HTMLHeadElement, "HTMLHeadElement"),
        ("img", ElementKind::HTMLImageElement, "HTMLImageElement"),
        ("span", ElementKind::Generic, "HTMLElement"),
    ];
    for (tag, kind, iface) in cases {
        let mut realm = ready_realm();
        let mut store = NodeStore::new();
        let h = store.add_element(tag.to_string(), kind);
        let id = create(&mut realm, &mut store, h).unwrap();
        let obj = &realm.objects[id];
        assert_eq!(realm.registry.interfaces[obj.proto].name, iface);
        assert_eq!(realm.registry.classes[obj.class].name, "GenericElementInstance");
        let v = get_tag_name(&realm, &mut store, Some(id)).unwrap();
        assert_eq!(str_of(&v), tag);
        assert!(store.nodes[h.index].scope.is_free());
    }
}

#[test]
fn finalize_reclaims_exactly_once() {
    let mut realm = ready_realm();
    let mut store = NodeStore::new();
    let h = store.add_element("img".to_string(), ElementKind::HTMLImageElement);
    let id = create(&mut realm, &mut store, h).unwrap();
    assert_eq!(realm.bound_node(Some(id)), Some(h));
    assert!(finalize(&mut realm, id));
    assert!(!finalize(&mut realm, id));
    assert_eq!(realm.bound_node(Some(id)), None);
    assert!(matches!(get_tag_name(&realm, &mut store, Some(id)), Err(AccessError::NoReceiver)));
    assert_eq!(image_get_width(&realm, &mut store, Some(id), None), Err(AccessError::NoReceiver));
    assert_eq!(image_set_width(&realm, &mut store, Some(id), 5), Err(AccessError::NoReceiver));
    assert_eq!(width_attr(&store, h), None);
    assert!(!finalize(&mut realm, 99));
}

#[test]
fn set_width_round_trip() {
    for v in [0, 7, 42, 640, -3, -100, 1073741823, -1073741824, i32::MAX, i32::MIN] {
        let mut realm = ready_realm();
        let mut store = NodeStore::new();
        let h = store.add_element("img".to_string(), ElementKind::HTMLImageElement);
        let id = create(&mut realm, &mut store, h).unwrap();
        assert_eq!(image_set_width(&realm, &mut store, Some(id), v), Ok(()));
        assert_eq!(width_attr(&store, h), Some(v.to_string()));
        assert!(store.nodes[h.index].scope.is_free());
    }
}

#[test]
fn set_width_replaces_earlier_value_and_keeps_others() {
    let mut realm = ready_realm();
    let mut store = NodeStore::new();
    let h = store.add_element("img".to_string(), ElementKind::HTMLImageElement);
    if let NodeKind::Element(ed) = &mut store.nodes[h.index].kind {
        set_attr(&mut ed.attrs, "alt".to_string(), "logo".to_string());
    }
    let id = create(&mut realm, &mut store, h).unwrap();
    image_set_width(&realm, &mut store, Some(id), 10).unwrap();
    image_set_width(&realm, &mut store, Some(id), 20).unwrap();
    assert_eq!(width_attr(&store, h), Some("20".to_string()));
    assert_eq!(store.get_attr(h, &"alt".to_string()), Some("logo".to_string()));
    if let NodeKind::Element(ed) = &store.nodes[h.index].kind {
        assert_eq!(ed.attrs.len(), 2);
    }
}

#[test]
fn get_width_from_layout_reply() {
    let mut realm = ready_realm();
    let mut store = NodeStore::new();
    let h = store.add_element("img".to_string(), ElementKind::HTMLImageElement);
    let id = create(&mut realm, &mut store, h).unwrap();
    assert_eq!(image_get_width(&realm, &mut store, Some(id), None), Ok(0));
    let rect = Rect { x: 3, y: 4, width: 120, height: 80 };
    assert_eq!(image_get_width(&realm, &mut store, Some(id), Some(rect)), Ok(120));
    let huge = Rect { x: 0, y: 0, width: i32::MAX, height: 1 };
    assert_eq!(image_get_width(&realm, &mut store, Some(id), Some(huge)), Ok(1073741823));
    let tiny = Rect { x: 0, y: 0, width: i32::MIN, height: 1 };
    assert_eq!(image_get_width(&realm, &mut store, Some(id), Some(tiny)), Ok(-1073741824));
    assert!(store.nodes[h.index].scope.is_free());
}

#[test]
fn setting_width_does_not_change_layout_width() {
    let mut realm = ready_realm();
    let mut store = NodeStore::new();
    let h = store.add_element("img".to_string(), ElementKind::HTMLImageElement);
    let id = create(&mut realm, &mut store, h).unwrap();
    image_set_width(&realm, &mut store, Some(id), 500).unwrap();
    assert_eq!(image_get_width(&realm, &mut store, Some(id), None), Ok(0));
}

#[test]
fn clamp_into_engine_range() {
    assert_eq!(clamp_to_engine_int(0), 0);
    assert_eq!(clamp_to_engine_int(-5), -5);
    assert_eq!(clamp_to_engine_int(ENGINE_INT_MAX), ENGINE_INT_MAX);
    assert_eq!(clamp_to_engine_int(ENGINE_INT_MAX + 1), ENGINE_INT_MAX);
    assert_eq!(clamp_to_engine_int(ENGINE_INT_MIN - 1), ENGINE_INT_MIN);
    assert_eq!(ENGINE_INT_MAX, (1 << 30) - 1);
    assert_eq!(ENGINE_INT_MIN, -(1 << 30));
}

#[test]
fn width_on_non_image_is_wrong_kind() {
    let mut realm = ready_realm();
    let mut store = NodeStore::new();
    let h = store.add_element("div".to_string(), ElementKind::HTMLDivElement);
    let id = create(&mut realm, &mut store, h).unwrap();
    assert_eq!(image_get_width(&realm, &mut store, Some(id), None), Err(AccessError::WrongKind));
    assert_eq!(image_set_width(&realm, &mut store, Some(id), 3), Err(AccessError::WrongKind));
    assert_eq!(width_attr(&store, h), None);
    assert!(store.nodes[h.index].scope.is_free());
}

#[test]
fn tag_name_on_non_element_is_null() {
    let mut realm = ready_realm();
    let mut store = NodeStore::new();
    let h = store.add_element("p".to_string(), ElementKind::Generic);
    let id = create(&mut realm, &mut store, h).unwrap();
    store.nodes[h.index].kind = NodeKind::Text;
    assert!(matches!(get_tag_name(&realm, &mut store, Some(id)), Ok(ScriptValue::Null)));
    assert_eq!(image_get_width(&realm, &mut store, Some(id), None), Err(AccessError::WrongKind));
}

#[test]
fn absent_receiver_fails_the_call() {
    let realm = ready_realm();
    let mut store = NodeStore::new();
    store.add_element("div".to_string(), ElementKind::HTMLDivElement);
    assert!(matches!(get_tag_name(&realm, &mut store, None), Err(AccessError::NoReceiver)));
    assert!(matches!(get_tag_name(&realm, &mut store, Some(0)), Err(AccessError::NoReceiver)));
    assert_eq!(image_get_width(&realm, &mut store, None, None), Err(AccessError::NoReceiver));
    assert_eq!(image_set_width(&realm, &mut store, None, 1), Err(AccessError::NoReceiver));
}

#[test]
fn readers_share_and_writer_excludes() {
    let mut realm = ready_realm();
    let mut store = NodeStore::new();
    let h = store.add_element("img".to_string(), ElementKind::HTMLImageElement);
    let id = create(&mut realm, &mut store, h).unwrap();

    assert!(store.try_read(h));
    assert!(store.try_read(h));
    assert_eq!(store.nodes[h.index].scope.readers, 2);
    let v = get_tag_name(&realm, &mut store, Some(id)).unwrap();
    assert_eq!(str_of(&v), "img");
    assert_eq!(image_get_width(&realm, &mut store, Some(id), None), Ok(0));
    assert_eq!(image_set_width(&realm, &mut store, Some(id), 9), Err(AccessError::Contended));
    assert!(!store.try_write(h));
    store.release_read(h);
    store.release_read(h);

    assert!(store.try_write(h));
    assert!(!store.try_read(h));
    assert!(matches!(get_tag_name(&realm, &mut store, Some(id)), Err(AccessError::Contended)));
    assert_eq!(image_get_width(&realm, &mut store, Some(id), None), Err(AccessError::Contended));
    assert_eq!(image_set_width(&realm, &mut store, Some(id), 9), Err(AccessError::Contended));
    assert_eq!(width_attr(&store, h), None);
    store.release_write(h);

    assert_eq!(image_set_width(&realm, &mut store, Some(id), 9), Ok(()));
    assert!(store.nodes[h.index].scope.is_free());
}

#[test]
fn scope_counts_readers() {
    let mut s = AccessScope::new();
    assert!(s.is_free());
    assert!(s.try_read());
    assert!(s.try_read());
    assert!(!s.try_write());
    s.release_read();
    s.release_read();
    assert!(s.try_write());
    assert!(!s.try_read());
    assert!(!s.try_write());
    s.release_write();
    assert!(s.is_free());
    let mut full = AccessScope { readers: u32::MAX, writer: false };
    assert!(!full.try_read());
}

#[test]
fn create_while_written_is_contended() {
    let mut realm = ready_realm();
    let mut store = NodeStore::new();
    let h = store.add_element("div".to_string(), ElementKind::HTMLDivElement);
    assert!(store.try_write(h));
    assert_eq!(create(&mut realm, &mut store, h), Err(CreateError::Contended));
    assert_eq!(realm.objects.len(), 0);
    store.release_write(h);
    assert_eq!(create(&mut realm, &mut store, h), Ok(0));
}

#[test]
fn create_without_registration_fails() {
    let mut realm = Realm::new(base_registry());
    let mut store = NodeStore::new();
    let h = store.add_element("div".to_string(), ElementKind::HTMLDivElement);
    assert_eq!(create(&mut realm, &mut store, h), Err(CreateError::Instantiation));
    assert_eq!(realm.objects.len(), 0);

    let mut reg = base_registry();
    reg.register_instance_class("GenericElementInstance".to_string(), FinalizeHook::ReclaimBundle).unwrap();
    let mut realm = Realm::new(reg);
    assert_eq!(create(&mut realm, &mut store, h), Err(CreateError::Instantiation));
}

#[test]
fn init_registers_the_element_interfaces() {
    let mut reg = base_registry();
    assert_eq!(init(&mut reg), Ok(()));
    let node = reg.find_interface(&"Node".to_string()).unwrap();
    let element = reg.find_interface(&"Element".to_string()).unwrap();
    let html = reg.find_interface(&"HTMLElement".to_string()).unwrap();
    assert_eq!(reg.interfaces[element].parent, Some(node));
    assert_eq!(reg.interfaces[html].parent, Some(element));
    for leaf in ["HTMLDivElement", "HTMLScriptElement", "HTMLHeadElement", "HTMLImageElement"] {
        let i = reg.find_interface(&leaf.to_string()).unwrap();
        assert_eq!(reg.interfaces[i].parent, Some(html));
    }
    let tag = &reg.interfaces[element].properties;
    assert_eq!(tag.len(), 1);
    assert_eq!(tag[0].name, "tagName");
    assert_eq!(tag[0].getter, Some(NativeAccessor::TagNameGetter));
    assert_eq!(tag[0].setter, None);
    let img = reg.find_interface(&"HTMLImageElement".to_string()).unwrap();
    let w = &reg.interfaces[img].properties;
    assert_eq!(w.len(), 1);
    assert_eq!(w[0].name, "width");
    assert_eq!(w[0].getter, Some(NativeAccessor::ImageWidthGetter));
    assert_eq!(w[0].setter, Some(NativeAccessor::ImageWidthSetter));
    assert_eq!(w[0].flags, PropFlags { enumerable: true, shared: true, native_accessor: true });
    assert!(reg.find_class(&"GenericElementInstance".to_string()).is_some());
    assert_eq!(reg.prototype_chain(img), vec!["HTMLImageElement", "HTMLElement", "Element", "Node"]);
}

#[test]
fn init_twice_fails() {
    let mut reg = base_registry();
    init(&mut reg).unwrap();
    assert_eq!(init(&mut reg), Err(RegistryError::DuplicateInterface));
}

#[test]
fn init_without_node_fails() {
    let mut reg = Registry::new();
    assert_eq!(init(&mut reg), Err(RegistryError::UnknownParent));
    assert_eq!(reg.interfaces.len(), 0);
}

#[test]
fn registry_errors() {
    let mut reg = Registry::new();
    assert_eq!(reg.define_interface("A".to_string(), None), Ok(0));
    assert_eq!(reg.define_interface("A".to_string(), None), Err(RegistryError::DuplicateInterface));
    assert_eq!(reg.define_interface("B".to_string(), Some("Z".to_string())), Err(RegistryError::UnknownParent));
    assert_eq!(reg.define_interface("B".to_string(), Some("A".to_string())), Ok(1));
    let flags = PropFlags { enumerable: false, shared: true, native_accessor: true };
    assert_eq!(reg.define_accessor(7, "p".to_string(), None, None, flags), Err(RegistryError::UnknownInterface));
    assert_eq!(reg.define_accessor(1, "p".to_string(), None, None, flags), Ok(()));
    assert_eq!(reg.register_instance_class("C".to_string(), FinalizeHook::ReclaimBundle), Ok(0));
    assert_eq!(
        reg.register_instance_class("C".to_string(), FinalizeHook::ReclaimBundle),
        Err(RegistryError::DuplicateClass)
    );
    assert_eq!(reg.find_interface(&"B".to_string()), Some(1));
    assert_eq!(reg.find_interface(&"Q".to_string()), None);
}

#[test]
fn decimal_text() {
    assert_eq!(int_to_decimal(0), "0");
    assert_eq!(int_to_decimal(9), "9");
    assert_eq!(int_to_decimal(10), "10");
    assert_eq!(int_to_decimal(-7), "-7");
    assert_eq!(int_to_decimal(2147483647), "2147483647");
    assert_eq!(int_to_decimal(-2147483648), "-2147483648");
}

#[test]
fn interface_names_by_kind() {
    assert_eq!(interface_name(ElementKind::HTMLDivElement), "HTMLDivElement");
    assert_eq!(interface_name(ElementKind::HTMLHeadElement), "HTMLHeadElement");
    assert_eq!(interface_name(ElementKind::HTMLImageElement), "HTMLImageElement");
    assert_eq!(interface_name(ElementKind::HTMLScriptElement), "HTMLScriptElement");
    assert_eq!(interface_name(ElementKind::Generic), "HTMLElement");
}

#[test]
fn attribute_lookup_sees_latest_binding() {
    let mut attrs: Vec<Attribute> = Vec::new();
    set_attr(&mut attrs, "a".to_string(), "1".to_string());
    set_attr(&mut attrs, "b".to_string(), "2".to_string());
    set_attr(&mut attrs, "a".to_string(), "3".to_string());
    assert_eq!(attrs.len(), 2);
    let mut store = NodeStore::new();
    let h = store.add(NodeKind::Element(ElementData {
        tag_name: "x".to_string(),
        attrs,
        kind: ElementKind::Generic,
    }));
    assert_eq!(store.get_attr(h, &"a".to_string()), Some("3".to_string()));
    assert_eq!(store.get_attr(h, &"b".to_string()), Some("2".to_string()));
    assert_eq!(store.get_attr(h, &"c".to_string()), None);
    let t = store.add(NodeKind::Comment);
    assert_eq!(store.get_attr(t, &"a".to_string()), None);
}
