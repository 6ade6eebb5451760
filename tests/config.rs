use js_component_bindgen_config::{
    Configuration, Element, ElementConfig, Function, FunctionKind, Interface, Package, TypeDef,
    TypeDefKind, TypeGraph, TypeOwner,
};

fn s(x: &str) -> String {
    x.to_string()
}

fn graph() -> TypeGraph {
    TypeGraph {
        types: vec![
            TypeDef { name: Some(s("widget")), kind: TypeDefKind::Resource, owner: TypeOwner::Interface(0) },
            TypeDef { name: Some(s("color")), kind: TypeDefKind::Enum, owner: TypeOwner::Interface(0) },
        ],
        interfaces: vec![Interface { name: Some(s("iface")), package: Some(0), functions: vec![] }],
        packages: vec![Package { namespace: s("ns"), name: s("pkg") }],
        worlds: vec![],
    }
}

fn all_arms() -> Vec<ElementConfig> {
    vec![
        ElementConfig::Unset,
        ElementConfig::Record { as_class: true },
        ElementConfig::Resource { as_iterator: true, use_guest_class: true },
        ElementConfig::Enum { as_typescript_enum: true },
        ElementConfig::Variant { as_direct_union_of_resource_classes: true },
        ElementConfig::ListOfTuple { as_dictionary: true },
    ]
}

#[test]
fn absent_element_is_unset() {
    let g = graph();
    let c = Configuration::new();
    assert_eq!(c.get(&g, &Element::Type(0)), ElementConfig::Unset);
    assert_eq!(c.get_member(&g, &Element::Type(0), &s("x")), ElementConfig::Unset);
}

#[test]
fn configured_type_is_found() {
    let g = graph();
    let mut c = Configuration::new();
    let cfg = ElementConfig::Resource { as_iterator: true, use_guest_class: false };
    c.insert(s("ns:pkg:iface:widget"), cfg);
    assert_eq!(c.get(&g, &Element::Type(0)), cfg);
    assert_eq!(c.get(&g, &Element::Type(1)), ElementConfig::Unset);
    assert!(c.get(&g, &Element::Type(0)).resource_as_iterator());
}

#[test]
fn configured_member_is_found() {
    let g = graph();
    let mut c = Configuration::new();
    let cfg = ElementConfig::Record { as_class: true };
    c.insert(s("ns:pkg:iface:color.red"), cfg);
    assert_eq!(c.get_member(&g, &Element::Type(1), &s("red")), cfg);
    assert_eq!(c.get_member(&g, &Element::Type(1), &s("blue")), ElementConfig::Unset);
    assert_eq!(c.get(&g, &Element::Type(1)), ElementConfig::Unset);
}

#[test]
fn configured_function_is_found() {
    let g = graph();
    let mut c = Configuration::new();
    let cfg = ElementConfig::Enum { as_typescript_enum: true };
    c.insert(s("ns:pkg:iface:widget.get()"), cfg);
    let f = Function { name: s("get"), kind: FunctionKind::Method(0), results: vec![] };
    assert_eq!(c.get(&g, &Element::Function(&f)), cfg);
}

#[test]
fn insert_replaces_earlier_value() {
    let mut c = Configuration::new();
    c.insert(s("k"), ElementConfig::Record { as_class: true });
    c.insert(s("k"), ElementConfig::Record { as_class: false });
    c.insert(s("other"), ElementConfig::Enum { as_typescript_enum: true });
    assert_eq!(c.get_by_key(&s("k")), ElementConfig::Record { as_class: false });
    assert_eq!(c.get_by_key(&s("other")), ElementConfig::Enum { as_typescript_enum: true });
    assert_eq!(c.get_by_key(&s("missing")), ElementConfig::Unset);
}

#[test]
fn lookup_is_repeatable() {
    let g = graph();
    let mut c = Configuration::new();
    c.insert(s("ns:pkg:iface:widget"), ElementConfig::Record { as_class: true });
    assert_eq!(c.get(&g, &Element::Type(0)), c.get(&g, &Element::Type(0)));
}

#[test]
fn accessors_read_their_own_arm() {
    assert!(ElementConfig::Enum { as_typescript_enum: true }.enum_as_typescript_enum());
    assert!(!ElementConfig::Enum { as_typescript_enum: false }.enum_as_typescript_enum());
    assert!(ElementConfig::Record { as_class: true }.record_as_class());
    let r = ElementConfig::Resource { as_iterator: false, use_guest_class: true };
    assert!(!r.resource_as_iterator());
    assert!(r.resource_use_guest_class());
    let r = ElementConfig::Resource { as_iterator: true, use_guest_class: false };
    assert!(r.resource_as_iterator());
    assert!(!r.resource_use_guest_class());
    assert!(ElementConfig::Variant { as_direct_union_of_resource_classes: true }
        .variant_as_direct_union_of_resource_classes());
    assert!(ElementConfig::ListOfTuple { as_dictionary: true }.list_of_tuple_as_dictionary());
}

#[test]
fn accessors_on_other_arms_are_false() {
    let arms = all_arms();
    for (i, c) in arms.iter().enumerate() {
        assert_eq!(c.enum_as_typescript_enum(), i == 3);
        assert_eq!(c.record_as_class(), i == 1);
        assert_eq!(c.resource_as_iterator(), i == 2);
        assert_eq!(c.resource_use_guest_class(), i == 2);
        assert_eq!(c.variant_as_direct_union_of_resource_classes(), i == 4);
        assert_eq!(c.list_of_tuple_as_dictionary(), i == 5);
    }
    assert!(!ElementConfig::Resource { as_iterator: true, use_guest_class: true }.record_as_class());
}

#[test]
fn default_configuration_is_empty() {
    let c = Configuration::default();
    assert_eq!(c.get_by_key(&s("")), ElementConfig::Unset);
    assert_eq!(c.get_by_key(&s("ns:pkg:iface:widget")), ElementConfig::Unset);
}

#[test]
fn cloned_configuration_keeps_entries() {
    let mut c = Configuration::new();
    c.insert(s("k"), ElementConfig::Record { as_class: true });
    let d = c.clone();
    c.insert(s("k"), ElementConfig::Unset);
    assert_eq!(d.get_by_key(&s("k")), ElementConfig::Record { as_class: true });
    assert_eq!(c.get_by_key(&s("k")), ElementConfig::Unset);
}
