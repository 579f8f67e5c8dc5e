use winmd_gen::compose::{class_interfaces, interface_interfaces, Role};
use winmd_gen::limits::Inclusion;
use winmd_gen::model::{
    AttrArg, Attribute, EdgeTarget, InterfaceEdge, Metadata, MethodCategory, MethodRecord,
    MethodSig, ParamSig, TypeCategory, TypeRecord, TypeSig,
};
use winmd_gen::project::{method_name, methods, raw_method_name};

fn rec(ns: &str, name: &str, category: TypeCategory) -> TypeRecord {
    TypeRecord {
        namespace: ns.as_bytes().to_vec(),
        name: name.as_bytes().to_vec(),
        category,
        generics: Vec::new(),
        bases: Vec::new(),
        interfaces: Vec::new(),
        fields: Vec::new(),
        methods: Vec::new(),
        attributes: Vec::new(),
    }
}

fn method(name: &str, category: MethodCategory) -> MethodRecord {
    MethodRecord {
        name: name.as_bytes().to_vec(),
        category,
        sig: MethodSig {
            params: Vec::new(),
            return_type: None,
        },
        attributes: Vec::new(),
    }
}

fn edge(target: EdgeTarget) -> InterfaceEdge {
    InterfaceEdge {
        target,
        attributes: Vec::new(),
    }
}

fn inc(namespaces: &[&str]) -> Inclusion {
    Inclusion {
        namespaces: namespaces.iter().map(|n| n.as_bytes().to_vec()).collect(),
    }
}

#[test]
fn accessor_prefixes_fold_into_projected_names() {
    assert_eq!(
        method_name(&method("get_Current", MethodCategory::Get)),
        b"current".to_vec()
    );
    assert_eq!(
        method_name(&method("put_Value", MethodCategory::Put)),
        b"set_value".to_vec()
    );
    assert_eq!(
        method_name(&method("add_Changed", MethodCategory::Add)),
        b"changed".to_vec()
    );
    assert_eq!(
        method_name(&method("remove_Changed", MethodCategory::Remove)),
        b"remove_changed".to_vec()
    );
    assert_eq!(
        method_name(&method("DoSomethingNow", MethodCategory::Normal)),
        b"do_something_now".to_vec()
    );
}

#[test]
fn name_override_replaces_raw_name_before_folding() {
    let mut m = method("MoveNext", MethodCategory::Normal);
    m.attributes = vec![Attribute {
        name: b"OverloadAttribute".to_vec(),
        args: vec![AttrArg::U32(2), AttrArg::Text(b"MoveNextTwice".to_vec())],
    }];
    assert_eq!(raw_method_name(&m), b"MoveNextTwice".to_vec());
    assert_eq!(method_name(&m), b"move_next_twice".to_vec());
}

#[test]
fn primary_collision_renames_the_plain_method() {
    // The plain method "Close" and the accessor "get_Close" both project
    // to "close": whichever of the two is plain carries the suffix.
    let mut iface = rec("N", "IThing", TypeCategory::Interface);
    iface.methods = vec![
        method("Close", MethodCategory::Normal),
        method("get_Close", MethodCategory::Get),
    ];
    let meta = Metadata { types: vec![iface] };
    let inclusion = inc(&["N"]);
    let composed = interface_interfaces(&meta, &inclusion, 0);
    let surface = methods(&meta, &inclusion, &composed);
    assert_eq!(surface.len(), 2);
    assert_eq!(surface[0].name, b"close2".to_vec());
    assert_eq!(surface[0].category, MethodCategory::Normal);
    assert!(!surface[0].excluded);
    assert_eq!(surface[1].name, b"close".to_vec());
    assert_eq!(surface[1].category, MethodCategory::Get);
    assert!(!surface[1].excluded);
}

#[test]
fn primary_collision_renames_a_later_plain_candidate() {
    // The accessor comes first: then the later plain method is the one
    // that gains the suffix.
    let mut iface = rec("N", "IThing", TypeCategory::Interface);
    iface.methods = vec![
        method("get_Close", MethodCategory::Get),
        method("Close", MethodCategory::Normal),
    ];
    let meta = Metadata { types: vec![iface] };
    let inclusion = inc(&["N"]);
    let composed = interface_interfaces(&meta, &inclusion, 0);
    let surface = methods(&meta, &inclusion, &composed);
    assert_eq!(surface[0].name, b"close".to_vec());
    assert_eq!(surface[1].name, b"close2".to_vec());
    assert_eq!(surface[1].category, MethodCategory::Normal);
}

#[test]
fn required_interface_collision_is_excluded_not_renamed() {
    // A class's default interface and a further required interface both
    // project "value": the later one leaves the flattened surface but
    // keeps its owning interface for explicit conversion.
    let mut class = rec("N", "Widget", TypeCategory::Class);
    class.interfaces = vec![edge(EdgeTarget::Def(1)), edge(EdgeTarget::Def(2))];
    let mut i1 = rec("N", "IWidget", TypeCategory::Interface);
    i1.methods = vec![method("get_Value", MethodCategory::Get)];
    let mut i2 = rec("N", "IOther", TypeCategory::Interface);
    i2.methods = vec![method("get_Value", MethodCategory::Get)];
    let meta = Metadata {
        types: vec![class, i1, i2],
    };
    let inclusion = inc(&["N"]);
    let composed = class_interfaces(&meta, &inclusion, 0).unwrap();
    let surface = methods(&meta, &inclusion, &composed);
    assert_eq!(surface.len(), 2);
    assert_eq!(surface[0].name, b"value".to_vec());
    assert!(!surface[0].excluded);
    assert_eq!(surface[1].name, b"value".to_vec());
    assert!(surface[1].excluded);
    // The excluded method still names its owning interface.
    assert_eq!(composed[surface[1].interface].definition, Some(2));
}

#[test]
fn default_activation_projects_a_constructor() {
    let mut class = rec("N", "Widget", TypeCategory::Class);
    class.attributes = vec![Attribute {
        name: b"ActivatableAttribute".to_vec(),
        args: Vec::new(),
    }];
    let meta = Metadata { types: vec![class] };
    let inclusion = inc(&["N"]);
    let composed = class_interfaces(&meta, &inclusion, 0).unwrap();
    let surface = methods(&meta, &inclusion, &composed);
    assert_eq!(surface.len(), 1);
    assert_eq!(surface[0].name, b"new".to_vec());
    assert_eq!(surface[0].method, None);
    assert!(!surface[0].excluded);
}

#[test]
fn excluded_interface_methods_never_enter_the_surface() {
    let mut class = rec("N", "Widget", TypeCategory::Class);
    class.interfaces = vec![edge(EdgeTarget::Def(1)), edge(EdgeTarget::Def(2))];
    let mut i1 = rec("Other", "IHidden", TypeCategory::Interface);
    i1.methods = vec![method("get_Value", MethodCategory::Get)];
    let mut i2 = rec("N", "IWidget", TypeCategory::Interface);
    i2.methods = vec![method("get_Value", MethodCategory::Get)];
    let meta = Metadata {
        types: vec![class, i1, i2],
    };
    let inclusion = inc(&["N"]);
    let composed = class_interfaces(&meta, &inclusion, 0).unwrap();
    let surface = methods(&meta, &inclusion, &composed);
    // The excluded interface is skipped entirely, so the included one's
    // "value" suffers no collision.
    assert_eq!(surface.len(), 1);
    assert_eq!(surface[0].name, b"value".to_vec());
    assert!(!surface[0].excluded);
    assert_eq!(composed[surface[0].interface].definition, Some(2));
}

#[test]
fn method_with_excluded_signature_is_marked_but_still_blocks_names() {
    // A method whose signature touches an excluded namespace stays out of
    // the surface yet still occupies its name for later collisions.
    let mut class = rec("N", "Widget", TypeCategory::Class);
    class.interfaces = vec![edge(EdgeTarget::Def(1)), edge(EdgeTarget::Def(2))];
    let mut i1 = rec("N", "IWidget", TypeCategory::Interface);
    i1.methods = vec![MethodRecord {
        name: b"get_Value".to_vec(),
        category: MethodCategory::Get,
        sig: MethodSig {
            params: vec![ParamSig {
                name: b"hidden".to_vec(),
                ty: TypeSig::Def(3),
                input: true,
                by_ref: false,
                array: false,
            }],
            return_type: None,
        },
        attributes: Vec::new(),
    }];
    let mut i2 = rec("N", "IWidget2", TypeCategory::Interface);
    i2.methods = vec![method("get_Value", MethodCategory::Get)];
    let hidden = rec("Other", "Hidden", TypeCategory::Class);
    let meta = Metadata {
        types: vec![class, i1, i2, hidden],
    };
    let inclusion = inc(&["N"]);
    let composed = class_interfaces(&meta, &inclusion, 0).unwrap();
    let surface = methods(&meta, &inclusion, &composed);
    assert_eq!(surface.len(), 2);
    assert!(surface[0].excluded);
    assert!(surface[1].excluded);
}
