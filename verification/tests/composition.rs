use winmd_gen::compose::{class_interfaces, interface_interfaces, Composed, Role};
use winmd_gen::error::GenError;
use winmd_gen::limits::Inclusion;
use winmd_gen::model::{
    AttrArg, Attribute, EdgeTarget, InterfaceEdge, Metadata, TypeCategory, TypeRecord, TypeSig,
};

fn rec(ns: &str, name: &str, category: TypeCategory) -> TypeRecord {
    TypeRecord {
        namespace: ns.as_bytes().to_vec(),
        name: name.as_bytes().to_vec(),
        category,
        generics: Vec::new(),
        bases: Vec::new(),
        interfaces: Vec::new(),
        fields: Vec::new(),
        methods: Vec::new(),
        attributes: Vec::new(),
    }
}

fn edge(target: EdgeTarget) -> InterfaceEdge {
    InterfaceEdge {
        target,
        attributes: Vec::new(),
    }
}

fn marked_edge(target: EdgeTarget, attr: &str) -> InterfaceEdge {
    InterfaceEdge {
        target,
        attributes: vec![Attribute {
            name: attr.as_bytes().to_vec(),
            args: Vec::new(),
        }],
    }
}

fn inc(namespaces: &[&str]) -> Inclusion {
    Inclusion {
        namespaces: namespaces.iter().map(|n| n.as_bytes().to_vec()).collect(),
    }
}

fn defs(list: &[Composed]) -> Vec<Option<usize>> {
    list.iter().map(|e| e.definition).collect()
}

#[test]
fn diamond_requirement_collapses_to_one_entry() {
    // Interface A requires B and C; B and C both require D.
    let mut a = rec("N", "IA", TypeCategory::Interface);
    a.interfaces = vec![edge(EdgeTarget::Def(1)), edge(EdgeTarget::Def(2))];
    let mut b = rec("N", "IB", TypeCategory::Interface);
    b.interfaces = vec![edge(EdgeTarget::Def(3))];
    let mut c = rec("N", "IC", TypeCategory::Interface);
    c.interfaces = vec![edge(EdgeTarget::Def(3))];
    let d = rec("N", "ID", TypeCategory::Interface);
    let meta = Metadata {
        types: vec![a, b, c, d],
    };
    let list = interface_interfaces(&meta, &inc(&["N"]), 0);
    assert_eq!(list[0].role, Role::PrimaryAbi);
    assert_eq!(list[0].definition, Some(0));
    let d_entries: Vec<&Composed> = list.iter().filter(|e| e.definition == Some(3)).collect();
    assert_eq!(d_entries.len(), 1);
    assert_eq!(list.len(), 4);
    // The walk part stays sorted by definition identity.
    assert_eq!(defs(&list), vec![Some(0), Some(1), Some(2), Some(3)]);
}

#[test]
fn class_keeps_first_default_only() {
    // Two direct edges both carry the default marker: the first wins.
    let mut class = rec("N", "Widget", TypeCategory::Class);
    class.interfaces = vec![
        marked_edge(EdgeTarget::Def(1), "DefaultAttribute"),
        marked_edge(EdgeTarget::Def(2), "DefaultAttribute"),
    ];
    let i1 = rec("N", "IWidget", TypeCategory::Interface);
    let i2 = rec("N", "IWidget2", TypeCategory::Interface);
    let meta = Metadata {
        types: vec![class, i1, i2],
    };
    let list = class_interfaces(&meta, &inc(&["N"]), 0).unwrap();
    let default_count = list
        .iter()
        .filter(|e| e.role == Role::DefaultInstance)
        .count();
    assert_eq!(default_count, 1);
    let first_default = list.iter().find(|e| e.role == Role::DefaultInstance).unwrap();
    assert_eq!(first_default.definition, Some(1));
}

#[test]
fn transitive_default_marker_is_ignored() {
    // Only a direct class edge may become the default instance.
    let mut class = rec("N", "Widget", TypeCategory::Class);
    class.interfaces = vec![edge(EdgeTarget::Def(1))];
    let mut i1 = rec("N", "IWidget", TypeCategory::Interface);
    i1.interfaces = vec![marked_edge(EdgeTarget::Def(2), "DefaultAttribute")];
    let i2 = rec("N", "IInner", TypeCategory::Interface);
    let meta = Metadata {
        types: vec![class, i1, i2],
    };
    let list = class_interfaces(&meta, &inc(&["N"]), 0).unwrap();
    assert!(list.iter().all(|e| e.role != Role::DefaultInstance));
}

#[test]
fn nested_generic_argument_resolves_two_levels_up() {
    // R requires H<Y>; H<U> requires G<U>. Inside G's entry the frame must
    // hold Y itself, not the formal parameter of G or of H.
    let mut r = rec("N", "IRoot", TypeCategory::Interface);
    r.interfaces = vec![edge(EdgeTarget::Spec(1, vec![TypeSig::Def(3)]))];
    let mut h = rec("N", "IMiddle", TypeCategory::Interface);
    h.generics = vec![b"U".to_vec()];
    h.interfaces = vec![edge(EdgeTarget::Spec(2, vec![TypeSig::Param(0)]))];
    let mut g = rec("N", "IInner", TypeCategory::Interface);
    g.generics = vec![b"T".to_vec()];
    let y = rec("N", "Payload", TypeCategory::Class);
    let meta = Metadata {
        types: vec![r, h, g, y],
    };
    let list = interface_interfaces(&meta, &inc(&["N"]), 0);
    let g_entry = list.iter().find(|e| e.definition == Some(2)).unwrap();
    let frame = g_entry.generics.last().unwrap();
    assert_eq!(frame.len(), 1);
    assert!(matches!(frame[0], TypeSig::Def(3)));
}

#[test]
fn generic_root_resolves_to_its_own_formals() {
    // A generic root interface requiring G<its own parameter> records the
    // formal position, to be bound by the enclosing generic context.
    let mut r = rec("N", "IRoot", TypeCategory::Interface);
    r.generics = vec![b"T".to_vec()];
    r.interfaces = vec![edge(EdgeTarget::Spec(1, vec![TypeSig::Param(0)]))];
    let mut g = rec("N", "IInner", TypeCategory::Interface);
    g.generics = vec![b"T".to_vec()];
    let meta = Metadata { types: vec![r, g] };
    let list = interface_interfaces(&meta, &inc(&["N"]), 0);
    let g_entry = list.iter().find(|e| e.definition == Some(1)).unwrap();
    let frame = g_entry.generics.last().unwrap();
    assert!(matches!(frame[0], TypeSig::Param(0)));
}

#[test]
fn base_class_interfaces_are_merged() {
    let mut class = rec("N", "Derived", TypeCategory::Class);
    class.interfaces = vec![edge(EdgeTarget::Def(2))];
    class.bases = vec![1];
    let mut base = rec("N", "Base", TypeCategory::Class);
    base.interfaces = vec![edge(EdgeTarget::Def(3))];
    let i1 = rec("N", "IDerived", TypeCategory::Interface);
    let i2 = rec("N", "IBase", TypeCategory::Interface);
    let meta = Metadata {
        types: vec![class, base, i1, i2],
    };
    let list = class_interfaces(&meta, &inc(&["N"]), 0).unwrap();
    assert_eq!(defs(&list), vec![Some(2), Some(3)]);
}

#[test]
fn static_attribute_adds_factory_entry() {
    let mut class = rec("N", "Widget", TypeCategory::Class);
    class.attributes = vec![Attribute {
        name: b"StaticAttribute".to_vec(),
        args: vec![AttrArg::U32(7), AttrArg::Type(1)],
    }];
    let statics = rec("N", "IWidgetStatics", TypeCategory::Interface);
    let meta = Metadata {
        types: vec![class, statics],
    };
    let list = class_interfaces(&meta, &inc(&["N"]), 0).unwrap();
    assert_eq!(list.len(), 1);
    assert_eq!(list[0].role, Role::StaticFactory);
    assert_eq!(list[0].definition, Some(1));
    assert!(list[0].exclusive);
}

#[test]
fn static_attribute_without_target_is_fatal() {
    let mut class = rec("N", "Widget", TypeCategory::Class);
    class.attributes = vec![Attribute {
        name: b"StaticAttribute".to_vec(),
        args: vec![AttrArg::U32(7)],
    }];
    let meta = Metadata { types: vec![class] };
    let err = class_interfaces(&meta, &inc(&["N"]), 0).unwrap_err();
    assert!(matches!(err, GenError::UnsupportedShape { .. }));
}

#[test]
fn activatable_attribute_without_target_synthesizes_default_activation() {
    let mut class = rec("N", "Widget", TypeCategory::Class);
    class.attributes = vec![Attribute {
        name: b"ActivatableAttribute".to_vec(),
        args: vec![AttrArg::U32(0x30000)],
    }];
    let meta = Metadata { types: vec![class] };
    let list = class_interfaces(&meta, &inc(&["N"]), 0).unwrap();
    assert_eq!(list.len(), 1);
    assert_eq!(list[0].role, Role::DefaultActivation);
    assert_eq!(list[0].definition, None);
}

#[test]
fn activatable_attribute_with_target_adds_activation_factory() {
    let mut class = rec("N", "Widget", TypeCategory::Class);
    class.attributes = vec![Attribute {
        name: b"ActivatableAttribute".to_vec(),
        args: vec![AttrArg::Type(1)],
    }];
    let factory = rec("N", "IWidgetFactory", TypeCategory::Interface);
    let meta = Metadata {
        types: vec![class, factory],
    };
    let list = class_interfaces(&meta, &inc(&["N"]), 0).unwrap();
    assert_eq!(list[0].role, Role::ActivationFactory);
    assert_eq!(list[0].definition, Some(1));
}

#[test]
fn excluded_namespace_marks_entry_but_recursion_continues() {
    // An excluded interface still has its own requirements walked.
    let mut a = rec("N", "IA", TypeCategory::Interface);
    a.interfaces = vec![edge(EdgeTarget::Def(1))];
    let mut b = rec("Other", "IB", TypeCategory::Interface);
    b.interfaces = vec![edge(EdgeTarget::Def(2))];
    let c = rec("N", "IC", TypeCategory::Interface);
    let meta = Metadata {
        types: vec![a, b, c],
    };
    let list = interface_interfaces(&meta, &inc(&["N"]), 0);
    let b_entry = list.iter().find(|e| e.definition == Some(1)).unwrap();
    assert!(b_entry.excluded);
    let c_entry = list.iter().find(|e| e.definition == Some(2)).unwrap();
    assert!(!c_entry.excluded);
}

#[test]
fn overridable_and_exclusive_markers_carry_over() {
    let mut class = rec("N", "Widget", TypeCategory::Class);
    class.interfaces = vec![marked_edge(EdgeTarget::Def(1), "OverridableAttribute")];
    let mut i1 = rec("N", "IWidget", TypeCategory::Interface);
    i1.attributes = vec![Attribute {
        name: b"ExclusiveToAttribute".to_vec(),
        args: vec![AttrArg::Type(0)],
    }];
    let meta = Metadata {
        types: vec![class, i1],
    };
    let list = class_interfaces(&meta, &inc(&["N"]), 0).unwrap();
    assert!(list[0].overridable);
    assert!(list[0].exclusive);
}

#[test]
fn factory_type_picks_the_first_type_argument() {
    let attr = Attribute {
        name: b"StaticAttribute".to_vec(),
        args: vec![
            AttrArg::U32(1),
            AttrArg::Type(5),
            AttrArg::Type(7),
        ],
    };
    assert_eq!(winmd_gen::compose::factory_type(&attr), Some(5));
    let none = Attribute {
        name: b"StaticAttribute".to_vec(),
        args: vec![AttrArg::U32(1)],
    };
    assert_eq!(winmd_gen::compose::factory_type(&none), None);
}

#[test]
fn factory_entries_follow_the_markers_in_order() {
    let mut class = rec("N", "Widget", TypeCategory::Class);
    class.attributes = vec![
        Attribute {
            name: b"ActivatableAttribute".to_vec(),
            args: Vec::new(),
        },
        Attribute {
            name: b"StaticAttribute".to_vec(),
            args: vec![AttrArg::Type(1)],
        },
        Attribute {
            name: b"ActivatableAttribute".to_vec(),
            args: vec![AttrArg::Type(2)],
        },
    ];
    let statics = rec("N", "IWidgetStatics", TypeCategory::Interface);
    let factory = rec("Elsewhere", "IWidgetFactory", TypeCategory::Interface);
    let meta = Metadata {
        types: vec![class, statics, factory],
    };
    let list = class_interfaces(&meta, &inc(&["N"]), 0).unwrap();
    assert_eq!(list.len(), 3);
    assert_eq!(list[0].role, Role::DefaultActivation);
    assert_eq!(list[0].definition, None);
    assert_eq!(list[1].role, Role::StaticFactory);
    assert_eq!(list[1].definition, Some(1));
    assert!(!list[1].excluded);
    assert_eq!(list[2].role, Role::ActivationFactory);
    assert_eq!(list[2].definition, Some(2));
    assert!(list[2].excluded);
}

#[test]
fn primary_entry_carries_the_identity_frame() {
    let mut r = rec("N", "IRoot", TypeCategory::Interface);
    r.generics = vec![b"T".to_vec(), b"U".to_vec()];
    let meta = Metadata { types: vec![r] };
    let list = interface_interfaces(&meta, &inc(&["N"]), 0);
    assert!(!list[0].overridable);
    assert!(!list[0].exclusive);
    assert_eq!(list[0].generics.len(), 1);
    assert!(matches!(list[0].generics[0][0], TypeSig::Param(0)));
    assert!(matches!(list[0].generics[0][1], TypeSig::Param(1)));
}
