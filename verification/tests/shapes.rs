use winmd_gen::error::GenError;
use winmd_gen::limits::Inclusion;
use winmd_gen::model::{
    ElementType, FieldRecord, Metadata, MethodCategory, MethodRecord, MethodSig, ParamSig,
    TypeCategory, TypeRecord, TypeSig,
};
use winmd_gen::writer::{
    class_shape, delegate_shape, enum_shape, interface_shape, struct_shape, EnumRepr, TypeShape,
    Writer,
};

fn rec(ns: &str, name: &str, category: TypeCategory) -> TypeRecord {
    TypeRecord {
        namespace: ns.as_bytes().to_vec(),
        name: name.as_bytes().to_vec(),
        category,
        generics: Vec::new(),
        bases: Vec::new(),
        interfaces: Vec::new(),
        fields: Vec::new(),
        methods: Vec::new(),
        attributes: Vec::new(),
    }
}

fn field(name: &str, sig: TypeSig, has_constant: bool) -> FieldRecord {
    FieldRecord {
        name: name.as_bytes().to_vec(),
        sig,
        has_constant,
    }
}

fn inc(namespaces: &[&str]) -> Inclusion {
    Inclusion {
        namespaces: namespaces.iter().map(|n| n.as_bytes().to_vec()).collect(),
    }
}

#[test]
fn struct_with_excluded_field_aborts_the_run() {
    // The run aborts rather than emit a structure missing the field.
    let mut s = rec("N", "Holder", TypeCategory::Struct);
    s.fields = vec![field("Inner", TypeSig::Def(1), false)];
    let hidden = rec("Other", "Hidden", TypeCategory::Struct);
    let meta = Metadata {
        types: vec![s, hidden],
    };
    let err = struct_shape(&meta, &inc(&["N"]), 0).unwrap_err();
    match err {
        GenError::ExcludedTypeLeak { namespace, name } => {
            assert_eq!(namespace, b"N".to_vec());
            assert_eq!(name, b"Holder".to_vec());
        }
        _ => panic!("expected the excluded-type leak"),
    }
}

#[test]
fn struct_shape_folds_field_names() {
    let mut s = rec("N", "Point", TypeCategory::Struct);
    s.fields = vec![
        field("PositionX", TypeSig::Element(ElementType::I32), false),
        field("PositionY", TypeSig::Element(ElementType::I32), false),
    ];
    let meta = Metadata { types: vec![s] };
    let shape = struct_shape(&meta, &inc(&["N"]), 0).unwrap();
    assert_eq!(
        shape.field_names,
        vec![b"position_x".to_vec(), b"position_y".to_vec()]
    );
}

#[test]
fn system_guid_field_is_never_a_leak() {
    let mut s = rec("N", "Holder", TypeCategory::Struct);
    s.fields = vec![field("Id", TypeSig::Def(1), false)];
    let guid = rec("System", "Guid", TypeCategory::Struct);
    let meta = Metadata {
        types: vec![s, guid],
    };
    assert!(struct_shape(&meta, &inc(&["N"]), 0).is_ok());
}

#[test]
fn enum_shape_reads_layout_default_and_variants() {
    let mut e = rec("N", "Color", TypeCategory::Enum);
    e.fields = vec![
        field("value__", TypeSig::Element(ElementType::I32), false),
        field("Red", TypeSig::Def(0), true),
        field("Green", TypeSig::Def(0), true),
    ];
    let meta = Metadata { types: vec![e] };
    let shape = enum_shape(&meta, 0).unwrap();
    assert_eq!(shape.repr, EnumRepr::I32);
    assert_eq!(shape.default_variant, b"Red".to_vec());
    assert_eq!(shape.variants, vec![b"Red".to_vec(), b"Green".to_vec()]);
}

#[test]
fn enum_without_unsigned_layout_field_defaults_to_unsigned() {
    let mut e = rec("N", "Flags", TypeCategory::Enum);
    e.fields = vec![
        field("value__", TypeSig::Element(ElementType::U32), false),
        field("Nothing", TypeSig::Def(0), true),
    ];
    let meta = Metadata { types: vec![e] };
    let shape = enum_shape(&meta, 0).unwrap();
    assert_eq!(shape.repr, EnumRepr::U32);
}

#[test]
fn enum_missing_its_fields_is_unsupported() {
    let mut e = rec("N", "Empty", TypeCategory::Enum);
    e.fields = vec![field("value__", TypeSig::Element(ElementType::I32), false)];
    let meta = Metadata { types: vec![e] };
    let err = enum_shape(&meta, 0).unwrap_err();
    assert!(matches!(err, GenError::UnsupportedShape { .. }));
}

#[test]
fn delegate_without_invoke_is_unsupported() {
    let d = rec("N", "Handler", TypeCategory::Delegate);
    let meta = Metadata { types: vec![d] };
    let err = delegate_shape(&meta, &inc(&["N"]), 0).unwrap_err();
    assert!(matches!(err, GenError::UnsupportedShape { .. }));
}

#[test]
fn delegate_with_excluded_parameter_aborts() {
    let mut d = rec("N", "Handler", TypeCategory::Delegate);
    d.methods = vec![MethodRecord {
        name: b"Invoke".to_vec(),
        category: MethodCategory::Normal,
        sig: MethodSig {
            params: vec![ParamSig {
                name: b"sender".to_vec(),
                ty: TypeSig::Def(1),
                input: true,
                by_ref: false,
                array: false,
            }],
            return_type: None,
        },
        attributes: Vec::new(),
    }];
    let hidden = rec("Other", "Hidden", TypeCategory::Class);
    let meta = Metadata {
        types: vec![d, hidden],
    };
    let err = delegate_shape(&meta, &inc(&["N"]), 0).unwrap_err();
    assert!(matches!(err, GenError::ExcludedTypeLeak { .. }));
}

#[test]
fn delegate_shape_finds_its_invoke_method() {
    let mut d = rec("N", "Handler", TypeCategory::Delegate);
    d.methods = vec![
        MethodRecord {
            name: b"Other".to_vec(),
            category: MethodCategory::Normal,
            sig: MethodSig {
                params: Vec::new(),
                return_type: None,
            },
            attributes: Vec::new(),
        },
        MethodRecord {
            name: b"Invoke".to_vec(),
            category: MethodCategory::Normal,
            sig: MethodSig {
                params: Vec::new(),
                return_type: None,
            },
            attributes: Vec::new(),
        },
    ];
    let meta = Metadata { types: vec![d] };
    let shape = delegate_shape(&meta, &inc(&["N"]), 0).unwrap();
    assert_eq!(shape.invoke, 1);
}

#[test]
fn interface_with_excluded_primary_method_aborts() {
    let mut iface = rec("N", "IThing", TypeCategory::Interface);
    iface.methods = vec![MethodRecord {
        name: b"get_Hidden".to_vec(),
        category: MethodCategory::Get,
        sig: MethodSig {
            params: Vec::new(),
            return_type: Some(ParamSig {
                name: b"value".to_vec(),
                ty: TypeSig::Def(1),
                input: false,
                by_ref: false,
                array: false,
            }),
        },
        attributes: Vec::new(),
    }];
    let hidden = rec("Other", "Hidden", TypeCategory::Class);
    let meta = Metadata {
        types: vec![iface, hidden],
    };
    let err = interface_shape(&meta, &inc(&["N"]), 0).unwrap_err();
    assert!(matches!(err, GenError::ExcludedTypeLeak { .. }));
}

#[test]
fn class_shape_points_at_its_default_interface() {
    let mut class = rec("N", "Widget", TypeCategory::Class);
    class.interfaces = vec![
        winmd_gen::model::InterfaceEdge {
            target: winmd_gen::model::EdgeTarget::Def(1),
            attributes: Vec::new(),
        },
        winmd_gen::model::InterfaceEdge {
            target: winmd_gen::model::EdgeTarget::Def(2),
            attributes: vec![winmd_gen::model::Attribute {
                name: b"DefaultAttribute".to_vec(),
                args: Vec::new(),
            }],
        },
    ];
    let i1 = rec("N", "IWidget", TypeCategory::Interface);
    let i2 = rec("N", "IWidget2", TypeCategory::Interface);
    let meta = Metadata {
        types: vec![class, i1, i2],
    };
    let shape = class_shape(&meta, &inc(&["N"]), 0).unwrap();
    let d = shape.default_interface.unwrap();
    assert_eq!(shape.composed[d].definition, Some(2));
    let plain = rec("N", "Plain", TypeCategory::Class);
    let meta2 = Metadata { types: vec![plain] };
    let shape2 = class_shape(&meta2, &inc(&["N"]), 0).unwrap();
    assert_eq!(shape2.default_interface, None);
}

#[test]
fn writer_generates_a_namespace_in_arena_order() {
    let mut e = rec("N", "Color", TypeCategory::Enum);
    e.fields = vec![
        field("value__", TypeSig::Element(ElementType::I32), false),
        field("Red", TypeSig::Def(0), true),
    ];
    let mut s = rec("N", "Point", TypeCategory::Struct);
    s.fields = vec![field("X", TypeSig::Element(ElementType::Float32), false)];
    let other = rec("M", "Elsewhere", TypeCategory::Struct);
    let meta = Metadata {
        types: vec![e, other, s],
    };
    let writer = Writer::new(meta, inc(&["N"]));
    let shapes = writer.write_namespace(&b"N".to_vec()).unwrap();
    assert_eq!(shapes.len(), 2);
    assert!(matches!(shapes[0], TypeShape::Enum(_)));
    assert!(matches!(shapes[1], TypeShape::Struct(_)));
}

#[test]
fn writer_write_covers_each_included_namespace() {
    let a = rec("A", "Thing", TypeCategory::Struct);
    let b = rec("B", "Other", TypeCategory::Struct);
    let meta = Metadata { types: vec![a, b] };
    let writer = Writer::new(meta, inc(&["A", "B"]));
    let out = writer.write().unwrap();
    assert_eq!(out.len(), 2);
    assert_eq!(out[0].namespace, b"A".to_vec());
    assert_eq!(out[1].namespace, b"B".to_vec());
    assert_eq!(out[0].shapes.len(), 1);
    assert_eq!(out[1].shapes.len(), 1);
}

#[test]
fn writer_write_propagates_the_first_fatal_error() {
    let mut s = rec("A", "Holder", TypeCategory::Struct);
    s.fields = vec![field("Inner", TypeSig::Def(1), false)];
    let hidden = rec("Hidden.Ns", "Secret", TypeCategory::Struct);
    let meta = Metadata {
        types: vec![s, hidden],
    };
    let writer = Writer::new(meta, inc(&["A"]));
    let err = writer.write().unwrap_err();
    assert!(matches!(err, GenError::ExcludedTypeLeak { .. }));
}

#[test]
fn conversions_cover_included_instance_interfaces() {
    let mut class = rec("N", "Widget", TypeCategory::Class);
    class.interfaces = vec![
        winmd_gen::model::InterfaceEdge {
            target: winmd_gen::model::EdgeTarget::Def(1),
            attributes: Vec::new(),
        },
        winmd_gen::model::InterfaceEdge {
            target: winmd_gen::model::EdgeTarget::Def(2),
            attributes: Vec::new(),
        },
    ];
    let i1 = rec("N", "IWidget", TypeCategory::Interface);
    let i2 = rec("Other", "IHidden", TypeCategory::Interface);
    let meta = Metadata {
        types: vec![class, i1, i2],
    };
    let shape = class_shape(&meta, &inc(&["N"]), 0).unwrap();
    let targets = winmd_gen::writer::conversion_targets(&shape.composed);
    assert_eq!(targets.len(), 1);
    assert_eq!(shape.composed[targets[0]].definition, Some(1));
}

#[test]
fn base_conversions_skip_excluded_bases() {
    let mut class = rec("N", "Derived", TypeCategory::Class);
    class.bases = vec![1, 2];
    let near = rec("N", "NearBase", TypeCategory::Class);
    let far = rec("Other", "FarBase", TypeCategory::Class);
    let meta = Metadata {
        types: vec![class, near, far],
    };
    let targets = winmd_gen::writer::base_conversion_targets(&meta, &inc(&["N"]), 0);
    assert_eq!(targets, vec![1]);
}

#[test]
fn guid_marker_values_are_read_in_order() {
    let mut iface = rec("N", "IThing", TypeCategory::Interface);
    iface.attributes = vec![winmd_gen::model::Attribute {
        name: b"GuidAttribute".to_vec(),
        args: vec![
            winmd_gen::model::AttrArg::U32(0xAABBCCDD),
            winmd_gen::model::AttrArg::U16(17),
            winmd_gen::model::AttrArg::U8(3),
        ],
    }];
    let meta = Metadata { types: vec![iface] };
    let vals = winmd_gen::writer::guid_parts(&meta, 0).unwrap();
    assert_eq!(vals, vec![0xAABBCCDD, 17, 3]);
}

#[test]
fn guid_marker_with_text_argument_is_unsupported() {
    let mut iface = rec("N", "IThing", TypeCategory::Interface);
    iface.attributes = vec![winmd_gen::model::Attribute {
        name: b"GuidAttribute".to_vec(),
        args: vec![winmd_gen::model::AttrArg::Text(b"oops".to_vec())],
    }];
    let bare = rec("N", "IBare", TypeCategory::Interface);
    let meta = Metadata {
        types: vec![iface, bare],
    };
    let err = winmd_gen::writer::guid_parts(&meta, 0).unwrap_err();
    assert!(matches!(err, GenError::UnsupportedShape { .. }));
    let missing = winmd_gen::writer::guid_parts(&meta, 1).unwrap_err();
    assert!(matches!(missing, GenError::UnsupportedShape { .. }));
}

#[test]
fn base_conversions_keep_declaration_order() {
    let mut class = rec("N", "Derived", TypeCategory::Class);
    class.bases = vec![2, 1];
    let first = rec("N", "AlphaBase", TypeCategory::Class);
    let second = rec("N", "BetaBase", TypeCategory::Class);
    let meta = Metadata {
        types: vec![class, first, second],
    };
    let targets = winmd_gen::writer::base_conversion_targets(&meta, &inc(&["N"]), 0);
    assert_eq!(targets, vec![2, 1]);
}
