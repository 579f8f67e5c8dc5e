use winmd_gen::limits::Inclusion;
use winmd_gen::model::{
    ElementType, Metadata, MethodSig, ParamSig, TypeCategory, TypeRecord, TypeSig,
};
use winmd_gen::paths::{namespace_path, split_namespace, to_snake};
use winmd_gen::signature::{
    abi_arg, abi_param, abi_params, abi_value, consume_param, into_params, marshal_input_array,
    receive, unmarshal_input_array, AbiArg, AbiParam, AbiValue, ConsumeParam, IntoParam, Receive,
};
use winmd_gen::stack::GenericStack;

fn rec(ns: &str, name: &str, category: TypeCategory) -> TypeRecord {
    TypeRecord {
        namespace: ns.as_bytes().to_vec(),
        name: name.as_bytes().to_vec(),
        category,
        generics: Vec::new(),
        bases: Vec::new(),
        interfaces: Vec::new(),
        fields: Vec::new(),
        methods: Vec::new(),
        attributes: Vec::new(),
    }
}

fn param(ty: TypeSig, input: bool, by_ref: bool, array: bool) -> ParamSig {
    ParamSig {
        name: b"value".to_vec(),
        ty,
        input,
        by_ref,
        array,
    }
}

#[test]
fn relative_path_drops_shared_prefix() {
    let r = namespace_path(&b"A.B.C".to_vec(), &b"A.B.D.E".to_vec());
    assert_eq!(r.up, 1);
    assert_eq!(r.segments, vec![b"d".to_vec(), b"e".to_vec()]);
}

#[test]
fn relative_path_of_identical_namespaces_is_empty() {
    let r = namespace_path(&b"A.B".to_vec(), &b"A.B".to_vec());
    assert_eq!(r.up, 0);
    assert!(r.segments.is_empty());
}

#[test]
fn relative_path_with_no_shared_prefix_climbs_all_levels() {
    let r = namespace_path(&b"X.Y".to_vec(), &b"A.B".to_vec());
    assert_eq!(r.up, 2);
    assert_eq!(r.segments, vec![b"a".to_vec(), b"b".to_vec()]);
}

#[test]
fn split_keeps_every_segment() {
    let segs = split_namespace(&b"Windows.Foundation".to_vec());
    assert_eq!(segs, vec![b"Windows".to_vec(), b"Foundation".to_vec()]);
    let single = split_namespace(&b"System".to_vec());
    assert_eq!(single, vec![b"System".to_vec()]);
}

#[test]
fn snake_folding_lowers_and_separates() {
    assert_eq!(to_snake(&b"CurrentApp".to_vec()), b"current_app".to_vec());
    assert_eq!(to_snake(&b"ID".to_vec()), b"id".to_vec());
    assert_eq!(to_snake(&b"Value2You".to_vec()), b"value2_you".to_vec());
    assert_eq!(to_snake(&b"already".to_vec()), b"already".to_vec());
}

#[test]
fn input_array_marshals_to_length_and_pointer_and_back() {
    let data: Vec<u64> = vec![10, 20, 30];
    let (len, raw) = marshal_input_array(data);
    assert_eq!(len, 3);
    let back = unmarshal_input_array(len, raw);
    assert_eq!(back, vec![10, 20, 30]);
}

#[test]
fn array_directions_choose_their_raw_layout() {
    let meta = Metadata { types: Vec::new() };
    let input = param(TypeSig::Element(ElementType::U8), true, false, true);
    assert_eq!(
        abi_param(&meta, &input),
        AbiParam::ArrayInput(AbiValue::U8)
    );
    assert_eq!(abi_arg(&meta, &input), AbiArg::ArrayInPair);
    assert_eq!(consume_param(&meta, 0, &input), ConsumeParam::SliceIn);
    let byref = param(TypeSig::Element(ElementType::U8), false, true, true);
    assert_eq!(abi_param(&meta, &byref), AbiParam::ArrayByRef(AbiValue::U8));
    assert_eq!(consume_param(&meta, 0, &byref), ConsumeParam::GrowableOut);
    let out = param(TypeSig::Element(ElementType::U8), false, false, true);
    assert_eq!(abi_param(&meta, &out), AbiParam::ArrayOutput(AbiValue::U8));
    assert_eq!(consume_param(&meta, 0, &out), ConsumeParam::SliceOut);
}

#[test]
fn special_structures_have_special_raw_forms() {
    let guid = rec("System", "Guid", TypeCategory::Struct);
    let token = rec("Windows.Foundation", "EventRegistrationToken", TypeCategory::Struct);
    let plain = rec("N", "Point", TypeCategory::Struct);
    let meta = Metadata {
        types: vec![guid, token, plain],
    };
    assert_eq!(abi_value(&meta, &TypeSig::Def(0)), AbiValue::Guid);
    assert_eq!(abi_value(&meta, &TypeSig::Def(1)), AbiValue::EventToken);
    assert_eq!(abi_value(&meta, &TypeSig::Def(2)), AbiValue::Named(2));
    assert_eq!(
        abi_value(&meta, &TypeSig::Element(ElementType::Text)),
        AbiValue::RawPtr
    );
    assert_eq!(abi_value(&meta, &TypeSig::Param(1)), AbiValue::DeclaredAbi(1));
}

#[test]
fn return_value_is_a_trailing_output_slot() {
    let meta = Metadata { types: Vec::new() };
    let sig = MethodSig {
        params: vec![param(TypeSig::Element(ElementType::I32), true, false, false)],
        return_type: Some(param(
            TypeSig::Element(ElementType::Bool),
            false,
            false,
            false,
        )),
    };
    let raw = abi_params(&meta, &sig);
    assert_eq!(
        raw,
        vec![
            AbiParam::Value(AbiValue::I32),
            AbiParam::OutPtr(AbiValue::Bool),
        ]
    );
    assert_eq!(receive(&meta, &sig), Receive::Direct);
}

#[test]
fn generic_and_array_returns_receive_specially() {
    let meta = Metadata { types: Vec::new() };
    let generic_return = MethodSig {
        params: Vec::new(),
        return_type: Some(param(TypeSig::Param(0), false, false, false)),
    };
    assert_eq!(receive(&meta, &generic_return), Receive::GenericAbi);
    let array_return = MethodSig {
        params: Vec::new(),
        return_type: Some(param(
            TypeSig::Element(ElementType::U8),
            false,
            false,
            true,
        )),
    };
    assert_eq!(receive(&meta, &array_return), Receive::ArrayPair);
    let no_return = MethodSig {
        params: Vec::new(),
        return_type: None,
    };
    assert_eq!(receive(&meta, &no_return), Receive::Void);
}

#[test]
fn convertible_inputs_take_conversion_type_parameters() {
    let text = rec("N", "Ignored", TypeCategory::Struct);
    let meta = Metadata { types: vec![text] };
    let sig = MethodSig {
        params: vec![
            param(TypeSig::Element(ElementType::Text), true, false, false),
            param(TypeSig::Element(ElementType::U8), true, false, true),
            param(TypeSig::Def(0), true, false, false),
            param(TypeSig::Element(ElementType::I32), true, false, false),
        ],
        return_type: None,
    };
    // The text input takes position 0; the array input consumes position 1
    // without declaring a parameter; the structure takes position 2; the
    // primitive declares none.
    assert_eq!(
        into_params(&meta, &sig),
        vec![IntoParam::Text(0), IntoParam::Value(2)]
    );
    assert_eq!(consume_param(&meta, 0, &sig.params[0]), ConsumeParam::Convertible(0));
    assert_eq!(consume_param(&meta, 3, &sig.params[3]), ConsumeParam::ByValue);
    assert_eq!(abi_arg(&meta, &sig.params[0]), AbiArg::IntoAbi);
    assert_eq!(abi_arg(&meta, &sig.params[3]), AbiArg::Direct);
}

#[test]
fn generic_stack_resolves_against_the_top_frame() {
    let mut stack = GenericStack::new();
    stack.push_frame(vec![TypeSig::Element(ElementType::I32)]);
    stack.push_frame(vec![
        TypeSig::Element(ElementType::Text),
        TypeSig::Def(4),
    ]);
    assert!(matches!(stack.resolve(0), TypeSig::Element(ElementType::Text)));
    assert!(matches!(stack.resolve(1), TypeSig::Def(4)));
    stack.pop_frame();
    assert!(matches!(stack.resolve(0), TypeSig::Element(ElementType::I32)));
    stack.pop_frame();
    assert_eq!(stack.depth(), 0);
}

#[test]
fn frames_push_and_pop_in_lifo_order() {
    let mut stack = GenericStack::new();
    let chain = vec![
        vec![TypeSig::Element(ElementType::U8)],
        vec![TypeSig::Element(ElementType::U16)],
    ];
    stack.push_frames(&chain);
    assert_eq!(stack.depth(), 2);
    assert!(matches!(stack.resolve(0), TypeSig::Element(ElementType::U16)));
    stack.pop_frames(2);
    assert_eq!(stack.depth(), 0);
}

#[test]
fn inclusion_membership_is_by_bytes() {
    let inc = Inclusion {
        namespaces: vec![b"A.B".to_vec(), b"C".to_vec()],
    };
    assert!(inc.contains(&b"A.B".to_vec()));
    assert!(!inc.contains(&b"A".to_vec()));
    assert!(!inc.contains(&b"A.B.C".to_vec()));
}
