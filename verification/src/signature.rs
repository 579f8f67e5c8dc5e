use vstd::prelude::*;

use crate::model::{
    bytes_eq, sig_ids_ok, ElementType, Metadata, MethodSig, ParamSig, TypeCategory, TypeSig,
};
use crate::names::{
    event_token_name, foundation_namespace, guid_name, spec_event_token_name,
    spec_foundation_namespace, spec_guid_name, spec_system_namespace, system_namespace,
};

verus! {

/// The representation of one value at the raw binary boundary.
#[derive(Clone, Copy, PartialEq, Eq, Structural, Debug)]
pub enum AbiValue {
    Bool,
    Char,
    I8,
    U8,
    I16,
    U16,
    I32,
    U32,
    I64,
    U64,
    Float32,
    Float64,
    /// Text, object, interface, class, delegate and instantiation values
    /// all cross the boundary as one raw pointer.
    RawPtr,
    /// The shared system GUID structure, passed by value.
    Guid,
    /// The event-token structure, passed as a signed 64-bit value.
    EventToken,
    /// An enum or structure passed by value under its own name.
    Named(usize),
    /// A generic parameter: the concrete type bound to this position of
    /// the active frame declares its own representation.
    DeclaredAbi(u32),
}

/// The layout of one parameter at the raw binary boundary.
#[derive(Clone, Copy, PartialEq, Eq, Structural, Debug)]
pub enum AbiParam {
    /// An input scalar, passed directly.
    Value(AbiValue),
    /// An output scalar: a pointer to one slot the callee fills. The call
    /// wrapper zero-initializes the slot, reads it back on success, and
    /// discards it on a nonzero result code.
    OutPtr(AbiValue),
    /// An input array: an unsigned 32-bit length and a pointer to
    /// constant elements.
    ArrayInput(AbiValue),
    /// A caller-allocated output array: an unsigned 32-bit length and a
    /// pointer to mutable elements.
    ArrayOutput(AbiValue),
    /// A callee-allocated output array: a pointer to the length and a
    /// pointer to the buffer pointer.
    ArrayByRef(AbiValue),
}

/// The consumer-facing kind of a type expression.
#[derive(Clone, Copy, PartialEq, Eq, Structural, Debug)]
pub enum ParamKind {
    Text,
    Object,
    Structure,
    Primitive,
    Enumeration,
    Generic,
}

/// The shape of one consumer-facing parameter.
#[derive(Clone, Copy, PartialEq, Eq, Structural, Debug)]
pub enum ConsumeParam {
    /// An input array: a read-only sequence view.
    SliceIn,
    /// A callee-allocated output array: a growable buffer handle.
    GrowableOut,
    /// A caller-allocated output array: a mutable sequence view.
    SliceOut,
    /// A convertible input (text, object or structure): the caller may
    /// pass anything convertible to the expected type; the value names
    /// the conversion type parameter's position.
    Convertible(usize),
    /// A primitive or enum input, taken by value.
    ByValue,
    /// Any other input, taken by shared reference.
    ByRefIn,
    /// A non-array output, taken by mutable reference.
    OutRef,
}

/// One conversion type parameter of a projected method.
#[derive(Clone, Copy, PartialEq, Eq, Structural, Debug)]
pub enum IntoParam {
    /// Accepts anything convertible to the text handle.
    Text(usize),
    /// Accepts anything convertible to the expected value type.
    Value(usize),
}

/// How one argument is converted when forwarded to the raw call.
#[derive(Clone, Copy, PartialEq, Eq, Structural, Debug)]
pub enum AbiArg {
    /// Input array: its length and a pointer to its elements.
    ArrayInPair,
    /// Callee-allocated array: pointers to its length and buffer slots.
    ArrayByRefPair,
    /// Caller-allocated array: its length and its buffer.
    ArrayOutPair,
    /// Primitive or enum input, passed as is.
    Direct,
    /// Convertible input: converted, then its raw handle taken.
    IntoAbi,
    /// Other input: its raw representation taken.
    RuntimeAbi,
    /// Primitive, enum or structure output, passed as is.
    OutDirect,
    /// Other output: its raw slot pointer taken.
    OutAbi,
}

/// How the wrapper receives a return value from the raw call.
#[derive(Clone, Copy, PartialEq, Eq, Structural, Debug)]
pub enum Receive {
    /// No return value.
    Void,
    /// The zero-initialized slot is passed and read back directly.
    Direct,
    /// A generic return: received through the concrete type's declared
    /// raw representation.
    GenericAbi,
    /// An array return: received as a length slot and a buffer slot.
    ArrayPair,
}

/// The raw representation of a type expression.
pub open spec fn spec_abi_value(meta: Metadata, s: TypeSig) -> AbiValue {
    match s {
        TypeSig::Element(e) => match e {
            ElementType::Bool => AbiValue::Bool,
            ElementType::Char => AbiValue::Char,
            ElementType::I8 => AbiValue::I8,
            ElementType::U8 => AbiValue::U8,
            ElementType::I16 => AbiValue::I16,
            ElementType::U16 => AbiValue::U16,
            ElementType::I32 => AbiValue::I32,
            ElementType::U32 => AbiValue::U32,
            ElementType::I64 => AbiValue::I64,
            ElementType::U64 => AbiValue::U64,
            ElementType::Float32 => AbiValue::Float32,
            ElementType::Float64 => AbiValue::Float64,
            ElementType::Text => AbiValue::RawPtr,
            ElementType::Object => AbiValue::RawPtr,
        },
        TypeSig::Def(id) => {
            let t = meta.types@[id as int];
            if t.name@ == spec_guid_name() && t.namespace@ == spec_system_namespace() {
                AbiValue::Guid
            } else {
                match t.category {
                    TypeCategory::Enum => AbiValue::Named(id),
                    TypeCategory::Struct => {
                        if t.name@ == spec_event_token_name() && t.namespace@
                            == spec_foundation_namespace() {
                            AbiValue::EventToken
                        } else {
                            AbiValue::Named(id)
                        }
                    },
                    _ => AbiValue::RawPtr,
                }
            }
        },
        TypeSig::Instance(_, _) => AbiValue::RawPtr,
        TypeSig::Param(i) => AbiValue::DeclaredAbi(i),
    }
}

/// The raw representation of a type expression.
pub fn abi_value(meta: &Metadata, s: &TypeSig) -> (r: AbiValue)
    requires
        sig_ids_ok(*meta, *s),
    ensures
        r == spec_abi_value(*meta, *s),
{
    match s {
        TypeSig::Element(e) => match e {
            ElementType::Bool => AbiValue::Bool,
            ElementType::Char => AbiValue::Char,
            ElementType::I8 => AbiValue::I8,
            ElementType::U8 => AbiValue::U8,
            ElementType::I16 => AbiValue::I16,
            ElementType::U16 => AbiValue::U16,
            ElementType::I32 => AbiValue::I32,
            ElementType::U32 => AbiValue::U32,
            ElementType::I64 => AbiValue::I64,
            ElementType::U64 => AbiValue::U64,
            ElementType::Float32 => AbiValue::Float32,
            ElementType::Float64 => AbiValue::Float64,
            ElementType::Text => AbiValue::RawPtr,
            ElementType::Object => AbiValue::RawPtr,
        },
        TypeSig::Def(id) => {
            let t = &meta.types[*id];
            let g = guid_name();
            let sysns = system_namespace();
            if bytes_eq(&t.name, &g) && bytes_eq(&t.namespace, &sysns) {
                AbiValue::Guid
            } else {
                match t.category {
                    TypeCategory::Enum => AbiValue::Named(*id),
                    TypeCategory::Struct => {
                        let tok = event_token_name();
                        let fnd = foundation_namespace();
                        if bytes_eq(&t.name, &tok) && bytes_eq(&t.namespace, &fnd) {
                            AbiValue::EventToken
                        } else {
                            AbiValue::Named(*id)
                        }
                    },
                    _ => AbiValue::RawPtr,
                }
            }
        },
        TypeSig::Instance(_, _) => AbiValue::RawPtr,
        TypeSig::Param(i) => AbiValue::DeclaredAbi(*i),
    }
}

/// The raw layout of one parameter: arrays become a length and pointer
/// pair whose mutability follows the direction flags; non-array inputs
/// pass directly; non-array outputs pass a pointer to one slot.
pub open spec fn spec_abi_param(meta: Metadata, p: ParamSig) -> AbiParam {
    let v = spec_abi_value(meta, p.ty);
    if p.array {
        if p.input {
            AbiParam::ArrayInput(v)
        } else if p.by_ref {
            AbiParam::ArrayByRef(v)
        } else {
            AbiParam::ArrayOutput(v)
        }
    } else if p.input {
        AbiParam::Value(v)
    } else {
        AbiParam::OutPtr(v)
    }
}

pub fn abi_param(meta: &Metadata, p: &ParamSig) -> (r: AbiParam)
    requires
        sig_ids_ok(*meta, p.ty),
    ensures
        r == spec_abi_param(*meta, *p),
{
    let v = abi_value(meta, &p.ty);
    if p.array {
        if p.input {
            AbiParam::ArrayInput(v)
        } else if p.by_ref {
            AbiParam::ArrayByRef(v)
        } else {
            AbiParam::ArrayOutput(v)
        }
    } else if p.input {
        AbiParam::Value(v)
    } else {
        AbiParam::OutPtr(v)
    }
}

/// The raw call-signature fragment of a whole method: each parameter in
/// order, then the return value as a trailing output parameter.
pub open spec fn spec_abi_params(meta: Metadata, s: MethodSig) -> Seq<AbiParam> {
    let ps = s.params@.map_values(|p: ParamSig| spec_abi_param(meta, p));
    match s.return_type {
        Option::Some(p) => ps.push(spec_abi_param(meta, p)),
        Option::None => ps,
    }
}

pub fn abi_params(meta: &Metadata, s: &MethodSig) -> (r: Vec<AbiParam>)
    requires
        crate::model::method_sig_ids_ok(*meta, *s),
    ensures
        r@ == spec_abi_params(*meta, *s),
{
    let mut r: Vec<AbiParam> = Vec::new();
    let mut i: usize = 0;
    while i < s.params.len()
        invariant
            i <= s.params@.len(),
            crate::model::method_sig_ids_ok(*meta, *s),
            r@.len() == i,
            forall|j: int| 0 <= j < i ==> r@[j] == spec_abi_param(*meta, s.params@[j]),
        decreases s.params@.len() - i,
    {
        r.push(abi_param(meta, &s.params[i]));
        i += 1;
    }
    match &s.return_type {
        Option::Some(p) => {
            r.push(abi_param(meta, p));
        },
        Option::None => {},
    }
    proof {
        assert(r@ =~= spec_abi_params(*meta, *s));
    }
    r
}

/// The consumer-facing kind of a type expression.
pub open spec fn spec_param_kind(meta: Metadata, s: TypeSig) -> ParamKind {
    match s {
        TypeSig::Element(e) => match e {
            ElementType::Text => ParamKind::Text,
            ElementType::Object => ParamKind::Object,
            _ => ParamKind::Primitive,
        },
        TypeSig::Def(id) => match meta.types@[id as int].category {
            TypeCategory::Enum => ParamKind::Enumeration,
            TypeCategory::Struct => ParamKind::Structure,
            _ => ParamKind::Object,
        },
        TypeSig::Instance(_, _) => ParamKind::Object,
        TypeSig::Param(_) => ParamKind::Generic,
    }
}

pub fn param_kind(meta: &Metadata, s: &TypeSig) -> (r: ParamKind)
    requires
        sig_ids_ok(*meta, *s),
    ensures
        r == spec_param_kind(*meta, *s),
{
    match s {
        TypeSig::Element(e) => match e {
            ElementType::Text => ParamKind::Text,
            ElementType::Object => ParamKind::Object,
            _ => ParamKind::Primitive,
        },
        TypeSig::Def(id) => match meta.types[*id].category {
            TypeCategory::Enum => ParamKind::Enumeration,
            TypeCategory::Struct => ParamKind::Structure,
            _ => ParamKind::Object,
        },
        TypeSig::Instance(_, _) => ParamKind::Object,
        TypeSig::Param(_) => ParamKind::Generic,
    }
}

/// The consumer-facing shape of one parameter at position `count` of the
/// parameter list: arrays become sequence views or a growable buffer;
/// text, object and structure inputs accept anything convertible;
/// primitive and enum inputs pass by value; other inputs by shared
/// reference; outputs by mutable reference.
pub open spec fn spec_consume_param(meta: Metadata, count: int, p: ParamSig) -> ConsumeParam {
    if p.array {
        if p.input {
            ConsumeParam::SliceIn
        } else if p.by_ref {
            ConsumeParam::GrowableOut
        } else {
            ConsumeParam::SliceOut
        }
    } else if p.input {
        match spec_param_kind(meta, p.ty) {
            ParamKind::Text => ConsumeParam::Convertible(count as usize),
            ParamKind::Object => ConsumeParam::Convertible(count as usize),
            ParamKind::Structure => ConsumeParam::Convertible(count as usize),
            ParamKind::Primitive => ConsumeParam::ByValue,
            ParamKind::Enumeration => ConsumeParam::ByValue,
            _ => ConsumeParam::ByRefIn,
        }
    } else {
        ConsumeParam::OutRef
    }
}

pub fn consume_param(meta: &Metadata, count: usize, p: &ParamSig) -> (r: ConsumeParam)
    requires
        sig_ids_ok(*meta, p.ty),
    ensures
        r == spec_consume_param(*meta, count as int, *p),
{
    if p.array {
        if p.input {
            ConsumeParam::SliceIn
        } else if p.by_ref {
            ConsumeParam::GrowableOut
        } else {
            ConsumeParam::SliceOut
        }
    } else if p.input {
        match param_kind(meta, &p.ty) {
            ParamKind::Text => ConsumeParam::Convertible(count),
            ParamKind::Object => ConsumeParam::Convertible(count),
            ParamKind::Structure => ConsumeParam::Convertible(count),
            ParamKind::Primitive => ConsumeParam::ByValue,
            ParamKind::Enumeration => ConsumeParam::ByValue,
            _ => ConsumeParam::ByRefIn,
        }
    } else {
        ConsumeParam::OutRef
    }
}

/// The consumer-facing shapes of a whole parameter list, in order.
pub fn consume_params(meta: &Metadata, s: &MethodSig) -> (r: Vec<ConsumeParam>)
    requires
        crate::model::method_sig_ids_ok(*meta, *s),
    ensures
        r@.len() == s.params@.len(),
        forall|j: int|
            0 <= j < s.params@.len() ==> r@[j] == spec_consume_param(*meta, j, s.params@[j]),
{
    let mut r: Vec<ConsumeParam> = Vec::new();
    let mut i: usize = 0;
    while i < s.params.len()
        invariant
            i <= s.params@.len(),
            crate::model::method_sig_ids_ok(*meta, *s),
            r@.len() == i,
            forall|j: int| 0 <= j < i ==> r@[j] == spec_consume_param(*meta, j, s.params@[j]),
        decreases s.params@.len() - i,
    {
        r.push(consume_param(meta, i, &s.params[i]));
        i += 1;
    }
    r
}

/// The conversion type parameters of a method: one per non-array input of
/// text, object or structure kind, numbered by position among the inputs
/// (array inputs consume a position without declaring one).
pub open spec fn spec_into_params(
    meta: Metadata,
    params: Seq<ParamSig>,
    k: int,
    count: int,
) -> Seq<IntoParam>
    decreases params.len() - k,
{
    if k < 0 || k >= params.len() {
        Seq::<IntoParam>::empty()
    } else {
        let p = params[k];
        if !p.input {
            spec_into_params(meta, params, k + 1, count)
        } else if p.array {
            spec_into_params(meta, params, k + 1, count + 1)
        } else {
            let rest = spec_into_params(meta, params, k + 1, count + 1);
            match spec_param_kind(meta, p.ty) {
                ParamKind::Text => seq![IntoParam::Text(count as usize)] + rest,
                ParamKind::Object => seq![IntoParam::Value(count as usize)] + rest,
                ParamKind::Structure => seq![IntoParam::Value(count as usize)] + rest,
                _ => rest,
            }
        }
    }
}

pub fn into_params(meta: &Metadata, s: &MethodSig) -> (r: Vec<IntoParam>)
    requires
        crate::model::method_sig_ids_ok(*meta, *s),
    ensures
        r@ == spec_into_params(*meta, s.params@, 0, 0),
{
    let mut r: Vec<IntoParam> = Vec::new();
    let mut k: usize = 0;
    let mut count: usize = 0;
    while k < s.params.len()
        invariant
            k <= s.params@.len(),
            count <= k,
            crate::model::method_sig_ids_ok(*meta, *s),
            spec_into_params(*meta, s.params@, 0, 0) == r@ + spec_into_params(
                *meta,
                s.params@,
                k as int,
                count as int,
            ),
        decreases s.params@.len() - k,
    {
        let p = &s.params[k];
        if !p.input {
        } else if p.array {
            count += 1;
        } else {
            match param_kind(meta, &p.ty) {
                ParamKind::Text => {
                    let ghost pre = r@;
                    r.push(IntoParam::Text(count));
                    proof {
                        assert(pre + seq![IntoParam::Text(count as usize)] =~= r@);
                    }
                },
                ParamKind::Object => {
                    let ghost pre = r@;
                    r.push(IntoParam::Value(count));
                    proof {
                        assert(pre + seq![IntoParam::Value(count as usize)] =~= r@);
                    }
                },
                ParamKind::Structure => {
                    let ghost pre = r@;
                    r.push(IntoParam::Value(count));
                    proof {
                        assert(pre + seq![IntoParam::Value(count as usize)] =~= r@);
                    }
                },
                _ => {},
            }
            count += 1;
        }
        k += 1;
        proof {
            assert(r@ + spec_into_params(*meta, s.params@, k as int, count as int) =~= r@
                + spec_into_params(*meta, s.params@, k as int, count as int));
        }
    }
    proof {
        assert(spec_into_params(*meta, s.params@, k as int, count as int) =~= Seq::<
            IntoParam,
        >::empty());
        assert(r@ + Seq::<IntoParam>::empty() =~= r@);
    }
    r
}

/// How one argument is forwarded to the raw call.
pub open spec fn spec_abi_arg(meta: Metadata, p: ParamSig) -> AbiArg {
    if p.array {
        if p.input {
            AbiArg::ArrayInPair
        } else if p.by_ref {
            AbiArg::ArrayByRefPair
        } else {
            AbiArg::ArrayOutPair
        }
    } else if p.input {
        match spec_param_kind(meta, p.ty) {
            ParamKind::Enumeration => AbiArg::Direct,
            ParamKind::Primitive => AbiArg::Direct,
            ParamKind::Text => AbiArg::IntoAbi,
            ParamKind::Object => AbiArg::IntoAbi,
            ParamKind::Structure => AbiArg::IntoAbi,
            _ => AbiArg::RuntimeAbi,
        }
    } else {
        match spec_param_kind(meta, p.ty) {
            ParamKind::Enumeration => AbiArg::OutDirect,
            ParamKind::Primitive => AbiArg::OutDirect,
            ParamKind::Structure => AbiArg::OutDirect,
            _ => AbiArg::OutAbi,
        }
    }
}

pub fn abi_arg(meta: &Metadata, p: &ParamSig) -> (r: AbiArg)
    requires
        sig_ids_ok(*meta, p.ty),
    ensures
        r == spec_abi_arg(*meta, *p),
{
    if p.array {
        if p.input {
            AbiArg::ArrayInPair
        } else if p.by_ref {
            AbiArg::ArrayByRefPair
        } else {
            AbiArg::ArrayOutPair
        }
    } else if p.input {
        match param_kind(meta, &p.ty) {
            ParamKind::Enumeration => AbiArg::Direct,
            ParamKind::Primitive => AbiArg::Direct,
            ParamKind::Text => AbiArg::IntoAbi,
            ParamKind::Object => AbiArg::IntoAbi,
            ParamKind::Structure => AbiArg::IntoAbi,
            _ => AbiArg::RuntimeAbi,
        }
    } else {
        match param_kind(meta, &p.ty) {
            ParamKind::Enumeration => AbiArg::OutDirect,
            ParamKind::Primitive => AbiArg::OutDirect,
            ParamKind::Structure => AbiArg::OutDirect,
            _ => AbiArg::OutAbi,
        }
    }
}

pub fn abi_args(meta: &Metadata, s: &MethodSig) -> (r: Vec<AbiArg>)
    requires
        crate::model::method_sig_ids_ok(*meta, *s),
    ensures
        r@.len() == s.params@.len(),
        forall|j: int| 0 <= j < s.params@.len() ==> r@[j] == spec_abi_arg(*meta, s.params@[j]),
{
    let mut r: Vec<AbiArg> = Vec::new();
    let mut i: usize = 0;
    while i < s.params.len()
        invariant
            i <= s.params@.len(),
            crate::model::method_sig_ids_ok(*meta, *s),
            r@.len() == i,
            forall|j: int| 0 <= j < i ==> r@[j] == spec_abi_arg(*meta, s.params@[j]),
        decreases s.params@.len() - i,
    {
        r.push(abi_arg(meta, &s.params[i]));
        i += 1;
    }
    r
}

/// How the wrapper receives the return value: absent, direct slot,
/// through the concrete type's declared raw representation, or as a
/// length-and-buffer pair for arrays.
pub open spec fn spec_receive(meta: Metadata, s: MethodSig) -> Receive {
    match s.return_type {
        Option::None => Receive::Void,
        Option::Some(p) => {
            if p.array {
                Receive::ArrayPair
            } else {
                match spec_param_kind(meta, p.ty) {
                    ParamKind::Generic => Receive::GenericAbi,
                    _ => Receive::Direct,
                }
            }
        },
    }
}

pub fn receive(meta: &Metadata, s: &MethodSig) -> (r: Receive)
    requires
        crate::model::method_sig_ids_ok(*meta, *s),
    ensures
        r == spec_receive(*meta, *s),
{
    match &s.return_type {
        Option::None => Receive::Void,
        Option::Some(p) => {
            if p.array {
                Receive::ArrayPair
            } else {
                match param_kind(meta, &p.ty) {
                    ParamKind::Generic => Receive::GenericAbi,
                    _ => Receive::Direct,
                }
            }
        },
    }
}

/// The raw image of an input array: its length as an unsigned 32-bit
/// value, and its elements, which the callee sees through a constant
/// pointer.
pub fn marshal_input_array<T>(xs: Vec<T>) -> (r: (u32, Vec<T>))
    requires
        xs@.len() <= u32::MAX as nat,
    ensures
        r.0 as nat == xs@.len(),
        r.1@ == xs@,
{
    let len = xs.len() as u32;
    (len, xs)
}

/// Read an input array back from its raw image as a read-only sequence.
pub fn unmarshal_input_array<T>(len: u32, data: Vec<T>) -> (r: Vec<T>)
    requires
        data@.len() == len as nat,
    ensures
        r@ == data@,
        r@.len() == len as nat,
{
    data
}

} // verus!
