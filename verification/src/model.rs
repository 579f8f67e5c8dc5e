use vstd::prelude::*;

verus! {

broadcast use vstd::seq::axiom_seq_index_decreases;

/// Index of a type record inside a `Metadata` arena.
pub type TypeId = usize;

/// The element types a metadata signature can name directly.
#[derive(Clone, Copy, PartialEq, Eq, Structural, Debug)]
pub enum ElementType {
    Bool,
    Char,
    I8,
    U8,
    I16,
    U16,
    I32,
    U32,
    I64,
    U64,
    Float32,
    Float64,
    Text,
    Object,
}

/// The category a type record declares.
#[derive(Clone, Copy, PartialEq, Eq, Structural, Debug)]
pub enum TypeCategory {
    Interface,
    Class,
    Struct,
    Enum,
    Delegate,
}

/// The accessor category of a metadata method.
#[derive(Clone, Copy, PartialEq, Eq, Structural, Debug)]
pub enum MethodCategory {
    Normal,
    Get,
    Put,
    Add,
    Remove,
}

/// A resolved type expression. A `Param` index is positional into the
/// generic-argument frame active where the expression is read.
#[derive(Debug)]
pub enum TypeSig {
    Element(ElementType),
    Def(TypeId),
    Instance(TypeId, Vec<TypeSig>),
    Param(u32),
}

/// Positional argument of a custom attribute.
#[derive(Debug)]
pub enum AttrArg {
    U8(u8),
    U16(u16),
    U32(u32),
    Text(Vec<u8>),
    Type(TypeId),
}

/// A custom attribute: its simple name and positional arguments.
#[derive(Debug)]
pub struct Attribute {
    pub name: Vec<u8>,
    pub args: Vec<AttrArg>,
}

/// A declared required-interface edge.
#[derive(Debug)]
pub enum EdgeTarget {
    Def(TypeId),
    Spec(TypeId, Vec<TypeSig>),
}

#[derive(Debug)]
pub struct InterfaceEdge {
    pub target: EdgeTarget,
    pub attributes: Vec<Attribute>,
}

/// A parameter (or return value) of a method signature.
#[derive(Debug)]
pub struct ParamSig {
    pub name: Vec<u8>,
    pub ty: TypeSig,
    pub input: bool,
    pub by_ref: bool,
    pub array: bool,
}

#[derive(Debug)]
pub struct MethodSig {
    pub params: Vec<ParamSig>,
    pub return_type: Option<ParamSig>,
}

#[derive(Debug)]
pub struct MethodRecord {
    pub name: Vec<u8>,
    pub category: MethodCategory,
    pub sig: MethodSig,
    pub attributes: Vec<Attribute>,
}

#[derive(Debug)]
pub struct FieldRecord {
    pub name: Vec<u8>,
    pub sig: TypeSig,
    pub has_constant: bool,
}

/// One type record of the metadata arena. Edges refer to other records by
/// index, so the mutually-referential type graph needs no shared ownership.
#[derive(Debug)]
pub struct TypeRecord {
    pub namespace: Vec<u8>,
    pub name: Vec<u8>,
    pub category: TypeCategory,
    pub generics: Vec<Vec<u8>>,
    pub bases: Vec<TypeId>,
    pub interfaces: Vec<InterfaceEdge>,
    pub fields: Vec<FieldRecord>,
    pub methods: Vec<MethodRecord>,
    pub attributes: Vec<Attribute>,
}

/// The read-only metadata view: an arena of type records.
#[derive(Debug)]
pub struct Metadata {
    pub types: Vec<TypeRecord>,
}

/// A type expression is well formed when every record index is inside the
/// arena, every instantiation names a generic definition with the right
/// number of arguments, and every positional index is below `arity`.
pub open spec fn wf_sig(meta: Metadata, s: TypeSig, arity: nat) -> bool
    decreases s,
{
    match s {
        TypeSig::Element(_) => true,
        TypeSig::Def(id) => id < meta.types.len(),
        TypeSig::Instance(id, args) => {
            &&& id < meta.types.len()
            &&& args@.len() == meta.types@[id as int].generics@.len()
            &&& forall|i: int|
                0 <= i < args@.len() ==> wf_sig(meta, #[trigger] args@[i], arity)
        },
        TypeSig::Param(i) => i < arity,
    }
}

pub open spec fn wf_param(meta: Metadata, p: ParamSig, arity: nat) -> bool {
    wf_sig(meta, p.ty, arity)
}

pub open spec fn wf_method_sig(meta: Metadata, s: MethodSig, arity: nat) -> bool {
    &&& forall|i: int| 0 <= i < s.params@.len() ==> wf_param(meta, #[trigger] s.params@[i], arity)
    &&& match s.return_type {
        Option::Some(p) => wf_param(meta, p, arity),
        Option::None => true,
    }
}

pub open spec fn wf_edge(meta: Metadata, e: InterfaceEdge, arity: nat) -> bool {
    match e.target {
        EdgeTarget::Def(id) => id < meta.types.len() && meta.types@[id as int].generics@.len()
            == 0,
        EdgeTarget::Spec(id, args) => {
            &&& id < meta.types.len()
            &&& args@.len() == meta.types@[id as int].generics@.len()
            &&& args@.len() > 0
            &&& forall|i: int|
                0 <= i < args@.len() ==> wf_sig(meta, #[trigger] args@[i], arity)
        },
    }
}

/// Every nested type reference among an attribute's arguments lies inside
/// the arena.
pub open spec fn wf_attr(meta: Metadata, a: Attribute) -> bool {
    forall|j: int|
        0 <= j < a.args@.len() ==> match #[trigger] a.args@[j] {
            AttrArg::Type(id) => id < meta.types.len(),
            _ => true,
        }
}

pub open spec fn wf_record(meta: Metadata, t: TypeRecord) -> bool {
    let arity = t.generics@.len();
    &&& forall|i: int| 0 <= i < t.bases@.len() ==> (#[trigger] t.bases@[i]) < meta.types.len()
    &&& forall|i: int|
        0 <= i < t.interfaces@.len() ==> wf_edge(meta, #[trigger] t.interfaces@[i], arity)
    &&& forall|i: int| 0 <= i < t.fields@.len() ==> wf_sig(meta, (#[trigger] t.fields@[i]).sig, arity)
    &&& forall|i: int|
        0 <= i < t.methods@.len() ==> wf_method_sig(meta, (#[trigger] t.methods@[i]).sig, arity)
    &&& forall|i: int| 0 <= i < t.attributes@.len() ==> wf_attr(meta, #[trigger] t.attributes@[i])
}

pub open spec fn wf_meta(meta: Metadata) -> bool {
    forall|i: int| 0 <= i < meta.types@.len() ==> wf_record(meta, #[trigger] meta.types@[i])
}

/// Compare two byte strings.
pub fn bytes_eq(a: &Vec<u8>, b: &Vec<u8>) -> (r: bool)
    ensures
        r == (a@ == b@),
{
    if a.len() != b.len() {
        return false;
    }
    let mut i: usize = 0;
    while i < a.len()
        invariant
            i <= a.len(),
            a.len() == b.len(),
            forall|j: int| 0 <= j < i ==> a@[j] == b@[j],
        decreases a.len() - i,
    {
        if a[i] != b[i] {
            return false;
        }
        i += 1;
    }
    proof {
        assert(a@ =~= b@);
    }
    true
}

/// Structural equality of type expressions. Spec-level `==` on values that
/// hold a `Vec` is not informative, so contracts compare expressions with
/// this relation instead.
pub open spec fn sig_eq(a: TypeSig, b: TypeSig) -> bool
    decreases a,
{
    match (a, b) {
        (TypeSig::Element(x), TypeSig::Element(y)) => x == y,
        (TypeSig::Def(x), TypeSig::Def(y)) => x == y,
        (TypeSig::Instance(x, xs), TypeSig::Instance(y, ys)) => {
            &&& x == y
            &&& xs@.len() == ys@.len()
            &&& forall|i: int| 0 <= i < xs@.len() ==> sig_eq(#[trigger] xs@[i], ys@[i])
        },
        (TypeSig::Param(x), TypeSig::Param(y)) => x == y,
        _ => false,
    }
}

pub proof fn lemma_sig_eq_trans(a: TypeSig, b: TypeSig, c: TypeSig)
    requires
        sig_eq(a, b),
        sig_eq(b, c),
    ensures
        sig_eq(a, c),
    decreases a,
{
    match (a, b) {
        (TypeSig::Instance(x, xs), TypeSig::Instance(y, ys)) => {
            match c {
                TypeSig::Instance(z, zs) => {
                    assert forall|i: int| 0 <= i < xs@.len() implies sig_eq(
                        #[trigger] xs@[i],
                        zs@[i],
                    ) by {
                        assert(decreases_to!(xs@ => xs@[i]));
                        lemma_sig_eq_trans(xs@[i], ys@[i], zs@[i]);
                    }
                },
                _ => {},
            }
        },
        _ => {},
    }
}

/// Structurally equal expressions agree on well-formedness.
pub proof fn lemma_sig_eq_wf(meta: Metadata, a: TypeSig, b: TypeSig, arity: nat)
    requires
        sig_eq(a, b),
        wf_sig(meta, a, arity),
    ensures
        wf_sig(meta, b, arity),
    decreases a,
{
    match (a, b) {
        (TypeSig::Instance(x, xs), TypeSig::Instance(y, ys)) => {
            assert forall|i: int| 0 <= i < ys@.len() implies wf_sig(
                meta,
                #[trigger] ys@[i],
                arity,
            ) by {
                assert(decreases_to!(xs@ => xs@[i]));
                lemma_sig_eq_wf(meta, xs@[i], ys@[i], arity);
            }
        },
        _ => {},
    }
}

/// Deep copy of a type expression, proved structurally equal to its source.
pub fn copy_sig(s: &TypeSig) -> (r: TypeSig)
    ensures
        sig_eq(*s, r),
    decreases *s,
{
    match s {
        TypeSig::Element(e) => TypeSig::Element(*e),
        TypeSig::Def(id) => TypeSig::Def(*id),
        TypeSig::Instance(id, args) => {
            let mut out: Vec<TypeSig> = Vec::new();
            let mut i: usize = 0;
            while i < args.len()
                invariant
                    i <= args.len(),
                    out@.len() == i,
                    *s == TypeSig::Instance(*id, *args),
                    forall|j: int| 0 <= j < i ==> sig_eq(args@[j], #[trigger] out@[j]),
                decreases args.len() - i,
            {
                proof {
                    assert(decreases_to!(*s => s->Instance_1));
                    assert(decreases_to!(args@ => args@[i as int]));
                    assert(decreases_to!(*s => args@[i as int]));
                }
                out.push(copy_sig(&args[i]));
                i += 1;
            }
            TypeSig::Instance(*id, out)
        },
        TypeSig::Param(i) => TypeSig::Param(*i),
    }
}

/// Copy a byte string.
pub fn copy_bytes(a: &Vec<u8>) -> (r: Vec<u8>)
    ensures
        r@ == a@,
{
    let mut out: Vec<u8> = Vec::new();
    let mut i: usize = 0;
    while i < a.len()
        invariant
            i <= a.len(),
            out@.len() == i,
            forall|j: int| 0 <= j < i ==> out@[j] == a@[j],
        decreases a.len() - i,
    {
        out.push(a[i]);
        i += 1;
    }
    proof {
        assert(out@ =~= a@);
    }
    out
}

/// Every positional index in `s` lies below `n`.
pub open spec fn params_bounded(s: TypeSig, n: nat) -> bool
    decreases s,
{
    match s {
        TypeSig::Element(_) => true,
        TypeSig::Def(_) => true,
        TypeSig::Instance(_, args) => forall|i: int|
            0 <= i < args@.len() ==> params_bounded(#[trigger] args@[i], n),
        TypeSig::Param(i) => (i as nat) < n,
    }
}

/// What substitution computes: `r` is `s` with each positional index
/// replaced by the corresponding entry of the active frame.
pub open spec fn is_substituted(s: TypeSig, frame: Seq<TypeSig>, r: TypeSig) -> bool
    decreases s,
{
    match s {
        TypeSig::Element(e) => r == TypeSig::Element(e),
        TypeSig::Def(id) => r == TypeSig::Def(id),
        TypeSig::Instance(id, args) => match r {
            TypeSig::Instance(rid, rargs) => {
                &&& rid == id
                &&& rargs@.len() == args@.len()
                &&& forall|i: int|
                    0 <= i < args@.len() ==> is_substituted(#[trigger] args@[i], frame, rargs@[i])
            },
            _ => false,
        },
        TypeSig::Param(i) => sig_eq(frame[i as int], r),
    }
}

/// Replace each positional index in `s` by the corresponding entry of the
/// active generic-argument frame.
pub fn substitute(s: &TypeSig, frame: &Vec<TypeSig>) -> (r: TypeSig)
    requires
        params_bounded(*s, frame@.len()),
    ensures
        is_substituted(*s, frame@, r),
    decreases *s,
{
    match s {
        TypeSig::Element(e) => TypeSig::Element(*e),
        TypeSig::Def(id) => TypeSig::Def(*id),
        TypeSig::Instance(id, args) => {
            let mut out: Vec<TypeSig> = Vec::new();
            let mut i: usize = 0;
            while i < args.len()
                invariant
                    i <= args.len(),
                    out@.len() == i,
                    params_bounded(*s, frame@.len()),
                    *s == TypeSig::Instance(*id, *args),
                    forall|j: int|
                        0 <= j < i ==> is_substituted(args@[j], frame@, #[trigger] out@[j]),
                decreases args.len() - i,
            {
                proof {
                    assert(decreases_to!(*s => s->Instance_1));
                    assert(decreases_to!(args@ => args@[i as int]));
                    assert(decreases_to!(*s => args@[i as int]));
                    assert(params_bounded(TypeSig::Instance(*id, *args), frame@.len()));
                    assert(params_bounded(args@[i as int], frame@.len()));
                }
                out.push(substitute(&args[i], frame));
                i += 1;
            }
            TypeSig::Instance(*id, out)
        },
        TypeSig::Param(i) => copy_sig(&frame[*i as usize]),
    }
}

/// Every record index named inside `s` lies inside the arena.
pub open spec fn sig_ids_ok(meta: Metadata, s: TypeSig) -> bool
    decreases s,
{
    match s {
        TypeSig::Element(_) => true,
        TypeSig::Def(id) => id < meta.types.len(),
        TypeSig::Instance(id, args) => id < meta.types.len() && forall|i: int|
            0 <= i < args@.len() ==> sig_ids_ok(meta, #[trigger] args@[i]),
        TypeSig::Param(_) => true,
    }
}

/// Well-formedness at any arity bounds every record index.
pub proof fn lemma_wf_sig_ids(meta: Metadata, s: TypeSig, arity: nat)
    requires
        wf_sig(meta, s, arity),
    ensures
        sig_ids_ok(meta, s),
    decreases s,
{
    match s {
        TypeSig::Instance(id, args) => {
            assert forall|i: int| 0 <= i < args@.len() implies sig_ids_ok(
                meta,
                #[trigger] args@[i],
            ) by {
                assert(decreases_to!(args@ => args@[i]));
                lemma_wf_sig_ids(meta, args@[i], arity);
            }
        },
        _ => {},
    }
}

pub open spec fn method_sig_ids_ok(meta: Metadata, s: MethodSig) -> bool {
    &&& forall|i: int| 0 <= i < s.params@.len() ==> sig_ids_ok(meta, (#[trigger] s.params@[i]).ty)
    &&& match s.return_type {
        Option::Some(p) => sig_ids_ok(meta, p.ty),
        Option::None => true,
    }
}

pub proof fn lemma_wf_method_sig_ids(meta: Metadata, s: MethodSig, arity: nat)
    requires
        wf_method_sig(meta, s, arity),
    ensures
        method_sig_ids_ok(meta, s),
{
    assert forall|i: int| 0 <= i < s.params@.len() implies sig_ids_ok(
        meta,
        (#[trigger] s.params@[i]).ty,
    ) by {
        lemma_wf_sig_ids(meta, s.params@[i].ty, arity);
    }
    match s.return_type {
        Option::Some(p) => {
            lemma_wf_sig_ids(meta, p.ty, arity);
        },
        Option::None => {},
    }
}

/// A bound on positional indices weakens upward.
pub proof fn lemma_params_bounded_mono(s: TypeSig, n: nat, m: nat)
    requires
        params_bounded(s, n),
        n <= m,
    ensures
        params_bounded(s, m),
    decreases s,
{
    match s {
        TypeSig::Instance(id, args) => {
            assert forall|i: int| 0 <= i < args@.len() implies params_bounded(
                #[trigger] args@[i],
                m,
            ) by {
                assert(decreases_to!(args@ => args@[i]));
                lemma_params_bounded_mono(args@[i], n, m);
            }
        },
        _ => {},
    }
}

/// Substitution with a frame of well-formed entries yields a well-formed
/// expression whose positional indices are those of the frame's entries.
pub proof fn lemma_substituted_wf(
    meta: Metadata,
    s: TypeSig,
    frame: Seq<TypeSig>,
    r: TypeSig,
    a: nat,
    b: nat,
)
    requires
        is_substituted(s, frame, r),
        wf_sig(meta, s, a),
        params_bounded(s, frame.len()),
        forall|i: int| 0 <= i < frame.len() ==> wf_sig(meta, #[trigger] frame[i], b),
    ensures
        wf_sig(meta, r, b),
    decreases s,
{
    match s {
        TypeSig::Instance(id, args) => {
            match r {
                TypeSig::Instance(rid, rargs) => {
                    assert forall|i: int| 0 <= i < rargs@.len() implies wf_sig(
                        meta,
                        #[trigger] rargs@[i],
                        b,
                    ) by {
                        assert(decreases_to!(args@ => args@[i]));
                        lemma_substituted_wf(meta, args@[i], frame, rargs@[i], a, b);
                    }
                },
                _ => {},
            }
        },
        TypeSig::Param(i) => {
            lemma_sig_eq_wf(meta, frame[i as int], r, b);
        },
        _ => {},
    }
}

/// The substitution relation respects structural equality of the result.
pub proof fn lemma_substituted_congr(s: TypeSig, frame: Seq<TypeSig>, r1: TypeSig, r2: TypeSig)
    requires
        is_substituted(s, frame, r1),
        sig_eq(r1, r2),
    ensures
        is_substituted(s, frame, r2),
    decreases s,
{
    match s {
        TypeSig::Instance(id, args) => {
            match (r1, r2) {
                (TypeSig::Instance(x, xs), TypeSig::Instance(y, ys)) => {
                    assert forall|i: int| 0 <= i < args@.len() implies is_substituted(
                        #[trigger] args@[i],
                        frame,
                        ys@[i],
                    ) by {
                        assert(decreases_to!(args@ => args@[i]));
                        lemma_substituted_congr(args@[i], frame, xs@[i], ys@[i]);
                    }
                },
                _ => {},
            }
        },
        TypeSig::Param(i) => {
            lemma_sig_eq_trans(frame[i as int], r1, r2);
        },
        _ => {},
    }
}

/// Well-formedness at an arity bounds every positional index by it.
pub proof fn lemma_wf_params_bounded(meta: Metadata, s: TypeSig, arity: nat)
    requires
        wf_sig(meta, s, arity),
    ensures
        params_bounded(s, arity),
    decreases s,
{
    match s {
        TypeSig::Instance(id, args) => {
            assert forall|i: int| 0 <= i < args@.len() implies params_bounded(
                #[trigger] args@[i],
                arity,
            ) by {
                assert(decreases_to!(args@ => args@[i]));
                lemma_wf_params_bounded(meta, args@[i], arity);
            }
        },
        _ => {},
    }
}

} // verus!
