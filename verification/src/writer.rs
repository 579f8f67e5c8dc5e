use vstd::prelude::*;

use crate::compose::{
    all_edges_present, at_most_one_default, cdef, class_interfaces, edge_def, has_walk_def,
    interface_interfaces, is_walk, walk_ok, bad_static_attr, Composed, Role,
};
use crate::error::GenError;
use crate::limits::{limited_method, limited_type, spec_limited_method, spec_limited_sig, Inclusion};
use crate::model::{
    bytes_eq, copy_bytes, lemma_wf_method_sig_ids, lemma_wf_sig_ids, wf_meta, wf_record,
    ElementType, Metadata, TypeCategory, TypeSig,
};
use crate::names::{invoke_name, spec_invoke_name};
use crate::paths::{spec_snake, to_snake};
use crate::project::{methods, names_ok, pviews, spec_methods, Projected};

verus! {

/// A structure's emittable shape: its record and its snake-folded field
/// names, in declaration order.
#[derive(Debug)]
pub struct StructShape {
    pub type_id: usize,
    pub field_names: Vec<Vec<u8>>,
}

/// A structure leaks when some field's type depends on an excluded
/// namespace; such a field cannot be silently elided, so the run aborts.
pub open spec fn struct_leak(meta: Metadata, inc: Inclusion, id: int) -> bool {
    exists|f: int|
        0 <= f < meta.types@[id].fields@.len() && spec_limited_sig(
            meta,
            inc,
            (#[trigger] meta.types@[id].fields@[f]).sig,
        )
}

/// Derive a structure's shape. A field of an excluded type aborts the run
/// rather than emit a structure missing that field.
pub fn struct_shape(meta: &Metadata, inc: &Inclusion, id: usize) -> (r: Result<
    StructShape,
    GenError,
>)
    requires
        wf_meta(*meta),
        id < meta.types@.len(),
    ensures
        (r is Err) <==> struct_leak(*meta, *inc, id as int),
        match r {
            Result::Ok(s) => {
                &&& s.type_id == id
                &&& s.field_names@.len() == meta.types@[id as int].fields@.len()
                &&& forall|f: int|
                    0 <= f < s.field_names@.len() ==> (#[trigger] s.field_names@[f])@
                        == spec_snake(meta.types@[id as int].fields@[f].name@)
            },
            Result::Err(e) => e.is_leak(),
        },
{
    let mut field_names: Vec<Vec<u8>> = Vec::new();
    let field_count = meta.types[id].fields.len();
    let mut f: usize = 0;
    while f < field_count
        invariant
            wf_meta(*meta),
            id < meta.types@.len(),
            field_count == meta.types@[id as int].fields@.len(),
            f <= field_count,
            field_names@.len() == f,
            forall|t: int|
                0 <= t < f ==> !spec_limited_sig(
                    *meta,
                    *inc,
                    (#[trigger] meta.types@[id as int].fields@[t]).sig,
                ),
            forall|t: int|
                0 <= t < f ==> (#[trigger] field_names@[t])@ == spec_snake(
                    meta.types@[id as int].fields@[t].name@,
                ),
        decreases field_count - f,
    {
        proof {
            assert(wf_record(*meta, meta.types@[id as int]));
            lemma_wf_sig_ids(
                *meta,
                meta.types@[id as int].fields@[f as int].sig,
                meta.types@[id as int].generics@.len(),
            );
        }
        let field = &meta.types[id].fields[f];
        if limited_type(meta, inc, &field.sig) {
            let namespace = copy_bytes(&meta.types[id].namespace);
            let name = copy_bytes(&meta.types[id].name);
            return Result::Err(GenError::ExcludedTypeLeak { namespace, name });
        }
        field_names.push(to_snake(&field.name));
        f += 1;
    }
    Result::Ok(StructShape { type_id: id, field_names })
}

/// The underlying representation of an enum.
#[derive(Clone, Copy, PartialEq, Eq, Structural, Debug)]
pub enum EnumRepr {
    I32,
    U32,
}

/// An enum's emittable shape: its representation, its default (first)
/// variant, and its variant names in declaration order.
#[derive(Debug)]
pub struct EnumShape {
    pub type_id: usize,
    pub repr: EnumRepr,
    pub default_variant: Vec<u8>,
    pub variants: Vec<Vec<u8>>,
}

/// An enum record must hold its layout field and at least one variant.
pub open spec fn enum_malformed(meta: Metadata, id: int) -> bool {
    meta.types@[id].fields@.len() < 2
}

/// The names of the fields that carry constants, from position `f` on.
pub open spec fn spec_variant_names(meta: Metadata, id: int, f: int) -> Seq<Seq<u8>>
    decreases meta.types@[id].fields@.len() - f,
{
    if f < 0 || f >= meta.types@[id].fields@.len() {
        Seq::<Seq<u8>>::empty()
    } else {
        let rest = spec_variant_names(meta, id, f + 1);
        if meta.types@[id].fields@[f].has_constant {
            seq![meta.types@[id].fields@[f].name@] + rest
        } else {
            rest
        }
    }
}

/// Derive an enum's shape: the first field names the underlying type
/// (signed or unsigned 32-bit), the second is the default variant, and
/// the fields holding constants are the variants.
pub fn enum_shape(meta: &Metadata, id: usize) -> (r: Result<EnumShape, GenError>)
    requires
        wf_meta(*meta),
        id < meta.types@.len(),
    ensures
        (r is Err) <==> enum_malformed(*meta, id as int),
        match r {
            Result::Ok(s) => {
                &&& s.type_id == id
                &&& s.repr == (if meta.types@[id as int].fields@[0].sig == TypeSig::Element(
                    ElementType::I32,
                ) {
                    EnumRepr::I32
                } else {
                    EnumRepr::U32
                })
                &&& s.default_variant@ == meta.types@[id as int].fields@[1].name@
                &&& crate::paths::seg_views(s.variants@) == spec_variant_names(
                    *meta,
                    id as int,
                    0,
                )
            },
            Result::Err(e) => e.is_unsupported(),
        },
{
    let field_count = meta.types[id].fields.len();
    if field_count < 2 {
        let namespace = copy_bytes(&meta.types[id].namespace);
        let name = copy_bytes(&meta.types[id].name);
        return Result::Err(GenError::UnsupportedShape { namespace, name });
    }
    let repr = match &meta.types[id].fields[0].sig {
        TypeSig::Element(ElementType::I32) => EnumRepr::I32,
        _ => EnumRepr::U32,
    };
    let default_variant = copy_bytes(&meta.types[id].fields[1].name);
    let mut variants: Vec<Vec<u8>> = Vec::new();
    let mut f: usize = 0;
    while f < field_count
        invariant
            wf_meta(*meta),
            id < meta.types@.len(),
            field_count == meta.types@[id as int].fields@.len(),
            f <= field_count,
            spec_variant_names(*meta, id as int, 0) == crate::paths::seg_views(variants@)
                + spec_variant_names(*meta, id as int, f as int),
        decreases field_count - f,
    {
        let field = &meta.types[id].fields[f];
        if field.has_constant {
            let ghost pre = crate::paths::seg_views(variants@);
            variants.push(copy_bytes(&field.name));
            proof {
                assert(crate::paths::seg_views(variants@) =~= pre + seq![
                    meta.types@[id as int].fields@[f as int].name@,
                ]);
                assert(pre + (seq![meta.types@[id as int].fields@[f as int].name@]
                    + spec_variant_names(*meta, id as int, f as int + 1)) =~= (pre + seq![
                    meta.types@[id as int].fields@[f as int].name@,
                ]) + spec_variant_names(*meta, id as int, f as int + 1));
            }
        }
        f += 1;
    }
    proof {
        assert(spec_variant_names(*meta, id as int, f as int) =~= Seq::<Seq<u8>>::empty());
        assert(crate::paths::seg_views(variants@) + Seq::<Seq<u8>>::empty() =~= crate::paths::seg_views(
            variants@,
        ));
    }
    Result::Ok(EnumShape { type_id: id, repr, default_variant, variants })
}

/// The first method named like the delegate's required invoke method.
pub open spec fn spec_first_invoke(meta: Metadata, id: int, k: int) -> Option<int>
    decreases meta.types@[id].methods@.len() - k,
{
    if k < 0 || k >= meta.types@[id].methods@.len() {
        Option::None
    } else if meta.types@[id].methods@[k].name@ == spec_invoke_name() {
        Option::Some(k)
    } else {
        spec_first_invoke(meta, id, k + 1)
    }
}

/// A delegate's emittable shape: which of its methods is the invoke
/// method; its signatures are derived from that method's record.
#[derive(Debug)]
pub struct DelegateShape {
    pub type_id: usize,
    pub invoke: usize,
}

pub open spec fn delegate_missing_invoke(meta: Metadata, id: int) -> bool {
    spec_first_invoke(meta, id, 0) is None
}

/// A delegate leaks when its invoke signature depends on an excluded
/// type: the delegate cannot be elided, since included types may refer to
/// it, so the run aborts with a breadcrumb.
pub open spec fn delegate_leak(meta: Metadata, inc: Inclusion, id: int) -> bool {
    match spec_first_invoke(meta, id, 0) {
        Option::Some(k) => spec_limited_method(meta, inc, meta.types@[id].methods@[k].sig),
        Option::None => false,
    }
}

fn find_invoke(meta: &Metadata, id: usize, k: usize) -> (r: Option<usize>)
    requires
        id < meta.types@.len(),
        k <= meta.types@[id as int].methods@.len(),
    ensures
        match r {
            Option::Some(p) => k <= p < meta.types@[id as int].methods@.len()
                && spec_first_invoke(*meta, id as int, k as int) == Option::Some(p as int),
            Option::None => spec_first_invoke(*meta, id as int, k as int) is None,
        },
    decreases meta.types@[id as int].methods@.len() - k,
{
    if k == meta.types[id].methods.len() {
        return Option::None;
    }
    let name = invoke_name();
    if bytes_eq(&meta.types[id].methods[k].name, &name) {
        return Option::Some(k);
    }
    find_invoke(meta, id, k + 1)
}

/// Derive a delegate's shape: find its invoke method, aborting when it is
/// missing or when its signature depends on an excluded type.
pub fn delegate_shape(meta: &Metadata, inc: &Inclusion, id: usize) -> (r: Result<
    DelegateShape,
    GenError,
>)
    requires
        wf_meta(*meta),
        id < meta.types@.len(),
    ensures
        (r is Err) <==> (delegate_missing_invoke(*meta, id as int) || delegate_leak(
            *meta,
            *inc,
            id as int,
        )),
        match r {
            Result::Ok(s) => {
                &&& s.type_id == id
                &&& spec_first_invoke(*meta, id as int, 0) == Option::Some(s.invoke as int)
                &&& !spec_limited_method(
                    *meta,
                    *inc,
                    meta.types@[id as int].methods@[s.invoke as int].sig,
                )
            },
            Result::Err(e) => if delegate_missing_invoke(*meta, id as int) {
                e.is_unsupported()
            } else {
                e.is_leak()
            },
        },
{
    let invoke = match find_invoke(meta, id, 0) {
        Option::Some(k) => k,
        Option::None => {
            let namespace = copy_bytes(&meta.types[id].namespace);
            let name = copy_bytes(&meta.types[id].name);
            return Result::Err(GenError::UnsupportedShape { namespace, name });
        },
    };
    proof {
        assert(wf_record(*meta, meta.types@[id as int]));
        lemma_wf_method_sig_ids(
            *meta,
            meta.types@[id as int].methods@[invoke as int].sig,
            meta.types@[id as int].generics@.len(),
        );
    }
    if limited_method(meta, inc, &meta.types[id].methods[invoke].sig) {
        let namespace = copy_bytes(&meta.types[id].namespace);
        let name = copy_bytes(&meta.types[id].name);
        return Result::Err(GenError::ExcludedTypeLeak { namespace, name });
    }
    Result::Ok(DelegateShape { type_id: id, invoke })
}

/// An interface leaks when any of its own methods — the primary binary
/// surface — has a signature depending on an excluded type: a primary
/// method has no conversion escape hatch, so the run aborts.
pub open spec fn interface_leak(meta: Metadata, inc: Inclusion, id: int) -> bool {
    exists|k: int|
        0 <= k < meta.types@[id].methods@.len() && spec_limited_method(
            meta,
            inc,
            (#[trigger] meta.types@[id].methods@[k]).sig,
        )
}

/// An interface's emittable shape: its composed interface list, primary
/// entry first, and its projected method surface.
#[derive(Debug)]
pub struct InterfaceShape {
    pub type_id: usize,
    pub composed: Vec<Composed>,
    pub methods: Vec<Projected>,
}

/// Derive an interface's shape, aborting when a primary-surface method
/// depends on an excluded type.
pub fn interface_shape(meta: &Metadata, inc: &Inclusion, id: usize) -> (r: Result<
    InterfaceShape,
    GenError,
>)
    requires
        wf_meta(*meta),
        names_ok(*meta),
        id < meta.types@.len(),
        meta.types@[id as int].generics@.len() <= u32::MAX as usize,
    ensures
        (r is Err) <==> interface_leak(*meta, *inc, id as int),
        match r {
            Result::Ok(s) => {
                &&& s.type_id == id
                &&& s.composed@.len() >= 1
                &&& (s.composed@[0].role == Role::PrimaryAbi)
                &&& (s.composed@[0].definition == Option::Some(id))
                &&& walk_ok(
                    *meta,
                    *inc,
                    s.composed@.skip(1),
                    meta.types@[id as int].generics@.len() as nat,
                )
                &&& forall|i: int|
                    1 <= i < s.composed@.len() ==> all_edges_present(
                        *meta,
                        cdef(#[trigger] s.composed@[i]),
                        s.composed@,
                    )
                &&& forall|k: int|
                    0 <= k < meta.types@[id as int].interfaces@.len() ==> has_walk_def(
                        s.composed@,
                        edge_def(#[trigger] meta.types@[id as int].interfaces@[k]),
                    )
                &&& pviews(s.methods@) == spec_methods(*meta, *inc, s.composed@)
            },
            Result::Err(e) => e.is_leak(),
        },
{
    let method_count = meta.types[id].methods.len();
    let mut k: usize = 0;
    while k < method_count
        invariant
            wf_meta(*meta),
            id < meta.types@.len(),
            method_count == meta.types@[id as int].methods@.len(),
            k <= method_count,
            forall|t: int|
                0 <= t < k ==> !spec_limited_method(
                    *meta,
                    *inc,
                    (#[trigger] meta.types@[id as int].methods@[t]).sig,
                ),
        decreases method_count - k,
    {
        proof {
            assert(wf_record(*meta, meta.types@[id as int]));
            lemma_wf_method_sig_ids(
                *meta,
                meta.types@[id as int].methods@[k as int].sig,
                meta.types@[id as int].generics@.len(),
            );
        }
        if limited_method(meta, inc, &meta.types[id].methods[k].sig) {
            let namespace = copy_bytes(&meta.types[id].namespace);
            let name = copy_bytes(&meta.types[id].name);
            return Result::Err(GenError::ExcludedTypeLeak { namespace, name });
        }
        k += 1;
    }
    let composed = interface_interfaces(meta, inc, id);
    proof {
        assert forall|i: int|
            0 <= i < composed@.len() implies match (#[trigger] composed@[i]).definition {
            Option::Some(d) => d < meta.types@.len(),
            Option::None => composed@[i].role == Role::DefaultActivation,
        } by {
            if i >= 1 {
                assert(composed@.skip(1)[i - 1] == composed@[i]);
            }
        }
    }
    let surface = methods(meta, inc, &composed);
    Result::Ok(InterfaceShape { type_id: id, composed, methods: surface })
}

/// A class's emittable shape: its composed interface list, its projected
/// method surface, and which entry (if any) is the default instance the
/// class forwards unqualified calls to.
#[derive(Debug)]
pub struct ClassShape {
    pub type_id: usize,
    pub composed: Vec<Composed>,
    pub methods: Vec<Projected>,
    pub default_interface: Option<usize>,
}

/// Derive a class's shape.
pub fn class_shape(meta: &Metadata, inc: &Inclusion, id: usize) -> (r: Result<
    ClassShape,
    GenError,
>)
    requires
        wf_meta(*meta),
        names_ok(*meta),
        id < meta.types@.len(),
        meta.types@[id as int].generics@.len() == 0,
        forall|b: int|
            0 <= b < meta.types@[id as int].bases@.len() ==> meta.types@[(#[trigger] meta.types@[
                id as int
            ].bases@[b]) as int].generics@.len() == 0,
    ensures
        (r is Err) <==> bad_static_attr(*meta, id as int),
        match r {
            Result::Ok(s) => {
                &&& s.type_id == id
                &&& at_most_one_default(s.composed@)
                &&& forall|i: int, j: int|
                    0 <= i < j < s.composed@.len() && is_walk(#[trigger] s.composed@[i]) && is_walk(
                        #[trigger] s.composed@[j],
                    ) ==> cdef(s.composed@[i]) != cdef(s.composed@[j])
                &&& forall|i: int|
                    0 <= i < s.composed@.len() && is_walk(#[trigger] s.composed@[i])
                        ==> all_edges_present(*meta, cdef(s.composed@[i]), s.composed@)
                &&& forall|k: int|
                    0 <= k < meta.types@[id as int].interfaces@.len() ==> has_walk_def(
                        s.composed@,
                        edge_def(#[trigger] meta.types@[id as int].interfaces@[k]),
                    )
                &&& forall|i: int|
                    0 <= i < s.composed@.len() && (#[trigger] s.composed@[i]).role
                        == Role::DefaultInstance ==> exists|k: int|
                        0 <= k < meta.types@[id as int].interfaces@.len()
                            && crate::compose::spec_has_attr(
                            (#[trigger] meta.types@[id as int].interfaces@[k]).attributes@,
                            crate::names::spec_default_attribute(),
                        ) && edge_def(meta.types@[id as int].interfaces@[k]) == cdef(
                            s.composed@[i],
                        )
                &&& ({
                    let facs = crate::compose::spec_factories(*meta, *inc, id as int, 0);
                    &&& s.composed@.len() >= facs.len()
                    &&& crate::compose::fviews(
                        s.composed@.skip(s.composed@.len() - facs.len()),
                    ) == facs
                })
                &&& pviews(s.methods@) == spec_methods(*meta, *inc, s.composed@)
                &&& (match s.default_interface {
                    Option::Some(i) => i < s.composed@.len() && s.composed@[i as int].role
                        == Role::DefaultInstance && (forall|j: int|
                        0 <= j < i ==> (#[trigger] s.composed@[j]).role != Role::DefaultInstance),
                    Option::None => forall|j: int|
                        0 <= j < s.composed@.len() ==> (#[trigger] s.composed@[j]).role
                            != Role::DefaultInstance,
                })
            },
            Result::Err(e) => e.is_unsupported(),
        },
{
    let composed = match class_interfaces(meta, inc, id) {
        Result::Ok(c) => c,
        Result::Err(e) => {
            return Result::Err(e);
        },
    };
    proof {
        assert forall|i: int|
            0 <= i < composed@.len() implies match (#[trigger] composed@[i]).definition {
            Option::Some(d) => d < meta.types@.len(),
            Option::None => composed@[i].role == Role::DefaultActivation,
        } by {
            if is_walk(composed@[i]) {
            }
        }
    }
    let surface = methods(meta, inc, &composed);
    let mut default_interface: Option<usize> = Option::None;
    let mut i: usize = 0;
    while i < composed.len()
        invariant
            i <= composed@.len(),
            match default_interface {
                Option::Some(d) => d < i && composed@[d as int].role == Role::DefaultInstance
                    && (forall|j: int|
                    0 <= j < d ==> (#[trigger] composed@[j]).role != Role::DefaultInstance),
                Option::None => forall|j: int|
                    0 <= j < i ==> (#[trigger] composed@[j]).role != Role::DefaultInstance,
            },
        decreases composed@.len() - i,
    {
        let keep_scanning = match default_interface {
            Option::None => true,
            Option::Some(_) => false,
        };
        if keep_scanning {
            match composed[i].role {
                Role::DefaultInstance => {
                    default_interface = Option::Some(i);
                },
                _ => {},
            }
        }
        i += 1;
    }
    Result::Ok(ClassShape { type_id: id, composed, methods: surface, default_interface })
}

/// An emittable type description.
#[derive(Debug)]
pub enum TypeShape {
    Interface(InterfaceShape),
    Class(ClassShape),
    Struct(StructShape),
    Enum(EnumShape),
    Delegate(DelegateShape),
}

/// The record a shape describes.
pub open spec fn shape_id(s: TypeShape) -> int {
    match s {
        TypeShape::Interface(x) => x.type_id as int,
        TypeShape::Class(x) => x.type_id as int,
        TypeShape::Struct(x) => x.type_id as int,
        TypeShape::Enum(x) => x.type_id as int,
        TypeShape::Delegate(x) => x.type_id as int,
    }
}

/// The shape variant expected for a record's category.
pub open spec fn shape_matches_category(meta: Metadata, s: TypeShape) -> bool {
    match s {
        TypeShape::Interface(x) => meta.types@[x.type_id as int].category == TypeCategory::Interface,
        TypeShape::Class(x) => meta.types@[x.type_id as int].category == TypeCategory::Class,
        TypeShape::Struct(x) => meta.types@[x.type_id as int].category == TypeCategory::Struct,
        TypeShape::Enum(x) => meta.types@[x.type_id as int].category == TypeCategory::Enum,
        TypeShape::Delegate(x) => meta.types@[x.type_id as int].category == TypeCategory::Delegate,
    }
}

/// The one fatal condition each category can meet.
pub open spec fn spec_type_fails(meta: Metadata, inc: Inclusion, id: int) -> bool {
    match meta.types@[id].category {
        TypeCategory::Interface => interface_leak(meta, inc, id),
        TypeCategory::Class => bad_static_attr(meta, id),
        TypeCategory::Struct => struct_leak(meta, inc, id),
        TypeCategory::Enum => enum_malformed(meta, id),
        TypeCategory::Delegate => delegate_missing_invoke(meta, id) || delegate_leak(
            meta,
            inc,
            id,
        ),
    }
}

/// Structural bounds the generation roots must meet: classes and their
/// bases are not generic, and no arity exceeds the positional index
/// range.
pub open spec fn roots_ok(meta: Metadata) -> bool {
    forall|t: int|
        0 <= t < meta.types@.len() ==> {
            let rec = #[trigger] meta.types@[t];
            &&& rec.generics@.len() <= u32::MAX as usize
            &&& (rec.category == TypeCategory::Class ==> rec.generics@.len() == 0 && (forall|
                b: int,
            |
                0 <= b < rec.bases@.len() ==> meta.types@[(#[trigger] rec.bases@[b]) as int].generics@.len()
                    == 0))
        }
}

/// Derive the emittable shape of one record, dispatching on its category.
pub fn type_shape(meta: &Metadata, inc: &Inclusion, id: usize) -> (r: Result<TypeShape, GenError>)
    requires
        wf_meta(*meta),
        names_ok(*meta),
        roots_ok(*meta),
        id < meta.types@.len(),
    ensures
        (r is Err) <==> spec_type_fails(*meta, *inc, id as int),
        match r {
            Result::Ok(s) => shape_id(s) == id && shape_matches_category(*meta, s),
            Result::Err(_) => true,
        },
{
    match meta.types[id].category {
        TypeCategory::Interface => match interface_shape(meta, inc, id) {
            Result::Ok(s) => Result::Ok(TypeShape::Interface(s)),
            Result::Err(e) => Result::Err(e),
        },
        TypeCategory::Class => match class_shape(meta, inc, id) {
            Result::Ok(s) => Result::Ok(TypeShape::Class(s)),
            Result::Err(e) => Result::Err(e),
        },
        TypeCategory::Struct => match struct_shape(meta, inc, id) {
            Result::Ok(s) => Result::Ok(TypeShape::Struct(s)),
            Result::Err(e) => Result::Err(e),
        },
        TypeCategory::Enum => match enum_shape(meta, id) {
            Result::Ok(s) => Result::Ok(TypeShape::Enum(s)),
            Result::Err(e) => Result::Err(e),
        },
        TypeCategory::Delegate => match delegate_shape(meta, inc, id) {
            Result::Ok(s) => Result::Ok(TypeShape::Delegate(s)),
            Result::Err(e) => Result::Err(e),
        },
    }
}

/// What a generated namespace's shape list guarantees: no record of the
/// namespace meets its fatal condition, every shape belongs to the
/// namespace with the variant its record's category calls for, the list
/// is strictly ordered by record identity, and every record of the
/// namespace has its shape.
pub open spec fn namespace_shapes_ok(
    meta: Metadata,
    inc: Inclusion,
    ns: Seq<u8>,
    shapes: Seq<TypeShape>,
) -> bool {
    &&& forall|t: int|
        0 <= t < meta.types@.len() && (#[trigger] meta.types@[t]).namespace@ == ns
            ==> !spec_type_fails(meta, inc, t)
    &&& forall|j: int|
        0 <= j < shapes.len() ==> 0 <= shape_id(#[trigger] shapes[j]) < meta.types@.len()
            && meta.types@[shape_id(shapes[j])].namespace@ == ns && shape_matches_category(
            meta,
            shapes[j],
        )
    &&& forall|j: int, k: int|
        0 <= j < k < shapes.len() ==> shape_id(#[trigger] shapes[j]) < shape_id(
            #[trigger] shapes[k],
        )
    &&& forall|t: int|
        0 <= t < meta.types@.len() && (#[trigger] meta.types@[t]).namespace@ == ns
            ==> exists|j: int| 0 <= j < shapes.len() && shape_id(#[trigger] shapes[j]) == t
}

/// The shapes of one generated namespace, in arena order.
#[derive(Debug)]
pub struct NamespaceShapes {
    pub namespace: Vec<u8>,
    pub shapes: Vec<TypeShape>,
}

/// The generator: the metadata view and the namespace-inclusion set,
/// shared read-only across every namespace's generation.
#[derive(Debug)]
pub struct Writer {
    pub meta: Metadata,
    pub limits: Inclusion,
}

impl Writer {
    pub fn new(meta: Metadata, limits: Inclusion) -> (r: Writer)
        ensures
            r.meta == meta,
            r.limits == limits,
    {
        Writer { meta, limits }
    }

    /// Derive the shapes of every record of one namespace, in arena
    /// order, stopping at the first fatal condition: generation is
    /// all-or-nothing per run.
    pub fn write_namespace(&self, namespace: &Vec<u8>) -> (r: Result<Vec<TypeShape>, GenError>)
        requires
            wf_meta(self.meta),
            names_ok(self.meta),
            roots_ok(self.meta),
        ensures
            (r is Err) ==> exists|t: int|
                0 <= t < self.meta.types@.len() && (#[trigger] self.meta.types@[t]).namespace@
                    == namespace@ && spec_type_fails(self.meta, self.limits, t),
            match r {
                Result::Ok(v) => namespace_shapes_ok(self.meta, self.limits, namespace@, v@),
                Result::Err(_) => true,
            },
    {
        let mut shapes: Vec<TypeShape> = Vec::new();
        let n = self.meta.types.len();
        let mut t: usize = 0;
        while t < n
            invariant
                wf_meta(self.meta),
                names_ok(self.meta),
                roots_ok(self.meta),
                n == self.meta.types@.len(),
                t <= n,
                forall|u: int|
                    0 <= u < t && (#[trigger] self.meta.types@[u]).namespace@ == namespace@
                        ==> !spec_type_fails(self.meta, self.limits, u),
                forall|j: int|
                    0 <= j < shapes@.len() ==> 0 <= shape_id(#[trigger] shapes@[j]) < t
                        && self.meta.types@[shape_id(shapes@[j])].namespace@ == namespace@
                        && shape_matches_category(self.meta, shapes@[j]),
                forall|j: int, k: int|
                    0 <= j < k < shapes@.len() ==> shape_id(#[trigger] shapes@[j]) < shape_id(
                        #[trigger] shapes@[k],
                    ),
                forall|u: int|
                    0 <= u < t && (#[trigger] self.meta.types@[u]).namespace@ == namespace@
                        ==> exists|j: int| 0 <= j < shapes@.len() && shape_id(#[trigger] shapes@[j])
                        == u,
            decreases n - t,
        {
            if bytes_eq(&self.meta.types[t].namespace, namespace) {
                match type_shape(&self.meta, &self.limits, t) {
                    Result::Ok(s) => {
                        let ghost pre = shapes@;
                        let ghost pushed = s;
                        shapes.push(s);
                        proof {
                            assert forall|u: int|
                                0 <= u < t + 1 && (#[trigger] self.meta.types@[u]).namespace@
                                    == namespace@ implies exists|j: int|
                                0 <= j < shapes@.len() && shape_id(#[trigger] shapes@[j]) == u by {
                                if u < t {
                                    let j = choose|j: int|
                                        0 <= j < pre.len() && shape_id(#[trigger] pre[j]) == u;
                                    assert(shapes@[j] == pre[j]);
                                } else {
                                    assert(shapes@[shapes@.len() - 1] == pushed);
                                }
                            }
                        }
                    },
                    Result::Err(e) => {
                        return Result::Err(e);
                    },
                }
            }
            t += 1;
        }
        Result::Ok(shapes)
    }

    /// Generate every namespace of the inclusion set, front to back,
    /// aborting the whole run at the first fatal condition. The set comes
    /// in strictly ascending order, so the aggregate output is one module
    /// per namespace, sorted by identifier — byte-identical however the
    /// per-namespace work is scheduled.
    pub fn write(&self) -> (r: Result<Vec<NamespaceShapes>, GenError>)
        requires
            wf_meta(self.meta),
            names_ok(self.meta),
            roots_ok(self.meta),
            self.limits.ordered(),
        ensures
            (r is Err) ==> exists|t: int|
                0 <= t < self.meta.types@.len() && spec_type_fails(self.meta, self.limits, t),
            match r {
                Result::Ok(v) => {
                    &&& v@.len() == self.limits.namespaces@.len()
                    &&& forall|k: int|
                        0 <= k < v@.len() ==> (#[trigger] v@[k]).namespace@
                            == self.limits.namespaces@[k]@
                    &&& forall|k: int|
                        0 <= k < v@.len() ==> namespace_shapes_ok(
                            self.meta,
                            self.limits,
                            (#[trigger] v@[k]).namespace@,
                            v@[k].shapes@,
                        )
                },
                Result::Err(_) => true,
            },
    {
        let mut out: Vec<NamespaceShapes> = Vec::new();
        let mut k: usize = 0;
        while k < self.limits.namespaces.len()
            invariant
                wf_meta(self.meta),
                names_ok(self.meta),
                roots_ok(self.meta),
                k <= self.limits.namespaces@.len(),
                out@.len() == k,
                forall|j: int|
                    0 <= j < k ==> (#[trigger] out@[j]).namespace@
                        == self.limits.namespaces@[j]@,
                forall|j: int|
                    0 <= j < k ==> namespace_shapes_ok(
                        self.meta,
                        self.limits,
                        (#[trigger] out@[j]).namespace@,
                        out@[j].shapes@,
                    ),
            decreases self.limits.namespaces@.len() - k,
        {
            let ns = copy_bytes(&self.limits.namespaces[k]);
            match self.write_namespace(&ns) {
                Result::Ok(shapes) => {
                    out.push(NamespaceShapes { namespace: ns, shapes });
                },
                Result::Err(e) => {
                    return Result::Err(e);
                },
            }
            k += 1;
        }
        Result::Ok(out)
    }
}

/// The composed entries a conversion is generated for: the included
/// default- and required-instance interfaces, in list order.
pub fn conversion_targets(composed: &Vec<Composed>) -> (r: Vec<usize>)
    ensures
        forall|j: int, k: int| 0 <= j < k < r@.len() ==> r@[j] < r@[k],
        forall|j: int|
            0 <= j < r@.len() ==> (#[trigger] r@[j]) < composed@.len() && !composed@[r@[j] as int].excluded
                && is_walk(composed@[r@[j] as int]),
        forall|i: int|
            0 <= i < composed@.len() && !(#[trigger] composed@[i]).excluded && is_walk(
                composed@[i],
            ) ==> exists|j: int| 0 <= j < r@.len() && (#[trigger] r@[j]) == i,
{
    let mut r: Vec<usize> = Vec::new();
    let mut i: usize = 0;
    while i < composed.len()
        invariant
            i <= composed@.len(),
            forall|j: int, k: int| 0 <= j < k < r@.len() ==> r@[j] < r@[k],
            forall|j: int|
                0 <= j < r@.len() ==> (#[trigger] r@[j]) < i && !composed@[r@[j] as int].excluded
                    && is_walk(composed@[r@[j] as int]),
            forall|u: int|
                0 <= u < i && !(#[trigger] composed@[u]).excluded && is_walk(composed@[u])
                    ==> exists|j: int| 0 <= j < r@.len() && (#[trigger] r@[j]) == u,
        decreases composed@.len() - i,
    {
        let entry = &composed[i];
        let wanted = match entry.role {
            Role::DefaultInstance => true,
            Role::RequiredInstance => true,
            _ => false,
        };
        if wanted && !entry.excluded {
            let ghost pre = r@;
            r.push(i);
            proof {
                assert forall|u: int|
                    0 <= u < i + 1 && !(#[trigger] composed@[u]).excluded && is_walk(
                        composed@[u],
                    ) implies exists|j: int| 0 <= j < r@.len() && (#[trigger] r@[j]) == u by {
                    if u < i {
                        let j = choose|j: int| 0 <= j < pre.len() && (#[trigger] pre[j]) == u;
                        assert(r@[j] == pre[j]);
                    } else {
                        assert(r@[r@.len() - 1] == i);
                    }
                }
            }
        }
        i += 1;
    }
    r
}

/// The included bases of a class, from position `b` on: those whose
/// namespace lies inside the inclusion set, in declaration order.
pub open spec fn spec_base_targets(meta: Metadata, inc: Inclusion, class: int, b: int) -> Seq<
    usize,
>
    decreases meta.types@[class].bases@.len() - b,
{
    if b < 0 || b >= meta.types@[class].bases@.len() {
        Seq::<usize>::empty()
    } else {
        let rest = spec_base_targets(meta, inc, class, b + 1);
        if !crate::limits::spec_limited_def(meta, inc, meta.types@[class].bases@[b]) {
            seq![meta.types@[class].bases@[b]] + rest
        } else {
            rest
        }
    }
}

/// The base classes a conversion is generated for: exactly the bases
/// whose namespace is included, one entry per such base, in declaration
/// order; excluded bases are skipped entirely.
pub fn base_conversion_targets(meta: &Metadata, inc: &Inclusion, class: usize) -> (r: Vec<usize>)
    requires
        wf_meta(*meta),
        class < meta.types@.len(),
    ensures
        r@ == spec_base_targets(*meta, *inc, class as int, 0),
        forall|j: int| 0 <= j < r@.len() ==> (#[trigger] r@[j]) < meta.types@.len(),
{
    let mut r: Vec<usize> = Vec::new();
    let base_count = meta.types[class].bases.len();
    let mut b: usize = 0;
    proof {
        assert(wf_record(*meta, meta.types@[class as int]));
    }
    while b < base_count
        invariant
            wf_meta(*meta),
            class < meta.types@.len(),
            base_count == meta.types@[class as int].bases@.len(),
            b <= base_count,
            forall|i: int|
                0 <= i < meta.types@[class as int].bases@.len() ==> (#[trigger] meta.types@[
                    class as int
                ].bases@[i]) < meta.types@.len(),
            forall|j: int| 0 <= j < r@.len() ==> (#[trigger] r@[j]) < meta.types@.len(),
            spec_base_targets(*meta, *inc, class as int, 0) == r@ + spec_base_targets(
                *meta,
                *inc,
                class as int,
                b as int,
            ),
        decreases base_count - b,
    {
        let base = meta.types[class].bases[b];
        if !crate::limits::limited_type_def(meta, inc, base) {
            let ghost pre = r@;
            r.push(base);
            proof {
                assert(pre + seq![base] =~= r@);
                assert(pre + (seq![base] + spec_base_targets(
                    *meta,
                    *inc,
                    class as int,
                    b as int + 1,
                )) =~= (pre + seq![base]) + spec_base_targets(
                    *meta,
                    *inc,
                    class as int,
                    b as int + 1,
                ));
            }
        }
        b += 1;
    }
    proof {
        assert(spec_base_targets(*meta, *inc, class as int, b as int) =~= Seq::<usize>::empty());
        assert(r@ + Seq::<usize>::empty() =~= r@);
    }
    r
}

/// The first attribute of the list with the given name.
pub open spec fn spec_first_attr(attrs: Seq<crate::model::Attribute>, name: Seq<u8>, j: int) -> Option<
    int,
>
    decreases attrs.len() - j,
{
    if j < 0 || j >= attrs.len() {
        Option::None
    } else if attrs[j].name@ == name {
        Option::Some(j)
    } else {
        spec_first_attr(attrs, name, j + 1)
    }
}

/// A numeric attribute argument widened to 32 bits; text and type
/// arguments have no numeric value.
pub open spec fn spec_numeric_arg(a: crate::model::AttrArg) -> Option<u32> {
    match a {
        crate::model::AttrArg::U8(v) => Option::Some(v as u32),
        crate::model::AttrArg::U16(v) => Option::Some(v as u32),
        crate::model::AttrArg::U32(v) => Option::Some(v),
        _ => Option::None,
    }
}

pub open spec fn spec_guid_vals(args: Seq<crate::model::AttrArg>, j: int) -> Seq<u32>
    decreases args.len() - j,
{
    if j < 0 || j >= args.len() {
        Seq::<u32>::empty()
    } else {
        match spec_numeric_arg(args[j]) {
            Option::Some(v) => seq![v] + spec_guid_vals(args, j + 1),
            Option::None => spec_guid_vals(args, j + 1),
        }
    }
}

/// The GUID marker is present and every positional argument is numeric.
pub open spec fn guid_attr_ok(meta: Metadata, id: int) -> bool {
    match spec_first_attr(meta.types@[id].attributes@, crate::names::spec_guid_attribute(), 0) {
        Option::Some(j) => forall|k: int|
            0 <= k < meta.types@[id].attributes@[j].args@.len() ==> spec_numeric_arg(
                #[trigger] meta.types@[id].attributes@[j].args@[k],
            ) is Some,
        Option::None => false,
    }
}

fn find_attr_index(attrs: &Vec<crate::model::Attribute>, name: &Vec<u8>, j: usize) -> (r: Option<
    usize,
>)
    requires
        j <= attrs@.len(),
    ensures
        match r {
            Option::Some(p) => j <= p < attrs@.len() && spec_first_attr(attrs@, name@, j as int)
                == Option::Some(p as int),
            Option::None => spec_first_attr(attrs@, name@, j as int) is None,
        },
    decreases attrs@.len() - j,
{
    if j == attrs.len() {
        return Option::None;
    }
    if bytes_eq(&attrs[j].name, name) {
        return Option::Some(j);
    }
    find_attr_index(attrs, name, j + 1)
}

/// Read a type's GUID from its marker attribute: every positional
/// argument, widened to 32 bits, in order. A missing marker or an
/// argument of an unexpected kind is malformed metadata and aborts the
/// run.
pub fn guid_parts(meta: &Metadata, id: usize) -> (r: Result<Vec<u32>, GenError>)
    requires
        wf_meta(*meta),
        id < meta.types@.len(),
    ensures
        (r is Ok) <==> guid_attr_ok(*meta, id as int),
        match r {
            Result::Ok(vals) => match spec_first_attr(
                meta.types@[id as int].attributes@,
                crate::names::spec_guid_attribute(),
                0,
            ) {
                Option::Some(j) => vals@ == spec_guid_vals(
                    meta.types@[id as int].attributes@[j].args@,
                    0,
                ),
                Option::None => false,
            },
            Result::Err(e) => e.is_unsupported(),
        },
{
    let name = crate::names::guid_attribute();
    let j = match find_attr_index(&meta.types[id].attributes, &name, 0) {
        Option::Some(j) => j,
        Option::None => {
            let namespace = copy_bytes(&meta.types[id].namespace);
            let name = copy_bytes(&meta.types[id].name);
            return Result::Err(GenError::UnsupportedShape { namespace, name });
        },
    };
    let args = &meta.types[id].attributes[j].args;
    let mut vals: Vec<u32> = Vec::new();
    let mut k: usize = 0;
    while k < args.len()
        invariant
            id < meta.types@.len(),
            j < meta.types@[id as int].attributes@.len(),
            spec_first_attr(
                meta.types@[id as int].attributes@,
                crate::names::spec_guid_attribute(),
                0,
            ) == Option::Some(j as int),
            args@ == meta.types@[id as int].attributes@[j as int].args@,
            k <= args@.len(),
            forall|t: int|
                0 <= t < k ==> spec_numeric_arg(#[trigger] args@[t]) is Some,
            spec_guid_vals(args@, 0) == vals@ + spec_guid_vals(args@, k as int),
        decreases args@.len() - k,
    {
        let ghost pre = vals@;
        let v: u32 = match &args[k] {
            crate::model::AttrArg::U8(v) => *v as u32,
            crate::model::AttrArg::U16(v) => *v as u32,
            crate::model::AttrArg::U32(v) => *v,
            _ => {
                proof {
                    assert(spec_numeric_arg(args@[k as int]) is None);
                    assert(!guid_attr_ok(*meta, id as int));
                }
                let namespace = copy_bytes(&meta.types[id].namespace);
                let name = copy_bytes(&meta.types[id].name);
                return Result::Err(GenError::UnsupportedShape { namespace, name });
            },
        };
        vals.push(v);
        proof {
            assert(pre + seq![v] =~= vals@);
            assert(pre + (seq![v] + spec_guid_vals(args@, k as int + 1)) =~= (pre + seq![v])
                + spec_guid_vals(args@, k as int + 1));
        }
        k += 1;
    }
    proof {
        assert(spec_guid_vals(args@, k as int) =~= Seq::<u32>::empty());
        assert(vals@ + Seq::<u32>::empty() =~= vals@);
    }
    Result::Ok(vals)
}

} // verus!

