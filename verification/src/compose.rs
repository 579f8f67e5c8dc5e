use vstd::prelude::*;

use crate::error::GenError;
use crate::limits::Inclusion;
use crate::model::{
    copy_sig, is_substituted, lemma_params_bounded_mono, lemma_sig_eq_wf, lemma_substituted_congr,
    lemma_substituted_wf, params_bounded, sig_eq, wf_edge, wf_meta, wf_record, wf_sig, AttrArg, Attribute, EdgeTarget,
    InterfaceEdge, Metadata, TypeId, TypeSig,
};
use crate::names::{
    activatable_attribute, default_attribute, exclusive_attribute, overridable_attribute,
    static_attribute,
};

verus! {

broadcast use vstd::seq::axiom_seq_index_decreases;

/// The role a composed interface plays for the type under generation.
#[derive(Clone, Copy, PartialEq, Eq, Structural, Debug)]
pub enum Role {
    /// The interface whose method order defines the type's raw call table;
    /// always first in an interface's composed list.
    PrimaryAbi,
    /// An interface the type must also expose, reached by conversion.
    RequiredInstance,
    /// The interface a class forwards unqualified calls to.
    DefaultInstance,
    /// The companion interface holding a class's static members.
    StaticFactory,
    /// The named factory interface that constructs class instances.
    ActivationFactory,
    /// The synthetic entry for default (parameterless) activation; it has
    /// no backing definition.
    DefaultActivation,
}

/// One entry of a type's composed interface list.
#[derive(Debug)]
pub struct Composed {
    /// The interface's definition, absent only for default activation.
    pub definition: Option<TypeId>,
    /// The resolved generic-argument frame chain, outermost first; the
    /// last frame instantiates this interface's own formal parameters.
    pub generics: Vec<Vec<TypeSig>>,
    pub role: Role,
    pub overridable: bool,
    pub exclusive: bool,
    /// Whether the interface's namespace lies outside the inclusion set.
    pub excluded: bool,
}

/// Whether some attribute of the list carries the given name.
pub open spec fn spec_has_attr(attrs: Seq<Attribute>, name: Seq<u8>) -> bool {
    exists|i: int| 0 <= i < attrs.len() && (#[trigger] attrs[i]).name@ == name
}

pub fn has_attribute(attrs: &Vec<Attribute>, name: &Vec<u8>) -> (r: bool)
    ensures
        r == spec_has_attr(attrs@, name@),
{
    let mut i: usize = 0;
    while i < attrs.len()
        invariant
            i <= attrs@.len(),
            forall|j: int| 0 <= j < i ==> (#[trigger] attrs@[j]).name@ != name@,
        decreases attrs@.len() - i,
    {
        if crate::model::bytes_eq(&attrs[i].name, name) {
            return true;
        }
        i += 1;
    }
    false
}

/// The first nested type reference among an attribute's positional
/// arguments, scanned in order.
pub open spec fn spec_first_type_arg(args: Seq<AttrArg>, j: int) -> Option<TypeId>
    decreases args.len() - j,
{
    if j < 0 || j >= args.len() {
        Option::None
    } else {
        match args[j] {
            AttrArg::Type(id) => Option::Some(id),
            _ => spec_first_type_arg(args, j + 1),
        }
    }
}

/// Whether an attribute carries a nested type reference among its
/// positional arguments.
pub open spec fn spec_attr_has_type_arg(a: Attribute) -> bool {
    spec_first_type_arg(a.args@, 0) is Some
}

/// A first type argument is one of the arguments.
pub proof fn lemma_first_type_arg_exists(args: Seq<AttrArg>, j: int)
    requires
        spec_first_type_arg(args, j) is Some,
    ensures
        exists|t: int|
            j <= t < args.len() && #[trigger] args[t] == AttrArg::Type(
                spec_first_type_arg(args, j)->0,
            ),
    decreases args.len() - j,
{
    if 0 <= j < args.len() {
        match args[j] {
            AttrArg::Type(id) => {
                assert(args[j] == AttrArg::Type(id));
            },
            _ => {
                lemma_first_type_arg_exists(args, j + 1);
            },
        }
    }
}

fn factory_type_from(a: &Attribute, j: usize) -> (r: Option<TypeId>)
    requires
        j <= a.args@.len(),
    ensures
        match r {
            Option::Some(id) => spec_first_type_arg(a.args@, j as int) == Option::Some(id),
            Option::None => spec_first_type_arg(a.args@, j as int) is None,
        },
    decreases a.args@.len() - j,
{
    if j == a.args.len() {
        return Option::None;
    }
    match &a.args[j] {
        AttrArg::Type(id) => Option::Some(*id),
        _ => factory_type_from(a, j + 1),
    }
}

/// The factory interface an attribute names: the first nested type
/// reference among its positional arguments, if any.
pub fn factory_type(a: &Attribute) -> (r: Option<TypeId>)
    ensures
        r is Some <==> spec_attr_has_type_arg(*a),
        match r {
            Option::Some(id) => spec_first_type_arg(a.args@, 0) == Option::Some(id),
            Option::None => true,
        },
{
    factory_type_from(a, 0)
}

/// The definition a required-interface edge points at.
pub open spec fn edge_def(e: InterfaceEdge) -> int {
    match e.target {
        EdgeTarget::Def(id) => id as int,
        EdgeTarget::Spec(id, _) => id as int,
    }
}

/// The definition identity of a composed entry, or -1 for the synthetic
/// default-activation entry.
pub open spec fn cdef(e: Composed) -> int {
    match e.definition {
        Option::Some(id) => id as int,
        Option::None => -1,
    }
}

/// An entry produced by the composition walk proper.
pub open spec fn is_walk(e: Composed) -> bool {
    e.role == Role::RequiredInstance || e.role == Role::DefaultInstance
}

/// Every frame entry of the chain is well formed at the root's arity.
pub open spec fn frames_wf(meta: Metadata, frames: Seq<Vec<TypeSig>>, bound: nat) -> bool {
    forall|i: int, j: int|
        0 <= i < frames.len() && 0 <= j < frames[i]@.len() ==> wf_sig(
            meta,
            #[trigger] frames[i]@[j],
            bound,
        )
}

/// A composed entry's own well-formedness: its definition lies in the
/// arena (or it is the synthetic default-activation entry), its frames are
/// well formed, and a generic definition carries a frame of its arity.
pub open spec fn wf_composed(meta: Metadata, e: Composed, bound: nat) -> bool {
    &&& (match e.definition {
        Option::Some(id) => id < meta.types@.len(),
        Option::None => e.role == Role::DefaultActivation,
    })
    &&& frames_wf(meta, e.generics@, bound)
    &&& (match e.definition {
        Option::Some(id) => meta.types@[id as int].generics@.len() > 0
            ==> e.generics@.len() > 0 && e.generics@[e.generics@.len() - 1]@.len()
            == meta.types@[id as int].generics@.len(),
        Option::None => true,
    })
}

/// At most one entry of the list holds the default-instance role.
pub open spec fn at_most_one_default(r: Seq<Composed>) -> bool {
    forall|i: int, j: int|
        0 <= i < j < r.len() ==> !((#[trigger] r[i]).role == Role::DefaultInstance && (
        #[trigger] r[j]).role == Role::DefaultInstance)
}

/// Strictly sorted by definition identity.
pub open spec fn walk_sorted(r: Seq<Composed>) -> bool {
    forall|i: int, j: int| 0 <= i < j < r.len() ==> cdef(#[trigger] r[i]) < cdef(#[trigger] r[j])
}

/// The running invariant of the composition walk: every entry is a walk
/// entry with an in-arena definition, well formed, with its exclusion
/// flag matching the inclusion set and its exclusivity flag matching the
/// definition's marker, the list strictly sorted, and at most one default
/// entry.
pub open spec fn walk_ok(meta: Metadata, inc: Inclusion, r: Seq<Composed>, bound: nat) -> bool {
    &&& forall|i: int|
        0 <= i < r.len() ==> {
            let e = #[trigger] r[i];
            &&& is_walk(e)
            &&& e.definition is Some
            &&& 0 <= cdef(e) < meta.types@.len()
            &&& wf_composed(meta, e, bound)
            &&& e.excluded == !inc.spec_contains(meta.types@[cdef(e)].namespace@)
            &&& e.exclusive == spec_has_attr(
                meta.types@[cdef(e)].attributes@,
                crate::names::spec_exclusive_attribute(),
            )
        }
    &&& walk_sorted(r)
    &&& at_most_one_default(r)
}

/// Some walk entry holds this definition.
pub open spec fn has_walk_def(r: Seq<Composed>, d: int) -> bool {
    exists|i: int| 0 <= i < r.len() && is_walk(#[trigger] r[i]) && cdef(r[i]) == d
}

/// Every required-interface edge of `d` has its target among the walk
/// entries of `r`.
pub open spec fn all_edges_present(meta: Metadata, d: int, r: Seq<Composed>) -> bool {
    0 <= d < meta.types@.len() ==> forall|k: int|
        0 <= k < meta.types@[d].interfaces@.len() ==> has_walk_def(
            r,
            edge_def(#[trigger] meta.types@[d].interfaces@[k]),
        )
}

/// The list holds this very entry.
pub open spec fn contains_entry(b: Seq<Composed>, x: Composed) -> bool {
    exists|j: int| 0 <= j < b.len() && #[trigger] b[j] == x
}

/// Every entry of `a` stands in `b`.
pub open spec fn subset_of(a: Seq<Composed>, b: Seq<Composed>) -> bool {
    forall|i: int| 0 <= i < a.len() ==> contains_entry(b, #[trigger] a[i])
}

/// Every default-instance entry of `b` already stood in `a`.
pub open spec fn defaults_from(a: Seq<Composed>, b: Seq<Composed>) -> bool {
    forall|i: int|
        0 <= i < b.len() && (#[trigger] b[i]).role == Role::DefaultInstance ==> contains_entry(
            a,
            b[i],
        )
}

/// Every default-instance entry of `b` either already stood in `a` or
/// traces to a direct edge of `owner` carrying the default marker whose
/// target is the entry's definition.
pub open spec fn defaults_marked(meta: Metadata, owner: int, a: Seq<Composed>, b: Seq<Composed>) -> bool {
    forall|i: int|
        0 <= i < b.len() && (#[trigger] b[i]).role == Role::DefaultInstance ==> contains_entry(
            a,
            b[i],
        ) || (exists|k: int|
            0 <= k < meta.types@[owner].interfaces@.len() && spec_has_attr(
                (#[trigger] meta.types@[owner].interfaces@[k]).attributes@,
                crate::names::spec_default_attribute(),
            ) && edge_def(meta.types@[owner].interfaces@[k]) == cdef(b[i]))
}

pub proof fn lemma_defaults_marked_chain(
    meta: Metadata,
    owner: int,
    x: Seq<Composed>,
    y: Seq<Composed>,
    z: Seq<Composed>,
)
    requires
        defaults_marked(meta, owner, x, y),
        defaults_from(y, z),
    ensures
        defaults_marked(meta, owner, x, z),
{
    assert forall|i: int|
        0 <= i < z.len() && (#[trigger] z[i]).role == Role::DefaultInstance implies contains_entry(
        x,
        z[i],
    ) || (exists|k: int|
        0 <= k < meta.types@[owner].interfaces@.len() && spec_has_attr(
            (#[trigger] meta.types@[owner].interfaces@[k]).attributes@,
            crate::names::spec_default_attribute(),
        ) && edge_def(meta.types@[owner].interfaces@[k]) == cdef(z[i])) by {
        assert(contains_entry(y, z[i]));
        let j = choose|j: int| 0 <= j < y.len() && #[trigger] y[j] == z[i];
        assert(y[j].role == Role::DefaultInstance);
    }
}

/// A strictly sorted list of identities below `n` has at most `n` entries.
pub proof fn lemma_sorted_len_bound(r: Seq<Composed>, n: int)
    requires
        walk_sorted(r),
        forall|i: int| 0 <= i < r.len() ==> 0 <= cdef(#[trigger] r[i]) < n,
        n >= 0,
    ensures
        r.len() <= n,
    decreases r.len(),
{
    if r.len() > 0 {
        let last = r[r.len() - 1];
        let prefix = r.drop_last();
        assert forall|i: int| 0 <= i < prefix.len() implies 0 <= cdef(#[trigger] prefix[i]) < cdef(
            last,
        ) by {
            assert(prefix[i] == r[i]);
        }
        lemma_sorted_len_bound(prefix, cdef(last));
    }
}

/// Binary search by definition identity in a sorted walk list.
fn find_slot(result: &Vec<Composed>, d: TypeId) -> (r: (bool, usize))
    requires
        walk_sorted(result@),
        forall|i: int| 0 <= i < result@.len() ==> (#[trigger] result@[i]).definition is Some,
    ensures
        r.0 ==> r.1 < result@.len() && cdef(result@[r.1 as int]) == d,
        !r.0 ==> {
            &&& r.1 <= result@.len()
            &&& forall|i: int| 0 <= i < r.1 ==> cdef(#[trigger] result@[i]) < d
            &&& forall|i: int| r.1 <= i < result@.len() ==> cdef(#[trigger] result@[i]) > d
        },
{
    let mut lo: usize = 0;
    let mut hi: usize = result.len();
    while lo < hi
        invariant
            lo <= hi <= result@.len(),
            walk_sorted(result@),
            forall|i: int| 0 <= i < result@.len() ==> (#[trigger] result@[i]).definition is Some,
            forall|i: int| 0 <= i < lo ==> cdef(#[trigger] result@[i]) < d,
            forall|i: int| hi <= i < result@.len() ==> cdef(#[trigger] result@[i]) > d,
        decreases hi - lo,
    {
        let mid = lo + (hi - lo) / 2;
        let here: usize = match &result[mid].definition {
            Option::Some(id) => *id,
            Option::None => {
                proof {
                    assert(false);
                }
                0
            },
        };
        if here == d {
            return (true, mid);
        } else if here < d {
            lo = mid + 1;
        } else {
            hi = mid;
        }
    }
    (false, lo)
}

/// Deep copy of a frame chain, pointwise structurally equal.
pub fn copy_frames(frames: &Vec<Vec<TypeSig>>) -> (r: Vec<Vec<TypeSig>>)
    ensures
        r@.len() == frames@.len(),
        forall|i: int| 0 <= i < frames@.len() ==> (#[trigger] r@[i])@.len() == frames@[i]@.len(),
        forall|i: int, j: int|
            0 <= i < frames@.len() && 0 <= j < frames@[i]@.len() ==> sig_eq(
                frames@[i]@[j],
                #[trigger] r@[i]@[j],
            ),
{
    let mut r: Vec<Vec<TypeSig>> = Vec::new();
    let mut i: usize = 0;
    while i < frames.len()
        invariant
            i <= frames@.len(),
            r@.len() == i,
            forall|t: int| 0 <= t < i ==> (#[trigger] r@[t])@.len() == frames@[t]@.len(),
            forall|t: int, j: int|
                0 <= t < i && 0 <= j < frames@[t]@.len() ==> sig_eq(
                    frames@[t]@[j],
                    #[trigger] r@[t]@[j],
                ),
        decreases frames@.len() - i,
    {
        let src = &frames[i];
        let mut f: Vec<TypeSig> = Vec::new();
        let mut j: usize = 0;
        while j < src.len()
            invariant
                j <= src@.len(),
                f@.len() == j,
                forall|t: int| 0 <= t < j ==> sig_eq(src@[t], #[trigger] f@[t]),
            decreases src@.len() - j,
        {
            f.push(copy_sig(&src[j]));
            j += 1;
        }
        r.push(f);
        i += 1;
    }
    r
}

/// Copies of well-formed frames are well formed.
pub proof fn lemma_frames_wf_copy(
    meta: Metadata,
    a: Seq<Vec<TypeSig>>,
    b: Seq<Vec<TypeSig>>,
    bound: nat,
)
    requires
        frames_wf(meta, a, bound),
        b.len() == a.len(),
        forall|i: int| 0 <= i < a.len() ==> (#[trigger] b[i])@.len() == a[i]@.len(),
        forall|i: int, j: int|
            0 <= i < a.len() && 0 <= j < a[i]@.len() ==> sig_eq(a[i]@[j], #[trigger] b[i]@[j]),
    ensures
        frames_wf(meta, b, bound),
{
    assert forall|i: int, j: int| 0 <= i < b.len() && 0 <= j < b[i]@.len() implies wf_sig(
        meta,
        #[trigger] b[i]@[j],
        bound,
    ) by {
        lemma_sig_eq_wf(meta, a[i]@[j], b[i]@[j], bound);
    }
}

/// The identity frame of a generic root: each formal parameter stands for
/// itself.
pub fn identity_frame(arity: usize) -> (r: Vec<TypeSig>)
    requires
        arity <= u32::MAX as usize,
    ensures
        r@.len() == arity,
        forall|i: int| 0 <= i < arity ==> (#[trigger] r@[i]) == TypeSig::Param(i as u32),
{
    let mut r: Vec<TypeSig> = Vec::new();
    let mut i: usize = 0;
    while i < arity
        invariant
            i <= arity,
            arity <= u32::MAX as usize,
            r@.len() == i,
            forall|t: int| 0 <= t < i ==> (#[trigger] r@[t]) == TypeSig::Param(t as u32),
        decreases arity - i,
    {
        r.push(TypeSig::Param(i as u32));
        i += 1;
    }
    r
}

/// Resolve an instantiation's argument list against the active frame.
fn resolve_args(
    meta: &Metadata,
    args: &Vec<TypeSig>,
    frame: &Vec<TypeSig>,
    owner_arity: usize,
    bound: usize,
) -> (r: Vec<TypeSig>)
    requires
        forall|i: int|
            0 <= i < args@.len() ==> wf_sig(*meta, #[trigger] args@[i], owner_arity as nat),
        forall|i: int| 0 <= i < args@.len() ==> params_bounded(#[trigger] args@[i], frame@.len()),
        forall|i: int| 0 <= i < frame@.len() ==> wf_sig(*meta, #[trigger] frame@[i], bound as nat),
    ensures
        r@.len() == args@.len(),
        forall|i: int| 0 <= i < args@.len() ==> is_substituted(args@[i], frame@, #[trigger] r@[i]),
        forall|i: int| 0 <= i < args@.len() ==> wf_sig(*meta, #[trigger] r@[i], bound as nat),
{
    let mut r: Vec<TypeSig> = Vec::new();
    let mut i: usize = 0;
    while i < args.len()
        invariant
            i <= args@.len(),
            r@.len() == i,
            forall|t: int|
                0 <= t < args@.len() ==> wf_sig(*meta, #[trigger] args@[t], owner_arity as nat),
            forall|t: int|
                0 <= t < args@.len() ==> params_bounded(#[trigger] args@[t], frame@.len()),
            forall|t: int|
                0 <= t < frame@.len() ==> wf_sig(*meta, #[trigger] frame@[t], bound as nat),
            forall|t: int| 0 <= t < i ==> is_substituted(args@[t], frame@, #[trigger] r@[t]),
            forall|t: int| 0 <= t < i ==> wf_sig(*meta, #[trigger] r@[t], bound as nat),
        decreases args@.len() - i,
    {
        let s = crate::model::substitute(&args[i], frame);
        proof {
            lemma_substituted_wf(
                *meta,
                args@[i as int],
                frame@,
                s,
                owner_arity as nat,
                bound as nat,
            );
        }
        r.push(s);
        i += 1;
    }
    r
}

/// Whether the list already holds a default-instance entry.
fn has_default_entry(result: &Vec<Composed>) -> (r: bool)
    ensures
        r == (exists|i: int|
            0 <= i < result@.len() && (#[trigger] result@[i]).role == Role::DefaultInstance),
{
    let mut i: usize = 0;
    while i < result.len()
        invariant
            i <= result@.len(),
            forall|j: int| 0 <= j < i ==> (#[trigger] result@[j]).role != Role::DefaultInstance,
        decreases result@.len() - i,
    {
        match result[i].role {
            Role::DefaultInstance => {
                return true;
            },
            _ => {},
        }
        i += 1;
    }
    false
}

pub proof fn lemma_subset_trans(a: Seq<Composed>, b: Seq<Composed>, c: Seq<Composed>)
    requires
        subset_of(a, b),
        subset_of(b, c),
    ensures
        subset_of(a, c),
{
    assert forall|i: int| 0 <= i < a.len() implies contains_entry(c, #[trigger] a[i]) by {
        assert(contains_entry(b, a[i]));
        let j = choose|j: int| 0 <= j < b.len() && #[trigger] b[j] == a[i];
        assert(contains_entry(c, b[j]));
    }
}

pub proof fn lemma_has_walk_mono(a: Seq<Composed>, b: Seq<Composed>, d: int)
    requires
        subset_of(a, b),
        has_walk_def(a, d),
    ensures
        has_walk_def(b, d),
{
    let i = choose|i: int| 0 <= i < a.len() && is_walk(#[trigger] a[i]) && cdef(a[i]) == d;
    assert(contains_entry(b, a[i]));
    let j = choose|j: int| 0 <= j < b.len() && #[trigger] b[j] == a[i];
    assert(is_walk(b[j]) && cdef(b[j]) == d);
}

pub proof fn lemma_edges_present_mono(meta: Metadata, d: int, a: Seq<Composed>, b: Seq<Composed>)
    requires
        subset_of(a, b),
        all_edges_present(meta, d, a),
    ensures
        all_edges_present(meta, d, b),
{
    if 0 <= d < meta.types@.len() {
        assert forall|k: int| 0 <= k < meta.types@[d].interfaces@.len() implies has_walk_def(
            b,
            edge_def(#[trigger] meta.types@[d].interfaces@[k]),
        ) by {
            lemma_has_walk_mono(a, b, edge_def(meta.types@[d].interfaces@[k]));
        }
    }
}

pub proof fn lemma_defaults_from_trans(x: Seq<Composed>, y: Seq<Composed>, z: Seq<Composed>)
    requires
        defaults_from(x, y),
        defaults_from(y, z),
    ensures
        defaults_from(x, z),
{
    assert forall|i: int|
        0 <= i < z.len() && (#[trigger] z[i]).role == Role::DefaultInstance implies contains_entry(
        x,
        z[i],
    ) by {
        assert(contains_entry(y, z[i]));
        let j = choose|j: int| 0 <= j < y.len() && #[trigger] y[j] == z[i];
        assert(contains_entry(x, y[j]));
    }
}

/// What one sorted insertion does to the walk invariant and to the facts
/// the composition walk tracks.
#[verifier::rlimit(100)]
pub proof fn lemma_walk_insert(
    meta: Metadata,
    inc: Inclusion,
    a: Seq<Composed>,
    pos: int,
    e: Composed,
    bound: nat,
)
    requires
        walk_ok(meta, inc, a, bound),
        0 <= pos <= a.len(),
        is_walk(e),
        e.definition is Some,
        0 <= cdef(e) < meta.types@.len(),
        wf_composed(meta, e, bound),
        e.excluded == !inc.spec_contains(meta.types@[cdef(e)].namespace@),
        e.exclusive == spec_has_attr(
            meta.types@[cdef(e)].attributes@,
            crate::names::spec_exclusive_attribute(),
        ),
        forall|i: int| 0 <= i < pos ==> cdef(#[trigger] a[i]) < cdef(e),
        forall|i: int| pos <= i < a.len() ==> cdef(#[trigger] a[i]) > cdef(e),
        e.role == Role::DefaultInstance ==> forall|i: int|
            0 <= i < a.len() ==> (#[trigger] a[i]).role != Role::DefaultInstance,
    ensures
        walk_ok(meta, inc, a.insert(pos, e), bound),
        subset_of(a, a.insert(pos, e)),
        has_walk_def(a.insert(pos, e), cdef(e)),
        forall|d: int| has_walk_def(a.insert(pos, e), d) ==> d == cdef(e) || has_walk_def(a, d),
        e.role != Role::DefaultInstance ==> defaults_from(a, a.insert(pos, e)),
        a.insert(pos, e).len() == a.len() + 1,
{
    let b = a.insert(pos, e);
    assert forall|i: int| 0 <= i < a.len() implies contains_entry(b, #[trigger] a[i]) by {
        if i < pos {
            assert(b[i] == a[i]);
        } else {
            assert(b[i + 1] == a[i]);
        }
    }
    assert(b[pos] == e);
    assert(has_walk_def(b, cdef(e)));
    assert forall|i: int, j: int| 0 <= i < j < b.len() implies cdef(#[trigger] b[i]) < cdef(
        #[trigger] b[j],
    ) by {
        if i < pos {
            assert(b[i] == a[i]);
        } else if i == pos {
            assert(b[i] == e);
        } else {
            assert(b[i] == a[i - 1]);
        }
        if j < pos {
            assert(b[j] == a[j]);
        } else if j == pos {
            assert(b[j] == e);
        } else {
            assert(b[j] == a[j - 1]);
        }
    }
    assert forall|i: int, j: int| 0 <= i < j < b.len() implies !((#[trigger] b[i]).role
        == Role::DefaultInstance && (#[trigger] b[j]).role == Role::DefaultInstance) by {
        if i < pos {
            assert(b[i] == a[i]);
        } else if i == pos {
            assert(b[i] == e);
        } else {
            assert(b[i] == a[i - 1]);
        }
        if j < pos {
            assert(b[j] == a[j]);
        } else if j == pos {
            assert(b[j] == e);
        } else {
            assert(b[j] == a[j - 1]);
        }
    }
    assert forall|i: int| 0 <= i < b.len() implies {
        let x = #[trigger] b[i];
        &&& is_walk(x)
        &&& x.definition is Some
        &&& 0 <= cdef(x) < meta.types@.len()
        &&& wf_composed(meta, x, bound)
        &&& x.excluded == !inc.spec_contains(meta.types@[cdef(x)].namespace@)
        &&& x.exclusive == spec_has_attr(
            meta.types@[cdef(x)].attributes@,
            crate::names::spec_exclusive_attribute(),
        )
    } by {
        if i < pos {
            assert(b[i] == a[i]);
        } else if i == pos {
            assert(b[i] == e);
        } else {
            assert(b[i] == a[i - 1]);
        }
    }
    assert forall|d: int| has_walk_def(b, d) implies d == cdef(e) || has_walk_def(a, d) by {
        let i = choose|i: int| 0 <= i < b.len() && is_walk(#[trigger] b[i]) && cdef(b[i]) == d;
        if i < pos {
            assert(b[i] == a[i]);
            assert(has_walk_def(a, d));
        } else if i > pos {
            assert(b[i] == a[i - 1]);
            assert(has_walk_def(a, d));
        }
    }
    if e.role != Role::DefaultInstance {
        assert forall|i: int|
            0 <= i < b.len() && (#[trigger] b[i]).role == Role::DefaultInstance implies
            contains_entry(a, b[i]) by {
            if i < pos {
                assert(a[i] == b[i]);
            } else if i > pos {
                assert(a[i - 1] == b[i]);
            }
        }
    }
}

/// Flatten the required-interface edges of `owner` into `result`, in
/// definition order, recursing into each newly added interface's own
/// edges. `frames` is the accumulated generic-argument frame chain whose
/// last frame instantiates `owner`'s formal parameters; `bound` is the
/// generic arity of the generation root, which resolved frame entries may
/// still reference. Only when `find_default` may a directly declared edge
/// carrying the default marker become the default instance, and only the
/// first such edge does.
#[verifier::rlimit(100)]
pub fn add_interfaces(
    meta: &Metadata,
    inc: &Inclusion,
    result: &mut Vec<Composed>,
    frames: &Vec<Vec<TypeSig>>,
    owner: TypeId,
    find_default: bool,
    bound: usize,
)
    requires
        wf_meta(*meta),
        owner < meta.types@.len(),
        frames_wf(*meta, frames@, bound as nat),
        meta.types@[owner as int].generics@.len() == 0 || (frames@.len() > 0
            && frames@[frames@.len() - 1]@.len() == meta.types@[owner as int].generics@.len()),
        walk_ok(*meta, *inc, old(result)@, bound as nat),
    ensures
        walk_ok(*meta, *inc, final(result)@, bound as nat),
        final(result)@.len() >= old(result)@.len(),
        subset_of(old(result)@, final(result)@),
        forall|k: int|
            0 <= k < meta.types@[owner as int].interfaces@.len() ==> has_walk_def(
                final(result)@,
                edge_def(#[trigger] meta.types@[owner as int].interfaces@[k]),
            ),
        forall|d: int|
            has_walk_def(final(result)@, d) && !has_walk_def(old(result)@, d)
                ==> all_edges_present(*meta, d, final(result)@),
        !find_default ==> defaults_from(old(result)@, final(result)@),
        defaults_marked(*meta, owner as int, old(result)@, final(result)@),
    decreases meta.types@.len() - result@.len(),
{
    let ghost entry_list = result@;
    let owner_arity = meta.types[owner].generics.len();
    let edge_count = meta.types[owner].interfaces.len();
    let mut k: usize = 0;
    while k < edge_count
        invariant
            wf_meta(*meta),
            owner < meta.types@.len(),
            frames_wf(*meta, frames@, bound as nat),
            owner_arity == meta.types@[owner as int].generics@.len(),
            owner_arity == 0 || (frames@.len() > 0 && frames@[frames@.len() - 1]@.len()
                == owner_arity),
            edge_count == meta.types@[owner as int].interfaces@.len(),
            k <= edge_count,
            entry_list == old(result)@,
            walk_ok(*meta, *inc, result@, bound as nat),
            result@.len() >= entry_list.len(),
            subset_of(entry_list, result@),
            forall|j: int|
                0 <= j < k ==> has_walk_def(
                    result@,
                    edge_def(#[trigger] meta.types@[owner as int].interfaces@[j]),
                ),
            forall|d: int|
                has_walk_def(result@, d) && !has_walk_def(entry_list, d) ==> all_edges_present(
                    *meta,
                    d,
                    result@,
                ),
            !find_default ==> defaults_from(entry_list, result@),
            defaults_marked(*meta, owner as int, entry_list, result@),
        decreases edge_count - k,
    {
        let ghost pre = result@;
        proof {
            assert(wf_record(*meta, meta.types@[owner as int]));
            assert(wf_edge(
                *meta,
                meta.types@[owner as int].interfaces@[k as int],
                owner_arity as nat,
            ));
        }
        let edge = &meta.types[owner].interfaces[k];
        let default_name = default_attribute();
        let overridable_name = overridable_attribute();
        let marked_default = has_attribute(&edge.attributes, &default_name);
        let overridable = has_attribute(&edge.attributes, &overridable_name);
        let role = if find_default && marked_default && !has_default_entry(result) {
            Role::DefaultInstance
        } else {
            Role::RequiredInstance
        };
        let d: TypeId;
        let mut new_frames: Vec<Vec<TypeSig>>;
        match &edge.target {
            EdgeTarget::Def(id) => {
                d = *id;
                new_frames = copy_frames(frames);
                proof {
                    lemma_frames_wf_copy(*meta, frames@, new_frames@, bound as nat);
                }
            },
            EdgeTarget::Spec(id, args) => {
                d = *id;
                let empty_active: Vec<TypeSig> = Vec::new();
                let active: &Vec<TypeSig> = if frames.len() > 0 {
                    &frames[frames.len() - 1]
                } else {
                    &empty_active
                };
                proof {
                    assert forall|t: int| 0 <= t < args@.len() implies params_bounded(
                        #[trigger] args@[t],
                        active@.len() as nat,
                    ) by {
                        crate::model::lemma_wf_params_bounded(
                            *meta,
                            args@[t],
                            owner_arity as nat,
                        );
                        lemma_params_bounded_mono(
                            args@[t],
                            owner_arity as nat,
                            active@.len() as nat,
                        );
                    }
                }
                let resolved = resolve_args(meta, args, active, owner_arity, bound);
                new_frames = copy_frames(frames);
                new_frames.push(resolved);
                proof {
                    lemma_frames_wf_copy(
                        *meta,
                        frames@,
                        new_frames@.drop_last(),
                        bound as nat,
                    );
                    assert(new_frames@.drop_last() =~= new_frames@.take(
                        new_frames@.len() - 1,
                    ));
                    assert forall|i: int, j: int|
                        0 <= i < new_frames@.len() && 0 <= j < new_frames@[i]@.len() implies
                        wf_sig(*meta, #[trigger] new_frames@[i]@[j], bound as nat) by {
                        if i < new_frames@.len() - 1 {
                            assert(new_frames@[i] == new_frames@.drop_last()[i]);
                        }
                    }
                }
            },
        }
        proof {
            assert(frames_wf(*meta, new_frames@, bound as nat));
        }
        let excluded = !inc.contains(&meta.types[d].namespace);
        let exclusive_name = exclusive_attribute();
        let exclusive = has_attribute(&meta.types[d].attributes, &exclusive_name);
        let (found, idx) = find_slot(result, d);
        if !found {
            let entry_generics = copy_frames(&new_frames);
            proof {
                lemma_frames_wf_copy(*meta, new_frames@, entry_generics@, bound as nat);
            }
            let entry = Composed {
                definition: Option::Some(d),
                generics: entry_generics,
                role,
                overridable,
                exclusive,
                excluded,
            };
            proof {
                assert(wf_composed(*meta, entry, bound as nat));
                lemma_walk_insert(*meta, *inc, pre, idx as int, entry, bound as nat);
            }
            result.insert(idx, entry);
            let ghost inserted = result@;
            proof {
                assert(inserted =~= pre.insert(idx as int, entry));
                lemma_sorted_len_bound(inserted, meta.types@.len() as int);
                assert(edge_def(meta.types@[owner as int].interfaces@[k as int]) == d as int);
                assert forall|i: int|
                    0 <= i < inserted.len() && (#[trigger] inserted[i]).role
                        == Role::DefaultInstance implies contains_entry(entry_list, inserted[i])
                    || (exists|kk: int|
                    0 <= kk < meta.types@[owner as int].interfaces@.len() && spec_has_attr(
                        (#[trigger] meta.types@[owner as int].interfaces@[kk]).attributes@,
                        crate::names::spec_default_attribute(),
                    ) && edge_def(meta.types@[owner as int].interfaces@[kk]) == cdef(
                        inserted[i],
                    )) by {
                    if i < idx {
                        assert(inserted[i] == pre[i]);
                    } else if i == idx {
                        assert(inserted[i] == entry);
                        if entry.role == Role::DefaultInstance {
                            assert(spec_has_attr(
                                meta.types@[owner as int].interfaces@[k as int].attributes@,
                                crate::names::spec_default_attribute(),
                            ));
                        }
                    } else {
                        assert(inserted[i] == pre[i - 1]);
                    }
                }
                assert(defaults_marked(*meta, owner as int, entry_list, inserted));
            }
            proof {
                assert(result@.len() >= entry_list.len() + 1);
                assert(result@.len() <= meta.types@.len());
            }
            add_interfaces(meta, inc, result, &new_frames, d, false, bound);
            proof {
                let post = result@;
                lemma_subset_trans(pre, inserted, post);
                lemma_subset_trans(entry_list, pre, post);
                assert forall|j: int| 0 <= j < k + 1 implies has_walk_def(
                    post,
                    edge_def(#[trigger] meta.types@[owner as int].interfaces@[j]),
                ) by {
                    if j < k {
                        lemma_has_walk_mono(
                            pre,
                            post,
                            edge_def(meta.types@[owner as int].interfaces@[j]),
                        );
                        assert(subset_of(pre, post));
                    } else {
                        lemma_has_walk_mono(inserted, post, d as int);
                    }
                }
                assert forall|dd: int|
                    has_walk_def(post, dd) && !has_walk_def(entry_list, dd) implies
                    all_edges_present(*meta, dd, post) by {
                    if has_walk_def(inserted, dd) {
                        if dd == cdef(entry) {
                            assert(all_edges_present(*meta, dd, post));
                        } else if has_walk_def(pre, dd) {
                            lemma_edges_present_mono(*meta, dd, pre, inserted);
                            lemma_edges_present_mono(*meta, dd, inserted, post);
                        }
                    }
                }
                if !find_default {
                    assert(defaults_from(pre, inserted));
                    lemma_defaults_from_trans(pre, inserted, post);
                    lemma_defaults_from_trans(entry_list, pre, post);
                }
                lemma_defaults_marked_chain(*meta, owner as int, entry_list, inserted, post);
            }
        } else {
            proof {
                assert(is_walk(result@[idx as int]));
                assert(has_walk_def(result@, d as int));
            }
        }
        k += 1;
    }
}

/// An attribute names this factory definition among its arguments.
pub open spec fn attr_names_factory(a: Attribute, id: TypeId) -> bool {
    exists|j: int| 0 <= j < a.args@.len() && (#[trigger] a.args@[j]) == AttrArg::Type(id)
}

/// Compose the interface list of an interface root: flatten its
/// required-interface edges, then prepend the synthetic primary entry for
/// the interface itself, which must stay first because every later
/// category assumes the primary binary surface exists.
pub fn interface_interfaces(meta: &Metadata, inc: &Inclusion, root: TypeId) -> (r: Vec<Composed>)
    requires
        wf_meta(*meta),
        root < meta.types@.len(),
        meta.types@[root as int].generics@.len() <= u32::MAX as usize,
    ensures
        r@.len() >= 1,
        (r@[0].role == Role::PrimaryAbi),
        (r@[0].definition == Option::Some(root)),
        (!r@[0].excluded),
        (!r@[0].overridable),
        (!r@[0].exclusive),
        (r@[0].generics@.len() == (if meta.types@[root as int].generics@.len() == 0 {
            0int
        } else {
            1int
        })),
        meta.types@[root as int].generics@.len() > 0 ==> r@[0].generics@[0]@.len()
            == meta.types@[root as int].generics@.len() && (forall|t: int|
            0 <= t < meta.types@[root as int].generics@.len() ==> (#[trigger] r@[0].generics@[0]@[
                t
            ]) == TypeSig::Param(t as u32)),
        wf_composed(*meta, r@[0], meta.types@[root as int].generics@.len()),
        walk_ok(*meta, *inc, r@.skip(1), meta.types@[root as int].generics@.len()),
        forall|i: int| 1 <= i < r@.len() ==> (#[trigger] r@[i]).role == Role::RequiredInstance,
        forall|k: int|
            0 <= k < meta.types@[root as int].interfaces@.len() ==> has_walk_def(
                r@,
                edge_def(#[trigger] meta.types@[root as int].interfaces@[k]),
            ),
        forall|i: int|
            1 <= i < r@.len() ==> all_edges_present(*meta, cdef(#[trigger] r@[i]), r@),
{
    let arity = meta.types[root].generics.len();
    let mut walk: Vec<Composed> = Vec::new();
    let mut frames: Vec<Vec<TypeSig>> = Vec::new();
    if arity > 0 {
        frames.push(identity_frame(arity));
    }
    proof {
        assert(frames_wf(*meta, frames@, arity as nat));
        assert(walk_ok(*meta, *inc, walk@, arity as nat));
    }
    add_interfaces(meta, inc, &mut walk, &frames, root, false, arity);
    let ghost walked = walk@;
    let mut primary_generics: Vec<Vec<TypeSig>> = Vec::new();
    if arity > 0 {
        primary_generics.push(identity_frame(arity));
    }
    let primary = Composed {
        definition: Option::Some(root),
        generics: primary_generics,
        role: Role::PrimaryAbi,
        overridable: false,
        exclusive: false,
        excluded: false,
    };
    proof {
        assert(wf_composed(*meta, primary, arity as nat));
    }
    walk.insert(0, primary);
    proof {
        let r = walk@;
        assert(r.skip(1) =~= walked);
        assert forall|i: int| 1 <= i < r.len() implies (#[trigger] r[i]).role
            == Role::RequiredInstance by {
            assert(r[i] == walked[i - 1]);
            assert(is_walk(walked[i - 1]));
            if walked[i - 1].role == Role::DefaultInstance {
                assert(contains_entry(Seq::<Composed>::empty(), walked[i - 1]));
            }
        }
        assert forall|d: int| has_walk_def(walked, d) implies has_walk_def(r, d) by {
            let i = choose|i: int|
                0 <= i < walked.len() && is_walk(#[trigger] walked[i]) && cdef(walked[i]) == d;
            assert(r[i + 1] == walked[i]);
        }
        assert forall|i: int| 1 <= i < r.len() implies all_edges_present(
            *meta,
            cdef(#[trigger] r[i]),
            r,
        ) by {
            assert(r[i] == walked[i - 1]);
            let d = cdef(walked[i - 1]);
            assert(has_walk_def(walked, d) && !has_walk_def(Seq::<Composed>::empty(), d));
            assert(all_edges_present(*meta, d, walked));
            if 0 <= d < meta.types@.len() {
                assert forall|k: int|
                    0 <= k < meta.types@[d].interfaces@.len() implies has_walk_def(
                    r,
                    edge_def(#[trigger] meta.types@[d].interfaces@[k]),
                ) by {}
            }
        }
        assert forall|k: int|
            0 <= k < meta.types@[root as int].interfaces@.len() implies has_walk_def(
            r,
            edge_def(#[trigger] meta.types@[root as int].interfaces@[k]),
        ) by {}
    }
    walk
}

/// A static-members attribute that names no factory interface: the one
/// metadata shape the class walk cannot accept.
pub open spec fn bad_static_attr(meta: Metadata, class: int) -> bool {
    exists|j: int|
        0 <= j < meta.types@[class].attributes@.len() && (#[trigger] meta.types@[
            class
        ].attributes@[j]).name@ == crate::names::spec_static_attribute() && !spec_attr_has_type_arg(
            meta.types@[class].attributes@[j],
        )
}

/// The role-and-flag face of a composed entry, used to pin the factory
/// entries a class's markers call for.
pub ghost struct FactoryV {
    pub definition: Option<TypeId>,
    pub role: Role,
    pub overridable: bool,
    pub exclusive: bool,
    pub excluded: bool,
}

pub open spec fn fview(e: Composed) -> FactoryV {
    FactoryV {
        definition: e.definition,
        role: e.role,
        overridable: e.overridable,
        exclusive: e.exclusive,
        excluded: e.excluded,
    }
}

pub open spec fn fviews(s: Seq<Composed>) -> Seq<FactoryV> {
    s.map_values(|e: Composed| fview(e))
}

/// The factory entries the class's markers call for, in attribute order:
/// one exclusive static-factory entry per static-members marker (named by
/// its first type argument), one exclusive activation-factory entry per
/// activatable marker with a target, and the sentinel default-activation
/// entry for an activatable marker without one.
pub open spec fn spec_factories(meta: Metadata, inc: Inclusion, class: int, j: int) -> Seq<
    FactoryV,
>
    decreases meta.types@[class].attributes@.len() - j,
{
    if j < 0 || j >= meta.types@[class].attributes@.len() {
        Seq::<FactoryV>::empty()
    } else {
        let a = meta.types@[class].attributes@[j];
        let rest = spec_factories(meta, inc, class, j + 1);
        if a.name@ == crate::names::spec_static_attribute() {
            match spec_first_type_arg(a.args@, 0) {
                Option::Some(id) => seq![
                    FactoryV {
                        definition: Option::Some(id),
                        role: Role::StaticFactory,
                        overridable: false,
                        exclusive: true,
                        excluded: !inc.spec_contains(meta.types@[id as int].namespace@),
                    },
                ] + rest,
                Option::None => rest,
            }
        } else if a.name@ == crate::names::spec_activatable_attribute() {
            match spec_first_type_arg(a.args@, 0) {
                Option::Some(id) => seq![
                    FactoryV {
                        definition: Option::Some(id),
                        role: Role::ActivationFactory,
                        overridable: false,
                        exclusive: true,
                        excluded: !inc.spec_contains(meta.types@[id as int].namespace@),
                    },
                ] + rest,
                Option::None => seq![
                    FactoryV {
                        definition: Option::None,
                        role: Role::DefaultActivation,
                        overridable: false,
                        exclusive: true,
                        excluded: false,
                    },
                ] + rest,
            }
        } else {
            rest
        }
    }
}

/// Compose the interface list of a class root: its direct edges first
/// (where only a directly declared default marker may yield the default
/// instance), then each base class's edges merged into the same
/// deduplicated list, then one factory entry per static-members or
/// activatable marker; an activatable marker without a target synthesizes
/// the sentinel default-activation entry.
#[verifier::rlimit(100)]
pub fn class_interfaces(meta: &Metadata, inc: &Inclusion, class: TypeId) -> (r: Result<
    Vec<Composed>,
    GenError,
>)
    requires
        wf_meta(*meta),
        class < meta.types@.len(),
        meta.types@[class as int].generics@.len() == 0,
        forall|b: int|
            0 <= b < meta.types@[class as int].bases@.len() ==> meta.types@[(#[trigger] meta.types@[
                class as int
            ].bases@[b]) as int].generics@.len() == 0,
    ensures
        (r is Err) <==> bad_static_attr(*meta, class as int),
        match r {
            Result::Ok(list) => {
                &&& at_most_one_default(list@)
                &&& forall|i: int, j: int|
                    0 <= i < j < list@.len() && is_walk(#[trigger] list@[i]) && is_walk(
                        #[trigger] list@[j],
                    ) ==> cdef(list@[i]) != cdef(list@[j])
                &&& forall|i: int|
                    0 <= i < list@.len() && is_walk(#[trigger] list@[i]) ==> wf_composed(
                        *meta,
                        list@[i],
                        0,
                    ) && list@[i].definition is Some && 0 <= cdef(list@[i]) < meta.types@.len()
                &&& forall|i: int|
                    0 <= i < list@.len() && is_walk(#[trigger] list@[i]) ==> all_edges_present(
                        *meta,
                        cdef(list@[i]),
                        list@,
                    )
                &&& forall|k: int|
                    0 <= k < meta.types@[class as int].interfaces@.len() ==> has_walk_def(
                        list@,
                        edge_def(#[trigger] meta.types@[class as int].interfaces@[k]),
                    )
                &&& forall|i: int| 0 <= i < list@.len() ==> (#[trigger] list@[i]).role
                    != Role::PrimaryAbi
                &&& forall|i: int|
                    0 <= i < list@.len() && !is_walk(#[trigger] list@[i]) ==> {
                        &&& (list@[i].role == Role::StaticFactory || list@[i].role
                            == Role::ActivationFactory || list@[i].role == Role::DefaultActivation)
                        &&& list@[i].generics@.len() == 0
                        &&& (match list@[i].definition {
                            Option::Some(id) => id < meta.types@.len(),
                            Option::None => list@[i].role == Role::DefaultActivation,
                        })
                    }
                &&& forall|i: int|
                    0 <= i < list@.len() && (#[trigger] list@[i]).role == Role::DefaultInstance
                        ==> exists|k: int|
                        0 <= k < meta.types@[class as int].interfaces@.len() && spec_has_attr(
                            (#[trigger] meta.types@[class as int].interfaces@[k]).attributes@,
                            crate::names::spec_default_attribute(),
                        ) && edge_def(meta.types@[class as int].interfaces@[k]) == cdef(list@[i])
                &&& ({
                    let facs = spec_factories(*meta, *inc, class as int, 0);
                    &&& list@.len() >= facs.len()
                    &&& (forall|i: int|
                        0 <= i < list@.len() - facs.len() ==> is_walk(#[trigger] list@[i]))
                    &&& fviews(list@.skip(list@.len() - facs.len())) == facs
                })
            },
            Result::Err(e) => e.is_unsupported(),
        },
{
    let mut result: Vec<Composed> = Vec::new();
    let frames: Vec<Vec<TypeSig>> = Vec::new();
    proof {
        assert(walk_ok(*meta, *inc, result@, 0));
    }
    add_interfaces(meta, inc, &mut result, &frames, class, true, 0);
    let ghost after_direct = result@;
    let base_count = meta.types[class].bases.len();
    let mut b: usize = 0;
    while b < base_count
        invariant
            wf_meta(*meta),
            class < meta.types@.len(),
            base_count == meta.types@[class as int].bases@.len(),
            forall|t: int|
                0 <= t < meta.types@[class as int].bases@.len() ==> meta.types@[(
                #[trigger] meta.types@[class as int].bases@[t]) as int].generics@.len() == 0,
            b <= base_count,
            walk_ok(*meta, *inc, result@, 0),
            subset_of(after_direct, result@),
            forall|k: int|
                0 <= k < meta.types@[class as int].interfaces@.len() ==> has_walk_def(
                    result@,
                    edge_def(#[trigger] meta.types@[class as int].interfaces@[k]),
                ),
            forall|d: int|
                has_walk_def(result@, d) ==> all_edges_present(*meta, d, result@),
            defaults_marked(*meta, class as int, Seq::<Composed>::empty(), result@),
        decreases base_count - b,
    {
        let ghost pre = result@;
        proof {
            assert(wf_record(*meta, meta.types@[class as int]));
        }
        let base = meta.types[class].bases[b];
        let base_frames: Vec<Vec<TypeSig>> = Vec::new();
        add_interfaces(meta, inc, &mut result, &base_frames, base, false, 0);
        proof {
            let post = result@;
            lemma_defaults_marked_chain(
                *meta,
                class as int,
                Seq::<Composed>::empty(),
                pre,
                post,
            );
            lemma_subset_trans(after_direct, pre, post);
            assert forall|k: int|
                0 <= k < meta.types@[class as int].interfaces@.len() implies has_walk_def(
                post,
                edge_def(#[trigger] meta.types@[class as int].interfaces@[k]),
            ) by {
                lemma_has_walk_mono(
                    pre,
                    post,
                    edge_def(meta.types@[class as int].interfaces@[k]),
                );
            }
            assert forall|d: int| has_walk_def(post, d) implies all_edges_present(
                *meta,
                d,
                post,
            ) by {
                if has_walk_def(pre, d) {
                    lemma_edges_present_mono(*meta, d, pre, post);
                }
            }
        }
        b += 1;
    }
    let ghost walk_part = result@;
    proof {
        assert(fviews(result@.skip(walk_part.len() as int)) =~= Seq::<FactoryV>::empty());
        assert(Seq::<FactoryV>::empty() + spec_factories(*meta, *inc, class as int, 0)
            =~= spec_factories(*meta, *inc, class as int, 0));
    }
    let static_name = static_attribute();
    let activatable_name = activatable_attribute();
    let attr_count = meta.types[class].attributes.len();
    let mut j: usize = 0;
    while j < attr_count
        invariant
            wf_meta(*meta),
            class < meta.types@.len(),
            attr_count == meta.types@[class as int].attributes@.len(),
            j <= attr_count,
            static_name@ == crate::names::spec_static_attribute(),
            activatable_name@ == crate::names::spec_activatable_attribute(),
            result@.len() >= walk_part.len(),
            (result@.take(walk_part.len() as int) =~= walk_part),
            walk_ok(*meta, *inc, walk_part, 0),
            forall|d: int|
                has_walk_def(walk_part, d) ==> all_edges_present(*meta, d, walk_part),
            forall|k: int|
                0 <= k < meta.types@[class as int].interfaces@.len() ==> has_walk_def(
                    walk_part,
                    edge_def(#[trigger] meta.types@[class as int].interfaces@[k]),
                ),
            forall|i: int|
                walk_part.len() <= i < result@.len() ==> !is_walk(#[trigger] result@[i]) && (
                result@[i].role == Role::StaticFactory || result@[i].role
                    == Role::ActivationFactory || result@[i].role == Role::DefaultActivation) && (
                result@[i]).generics@.len() == 0 && (match result@[i].definition {
                    Option::Some(id) => id < meta.types@.len(),
                    Option::None => result@[i].role == Role::DefaultActivation,
                }),
            forall|t: int|
                0 <= t < j ==> !((#[trigger] meta.types@[class as int].attributes@[t]).name@
                    == crate::names::spec_static_attribute() && !spec_attr_has_type_arg(
                    meta.types@[class as int].attributes@[t],
                )),
            spec_factories(*meta, *inc, class as int, 0) == fviews(
                result@.skip(walk_part.len() as int),
            ) + spec_factories(*meta, *inc, class as int, j as int),
        decreases attr_count - j,
    {
        proof {
            assert(wf_record(*meta, meta.types@[class as int]));
            assert(crate::model::wf_attr(
                *meta,
                meta.types@[class as int].attributes@[j as int],
            ));
        }
        let attr = &meta.types[class].attributes[j];
        if crate::model::bytes_eq(&attr.name, &static_name) {
            match factory_type(attr) {
                Option::Some(id) => {
                    proof {
                        lemma_first_type_arg_exists(
                            meta.types@[class as int].attributes@[j as int].args@,
                            0,
                        );
                    }
                    let excluded = !inc.contains(&meta.types[id].namespace);
                    let ghost pre_suffix = fviews(result@.skip(walk_part.len() as int));
                    result.push(
                        Composed {
                            definition: Option::Some(id),
                            generics: Vec::new(),
                            role: Role::StaticFactory,
                            overridable: false,
                            exclusive: true,
                            excluded,
                        },
                    );
                    proof {
                        assert(result@.take(walk_part.len() as int) =~= walk_part);
                        let fv = FactoryV {
                            definition: Option::Some(id),
                            role: Role::StaticFactory,
                            overridable: false,
                            exclusive: true,
                            excluded: !inc.spec_contains(meta.types@[id as int].namespace@),
                        };
                        assert(fviews(result@.skip(walk_part.len() as int)) =~= pre_suffix
                            + seq![fv]);
                        assert(pre_suffix + (seq![fv] + spec_factories(
                            *meta,
                            *inc,
                            class as int,
                            j as int + 1,
                        )) =~= (pre_suffix + seq![fv]) + spec_factories(
                            *meta,
                            *inc,
                            class as int,
                            j as int + 1,
                        ));
                    }
                },
                Option::None => {
                    proof {
                        assert(bad_static_attr(*meta, class as int));
                    }
                    let namespace = crate::model::copy_bytes(&meta.types[class].namespace);
                    let name = crate::model::copy_bytes(&meta.types[class].name);
                    return Result::Err(GenError::UnsupportedShape { namespace, name });
                },
            }
        } else if crate::model::bytes_eq(&attr.name, &activatable_name) {
            match factory_type(attr) {
                Option::Some(id) => {
                    proof {
                        lemma_first_type_arg_exists(
                            meta.types@[class as int].attributes@[j as int].args@,
                            0,
                        );
                    }
                    let excluded = !inc.contains(&meta.types[id].namespace);
                    let ghost pre_suffix = fviews(result@.skip(walk_part.len() as int));
                    result.push(
                        Composed {
                            definition: Option::Some(id),
                            generics: Vec::new(),
                            role: Role::ActivationFactory,
                            overridable: false,
                            exclusive: true,
                            excluded,
                        },
                    );
                    proof {
                        assert(result@.take(walk_part.len() as int) =~= walk_part);
                        let fv = FactoryV {
                            definition: Option::Some(id),
                            role: Role::ActivationFactory,
                            overridable: false,
                            exclusive: true,
                            excluded: !inc.spec_contains(meta.types@[id as int].namespace@),
                        };
                        assert(fviews(result@.skip(walk_part.len() as int)) =~= pre_suffix
                            + seq![fv]);
                        assert(pre_suffix + (seq![fv] + spec_factories(
                            *meta,
                            *inc,
                            class as int,
                            j as int + 1,
                        )) =~= (pre_suffix + seq![fv]) + spec_factories(
                            *meta,
                            *inc,
                            class as int,
                            j as int + 1,
                        ));
                    }
                },
                Option::None => {
                    let ghost pre_suffix = fviews(result@.skip(walk_part.len() as int));
                    result.push(
                        Composed {
                            definition: Option::None,
                            generics: Vec::new(),
                            role: Role::DefaultActivation,
                            overridable: false,
                            exclusive: true,
                            excluded: false,
                        },
                    );
                    proof {
                        assert(result@.take(walk_part.len() as int) =~= walk_part);
                        let fv = FactoryV {
                            definition: Option::None,
                            role: Role::DefaultActivation,
                            overridable: false,
                            exclusive: true,
                            excluded: false,
                        };
                        assert(fviews(result@.skip(walk_part.len() as int)) =~= pre_suffix
                            + seq![fv]);
                        assert(pre_suffix + (seq![fv] + spec_factories(
                            *meta,
                            *inc,
                            class as int,
                            j as int + 1,
                        )) =~= (pre_suffix + seq![fv]) + spec_factories(
                            *meta,
                            *inc,
                            class as int,
                            j as int + 1,
                        ));
                    }
                },
            }
        }
        j += 1;
    }
    proof {
        let r = result@;
        let m = walk_part.len() as int;
        assert(!bad_static_attr(*meta, class as int));
        assert forall|i: int| 0 <= i < r.len() && is_walk(#[trigger] r[i]) implies i < m by {}
        assert forall|i: int| 0 <= i < r.len() && is_walk(#[trigger] r[i]) implies wf_composed(
            *meta,
            r[i],
            0,
        ) && r[i].definition is Some && 0 <= cdef(r[i]) < meta.types@.len() by {
            assert(r[i] == walk_part[i]);
        }
        assert forall|i: int| 0 <= i < r.len() implies (#[trigger] r[i]).role != Role::PrimaryAbi
            by {
            if i < m {
                assert(r[i] == walk_part[i]);
                assert(is_walk(walk_part[i]));
            }
        }
        assert forall|i: int| 0 <= i < r.len() && !is_walk(#[trigger] r[i]) implies {
            &&& (r[i].role == Role::StaticFactory || r[i].role == Role::ActivationFactory
                || r[i].role == Role::DefaultActivation)
            &&& r[i].generics@.len() == 0
            &&& (match r[i].definition {
                Option::Some(id) => id < meta.types@.len(),
                Option::None => r[i].role == Role::DefaultActivation,
            })
        } by {
            if i < m {
                assert(r[i] == walk_part[i]);
                assert(is_walk(walk_part[i]));
            }
        }
        assert forall|i: int, t: int|
            0 <= i < t < r.len() && is_walk(#[trigger] r[i]) && is_walk(#[trigger] r[t]) implies
            cdef(r[i]) != cdef(r[t]) by {
            assert(r[i] == walk_part[i] && r[t] == walk_part[t]);
        }
        assert forall|i: int, t: int| 0 <= i < t < r.len() implies !((#[trigger] r[i]).role
            == Role::DefaultInstance && (#[trigger] r[t]).role == Role::DefaultInstance) by {
            if t < m {
                assert(r[i] == walk_part[i] && r[t] == walk_part[t]);
            }
        }
        assert forall|i: int| 0 <= i < r.len() && is_walk(#[trigger] r[i]) implies
            all_edges_present(*meta, cdef(r[i]), r) by {
            assert(r[i] == walk_part[i]);
            assert(has_walk_def(walk_part, cdef(r[i])));
            assert(all_edges_present(*meta, cdef(r[i]), walk_part));
            if 0 <= cdef(r[i]) < meta.types@.len() {
                assert forall|k: int|
                    0 <= k < meta.types@[cdef(r[i])].interfaces@.len() implies has_walk_def(
                    r,
                    edge_def(#[trigger] meta.types@[cdef(r[i])].interfaces@[k]),
                ) by {
                    let d = edge_def(meta.types@[cdef(r[i])].interfaces@[k]);
                    let w = choose|w: int|
                        0 <= w < walk_part.len() && is_walk(#[trigger] walk_part[w]) && cdef(
                            walk_part[w],
                        ) == d;
                    assert(r[w] == walk_part[w]);
                }
            }
        }
        assert forall|k: int|
            0 <= k < meta.types@[class as int].interfaces@.len() implies has_walk_def(
            r,
            edge_def(#[trigger] meta.types@[class as int].interfaces@[k]),
        ) by {
            let d = edge_def(meta.types@[class as int].interfaces@[k]);
            let w = choose|w: int|
                0 <= w < walk_part.len() && is_walk(#[trigger] walk_part[w]) && cdef(
                    walk_part[w],
                ) == d;
            assert(r[w] == walk_part[w]);
        }
        assert forall|i: int|
            0 <= i < r.len() && (#[trigger] r[i]).role == Role::DefaultInstance implies exists|
            k: int,
        |
            0 <= k < meta.types@[class as int].interfaces@.len() && spec_has_attr(
                (#[trigger] meta.types@[class as int].interfaces@[k]).attributes@,
                crate::names::spec_default_attribute(),
            ) && edge_def(meta.types@[class as int].interfaces@[k]) == cdef(r[i]) by {
            assert(is_walk(r[i]));
            assert(i < m);
            assert(r[i] == walk_part[i]);
            assert(!contains_entry(Seq::<Composed>::empty(), walk_part[i]));
        }
        let facs = spec_factories(*meta, *inc, class as int, 0);
        assert(spec_factories(*meta, *inc, class as int, j as int) =~= Seq::<
            FactoryV,
        >::empty());
        assert(fviews(r.skip(m)) + Seq::<FactoryV>::empty() =~= fviews(r.skip(m)));
        assert(fviews(r.skip(m)) == facs);
        assert(facs.len() == r.len() - m);
        assert forall|i: int| 0 <= i < r.len() - facs.len() implies is_walk(
            #[trigger] r[i],
        ) by {
            assert(r[i] == walk_part[i]);
        }
    }
    Result::Ok(result)
}

/// Dedup: when a composed list is deduplicated and closed under required
/// edges — as the composition walk leaves it — a definition `d` required
/// by two listed interfaces (a diamond) has exactly one walk entry.
pub proof fn lemma_diamond_collapses(
    meta: Metadata,
    r: Seq<Composed>,
    ib: int,
    ic: int,
    kb: int,
    kc: int,
)
    requires
        forall|i: int, j: int|
            0 <= i < j < r.len() && is_walk(#[trigger] r[i]) && is_walk(#[trigger] r[j])
                ==> cdef(r[i]) != cdef(r[j]),
        forall|i: int|
            0 <= i < r.len() && is_walk(#[trigger] r[i]) ==> all_edges_present(
                meta,
                cdef(r[i]),
                r,
            ),
        0 <= ib < r.len() && is_walk(r[ib]) && 0 <= cdef(r[ib]) < meta.types@.len(),
        0 <= ic < r.len() && is_walk(r[ic]) && 0 <= cdef(r[ic]) < meta.types@.len(),
        0 <= kb < meta.types@[cdef(r[ib])].interfaces@.len(),
        0 <= kc < meta.types@[cdef(r[ic])].interfaces@.len(),
        edge_def(meta.types@[cdef(r[ic])].interfaces@[kc]) == edge_def(
            meta.types@[cdef(r[ib])].interfaces@[kb],
        ),
    ensures
        ({
            let d = edge_def(meta.types@[cdef(r[ib])].interfaces@[kb]);
            exists|i: int|
                0 <= i < r.len() && is_walk(#[trigger] r[i]) && cdef(r[i]) == d && (forall|j: int|
                    0 <= j < r.len() && is_walk(#[trigger] r[j]) && cdef(r[j]) == d ==> j == i)
        }),
{
    let d = edge_def(meta.types@[cdef(r[ib])].interfaces@[kb]);
    assert(all_edges_present(meta, cdef(r[ib]), r));
    assert(has_walk_def(r, d));
    let i = choose|i: int| 0 <= i < r.len() && is_walk(#[trigger] r[i]) && cdef(r[i]) == d;
    assert forall|j: int| 0 <= j < r.len() && is_walk(#[trigger] r[j]) && cdef(r[j]) == d
        implies j == i by {
        if j < i {
            assert(cdef(r[j]) != cdef(r[i]));
        } else if j > i {
            assert(cdef(r[i]) != cdef(r[j]));
        }
    }
}

/// Generic frame correctness: after pushing a frame built by resolving an
/// instantiation's arguments against the enclosing frame, a positional
/// index inside the instantiated interface resolves to the enclosing
/// resolution of the corresponding argument — the concrete type supplied
/// levels up, not the formal parameter and not the raw argument.
pub proof fn lemma_frame_correctness(
    args: Seq<TypeSig>,
    outer: Seq<TypeSig>,
    pushed: Seq<TypeSig>,
    i: u32,
    r: TypeSig,
)
    requires
        (i as int) < args.len(),
        pushed.len() == args.len(),
        forall|j: int|
            0 <= j < args.len() ==> is_substituted(args[j], outer, #[trigger] pushed[j]),
        is_substituted(TypeSig::Param(i), pushed, r),
    ensures
        is_substituted(args[i as int], outer, r),
{
    lemma_substituted_congr(args[i as int], outer, pushed[i as int], r);
}

} // verus!
