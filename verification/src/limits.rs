use vstd::prelude::*;

use crate::names::{spec_system_namespace, system_namespace};
use crate::model::{bytes_eq, method_sig_ids_ok, sig_ids_ok, Metadata, MethodSig, TypeId, TypeSig};

verus! {

broadcast use vstd::seq::axiom_seq_index_decreases;

/// Strict lexicographic order on byte strings.
pub open spec fn lex_lt(a: Seq<u8>, b: Seq<u8>) -> bool
    decreases a.len(),
{
    if b.len() == 0 {
        false
    } else if a.len() == 0 {
        true
    } else if a[0] < b[0] {
        true
    } else if a[0] > b[0] {
        false
    } else {
        lex_lt(a.skip(1), b.skip(1))
    }
}

/// The configured namespace-inclusion set: types whose namespace is absent
/// from it are projected as excluded. Generation walks it front to back,
/// so a caller that wants the deterministic, sorted aggregation hands it
/// over in strictly ascending order (see `ordered`).
#[derive(Debug)]
pub struct Inclusion {
    pub namespaces: Vec<Vec<u8>>,
}

impl Inclusion {
    /// Strictly ascending (hence duplicate-free) by byte order: the shape
    /// an ordered set of namespace identifiers has.
    pub open spec fn ordered(&self) -> bool {
        forall|i: int, j: int|
            0 <= i < j < self.namespaces@.len() ==> lex_lt(
                (#[trigger] self.namespaces@[i])@,
                (#[trigger] self.namespaces@[j])@,
            )
    }

    /// A namespace is a member when some entry holds the same bytes.
    pub open spec fn spec_contains(&self, ns: Seq<u8>) -> bool {
        exists|i: int| 0 <= i < self.namespaces@.len() && (#[trigger] self.namespaces@[i])@ == ns
    }

    pub fn contains(&self, ns: &Vec<u8>) -> (r: bool)
        ensures
            r == self.spec_contains(ns@),
    {
        let mut i: usize = 0;
        while i < self.namespaces.len()
            invariant
                i <= self.namespaces.len(),
                forall|j: int| 0 <= j < i ==> (#[trigger] self.namespaces@[j])@ != ns@,
            decreases self.namespaces.len() - i,
        {
            if bytes_eq(&self.namespaces[i], ns) {
                return true;
            }
            i += 1;
        }
        false
    }
}

pub fn is_system_namespace(ns: &Vec<u8>) -> (r: bool)
    ensures
        r == (ns@ == spec_system_namespace()),
{
    let sys = system_namespace();
    bytes_eq(ns, &sys)
}

/// Whether a defined type lies outside the inclusion set. Types of the
/// shared system namespace are never excluded.
pub open spec fn spec_limited_def(meta: Metadata, inc: Inclusion, id: TypeId) -> bool {
    let ns = meta.types@[id as int].namespace@;
    ns != spec_system_namespace() && !inc.spec_contains(ns)
}

pub fn limited_type_def(meta: &Metadata, inc: &Inclusion, id: TypeId) -> (r: bool)
    requires
        id < meta.types@.len(),
    ensures
        r == spec_limited_def(*meta, *inc, id),
{
    let ns = &meta.types[id].namespace;
    if is_system_namespace(ns) {
        false
    } else {
        !inc.contains(ns)
    }
}

/// Whether a type expression depends on an excluded type. An instantiation
/// is excluded when its definition's namespace is outside the inclusion set
/// (with no system-namespace exception) or any of its arguments is; a
/// positional index is never excluded by itself.
pub open spec fn spec_limited_sig(meta: Metadata, inc: Inclusion, s: TypeSig) -> bool
    decreases s,
{
    match s {
        TypeSig::Element(_) => false,
        TypeSig::Def(id) => spec_limited_def(meta, inc, id),
        TypeSig::Instance(id, args) => !inc.spec_contains(meta.types@[id as int].namespace@)
            || exists|i: int| 0 <= i < args@.len() && spec_limited_sig(meta, inc, #[trigger] args@[i]),
        TypeSig::Param(_) => false,
    }
}

pub fn limited_type(meta: &Metadata, inc: &Inclusion, s: &TypeSig) -> (r: bool)
    requires
        sig_ids_ok(*meta, *s),
    ensures
        r == spec_limited_sig(*meta, *inc, *s),
    decreases *s,
{
    match s {
        TypeSig::Element(_) => false,
        TypeSig::Def(id) => limited_type_def(meta, inc, *id),
        TypeSig::Instance(id, args) => {
            if !inc.contains(&meta.types[*id].namespace) {
                return true;
            }
            let mut i: usize = 0;
            while i < args.len()
                invariant
                    i <= args.len(),
                    *s == TypeSig::Instance(*id, *args),
                    sig_ids_ok(*meta, *s),
                    forall|j: int| 0 <= j < i ==> !spec_limited_sig(*meta, *inc, #[trigger] args@[j]),
                decreases args.len() - i,
            {
                proof {
                    assert(decreases_to!(*s => s->Instance_1));
                    assert(decreases_to!(args@ => args@[i as int]));
                    assert(decreases_to!(*s => args@[i as int]));
                    assert(sig_ids_ok(*meta, args@[i as int]));
                }
                if limited_type(meta, inc, &args[i]) {
                    return true;
                }
                i += 1;
            }
            false
        },
        TypeSig::Param(_) => false,
    }
}

/// Whether a method signature depends on an excluded type in any parameter
/// or in its return value.
pub open spec fn spec_limited_method(meta: Metadata, inc: Inclusion, s: MethodSig) -> bool {
    ||| (match s.return_type {
        Option::Some(p) => spec_limited_sig(meta, inc, p.ty),
        Option::None => false,
    })
    ||| exists|i: int|
        0 <= i < s.params@.len() && spec_limited_sig(meta, inc, (#[trigger] s.params@[i]).ty)
}

pub fn limited_method(meta: &Metadata, inc: &Inclusion, s: &MethodSig) -> (r: bool)
    requires
        method_sig_ids_ok(*meta, *s),
    ensures
        r == spec_limited_method(*meta, *inc, *s),
{
    match &s.return_type {
        Option::Some(p) => {
            if limited_type(meta, inc, &p.ty) {
                return true;
            }
        },
        Option::None => {},
    }
    let mut i: usize = 0;
    while i < s.params.len()
        invariant
            i <= s.params@.len(),
            method_sig_ids_ok(*meta, *s),
            forall|j: int|
                0 <= j < i ==> !spec_limited_sig(*meta, *inc, (#[trigger] s.params@[j]).ty),
            !(match s.return_type {
                Option::Some(p) => spec_limited_sig(*meta, *inc, p.ty),
                Option::None => false,
            }),
        decreases s.params@.len() - i,
    {
        if limited_type(meta, inc, &s.params[i].ty) {
            return true;
        }
        i += 1;
    }
    false
}

} // verus!
