use vstd::prelude::*;

use crate::compose::{cdef, Composed, Role};
use crate::limits::{limited_method, spec_limited_method, Inclusion};
use crate::model::{
    bytes_eq, copy_bytes, lemma_wf_method_sig_ids, wf_meta, wf_record, AttrArg, Attribute,
    Metadata, MethodCategory, MethodRecord,
};
use crate::names::{
    new_name, overload_attribute, remove_prefix, set_prefix, spec_new_name,
    spec_overload_attribute, spec_remove_prefix, spec_set_prefix,
};
use crate::paths::{append_snake, ends_lower, spec_snake_from};

verus! {

/// One method of the projected surface.
#[derive(Debug)]
pub struct Projected {
    /// The final name, after accessor folding and collision resolution.
    pub name: Vec<u8>,
    pub category: MethodCategory,
    /// Index of the owning entry in the composed interface list.
    pub interface: usize,
    /// Index of the raw method in the owning definition's method list;
    /// absent for the synthesized default constructor.
    pub method: Option<usize>,
    /// Omitted from the public surface: its signature depends on an
    /// excluded type, or it lost a collision against an earlier method.
    pub excluded: bool,
}

/// Ghost mirror of a projected method, with the name as a sequence.
#[verifier::ext_equal]
pub ghost struct ProjectedV {
    pub name: Seq<u8>,
    pub category: MethodCategory,
    pub interface: int,
    pub method: Option<int>,
    pub excluded: bool,
}

pub open spec fn pview(p: Projected) -> ProjectedV {
    ProjectedV {
        name: p.name@,
        category: p.category,
        interface: p.interface as int,
        method: match p.method {
            Option::Some(k) => Option::Some(k as int),
            Option::None => Option::None,
        },
        excluded: p.excluded,
    }
}

pub open spec fn pviews(ms: Seq<Projected>) -> Seq<ProjectedV> {
    ms.map_values(|p: Projected| pview(p))
}

/// The first text argument of an attribute, if any.
pub open spec fn spec_first_text_arg(args: Seq<AttrArg>) -> Option<Seq<u8>>
    decreases args.len(),
{
    if args.len() == 0 {
        Option::None
    } else {
        match args[0] {
            AttrArg::Text(s) => Option::Some(s@),
            _ => spec_first_text_arg(args.skip(1)),
        }
    }
}

/// The explicit name override carried by the first name-override attribute,
/// if any.
pub open spec fn spec_override_name(attrs: Seq<Attribute>) -> Option<Seq<u8>>
    decreases attrs.len(),
{
    if attrs.len() == 0 {
        Option::None
    } else if attrs[0].name@ == spec_overload_attribute() {
        spec_first_text_arg(attrs[0].args@)
    } else {
        spec_override_name(attrs.skip(1))
    }
}

/// The raw metadata name after the explicit override, before any accessor
/// rule applies.
pub open spec fn spec_raw_name(m: MethodRecord) -> Seq<u8> {
    match spec_override_name(m.attributes@) {
        Option::Some(s) => s,
        Option::None => m.name@,
    }
}

fn first_text_arg_from(args: &Vec<AttrArg>, j: usize) -> (r: Option<Vec<u8>>)
    requires
        j <= args@.len(),
    ensures
        match r {
            Option::Some(s) => spec_first_text_arg(args@.skip(j as int)) == Option::Some(s@),
            Option::None => spec_first_text_arg(args@.skip(j as int)) is None,
        },
    decreases args@.len() - j,
{
    if j == args.len() {
        proof {
            assert(args@.skip(j as int) =~= Seq::<AttrArg>::empty());
        }
        return Option::None;
    }
    proof {
        assert(args@.skip(j as int)[0] == args@[j as int]);
        assert(args@.skip(j as int).skip(1) =~= args@.skip(j as int + 1));
    }
    match &args[j] {
        AttrArg::Text(s) => Option::Some(copy_bytes(s)),
        _ => first_text_arg_from(args, j + 1),
    }
}

fn override_name_from(attrs: &Vec<Attribute>, j: usize) -> (r: Option<Vec<u8>>)
    requires
        j <= attrs@.len(),
    ensures
        match r {
            Option::Some(s) => spec_override_name(attrs@.skip(j as int)) == Option::Some(s@),
            Option::None => spec_override_name(attrs@.skip(j as int)) is None,
        },
    decreases attrs@.len() - j,
{
    if j == attrs.len() {
        proof {
            assert(attrs@.skip(j as int) =~= Seq::<Attribute>::empty());
        }
        return Option::None;
    }
    proof {
        assert(attrs@.skip(j as int)[0] == attrs@[j as int]);
        assert(attrs@.skip(j as int).skip(1) =~= attrs@.skip(j as int + 1));
    }
    let name = overload_attribute();
    if bytes_eq(&attrs[j].name, &name) {
        proof {
            assert(attrs@[j as int].args@.skip(0) =~= attrs@[j as int].args@);
        }
        first_text_arg_from(&attrs[j].args, 0)
    } else {
        override_name_from(attrs, j + 1)
    }
}

/// The raw method name, with the explicit override applied.
pub fn raw_method_name(m: &MethodRecord) -> (r: Vec<u8>)
    ensures
        r@ == spec_raw_name(*m),
{
    proof {
        assert(m.attributes@.skip(0) =~= m.attributes@);
    }
    match override_name_from(&m.attributes, 0) {
        Option::Some(s) => s,
        Option::None => copy_bytes(&m.name),
    }
}

/// How many leading bytes the accessor rule strips from the raw name.
pub open spec fn strip_len(c: MethodCategory) -> int {
    match c {
        MethodCategory::Get => 4,
        MethodCategory::Put => 4,
        MethodCategory::Add => 4,
        MethodCategory::Remove => 7,
        MethodCategory::Normal => 0,
    }
}

/// The projected name of a raw method, before collision resolution:
/// getters and adders drop their four-byte prefix; setters drop it and
/// gain "set"; removers drop their seven-byte prefix and gain "remove";
/// plain methods keep the raw name; all are snake-folded.
pub open spec fn spec_method_name(m: MethodRecord) -> Seq<u8> {
    let raw = spec_raw_name(m);
    match m.category {
        MethodCategory::Get => spec_snake_from(raw.skip(4), false),
        MethodCategory::Add => spec_snake_from(raw.skip(4), false),
        MethodCategory::Put => spec_set_prefix() + spec_snake_from(
            raw.skip(4),
            ends_lower(spec_set_prefix()),
        ),
        MethodCategory::Remove => spec_remove_prefix() + spec_snake_from(
            raw.skip(7),
            ends_lower(spec_remove_prefix()),
        ),
        MethodCategory::Normal => spec_snake_from(raw, false),
    }
}

/// A raw name long enough for its accessor rule.
pub open spec fn name_long_enough(m: MethodRecord) -> bool {
    spec_raw_name(m).len() >= strip_len(m.category)
}

/// Every method of the arena carries a name long enough for its accessor
/// rule; shorter ones are malformed metadata.
pub open spec fn names_ok(meta: Metadata) -> bool {
    forall|t: int, k: int|
        0 <= t < meta.types@.len() && 0 <= k < meta.types@[t].methods@.len() ==> name_long_enough(
            #[trigger] meta.types@[t].methods@[k],
        )
}

/// Derive the projected name of one raw method.
pub fn method_name(m: &MethodRecord) -> (r: Vec<u8>)
    requires
        name_long_enough(*m),
    ensures
        r@ == spec_method_name(*m),
{
    let raw = raw_method_name(m);
    let mut result: Vec<u8>;
    let mut source: Vec<u8> = Vec::new();
    let start: usize = match m.category {
        MethodCategory::Get => {
            result = Vec::new();
            4
        },
        MethodCategory::Add => {
            result = Vec::new();
            4
        },
        MethodCategory::Put => {
            result = set_prefix();
            4
        },
        MethodCategory::Remove => {
            result = remove_prefix();
            7
        },
        MethodCategory::Normal => {
            result = Vec::new();
            0
        },
    };
    proof {
        assert(source@ =~= raw@.subrange(start as int, start as int));
    }
    let mut i = start;
    while i < raw.len()
        invariant
            start <= raw@.len(),
            start <= i <= raw@.len(),
            source@ == raw@.subrange(start as int, i as int),
        decreases raw@.len() - i,
    {
        proof {
            assert(raw@.subrange(start as int, i as int + 1) =~= raw@.subrange(
                start as int,
                i as int,
            ).push(raw@[i as int]));
        }
        source.push(raw[i]);
        i += 1;
    }
    proof {
        assert(source@ =~= raw@.skip(start as int));
    }
    append_snake(&mut result, &source);
    proof {
        assert(raw@.skip(0) =~= raw@);
        assert(result@ =~= spec_method_name(*m));
    }
    result
}

/// The first index of the list already holding this name, or -1.
pub open spec fn first_name_index(acc: Seq<ProjectedV>, name: Seq<u8>) -> int
    decreases acc.len(),
{
    if acc.len() == 0 {
        -1
    } else if acc[0].name == name {
        0
    } else {
        let r = first_name_index(acc.skip(1), name);
        if r == -1 {
            -1
        } else {
            1 + r
        }
    }
}

/// The collision policy, applied as one candidate is appended. A candidate
/// whose name is new is simply appended. One that matches an earlier
/// method of the primary surface cannot be dropped: whichever of the two
/// is the plain (non-accessor) method gains the suffix "2". One that
/// matches an earlier method of any other surface is excluded instead of
/// renamed, keeping flattened names stable across metadata versions.
pub open spec fn spec_append_method(acc: Seq<ProjectedV>, cand: ProjectedV, primary: bool) -> Seq<
    ProjectedV,
> {
    let pos = first_name_index(acc, cand.name);
    if pos == -1 {
        acc.push(cand)
    } else if primary {
        if cand.category == MethodCategory::Normal {
            acc.push(ProjectedV { name: cand.name + seq![50u8], ..cand })
        } else {
            acc.update(pos, ProjectedV { name: acc[pos].name + seq![50u8], ..acc[pos] }).push(cand)
        }
    } else {
        acc.push(ProjectedV { excluded: true, ..cand })
    }
}

/// Fold of one interface's raw methods into the projected list.
pub open spec fn spec_project_iface(
    meta: Metadata,
    inc: Inclusion,
    composed: Seq<Composed>,
    i: int,
    k: int,
    acc: Seq<ProjectedV>,
) -> Seq<ProjectedV>
    decreases meta.types@[cdef(composed[i])].methods@.len() - k,
{
    let ms = meta.types@[cdef(composed[i])].methods@;
    if k < 0 || k >= ms.len() {
        acc
    } else {
        let m = ms[k];
        let cand = ProjectedV {
            name: spec_method_name(m),
            category: m.category,
            interface: i,
            method: Option::Some(k),
            excluded: spec_limited_method(meta, inc, m.sig),
        };
        let acc2 = spec_append_method(acc, cand, composed[i].role == Role::PrimaryAbi);
        spec_project_iface(meta, inc, composed, i, k + 1, acc2)
    }
}

/// Fold of the whole composed list, in order, into the projected list.
/// Excluded interfaces are skipped entirely; the sentinel
/// default-activation entry contributes the synthesized constructor.
pub open spec fn spec_project(
    meta: Metadata,
    inc: Inclusion,
    composed: Seq<Composed>,
    i: int,
    acc: Seq<ProjectedV>,
) -> Seq<ProjectedV>
    decreases composed.len() - i,
{
    if i < 0 || i >= composed.len() {
        acc
    } else {
        let e = composed[i];
        let acc2 = if e.excluded {
            acc
        } else if e.role == Role::DefaultActivation {
            acc.push(
                ProjectedV {
                    name: spec_new_name(),
                    category: MethodCategory::Normal,
                    interface: i,
                    method: Option::None,
                    excluded: false,
                },
            )
        } else {
            spec_project_iface(meta, inc, composed, i, 0, acc)
        };
        spec_project(meta, inc, composed, i + 1, acc2)
    }
}

/// The projected method surface of a composed interface list.
pub open spec fn spec_methods(meta: Metadata, inc: Inclusion, composed: Seq<Composed>) -> Seq<
    ProjectedV,
> {
    spec_project(meta, inc, composed, 0, Seq::<ProjectedV>::empty())
}

fn find_name_from(ms: &Vec<Projected>, name: &Vec<u8>, i: usize) -> (r: Option<usize>)
    requires
        i <= ms@.len(),
    ensures
        match r {
            Option::Some(p) => i <= p < ms@.len() && first_name_index(
                pviews(ms@).skip(i as int),
                name@,
            ) == p - i,
            Option::None => first_name_index(pviews(ms@).skip(i as int), name@) == -1,
        },
    decreases ms@.len() - i,
{
    if i == ms.len() {
        proof {
            assert(pviews(ms@).skip(i as int) =~= Seq::<ProjectedV>::empty());
        }
        return Option::None;
    }
    proof {
        assert(pviews(ms@).skip(i as int)[0] == pview(ms@[i as int]));
        assert(pviews(ms@).skip(i as int).skip(1) =~= pviews(ms@).skip(i as int + 1));
    }
    if bytes_eq(&ms[i].name, name) {
        return Option::Some(i);
    }
    find_name_from(ms, name, i + 1)
}

/// Append one candidate under the collision policy.
fn append_method(ms: &mut Vec<Projected>, cand: Projected, primary: bool)
    ensures
        pviews(final(ms)@) == spec_append_method(pviews(old(ms)@), pview(cand), primary),
{
    let ghost acc = pviews(ms@);
    let ghost candv = pview(cand);
    match find_name_from(ms, &cand.name, 0) {
        Option::None => {
            proof {
                assert(acc.skip(0) =~= acc);
            }
            ms.push(cand);
            proof {
                assert(pviews(ms@) =~~= acc.push(candv));
            }
        },
        Option::Some(pos) => {
            proof {
                assert(acc.skip(0) =~= acc);
            }
            if primary {
                match cand.category {
                    MethodCategory::Normal => {
                        let mut renamed = cand;
                        renamed.name.push(50);
                        ms.push(renamed);
                        proof {
                            assert(pviews(ms@) =~~= acc.push(
                                ProjectedV { name: candv.name + seq![50u8], ..candv },
                            ));
                        }
                    },
                    _ => {
                        let mut earlier = ms.remove(pos);
                        earlier.name.push(50);
                        ms.insert(pos, earlier);
                        ms.push(cand);
                        proof {
                            assert(pviews(ms@) =~~= acc.update(
                                pos as int,
                                ProjectedV {
                                    name: acc[pos as int].name + seq![50u8],
                                    ..acc[pos as int]
                                },
                            ).push(candv));
                        }
                    },
                }
            } else {
                let mut dropped = cand;
                dropped.excluded = true;
                ms.push(dropped);
                proof {
                    assert(pviews(ms@) =~~= acc.push(ProjectedV { excluded: true, ..candv }));
                }
            }
        },
    }
}

/// Project the final method surface of a composed interface list, in
/// interface order, each interface's own declaration order preserved,
/// with the collision policy applied incrementally.
pub fn methods(meta: &Metadata, inc: &Inclusion, composed: &Vec<Composed>) -> (r: Vec<Projected>)
    requires
        wf_meta(*meta),
        names_ok(*meta),
        forall|i: int|
            0 <= i < composed@.len() ==> match (#[trigger] composed@[i]).definition {
                Option::Some(id) => id < meta.types@.len(),
                Option::None => composed@[i].role == Role::DefaultActivation,
            },
    ensures
        pviews(r@) == spec_methods(*meta, *inc, composed@),
{
    let mut result: Vec<Projected> = Vec::new();
    let mut i: usize = 0;
    proof {
        assert(pviews(result@) =~= Seq::<ProjectedV>::empty());
    }
    while i < composed.len()
        invariant
            wf_meta(*meta),
            names_ok(*meta),
            forall|t: int|
                0 <= t < composed@.len() ==> match (#[trigger] composed@[t]).definition {
                    Option::Some(id) => id < meta.types@.len(),
                    Option::None => composed@[t].role == Role::DefaultActivation,
                },
            i <= composed@.len(),
            spec_methods(*meta, *inc, composed@) == spec_project(
                *meta,
                *inc,
                composed@,
                i as int,
                pviews(result@),
            ),
        decreases composed@.len() - i,
    {
        let entry = &composed[i];
        if entry.excluded {
        } else {
            match entry.role {
                Role::DefaultActivation => {
                    let ghost acc = pviews(result@);
                    result.push(
                        Projected {
                            name: new_name(),
                            category: MethodCategory::Normal,
                            interface: i,
                            method: Option::None,
                            excluded: false,
                        },
                    );
                    proof {
                        assert(pviews(result@) =~~= acc.push(
                            ProjectedV {
                                name: spec_new_name(),
                                category: MethodCategory::Normal,
                                interface: i as int,
                                method: Option::None,
                                excluded: false,
                            },
                        ));
                    }
                },
                _ => {
                    let id: usize = match &entry.definition {
                        Option::Some(id) => *id,
                        Option::None => {
                            proof {
                                assert(false);
                            }
                            0
                        },
                    };
                    let primary = match entry.role {
                        Role::PrimaryAbi => true,
                        _ => false,
                    };
                    let method_count = meta.types[id].methods.len();
                    let mut k: usize = 0;
                    while k < method_count
                        invariant
                            wf_meta(*meta),
                            names_ok(*meta),
                            i < composed@.len(),
                            (composed@[i as int].definition == Option::Some(id)),
                            id < meta.types@.len(),
                            method_count == meta.types@[id as int].methods@.len(),
                            primary == (composed@[i as int].role == Role::PrimaryAbi),
                            !composed@[i as int].excluded,
                            composed@[i as int].role != Role::DefaultActivation,
                            k <= method_count,
                            spec_methods(*meta, *inc, composed@) == spec_project(
                                *meta,
                                *inc,
                                composed@,
                                i as int + 1,
                                spec_project_iface(
                                    *meta,
                                    *inc,
                                    composed@,
                                    i as int,
                                    k as int,
                                    pviews(result@),
                                ),
                            ),
                        decreases method_count - k,
                    {
                        proof {
                            assert(wf_record(*meta, meta.types@[id as int]));
                            lemma_wf_method_sig_ids(
                                *meta,
                                meta.types@[id as int].methods@[k as int].sig,
                                meta.types@[id as int].generics@.len(),
                            );
                        }
                        let m = &meta.types[id].methods[k];
                        let name = method_name(m);
                        let limited = limited_method(meta, inc, &m.sig);
                        let cand = Projected {
                            name,
                            category: m.category,
                            interface: i,
                            method: Option::Some(k),
                            excluded: limited,
                        };
                        append_method(&mut result, cand, primary);
                        k += 1;
                    }
                },
            }
        }
        i += 1;
    }
    result
}

} // verus!
