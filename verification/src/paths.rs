use vstd::prelude::*;

use crate::model::bytes_eq;

verus! {

/// An ASCII uppercase letter.
pub open spec fn is_upper(c: u8) -> bool {
    65 <= c <= 90
}

/// An ASCII lowercase letter or digit.
pub open spec fn is_lower_or_digit(c: u8) -> bool {
    (97 <= c <= 122) || (48 <= c <= 57)
}

/// Lowercase an ASCII uppercase letter; leave every other byte alone.
pub open spec fn to_lower(c: u8) -> u8 {
    if is_upper(c) {
        (c + 32) as u8
    } else {
        c
    }
}

/// Snake folding of `s` when the character written just before it was a
/// lowercase letter or digit iff `prev`: each uppercase letter is
/// lowercased, and an underscore is inserted where an uppercase letter
/// follows a lowercase letter or digit.
pub open spec fn spec_snake_from(s: Seq<u8>, prev: bool) -> Seq<u8>
    decreases s.len(),
{
    if s.len() == 0 {
        Seq::<u8>::empty()
    } else {
        let c = s[0];
        let rest = spec_snake_from(s.skip(1), is_lower_or_digit(c));
        if is_upper(c) {
            (if prev {
                seq![95u8]
            } else {
                Seq::<u8>::empty()
            }) + seq![to_lower(c)] + rest
        } else {
            seq![c] + rest
        }
    }
}

/// Snake folding of a whole name.
pub open spec fn spec_snake(s: Seq<u8>) -> Seq<u8> {
    spec_snake_from(s, false)
}

/// Whether the last byte already written calls for an underscore before a
/// following uppercase letter.
pub open spec fn ends_lower(s: Seq<u8>) -> bool {
    s.len() > 0 && is_lower_or_digit(s[s.len() - 1])
}

fn append_snake_from(result: &mut Vec<u8>, source: &Vec<u8>, i: usize, prev: bool)
    requires
        i <= source@.len(),
    ensures
        final(result)@ == old(result)@ + spec_snake_from(source@.skip(i as int), prev),
    decreases source@.len() - i,
{
    if i == source.len() {
        proof {
            assert(source@.skip(i as int) =~= Seq::<u8>::empty());
            assert(result@ =~= result@ + Seq::<u8>::empty());
        }
        return ;
    }
    let c = source[i];
    let upper = 65 <= c && c <= 90;
    if upper {
        if prev {
            result.push(95);
        }
        result.push(c + 32);
    } else {
        result.push(c);
    }
    let next_prev = (97 <= c && c <= 122) || (48 <= c && c <= 57);
    append_snake_from(result, source, i + 1, next_prev);
    proof {
        let s = source@.skip(i as int);
        assert(s[0] == source@[i as int]);
        assert(s.skip(1) =~= source@.skip(i as int + 1));
        let rest = spec_snake_from(source@.skip(i as int + 1), is_lower_or_digit(c));
        if is_upper(c) {
            if prev {
                assert(result@ =~= old(result)@ + ((seq![95u8] + seq![to_lower(c)]) + rest));
            } else {
                assert(result@ =~= old(result)@ + ((Seq::<u8>::empty() + seq![to_lower(c)])
                    + rest));
            }
        } else {
            assert(result@ =~= old(result)@ + (seq![c] + rest));
        }
    }
}

/// Append the snake folding of `source` to `result`, inserting an
/// underscore where the boundary between the two calls for one.
pub fn append_snake(result: &mut Vec<u8>, source: &Vec<u8>)
    ensures
        final(result)@ == old(result)@ + spec_snake_from(source@, ends_lower(old(result)@)),
{
    let prev = if result.len() == 0 {
        false
    } else {
        let c = result[result.len() - 1];
        (97 <= c && c <= 122) || (48 <= c && c <= 57)
    };
    proof {
        assert(source@.skip(0) =~= source@);
    }
    append_snake_from(result, source, 0, prev);
}

/// The snake folding of a whole name.
pub fn to_snake(source: &Vec<u8>) -> (r: Vec<u8>)
    ensures
        r@ == spec_snake(source@),
{
    let mut r: Vec<u8> = Vec::new();
    append_snake(&mut r, source);
    r
}

/// The segments of a dot-separated namespace. The empty namespace has one
/// empty segment.
pub open spec fn spec_split(s: Seq<u8>) -> Seq<Seq<u8>>
    decreases s.len(),
{
    if s.len() == 0 {
        seq![Seq::<u8>::empty()]
    } else if s[0] == 46 {
        seq![Seq::<u8>::empty()] + spec_split(s.skip(1))
    } else {
        let r = spec_split(s.skip(1));
        seq![seq![s[0]] + r[0]] + r.skip(1)
    }
}

/// The views of a list of byte strings.
pub open spec fn seg_views(r: Seq<Vec<u8>>) -> Seq<Seq<u8>> {
    r.map_values(|v: Vec<u8>| v@)
}

fn split_from(ns: &Vec<u8>, i: usize) -> (r: Vec<Vec<u8>>)
    requires
        i <= ns@.len(),
    ensures
        seg_views(r@) == spec_split(ns@.skip(i as int)),
        r@.len() >= 1,
    decreases ns@.len() - i,
{
    if i == ns.len() {
        let mut r: Vec<Vec<u8>> = Vec::new();
        r.push(Vec::new());
        proof {
            assert(ns@.skip(i as int) =~= Seq::<u8>::empty());
            assert(seg_views(r@) =~~= seq![Seq::<u8>::empty()]);
        }
        return r;
    }
    let c = ns[i];
    let mut rest = split_from(ns, i + 1);
    proof {
        let s = ns@.skip(i as int);
        assert(s[0] == ns@[i as int]);
        assert(s.skip(1) =~= ns@.skip(i as int + 1));
    }
    if c == 46 {
        rest.insert(0, Vec::new());
        proof {
            assert(seg_views(rest@) =~~= seq![Seq::<u8>::empty()] + spec_split(
                ns@.skip(i as int + 1),
            ));
        }
        rest
    } else {
        let mut first = rest.remove(0);
        first.insert(0, c);
        rest.insert(0, first);
        proof {
            let sub = spec_split(ns@.skip(i as int + 1));
            assert(seg_views(rest@) =~~= seq![seq![ns@[i as int]] + sub[0]] + sub.skip(1));
        }
        rest
    }
}

/// Split a dot-separated namespace into its segments.
pub fn split_namespace(ns: &Vec<u8>) -> (r: Vec<Vec<u8>>)
    ensures
        seg_views(r@) == spec_split(ns@),
        r@.len() >= 1,
{
    proof {
        assert(ns@.skip(0) =~= ns@);
    }
    split_from(ns, 0)
}

/// The length of the longest shared leading sequence of segments.
pub open spec fn spec_lcp(a: Seq<Seq<u8>>, b: Seq<Seq<u8>>) -> int
    decreases a.len(),
{
    if a.len() == 0 || b.len() == 0 || a[0] != b[0] {
        0
    } else {
        1 + spec_lcp(a.skip(1), b.skip(1))
    }
}

pub proof fn lemma_lcp_bounds(a: Seq<Seq<u8>>, b: Seq<Seq<u8>>)
    ensures
        0 <= spec_lcp(a, b),
        spec_lcp(a, b) <= a.len(),
        spec_lcp(a, b) <= b.len(),
    decreases a.len(),
{
    if !(a.len() == 0 || b.len() == 0 || a[0] != b[0]) {
        lemma_lcp_bounds(a.skip(1), b.skip(1));
    }
}

/// Two equal segment lists share their whole length.
pub proof fn lemma_lcp_identity(a: Seq<Seq<u8>>)
    ensures
        spec_lcp(a, a) == a.len(),
    decreases a.len(),
{
    if a.len() != 0 {
        lemma_lcp_identity(a.skip(1));
    }
}

fn lcp_from(a: &Vec<Vec<u8>>, b: &Vec<Vec<u8>>, i: usize) -> (r: usize)
    requires
        i <= a@.len(),
        i <= b@.len(),
    ensures
        r as int == spec_lcp(seg_views(a@).skip(i as int), seg_views(b@).skip(i as int)),
        r <= a@.len() - i,
    decreases a@.len() - i,
{
    if i == a.len() || i == b.len() || !bytes_eq(&a[i], &b[i]) {
        proof {
            let sa = seg_views(a@).skip(i as int);
            let sb = seg_views(b@).skip(i as int);
            if i < a@.len() && i < b@.len() {
                assert(sa[0] == a@[i as int]@);
                assert(sb[0] == b@[i as int]@);
            } else {
                assert(sa.len() == 0 || sb.len() == 0);
            }
        }
        return 0;
    }
    let rest = lcp_from(a, b, i + 1);
    proof {
        let sa = seg_views(a@).skip(i as int);
        let sb = seg_views(b@).skip(i as int);
        assert(sa[0] == a@[i as int]@);
        assert(sb[0] == b@[i as int]@);
        assert(sa.skip(1) =~= seg_views(a@).skip(i as int + 1));
        assert(sb.skip(1) =~= seg_views(b@).skip(i as int + 1));
    }
    rest + 1
}

/// A relative path between two namespaces: a number of up-levels followed
/// by the remaining destination segments, snake-folded.
#[derive(Debug)]
pub struct RelPath {
    pub up: usize,
    pub segments: Vec<Vec<u8>>,
}

/// Resolve the minimal relative path from `source` to `destination`: drop
/// the longest shared leading segments, go up one level for each remaining
/// source segment, then name each remaining destination segment. Equal
/// namespaces resolve to the empty path.
pub fn namespace_path(source: &Vec<u8>, destination: &Vec<u8>) -> (r: RelPath)
    ensures
        ({
            let ss = spec_split(source@);
            let ds = spec_split(destination@);
            let k = spec_lcp(ss, ds);
            &&& r.up as int == ss.len() - k
            &&& r.segments@.len() == ds.len() - k
            &&& forall|j: int|
                0 <= j < r.segments@.len() ==> (#[trigger] r.segments@[j])@ == spec_snake(
                    ds[k + j],
                )
        }),
        source@ == destination@ ==> r.up == 0 && r.segments@.len() == 0,
{
    let ss = split_namespace(source);
    let ds = split_namespace(destination);
    proof {
        assert(seg_views(ss@).skip(0) =~= seg_views(ss@));
        assert(seg_views(ds@).skip(0) =~= seg_views(ds@));
        lemma_lcp_bounds(seg_views(ss@), seg_views(ds@));
    }
    let k = lcp_from(&ss, &ds, 0);
    let up = ss.len() - k;
    let mut segments: Vec<Vec<u8>> = Vec::new();
    let mut j = k;
    while j < ds.len()
        invariant
            k <= j <= ds@.len(),
            segments@.len() == j - k,
            forall|t: int|
                0 <= t < segments@.len() ==> (#[trigger] segments@[t])@ == spec_snake(
                    seg_views(ds@)[k + t],
                ),
        decreases ds@.len() - j,
    {
        segments.push(to_snake(&ds[j]));
        j += 1;
    }
    proof {
        if source@ == destination@ {
            lemma_lcp_identity(seg_views(ss@));
        }
    }
    RelPath { up, segments }
}

} // verus!
