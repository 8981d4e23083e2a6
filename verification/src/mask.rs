//! The mask definition: a named, shared auxiliary definition whose
//! content is rendered to a luminance buffer and multiplied into the
//! alpha of the group that references it.

use vstd::prelude::*;
use std::rc::Rc;
use vstd::seq_lib::*;
use vstd::set_lib::{set_int_range, lemma_int_range, lemma_len_subset};
use crate::geom::{Rect, ScreenSize};
use crate::tree::{Node, Units, node_wf, mask_wf};
use crate::render::{mul_frac, spec_mul_frac};
use crate::cache::{
    Cache, spec_assoc_get, assoc_keys, lemma_assoc_get_push, lemma_assoc_get_none_iff,
    lemma_assoc_get_some_index,
};

verus! {

/// A resolved mask definition. Values are shared by reference: every
/// group that references the same source definition holds the same
/// cached instance.
#[derive(Debug)]
pub struct Mask {
    /// The source element's name, kept for diagnostics and writing.
    pub id: String,
    /// How the region rectangle is interpreted.
    pub units: Units,
    /// How the content subtree is placed.
    pub content_units: Units,
    /// The masking region, in the space chosen by `units`.
    pub rect: Rect,
    /// An optional chained mask, applied multiplicatively after this one.
    pub mask: Option<Rc<Mask>>,
    /// The content subtree; always a group with at least one child.
    pub root: Rc<Node>,
}

/// A source mask definition, as the parsing collaborator hands it over:
/// attributes still optional, the chain a reference by identity, the
/// content subtree already converted.
pub struct MaskSource {
    /// The source element's identity, the cache key.
    pub id: u64,
    /// The source element's name.
    pub name: String,
    /// The region units, if the source specifies them.
    pub units: Option<Units>,
    /// The content units, if the source specifies them.
    pub content_units: Option<Units>,
    /// The region rectangle attributes, each optional.
    pub x: Option<i64>,
    pub y: Option<i64>,
    pub width: Option<i64>,
    pub height: Option<i64>,
    /// A chained mask, referenced by source identity.
    pub mask: Option<u64>,
    /// The content subtree; a group node.
    pub root: Rc<Node>,
}

/// The region units a source resolves to: bounding-box-relative unless
/// specified otherwise.
pub open spec fn spec_units_of(d: MaskSource) -> Units {
    match d.units {
        Some(u) => u,
        None => Units::ObjectBoundingBox,
    }
}

/// The content units a source resolves to: user space unless specified
/// otherwise.
pub open spec fn spec_content_units_of(d: MaskSource) -> Units {
    match d.content_units {
        Some(u) => u,
        None => Units::UserSpaceOnUse,
    }
}

/// The policy default for one unspecified rectangle attribute, given in
/// percent: in bounding-box units the value itself (hundredths of the
/// box), in user space that fraction of the viewport dimension.
pub open spec fn spec_default_component(units: Units, total: int, pct: int) -> int {
    match units {
        Units::ObjectBoundingBox => pct,
        Units::UserSpaceOnUse => spec_mul_frac(total, pct),
    }
}

/// The region rectangle a source resolves to: each attribute taken as
/// given, or defaulted to the policy's −10 % / 120 % box.
pub open spec fn spec_resolved_rect(d: MaskSource, vp: ScreenSize) -> Rect {
    let u = spec_units_of(d);
    Rect {
        x: (match d.x {
            Some(v) => v as int,
            None => spec_default_component(u, vp.width as int, -10),
        }) as i64,
        y: (match d.y {
            Some(v) => v as int,
            None => spec_default_component(u, vp.height as int, -10),
        }) as i64,
        w: (match d.width {
            Some(v) => v as int,
            None => spec_default_component(u, vp.width as int, 120),
        }) as i64,
        h: (match d.height {
            Some(v) => v as int,
            None => spec_default_component(u, vp.height as int, 120),
        }) as i64,
    }
}

/// Local validity of one source definition: a usable region rectangle
/// and a non-empty content subtree.
pub open spec fn spec_def_ok(d: MaskSource, vp: ScreenSize) -> bool {
    spec_resolved_rect(d, vp).is_valid() && (*d.root matches Node::Group(g) && g.children@.len()
        > 0)
}

/// Whether some source definition carries this identity.
pub open spec fn spec_has_def(s: Seq<MaskSource>, id: u64) -> bool {
    exists|k: int| 0 <= k < s.len() && (#[trigger] s[k]).id == id
}

/// The index of the definition with this identity; meaningful when the
/// identity exists and identities are distinct.
pub open spec fn spec_index_of(s: Seq<MaskSource>, id: u64) -> int {
    choose|k: int| 0 <= k < s.len() && (#[trigger] s[k]).id == id
}

/// The definition with this identity.
pub open spec fn spec_def_of(s: Seq<MaskSource>, id: u64) -> MaskSource {
    s[spec_index_of(s, id)]
}

/// Well-formedness of a set of source definitions: distinct identities
/// — the parser's element identities are unique — and well-formed
/// content subtrees.
pub open spec fn defs_wf(s: Seq<MaskSource>) -> bool {
    &&& s.map_values(|d: MaskSource| d.id).no_duplicates()
    &&& forall|i: int| 0 <= i < s.len() ==> node_wf(*(#[trigger] s[i]).root)
}

/// Whether the chain of references starting at `id` reaches an end
/// within `fuel` steps. With distinct identities a chain that ever
/// revisits an identity never ends: it is cyclic.
pub open spec fn spec_chain_terminates(s: Seq<MaskSource>, id: u64, fuel: nat) -> bool
    decreases fuel,
{
    if !spec_has_def(s, id) {
        true
    } else {
        match spec_def_of(s, id).mask {
            None => true,
            Some(l) => fuel > 0 && spec_chain_terminates(s, l, (fuel - 1) as nat),
        }
    }
}

/// Termination within some fuel implies termination within more.
pub proof fn lemma_term_monotone(s: Seq<MaskSource>, id: u64, f1: nat, f2: nat)
    requires
        spec_chain_terminates(s, id, f1),
        f1 <= f2,
    ensures
        spec_chain_terminates(s, id, f2),
    decreases f1,
{
    if spec_has_def(s, id) {
        match spec_def_of(s, id).mask {
            None => {},
            Some(l) => {
                lemma_term_monotone(s, l, (f1 - 1) as nat, (f2 - 1) as nat);
            },
        }
    }
}

/// With distinct identities, the definition found at an index with a
/// matching identity is the definition of that identity.
pub proof fn lemma_index_unique(s: Seq<MaskSource>, id: u64, j: int)
    requires
        s.map_values(|d: MaskSource| d.id).no_duplicates(),
        0 <= j < s.len(),
        s[j].id == id,
    ensures
        spec_has_def(s, id),
        spec_index_of(s, id) == j,
        spec_def_of(s, id) == s[j],
{
    assert(spec_has_def(s, id));
    let k = spec_index_of(s, id);
    assert(0 <= k < s.len() && s[k].id == id);
    let ids = s.map_values(|d: MaskSource| d.id);
    assert(ids[k] == s[k].id);
    assert(ids[j] == s[j].id);
    if k != j {
        assert(ids[k] == ids[j]);
        assert(false);
    }
}

/// The shape the resolver's walk leaves behind: a chain of definition
/// indices starting at `id`, each linking to the next.
pub open spec fn walk_shape(s: Seq<MaskSource>, id: u64, stack: Seq<usize>) -> bool {
    &&& forall|t: int| 0 <= t < stack.len() ==> (#[trigger] stack[t]) < s.len()
    &&& (stack.len() > 0 ==> s[stack[0] as int].id == id)
    &&& forall|t: int|
        0 <= t < stack.len() - 1 ==> (#[trigger] s[stack[t] as int]).mask == Some(
            s[stack[t + 1] as int].id,
        )
}

/// A walked chain whose last definition links nowhere terminates, with
/// fuel one less than its length.
pub proof fn lemma_stack_terminates(s: Seq<MaskSource>, stack: Seq<usize>, j: int)
    requires
        s.map_values(|d: MaskSource| d.id).no_duplicates(),
        walk_shape(s, s[stack[0] as int].id, stack),
        stack.len() > 0,
        s[stack[stack.len() - 1] as int].mask is None,
        0 <= j < stack.len(),
    ensures
        spec_chain_terminates(s, s[stack[j] as int].id, (stack.len() - 1 - j) as nat),
    decreases stack.len() - j,
{
    let idj = s[stack[j] as int].id;
    lemma_index_unique(s, idj, stack[j] as int);
    if j == stack.len() - 1 {
    } else {
        lemma_stack_terminates(s, stack, j + 1);
    }
}

/// Distinct indices below a bound are at most that many.
pub proof fn lemma_distinct_index_bound(stack: Seq<usize>, n: int)
    requires
        stack.no_duplicates(),
        forall|t: int| 0 <= t < stack.len() ==> (#[trigger] stack[t]) < n,
        0 <= n,
    ensures
        stack.len() <= n,
{
    let f = |v: usize| v as int;
    let si = stack.map_values(f);
    stack.lemma_no_duplicates_injective(f);
    si.unique_seq_to_set();
    assert forall|x: int| si.to_set().contains(x) implies set_int_range(0, n).contains(x) by {
        let t = choose|t: int| 0 <= t < si.len() && si[t] == x;
        assert(si[t] == stack[t] as int);
    }
    assert(si.to_set().subset_of(set_int_range(0, n)));
    lemma_int_range(0, n);
    lemma_len_subset(si.to_set(), set_int_range(0, n));
}

/// Resolves a source's region units.
fn units_of(d: &MaskSource) -> (u: Units)
    ensures
        u == spec_units_of(*d),
{
    match d.units {
        Some(u) => u,
        None => Units::ObjectBoundingBox,
    }
}

/// Resolves a source's content units.
fn content_units_of(d: &MaskSource) -> (u: Units)
    ensures
        u == spec_content_units_of(*d),
{
    match d.content_units {
        Some(u) => u,
        None => Units::UserSpaceOnUse,
    }
}

/// Computes the policy default for one unspecified attribute.
fn default_component(units: Units, total: u32, pct: i64) -> (v: i64)
    requires
        total <= crate::geom::MAX_DIM,
        -100 <= pct <= 120,
    ensures
        v as int == spec_default_component(units, total as int, pct as int),
{
    match units {
        Units::ObjectBoundingBox => pct,
        Units::UserSpaceOnUse => mul_frac(total as i64, pct),
    }
}

/// Resolves a source's region rectangle with policy defaults, or
/// nothing when the resolved rectangle is degenerate or out of range.
fn resolved_rect(d: &MaskSource, vp: ScreenSize) -> (r: Option<Rect>)
    requires
        vp.is_valid(),
    ensures
        r is Some <==> spec_resolved_rect(*d, vp).is_valid(),
        r matches Some(rr) ==> rr == spec_resolved_rect(*d, vp),
{
    let units = units_of(d);
    let x: i64 = match d.x {
        Some(v) => v,
        None => default_component(units, vp.width, -10),
    };
    let y: i64 = match d.y {
        Some(v) => v,
        None => default_component(units, vp.height, -10),
    };
    let w: i64 = match d.width {
        Some(v) => v,
        None => default_component(units, vp.width, 120),
    };
    let h: i64 = match d.height {
        Some(v) => v,
        None => default_component(units, vp.height, 120),
    };
    Rect::new(x, y, w, h)
}

/// Finds the definition carrying an identity.
fn find_def(defs: &Vec<MaskSource>, id: u64) -> (r: Option<usize>)
    ensures
        r matches Some(j) ==> j < defs@.len() && defs@[j as int].id == id,
        r is None ==> !spec_has_def(defs@, id),
{
    let n: usize = defs.len();
    let mut i: usize = 0;
    while i < n
        invariant
            n == defs@.len(),
            i <= n,
            forall|k: int| 0 <= k < i as int ==> (#[trigger] defs@[k]).id != id,
        decreases n - i,
    {
        if defs[i].id == id {
            return Some(i);
        }
        i = i + 1;
    }
    proof {
        if spec_has_def(defs@, id) {
            let k = choose|k: int| 0 <= k < defs@.len() && (#[trigger] defs@[k]).id == id;
            assert(defs@[k].id != id);
        }
    }
    None
}

/// Tests whether an index is already on the walk's stack.
fn contains_idx(stack: &Vec<usize>, j: usize) -> (b: bool)
    ensures
        b == stack@.contains(j),
{
    let n: usize = stack.len();
    let mut i: usize = 0;
    while i < n
        invariant
            n == stack@.len(),
            i <= n,
            forall|k: int| 0 <= k < i as int ==> (#[trigger] stack@[k]) != j,
        decreases n - i,
    {
        if stack[i] == j {
            assert(stack@[i as int] == j);
            return true;
        }
        i = i + 1;
    }
    proof {
        if stack@.contains(j) {
            let k = choose|k: int| 0 <= k < stack@.len() && (#[trigger] stack@[k]) == j;
            assert(stack@[k] != j);
        }
    }
    false
}

/// What the walk guarantees of every stacked definition.
pub open spec fn stack_entries_ok(
    defs: Seq<MaskSource>,
    stack: Seq<usize>,
    vp: ScreenSize,
    masks: Seq<(u64, Rc<Mask>)>,
) -> bool {
    forall|u: int|
        0 <= u < stack.len() ==> spec_def_ok(defs[(#[trigger] stack[u]) as int], vp)
            && spec_assoc_get(masks, defs[stack[u] as int].id) is None
}

/// Walks the chain of references from `id`: collects the definitions to
/// build, in order, until the chain ends, reaches a cached definition,
/// or fails — on a missing target, an invalid definition, or a cycle.
#[verifier::rlimit(60)]
fn walk_chain(defs: &Vec<MaskSource>, id: u64, viewport: ScreenSize, cache: &Cache) -> (r: Option<
    (Vec<usize>, Option<Rc<Mask>>),
>)
    requires
        defs_wf(defs@),
        viewport.is_valid(),
        cache.wf(),
    ensures
        !spec_has_def(defs@, id) ==> r is None,
        spec_has_def(defs@, id) ==> (spec_assoc_get(cache.masks@, id) matches Some(m) ==> (
        r matches Some(t) && t.0@.len() == 0 && t.1 == Some(m))),
        spec_has_def(defs@, id) && spec_assoc_get(cache.masks@, id) is None && !spec_def_ok(
            spec_def_of(defs@, id),
            viewport,
        ) ==> r is None,
        r matches Some(t) ==> {
            &&& t.0@.no_duplicates()
            &&& walk_shape(defs@, id, t.0@)
            &&& t.0@.len() <= defs@.len()
            &&& stack_entries_ok(defs@, t.0@, viewport, cache.masks@)
            &&& (t.0@.len() == 0 ==> t.1 is Some)
            &&& (match t.1 {
                None => t.0@.len() > 0 && defs@[t.0@[t.0@.len() - 1] as int].mask is None,
                Some(b) => mask_wf(*b) && (if t.0@.len() == 0 {
                    spec_assoc_get(cache.masks@, id) == Some(b)
                } else {
                    defs@[t.0@[t.0@.len() - 1] as int].mask matches Some(l) && spec_assoc_get(
                        cache.masks@,
                        l,
                    ) == Some(b)
                }),
            })
        },
{
    let mut stack: Vec<usize> = Vec::new();
    let mut cur: u64 = id;
    loop
        invariant
            defs_wf(defs@),
            viewport.is_valid(),
            cache.wf(),
            stack@.no_duplicates(),
            walk_shape(defs@, id, stack@),
            stack@.len() <= defs@.len(),
            stack_entries_ok(defs@, stack@, viewport, cache.masks@),
            stack@.len() == 0 ==> cur == id,
            stack@.len() > 0 ==> defs@[stack@[stack@.len() - 1] as int].mask == Some(cur),
        decreases defs@.len() - stack@.len(),
    {
        let j: usize = match find_def(defs, cur) {
            Some(j) => j,
            None => {
                return None;
            },
        };
        proof {
            lemma_index_unique(defs@, cur, j as int);
        }
        match cache.get_mask(cur) {
            Some(m) => {
                proof {
                    lemma_assoc_get_some_index(cache.masks@, cur);
                    if stack@.len() > 0 {
                        lemma_index_unique(defs@, id, stack@[0] as int);
                    }
                }
                return Some((stack, Some(m)));
            },
            None => {},
        }
        let d_ok: bool = match resolved_rect(&defs[j], viewport) {
            Some(_) => defs[j].root.has_children(),
            None => false,
        };
        if !d_ok {
            return None;
        }
        if contains_idx(&stack, j) {
            return None;
        }
        stack.push(j);
        proof {
            lemma_distinct_index_bound(stack@, defs@.len() as int);
        }
        match &defs[j].mask {
            None => {
                proof {
                    lemma_index_unique(defs@, id, stack@[0] as int);
                }
                return Some((stack, None));
            },
            Some(l) => {
                cur = *l;
            },
        }
    }
}

/// Resolves a mask definition by source identity: the memoizing,
/// cycle-safe conversion of shared definitions. A cache hit
/// returns the cached shared instance; otherwise the definition — and
/// first its whole chain — is validated and built, and every built
/// definition is stored in the cache. Failures (missing or invalid
/// definition anywhere on the chain, empty content, a cycle) return
/// nothing and leave the cache unchanged.
#[verifier::rlimit(100)]
pub fn convert(defs: &Vec<MaskSource>, id: u64, viewport: ScreenSize, cache: &mut Cache) -> (r:
    Option<Rc<Mask>>)
    requires
        defs_wf(defs@),
        viewport.is_valid(),
        old(cache).wf(),
    ensures
        final(cache).wf(),
        final(cache).clip_paths@ == old(cache).clip_paths@,
        forall|k: u64|
            (#[trigger] spec_assoc_get(old(cache).masks@, k)) matches Some(m) ==> spec_assoc_get(
                final(cache).masks@,
                k,
            ) == Some(m),
        spec_has_def(defs@, id) ==> (spec_assoc_get(old(cache).masks@, id) matches Some(m) ==> r
            == Some(m) && final(cache).masks@ == old(cache).masks@),
        r matches Some(m) ==> spec_assoc_get(final(cache).masks@, id) == Some(m) && mask_wf(*m),
        spec_assoc_get(old(cache).masks@, id) is None && !spec_has_def(defs@, id) ==> r is None,
        spec_assoc_get(old(cache).masks@, id) is None && spec_has_def(defs@, id) && !spec_def_ok(
            spec_def_of(defs@, id),
            viewport,
        ) ==> r is None,
        r is None ==> final(cache).masks@ == old(cache).masks@,
        spec_assoc_get(old(cache).masks@, id) is None ==> (r matches Some(m) ==> ({
            let d = spec_def_of(defs@, id);
            &&& spec_has_def(defs@, id)
            &&& m.units == spec_units_of(d)
            &&& m.content_units == spec_content_units_of(d)
            &&& m.rect == spec_resolved_rect(d, viewport)
            &&& m.id@ == d.name@
            &&& m.root == d.root
            &&& (d.mask is None ==> m.mask is None)
            &&& (d.mask matches Some(l) ==> (m.mask matches Some(lm) && spec_assoc_get(
                final(cache).masks@,
                l,
            ) == Some(lm)))
        })),
        old(cache).masks@.len() == 0 && !spec_chain_terminates(defs@, id, defs@.len() as nat)
            ==> r is None,
{
    let walked = match walk_chain(defs, id, viewport, cache) {
        Some(t) => t,
        None => {
            return None;
        },
    };
    let (stack, base0) = walked;
    proof {
        if old(cache).masks@.len() == 0 {
            assert(spec_assoc_get(old(cache).masks@, id) is None);
            match &base0 {
                Some(b) => {
                    assert(false);
                },
                None => {
                    lemma_stack_terminates(defs@, stack@, 0);
                    lemma_term_monotone(
                        defs@,
                        id,
                        (stack@.len() - 1) as nat,
                        defs@.len() as nat,
                    );
                },
            }
        }
    }
    let ghost old_masks = old(cache).masks@;
    let mut base: Option<Rc<Mask>> = base0;
    let mut j: usize = stack.len();
    while j > 0
        invariant
            defs_wf(defs@),
            viewport.is_valid(),
            cache.wf(),
            cache.clip_paths@ == old(cache).clip_paths@,
            old_masks == old(cache).masks@,
            j <= stack@.len(),
            stack@.no_duplicates(),
            walk_shape(defs@, id, stack@),
            stack@.len() <= defs@.len(),
            stack_entries_ok(defs@, stack@, viewport, old_masks),
            stack@.len() > 0 ==> defs@[stack@[0] as int].id == id,
            forall|k: u64|
                (#[trigger] spec_assoc_get(old_masks, k)) matches Some(m) ==> spec_assoc_get(
                    cache.masks@,
                    k,
                ) == Some(m),
            forall|t: int|
                0 <= t < j as int ==> spec_assoc_get(
                    cache.masks@,
                    defs@[(#[trigger] stack@[t]) as int].id,
                ) is None,
            j == stack@.len() ==> base == base0 && cache.masks@ == old_masks,
            j < stack@.len() ==> (base matches Some(b) && {
                let dj = defs@[stack@[j as int] as int];
                &&& mask_wf(*b)
                &&& spec_assoc_get(cache.masks@, dj.id) == Some(b)
                &&& b.units == spec_units_of(dj)
                &&& b.content_units == spec_content_units_of(dj)
                &&& b.rect == spec_resolved_rect(dj, viewport)
                &&& b.id@ == dj.name@
                &&& b.root == dj.root
                &&& (dj.mask is None ==> b.mask is None)
                &&& (dj.mask matches Some(l) ==> (b.mask matches Some(lm) && spec_assoc_get(
                    cache.masks@,
                    l,
                ) == Some(lm)))
            }),
            base matches Some(b0) ==> mask_wf(*b0),
            base0 matches Some(bb) ==> (if stack@.len() == 0 {
                spec_assoc_get(old_masks, id) == Some(bb)
            } else {
                defs@[stack@[stack@.len() - 1] as int].mask matches Some(l) && spec_assoc_get(
                    old_masks,
                    l,
                ) == Some(bb)
            }),
            base0 is None ==> stack@.len() > 0 && defs@[stack@[stack@.len() - 1] as int].mask
                is None,
        decreases j,
    {
        j = j - 1;
        let idx: usize = stack[j];
        proof {
            lemma_index_unique(defs@, defs@[idx as int].id, idx as int);
        }
        let d = &defs[idx];
        let units = units_of(d);
        let content_units = content_units_of(d);
        let rect: Rect = match resolved_rect(d, viewport) {
            Some(rr) => rr,
            None => {
                proof {
                    assert(false);
                }
                return None;
            },
        };
        let name: String = d.name.clone();
        let root: Rc<Node> = d.root.clone();
        let m = Mask { id: name, units, content_units, rect, mask: base, root };
        let rc: Rc<Mask> = Rc::new(m);
        let ghost pre_masks = cache.masks@;
        let ghost myid = defs@[idx as int].id;
        proof {
            assert forall|t: int|
                0 <= t < stack@.len() && t != j as int implies defs@[(#[trigger] stack@[t]) as int].id
                != myid by {
                if defs@[stack@[t] as int].id == myid {
                    lemma_index_unique(defs@, myid, stack@[t] as int);
                    lemma_index_unique(defs@, myid, idx as int);
                    assert(stack@[t] == stack@[j as int]);
                    assert(false);
                }
            }
            assert(spec_assoc_get(pre_masks, myid) is None);
        }
        cache.masks.push((d.id, rc.clone()));
        proof {
            lemma_assoc_get_none_iff(pre_masks, myid);
            assert(assoc_keys(cache.masks@) =~= assoc_keys(pre_masks).push(d.id));
            assert(forall|i: int|
                0 <= i < assoc_keys(pre_masks).len() ==> (#[trigger] assoc_keys(pre_masks)[i])
                    != myid);
            assert(assoc_keys(cache.masks@).no_duplicates());
            lemma_assoc_get_push(pre_masks, (d.id, rc), myid);
            assert(spec_assoc_get(cache.masks@, myid) == Some(rc));
            assert forall|k: u64|
                (#[trigger] spec_assoc_get(old_masks, k)) is Some implies spec_assoc_get(
                cache.masks@,
                k,
            ) == spec_assoc_get(old_masks, k) by {
                lemma_assoc_get_push(pre_masks, (d.id, rc), k);
            }
            assert forall|t: int| 0 <= t < j as int implies spec_assoc_get(
                cache.masks@,
                defs@[(#[trigger] stack@[t]) as int].id,
            ) is None by {
                lemma_assoc_get_push(pre_masks, (d.id, rc), defs@[stack@[t] as int].id);
            }
            if j as int + 1 < stack@.len() {
                lemma_assoc_get_push(pre_masks, (d.id, rc), defs@[stack@[j + 1] as int].id);
            }
            assert(mask_wf(*rc));
        }
        base = Some(rc);
    }
    proof {
        if stack@.len() == 0 {
            match &base {
                Some(b) => {
                    lemma_assoc_get_some_index(old(cache).masks@, id);
                },
                None => {},
            }
        } else {
            lemma_index_unique(defs@, id, stack@[0] as int);
        }
    }
    base
}

} // verus!
