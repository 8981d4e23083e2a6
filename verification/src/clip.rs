//! The clip-path definition: the geometric sibling of a mask — its
//! content forms a coverage stencil intersected with the alpha of the
//! group that references it.

use vstd::prelude::*;
use std::rc::Rc;
use vstd::seq_lib::*;
use vstd::set_lib::{set_int_range, lemma_int_range, lemma_len_subset};
use crate::geom::{Rect, ScreenSize};
use crate::tree::{Node, Units, node_wf, clip_wf};
use crate::render::{mul_frac, spec_mul_frac};
use crate::cache::{
    Cache, spec_assoc_get, assoc_keys, lemma_assoc_get_push, lemma_assoc_get_none_iff,
    lemma_assoc_get_some_index,
};

verus! {

/// A resolved clip-path definition, shared by reference like a mask.
#[derive(Debug)]
pub struct ClipPath {
    /// The source element's name, kept for diagnostics and writing.
    pub id: String,
    /// How the region rectangle is interpreted.
    pub units: Units,
    /// The clipping region, in the space chosen by `units`.
    pub rect: Rect,
    /// An optional chained clip path, intersected after this one.
    pub clip_path: Option<Rc<ClipPath>>,
    /// The clip geometry; always a group with at least one child.
    pub root: Rc<Node>,
}

/// A source clip-path definition, as the parsing collaborator hands it
/// over:
/// attributes still optional, the chain a reference by identity, the
/// content subtree already converted.
pub struct ClipPathSource {
    /// The source element's identity, the cache key.
    pub id: u64,
    /// The source element's name.
    pub name: String,
    /// The region units, if the source specifies them.
    pub units: Option<Units>,
    /// The region rectangle attributes, each optional.
    pub x: Option<i64>,
    pub y: Option<i64>,
    pub width: Option<i64>,
    pub height: Option<i64>,
    /// A chained clip path, referenced by source identity.
    pub clip_path: Option<u64>,
    /// The content subtree; a group node.
    pub root: Rc<Node>,
}

/// The region units a source resolves to: bounding-box-relative unless
/// specified otherwise.
pub open spec fn spec_clip_units_of(d: ClipPathSource) -> Units {
    match d.units {
        Some(u) => u,
        None => Units::ObjectBoundingBox,
    }
}

/// The policy default for one unspecified rectangle attribute, given in
/// percent: in bounding-box units the value itself (hundredths of the
/// box), in user space that fraction of the viewport dimension.
pub open spec fn spec_clip_clip_default_component(units: Units, total: int, pct: int) -> int {
    match units {
        Units::ObjectBoundingBox => pct,
        Units::UserSpaceOnUse => spec_mul_frac(total, pct),
    }
}

/// The region rectangle a source resolves to: each attribute taken as
/// given, or defaulted to the policy's −10 % / 120 % box.
pub open spec fn spec_clip_resolved_rect(d: ClipPathSource, vp: ScreenSize) -> Rect {
    let u = spec_clip_units_of(d);
    Rect {
        x: (match d.x {
            Some(v) => v as int,
            None => spec_clip_clip_default_component(u, vp.width as int, -10),
        }) as i64,
        y: (match d.y {
            Some(v) => v as int,
            None => spec_clip_clip_default_component(u, vp.height as int, -10),
        }) as i64,
        w: (match d.width {
            Some(v) => v as int,
            None => spec_clip_clip_default_component(u, vp.width as int, 120),
        }) as i64,
        h: (match d.height {
            Some(v) => v as int,
            None => spec_clip_clip_default_component(u, vp.height as int, 120),
        }) as i64,
    }
}

/// Local validity of one source definition: a usable region rectangle
/// and a non-empty content subtree.
pub open spec fn spec_clip_def_ok(d: ClipPathSource, vp: ScreenSize) -> bool {
    spec_clip_resolved_rect(d, vp).is_valid() && (*d.root matches Node::Group(g) && g.children@.len()
        > 0)
}

/// Whether some source definition carries this identity.
pub open spec fn spec_clip_has_def(s: Seq<ClipPathSource>, id: u64) -> bool {
    exists|k: int| 0 <= k < s.len() && (#[trigger] s[k]).id == id
}

/// The index of the definition with this identity; meaningful when the
/// identity exists and identities are distinct.
pub open spec fn spec_clip_index_of(s: Seq<ClipPathSource>, id: u64) -> int {
    choose|k: int| 0 <= k < s.len() && (#[trigger] s[k]).id == id
}

/// The definition with this identity.
pub open spec fn spec_clip_def_of(s: Seq<ClipPathSource>, id: u64) -> ClipPathSource {
    s[spec_clip_index_of(s, id)]
}

/// Well-formedness of a set of source definitions: distinct identities
/// — the parser's element identities are unique — and well-formed
/// content subtrees.
pub open spec fn clip_defs_wf(s: Seq<ClipPathSource>) -> bool {
    &&& s.map_values(|d: ClipPathSource| d.id).no_duplicates()
    &&& forall|i: int| 0 <= i < s.len() ==> node_wf(*(#[trigger] s[i]).root)
}

/// Whether the chain of references starting at `id` reaches an end
/// within `fuel` steps. With distinct identities a chain that ever
/// revisits an identity never ends: it is cyclic.
pub open spec fn spec_clip_chain_terminates(s: Seq<ClipPathSource>, id: u64, fuel: nat) -> bool
    decreases fuel,
{
    if !spec_clip_has_def(s, id) {
        true
    } else {
        match spec_clip_def_of(s, id).clip_path {
            None => true,
            Some(l) => fuel > 0 && spec_clip_chain_terminates(s, l, (fuel - 1) as nat),
        }
    }
}

/// Termination within some fuel implies termination within more.
pub proof fn lemma_clip_term_monotone(s: Seq<ClipPathSource>, id: u64, f1: nat, f2: nat)
    requires
        spec_clip_chain_terminates(s, id, f1),
        f1 <= f2,
    ensures
        spec_clip_chain_terminates(s, id, f2),
    decreases f1,
{
    if spec_clip_has_def(s, id) {
        match spec_clip_def_of(s, id).clip_path {
            None => {},
            Some(l) => {
                lemma_clip_term_monotone(s, l, (f1 - 1) as nat, (f2 - 1) as nat);
            },
        }
    }
}

/// With distinct identities, the definition found at an index with a
/// matching identity is the definition of that identity.
pub proof fn lemma_clip_index_unique(s: Seq<ClipPathSource>, id: u64, j: int)
    requires
        s.map_values(|d: ClipPathSource| d.id).no_duplicates(),
        0 <= j < s.len(),
        s[j].id == id,
    ensures
        spec_clip_has_def(s, id),
        spec_clip_index_of(s, id) == j,
        spec_clip_def_of(s, id) == s[j],
{
    assert(spec_clip_has_def(s, id));
    let k = spec_clip_index_of(s, id);
    assert(0 <= k < s.len() && s[k].id == id);
    let ids = s.map_values(|d: ClipPathSource| d.id);
    assert(ids[k] == s[k].id);
    assert(ids[j] == s[j].id);
    if k != j {
        assert(ids[k] == ids[j]);
        assert(false);
    }
}

/// The shape the resolver's walk leaves behind: a chain of definition
/// indices starting at `id`, each linking to the next.
pub open spec fn clip_walk_shape(s: Seq<ClipPathSource>, id: u64, stack: Seq<usize>) -> bool {
    &&& forall|t: int| 0 <= t < stack.len() ==> (#[trigger] stack[t]) < s.len()
    &&& (stack.len() > 0 ==> s[stack[0] as int].id == id)
    &&& forall|t: int|
        0 <= t < stack.len() - 1 ==> (#[trigger] s[stack[t] as int]).clip_path == Some(
            s[stack[t + 1] as int].id,
        )
}

/// A walked chain whose last definition links nowhere terminates, with
/// fuel one less than its length.
pub proof fn lemma_clip_stack_terminates(s: Seq<ClipPathSource>, stack: Seq<usize>, j: int)
    requires
        s.map_values(|d: ClipPathSource| d.id).no_duplicates(),
        clip_walk_shape(s, s[stack[0] as int].id, stack),
        stack.len() > 0,
        s[stack[stack.len() - 1] as int].clip_path is None,
        0 <= j < stack.len(),
    ensures
        spec_clip_chain_terminates(s, s[stack[j] as int].id, (stack.len() - 1 - j) as nat),
    decreases stack.len() - j,
{
    let idj = s[stack[j] as int].id;
    lemma_clip_index_unique(s, idj, stack[j] as int);
    if j == stack.len() - 1 {
    } else {
        lemma_clip_stack_terminates(s, stack, j + 1);
    }
}

/// Distinct indices below a bound are at most that many.
pub proof fn lemma_clip_distinct_index_bound(stack: Seq<usize>, n: int)
    requires
        stack.no_duplicates(),
        forall|t: int| 0 <= t < stack.len() ==> (#[trigger] stack[t]) < n,
        0 <= n,
    ensures
        stack.len() <= n,
{
    let f = |v: usize| v as int;
    let si = stack.map_values(f);
    stack.lemma_no_duplicates_injective(f);
    si.unique_seq_to_set();
    assert forall|x: int| si.to_set().contains(x) implies set_int_range(0, n).contains(x) by {
        let t = choose|t: int| 0 <= t < si.len() && si[t] == x;
        assert(si[t] == stack[t] as int);
    }
    assert(si.to_set().subset_of(set_int_range(0, n)));
    lemma_int_range(0, n);
    lemma_len_subset(si.to_set(), set_int_range(0, n));
}

/// Resolves a source's region units.
fn clip_units_of(d: &ClipPathSource) -> (u: Units)
    ensures
        u == spec_clip_units_of(*d),
{
    match d.units {
        Some(u) => u,
        None => Units::ObjectBoundingBox,
    }
}

/// Computes the policy default for one unspecified attribute.
fn clip_default_component(units: Units, total: u32, pct: i64) -> (v: i64)
    requires
        total <= crate::geom::MAX_DIM,
        -100 <= pct <= 120,
    ensures
        v as int == spec_clip_clip_default_component(units, total as int, pct as int),
{
    match units {
        Units::ObjectBoundingBox => pct,
        Units::UserSpaceOnUse => mul_frac(total as i64, pct),
    }
}

/// Resolves a source's region rectangle with policy defaults, or
/// nothing when the resolved rectangle is degenerate or out of range.
fn clip_resolved_rect(d: &ClipPathSource, vp: ScreenSize) -> (r: Option<Rect>)
    requires
        vp.is_valid(),
    ensures
        r is Some <==> spec_clip_resolved_rect(*d, vp).is_valid(),
        r matches Some(rr) ==> rr == spec_clip_resolved_rect(*d, vp),
{
    let units = clip_units_of(d);
    let x: i64 = match d.x {
        Some(v) => v,
        None => clip_default_component(units, vp.width, -10),
    };
    let y: i64 = match d.y {
        Some(v) => v,
        None => clip_default_component(units, vp.height, -10),
    };
    let w: i64 = match d.width {
        Some(v) => v,
        None => clip_default_component(units, vp.width, 120),
    };
    let h: i64 = match d.height {
        Some(v) => v,
        None => clip_default_component(units, vp.height, 120),
    };
    Rect::new(x, y, w, h)
}

/// Finds the definition carrying an identity.
fn clip_find_def(defs: &Vec<ClipPathSource>, id: u64) -> (r: Option<usize>)
    ensures
        r matches Some(j) ==> j < defs@.len() && defs@[j as int].id == id,
        r is None ==> !spec_clip_has_def(defs@, id),
{
    let n: usize = defs.len();
    let mut i: usize = 0;
    while i < n
        invariant
            n == defs@.len(),
            i <= n,
            forall|k: int| 0 <= k < i as int ==> (#[trigger] defs@[k]).id != id,
        decreases n - i,
    {
        if defs[i].id == id {
            return Some(i);
        }
        i = i + 1;
    }
    proof {
        if spec_clip_has_def(defs@, id) {
            let k = choose|k: int| 0 <= k < defs@.len() && (#[trigger] defs@[k]).id == id;
            assert(defs@[k].id != id);
        }
    }
    None
}

/// Tests whether an index is already on the walk's stack.
fn clip_contains_idx(stack: &Vec<usize>, j: usize) -> (b: bool)
    ensures
        b == stack@.contains(j),
{
    let n: usize = stack.len();
    let mut i: usize = 0;
    while i < n
        invariant
            n == stack@.len(),
            i <= n,
            forall|k: int| 0 <= k < i as int ==> (#[trigger] stack@[k]) != j,
        decreases n - i,
    {
        if stack[i] == j {
            assert(stack@[i as int] == j);
            return true;
        }
        i = i + 1;
    }
    proof {
        if stack@.contains(j) {
            let k = choose|k: int| 0 <= k < stack@.len() && (#[trigger] stack@[k]) == j;
            assert(stack@[k] != j);
        }
    }
    false
}

/// What the walk guarantees of every stacked definition.
pub open spec fn clip_stack_entries_ok(
    defs: Seq<ClipPathSource>,
    stack: Seq<usize>,
    vp: ScreenSize,
    clips: Seq<(u64, Rc<ClipPath>)>,
) -> bool {
    forall|u: int|
        0 <= u < stack.len() ==> spec_clip_def_ok(defs[(#[trigger] stack[u]) as int], vp)
            && spec_assoc_get(clips, defs[stack[u] as int].id) is None
}

/// Walks the chain of references from `id`: collects the definitions to
/// build, in order, until the chain ends, reaches a cached definition,
/// or fails — on a missing target, an invalid definition, or a cycle.
#[verifier::rlimit(60)]
fn clip_walk_chain(defs: &Vec<ClipPathSource>, id: u64, viewport: ScreenSize, cache: &Cache) -> (r: Option<
    (Vec<usize>, Option<Rc<ClipPath>>),
>)
    requires
        clip_defs_wf(defs@),
        viewport.is_valid(),
        cache.wf(),
    ensures
        !spec_clip_has_def(defs@, id) ==> r is None,
        spec_clip_has_def(defs@, id) ==> (spec_assoc_get(cache.clip_paths@, id) matches Some(m) ==> (
        r matches Some(t) && t.0@.len() == 0 && t.1 == Some(m))),
        spec_clip_has_def(defs@, id) && spec_assoc_get(cache.clip_paths@, id) is None && !spec_clip_def_ok(
            spec_clip_def_of(defs@, id),
            viewport,
        ) ==> r is None,
        r matches Some(t) ==> {
            &&& t.0@.no_duplicates()
            &&& clip_walk_shape(defs@, id, t.0@)
            &&& t.0@.len() <= defs@.len()
            &&& clip_stack_entries_ok(defs@, t.0@, viewport, cache.clip_paths@)
            &&& (t.0@.len() == 0 ==> t.1 is Some)
            &&& (match t.1 {
                None => t.0@.len() > 0 && defs@[t.0@[t.0@.len() - 1] as int].clip_path is None,
                Some(b) => clip_wf(*b) && (if t.0@.len() == 0 {
                    spec_assoc_get(cache.clip_paths@, id) == Some(b)
                } else {
                    defs@[t.0@[t.0@.len() - 1] as int].clip_path matches Some(l) && spec_assoc_get(
                        cache.clip_paths@,
                        l,
                    ) == Some(b)
                }),
            })
        },
{
    let mut stack: Vec<usize> = Vec::new();
    let mut cur: u64 = id;
    loop
        invariant
            clip_defs_wf(defs@),
            viewport.is_valid(),
            cache.wf(),
            stack@.no_duplicates(),
            clip_walk_shape(defs@, id, stack@),
            stack@.len() <= defs@.len(),
            clip_stack_entries_ok(defs@, stack@, viewport, cache.clip_paths@),
            stack@.len() == 0 ==> cur == id,
            stack@.len() > 0 ==> defs@[stack@[stack@.len() - 1] as int].clip_path == Some(cur),
        decreases defs@.len() - stack@.len(),
    {
        let j: usize = match clip_find_def(defs, cur) {
            Some(j) => j,
            None => {
                return None;
            },
        };
        proof {
            lemma_clip_index_unique(defs@, cur, j as int);
        }
        match cache.get_clip_path(cur) {
            Some(m) => {
                proof {
                    lemma_assoc_get_some_index(cache.clip_paths@, cur);
                    if stack@.len() > 0 {
                        lemma_clip_index_unique(defs@, id, stack@[0] as int);
                    }
                }
                return Some((stack, Some(m)));
            },
            None => {},
        }
        let d_ok: bool = match clip_resolved_rect(&defs[j], viewport) {
            Some(_) => defs[j].root.has_children(),
            None => false,
        };
        if !d_ok {
            return None;
        }
        if clip_contains_idx(&stack, j) {
            return None;
        }
        stack.push(j);
        proof {
            lemma_clip_distinct_index_bound(stack@, defs@.len() as int);
        }
        match &defs[j].clip_path {
            None => {
                proof {
                    lemma_clip_index_unique(defs@, id, stack@[0] as int);
                }
                return Some((stack, None));
            },
            Some(l) => {
                cur = *l;
            },
        }
    }
}

/// Resolves a clip-path definition by source identity: the memoizing,
/// cycle-safe conversion of shared definitions. A cache hit
/// returns the cached shared instance; otherwise the definition — and
/// first its whole chain — is validated and built, and every built
/// definition is stored in the cache. Failures (missing or invalid
/// definition anywhere on the chain, empty content, a cycle) return
/// nothing and leave the cache unchanged.
#[verifier::rlimit(100)]
pub fn convert(defs: &Vec<ClipPathSource>, id: u64, viewport: ScreenSize, cache: &mut Cache) -> (r:
    Option<Rc<ClipPath>>)
    requires
        clip_defs_wf(defs@),
        viewport.is_valid(),
        old(cache).wf(),
    ensures
        final(cache).wf(),
        final(cache).masks@ == old(cache).masks@,
        forall|k: u64|
            (#[trigger] spec_assoc_get(old(cache).clip_paths@, k)) matches Some(m) ==> spec_assoc_get(
                final(cache).clip_paths@,
                k,
            ) == Some(m),
        spec_clip_has_def(defs@, id) ==> (spec_assoc_get(old(cache).clip_paths@, id) matches Some(m) ==> r
            == Some(m) && final(cache).clip_paths@ == old(cache).clip_paths@),
        r matches Some(m) ==> spec_assoc_get(final(cache).clip_paths@, id) == Some(m) && clip_wf(*m),
        spec_assoc_get(old(cache).clip_paths@, id) is None && !spec_clip_has_def(defs@, id) ==> r is None,
        spec_assoc_get(old(cache).clip_paths@, id) is None && spec_clip_has_def(defs@, id) && !spec_clip_def_ok(
            spec_clip_def_of(defs@, id),
            viewport,
        ) ==> r is None,
        r is None ==> final(cache).clip_paths@ == old(cache).clip_paths@,
        spec_assoc_get(old(cache).clip_paths@, id) is None ==> (r matches Some(m) ==> ({
            let d = spec_clip_def_of(defs@, id);
            &&& spec_clip_has_def(defs@, id)
            &&& m.units == spec_clip_units_of(d)
            &&& m.rect == spec_clip_resolved_rect(d, viewport)
            &&& m.id@ == d.name@
            &&& m.root == d.root
            &&& (d.clip_path is None ==> m.clip_path is None)
            &&& (d.clip_path matches Some(l) ==> (m.clip_path matches Some(lm) && spec_assoc_get(
                final(cache).clip_paths@,
                l,
            ) == Some(lm)))
        })),
        old(cache).clip_paths@.len() == 0 && !spec_clip_chain_terminates(defs@, id, defs@.len() as nat)
            ==> r is None,
{
    let walked = match clip_walk_chain(defs, id, viewport, cache) {
        Some(t) => t,
        None => {
            return None;
        },
    };
    let (stack, base0) = walked;
    proof {
        if old(cache).clip_paths@.len() == 0 {
            assert(spec_assoc_get(old(cache).clip_paths@, id) is None);
            match &base0 {
                Some(b) => {
                    assert(false);
                },
                None => {
                    lemma_clip_stack_terminates(defs@, stack@, 0);
                    lemma_clip_term_monotone(
                        defs@,
                        id,
                        (stack@.len() - 1) as nat,
                        defs@.len() as nat,
                    );
                },
            }
        }
    }
    let ghost old_clips = old(cache).clip_paths@;
    let mut base: Option<Rc<ClipPath>> = base0;
    let mut j: usize = stack.len();
    while j > 0
        invariant
            clip_defs_wf(defs@),
            viewport.is_valid(),
            cache.wf(),
            cache.masks@ == old(cache).masks@,
            old_clips == old(cache).clip_paths@,
            j <= stack@.len(),
            stack@.no_duplicates(),
            clip_walk_shape(defs@, id, stack@),
            stack@.len() <= defs@.len(),
            clip_stack_entries_ok(defs@, stack@, viewport, old_clips),
            stack@.len() > 0 ==> defs@[stack@[0] as int].id == id,
            forall|k: u64|
                (#[trigger] spec_assoc_get(old_clips, k)) matches Some(m) ==> spec_assoc_get(
                    cache.clip_paths@,
                    k,
                ) == Some(m),
            forall|t: int|
                0 <= t < j as int ==> spec_assoc_get(
                    cache.clip_paths@,
                    defs@[(#[trigger] stack@[t]) as int].id,
                ) is None,
            j == stack@.len() ==> base == base0 && cache.clip_paths@ == old_clips,
            j < stack@.len() ==> (base matches Some(b) && {
                let dj = defs@[stack@[j as int] as int];
                &&& clip_wf(*b)
                &&& spec_assoc_get(cache.clip_paths@, dj.id) == Some(b)
                &&& b.units == spec_clip_units_of(dj)
                &&& b.rect == spec_clip_resolved_rect(dj, viewport)
                &&& b.id@ == dj.name@
                &&& b.root == dj.root
                &&& (dj.clip_path is None ==> b.clip_path is None)
                &&& (dj.clip_path matches Some(l) ==> (b.clip_path matches Some(lm) && spec_assoc_get(
                    cache.clip_paths@,
                    l,
                ) == Some(lm)))
            }),
            base matches Some(b0) ==> clip_wf(*b0),
            base0 matches Some(bb) ==> (if stack@.len() == 0 {
                spec_assoc_get(old_clips, id) == Some(bb)
            } else {
                defs@[stack@[stack@.len() - 1] as int].clip_path matches Some(l) && spec_assoc_get(
                    old_clips,
                    l,
                ) == Some(bb)
            }),
            base0 is None ==> stack@.len() > 0 && defs@[stack@[stack@.len() - 1] as int].clip_path
                is None,
        decreases j,
    {
        j = j - 1;
        let idx: usize = stack[j];
        proof {
            lemma_clip_index_unique(defs@, defs@[idx as int].id, idx as int);
        }
        let d = &defs[idx];
        let units = clip_units_of(d);
        let rect: Rect = match clip_resolved_rect(d, viewport) {
            Some(rr) => rr,
            None => {
                proof {
                    assert(false);
                }
                return None;
            },
        };
        let name: String = d.name.clone();
        let root: Rc<Node> = d.root.clone();
        let m = ClipPath { id: name, units, rect, clip_path: base, root };
        let rc: Rc<ClipPath> = Rc::new(m);
        let ghost pre_clips = cache.clip_paths@;
        let ghost myid = defs@[idx as int].id;
        proof {
            assert forall|t: int|
                0 <= t < stack@.len() && t != j as int implies defs@[(#[trigger] stack@[t]) as int].id
                != myid by {
                if defs@[stack@[t] as int].id == myid {
                    lemma_clip_index_unique(defs@, myid, stack@[t] as int);
                    lemma_clip_index_unique(defs@, myid, idx as int);
                    assert(stack@[t] == stack@[j as int]);
                    assert(false);
                }
            }
            assert(spec_assoc_get(pre_clips, myid) is None);
        }
        cache.clip_paths.push((d.id, rc.clone()));
        proof {
            lemma_assoc_get_none_iff(pre_clips, myid);
            assert(assoc_keys(cache.clip_paths@) =~= assoc_keys(pre_clips).push(d.id));
            assert(forall|i: int|
                0 <= i < assoc_keys(pre_clips).len() ==> (#[trigger] assoc_keys(pre_clips)[i])
                    != myid);
            assert(assoc_keys(cache.clip_paths@).no_duplicates());
            lemma_assoc_get_push(pre_clips, (d.id, rc), myid);
            assert(spec_assoc_get(cache.clip_paths@, myid) == Some(rc));
            assert forall|k: u64|
                (#[trigger] spec_assoc_get(old_clips, k)) is Some implies spec_assoc_get(
                cache.clip_paths@,
                k,
            ) == spec_assoc_get(old_clips, k) by {
                lemma_assoc_get_push(pre_clips, (d.id, rc), k);
            }
            assert forall|t: int| 0 <= t < j as int implies spec_assoc_get(
                cache.clip_paths@,
                defs@[(#[trigger] stack@[t]) as int].id,
            ) is None by {
                lemma_assoc_get_push(pre_clips, (d.id, rc), defs@[stack@[t] as int].id);
            }
            if j as int + 1 < stack@.len() {
                lemma_assoc_get_push(pre_clips, (d.id, rc), defs@[stack@[j + 1] as int].id);
            }
            assert(clip_wf(*rc));
        }
        base = Some(rc);
    }
    proof {
        if stack@.len() == 0 {
            match &base {
                Some(b) => {
                    lemma_assoc_get_some_index(old(cache).clip_paths@, id);
                },
                None => {},
            }
        } else {
            lemma_clip_index_unique(defs@, id, stack@[0] as int);
        }
    }
    base
}


} // verus!
