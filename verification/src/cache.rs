//! The definition cache: a per-document memoizing map from source
//! element identity to the already-resolved shared definition. Scope is
//! one conversion pass; it is what makes resolution deduplicating and
//! cycle-safe.

use vstd::prelude::*;
use std::rc::Rc;
use crate::mask::Mask;
use crate::clip::ClipPath;
use crate::tree::{mask_wf, clip_wf};

verus! {

/// The first value stored under a key, scanning from the front.
pub open spec fn spec_assoc_get<T>(s: Seq<(u64, T)>, id: u64) -> Option<T>
    decreases s.len(),
{
    if s.len() == 0 {
        None
    } else if s[0].0 == id {
        Some(s[0].1)
    } else {
        spec_assoc_get(s.drop_first(), id)
    }
}

/// The keys of an association list, in order.
pub open spec fn assoc_keys<T>(s: Seq<(u64, T)>) -> Seq<u64> {
    s.map_values(|p: (u64, T)| p.0)
}

/// Scanning past a prefix without the key does not change the lookup.
pub proof fn lemma_assoc_get_skip<T>(s: Seq<(u64, T)>, id: u64, i: int)
    requires
        0 <= i <= s.len(),
        forall|j: int| 0 <= j < i ==> (#[trigger] s[j]).0 != id,
    ensures
        spec_assoc_get(s, id) == spec_assoc_get(s.subrange(i, s.len() as int), id),
    decreases i,
{
    if i <= 0 {
        assert(s.subrange(0, s.len() as int) =~= s);
    } else {
        assert(s.len() > 0);
        assert(s[0].0 != id);
        assert(s.drop_first() =~= s.subrange(1, s.len() as int));
        assert(forall|j: int|
            0 <= j < i - 1 ==> (#[trigger] s.drop_first()[j]) == s[j + 1]);
        lemma_assoc_get_skip(s.drop_first(), id, i - 1);
        assert(s.drop_first().subrange(i - 1, s.drop_first().len() as int) =~= s.subrange(
            i,
            s.len() as int,
        ));
    }
}

/// A lookup misses exactly when no entry holds the key.
pub proof fn lemma_assoc_get_none_iff<T>(s: Seq<(u64, T)>, id: u64)
    ensures
        spec_assoc_get(s, id) is None <==> forall|j: int|
            0 <= j < s.len() ==> (#[trigger] s[j]).0 != id,
    decreases s.len(),
{
    if s.len() > 0 {
        lemma_assoc_get_none_iff(s.drop_first(), id);
        assert(forall|j: int|
            0 <= j < s.drop_first().len() ==> (#[trigger] s.drop_first()[j]) == s[j + 1]);
        if s[0].0 != id && (forall|j: int|
            0 <= j < s.drop_first().len() ==> (#[trigger] s.drop_first()[j]).0 != id) {
            assert(forall|j: int|
                0 <= j < s.len() ==> (#[trigger] s[j]).0 != id) by {
                assert(forall|j: int|
                    1 <= j < s.len() ==> (#[trigger] s[j]) == s.drop_first()[j - 1]);
            }
        }
    }
}

/// Appending an entry changes only the lookup of its own key, and that
/// only when the key was absent.
pub proof fn lemma_assoc_get_push<T>(s: Seq<(u64, T)>, p: (u64, T), id: u64)
    ensures
        spec_assoc_get(s, id) is Some ==> spec_assoc_get(s.push(p), id) == spec_assoc_get(s, id),
        spec_assoc_get(s, id) is None && p.0 == id ==> spec_assoc_get(s.push(p), id) == Some(p.1),
        spec_assoc_get(s, id) is None && p.0 != id ==> spec_assoc_get(s.push(p), id) is None,
    decreases s.len(),
{
    if s.len() == 0 {
        assert(s.push(p)[0] == p);
        assert(s.push(p).drop_first() =~= Seq::<(u64, T)>::empty());
        assert(spec_assoc_get(Seq::<(u64, T)>::empty(), id) is None);
        assert(s.push(p).len() == 1);
    } else {
        assert(s.push(p)[0] == s[0]);
        assert(s.push(p).drop_first() =~= s.drop_first().push(p));
        lemma_assoc_get_push(s.drop_first(), p, id);
    }
}

/// A hit returns a value stored in the list.
pub proof fn lemma_assoc_get_some_index<T>(s: Seq<(u64, T)>, id: u64)
    requires
        spec_assoc_get(s, id) is Some,
    ensures
        exists|i: int|
            0 <= i < s.len() && (#[trigger] s[i]).0 == id && s[i].1 == spec_assoc_get(s, id)->0,
    decreases s.len(),
{
    if s.len() > 0 {
        if s[0].0 == id {
            assert(s[0].0 == id && s[0].1 == spec_assoc_get(s, id)->0);
        } else {
            lemma_assoc_get_some_index(s.drop_first(), id);
            let i = choose|i: int|
                0 <= i < s.drop_first().len() && (#[trigger] s.drop_first()[i]).0 == id
                    && s.drop_first()[i].1 == spec_assoc_get(s.drop_first(), id)->0;
            assert(s[i + 1] == s.drop_first()[i]);
        }
    }
}

/// The per-document definition cache.
pub struct Cache {
    /// Resolved masks, keyed by source element identity.
    pub masks: Vec<(u64, Rc<Mask>)>,
    /// Resolved clip paths, keyed by source element identity.
    pub clip_paths: Vec<(u64, Rc<ClipPath>)>,
}

impl Cache {
    /// Well-formedness: distinct keys and well-formed definitions.
    pub open spec fn wf(self) -> bool {
        &&& assoc_keys(self.masks@).no_duplicates()
        &&& forall|i: int| 0 <= i < self.masks@.len() ==> mask_wf(*(#[trigger] self.masks@[i]).1)
        &&& assoc_keys(self.clip_paths@).no_duplicates()
        &&& forall|i: int|
            0 <= i < self.clip_paths@.len() ==> clip_wf(*(#[trigger] self.clip_paths@[i]).1)
    }

    /// An empty cache, for one fresh conversion pass.
    pub fn new() -> (c: Cache)
        ensures
            c.wf(),
            c.masks@.len() == 0,
            c.clip_paths@.len() == 0,
    {
        Cache { masks: Vec::new(), clip_paths: Vec::new() }
    }

    /// Looks up a resolved mask by source identity.
    pub fn get_mask(&self, id: u64) -> (r: Option<Rc<Mask>>)
        ensures
            r == spec_assoc_get(self.masks@, id),
    {
        let n: usize = self.masks.len();
        let mut i: usize = 0;
        while i < n
            invariant
                n == self.masks@.len(),
                i <= n,
                forall|j: int| 0 <= j < i as int ==> (#[trigger] self.masks@[j]).0 != id,
            decreases n - i,
        {
            if self.masks[i].0 == id {
                proof {
                    lemma_assoc_get_skip(self.masks@, id, i as int);
                    assert(self.masks@.subrange(i as int, n as int)[0] == self.masks@[i as int]);
                }
                return Some(self.masks[i].1.clone());
            }
            i = i + 1;
        }
        proof {
            lemma_assoc_get_skip(self.masks@, id, n as int);
            assert(self.masks@.subrange(n as int, n as int) =~= Seq::<(u64, Rc<Mask>)>::empty());
        }
        None
    }

    /// Looks up a resolved clip path by source identity.
    pub fn get_clip_path(&self, id: u64) -> (r: Option<Rc<ClipPath>>)
        ensures
            r == spec_assoc_get(self.clip_paths@, id),
    {
        let n: usize = self.clip_paths.len();
        let mut i: usize = 0;
        while i < n
            invariant
                n == self.clip_paths@.len(),
                i <= n,
                forall|j: int| 0 <= j < i as int ==> (#[trigger] self.clip_paths@[j]).0 != id,
            decreases n - i,
        {
            if self.clip_paths[i].0 == id {
                proof {
                    lemma_assoc_get_skip(self.clip_paths@, id, i as int);
                    assert(self.clip_paths@.subrange(i as int, n as int)[0] == self.clip_paths@[i as int]);
                }
                return Some(self.clip_paths[i].1.clone());
            }
            i = i + 1;
        }
        proof {
            lemma_assoc_get_skip(self.clip_paths@, id, n as int);
            assert(self.clip_paths@.subrange(n as int, n as int) =~= Seq::<
                (u64, Rc<ClipPath>),
            >::empty());
        }
        None
    }
}

} // verus!
