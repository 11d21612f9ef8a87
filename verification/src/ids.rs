//! The identifier manager: allocation and recycling of object ids, and the
//! id-map that owns every live protocol object. Recycled ids are reused in
//! first-in-first-out order before the counter grows; freeing an id that is
//! not mapped is a no-op, so a double free changes nothing.

use vstd::prelude::*;

use crate::errors::WaylandError;
use crate::objects::WaylandObject;
use crate::wire::Id;

verus! {

/// The mathematical state of the manager: the high-water counter, the free
/// list, the id-map entries in insertion order, and the current sync point.
pub struct ImView {
    pub top_id: Id,
    pub free: Seq<Id>,
    pub entries: Seq<(Id, WaylandObject)>,
    pub sync: Option<Id>,
}

/// First position of `id` among the entries, or a negative value.
pub open spec fn spec_index_of(s: Seq<(Id, WaylandObject)>, id: Id) -> int
    decreases s.len(),
{
    if s.len() == 0 {
        -1
    } else if s[0].0 == id {
        0
    } else {
        let r = spec_index_of(s.drop_first(), id);
        if r < 0 {
            -1
        } else {
            r + 1
        }
    }
}

/// What a nonnegative index-of means, and what a negative one excludes.
pub proof fn lemma_index_of(s: Seq<(Id, WaylandObject)>, id: Id)
    ensures
        spec_index_of(s, id) >= 0 ==> 0 <= spec_index_of(s, id) < s.len() && s[spec_index_of(
            s,
            id,
        )].0 == id && (forall|j: int| 0 <= j < spec_index_of(s, id) ==> s[j].0 != id),
        spec_index_of(s, id) < 0 ==> (forall|j: int| 0 <= j < s.len() ==> s[j].0 != id),
    decreases s.len(),
{
    if s.len() > 0 && s[0].0 != id {
        let t = s.drop_first();
        lemma_index_of(t, id);
        assert(forall|j: int| 1 <= j < s.len() ==> (#[trigger] s[j]) == t[j - 1]);
        let r = spec_index_of(s, id);
        if r >= 0 {
            assert(s[r] == t[r - 1]);
        }
    }
}

/// Appending an entry under a key that is absent puts that key at the end.
pub proof fn lemma_index_of_push_fresh(s: Seq<(Id, WaylandObject)>, id: Id, obj: WaylandObject)
    requires
        forall|j: int| 0 <= j < s.len() ==> (#[trigger] s[j]).0 != id,
    ensures
        spec_index_of(s.push((id, obj)), id) == s.len(),
    decreases s.len(),
{
    let p = s.push((id, obj));
    if s.len() == 0 {
        assert(p[0].0 == id);
    } else {
        assert(p[0] == s[0]);
        assert(p.drop_first() =~= s.drop_first().push((id, obj)));
        assert(forall|j: int| 0 <= j < s.drop_first().len() ==> (#[trigger] s.drop_first()[j]).0
            != id);
        lemma_index_of_push_fresh(s.drop_first(), id, obj);
    }
}

/// A key that is absent stays absent when an entry under another key is
/// appended.
pub proof fn lemma_index_of_push_other(s: Seq<(Id, WaylandObject)>, id: Id, nid: Id, obj: WaylandObject)
    requires
        spec_index_of(s, id) < 0,
        nid != id,
    ensures
        spec_index_of(s.push((nid, obj)), id) < 0,
{
    lemma_index_of(s, id);
    let p = s.push((nid, obj));
    assert(forall|j: int| 0 <= j < p.len() ==> (#[trigger] p[j]).0 != id) by {
        assert(forall|j: int| 0 <= j < s.len() ==> (#[trigger] p[j]) == s[j]);
    }
    lemma_index_of_none(p, id);
}

/// A sequence in which no entry bears `id` has no index for it.
pub proof fn lemma_index_of_none(s: Seq<(Id, WaylandObject)>, id: Id)
    requires
        forall|j: int| 0 <= j < s.len() ==> (#[trigger] s[j]).0 != id,
    ensures
        spec_index_of(s, id) < 0,
    decreases s.len(),
{
    if s.len() > 0 {
        assert(s[0].0 != id);
        assert(forall|j: int|
            0 <= j < s.drop_first().len() ==> (#[trigger] s.drop_first()[j]).0 != id) by {
            assert(forall|j: int|
                0 <= j < s.drop_first().len() ==> (#[trigger] s.drop_first()[j]) == s[j + 1]);
        }
        lemma_index_of_none(s.drop_first(), id);
    }
}

/// A key that is absent from the entries stays absent when any entry is
/// removed.
pub proof fn lemma_absent_after_remove(s: Seq<(Id, WaylandObject)>, i: int, id: Id)
    requires
        0 <= i < s.len(),
        spec_index_of(s, id) < 0,
    ensures
        spec_index_of(s.remove(i), id) < 0,
{
    lemma_index_of(s, id);
    let t = s.remove(i);
    assert forall|j: int| 0 <= j < t.len() implies (#[trigger] t[j]).0 != id by {
        if j < i {
            assert(t[j] == s[j]);
        } else {
            assert(t[j] == s[j + 1]);
        }
    }
    lemma_index_of_none(t, id);
}

/// The manager's well-formedness: entry keys are distinct, free ids are
/// distinct and unmapped, and neither an entry key nor a free id exceeds the
/// counter.
pub open spec fn spec_wf(v: ImView) -> bool {
    &&& forall|i: int, j: int|
        0 <= i < j < v.entries.len() ==> (#[trigger] v.entries[i]).0 != (#[trigger] v.entries[j]).0
    &&& forall|i: int, j: int|
        0 <= i < v.free.len() && 0 <= j < v.entries.len() ==> (#[trigger] v.free[i]) != (
        #[trigger] v.entries[j]).0
    &&& forall|i: int, j: int| 0 <= i < j < v.free.len() ==> v.free[i] != v.free[j]
    &&& forall|j: int| 0 <= j < v.entries.len() ==> (#[trigger] v.entries[j]).0 <= v.top_id
    &&& forall|i: int| 0 <= i < v.free.len() ==> (#[trigger] v.free[i]) <= v.top_id
}

/// Allocation: pop the front of the free list if it has one, else advance
/// the counter; map the chosen id to the object.
pub open spec fn spec_alloc(v: ImView, obj: WaylandObject) -> (ImView, Id) {
    if v.free.len() > 0 {
        let id = v.free[0];
        (ImView { free: v.free.drop_first(), entries: v.entries.push((id, obj)), ..v }, id)
    } else {
        let id = (v.top_id + 1) as Id;
        (ImView { top_id: id, entries: v.entries.push((id, obj)), ..v }, id)
    }
}

/// Freeing: remove the id's entry and append the id to the free list; a
/// no-op for an id that is not mapped.
pub open spec fn spec_free(v: ImView, id: Id) -> ImView {
    let i = spec_index_of(v.entries, id);
    if i >= 0 {
        ImView { entries: v.entries.remove(i), free: v.free.push(id), ..v }
    } else {
        v
    }
}

/// The id the next allocation will hand out: the front of the free list,
/// or the next counter value.
pub open spec fn spec_next_id(v: ImView) -> Id {
    if v.free.len() > 0 {
        v.free[0]
    } else {
        (v.top_id + 1) as Id
    }
}

/// The object stored under `id` among the given entries, if any.
pub open spec fn spec_lookup_entries(s: Seq<(Id, WaylandObject)>, id: Id) -> Option<
    WaylandObject,
> {
    let i = spec_index_of(s, id);
    if i >= 0 {
        Some(s[i].1)
    } else {
        None
    }
}

/// The object mapped under `id`, if any.
pub open spec fn spec_lookup(v: ImView, id: Id) -> Option<WaylandObject> {
    spec_lookup_entries(v.entries, id)
}

/// Removing an entry under some other key does not change what `id` maps
/// to.
pub proof fn lemma_lookup_entries_remove(s: Seq<(Id, WaylandObject)>, i: int, id: Id)
    requires
        0 <= i < s.len(),
        s[i].0 != id,
    ensures
        spec_lookup_entries(s.remove(i), id) == spec_lookup_entries(s, id),
    decreases s.len(),
{
    if i == 0 {
        assert(s.remove(0) =~= s.drop_first());
        lemma_index_of(s, id);
        lemma_index_of(s.drop_first(), id);
        if spec_index_of(s, id) >= 0 {
            let k = spec_index_of(s, id);
            assert(s[k] == s.drop_first()[k - 1]);
        }
    } else {
        if s[0].0 == id {
            assert(s.remove(i)[0] == s[0]);
        } else {
            let t = s.drop_first();
            assert(s.remove(i).drop_first() =~= t.remove(i - 1));
            assert(t[i - 1] == s[i]);
            lemma_lookup_entries_remove(t, i - 1, id);
            lemma_index_of(s, id);
            lemma_index_of(s.remove(i), id);
            lemma_index_of(t, id);
            lemma_index_of(t.remove(i - 1), id);
            if spec_index_of(t, id) >= 0 {
                let k = spec_index_of(t, id);
                assert(spec_index_of(s, id) == k + 1);
                assert(s[k + 1] == t[k]);
                let k2 = spec_index_of(t.remove(i - 1), id);
                assert(spec_index_of(s.remove(i), id) == k2 + 1);
                assert(s.remove(i)[k2 + 1] == t.remove(i - 1)[k2]);
            }
        }
    }
}

/// Appending an entry under some other key does not change what `id` maps
/// to.
pub proof fn lemma_lookup_entries_push_other(
    s: Seq<(Id, WaylandObject)>,
    id: Id,
    nid: Id,
    obj: WaylandObject,
)
    requires
        nid != id,
    ensures
        spec_lookup_entries(s.push((nid, obj)), id) == spec_lookup_entries(s, id),
    decreases s.len(),
{
    let p = s.push((nid, obj));
    if s.len() == 0 {
        assert(p[0].0 == nid);
    } else {
        assert(p[0] == s[0]);
        if s[0].0 != id {
            let t = s.drop_first();
            assert(p.drop_first() =~= t.push((nid, obj)));
            lemma_lookup_entries_push_other(t, id, nid, obj);
            lemma_index_of(s, id);
            lemma_index_of(p, id);
            lemma_index_of(t, id);
            lemma_index_of(t.push((nid, obj)), id);
            if spec_index_of(t, id) >= 0 {
                let k = spec_index_of(t, id);
                assert(spec_index_of(s, id) == k + 1);
                assert(s[k + 1] == t[k]);
                let k2 = spec_index_of(t.push((nid, obj)), id);
                assert(spec_index_of(p, id) == k2 + 1);
                assert(p[k2 + 1] == t.push((nid, obj))[k2]);
            }
        }
    }
}

/// The identifier manager.
#[derive(Debug)]
pub struct IdentManager {
    pub top_id: Id,
    pub free: Vec<Id>,
    pub idmap: Vec<(Id, WaylandObject)>,
    pub current_sync_id: Option<Id>,
}

impl View for IdentManager {
    type V = ImView;

    open spec fn view(&self) -> ImView {
        ImView {
            top_id: self.top_id,
            free: self.free@,
            entries: self.idmap@,
            sync: self.current_sync_id,
        }
    }
}

impl IdentManager {
    /// An empty manager: no ids handed out, nothing mapped.
    pub fn new() -> (r: IdentManager)
        ensures
            r@.top_id == 0,
            r@.free.len() == 0,
            r@.entries.len() == 0,
            r@.sync is None,
            spec_wf(r@),
    {
        IdentManager { top_id: 0, free: Vec::new(), idmap: Vec::new(), current_sync_id: None }
    }

    /// Advance the counter and return the fresh id.
    pub fn new_id(&mut self) -> (r: Id)
        requires
            old(self).top_id < u32::MAX,
        ensures
            r == old(self).top_id + 1,
            *final(self) == (IdentManager { top_id: r, ..*old(self) }),
    {
        self.top_id = self.top_id + 1;
        self.top_id
    }

    /// Position of `id` among the entries, if it is mapped.
    fn find_index(&self, id: Id) -> (r: Option<usize>)
        ensures
            match r {
                Some(i) => spec_index_of(self.idmap@, id) == i,
                None => spec_index_of(self.idmap@, id) < 0,
            },
    {
        let mut i: usize = 0;
        while i < self.idmap.len()
            invariant
                i <= self.idmap@.len(),
                forall|j: int| 0 <= j < i ==> (#[trigger] self.idmap@[j]).0 != id,
            decreases self.idmap@.len() - i,
        {
            if self.idmap[i].0 == id {
                proof {
                    lemma_index_of(self.idmap@, id);
                }
                return Some(i);
            }
            i = i + 1;
        }
        proof {
            lemma_index_of_none(self.idmap@, id);
        }
        None
    }

    /// Pick the next id — the front of the free list, or the next counter
    /// value — without mapping it yet. The picked id is unmapped, no longer
    /// free, and within the counter.
    pub fn pick_id(&mut self) -> (r: Id)
        requires
            spec_wf(old(self)@),
            old(self).top_id < u32::MAX,
        ensures
            spec_wf(final(self)@),
            r == spec_next_id(old(self)@),
            final(self)@.entries == old(self)@.entries,
            final(self)@.sync == old(self)@.sync,
            spec_index_of(final(self)@.entries, r) < 0,
            forall|i: int| 0 <= i < final(self)@.free.len() ==> (#[trigger] final(self)@.free[i]) != r,
            r <= final(self)@.top_id,
            old(self)@.free.len() > 0 ==> r == old(self)@.free[0] && final(self)@.free == old(
                self,
            )@.free.drop_first() && final(self)@.top_id == old(self)@.top_id,
            old(self)@.free.len() == 0 ==> r == old(self)@.top_id + 1 && final(self)@.free == old(
                self,
            )@.free && final(self)@.top_id == old(self)@.top_id + 1,
    {
        proof {
            lemma_index_of(self.idmap@, if self.free@.len() > 0 {
                self.free@[0]
            } else {
                (self.top_id + 1) as Id
            });
        }
        if self.free.len() > 0 {
            let id = self.free.remove(0);
            proof {
                lemma_index_of(self.idmap@, id);
                if spec_index_of(self.idmap@, id) >= 0 {
                    assert(old(self)@.free[0] == old(self)@.entries[spec_index_of(
                        self.idmap@,
                        id,
                    )].0);
                    assert(false);
                }
                let vold = old(self)@;
                let fnew = self.free@;
                assert(fnew =~= vold.free.drop_first());
                assert forall|i: int, j: int| 0 <= i < j < fnew.len() implies fnew[i] != fnew[j] by {
                    assert(fnew[i] == vold.free[i + 1]);
                    assert(fnew[j] == vold.free[j + 1]);
                }
                assert forall|i: int, j: int|
                    0 <= i < fnew.len() && 0 <= j < self.idmap@.len() implies fnew[i]
                    != self.idmap@[j].0 by {
                    assert(fnew[i] == vold.free[i + 1]);
                    assert(vold.free[i + 1] != vold.entries[j].0);
                }
                assert forall|i: int| 0 <= i < fnew.len() implies fnew[i] <= self.top_id by {
                    assert(fnew[i] == vold.free[i + 1]);
                }
                assert forall|i: int| 0 <= i < fnew.len() implies fnew[i] != id by {
                    assert(fnew[i] == vold.free[i + 1]);
                    assert(vold.free[0] != vold.free[i + 1]);
                }
                assert forall|a: int, b: int|
                    0 <= a < b < self.idmap@.len() implies (#[trigger] self.idmap@[a]).0 != (
                #[trigger] self.idmap@[b]).0 by {
                    assert(vold.entries[a].0 != vold.entries[b].0);
                }
                assert forall|j: int| 0 <= j < self.idmap@.len() implies (#[trigger] self.idmap@[j]).0
                    <= self.top_id by {
                    assert(vold.entries[j].0 <= vold.top_id);
                }
            }
            id
        } else {
            let id = self.new_id();
            proof {
                let vold = old(self)@;
                assert forall|j: int| 0 <= j < self.idmap@.len() implies (#[trigger] self.idmap@[j]).0
                    != id by {
                    assert(vold.entries[j].0 <= vold.top_id);
                }
                lemma_index_of_none(self.idmap@, id);
                assert forall|i: int| 0 <= i < self.free@.len() implies (#[trigger] self.free@[i])
                    <= self.top_id by {
                    assert(vold.free[i] <= vold.top_id);
                }
                assert forall|i: int| 0 <= i < self.free@.len() implies (#[trigger] self.free@[i])
                    != id by {
                    assert(vold.free[i] <= vold.top_id);
                }
                assert forall|j: int| 0 <= j < self.idmap@.len() implies (#[trigger] self.idmap@[j]).0
                    <= self.top_id by {
                    assert(vold.entries[j].0 <= vold.top_id);
                }
            }
            id
        }
    }

    /// Map `id`, which must be unmapped, not free, and within the counter,
    /// to `obj`.
    pub fn register_at(&mut self, id: Id, obj: WaylandObject)
        requires
            spec_wf(old(self)@),
            spec_index_of(old(self)@.entries, id) < 0,
            forall|i: int| 0 <= i < old(self)@.free.len() ==> (#[trigger] old(self)@.free[i]) != id,
            id <= old(self).top_id,
        ensures
            spec_wf(final(self)@),
            final(self)@ == (ImView { entries: old(self)@.entries.push((id, obj)), ..old(self)@ }),
            spec_lookup(final(self)@, id) == Some(obj),
            forall|id2: Id|
                id2 != id ==> #[trigger] spec_lookup(final(self)@, id2) == spec_lookup(
                    old(self)@,
                    id2,
                ),
    {
        proof {
            lemma_index_of(self.idmap@, id);
        }
        let ghost oldmap = self.idmap@;
        let ghost objg = obj;
        self.idmap.push((id, obj));
        proof {
            lemma_index_of_push_fresh(oldmap, id, objg);
            assert(self.idmap@ == oldmap.push((id, objg)));
            assert(forall|j: int| 0 <= j < oldmap.len() ==> (#[trigger] self.idmap@[j]) == oldmap[j]);
            assert(self.idmap@[oldmap.len() as int] == (id, objg));
            assert forall|id2: Id| id2 != id implies #[trigger] spec_lookup(self@, id2)
                == spec_lookup_entries(oldmap, id2) by {
                lemma_lookup_entries_push_other(oldmap, id2, id, objg);
            }
        }
    }

    /// Record or clear the current synchronisation point.
    pub fn set_sync(&mut self, id: Option<Id>)
        requires
            spec_wf(old(self)@),
        ensures
            spec_wf(final(self)@),
            final(self)@ == (ImView { sync: id, ..old(self)@ }),
    {
        self.current_sync_id = id;
        proof {
            let vold = old(self)@;
            assert forall|a: int, b: int|
                0 <= a < b < self.idmap@.len() implies (#[trigger] self.idmap@[a]).0 != (
            #[trigger] self.idmap@[b]).0 by {
                assert(vold.entries[a].0 != vold.entries[b].0);
            }
            assert forall|a: int, b: int|
                0 <= a < self.free@.len() && 0 <= b < self.idmap@.len() implies (
            #[trigger] self.free@[a]) != (#[trigger] self.idmap@[b]).0 by {
                assert(vold.free[a] != vold.entries[b].0);
            }
            assert forall|a: int, b: int|
                0 <= a < b < self.free@.len() implies self.free@[a] != self.free@[b] by {
                assert(vold.free[a] != vold.free[b]);
            }
            assert forall|j: int| 0 <= j < self.idmap@.len() implies (#[trigger] self.idmap@[j]).0
                <= self.top_id by {
                assert(vold.entries[j].0 <= vold.top_id);
            }
            assert forall|i: int| 0 <= i < self.free@.len() implies (#[trigger] self.free@[i])
                <= self.top_id by {
                assert(vold.free[i] <= vold.top_id);
            }
        }
    }

    /// Map two distinct absent ids in one step; the common case of putting
    /// a taken object back beside a fresh or restored one.
    pub fn register_two(&mut self, id1: Id, o1: WaylandObject, id2: Id, o2: WaylandObject)
        requires
            spec_wf(old(self)@),
            spec_index_of(old(self)@.entries, id1) < 0,
            spec_index_of(old(self)@.entries, id2) < 0,
            forall|i: int| 0 <= i < old(self)@.free.len() ==> (#[trigger] old(self)@.free[i]) != id1,
            forall|i: int| 0 <= i < old(self)@.free.len() ==> (#[trigger] old(self)@.free[i]) != id2,
            id1 <= old(self).top_id,
            id2 <= old(self).top_id,
            id1 != id2,
        ensures
            spec_wf(final(self)@),
            final(self)@ == (ImView {
                entries: old(self)@.entries.push((id1, o1)).push((id2, o2)),
                ..old(self)@
            }),
            spec_lookup(final(self)@, id1) == Some(o1),
            spec_lookup(final(self)@, id2) == Some(o2),
            forall|id3: Id|
                id3 != id1 && id3 != id2 ==> #[trigger] spec_lookup(final(self)@, id3)
                    == spec_lookup(old(self)@, id3),
    {
        let ghost o1g = o1;
        let ghost prior = self@.entries;
        self.register_at(id1, o1);
        let ghost mid = self@;
        proof {
            lemma_index_of_push_other(prior, id2, id1, o1g);
            assert(self@.entries == prior.push((id1, o1g)));
        }
        self.register_at(id2, o2);
        proof {
            assert(spec_lookup(final(self)@, id1) == spec_lookup(mid, id1));
            assert forall|id3: Id| id3 != id1 && id3 != id2 implies #[trigger] spec_lookup(
                self@,
                id3,
            ) == spec_lookup_entries(prior, id3) by {
                assert(spec_lookup(mid, id3) == spec_lookup_entries(prior, id3));
                assert(spec_lookup(self@, id3) == spec_lookup(mid, id3));
            }
        }
    }

    /// Allocate an id — recycling before counting up — and map it to `obj`.
    pub fn new_id_registered(&mut self, obj: WaylandObject) -> (r: Id)
        requires
            spec_wf(old(self)@),
            old(self).top_id < u32::MAX,
        ensures
            spec_wf(final(self)@),
            (final(self)@, r) == spec_alloc(old(self)@, obj),
            spec_lookup(final(self)@, r) == Some(obj),
            spec_index_of(old(self)@.entries, r) < 0,
    {
        let id = self.pick_id();
        self.register_at(id, obj);
        proof {
            lemma_index_of(old(self)@.entries, id);
        }
        id
    }

    /// Unmap `id` and push it onto the free list; freeing an id that is not
    /// mapped changes nothing.
    pub fn free_id(&mut self, id: Id) -> (r: Result<(), WaylandError>)
        requires
            spec_wf(old(self)@),
        ensures
            spec_wf(final(self)@),
            final(self)@ == spec_free(old(self)@, id),
            r is Ok,
            spec_lookup(final(self)@, id) is None,
    {
        match self.find_index(id) {
            Some(i) => {
                proof {
                    lemma_index_of(self.idmap@, id);
                }
                let ghost oldmap = self.idmap@;
                let ghost oldfree = self.free@;
                self.idmap.remove(i);
                self.free.push(id);
                proof {
                    assert(self.idmap@ == oldmap.remove(i as int));
                    assert(forall|j: int|
                        0 <= j < i ==> (#[trigger] self.idmap@[j]) == oldmap[j]);
                    assert(forall|j: int|
                        i <= j < self.idmap@.len() ==> (#[trigger] self.idmap@[j]) == oldmap[j
                            + 1]);
                    assert(forall|j: int|
                        0 <= j < self.idmap@.len() ==> (#[trigger] self.idmap@[j]).0 != id);
                    lemma_index_of_none(self.idmap@, id);
                }
                Ok(())
            },
            None => {
                proof {
                    lemma_index_of(self.idmap@, id);
                }
                Ok(())
            },
        }
    }

    /// The object mapped under `id`, or `ObjectNonExistent`.
    pub fn find_obj_by_id(&self, id: Id) -> (r: Result<&WaylandObject, WaylandError>)
        ensures
            match r {
                Ok(o) => spec_lookup(self@, id) == Some(*o),
                Err(e) => spec_lookup(self@, id) is None
                    && e matches WaylandError::ObjectNonExistent,
            },
    {
        match self.find_index(id) {
            Some(i) => {
                proof {
                    lemma_index_of(self.idmap@, id);
                }
                Ok(&self.idmap[i].1)
            },
            None => Err(WaylandError::ObjectNonExistent),
        }
    }

    /// Take the object mapped under `id` out of the map entirely, neither
    /// recycling nor remembering the id; the caller puts it back with
    /// `register_at`. Dropping an unmapped id yields nothing and changes
    /// nothing.
    pub fn take_obj(&mut self, id: Id) -> (r: Option<WaylandObject>)
        requires
            spec_wf(old(self)@),
        ensures
            spec_wf(final(self)@),
            final(self)@.free == old(self)@.free,
            final(self)@.top_id == old(self)@.top_id,
            final(self)@.sync == old(self)@.sync,
            forall|id2: Id|
                id2 != id ==> #[trigger] spec_lookup(final(self)@, id2) == spec_lookup(
                    old(self)@,
                    id2,
                ),
            match r {
                Some(o) => spec_lookup(old(self)@, id) == Some(o) && final(self)@.entries == old(
                    self,
                )@.entries.remove(spec_index_of(old(self)@.entries, id)) && spec_index_of(
                    final(self)@.entries,
                    id,
                ) < 0 && id <= old(self)@.top_id && (forall|i: int|
                    0 <= i < final(self)@.free.len() ==> (#[trigger] final(self)@.free[i]) != id),
                None => spec_lookup(old(self)@, id) is None && final(self)@ == old(self)@,
            },
    {
        match self.find_index(id) {
            Some(i) => {
                proof {
                    lemma_index_of(self.idmap@, id);
                }
                let ghost oldmap = self.idmap@;
                let o = self.idmap.remove(i);
                proof {
                    let vold = old(self)@;
                    assert(forall|j: int|
                        0 <= j < i ==> (#[trigger] self.idmap@[j]) == oldmap[j]);
                    assert(forall|j: int|
                        i <= j < self.idmap@.len() ==> (#[trigger] self.idmap@[j]) == oldmap[j
                            + 1]);
                    assert(forall|j: int|
                        0 <= j < self.idmap@.len() ==> (#[trigger] self.idmap@[j]).0 != id);
                    lemma_index_of_none(self.idmap@, id);
                    assert forall|a: int, b: int|
                        0 <= a < self.free@.len() && 0 <= b < self.idmap@.len() implies (
                    #[trigger] self.free@[a]) != (#[trigger] self.idmap@[b]).0 by {
                        if b < i {
                            assert(self.idmap@[b] == oldmap[b]);
                            assert(vold.free[a] != vold.entries[b].0);
                        } else {
                            assert(self.idmap@[b] == oldmap[b + 1]);
                            assert(vold.free[a] != vold.entries[b + 1].0);
                        }
                    }
                    assert forall|i2: int| 0 <= i2 < self.free@.len() implies (
                    #[trigger] self.free@[i2]) != id by {
                        assert(vold.free[i2] != vold.entries[i as int].0);
                    }
                    assert(vold.entries[i as int].0 <= vold.top_id);
                    assert forall|a: int, b: int|
                        0 <= a < b < self.idmap@.len() implies (#[trigger] self.idmap@[a]).0 != (
                    #[trigger] self.idmap@[b]).0 by {
                        let a2 = if a < i { a } else { a + 1 };
                        let b2 = if b < i { b } else { b + 1 };
                        assert(self.idmap@[a] == oldmap[a2]);
                        assert(self.idmap@[b] == oldmap[b2]);
                        assert(vold.entries[a2].0 != vold.entries[b2].0);
                    }
                    assert forall|j: int| 0 <= j < self.idmap@.len() implies (
                    #[trigger] self.idmap@[j]).0 <= self.top_id by {
                        let j2 = if j < i { j } else { j + 1 };
                        assert(self.idmap@[j] == oldmap[j2]);
                        assert(vold.entries[j2].0 <= vold.top_id);
                    }
                    assert forall|a: int, b: int|
                        0 <= a < b < self.free@.len() implies self.free@[a] != self.free@[b] by {
                        assert(vold.free[a] != vold.free[b]);
                    }
                    assert forall|a: int| 0 <= a < self.free@.len() implies (
                    #[trigger] self.free@[a]) <= self.top_id by {
                        assert(vold.free[a] <= vold.top_id);
                    }
                    assert forall|id2: Id| id2 != id implies #[trigger] spec_lookup(self@, id2)
                        == spec_lookup(vold, id2) by {
                        assert(oldmap[i as int].0 == id);
                        lemma_lookup_entries_remove(oldmap, i as int, id2);
                    }
                }
                Some(o.1)
            },
            None => {
                proof {
                    lemma_index_of(self.idmap@, id);
                }
                None
            },
        }
    }
}

/// Allocating, freeing, then allocating again hands out the very same id,
/// whenever the free list starts out empty: the free returns the id to an
/// otherwise empty free list, and the next allocation recycles it first.
pub proof fn lemma_id_roundtrip(v: ImView, obj1: WaylandObject, obj2: WaylandObject)
    requires
        spec_wf(v),
        v.free.len() == 0,
        v.top_id < u32::MAX,
    ensures
        ({
            let (v1, id1) = spec_alloc(v, obj1);
            let v2 = spec_free(v1, id1);
            let (v3, id2) = spec_alloc(v2, obj2);
            id2 == id1
        }),
{
    let (v1, id1) = spec_alloc(v, obj1);
    lemma_index_of(v.entries, id1);
    lemma_index_of_push_fresh(v.entries, id1, obj1);
    let v2 = spec_free(v1, id1);
    assert(v2.free == v.free.push(id1));
    assert(v2.free[0] == id1);
}

/// Every id that allocation hands out is mapped to exactly the object it
/// was allocated for, and stays resolvable until it is freed, upon which
/// lookup fails.
pub proof fn lemma_id_map_coverage(v: ImView, obj: WaylandObject)
    requires
        spec_wf(v),
        v.top_id < u32::MAX,
    ensures
        ({
            let (v1, id) = spec_alloc(v, obj);
            spec_lookup(v1, id) == Some(obj) && spec_lookup(spec_free(v1, id), id) is None
        }),
{
    let (v1, id) = spec_alloc(v, obj);
    if v.free.len() > 0 {
        lemma_index_of(v.entries, id);
        if spec_index_of(v.entries, id) >= 0 {
            let i = spec_index_of(v.entries, id);
            assert(v.free[0] == v.entries[i].0);
            assert(false);
        }
    }
    lemma_index_of(v.entries, id);
    lemma_index_of_push_fresh(v.entries, id, obj);
    let i1 = spec_index_of(v1.entries, id);
    assert(i1 == v.entries.len());
    assert(v1.entries[i1].1 == obj);
    let vf = spec_free(v1, id);
    assert(vf.entries =~= v.entries);
    lemma_index_of(v.entries, id);
}

} // verus!
