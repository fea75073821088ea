//! The set of viewports (independent top-level surfaces) and which of them
//! survive the end of a pass.
use vstd::prelude::*;
use crate::id::{Id, NULL_ID_VALUE};
use crate::repaint::ViewportId;

verus! {

/// The root viewport, parent of all top-level ones.
pub open spec fn root_viewport() -> ViewportId {
    ViewportId(Id(NULL_ID_VALUE))
}

/// A known viewport: its parent, and whether it was shown this pass.
#[derive(Clone, Copy, Debug, PartialEq, Eq, Structural)]
pub struct ViewportEntry {
    pub id: ViewportId,
    pub parent: ViewportId,
    pub used: bool,
}

/// Is `v` the root or one of the known viewports?
pub open spec fn known_viewport(entries: Seq<ViewportEntry>, v: ViewportId) -> bool {
    v == root_viewport() || exists|i: int| 0 <= i < entries.len() && (#[trigger] entries[i]).id == v
}

/// Does the entry survive the end of a pass of `ended`: its parent is still
/// known, and if it is a child of `ended` it was shown this pass.
pub open spec fn survives(entries: Seq<ViewportEntry>, ended: ViewportId) -> spec_fn(ViewportEntry) -> bool {
    |e: ViewportEntry| known_viewport(entries, e.parent) && !(e.parent == ended && e.id != root_viewport() && !e.used)
}

/// A surviving child of `ended` must be shown again next pass.
pub open spec fn reset_child(ended: ViewportId) -> spec_fn(ViewportEntry) -> ViewportEntry {
    |e: ViewportEntry| if e.parent == ended && e.id != root_viewport() { ViewportEntry { used: false, ..e } } else { e }
}

/// The known viewports other than the root.
pub struct ViewportRegistry {
    entries: Vec<ViewportEntry>,
}

impl ViewportRegistry {
    pub closed spec fn view(&self) -> Seq<ViewportEntry> {
        self.entries@
    }

    /// No viewport is listed twice.
    pub closed spec fn wf(&self) -> bool {
        forall|i: int, j: int| 0 <= i < j < self.entries@.len() ==> #[trigger] self.entries@[i].id != #[trigger] self.entries@[j].id
    }

    pub fn new() -> (r: ViewportRegistry)
        ensures
            r.wf(),
            r.view().len() == 0,
    {
        ViewportRegistry { entries: Vec::new() }
    }

    fn index_of(&self, id: ViewportId) -> (r: Option<usize>)
        ensures
            r.is_none() ==> forall|i: int| 0 <= i < self.entries@.len() ==> (#[trigger] self.entries@[i]).id != id,
            r.is_some() ==> r.unwrap() < self.entries@.len() && self.entries@[r.unwrap() as int].id == id,
    {
        let mut i: usize = 0;
        while i < self.entries.len()
            invariant
                i <= self.entries@.len(),
                forall|j: int| 0 <= j < i ==> (#[trigger] self.entries@[j]).id != id,
            decreases self.entries@.len() - i,
        {
            if self.entries[i].id == id {
                return Some(i);
            }
            i = i + 1;
        }
        None
    }

    /// A viewport is shown this pass, as a child of `parent`; it is created
    /// on first use.
    pub fn mark_used(&mut self, id: ViewportId, parent: ViewportId)
        requires
            old(self).wf(),
        ensures
            final(self).wf(),
            (exists|i: int| 0 <= i < old(self).view().len() && (#[trigger] old(self).view()[i]).id == id) ==>
                exists|i: int| 0 <= i < old(self).view().len() && (#[trigger] old(self).view()[i]).id == id
                    && final(self).view() == old(self).view().update(i, ViewportEntry { id, parent, used: true }),
            !(exists|i: int| 0 <= i < old(self).view().len() && (#[trigger] old(self).view()[i]).id == id) ==>
                final(self).view() == old(self).view().push(ViewportEntry { id, parent, used: true }),
    {
        match self.index_of(id) {
            Some(i) => {
                self.entries.set(i, ViewportEntry { id, parent, used: true });
                proof {
                    assert(old(self).view()[i as int].id == id);
                    assert forall|a: int, b: int| 0 <= a < b < self.entries@.len() implies
                        #[trigger] self.entries@[a].id != #[trigger] self.entries@[b].id by {
                        assert(old(self).entries@[a].id != old(self).entries@[b].id);
                    }
                }
            },
            None => {
                self.entries.push(ViewportEntry { id, parent, used: true });
                proof {
                    assert forall|a: int, b: int| 0 <= a < b < self.entries@.len() implies
                        #[trigger] self.entries@[a].id != #[trigger] self.entries@[b].id by {
                        if b == self.entries@.len() - 1 {
                            assert(old(self).entries@[a].id != id);
                        } else {
                            assert(old(self).entries@[a].id != old(self).entries@[b].id);
                        }
                    }
                }
            },
        }
    }

    /// The parent of a viewport; the root for the root and for unknown ones.
    pub fn parent_of(&self, id: ViewportId) -> (r: ViewportId)
        ensures
            (exists|i: int| 0 <= i < self.view().len() && (#[trigger] self.view()[i]).id == id) ==>
                exists|i: int| 0 <= i < self.view().len() && (#[trigger] self.view()[i]).id == id && r == self.view()[i].parent,
            !(exists|i: int| 0 <= i < self.view().len() && (#[trigger] self.view()[i]).id == id) ==> r == root_viewport(),
    {
        match self.index_of(id) {
            Some(i) => {
                proof {
                    assert(self.view()[i as int].id == id);
                }
                self.entries[i].parent
            },
            None => {
                let root = ViewportId(Id::null());
                proof {
                    assert(root == root_viewport());
                }
                root
            },
        }
    }

    /// Every known viewport and the root.
    pub fn all_viewport_ids(&self) -> (r: Vec<ViewportId>)
        ensures
            forall|v: ViewportId| r@.contains(v) <==> known_viewport(self.view(), v),
    {
        let mut r: Vec<ViewportId> = Vec::new();
        let mut i: usize = 0;
        while i < self.entries.len()
            invariant
                i <= self.entries@.len(),
                r@.len() == i,
                forall|j: int| 0 <= j < i ==> r@[j] == (#[trigger] self.entries@[j]).id,
            decreases self.entries@.len() - i,
        {
            r.push(self.entries[i].id);
            i = i + 1;
        }
        r.push(ViewportId(Id::null()));
        proof {
            assert forall|v: ViewportId| r@.contains(v) <==> known_viewport(self.view(), v) by {
                if r@.contains(v) {
                    let k = choose|k: int| 0 <= k < r@.len() && r@[k] == v;
                    if k < self.entries@.len() {
                        assert(self.view()[k].id == v);
                    }
                }
                if known_viewport(self.view(), v) {
                    if v == root_viewport() {
                        assert(r@[r@.len() - 1] == v);
                    } else {
                        let k = choose|k: int| 0 <= k < self.view().len() && (#[trigger] self.view()[k]).id == v;
                        assert(r@[k] == v);
                    }
                }
            }
        }
        r
    }

    /// The end of a pass of viewport `ended`: viewports whose parent is gone
    /// are dropped, and so are children of `ended` not shown this pass; the
    /// surviving children must be shown again next pass.
    pub fn end_pass(&mut self, ended: ViewportId)
        requires
            old(self).wf(),
        ensures
            final(self).wf(),
            final(self).view() == old(self).view().filter(survives(old(self).view(), ended)).map_values(reset_child(ended)),
    {
        let ghost before = self.entries@;
        let mut kept: Vec<ViewportEntry> = Vec::new();
        let mut i: usize = 0;
        while i < self.entries.len()
            invariant
                i <= self.entries@.len(),
                self.entries@ == before,
                kept@ == before.take(i as int).filter(survives(before, ended)).map_values(reset_child(ended)),
                forall|a: int, b: int| 0 <= a < b < before.len() ==> #[trigger] before[a].id != #[trigger] before[b].id,
                forall|k: int| 0 <= k < kept@.len() ==> exists|m: int| 0 <= m < i && (#[trigger] kept@[k]).id == #[trigger] before[m].id,
                forall|a: int, b: int| 0 <= a < b < kept@.len() ==> #[trigger] kept@[a].id != #[trigger] kept@[b].id,
            decreases self.entries@.len() - i,
        {
            let e = self.entries[i];
            proof {
                assert(before.take(i + 1) =~= before.take(i as int).push(e));
                before.take(i as int).lemma_filter_push(e, survives(before, ended));
            }
            let parent_known = if e.parent == ViewportId(Id::null()) {
                true
            } else {
                match self.index_of(e.parent) {
                    Some(_) => true,
                    None => false,
                }
            };
            let is_child = e.parent == ended && e.id != ViewportId(Id::null());
            if parent_known && !(is_child && !e.used) {
                let out = if is_child { ViewportEntry { id: e.id, parent: e.parent, used: false } } else { e };
                let ghost old_kept = kept@;
                proof {
                    assert forall|k: int| 0 <= k < old_kept.len() implies (#[trigger] old_kept[k]).id != e.id by {
                        let m = choose|m: int| 0 <= m < i && (#[trigger] old_kept[k]).id == #[trigger] before[m].id;
                        assert(before[m].id != before[i as int].id);
                    }
                }
                kept.push(out);
                proof {
                    assert(kept@ =~= before.take(i + 1).filter(survives(before, ended)).map_values(reset_child(ended)));
                    assert forall|k: int| 0 <= k < kept@.len() implies exists|m: int| 0 <= m < i + 1 && (#[trigger] kept@[k]).id == #[trigger] before[m].id by {
                        if k == kept@.len() - 1 {
                            assert(kept@[k].id == before[i as int].id);
                        } else {
                            let m = choose|m: int| 0 <= m < i && (#[trigger] old_kept[k]).id == #[trigger] before[m].id;
                            assert(kept@[k] == old_kept[k]);
                        }
                    }
                }
            } else {
                proof {
                    assert(!survives(before, ended)(e));
                }
            }
            i = i + 1;
        }
        proof {
            assert(before.take(i as int) =~= before);
        }
        self.entries = kept;
    }
}

} // verus!
