//! Floating areas and the back-to-front order of all layers.
use vstd::prelude::*;
use std::cmp::Ordering;
use std::collections::HashMap;
use crate::id::Id;
use crate::layers::{LayerId, Order, order_rank};
use crate::geometry::{Pos2, Rect, rect_contains};

verus! {

broadcast use vstd::std_specs::hash::group_hash_axioms;

/// What is remembered of a floating area between frames.
#[derive(Clone, Copy, Debug, PartialEq, Eq, Structural)]
pub struct AreaState {
    /// Where the area is on screen (in its layer's coordinates).
    pub rect: Rect,
    /// Can the area be interacted with?
    pub interactable: bool,
}

impl AreaState {
    pub fn new(rect: Rect, interactable: bool) -> (r: AreaState)
        ensures
            r.rect == rect,
            r.interactable == interactable,
    {
        AreaState { rect, interactable }
    }
}

/// Position of `x` in `s`, or -1 when absent. In a sequence without
/// duplicates the position is unique.
pub open spec fn position_in(s: Seq<LayerId>, x: LayerId) -> int {
    if s.contains(x) {
        choose|i: int| 0 <= i < s.len() && s[i] == x
    } else {
        -1
    }
}

/// The order of two layers: by order class first, then by position in
/// `ranking`, an absent layer below every ranked one.
pub open spec fn compare_layers(ranking: Seq<LayerId>, a: LayerId, b: LayerId) -> Ordering {
    if order_rank(a.order) < order_rank(b.order) {
        Ordering::Less
    } else if order_rank(a.order) > order_rank(b.order) {
        Ordering::Greater
    } else {
        let pa = position_in(ranking, a);
        let pb = position_in(ranking, b);
        if pa < pb {
            Ordering::Less
        } else if pa > pb {
            Ordering::Greater
        } else {
            Ordering::Equal
        }
    }
}


/// The key by which the order is sorted at the end of a pass: the order class,
/// then whether the layer asked to be on top.
pub open spec fn sort_key(l: LayerId, top: Seq<LayerId>) -> int {
    order_rank(l.order) * 2 + if top.contains(l) { 1int } else { 0int }
}

/// The number of distinct sort keys.
pub const NUM_SORT_KEYS: usize = 12;

pub open spec fn has_key(top: Seq<LayerId>, k: int) -> spec_fn(LayerId) -> bool {
    |l: LayerId| sort_key(l, top) == k
}

pub open spec fn in_seq(c: Seq<LayerId>) -> spec_fn(LayerId) -> bool {
    |l: LayerId| c.contains(l)
}

pub open spec fn not_in_seq(c: Seq<LayerId>) -> spec_fn(LayerId) -> bool {
    |l: LayerId| !c.contains(l)
}

/// The layers of `s` with a sort key below `k`, key by key, each key's layers
/// in their order in `s`.
pub open spec fn sorted_upto(s: Seq<LayerId>, top: Seq<LayerId>, k: nat) -> Seq<LayerId>
    decreases k,
{
    if k == 0 {
        Seq::empty()
    } else {
        sorted_upto(s, top, (k - 1) as nat) + s.filter(has_key(top, k - 1))
    }
}

/// `s` stably sorted by `sort_key`.
pub open spec fn sorted_layers(s: Seq<LayerId>, top: Seq<LayerId>) -> Seq<LayerId> {
    sorted_upto(s, top, NUM_SORT_KEYS as nat)
}

/// The first `n` layers of `rest`, with `moved` placed right after `parent`.
pub open spec fn splice_at(rest: Seq<LayerId>, parent: LayerId, moved: Seq<LayerId>, n: nat) -> Seq<LayerId>
    decreases n,
{
    if n == 0 {
        Seq::empty()
    } else {
        splice_at(rest, parent, moved, (n - 1) as nat) + if rest[n - 1] == parent {
            seq![parent] + moved
        } else {
            seq![rest[n - 1]]
        }
    }
}

/// `s` with the layers of `children` taken out and put back, in their order
/// in `s`, right after `parent`. Where `parent` is not left, they stay out.
pub open spec fn splice_one(s: Seq<LayerId>, parent: LayerId, children: Seq<LayerId>) -> Seq<LayerId> {
    let rest = s.filter(not_in_seq(children));
    let moved = s.filter(in_seq(children));
    splice_at(rest, parent, moved, rest.len())
}

/// `s` with the first `n` sublayer groups spliced in turn.
pub open spec fn splice_all(s: Seq<LayerId>, groups: Seq<(LayerId, Seq<LayerId>)>, n: nat) -> Seq<LayerId>
    decreases n,
{
    if n == 0 {
        s
    } else {
        let t = splice_all(s, groups, (n - 1) as nat);
        splice_one(t, groups[n - 1].0, groups[n - 1].1)
    }
}

/// The order after the end of a pass: sorted by class and top requests, then
/// each parent followed by its sublayers.
pub open spec fn order_after_pass(order: Seq<LayerId>, top: Seq<LayerId>, groups: Seq<(LayerId, Seq<LayerId>)>) -> Seq<LayerId> {
    splice_all(sorted_layers(order, top), groups, groups.len())
}

/// Pushing a new element keeps a sequence free of duplicates.
pub proof fn lemma_push_no_dup(s: Seq<LayerId>, x: LayerId)
    requires
        s.no_duplicates(),
        !s.contains(x),
    ensures
        s.push(x).no_duplicates(),
{
    let t = s.push(x);
    assert forall|i: int, j: int| 0 <= i < t.len() && 0 <= j < t.len() && i != j implies t[i] != t[j] by {
        if i == s.len() {
            assert(s[j] == t[j]);
        } else if j == s.len() {
            assert(s[i] == t[i]);
        } else {
            assert(s[i] == t[i] && s[j] == t[j]);
        }
    }
}

/// What the left part of a concatenation holds, the whole holds.
pub proof fn lemma_concat_contains_left(a: Seq<LayerId>, b: Seq<LayerId>, x: LayerId)
    requires
        a.contains(x),
    ensures
        (a + b).contains(x),
{
    let i = choose|i: int| 0 <= i < a.len() && a[i] == x;
    assert((a + b)[i] == x);
}

/// What a pushed sequence holds.
pub proof fn lemma_push_contains(s: Seq<LayerId>, x: LayerId)
    ensures
        forall|y: LayerId| #[trigger] s.push(x).contains(y) <==> (s.contains(y) || y == x),
{
    s.lemma_push_to_set_commute(x);
    assert forall|y: LayerId| #[trigger] s.push(x).contains(y) <==> (s.contains(y) || y == x) by {
        assert(s.push(x).to_set().contains(y) == s.push(x).contains(y));
        assert(s.to_set().contains(y) == s.contains(y));
    }
}

/// A layer at position `i` of a sequence without duplicates is not among the
/// first `i`.
pub proof fn lemma_not_in_prefix(s: Seq<LayerId>, i: int)
    requires
        s.no_duplicates(),
        0 <= i < s.len(),
    ensures
        !s.take(i).contains(s[i]),
{
    if s.take(i).contains(s[i]) {
        let m = choose|m: int| 0 <= m < i && s.take(i)[m] == s[i];
        assert(s[m] == s[i]);
    }
}

/// Is `x` in `v`?
pub fn vec_contains(v: &Vec<LayerId>, x: LayerId) -> (r: bool)
    ensures
        r == v@.contains(x),
{
    let mut i: usize = 0;
    while i < v.len()
        invariant
            i <= v@.len(),
            forall|j: int| 0 <= j < i ==> v@[j] != x,
        decreases v@.len() - i,
    {
        if v[i] == x {
            return true;
        }
        i = i + 1;
    }
    false
}

/// The position of `x` in `v`, which holds no duplicates.
fn vec_position(v: &Vec<LayerId>, x: LayerId) -> (r: Option<usize>)
    requires
        v@.no_duplicates(),
    ensures
        r.is_none() == !v@.contains(x),
        r.is_some() ==> r.unwrap() as int == position_in(v@, x),
{
    let mut i: usize = 0;
    while i < v.len()
        invariant
            i <= v@.len(),
            v@.no_duplicates(),
            forall|j: int| 0 <= j < i ==> v@[j] != x,
        decreases v@.len() - i,
    {
        if v[i] == x {
            proof {
                assert(v@.contains(x));
                let c = position_in(v@, x);
                assert(0 <= c < v@.len() && v@[c] == x);
                assert(v@[i as int] == x);
                assert(c == i as int);
            }
            return Some(i);
        }
        i = i + 1;
    }
    None
}

/// Does some group list `l` as a sublayer?
pub open spec fn is_sublayer_in(groups: Seq<(LayerId, Seq<LayerId>)>, l: LayerId) -> bool {
    exists|i: int| 0 <= i < groups.len() && (#[trigger] groups[i]).1.contains(l)
}

/// The groups after declaring `child` a sublayer of `parent`: added to the
/// parent's group if it has one, else in a new group at the end.
pub open spec fn with_sublayer(groups: Seq<(LayerId, Seq<LayerId>)>, parent: LayerId, child: LayerId) -> Seq<(LayerId, Seq<LayerId>)> {
    if exists|i: int| 0 <= i < groups.len() && (#[trigger] groups[i]).0 == parent {
        let i = choose|i: int| 0 <= i < groups.len() && (#[trigger] groups[i]).0 == parent;
        let kids = groups[i].1;
        groups.update(i, (parent, if kids.contains(child) { kids } else { kids.push(child) }))
    } else {
        groups.push((parent, seq![child]))
    }
}

/// Does layer `l` take the pointer at `pos`: visible, with an interactable
/// area whose rectangle holds `pos`?
pub open spec fn takes_pointer(a: &Areas, l: LayerId, pos: Pos2) -> bool {
    &&& a.visible_spec(l)
    &&& a.area_map().contains_key(l.id.0)
    &&& a.area_map()[l.id.0].interactable
    &&& rect_contains(a.area_map()[l.id.0].rect, pos)
}

/// The layers of order class `o` that are not sublayers, back to front.
pub open spec fn top_candidates(groups: Seq<(LayerId, Seq<LayerId>)>, o: Order) -> spec_fn(LayerId) -> bool {
    |l: LayerId| l.order == o && !is_sublayer_in(groups, l)
}

/// Keeps track of floating areas and of the order of all layers.
pub struct Areas {
    areas: HashMap<u64, AreaState>,
    visible_last_frame: Vec<LayerId>,
    visible_current_frame: Vec<LayerId>,
    /// Back-to-front; top is last.
    order: Vec<LayerId>,
    /// `order` as it stood at the end of the last pass.
    order_map: Vec<LayerId>,
    /// Layers that asked this pass to be brought to the top.
    wants_to_be_on_top: Vec<LayerId>,
    /// Each parent layer with its sublayers, in the order they were declared.
    sublayers: Vec<(LayerId, Vec<LayerId>)>,
}

/// The sublayer groups as sequences.
pub open spec fn groups_view(g: Seq<(LayerId, Vec<LayerId>)>) -> Seq<(LayerId, Seq<LayerId>)> {
    g.map_values(|e: (LayerId, Vec<LayerId>)| (e.0, e.1@))
}

impl Areas {
    /// The area states by identifier value.
    pub closed spec fn area_map(&self) -> Map<u64, AreaState> {
        self.areas@
    }

    /// Layers back-to-front, as they stand now.
    pub closed spec fn order_view(&self) -> Seq<LayerId> {
        self.order@
    }

    /// The order recorded at the end of the last pass; it decides ties in
    /// `compare_order`.
    pub closed spec fn ranking(&self) -> Seq<LayerId> {
        self.order_map@
    }

    pub closed spec fn visible_last(&self) -> Set<LayerId> {
        self.visible_last_frame@.to_set()
    }

    pub closed spec fn visible_current(&self) -> Set<LayerId> {
        self.visible_current_frame@.to_set()
    }

    pub closed spec fn top_requests(&self) -> Seq<LayerId> {
        self.wants_to_be_on_top@
    }

    pub closed spec fn sublayer_groups(&self) -> Seq<(LayerId, Seq<LayerId>)> {
        groups_view(self.sublayers@)
    }

    /// Is the layer visible: registered in this pass or the one before?
    pub open spec fn visible_spec(&self, l: LayerId) -> bool {
        self.visible_last().contains(l) || self.visible_current().contains(l)
    }

    /// Neither order lists a layer twice.
    pub closed spec fn wf(&self) -> bool {
        &&& self.order@.no_duplicates()
        &&& self.order_map@.no_duplicates()
        &&& forall|i: int, j: int|
            0 <= i < j < self.sublayers@.len() ==> #[trigger] self.sublayers@[i].0 != #[trigger] self.sublayers@[j].0
        &&& forall|i: int| 0 <= i < self.sublayers@.len() ==> self.order@.contains((#[trigger] self.sublayers@[i]).0)
            && !self.sublayers@[i].1@.contains(self.sublayers@[i].0)
        &&& forall|i: int, c: LayerId| 0 <= i < self.sublayers@.len() && #[trigger] self.sublayers@[i].1@.contains(c)
            ==> c.order == self.sublayers@[i].0.order
    }

    pub fn new() -> (r: Areas)
        ensures
            r.wf(),
            r.area_map() == Map::<u64, AreaState>::empty(),
            r.order_view() == Seq::<LayerId>::empty(),
            r.ranking() == Seq::<LayerId>::empty(),
            r.visible_last() == Set::<LayerId>::empty(),
            r.visible_current() == Set::<LayerId>::empty(),
            r.top_requests() == Seq::<LayerId>::empty(),
            r.sublayer_groups() == Seq::<(LayerId, Seq<LayerId>)>::empty(),
    {
        let r = Areas {
            areas: HashMap::new(),
            visible_last_frame: Vec::new(),
            visible_current_frame: Vec::new(),
            order: Vec::new(),
            order_map: Vec::new(),
            wants_to_be_on_top: Vec::new(),
            sublayers: Vec::new(),
        };
        proof {
            assert(r.visible_last_frame@.to_set() =~= Set::<LayerId>::empty());
            assert(r.sublayer_groups() =~= Seq::<(LayerId, Seq<LayerId>)>::empty());
        }
        r
    }

    /// The number of known areas.
    pub fn count(&self) -> (r: usize)
        ensures
            r == self.area_map().len(),
    {
        self.areas.len()
    }

    /// The remembered state of an area.
    pub fn get(&self, id: Id) -> (r: Option<AreaState>)
        ensures
            r == (if self.area_map().contains_key(id.0) { Some(self.area_map()[id.0]) } else { None::<AreaState> }),
    {
        match self.areas.get(&id.0) {
            Some(s) => Some(*s),
            None => None,
        }
    }

    /// All layers back-to-front; top is last.
    pub fn order(&self) -> (r: &Vec<LayerId>)
        ensures
            r@ == self.order_view(),
    {
        &self.order
    }

    /// Compare the paint order of two layers: by order class, then by the
    /// order at the end of the last pass. Two layers of one class that were
    /// not both ranked may compare equal.
    pub fn compare_order(&self, a: LayerId, b: LayerId) -> (r: Ordering)
        requires
            self.wf(),
        ensures
            r == compare_layers(self.ranking(), a, b),
    {
        let ra = a.order.rank();
        let rb = b.order.rank();
        if ra < rb {
            Ordering::Less
        } else if ra > rb {
            Ordering::Greater
        } else {
            let pa = vec_position(&self.order_map, a);
            let pb = vec_position(&self.order_map, b);
            match (pa, pb) {
                (None, None) => Ordering::Equal,
                (None, Some(_)) => Ordering::Less,
                (Some(_), None) => Ordering::Greater,
                (Some(x), Some(y)) => {
                    if x < y {
                        Ordering::Less
                    } else if x > y {
                        Ordering::Greater
                    } else {
                        Ordering::Equal
                    }
                },
            }
        }
    }

    /// Record the state of an area for this pass: it becomes visible and, if
    /// new, goes on top of the order.
    pub fn set_state(&mut self, layer_id: LayerId, state: AreaState)
        requires
            old(self).wf(),
        ensures
            final(self).wf(),
            final(self).visible_current() == old(self).visible_current().insert(layer_id),
            final(self).visible_last() == old(self).visible_last(),
            final(self).area_map() == old(self).area_map().insert(layer_id.id.0, state),
            final(self).order_view() == (if old(self).order_view().contains(layer_id) {
                old(self).order_view()
            } else {
                old(self).order_view().push(layer_id)
            }),
            final(self).ranking() == old(self).ranking(),
            final(self).top_requests() == old(self).top_requests(),
            final(self).sublayer_groups() == old(self).sublayer_groups(),
    {
        push_unique(&mut self.visible_current_frame, layer_id);
        self.areas.insert(layer_id.id.0, state);
        push_unique(&mut self.order, layer_id);
        proof {
            assert forall|i: int| 0 <= i < self.sublayers@.len() implies self.order@.contains((#[trigger] self.sublayers@[i]).0)
                && !self.sublayers@[i].1@.contains(self.sublayers@[i].0) by {
                assert(old(self).order@.to_set().contains(old(self).sublayers@[i].0));
                assert(self.order@.to_set().contains(self.sublayers@[i].0));
            }
        }
    }

    /// Was the layer registered in the previous pass?
    pub fn visible_last_frame(&self, layer_id: &LayerId) -> (r: bool)
        ensures
            r == self.visible_last().contains(*layer_id),
    {
        vec_contains(&self.visible_last_frame, *layer_id)
    }

    /// Is the layer visible: registered in this pass or the previous one?
    pub fn is_visible(&self, layer_id: &LayerId) -> (r: bool)
        ensures
            r == self.visible_spec(*layer_id),
    {
        vec_contains(&self.visible_last_frame, *layer_id) || vec_contains(&self.visible_current_frame, *layer_id)
    }

    /// All visible layers, each once.
    pub fn visible_layer_ids(&self) -> (r: Vec<LayerId>)
        ensures
            r@.no_duplicates(),
            forall|l: LayerId| r@.contains(l) <==> self.visible_spec(l),
    {
        let mut r: Vec<LayerId> = Vec::new();
        let mut i: usize = 0;
        while i < self.visible_last_frame.len()
            invariant
                i <= self.visible_last_frame@.len(),
                r@.no_duplicates(),
                r@.to_set() == self.visible_last_frame@.take(i as int).to_set(),
            decreases self.visible_last_frame@.len() - i,
        {
            let l = self.visible_last_frame[i];
            proof {
                assert(self.visible_last_frame@.take(i + 1) =~= self.visible_last_frame@.take(i as int).push(l));
                self.visible_last_frame@.take(i as int).lemma_push_to_set_commute(l);
            }
            push_unique(&mut r, l);
            i = i + 1;
        }
        proof {
            assert(self.visible_last_frame@.take(i as int) =~= self.visible_last_frame@);
            assert(self.visible_current_frame@.take(0) =~= Seq::<LayerId>::empty());
            assert(r@.to_set() =~= self.visible_last_frame@.to_set().union(self.visible_current_frame@.take(0).to_set()));
        }
        let mut j: usize = 0;
        while j < self.visible_current_frame.len()
            invariant
                j <= self.visible_current_frame@.len(),
                r@.no_duplicates(),
                r@.to_set() == self.visible_last_frame@.to_set().union(self.visible_current_frame@.take(j as int).to_set()),
            decreases self.visible_current_frame@.len() - j,
        {
            let l = self.visible_current_frame[j];
            proof {
                assert(self.visible_current_frame@.take(j + 1) =~= self.visible_current_frame@.take(j as int).push(l));
                self.visible_current_frame@.take(j as int).lemma_push_to_set_commute(l);
                assert(r@.to_set().insert(l) =~= self.visible_last_frame@.to_set().union(
                    self.visible_current_frame@.take(j as int).to_set().insert(l)));
            }
            push_unique(&mut r, l);
            j = j + 1;
        }
        proof {
            assert(self.visible_current_frame@.take(j as int) =~= self.visible_current_frame@);
            assert forall|l: LayerId| r@.contains(l) <==> self.visible_spec(l) by {
                assert(r@.to_set().contains(l) == r@.contains(l));
            }
        }
        r
    }

    /// Mark `child` as a sublayer of `parent`: at the end of the pass it is
    /// moved directly above `parent`. Both enter the order if new. One level of
    /// nesting is supported; both layers have the same order class.
    pub fn set_sublayer(&mut self, parent: LayerId, child: LayerId)
        requires
            old(self).wf(),
            parent.order == child.order,
            parent != child,
        ensures
            final(self).wf(),
            final(self).sublayer_groups() == with_sublayer(old(self).sublayer_groups(), parent, child),
            final(self).order_view() == ({
                let o1 = if old(self).order_view().contains(parent) {
                    old(self).order_view()
                } else {
                    old(self).order_view().push(parent)
                };
                if o1.contains(child) { o1 } else { o1.push(child) }
            }),
            final(self).visible_current() == old(self).visible_current(),
            final(self).visible_last() == old(self).visible_last(),
            final(self).area_map() == old(self).area_map(),
            final(self).ranking() == old(self).ranking(),
            final(self).top_requests() == old(self).top_requests(),
    {
        let ghost g0 = self.sublayer_groups();
        let found = find_group(&self.sublayers, parent);
        if let Some(i) = found {
            proof {
                assert(g0[i as int].0 == parent);
                let c = choose|c: int| 0 <= c < g0.len() && (#[trigger] g0[c]).0 == parent;
                assert(self.sublayers@[c].0 == parent);
                assert(c == i as int);
            }
            let ghost kids_before = self.sublayers@[i as int].1@;
            push_unique(&mut self.sublayers[i].1, child);
            proof {
                assert(self.sublayer_groups() =~= with_sublayer(g0, parent, child));
                assert(!kids_before.contains(parent));
                assert(!self.sublayers@[i as int].1@.to_set().contains(parent));
            }
        } else {
            let mut kids: Vec<LayerId> = Vec::new();
            kids.push(child);
            self.sublayers.push((parent, kids));
            proof {
                assert forall|c: int| 0 <= c < g0.len() implies (#[trigger] g0[c]).0 != parent by {
                    assert(old(self).sublayers@[c].0 != parent);
                }
                assert forall|a: int, b: int| 0 <= a < b < self.sublayers@.len() implies
                    #[trigger] self.sublayers@[a].0 != #[trigger] self.sublayers@[b].0 by {
                    if b == self.sublayers@.len() - 1 {
                        assert(g0[a].0 != parent);
                    } else {
                        assert(old(self).sublayers@[a].0 != old(self).sublayers@[b].0);
                    }
                }
                assert(kids@ =~= seq![child]);
                assert(self.sublayer_groups() =~= with_sublayer(g0, parent, child));
            }
        }
        let ghost mid = self.order@;
        push_unique(&mut self.order, parent);
        let ghost mid2 = self.order@;
        push_unique(&mut self.order, child);
        proof {
            assert forall|k: int| 0 <= k < self.sublayers@.len() implies self.order@.contains((#[trigger] self.sublayers@[k]).0)
                && !self.sublayers@[k].1@.contains(self.sublayers@[k].0) by {
                let g = self.sublayers@[k];
                if g.0 != parent {
                    assert(old(self).sublayers@.len() <= k || old(self).sublayers@[k] == g);
                    assert(mid.to_set().contains(g.0));
                }
                assert(mid2.to_set().contains(g.0));
                assert(self.order@.to_set().contains(g.0));
            }
            assert forall|k: int, c: LayerId| 0 <= k < self.sublayers@.len() && #[trigger] self.sublayers@[k].1@.contains(c)
                implies c.order == self.sublayers@[k].0.order by {
                let g = self.sublayers@[k];
                if c != child && k < old(self).sublayers@.len() {
                    let og = old(self).sublayers@[k];
                    assert(og.0 == g.0);
                    if og != g {
                        assert(g.0 == parent);
                        assert(g.1@.to_set().contains(c));
                        assert(og.1@.to_set().contains(c));
                    }
                    assert(og.1@.contains(c));
                }
                if c != child && k >= old(self).sublayers@.len() {
                    assert(g.1@ =~= seq![child]);
                    assert(g.1@[0] == child);
                }
            }
        }
    }

    /// The parent of `l`, if `l` is a sublayer: the first group that lists it.
    pub fn parent_layer(&self, l: LayerId) -> (r: Option<LayerId>)
        ensures
            r.is_none() == !is_sublayer_in(self.sublayer_groups(), l),
            r.is_some() ==> exists|i: int| 0 <= i < self.sublayer_groups().len()
                && (#[trigger] self.sublayer_groups()[i]).0 == r.unwrap()
                && self.sublayer_groups()[i].1.contains(l)
                && forall|j: int| 0 <= j < i ==> !(#[trigger] self.sublayer_groups()[j]).1.contains(l),
    {
        let ghost g = self.sublayer_groups();
        let mut i: usize = 0;
        while i < self.sublayers.len()
            invariant
                i <= self.sublayers@.len(),
                g == groups_view(self.sublayers@),
                forall|j: int| 0 <= j < i ==> !(#[trigger] g[j]).1.contains(l),
            decreases self.sublayers@.len() - i,
        {
            if vec_contains(&self.sublayers[i].1, l) {
                proof {
                    assert(g[i as int].1.contains(l));
                    assert(self.sublayer_groups()[i as int].0 == self.sublayers@[i as int].0);
                    assert(forall|j: int| 0 <= j < i ==> !(#[trigger] self.sublayer_groups()[j]).1.contains(l));
                }
                return Some(self.sublayers[i].0);
            }
            i = i + 1;
        }
        None
    }

    /// Is `l` a sublayer of some layer?
    pub fn is_sublayer(&self, l: LayerId) -> (r: bool)
        ensures
            r == is_sublayer_in(self.sublayer_groups(), l),
    {
        self.parent_layer(l).is_some()
    }

    /// The sublayers of `l`, in the order they were declared.
    pub fn child_layers(&self, l: LayerId) -> (r: Vec<LayerId>)
        requires
            self.wf(),
        ensures
            (exists|i: int| 0 <= i < self.sublayer_groups().len() && (#[trigger] self.sublayer_groups()[i]).0 == l)
                ==> exists|i: int| 0 <= i < self.sublayer_groups().len()
                    && (#[trigger] self.sublayer_groups()[i]).0 == l && r@ == self.sublayer_groups()[i].1,
            !(exists|i: int| 0 <= i < self.sublayer_groups().len() && (#[trigger] self.sublayer_groups()[i]).0 == l)
                ==> r@.len() == 0,
    {
        let ghost g = self.sublayer_groups();
        let mut i: usize = 0;
        while i < self.sublayers.len()
            invariant
                i <= self.sublayers@.len(),
                g == groups_view(self.sublayers@),
                forall|j: int| 0 <= j < i ==> (#[trigger] g[j]).0 != l,
            decreases self.sublayers@.len() - i,
        {
            if self.sublayers[i].0 == l {
                let kids = &self.sublayers[i].1;
                let mut r: Vec<LayerId> = Vec::new();
                let mut k: usize = 0;
                while k < kids.len()
                    invariant
                        k <= kids@.len(),
                        r@ == kids@.take(k as int),
                    decreases kids@.len() - k,
                {
                    r.push(kids[k]);
                    proof {
                        assert(kids@.take(k + 1) =~= kids@.take(k as int).push(kids@[k as int]));
                    }
                    k = k + 1;
                }
                proof {
                    assert(kids@.take(k as int) =~= kids@);
                    assert(g[i as int].0 == l && r@ == g[i as int].1);
                }
                return r;
            }
            i = i + 1;
        }
        Vec::new()
    }

    /// The top-most layer of class `o` that is not a sublayer.
    pub fn top_layer_id(&self, o: Order) -> (r: Option<LayerId>)
        ensures
            ({
                let f = self.order_view().filter(top_candidates(self.sublayer_groups(), o));
                r == if f.len() > 0 { Some(f.last()) } else { None::<LayerId> }
            }),
    {
        let ghost p = top_candidates(self.sublayer_groups(), o);
        let mut best: Option<LayerId> = None;
        let mut i: usize = 0;
        while i < self.order.len()
            invariant
                i <= self.order@.len(),
                p == top_candidates(self.sublayer_groups(), o),
                ({
                    let f = self.order@.take(i as int).filter(p);
                    best == if f.len() > 0 { Some(f.last()) } else { None::<LayerId> }
                }),
            decreases self.order@.len() - i,
        {
            let l = self.order[i];
            proof {
                assert(self.order@.take(i + 1) =~= self.order@.take(i as int).push(l));
                self.order@.take(i as int).lemma_filter_push(l, p);
            }
            if l.order == o && !self.is_sublayer(l) {
                best = Some(l);
            }
            i = i + 1;
        }
        proof {
            assert(self.order@.take(i as int) =~= self.order@);
        }
        best
    }

    /// The top-most layer at `pos` that takes the pointer.
    pub open spec fn layer_id_at_spec(&self, pos: Pos2) -> Option<LayerId> {
        if exists|i: int| 0 <= i < self.order_view().len() && takes_pointer(self, #[trigger] self.order_view()[i], pos) {
            let i = choose|i: int| 0 <= i < self.order_view().len() && takes_pointer(self, #[trigger] self.order_view()[i], pos)
                && forall|j: int| i < j < self.order_view().len() ==> !takes_pointer(self, #[trigger] self.order_view()[j], pos);
            Some(self.order_view()[i])
        } else {
            None
        }
    }

    /// The top-most visible, interactable layer whose area holds `pos`.
    pub fn layer_id_at(&self, pos: Pos2) -> (r: Option<LayerId>)
        ensures
            r == self.layer_id_at_spec(pos),
            r.is_none() ==> forall|i: int| 0 <= i < self.order_view().len() ==> !takes_pointer(self, #[trigger] self.order_view()[i], pos),
            r.is_some() ==> exists|i: int| 0 <= i < self.order_view().len()
                && #[trigger] self.order_view()[i] == r.unwrap()
                && takes_pointer(self, r.unwrap(), pos)
                && forall|j: int| i < j < self.order_view().len() ==> !takes_pointer(self, #[trigger] self.order_view()[j], pos),
    {
        let mut i: usize = self.order.len();
        while i > 0
            invariant
                i <= self.order@.len(),
                forall|j: int| i <= j < self.order@.len() ==> !takes_pointer(self, #[trigger] self.order@[j], pos),
            decreases i,
        {
            i = i - 1;
            let l = self.order[i];
            if self.is_visible(&l) {
                match self.get(l.id) {
                    Some(state) => {
                        if state.interactable && state.rect.contains(pos) {
                            proof {
                                assert(self.order_view()[i as int] == l);
                                assert(takes_pointer(self, l, pos));
                            }
                            return Some(l);
                        }
                    },
                    None => {},
                }
            }
        }
        None
    }

    /// The end of a pass: this pass's visible layers become last pass's, the
    /// order is sorted by class with layers that asked to be on top last in
    /// their class (keeping their relative order), each parent is followed by
    /// its sublayers, and the result is recorded for `compare_order`.
    pub fn end_pass(&mut self)
        requires
            old(self).wf(),
        ensures
            final(self).wf(),
            final(self).order_view() == order_after_pass(old(self).order_view(), old(self).top_requests(), old(self).sublayer_groups()),
            final(self).ranking() == final(self).order_view(),
            forall|l: LayerId| #[trigger] final(self).order_view().contains(l) <==> old(self).order_view().contains(l),
            class_sorted(final(self).order_view()),
            final(self).visible_last() == old(self).visible_current(),
            final(self).visible_current() == Set::<LayerId>::empty(),
            final(self).top_requests() == Seq::<LayerId>::empty(),
            final(self).sublayer_groups() == Seq::<(LayerId, Seq<LayerId>)>::empty(),
            final(self).area_map() == old(self).area_map(),
    {
        let mut fresh: Vec<LayerId> = Vec::new();
        std::mem::swap(&mut self.visible_current_frame, &mut fresh);
        self.visible_last_frame = fresh;
        let sorted = sort_layers(&self.order, &self.wants_to_be_on_top);
        self.wants_to_be_on_top = Vec::new();
        let mut groups: Vec<(LayerId, Vec<LayerId>)> = Vec::new();
        std::mem::swap(&mut self.sublayers, &mut groups);
        let ghost gv = groups_view(groups@);
        proof {
            lemma_sorted_upto_sorted(old(self).order@, old(self).wants_to_be_on_top@, NUM_SORT_KEYS as nat);
        }
        let mut order = sorted;
        let mut g: usize = 0;
        while g < groups.len()
            invariant
                g <= groups@.len(),
                gv == groups_view(groups@),
                order@ == splice_all(sorted_layers(old(self).order@, old(self).wants_to_be_on_top@), gv, g as nat),
                order@.no_duplicates(),
                forall|l: LayerId| #[trigger] order@.contains(l) <==> old(self).order@.contains(l),
                forall|i: int| 0 <= i < groups@.len() ==> old(self).order@.contains((#[trigger] groups@[i]).0)
                    && !groups@[i].1@.contains(groups@[i].0),
                forall|i: int, c: LayerId| 0 <= i < groups@.len() && #[trigger] groups@[i].1@.contains(c)
                    ==> c.order == groups@[i].0.order,
                class_sorted(order@),
            decreases groups@.len() - g,
        {
            proof {
                let kids = groups@[g as int].1@;
                let par = groups@[g as int].0;
                let rest = order@.filter(not_in_seq(kids));
                let moved = order@.filter(in_seq(kids));
                assert(order@.take(order@.len() as int) =~= order@);
                lemma_filter_sorted(order@, not_in_seq(kids), order@.len() as int);
                assert forall|q: int| 0 <= q < moved.len() implies order_rank((#[trigger] moved[q]).order) == order_rank(par.order) by {
                    order@.lemma_filter_pred(in_seq(kids), q);
                }
                lemma_splice_at_sorted(rest, par, moved, rest.len());
            }
            order = splice_group(&order, groups[g].0, &groups[g].1);
            g = g + 1;
        }
        let mut snapshot: Vec<LayerId> = Vec::new();
        let mut k: usize = 0;
        while k < order.len()
            invariant
                k <= order@.len(),
                snapshot@ == order@.take(k as int),
            decreases order@.len() - k,
        {
            snapshot.push(order[k]);
            proof {
                assert(order@.take(k + 1) =~= order@.take(k as int).push(order@[k as int]));
            }
            k = k + 1;
        }
        proof {
            assert(order@.take(k as int) =~= order@);
            assert(self.visible_current_frame@.to_set() =~= Set::<LayerId>::empty());
            assert(groups_view(self.sublayers@) =~= Seq::<(LayerId, Seq<LayerId>)>::empty());
        }
        self.order = order;
        self.order_map = snapshot;
    }

    /// The visible windows: visible layers of the middle class that are not
    /// sublayers and have an area, with their states.
    pub fn visible_windows(&self) -> (r: Vec<(LayerId, AreaState)>)
        ensures
            forall|k: int| 0 <= k < r@.len() ==> {
                let (l, st) = #[trigger] r@[k];
                &&& self.visible_spec(l)
                &&& l.order == Order::Middle
                &&& !is_sublayer_in(self.sublayer_groups(), l)
                &&& self.area_map().contains_key(l.id.0)
                &&& self.area_map()[l.id.0] == st
            },
            forall|l: LayerId| self.visible_spec(l) && l.order == Order::Middle && !is_sublayer_in(self.sublayer_groups(), l)
                && self.area_map().contains_key(l.id.0) ==> exists|k: int| 0 <= k < r@.len() && (#[trigger] r@[k]).0 == l,
    {
        let ids = self.visible_layer_ids();
        let mut r: Vec<(LayerId, AreaState)> = Vec::new();
        let mut i: usize = 0;
        while i < ids.len()
            invariant
                i <= ids@.len(),
                forall|l: LayerId| ids@.contains(l) <==> self.visible_spec(l),
                forall|k: int| 0 <= k < r@.len() ==> {
                    let (l, st) = #[trigger] r@[k];
                    &&& self.visible_spec(l)
                    &&& l.order == Order::Middle
                    &&& !is_sublayer_in(self.sublayer_groups(), l)
                    &&& self.area_map().contains_key(l.id.0)
                    &&& self.area_map()[l.id.0] == st
                },
                forall|j: int| 0 <= j < i && (#[trigger] ids@[j]).order == Order::Middle && !is_sublayer_in(self.sublayer_groups(), ids@[j])
                    && self.area_map().contains_key(ids@[j].id.0) ==> exists|k: int| 0 <= k < r@.len() && (#[trigger] r@[k]).0 == ids@[j],
            decreases ids@.len() - i,
        {
            let l = ids[i];
            proof {
                assert(ids@.contains(l));
            }
            if l.order == Order::Middle && !self.is_sublayer(l) {
                match self.get(l.id) {
                    Some(st) => {
                        let ghost before = r@;
                        r.push((l, st));
                        proof {
                            assert(r@[r@.len() - 1].0 == l);
                            assert forall|j: int| 0 <= j < i + 1 && (#[trigger] ids@[j]).order == Order::Middle
                                && !is_sublayer_in(self.sublayer_groups(), ids@[j]) && self.area_map().contains_key(ids@[j].id.0)
                                implies exists|k: int| 0 <= k < r@.len() && (#[trigger] r@[k]).0 == ids@[j] by {
                                if j < i {
                                    let k = choose|k: int| 0 <= k < before.len() && (#[trigger] before[k]).0 == ids@[j];
                                    assert(r@[k] == before[k]);
                                } else {
                                    assert(r@[r@.len() - 1].0 == ids@[j]);
                                }
                            }
                        }
                    },
                    None => {},
                }
            }
            i = i + 1;
        }
        proof {
            assert forall|l: LayerId| self.visible_spec(l) && l.order == Order::Middle && !is_sublayer_in(self.sublayer_groups(), l)
                && self.area_map().contains_key(l.id.0) implies exists|k: int| 0 <= k < r@.len() && (#[trigger] r@[k]).0 == l by {
                assert(ids@.contains(l));
                let j = choose|j: int| 0 <= j < ids@.len() && ids@[j] == l;
            }
        }
        r
    }

    /// Ask for the layer to be brought to the top at the end of the pass; it
    /// becomes visible and, if new, goes on top of the order at once.
    pub fn move_to_top(&mut self, layer_id: LayerId)
        requires
            old(self).wf(),
        ensures
            final(self).wf(),
            final(self).visible_current() == old(self).visible_current().insert(layer_id),
            final(self).visible_last() == old(self).visible_last(),
            final(self).area_map() == old(self).area_map(),
            final(self).top_requests() == (if old(self).top_requests().contains(layer_id) {
                old(self).top_requests()
            } else {
                old(self).top_requests().push(layer_id)
            }),
            final(self).order_view() == (if old(self).order_view().contains(layer_id) {
                old(self).order_view()
            } else {
                old(self).order_view().push(layer_id)
            }),
            final(self).ranking() == old(self).ranking(),
            final(self).sublayer_groups() == old(self).sublayer_groups(),
    {
        push_unique(&mut self.visible_current_frame, layer_id);
        push_unique(&mut self.wants_to_be_on_top, layer_id);
        push_unique(&mut self.order, layer_id);
        proof {
            assert forall|i: int| 0 <= i < self.sublayers@.len() implies self.order@.contains((#[trigger] self.sublayers@[i]).0)
                && !self.sublayers@[i].1@.contains(self.sublayers@[i].0) by {
                assert(old(self).order@.to_set().contains(old(self).sublayers@[i].0));
                assert(self.order@.to_set().contains(self.sublayers@[i].0));
            }
        }
    }
}

fn sort_key_of(l: LayerId, top: &Vec<LayerId>) -> (r: usize)
    ensures
        r as int == sort_key(l, top@),
        r < NUM_SORT_KEYS,
{
    let rank = l.order.rank();
    if vec_contains(top, l) {
        rank * 2 + 1
    } else {
        rank * 2
    }
}

/// Stable sort of `order` by `sort_key`, one key at a time.
fn sort_layers(order: &Vec<LayerId>, top: &Vec<LayerId>) -> (r: Vec<LayerId>)
    requires
        order@.no_duplicates(),
    ensures
        r@ == sorted_layers(order@, top@),
        r@.no_duplicates(),
        forall|x: LayerId| order@.contains(x) ==> r@.contains(x),
        forall|x: LayerId| r@.contains(x) ==> order@.contains(x),
{
    let mut r: Vec<LayerId> = Vec::new();
    let mut k: usize = 0;
    while k < NUM_SORT_KEYS
        invariant
            k <= NUM_SORT_KEYS,
            order@.no_duplicates(),
            r@ == sorted_upto(order@, top@, k as nat),
            r@.no_duplicates(),
            forall|j: int| 0 <= j < r@.len() ==> sort_key(#[trigger] r@[j], top@) < k,
            forall|m: int| 0 <= m < order@.len() && sort_key(#[trigger] order@[m], top@) < k ==> r@.contains(order@[m]),
            forall|x: LayerId| r@.contains(x) ==> order@.contains(x),
        decreases NUM_SORT_KEYS - k,
    {
        let ghost base = r@;
        let mut i: usize = 0;
        while i < order.len()
            invariant
                i <= order@.len(),
                order@.no_duplicates(),
                r@ == base + order@.take(i as int).filter(has_key(top@, k as int)),
                r@.no_duplicates(),
                forall|j: int| 0 <= j < base.len() ==> sort_key(#[trigger] base[j], top@) < k,
                forall|m: int| 0 <= m < order@.len() && sort_key(#[trigger] order@[m], top@) < k ==> base.contains(order@[m]),
                forall|m: int| 0 <= m < order@.len() && sort_key(#[trigger] order@[m], top@) < k ==> r@.contains(order@[m]),
                forall|m: int| 0 <= m < i && sort_key(#[trigger] order@[m], top@) == k ==> r@.contains(order@[m]),
                forall|x: LayerId| r@.contains(x) ==> order@.contains(x),
                forall|j: int| 0 <= j < r@.len() ==> {
                    ||| sort_key(#[trigger] r@[j], top@) < k
                    ||| (sort_key(r@[j], top@) == k && order@.take(i as int).contains(r@[j]))
                },
            decreases order@.len() - i,
        {
            let l = order[i];
            proof {
                assert(order@.take(i + 1) =~= order@.take(i as int).push(l));
                order@.take(i as int).lemma_filter_push(l, has_key(top@, k as int));
            }
            if sort_key_of(l, top) == k {
                proof {
                    lemma_not_in_prefix(order@, i as int);
                    if r@.contains(l) {
                        let j = choose|j: int| 0 <= j < r@.len() && r@[j] == l;
                        assert(sort_key(r@[j], top@) == k);
                    }
                    lemma_push_no_dup(r@, l);
                    lemma_push_contains(r@, l);
                    assert(order@.contains(l));
                }
                r.push(l);
                proof {
                    assert forall|j: int| 0 <= j < r@.len() implies {
                        ||| sort_key(#[trigger] r@[j], top@) < k
                        ||| (sort_key(r@[j], top@) == k && order@.take(i + 1).contains(r@[j]))
                    } by {
                        if j < r@.len() - 1 {
                            let x = r@[j];
                            if sort_key(x, top@) == k {
                                let m = choose|m: int| 0 <= m < i && order@.take(i as int)[m] == x;
                                assert(order@.take(i + 1)[m] == x);
                            }
                        } else {
                            assert(order@.take(i + 1)[i as int] == l);
                        }
                    }
                }
            } else {
                proof {
                    assert forall|j: int| 0 <= j < r@.len() implies {
                        ||| sort_key(#[trigger] r@[j], top@) < k
                        ||| (sort_key(r@[j], top@) == k && order@.take(i + 1).contains(r@[j]))
                    } by {
                        let x = r@[j];
                        if sort_key(x, top@) == k {
                            let m = choose|m: int| 0 <= m < i && order@.take(i as int)[m] == x;
                            assert(order@.take(i + 1)[m] == x);
                        }
                    }
                }
            }
            i = i + 1;
        }
        proof {
            assert(order@.take(i as int) =~= order@);
            assert forall|m: int| 0 <= m < order@.len() && sort_key(#[trigger] order@[m], top@) < k + 1 implies r@.contains(order@[m]) by {
                if sort_key(order@[m], top@) < k {
                    assert(base.contains(order@[m]));
                }
            }
        }
        k = k + 1;
    }
    proof {
        assert forall|x: LayerId| order@.contains(x) implies r@.contains(x) by {
            let m = choose|m: int| 0 <= m < order@.len() && order@[m] == x;
            assert(sort_key(order@[m], top@) < NUM_SORT_KEYS);
        }
    }
    r
}

/// Take the layers of `children` out of `order` and put them back right after
/// `parent`.
fn splice_group(order: &Vec<LayerId>, parent: LayerId, children: &Vec<LayerId>) -> (r: Vec<LayerId>)
    requires
        order@.no_duplicates(),
    ensures
        r@ == splice_one(order@, parent, children@),
        r@.no_duplicates(),
        forall|x: LayerId| order@.contains(x) && !children@.contains(x) ==> r@.contains(x),
        forall|x: LayerId| r@.contains(x) ==> order@.contains(x),
        order@.contains(parent) && !children@.contains(parent) ==> forall|x: LayerId| order@.contains(x) ==> r@.contains(x),
{
    let mut rest: Vec<LayerId> = Vec::new();
    let mut moved: Vec<LayerId> = Vec::new();
    let mut i: usize = 0;
    while i < order.len()
        invariant
            i <= order@.len(),
            order@.no_duplicates(),
            rest@ == order@.take(i as int).filter(not_in_seq(children@)),
            moved@ == order@.take(i as int).filter(in_seq(children@)),
            rest@.no_duplicates(),
            moved@.no_duplicates(),
            forall|x: LayerId| rest@.contains(x) ==> order@.take(i as int).contains(x) && !children@.contains(x),
            forall|x: LayerId| moved@.contains(x) ==> order@.take(i as int).contains(x) && children@.contains(x),
            forall|m: int| 0 <= m < i && !children@.contains(#[trigger] order@[m]) ==> rest@.contains(order@[m]),
            forall|m: int| 0 <= m < i && children@.contains(#[trigger] order@[m]) ==> moved@.contains(order@[m]),
        decreases order@.len() - i,
    {
        let l = order[i];
        proof {
            assert(order@.take(i + 1) =~= order@.take(i as int).push(l));
            order@.take(i as int).lemma_filter_push(l, not_in_seq(children@));
            order@.take(i as int).lemma_filter_push(l, in_seq(children@));
            lemma_not_in_prefix(order@, i as int);
            assert forall|x: LayerId| order@.take(i as int).contains(x) implies order@.take(i + 1).contains(x) by {
                let m = choose|m: int| 0 <= m < i && order@.take(i as int)[m] == x;
                assert(order@.take(i + 1)[m] == x);
            }
            assert(order@.take(i + 1)[i as int] == l);
        }
        if vec_contains(children, l) {
            proof {
                lemma_push_no_dup(moved@, l);
                lemma_push_contains(moved@, l);
            }
            moved.push(l);
        } else {
            proof {
                lemma_push_no_dup(rest@, l);
                lemma_push_contains(rest@, l);
            }
            rest.push(l);
        }
        i = i + 1;
    }
    proof {
        assert(order@.take(i as int) =~= order@);
    }
    let mut out: Vec<LayerId> = Vec::new();
    let mut j: usize = 0;
    while j < rest.len()
        invariant
            j <= rest@.len(),
            rest@.no_duplicates(),
            moved@.no_duplicates(),
            forall|x: LayerId| rest@.contains(x) ==> !children@.contains(x),
            forall|x: LayerId| moved@.contains(x) ==> children@.contains(x),
            out@ == splice_at(rest@, parent, moved@, j as nat),
            out@.no_duplicates(),
            forall|y: LayerId| out@.contains(y) ==>
                rest@.take(j as int).contains(y) || (moved@.contains(y) && rest@.take(j as int).contains(parent)),
            forall|m: int| 0 <= m < j ==> out@.contains(#[trigger] rest@[m]),
            rest@.take(j as int).contains(parent) ==> forall|q: int| 0 <= q < moved@.len() ==> out@.contains(#[trigger] moved@[q]),
        decreases rest@.len() - j,
    {
        let l = rest[j];
        proof {
            lemma_not_in_prefix(rest@, j as int);
            assert(rest@.contains(l));
            assert(rest@.take(j + 1) =~= rest@.take(j as int).push(l));
            assert forall|x: LayerId| rest@.take(j as int).contains(x) implies rest@.take(j + 1).contains(x) by {
                let m = choose|m: int| 0 <= m < j && rest@.take(j as int)[m] == x;
                assert(rest@.take(j + 1)[m] == x);
            }
            assert(rest@.take(j + 1)[j as int] == l);
        }
        let ghost before = out@;
        if l == parent {
            proof {
                assert(!moved@.contains(l));
                lemma_push_no_dup(out@, l);
            }
            out.push(l);
            proof {
                lemma_push_contains(before, l);
                assert forall|y: LayerId| before.contains(y) implies rest@.take(j as int).contains(y) by {}
                assert forall|y: LayerId| out@.contains(y) implies
                    rest@.take(j + 1).contains(y) || moved@.take(0).contains(y) by {
                    if y != parent {
                        assert(before.contains(y));
                    }
                }
                assert(out@ == before + seq![parent] + moved@.take(0));
                assert(out@[out@.len() - 1] == parent);
                assert forall|q: int| 0 <= q <= j implies out@.contains(#[trigger] rest@[q]) by {
                    if q < j {
                        assert(before.contains(rest@[q]));
                    }
                }
            }
            let mut m: usize = 0;
            while m < moved.len()
                invariant
                    m <= moved@.len(),
                    moved@.no_duplicates(),
                    rest@.no_duplicates(),
                    l == parent,
                    j < rest@.len(),
                    rest@.take(j + 1).contains(parent),
                    !rest@.take(j as int).contains(parent),
                    forall|x: LayerId| rest@.contains(x) ==> !children@.contains(x),
                    forall|x: LayerId| moved@.contains(x) ==> children@.contains(x),
                    forall|x: LayerId| rest@.take(j as int).contains(x) ==> rest@.contains(x),
                    out@ == before + seq![parent] + moved@.take(m as int),
                    out@.no_duplicates(),
                    forall|y: LayerId| before.contains(y) ==> rest@.take(j as int).contains(y),
                    forall|y: LayerId| out@.contains(y) ==>
                        rest@.take(j + 1).contains(y) || moved@.take(m as int).contains(y),
                    forall|q: int| 0 <= q <= j ==> out@.contains(#[trigger] rest@[q]),
                    forall|q: int| 0 <= q < m ==> out@.contains(#[trigger] moved@[q]),
                decreases moved@.len() - m,
            {
                let x = moved[m];
                proof {
                    assert(moved@.contains(x));
                    lemma_not_in_prefix(moved@, m as int);
                    if out@.contains(x) {
                        if rest@.take(j + 1).contains(x) {
                            let q = choose|q: int| 0 <= q < j + 1 && #[trigger] rest@.take(j + 1)[q] == x;
                            assert(rest@[q] == x);
                            assert(rest@.contains(x));
                        }
                    }
                    lemma_push_no_dup(out@, x);
                    lemma_push_contains(out@, x);
                    assert(moved@.take(m + 1) =~= moved@.take(m as int).push(x));
                    assert forall|y: LayerId| moved@.take(m as int).contains(y) implies moved@.take(m + 1).contains(y) by {
                        let q = choose|q: int| 0 <= q < m && moved@.take(m as int)[q] == y;
                        assert(moved@.take(m + 1)[q] == y);
                    }
                    assert(moved@.take(m + 1)[m as int] == x);
                }
                out.push(x);
                m = m + 1;
            }
            proof {
                assert(moved@.take(m as int) =~= moved@);
                assert(out@ =~= splice_at(rest@, parent, moved@, (j + 1) as nat));
                assert forall|y: LayerId| out@.contains(y) implies
                    rest@.take(j + 1).contains(y) || (moved@.contains(y) && rest@.take(j + 1).contains(parent)) by {
                    if moved@.take(m as int).contains(y) {
                        let q = choose|q: int| 0 <= q < m && moved@.take(m as int)[q] == y;
                        assert(moved@[q] == y);
                    }
                }
            }
        } else {
            proof {
                if out@.contains(l) {
                    if moved@.contains(l) {
                        assert(children@.contains(l));
                    }
                }
                lemma_push_no_dup(out@, l);
            }
            out.push(l);
            proof {
                lemma_push_contains(before, l);
                assert(out@ =~= splice_at(rest@, parent, moved@, (j + 1) as nat));
                assert forall|q: int| 0 <= q < j + 1 implies out@.contains(#[trigger] rest@[q]) by {
                    if q < j {
                        assert(before.contains(rest@[q]));
                    }
                }
                assert forall|y: LayerId| out@.contains(y) implies
                    rest@.take(j + 1).contains(y) || (moved@.contains(y) && rest@.take(j + 1).contains(parent)) by {
                    if y != l {
                        assert(before.contains(y));
                    }
                }
            }
        }
        j = j + 1;
    }
    proof {
        assert forall|x: LayerId| order@.contains(x) && !children@.contains(x) implies out@.contains(x) by {
            let m = choose|m: int| 0 <= m < order@.len() && order@[m] == x;
            assert(rest@.contains(x));
            let q = choose|q: int| 0 <= q < rest@.len() && rest@[q] == x;
        }
        if order@.contains(parent) && !children@.contains(parent) {
            assert(rest@.take(j as int) =~= rest@);
            assert(rest@.contains(parent));
            assert forall|x: LayerId| order@.contains(x) implies out@.contains(x) by {
                let m = choose|m: int| 0 <= m < order@.len() && order@[m] == x;
                if children@.contains(x) {
                    assert(moved@.contains(x));
                    let q = choose|q: int| 0 <= q < moved@.len() && moved@[q] == x;
                    assert(out@.contains(moved@[q]));
                } else {
                    assert(rest@.contains(x));
                    let q = choose|q: int| 0 <= q < rest@.len() && rest@[q] == x;
                    assert(out@.contains(rest@[q]));
                }
            }
        }
    }
    out
}

/// The index of the group of `parent`.
fn find_group(groups: &Vec<(LayerId, Vec<LayerId>)>, parent: LayerId) -> (r: Option<usize>)
    ensures
        r.is_none() ==> forall|j: int| 0 <= j < groups@.len() ==> (#[trigger] groups@[j]).0 != parent,
        r.is_some() ==> r.unwrap() < groups@.len() && groups@[r.unwrap() as int].0 == parent
            && forall|j: int| 0 <= j < r.unwrap() ==> (#[trigger] groups@[j]).0 != parent,
{
    let mut i: usize = 0;
    while i < groups.len()
        invariant
            i <= groups@.len(),
            forall|j: int| 0 <= j < i ==> (#[trigger] groups@[j]).0 != parent,
        decreases groups@.len() - i,
    {
        if groups[i].0 == parent {
            return Some(i);
        }
        i = i + 1;
    }
    None
}

/// Push `x` unless `v` holds it already.
pub fn push_unique_layer(v: &mut Vec<LayerId>, x: LayerId)
    ensures
        final(v)@ == (if old(v)@.contains(x) { old(v)@ } else { old(v)@.push(x) }),
        old(v)@.no_duplicates() ==> final(v)@.no_duplicates(),
{
    push_unique(v, x);
}

/// Push `x` unless `v` holds it already.
fn push_unique(v: &mut Vec<LayerId>, x: LayerId)
    ensures
        final(v)@ == (if old(v)@.contains(x) { old(v)@ } else { old(v)@.push(x) }),
        final(v)@.to_set() == old(v)@.to_set().insert(x),
        old(v)@.no_duplicates() ==> final(v)@.no_duplicates(),
{
    if !vec_contains(v, x) {
        v.push(x);
        proof {
            old(v)@.lemma_push_to_set_commute(x);
            if old(v)@.no_duplicates() {
                assert forall|i: int, j: int| 0 <= i < final(v)@.len() && 0 <= j < final(v)@.len() && i != j
                    implies final(v)@[i] != final(v)@[j] by {
                    if i == old(v)@.len() {
                        assert(old(v)@[j] == final(v)@[j]);
                    } else if j == old(v)@.len() {
                        assert(old(v)@[i] == final(v)@[i]);
                    }
                }
            }
        }
    } else {
        proof {
            assert(old(v)@.to_set().insert(x) =~= old(v)@.to_set());
        }
    }
}

} // verus!

verus! {

/// Once layers have been ranked at the end of a pass, `compare_order` is a
/// strict total order on them: two ranked layers compare equal only when they
/// are the same layer, swapping the arguments reverses the result, "less" is
/// transitive, and a lower order class always compares less.
pub proof fn lemma_compare_order_total(a: &Areas, x: LayerId, y: LayerId, z: LayerId)
    requires
        a.wf(),
        a.ranking().contains(x),
        a.ranking().contains(y),
        a.ranking().contains(z),
    ensures
        (compare_layers(a.ranking(), x, y) == Ordering::Equal) <==> x == y,
        (compare_layers(a.ranking(), x, y) == Ordering::Less) <==> (compare_layers(a.ranking(), y, x) == Ordering::Greater),
        compare_layers(a.ranking(), x, y) == Ordering::Less && compare_layers(a.ranking(), y, z) == Ordering::Less
            ==> compare_layers(a.ranking(), x, z) == Ordering::Less,
        order_rank(x.order) < order_rank(y.order) ==> compare_layers(a.ranking(), x, y) == Ordering::Less,
{
    let r = a.ranking();
    let px = position_in(r, x);
    let py = position_in(r, y);
    assert(0 <= px < r.len() && r[px] == x);
    assert(0 <= py < r.len() && r[py] == y);
}

/// A layer registered in one pass only is visible during that pass and the
/// next, and no longer in the pass after that unless registered again. The
/// states are: during pass N (after registering `l`), during pass N+1, and
/// during pass N+2; the end of a pass moves the current set to the last set,
/// and registrations leave the last set alone.
pub proof fn lemma_visibility_hysteresis(during_n: &Areas, during_n1: &Areas, during_n2: &Areas, l: LayerId)
    requires
        during_n.visible_current().contains(l),
        during_n1.visible_last() == during_n.visible_current(),
        !during_n1.visible_current().contains(l),
        during_n2.visible_last() == during_n1.visible_current(),
        !during_n2.visible_current().contains(l),
    ensures
        during_n.visible_spec(l),
        during_n1.visible_spec(l),
        !during_n2.visible_spec(l),
{
}

} // verus!

verus! {

/// Is `l` of class rank `k` and among `cands`, ranked or not as asked?
pub open spec fn class_pick(l: LayerId, k: nat, cands: Seq<LayerId>, ranking: Seq<LayerId>, ranked: bool) -> bool {
    order_rank(l.order) == k && cands.contains(l) && ranking.contains(l) == ranked
}

/// The layers of `s[0..n]` picked for class `k`, from index `n - 1` down.
pub open spec fn picked_down(s: Seq<LayerId>, k: nat, cands: Seq<LayerId>, ranking: Seq<LayerId>, ranked: bool, n: nat) -> Seq<LayerId>
    decreases n,
{
    if n == 0 || n > s.len() {
        Seq::empty()
    } else {
        let rest = picked_down(s, k, cands, ranking, ranked, (n - 1) as nat);
        if class_pick(s[n - 1], k, cands, ranking, ranked) { seq![s[n - 1]] + rest } else { rest }
    }
}

/// Layers of `cands` of the classes below `m`, top-most first: classes from
/// the front; in a class the ranked layers from the top of the ranking down,
/// then the unranked ones, which all compare equal, last listed first.
pub open spec fn top_first_below(ranking: Seq<LayerId>, cands: Seq<LayerId>, m: nat) -> Seq<LayerId>
    decreases m,
{
    if m == 0 {
        Seq::empty()
    } else {
        let k = (m - 1) as nat;
        picked_down(ranking, k, cands, ranking, true, ranking.len())
            + picked_down(cands, k, cands, ranking, false, cands.len())
            + top_first_below(ranking, cands, k)
    }
}

/// Walk `s` from the end down, picking the layers of class `k`.
fn pick_down(s: &Vec<LayerId>, k: usize, cands: &Vec<LayerId>, ranking: &Vec<LayerId>, ranked: bool, out: &mut Vec<LayerId>)
    ensures
        final(out)@ == old(out)@ + picked_down(s@, k as nat, cands@, ranking@, ranked, s@.len()),
{
    let mut j: usize = s.len();
    let ghost start = out@;
    while j > 0
        invariant
            j <= s@.len(),
            out@ + picked_down(s@, k as nat, cands@, ranking@, ranked, j as nat)
                =~= start + picked_down(s@, k as nat, cands@, ranking@, ranked, s@.len()),
        decreases j,
    {
        let l = s[j - 1];
        let pick = l.order.rank() == k && vec_contains(cands, l) && vec_contains(ranking, l) == ranked;
        if pick {
            out.push(l);
        }
        proof {
            assert(pick == class_pick(l, k as nat, cands@, ranking@, ranked));
        }
        j = j - 1;
    }
}

/// The layers of `cands` ordered top-most first by `compare_order`.
pub fn layers_top_first(areas: &Areas, cands: &Vec<LayerId>) -> (r: Vec<LayerId>)
    ensures
        r@ == top_first_below(areas.ranking(), cands@, crate::layers::NUM_ORDERS as nat),
{
    let mut out: Vec<LayerId> = Vec::new();
    let mut m: usize = crate::layers::NUM_ORDERS;
    let ghost full = top_first_below(areas.ranking(), cands@, crate::layers::NUM_ORDERS as nat);
    while m > 0
        invariant
            m <= crate::layers::NUM_ORDERS,
            full == top_first_below(areas.ranking(), cands@, crate::layers::NUM_ORDERS as nat),
            out@ + top_first_below(areas.ranking(), cands@, m as nat) =~= full,
        decreases m,
    {
        let k = m - 1;
        let ghost before = out@;
        pick_down(&areas.order_map, k, cands, &areas.order_map, true, &mut out);
        pick_down(cands, k, cands, &areas.order_map, false, &mut out);
        proof {
            assert(out@ + top_first_below(areas.ranking(), cands@, k as nat) =~= before + top_first_below(areas.ranking(), cands@, m as nat));
        }
        m = k;
    }
    out
}

} // verus!

verus! {

/// `compare_order` follows the recorded order: of two ranked layers of one
/// class, the one listed first compares less.
pub proof fn lemma_compare_follows_ranking(a: &Areas, i: int, j: int)
    requires
        a.wf(),
        0 <= i < j < a.ranking().len(),
        order_rank(a.ranking()[i].order) == order_rank(a.ranking()[j].order),
    ensures
        compare_layers(a.ranking(), a.ranking()[i], a.ranking()[j]) == Ordering::Less,
        compare_layers(a.ranking(), a.ranking()[j], a.ranking()[i]) == Ordering::Greater,
{
    let r = a.ranking();
    assert(r.contains(r[i]));
    assert(r.contains(r[j]));
    let pi = position_in(r, r[i]);
    let pj = position_in(r, r[j]);
    assert(r[pi] == r[i]);
    assert(r[pj] == r[j]);
    assert(r.no_duplicates());
    assert(pi == i);
    assert(pj == j);
}

} // verus!

verus! {

/// Is the sequence non-decreasing by order class?
pub open spec fn class_sorted(s: Seq<LayerId>) -> bool {
    forall|i: int, j: int| 0 <= i < j < s.len() ==> order_rank((#[trigger] s[i]).order) <= order_rank((#[trigger] s[j]).order)
}

/// A filtered prefix of a class-sorted sequence is class-sorted, and no
/// higher in class than what follows the prefix.
pub proof fn lemma_filter_sorted(s: Seq<LayerId>, p: spec_fn(LayerId) -> bool, k: int)
    requires
        class_sorted(s),
        0 <= k <= s.len(),
    ensures
        class_sorted(s.take(k).filter(p)),
        forall|q: int, m: int| 0 <= q < s.take(k).filter(p).len() && k <= m < s.len()
            ==> order_rank((#[trigger] s.take(k).filter(p)[q]).order) <= order_rank((#[trigger] s[m]).order),
    decreases k,
{
    if k > 0 {
        lemma_filter_sorted(s, p, k - 1);
        let f0 = s.take(k - 1).filter(p);
        assert(s.take(k) =~= s.take(k - 1).push(s[k - 1]));
        s.take(k - 1).lemma_filter_push(s[k - 1], p);
    } else {
        assert(s.take(0) =~= Seq::<LayerId>::empty());
        assert(s.take(0).filter(p) =~= Seq::<LayerId>::empty()) by {
            reveal(Seq::filter);
        }
    }
}

/// The layers of the first `k` sort keys are in class order, each with a key
/// below `k`.
pub proof fn lemma_sorted_upto_sorted(s: Seq<LayerId>, top: Seq<LayerId>, k: nat)
    ensures
        class_sorted(sorted_upto(s, top, k)),
        forall|q: int| 0 <= q < sorted_upto(s, top, k).len() ==> sort_key(#[trigger] sorted_upto(s, top, k)[q], top) < k,
    decreases k,
{
    if k > 0 {
        lemma_sorted_upto_sorted(s, top, (k - 1) as nat);
        let prev = sorted_upto(s, top, (k - 1) as nat);
        let f = s.filter(has_key(top, k - 1));
        let out = sorted_upto(s, top, k);
        assert(out == prev + f);
        assert forall|q: int| 0 <= q < f.len() implies sort_key(#[trigger] f[q], top) == k - 1 by {
            s.lemma_filter_pred(has_key(top, k - 1), q);
        }
        assert forall|q: int| 0 <= q < out.len() implies sort_key(#[trigger] out[q], top) < k by {
            if q < prev.len() {
                assert(out[q] == prev[q]);
            } else {
                assert(out[q] == f[q - prev.len()]);
            }
        }
        assert forall|i: int, j: int| 0 <= i < j < out.len() implies order_rank((#[trigger] out[i]).order) <= order_rank((#[trigger] out[j]).order) by {
            if j < prev.len() {
                assert(out[i] == prev[i] && out[j] == prev[j]);
            } else if i < prev.len() {
                assert(out[i] == prev[i] && out[j] == f[j - prev.len()]);
                assert(sort_key(out[i], top) < k - 1);
                assert(sort_key(out[j], top) == k - 1);
            } else {
                assert(out[i] == f[i - prev.len()] && out[j] == f[j - prev.len()]);
                assert(sort_key(out[i], top) == k - 1);
                assert(sort_key(out[j], top) == k - 1);
            }
        }
    }
}

/// Of two ranked layers of a class-sorted ranking without duplicates, the one
/// listed first compares less: `compare_order` agrees with positions in the
/// recorded order.
pub proof fn lemma_compare_agrees_with_order(a: &Areas, i: int, j: int)
    requires
        a.wf(),
        class_sorted(a.ranking()),
        0 <= i < a.ranking().len(),
        0 <= j < a.ranking().len(),
    ensures
        (compare_layers(a.ranking(), a.ranking()[i], a.ranking()[j]) == Ordering::Less) == (i < j),
        (compare_layers(a.ranking(), a.ranking()[i], a.ranking()[j]) == Ordering::Equal) == (i == j),
{
    let r = a.ranking();
    assert(r.contains(r[i]));
    assert(r.contains(r[j]));
    let pi = position_in(r, r[i]);
    let pj = position_in(r, r[j]);
    assert(r[pi] == r[i]);
    assert(r[pj] == r[j]);
    assert(r.no_duplicates());
    assert(pi == i);
    assert(pj == j);
    if i < j {
        assert(order_rank(r[i].order) <= order_rank(r[j].order));
    } else if j < i {
        assert(order_rank(r[j].order) <= order_rank(r[i].order));
    }
}

/// Splicing keeps class order when the moved layers share the parent's class:
/// the first `n` layers of `rest` with `moved` after `parent` are sorted and
/// no higher than the rest of `rest`.
pub proof fn lemma_splice_at_sorted(rest: Seq<LayerId>, parent: LayerId, moved: Seq<LayerId>, n: nat)
    requires
        class_sorted(rest),
        n <= rest.len(),
        forall|q: int| 0 <= q < moved.len() ==> order_rank((#[trigger] moved[q]).order) == order_rank(parent.order),
    ensures
        class_sorted(splice_at(rest, parent, moved, n)),
        forall|q: int, m: int| 0 <= q < splice_at(rest, parent, moved, n).len() && n <= m < rest.len()
            ==> order_rank((#[trigger] splice_at(rest, parent, moved, n)[q]).order) <= order_rank((#[trigger] rest[m]).order),
        n > 0 ==> forall|q: int| 0 <= q < splice_at(rest, parent, moved, n).len()
            ==> order_rank((#[trigger] splice_at(rest, parent, moved, n)[q]).order) <= order_rank(rest[n - 1].order),
    decreases n,
{
    if n > 0 {
        let prev = splice_at(rest, parent, moved, (n - 1) as nat);
        lemma_splice_at_sorted(rest, parent, moved, (n - 1) as nat);
        let tail = if rest[n - 1] == parent { seq![parent] + moved } else { seq![rest[n - 1]] };
        let out = splice_at(rest, parent, moved, n);
        assert(out == prev + tail);
        assert forall|q: int| 0 <= q < tail.len() implies order_rank((#[trigger] tail[q]).order) == order_rank(rest[n - 1].order) by {
            if rest[n - 1] == parent && q > 0 {
                assert(tail[q] == moved[q - 1]);
            }
        }
        assert forall|q: int| 0 <= q < prev.len() implies order_rank((#[trigger] prev[q]).order) <= order_rank(rest[n - 1].order) by {
        }
        assert forall|i: int, j: int| 0 <= i < j < out.len() implies order_rank((#[trigger] out[i]).order) <= order_rank((#[trigger] out[j]).order) by {
            if j < prev.len() {
                assert(out[i] == prev[i] && out[j] == prev[j]);
            } else if i < prev.len() {
                assert(out[i] == prev[i] && out[j] == tail[j - prev.len()]);
            } else {
                assert(out[i] == tail[i - prev.len()] && out[j] == tail[j - prev.len()]);
            }
        }
        assert forall|q: int| 0 <= q < out.len() implies order_rank((#[trigger] out[q]).order) <= order_rank(rest[n - 1].order) by {
            if q < prev.len() {
                assert(out[q] == prev[q]);
            } else {
                assert(out[q] == tail[q - prev.len()]);
            }
        }
        assert forall|q: int, m: int| 0 <= q < out.len() && n <= m < rest.len()
            implies order_rank((#[trigger] out[q]).order) <= order_rank((#[trigger] rest[m]).order) by {
            assert(order_rank(rest[n - 1].order) <= order_rank(rest[m].order));
        }
    }
}

} // verus!
