//! The registry of widget rectangles built during a pass.
use vstd::prelude::*;
use std::collections::HashMap;
use crate::id::Id;
use crate::layers::LayerId;
use crate::geometry::Rect;

verus! {

broadcast use vstd::std_specs::hash::group_hash_axioms;

/// How a widget responds to interaction.
#[derive(Clone, Copy, Debug, PartialEq, Eq, Structural, Hash)]
pub struct Sense {
    pub click: bool,
    pub drag: bool,
    pub focusable: bool,
}

impl Sense {
    /// Senses nothing.
    pub fn hover() -> (r: Sense)
        ensures
            !r.click && !r.drag && !r.focusable,
    {
        Sense { click: false, drag: false, focusable: false }
    }

    /// Senses clicks, and can take focus.
    pub fn click() -> (r: Sense)
        ensures
            r.click && !r.drag && r.focusable,
    {
        Sense { click: true, drag: false, focusable: true }
    }

    /// Senses drags.
    pub fn drag() -> (r: Sense)
        ensures
            !r.click && r.drag && !r.focusable,
    {
        Sense { click: false, drag: true, focusable: false }
    }

    /// Senses clicks and drags, and can take focus.
    pub fn click_and_drag() -> (r: Sense)
        ensures
            r.click && r.drag && r.focusable,
    {
        Sense { click: true, drag: true, focusable: true }
    }

    /// Everything either sense senses.
    pub fn union(self, other: Sense) -> (r: Sense)
        ensures
            r.click == (self.click || other.click),
            r.drag == (self.drag || other.drag),
            r.focusable == (self.focusable || other.focusable),
    {
        Sense { click: self.click || other.click, drag: self.drag || other.drag, focusable: self.focusable || other.focusable }
    }

    pub fn senses_click(&self) -> (r: bool)
        ensures
            r == self.click,
    {
        self.click
    }

    pub fn senses_drag(&self) -> (r: bool)
        ensures
            r == self.drag,
    {
        self.drag
    }

    pub fn is_focusable(&self) -> (r: bool)
        ensures
            r == self.focusable,
    {
        self.focusable
    }
}

/// A widget's identifier, layer, rectangles and interaction capabilities,
/// as registered during a pass.
#[derive(Clone, Copy, Debug, PartialEq, Eq, Structural, Hash)]
pub struct WidgetRect {
    /// The widget's identifier.
    pub id: Id,
    /// The layer the widget is on.
    pub layer_id: LayerId,
    /// The full widget rectangle, in layer coordinates.
    pub rect: Rect,
    /// The part of the rectangle that takes interaction, after clipping.
    pub interact_rect: Rect,
    /// How the widget responds to interaction.
    pub sense: Sense,
    /// Is the widget enabled? A disabled widget effectively senses nothing.
    pub enabled: bool,
}

/// A registered widget merged with a later registration of the same
/// identifier: the last rectangles win, senses and enabled flags add up.
pub open spec fn merged(existing: WidgetRect, w: WidgetRect) -> WidgetRect {
    WidgetRect {
        id: existing.id,
        layer_id: existing.layer_id,
        rect: w.rect,
        interact_rect: w.interact_rect,
        sense: Sense {
            click: existing.sense.click || w.sense.click,
            drag: existing.sense.drag || w.sense.drag,
            focusable: existing.sense.focusable || w.sense.focusable,
        },
        enabled: existing.enabled || w.enabled,
    }
}

/// The widgets of `s` on layer `l`.
pub open spec fn on_layer(l: LayerId) -> spec_fn(WidgetRect) -> bool {
    |w: WidgetRect| w.layer_id == l
}

/// The layers of the first `n` widgets, each once, in the order first used.
pub open spec fn layers_upto(ws: Seq<WidgetRect>, n: nat) -> Seq<LayerId>
    decreases n,
{
    if n == 0 || n > ws.len() {
        Seq::empty()
    } else {
        let p = layers_upto(ws, (n - 1) as nat);
        if p.contains(ws[n - 1].layer_id) { p } else { p.push(ws[n - 1].layer_id) }
    }
}

/// The widget rectangles of one pass, in registration (painting) order, with
/// an index by identifier.
pub struct WidgetRects {
    all: Vec<WidgetRect>,
    by_id: HashMap<u64, usize>,
}

impl WidgetRects {
    /// All registered widgets in registration order.
    pub closed spec fn widgets(&self) -> Seq<WidgetRect> {
        self.all@
    }

    /// The registered widget of each identifier value.
    pub closed spec fn id_map(&self) -> Map<u64, WidgetRect> {
        Map::new(|k: u64| self.by_id@.contains_key(k), |k: u64| self.all@[self.by_id@[k] as int])
    }

    /// Each identifier is registered once, and the index finds it.
    pub closed spec fn wf(&self) -> bool {
        &&& forall|k: u64| #[trigger] self.by_id@.contains_key(k) ==> self.by_id@[k] < self.all@.len() && self.all@[self.by_id@[k] as int].id.0 == k
        &&& forall|i: int| 0 <= i < self.all@.len() ==> self.by_id@.contains_key((#[trigger] self.all@[i]).id.0)
            && self.by_id@[self.all@[i].id.0] == i
    }

    /// In a well-formed registry each identifier occurs once among the
    /// widgets, and the registered widget of an identifier is the one listed.
    pub proof fn lemma_ids_once(&self)
        requires
            self.wf(),
        ensures
            forall|i: int, j: int| 0 <= i < j < self.widgets().len() ==> #[trigger] self.widgets()[i].id != #[trigger] self.widgets()[j].id,
            forall|k: u64| #[trigger] self.id_map().contains_key(k) ==> exists|i: int| 0 <= i < self.widgets().len()
                && (#[trigger] self.widgets()[i]).id.0 == k && self.widgets()[i] == self.id_map()[k],
            forall|i: int| 0 <= i < self.widgets().len() ==> self.id_map().contains_key((#[trigger] self.widgets()[i]).id.0)
                && self.id_map()[self.widgets()[i].id.0] == self.widgets()[i],
    {
        assert forall|i: int, j: int| 0 <= i < j < self.widgets().len() implies #[trigger] self.widgets()[i].id != #[trigger] self.widgets()[j].id by {
            assert(self.by_id@[self.all@[i].id.0] == i);
            assert(self.by_id@[self.all@[j].id.0] == j);
        }
        assert forall|k: u64| #[trigger] self.id_map().contains_key(k) implies exists|i: int| 0 <= i < self.widgets().len()
            && (#[trigger] self.widgets()[i]).id.0 == k && self.widgets()[i] == self.id_map()[k] by {
            let i = self.by_id@[k] as int;
            assert(self.widgets()[i].id.0 == k);
        }
    }

    pub fn new() -> (r: WidgetRects)
        ensures
            r.wf(),
            r.id_map() == Map::<u64, WidgetRect>::empty(),
            r.widgets().len() == 0,
    {
        let r = WidgetRects { all: Vec::new(), by_id: HashMap::new() };
        proof {
            assert(r.id_map() =~= Map::<u64, WidgetRect>::empty());
        }
        r
    }

    /// The registered widget with this identifier.
    pub fn get(&self, id: Id) -> (r: Option<WidgetRect>)
        requires
            self.wf(),
        ensures
            r == (if self.id_map().contains_key(id.0) { Some(self.id_map()[id.0]) } else { None::<WidgetRect> }),
    {
        match self.by_id.get(&id.0) {
            Some(i) => Some(self.all[*i]),
            None => None,
        }
    }

    /// Is a widget with this identifier registered?
    pub fn contains(&self, id: Id) -> (r: bool)
        ensures
            r == self.id_map().contains_key(id.0),
    {
        self.by_id.contains_key(&id.0)
    }

    /// The layer of the widget and its index among the widgets of that layer.
    pub fn order(&self, id: Id) -> (r: Option<(LayerId, usize)>)
        requires
            self.wf(),
        ensures
            !self.id_map().contains_key(id.0) ==> r.is_none(),
            self.id_map().contains_key(id.0) ==> exists|i: int| 0 <= i < self.widgets().len()
                && (#[trigger] self.widgets()[i]).id == id
                && r == Some((self.widgets()[i].layer_id,
                    self.widgets().take(i).filter(on_layer(self.widgets()[i].layer_id)).len() as usize)),
    {
        match self.by_id.get(&id.0) {
            Some(ip) => {
                let i = *ip;
                let w = self.all[i];
                let mut n: usize = 0;
                let mut j: usize = 0;
                while j < i
                    invariant
                        j <= i < self.all@.len(),
                        n == self.all@.take(j as int).filter(on_layer(w.layer_id)).len(),
                        n <= j,
                    decreases i - j,
                {
                    proof {
                        assert(self.all@.take(j + 1) =~= self.all@.take(j as int).push(self.all@[j as int]));
                        self.all@.take(j as int).lemma_filter_push(self.all@[j as int], on_layer(w.layer_id));
                    }
                    if self.all[j].layer_id == w.layer_id {
                        n = n + 1;
                    }
                    j = j + 1;
                }
                proof {
                    assert(self.all@[i as int].id.0 == id.0);
                    assert(self.all@[i as int].id == id);
                    assert(self.widgets()[i as int] == w);
                }
                Some((w.layer_id, n))
            },
            None => None,
        }
    }

    /// The widgets of one layer, back to front.
    pub fn get_layer(&self, l: LayerId) -> (r: Vec<WidgetRect>)
        ensures
            r@ == self.widgets().filter(on_layer(l)),
    {
        let mut r: Vec<WidgetRect> = Vec::new();
        let mut j: usize = 0;
        while j < self.all.len()
            invariant
                j <= self.all@.len(),
                r@ == self.all@.take(j as int).filter(on_layer(l)),
            decreases self.all@.len() - j,
        {
            proof {
                assert(self.all@.take(j + 1) =~= self.all@.take(j as int).push(self.all@[j as int]));
                self.all@.take(j as int).lemma_filter_push(self.all@[j as int], on_layer(l));
            }
            if self.all[j].layer_id == l {
                r.push(self.all[j]);
            }
            j = j + 1;
        }
        proof {
            assert(self.all@.take(j as int) =~= self.all@);
        }
        r
    }

    /// The layers that have widgets, each once, in the order first used.
    pub fn layer_ids(&self) -> (r: Vec<LayerId>)
        ensures
            r@ == layers_upto(self.widgets(), self.widgets().len()),
            r@.no_duplicates(),
            forall|l: LayerId| r@.contains(l) <==> exists|i: int| 0 <= i < self.widgets().len() && (#[trigger] self.widgets()[i]).layer_id == l,
    {
        let mut r: Vec<LayerId> = Vec::new();
        let mut j: usize = 0;
        while j < self.all.len()
            invariant
                j <= self.all@.len(),
                r@ == layers_upto(self.all@, j as nat),
                r@.no_duplicates(),
                forall|l: LayerId| r@.contains(l) <==> exists|i: int| 0 <= i < j && (#[trigger] self.all@[i]).layer_id == l,
            decreases self.all@.len() - j,
        {
            let l = self.all[j].layer_id;
            let ghost before = r@;
            crate::areas::push_unique_layer(&mut r, l);
            proof {
                crate::areas::lemma_push_contains(before, l);
                assert forall|x: LayerId| r@.contains(x) <==> exists|i: int| 0 <= i < j + 1 && (#[trigger] self.all@[i]).layer_id == x by {
                    if x == l {
                        assert(self.all@[j as int].layer_id == x);
                    }
                    if exists|i: int| 0 <= i < j + 1 && (#[trigger] self.all@[i]).layer_id == x {
                        let i = choose|i: int| 0 <= i < j + 1 && (#[trigger] self.all@[i]).layer_id == x;
                        if i < j {
                            assert(before.contains(x));
                        }
                    }
                }
            }
            j = j + 1;
        }
        r
    }

    /// Forget every widget.
    pub fn clear(&mut self)
        ensures
            final(self).wf(),
            final(self).id_map() == Map::<u64, WidgetRect>::empty(),
            final(self).widgets().len() == 0,
    {
        self.all = Vec::new();
        self.by_id.clear();
        proof {
            assert(self.id_map() =~= Map::<u64, WidgetRect>::empty());
        }
    }

    /// Register a widget. A new identifier is appended; a known one is merged
    /// into its entry in place (last rectangles win, senses and enabled flags
    /// add up, the layer stays).
    pub fn insert(&mut self, w: WidgetRect)
        requires
            old(self).wf(),
        ensures
            final(self).wf(),
            old(self).id_map().contains_key(w.id.0) ==> {
                &&& final(self).id_map() == old(self).id_map().insert(w.id.0, merged(old(self).id_map()[w.id.0], w))
                &&& exists|i: int| 0 <= i < old(self).widgets().len() && (#[trigger] old(self).widgets()[i]).id.0 == w.id.0
                    && final(self).widgets() == old(self).widgets().update(i, merged(old(self).widgets()[i], w))
            },
            !old(self).id_map().contains_key(w.id.0) ==> {
                &&& final(self).id_map() == old(self).id_map().insert(w.id.0, w)
                &&& final(self).widgets() == old(self).widgets().push(w)
            },
    {
        match self.by_id.get(&w.id.0) {
            Some(ip) => {
                let i = *ip;
                let existing = self.all[i];
                let m = WidgetRect {
                    id: existing.id,
                    layer_id: existing.layer_id,
                    rect: w.rect,
                    interact_rect: w.interact_rect,
                    sense: existing.sense.union(w.sense),
                    enabled: existing.enabled || w.enabled,
                };
                self.all.set(i, m);
                proof {
                    assert(old(self).widgets()[i as int] == existing);
                    assert(self.all@ == old(self).widgets().update(i as int, merged(old(self).widgets()[i as int], w)));
                    assert(self.id_map() =~= old(self).id_map().insert(w.id.0, merged(old(self).id_map()[w.id.0], w)));
                    assert forall|j: int| 0 <= j < self.all@.len() implies self.by_id@.contains_key((#[trigger] self.all@[j]).id.0)
                        && self.by_id@[self.all@[j].id.0] == j by {
                        if j != i as int {
                            assert(self.all@[j] == old(self).all@[j]);
                        }
                    }
                }
            },
            None => {
                let i = self.all.len();
                self.all.push(w);
                self.by_id.insert(w.id.0, i);
                proof {
                    assert forall|k: u64| #[trigger] self.by_id@.contains_key(k) implies self.by_id@[k] < self.all@.len()
                        && self.all@[self.by_id@[k] as int].id.0 == k by {
                        if k != w.id.0 {
                            assert(old(self).by_id@.contains_key(k));
                        }
                    }
                    assert forall|j: int| 0 <= j < self.all@.len() implies self.by_id@.contains_key((#[trigger] self.all@[j]).id.0)
                        && self.by_id@[self.all@[j].id.0] == j by {
                        if j < i as int {
                            assert(self.all@[j] == old(self).all@[j]);
                            assert(old(self).by_id@.contains_key(old(self).all@[j].id.0));
                        }
                    }
                    assert(self.id_map() =~= old(self).id_map().insert(w.id.0, w));
                }
            },
        }
    }
}

} // verus!
