//! Keyboard focus: which widget owns it, tab and arrow navigation, modal
//! layers, and the switch that drops focus when its owner disappears.
use vstd::prelude::*;
use std::collections::HashMap;
use crate::id::Id;
use crate::layers::LayerId;
use crate::geometry::Rect;

verus! {

broadcast use vstd::std_specs::hash::group_hash_axioms;

/// The keys that focus handling reads.
#[derive(Clone, Copy, Debug, PartialEq, Eq, Structural, Hash)]
pub enum Key {
    ArrowUp,
    ArrowDown,
    ArrowLeft,
    ArrowRight,
    Tab,
    Escape,
    Backspace,
    Enter,
    Space,
    /// Any other key.
    Other,
}

/// A key press or release, with the shift modifier; `repeat` marks a press
/// repeated by holding the key.
#[derive(Clone, Copy, Debug, PartialEq, Eq, Structural, Hash)]
pub struct KeyEvent {
    pub key: Key,
    pub pressed: bool,
    pub repeat: bool,
    pub shift: bool,
}

/// Is this a key event that disturbs text composition (IME): a repeat, or
/// Backspace or an arrow?
pub open spec fn ime_incompatible(e: KeyEvent) -> bool {
    e.repeat || e.key == Key::Backspace || e.key == Key::ArrowUp || e.key == Key::ArrowDown
        || e.key == Key::ArrowLeft || e.key == Key::ArrowRight
}

pub open spec fn ime_compatible() -> spec_fn(KeyEvent) -> bool {
    |e: KeyEvent| !ime_incompatible(e)
}

/// Drop the key events that disturb text composition while an IME is used,
/// keeping the others in order.
pub fn remove_ime_incompatible_events(events: &mut Vec<KeyEvent>)
    ensures
        final(events)@ == old(events)@.filter(ime_compatible()),
{
    let mut kept: Vec<KeyEvent> = Vec::new();
    let mut i: usize = 0;
    while i < events.len()
        invariant
            i <= events@.len(),
            events@ == old(events)@,
            kept@ == events@.take(i as int).filter(ime_compatible()),
        decreases events@.len() - i,
    {
        let e = events[i];
        proof {
            assert(events@.take(i + 1) =~= events@.take(i as int).push(e));
            events@.take(i as int).lemma_filter_push(e, ime_compatible());
        }
        let bad = e.repeat || e.key == Key::Backspace || e.key == Key::ArrowUp || e.key == Key::ArrowDown
            || e.key == Key::ArrowLeft || e.key == Key::ArrowRight;
        if !bad {
            kept.push(e);
        }
        i = i + 1;
    }
    proof {
        assert(events@.take(i as int) =~= events@);
    }
    *events = kept;
}

/// Which navigation keys the focused widget keeps for itself (e.g. a
/// multi-line text field keeps Tab and the arrows).
#[derive(Clone, Copy, Debug, PartialEq, Eq, Structural, Hash)]
pub struct EventFilter {
    pub tab: bool,
    pub horizontal_arrows: bool,
    pub vertical_arrows: bool,
    pub escape: bool,
}

pub open spec fn filter_matches(f: EventFilter, e: KeyEvent) -> bool {
    match e.key {
        Key::Tab => f.tab,
        Key::ArrowUp | Key::ArrowDown => f.vertical_arrows,
        Key::ArrowLeft | Key::ArrowRight => f.horizontal_arrows,
        Key::Escape => f.escape,
        _ => true,
    }
}

impl EventFilter {
    /// A filter that keeps no navigation key.
    pub fn new() -> (r: EventFilter)
        ensures
            !r.tab && !r.horizontal_arrows && !r.vertical_arrows && !r.escape,
    {
        EventFilter { tab: false, horizontal_arrows: false, vertical_arrows: false, escape: false }
    }

    /// Does the focused widget keep this event for itself?
    pub fn matches(&self, e: &KeyEvent) -> (r: bool)
        ensures
            r == filter_matches(*self, *e),
    {
        match e.key {
            Key::Tab => self.tab,
            Key::ArrowUp | Key::ArrowDown => self.vertical_arrows,
            Key::ArrowLeft | Key::ArrowRight => self.horizontal_arrows,
            Key::Escape => self.escape,
            _ => true,
        }
    }
}

/// Where the user asked focus to move this pass.
#[derive(Clone, Copy, Debug, PartialEq, Eq, Structural, Hash)]
pub enum FocusDirection {
    /// The closest widget above the focused one.
    Up,
    /// The closest widget to the right.
    Right,
    /// The closest widget below.
    Down,
    /// The closest widget to the left.
    Left,
    /// The widget that declared interest before the focused one.
    Previous,
    /// The widget that declares interest after the focused one.
    Next,
    /// Don't move focus.
    Stay,
}

impl FocusDirection {
    /// Is this one of the four arrow directions?
    pub fn is_cardinal(&self) -> (r: bool)
        ensures
            r == (*self == FocusDirection::Up || *self == FocusDirection::Right
                || *self == FocusDirection::Down || *self == FocusDirection::Left),
    {
        match self {
            FocusDirection::Up | FocusDirection::Right | FocusDirection::Down | FocusDirection::Left => true,
            FocusDirection::Previous | FocusDirection::Next | FocusDirection::Stay => false,
        }
    }
}

/// The widget with focus, and the keys it keeps.
#[derive(Clone, Copy, Debug, PartialEq, Eq, Structural, Hash)]
pub struct FocusWidget {
    pub id: Id,
    pub filter: EventFilter,
}

impl FocusWidget {
    /// Focus on `id`, keeping no keys.
    pub fn new(id: Id) -> (r: FocusWidget)
        ensures
            r.id == id,
            r.filter == (EventFilter { tab: false, horizontal_arrows: false, vertical_arrows: false, escape: false }),
    {
        FocusWidget { id, filter: EventFilter::new() }
    }
}

pub open spec fn no_filter() -> EventFilter {
    EventFilter { tab: false, horizontal_arrows: false, vertical_arrows: false, escape: false }
}

pub open spec fn new_focus(id: Id) -> FocusWidget {
    FocusWidget { id, filter: no_filter() }
}

pub open spec fn focused_id(w: Option<FocusWidget>) -> Option<Id> {
    match w {
        Some(f) => Some(f.id),
        None => None,
    }
}

/// The effect of one key event on focus and direction.
pub open spec fn key_step(filter: EventFilter, e: KeyEvent, focused: Option<FocusWidget>, dir: FocusDirection) -> (Option<FocusWidget>, FocusDirection) {
    if filter_matches(filter, e) || !e.pressed {
        (focused, dir)
    } else {
        match e.key {
            Key::ArrowUp => (focused, FocusDirection::Up),
            Key::ArrowRight => (focused, FocusDirection::Right),
            Key::ArrowDown => (focused, FocusDirection::Down),
            Key::ArrowLeft => (focused, FocusDirection::Left),
            Key::Tab => (focused, if e.shift { FocusDirection::Previous } else { FocusDirection::Next }),
            Key::Escape => (None, FocusDirection::Stay),
            _ => (focused, dir),
        }
    }
}

/// The effect of the first `n` key events.
pub open spec fn scan_keys(filter: EventFilter, events: Seq<KeyEvent>, focused: Option<FocusWidget>, n: nat) -> (Option<FocusWidget>, FocusDirection)
    decreases n,
{
    if n == 0 {
        (focused, FocusDirection::Stay)
    } else {
        let prev = scan_keys(filter, events, focused, (n - 1) as nat);
        key_step(filter, events[n - 1], prev.0, prev.1)
    }
}

/// The focus after the dead-man's switch: a focused widget that already had
/// focus last pass and was not used this pass loses it.
pub open spec fn focus_after_switch(focused: Option<FocusWidget>, previous: Option<Id>, used: Map<u64, Rect>) -> Option<FocusWidget> {
    match focused {
        Some(w) => if previous == Some(w.id) && !used.contains_key(w.id.0) { None } else { focused },
        None => None,
    }
}

/// The start of a pass: who had focus is remembered, a focus handed over
/// last pass arrives, and the navigation keys not kept by the focused
/// widget are read.
pub open spec fn focus_began(o: Focus, n: Focus, events: Seq<KeyEvent>) -> bool {
    let handed = match o.id_next_frame {
        Some(id) => Some(new_focus(id)),
        None => o.focused_widget,
    };
    let filter = match handed {
        Some(w) => w.filter,
        None => no_filter(),
    };
    let scanned = scan_keys(filter, events, handed, events.len());
    &&& n.focused_widget == scanned.0
    &&& n.focus_direction == scanned.1
    &&& n.id_previous_frame == focused_id(o.focused_widget)
    &&& n.id_next_frame.is_none()
    &&& n.give_to_next == o.give_to_next
    &&& n.last_interested == o.last_interested
    &&& n.top_modal_layer == o.top_modal_layer
    &&& n.top_modal_layer_current_frame == o.top_modal_layer_current_frame
    &&& n.focus_widgets_cache@ == o.focus_widgets_cache@
}

pub open spec fn is_cardinal_spec(d: FocusDirection) -> bool {
    d == FocusDirection::Up || d == FocusDirection::Right || d == FocusDirection::Down || d == FocusDirection::Left
}

/// The end of a pass: after an arrow key the navigation candidates take this
/// pass's rectangles and focus moves to `found`; then the dead-man's switch
/// runs; the modal layer of this pass becomes current.
pub open spec fn focus_ended(o: Focus, n: Focus, used: Map<u64, Rect>, found: Option<Id>) -> bool {
    let moved = if is_cardinal_spec(o.focus_direction) {
        match found {
            Some(id) => Some(new_focus(id)),
            None => o.focused_widget,
        }
    } else {
        o.focused_widget
    };
    &&& n.focused_widget == focus_after_switch(moved, o.id_previous_frame, used)
    &&& n.top_modal_layer == o.top_modal_layer_current_frame
    &&& n.top_modal_layer_current_frame.is_none()
    &&& n.id_previous_frame == o.id_previous_frame
    &&& n.id_next_frame == o.id_next_frame
    &&& n.give_to_next == o.give_to_next
    &&& n.last_interested == o.last_interested
    &&& n.focus_direction == o.focus_direction
    &&& n.focus_widgets_cache@ == (if is_cardinal_spec(o.focus_direction) {
        refreshed_cache(o.focus_widgets_cache@, used, o.focus_widgets_cache@.len())
    } else {
        o.focus_widgets_cache@
    })
}

/// The first `k` cache entries that were used, with this pass's rectangles.
pub open spec fn refreshed_cache(c: Seq<(Id, Rect)>, rects: Map<u64, Rect>, k: nat) -> Seq<(Id, Rect)>
    decreases k,
{
    if k == 0 || k > c.len() {
        Seq::empty()
    } else {
        let prev = refreshed_cache(c, rects, (k - 1) as nat);
        let id = c[k - 1].0;
        if rects.contains_key(id.0) { prev.push((id, rects[id.0])) } else { prev }
    }
}

/// A widget declares interest in focus: it takes focus after Tab (or when
/// nothing is focused and Tab or Shift+Tab was pressed), passes it on when it
/// has it and Tab or Shift+Tab was pressed, and becomes the last interested
/// widget; it joins the navigation candidates.
pub open spec fn focus_interest(o: Focus, n: Focus, id: Id) -> bool {
    &&& ({
                if o.give_to_next && o.id_previous_frame != Some(id) {
                    &&& n.focused_widget == Some(new_focus(id))
                    &&& !n.give_to_next
                    &&& n.focus_direction == o.focus_direction
                    &&& n.id_next_frame == o.id_next_frame
                } else if focused_id(o.focused_widget) == Some(id) {
                    if o.focus_direction == FocusDirection::Next {
                        &&& n.focused_widget.is_none()
                        &&& n.give_to_next
                        &&& n.focus_direction == FocusDirection::Stay
                        &&& n.id_next_frame == o.id_next_frame
                    } else if o.focus_direction == FocusDirection::Previous {
                        &&& n.focused_widget == o.focused_widget
                        &&& n.give_to_next == o.give_to_next
                        &&& n.focus_direction == FocusDirection::Stay
                        &&& n.id_next_frame == o.last_interested
                    } else {
                        &&& n.focused_widget == o.focused_widget
                        &&& n.give_to_next == o.give_to_next
                        &&& n.focus_direction == o.focus_direction
                        &&& n.id_next_frame == o.id_next_frame
                    }
                } else if o.focus_direction == FocusDirection::Next && o.focused_widget.is_none() && !o.give_to_next {
                    &&& n.focused_widget == Some(new_focus(id))
                    &&& n.give_to_next == o.give_to_next
                    &&& n.focus_direction == FocusDirection::Stay
                    &&& n.id_next_frame == o.id_next_frame
                } else if o.focus_direction == FocusDirection::Previous && o.focused_widget.is_none() && !o.give_to_next {
                    &&& n.focused_widget == match o.last_interested {
                        Some(l) => Some(new_focus(l)),
                        None => None::<FocusWidget>,
                    }
                    &&& n.give_to_next == o.give_to_next
                    &&& n.focus_direction == FocusDirection::Stay
                    &&& n.id_next_frame == o.id_next_frame
                } else {
                    &&& n.focused_widget == o.focused_widget
                    &&& n.give_to_next == o.give_to_next
                    &&& n.focus_direction == o.focus_direction
                    &&& n.id_next_frame == o.id_next_frame
                }
            })
    &&& n.last_interested == Some(id)
    &&& n.id_previous_frame == o.id_previous_frame
    &&& n.top_modal_layer == o.top_modal_layer
    &&& n.top_modal_layer_current_frame == o.top_modal_layer_current_frame
    &&& forall|k: int| 0 <= k < n.focus_widgets_cache@.len() ==> (#[trigger] n.focus_widgets_cache@[k]).0 == id
                || o.focus_widgets_cache@.contains(n.focus_widgets_cache@[k])
    &&& exists|k: int| 0 <= k < n.focus_widgets_cache@.len() && (#[trigger] n.focus_widgets_cache@[k]).0 == id
}

/// Keeps track of which widget has keyboard focus.
#[derive(Clone, Debug)]
pub struct Focus {
    /// The widget with keyboard focus.
    pub focused_widget: Option<FocusWidget>,
    /// The widget that had focus during the previous pass.
    pub id_previous_frame: Option<Id>,
    /// The widget to give focus to at the start of the next pass.
    pub id_next_frame: Option<Id>,
    /// If set, the next widget interested in focus gets it (after Tab).
    pub give_to_next: bool,
    /// The last widget that declared interest in focus.
    pub last_interested: Option<Id>,
    /// Where the user asked focus to move this pass.
    pub focus_direction: FocusDirection,
    /// The top-most modal layer of the previous pass.
    pub top_modal_layer: Option<LayerId>,
    /// The top-most modal layer of this pass so far.
    pub top_modal_layer_current_frame: Option<LayerId>,
    /// Widgets interested in focus, with their rectangles, for arrow navigation.
    pub focus_widgets_cache: Vec<(Id, Rect)>,
}

impl Focus {
    pub fn new() -> (r: Focus)
        ensures
            r.focused_widget.is_none(),
            r.id_previous_frame.is_none(),
            r.id_next_frame.is_none(),
            !r.give_to_next,
            r.last_interested.is_none(),
            r.focus_direction == FocusDirection::Stay,
            r.top_modal_layer.is_none(),
            r.top_modal_layer_current_frame.is_none(),
            r.focus_widgets_cache@.len() == 0,
    {
        Focus {
            focused_widget: None,
            id_previous_frame: None,
            id_next_frame: None,
            give_to_next: false,
            last_interested: None,
            focus_direction: FocusDirection::Stay,
            top_modal_layer: None,
            top_modal_layer_current_frame: None,
            focus_widgets_cache: Vec::new(),
        }
    }

    /// Which widget has keyboard focus?
    pub fn focused(&self) -> (r: Option<Id>)
        ensures
            r == focused_id(self.focused_widget),
    {
        match self.focused_widget {
            Some(w) => Some(w.id),
            None => None,
        }
    }

    /// The start of a pass: remember who had focus, hand focus over if asked
    /// last pass, and read navigation keys not kept by the focused widget.
    pub fn begin_pass(&mut self, events: &Vec<KeyEvent>)
        ensures
            focus_began(*old(self), *final(self), events@),
    {
        self.id_previous_frame = self.focused();
        match self.id_next_frame {
            Some(id) => {
                self.focused_widget = Some(FocusWidget::new(id));
            },
            None => {},
        }
        self.id_next_frame = None;
        let filter = match self.focused_widget {
            Some(w) => w.filter,
            None => EventFilter::new(),
        };
        let ghost handed = self.focused_widget;
        self.focus_direction = FocusDirection::Stay;
        let mut i: usize = 0;
        while i < events.len()
            invariant
                i <= events@.len(),
                (self.focused_widget, self.focus_direction) == scan_keys(filter, events@, handed, i as nat),
                self.id_previous_frame == focused_id(old(self).focused_widget),
                self.id_next_frame.is_none(),
                self.give_to_next == old(self).give_to_next,
                self.last_interested == old(self).last_interested,
                self.top_modal_layer == old(self).top_modal_layer,
                self.top_modal_layer_current_frame == old(self).top_modal_layer_current_frame,
                self.focus_widgets_cache@ == old(self).focus_widgets_cache@,
            decreases events@.len() - i,
        {
            let e = events[i];
            if !filter.matches(&e) && e.pressed {
                match e.key {
                    Key::ArrowUp => { self.focus_direction = FocusDirection::Up; },
                    Key::ArrowRight => { self.focus_direction = FocusDirection::Right; },
                    Key::ArrowDown => { self.focus_direction = FocusDirection::Down; },
                    Key::ArrowLeft => { self.focus_direction = FocusDirection::Left; },
                    Key::Tab => {
                        self.focus_direction = if e.shift { FocusDirection::Previous } else { FocusDirection::Next };
                    },
                    Key::Escape => {
                        self.focused_widget = None;
                        self.focus_direction = FocusDirection::Stay;
                    },
                    _ => {},
                }
            }
            i = i + 1;
        }
    }

    /// The end of a pass: move focus to `found_in_direction` after an arrow
    /// key (found among `focus_candidates` by the caller's geometric search),
    /// then drop focus whose owner had it last pass but was not used in this
    /// one. The modal layer of this pass becomes the one of the next.
    pub fn end_pass(&mut self, used_ids: &HashMap<u64, Rect>, found_in_direction: Option<Id>)
        ensures
            focus_ended(*old(self), *final(self), used_ids@, found_in_direction),
    {
        if self.focus_direction.is_cardinal() {
            self.refresh_focus_cache(used_ids);
            match found_in_direction {
                Some(id) => { self.focused_widget = Some(FocusWidget::new(id)); },
                None => {},
            }
        }
        match self.focused_widget {
            Some(w) => {
                let recently_gained = match self.id_previous_frame {
                    Some(p) => p != w.id,
                    None => true,
                };
                if !recently_gained && !used_ids.contains_key(&w.id.0) {
                    self.focused_widget = None;
                }
            },
            None => {},
        }
        self.top_modal_layer = self.top_modal_layer_current_frame;
        self.top_modal_layer_current_frame = None;
    }

    /// Did `id` have focus during the previous pass?
    pub fn had_focus_last_frame(&self, id: Id) -> (r: bool)
        ensures
            r == (self.id_previous_frame == Some(id)),
    {
        match self.id_previous_frame {
            Some(p) => p == id,
            None => false,
        }
    }

    /// A focusable widget announces itself; this is how Tab and Shift+Tab
    /// find the next and previous widget, in the order of the calls.
    pub fn interested_in_focus(&mut self, id: Id)
        ensures
            focus_interest(*old(self), *final(self), id),
    {
        // The rectangle is filled in at the end of the pass.
        let known = cache_index(&self.focus_widgets_cache, id);
        let ghost wk: int = match known {
            Some(k) => k as int,
            None => self.focus_widgets_cache@.len() as int,
        };
        if known.is_none() {
            self.focus_widgets_cache.push((id, Rect::everything()));
            proof {
                let n = self.focus_widgets_cache@.len() - 1;
                assert(self.focus_widgets_cache@[n].0 == id);
                assert forall|j: int| 0 <= j < n implies old(self).focus_widgets_cache@.contains(#[trigger] self.focus_widgets_cache@[j]) by {
                    assert(old(self).focus_widgets_cache@[j] == self.focus_widgets_cache@[j]);
                }
            }
        } else {
            proof {
                let k = known.unwrap();
                assert(self.focus_widgets_cache@[k as int].0 == id);
                assert forall|j: int| 0 <= j < self.focus_widgets_cache@.len() implies old(self).focus_widgets_cache@.contains(#[trigger] self.focus_widgets_cache@[j]) by {
                    assert(old(self).focus_widgets_cache@[j] == self.focus_widgets_cache@[j]);
                }
            }
        }

        let gets_it_after_tab = self.give_to_next && !self.had_focus_last_frame(id);
        let is_focused = match self.focused() {
            Some(f) => f == id,
            None => false,
        };
        if gets_it_after_tab {
            self.focused_widget = Some(FocusWidget::new(id));
            self.give_to_next = false;
        } else if is_focused {
            if self.focus_direction == FocusDirection::Next {
                self.focused_widget = None;
                self.give_to_next = true;
                self.reset_focus();
            } else if self.focus_direction == FocusDirection::Previous {
                // Delayed by a pass, so that "gained focus" holds next pass.
                self.id_next_frame = self.last_interested;
                self.reset_focus();
            }
        } else if self.focus_direction == FocusDirection::Next && self.focused_widget.is_none() && !self.give_to_next {
            self.focused_widget = Some(FocusWidget::new(id));
            self.reset_focus();
        } else if self.focus_direction == FocusDirection::Previous && self.focused_widget.is_none() && !self.give_to_next {
            self.focused_widget = match self.last_interested {
                Some(l) => Some(FocusWidget::new(l)),
                None => None,
            };
            self.reset_focus();
        }
        self.last_interested = Some(id);
        proof {
            assert(self.focus_widgets_cache@[wk].0 == id);
        }
    }

    /// Ask for focus on `layer_id`'s modal; the caller decides which request
    /// wins.
    pub fn set_modal_layer(&mut self, layer_id: LayerId)
        ensures
            *final(self) == (Focus { top_modal_layer_current_frame: Some(layer_id), ..*old(self) }),
    {
        self.top_modal_layer_current_frame = Some(layer_id);
    }

    /// The top-most modal layer of the previous pass.
    pub fn top_modal_layer(&self) -> (r: Option<LayerId>)
        ensures
            r == self.top_modal_layer,
    {
        self.top_modal_layer
    }

    /// Forget the requested navigation direction.
    pub fn reset_focus(&mut self)
        ensures
            final(self).focus_direction == FocusDirection::Stay,
            final(self).focused_widget == old(self).focused_widget,
            final(self).give_to_next == old(self).give_to_next,
            final(self).id_next_frame == old(self).id_next_frame,
            final(self).last_interested == old(self).last_interested,
            final(self).id_previous_frame == old(self).id_previous_frame,
            final(self).top_modal_layer == old(self).top_modal_layer,
            final(self).top_modal_layer_current_frame == old(self).top_modal_layer_current_frame,
            final(self).focus_widgets_cache@ == old(self).focus_widgets_cache@,
    {
        self.focus_direction = FocusDirection::Stay;
    }

    /// Replace each cached rectangle by this pass's one; drop widgets that were
    /// not used this pass.
    pub fn refresh_focus_cache(&mut self, new_rects: &HashMap<u64, Rect>)
        ensures
            final(self).focus_widgets_cache@ == refreshed_cache(old(self).focus_widgets_cache@, new_rects@,
                old(self).focus_widgets_cache@.len()),
            final(self).focused_widget == old(self).focused_widget,
            final(self).focus_direction == old(self).focus_direction,
            final(self).id_previous_frame == old(self).id_previous_frame,
            final(self).id_next_frame == old(self).id_next_frame,
            final(self).give_to_next == old(self).give_to_next,
            final(self).last_interested == old(self).last_interested,
            final(self).top_modal_layer == old(self).top_modal_layer,
            final(self).top_modal_layer_current_frame == old(self).top_modal_layer_current_frame,
    {
        let kept = self.refreshed_candidates(new_rects);
        self.focus_widgets_cache = kept;
    }

    /// The navigation candidates that were used this pass, with this pass's
    /// rectangles.
    pub fn refreshed_candidates(&self, new_rects: &HashMap<u64, Rect>) -> (r: Vec<(Id, Rect)>)
        ensures
            r@ == refreshed_cache(self.focus_widgets_cache@, new_rects@, self.focus_widgets_cache@.len()),
    {
        let mut kept: Vec<(Id, Rect)> = Vec::new();
        let mut k: usize = 0;
        while k < self.focus_widgets_cache.len()
            invariant
                k <= self.focus_widgets_cache@.len(),
                kept@ == refreshed_cache(self.focus_widgets_cache@, new_rects@, k as nat),
            decreases self.focus_widgets_cache@.len() - k,
        {
            let id = self.focus_widgets_cache[k].0;
            match new_rects.get(&id.0) {
                Some(r) => {
                    kept.push((id, *r));
                },
                None => {},
            }
            k = k + 1;
        }
        kept
    }

    /// The widgets that arrow navigation may move to, with their rectangles.
    pub fn focus_candidates(&self) -> (r: &Vec<(Id, Rect)>)
        ensures
            r@ == self.focus_widgets_cache@,
    {
        &self.focus_widgets_cache
    }
}

/// The index of `id` in the cache.
fn cache_index(cache: &Vec<(Id, Rect)>, id: Id) -> (r: Option<usize>)
    ensures
        r.is_some() ==> r.unwrap() < cache@.len() && cache@[r.unwrap() as int].0 == id,
{
    let mut k: usize = 0;
    while k < cache.len()
        invariant
            k <= cache@.len(),
        decreases cache@.len() - k,
    {
        if cache[k].0 == id {
            return Some(k);
        }
        k = k + 1;
    }
    None
}

/// The dead-man's switch: a widget that asks for focus keeps it through the
/// end of that pass even if it was not used, but if it then goes unused for a
/// whole pass, focus is gone when that pass ends. `previous` is the focus
/// holder recorded when the pass began.
pub proof fn lemma_dead_mans_switch(w: FocusWidget, previous: Option<Id>, used: Map<u64, Rect>)
    ensures
        previous != Some(w.id) ==> focus_after_switch(Some(w), previous, used) == Some(w),
        previous == Some(w.id) && !used.contains_key(w.id.0) ==> focus_after_switch(Some(w), previous, used).is_none(),
        used.contains_key(w.id.0) ==> focus_after_switch(Some(w), previous, used) == Some(w),
{
}

} // verus!
