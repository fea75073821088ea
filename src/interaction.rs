//! Resolving pointer presses, moves and releases into clicks and drags.
use vstd::prelude::*;
use crate::id::Id;
use crate::widget_rect::{WidgetRect, WidgetRects};

verus! {

/// What the pointer is pressed on: the widget that may become clicked and
/// the one that may become dragged (a widget can be both; movement decides).
#[derive(Clone, Copy, Debug, PartialEq, Eq, Structural)]
pub struct InteractionState {
    /// A widget sensing clicks with the pointer pressed on it.
    pub potential_click_id: Option<Id>,
    /// A widget sensing drags with the pointer pressed on it.
    pub potential_drag_id: Option<Id>,
}

impl InteractionState {
    pub fn new() -> (r: InteractionState)
        ensures
            r.potential_click_id.is_none(),
            r.potential_drag_id.is_none(),
    {
        InteractionState { potential_click_id: None, potential_drag_id: None }
    }

    /// Is a widget being clicked or dragged?
    pub fn is_using_pointer(&self) -> (r: bool)
        ensures
            r == (self.potential_click_id.is_some() || self.potential_drag_id.is_some()),
    {
        self.potential_click_id.is_some() || self.potential_drag_id.is_some()
    }
}

/// The interactions of one pass.
#[derive(Clone, Debug)]
pub struct InteractionSnapshot {
    /// The widget clicked this pass.
    pub clicked: Option<Id>,
    /// The widget long-pressed by touch this pass.
    pub long_touched: Option<Id>,
    /// The widget whose drag started this pass.
    pub drag_started: Option<Id>,
    /// The widget being dragged.
    pub dragged: Option<Id>,
    /// The widget whose drag stopped this pass.
    pub drag_stopped: Option<Id>,
    /// Widgets that contain the pointer.
    pub contains_pointer: Vec<Id>,
    /// Widgets that are hovered.
    pub hovered: Vec<Id>,
}

/// A pointer event of a pass.
#[derive(Clone, Copy, Debug, PartialEq, Eq, Structural)]
pub enum PointerEvent {
    Moved,
    Pressed,
    /// `click`: the press and release form a click (short and still enough).
    Released { click: bool },
}

/// What the pointer did this pass.
#[derive(Clone, Debug)]
pub struct PointerInput {
    pub events: Vec<PointerEvent>,
    /// Has the pointer moved or been held long enough to be a drag?
    pub is_decidedly_dragging: bool,
    /// Could a button still be a click?
    pub could_any_button_be_click: bool,
    /// Is any button down?
    pub any_down: bool,
    /// Is the pointer position known?
    pub has_pos: bool,
    /// Is this a long, still press of a touch pointer?
    pub is_long_touch: bool,
}

/// The widgets under the pointer, from the previous pass's rectangles.
#[derive(Clone, Debug)]
pub struct WidgetHits {
    /// The top-most widget sensing clicks.
    pub click: Option<WidgetRect>,
    /// The top-most widget sensing drags.
    pub drag: Option<WidgetRect>,
    /// Every widget of the owning layer whose interaction rectangle holds
    /// the pointer.
    pub contains_pointer: Vec<WidgetRect>,
    /// Every widget of the owning layer within the touch tolerance of the
    /// pointer: the candidates, e.g. for closing a popup on a click outside.
    pub close: Vec<WidgetRect>,
}

pub open spec fn hit_id(w: Option<WidgetRect>) -> Option<Id> {
    match w {
        Some(x) => Some(x.id),
        None => None,
    }
}

pub open spec fn or_id(a: Option<Id>, b: Option<Id>) -> Option<Id> {
    if a.is_some() { a } else { b }
}

/// The running state while pointer events are read: potential click,
/// potential drag, clicked, dragged.
pub type PointerScan = (Option<Id>, Option<Id>, Option<Id>, Option<Id>);

pub open spec fn pointer_step(s: PointerScan, e: PointerEvent, hits_click: Option<Id>, hits_drag: Option<Id>, decidedly_dragging: bool, known: Map<u64, WidgetRect>) -> PointerScan {
    match e {
        PointerEvent::Moved => s,
        PointerEvent::Pressed => (or_id(s.0, hits_click), or_id(s.1, hits_drag), s.2, s.3),
        PointerEvent::Released { click } => {
            let clicked = match s.0 {
                Some(c) => if click && !decidedly_dragging && known.contains_key(c.0) { Some(c) } else { s.2 },
                None => s.2,
            };
            (None, None, clicked, None)
        },
    }
}

pub open spec fn pointer_scan(start: PointerScan, events: Seq<PointerEvent>, hits_click: Option<Id>, hits_drag: Option<Id>, decidedly_dragging: bool, known: Map<u64, WidgetRect>, n: nat) -> PointerScan
    decreases n,
{
    if n == 0 {
        start
    } else {
        pointer_step(pointer_scan(start, events, hits_click, hits_drag, decidedly_dragging, known, (n - 1) as nat), events[n - 1], hits_click, hits_drag, decidedly_dragging, known)
    }
}

/// Keep a potential widget only if it is still registered.
pub open spec fn still_known(id: Option<Id>, known: Map<u64, WidgetRect>) -> Option<Id> {
    match id {
        Some(i) => if known.contains_key(i.0) { id } else { None },
        None => None,
    }
}

/// Does the potential drag widget start dragging now? A widget sensing both
/// clicks and drags waits until the pointer is decidedly dragging.
pub open spec fn starts_drag(pd: Option<Id>, known: Map<u64, WidgetRect>, decidedly_dragging: bool) -> bool {
    match pd {
        Some(i) => known.contains_key(i.0) && known[i.0].enabled && if known[i.0].sense.click && known[i.0].sense.drag {
            decidedly_dragging
        } else {
            known[i.0].sense.drag
        },
        None => false,
    }
}

/// Drag started and drag stopped, from the dragged widget before and after.
pub open spec fn drag_transition(prev: Option<Id>, now: Option<Id>) -> (Option<Id>, Option<Id>) {
    if prev != now { (now, prev) } else { (None, None) }
}

pub open spec fn opt_seq(o: Option<Id>) -> Seq<Id> {
    match o {
        Some(i) => seq![i],
        None => Seq::empty(),
    }
}

/// The identifiers of the first `n` widgets of `ws` that sense neither clicks
/// nor drags.
pub open spec fn passive_ids(ws: Seq<WidgetRect>, n: nat) -> Seq<Id>
    decreases n,
{
    if n == 0 || n > ws.len() {
        Seq::empty()
    } else {
        passive_ids(ws, (n - 1) as nat) + if !ws[n - 1].sense.click && !ws[n - 1].sense.drag {
            seq![ws[n - 1].id]
        } else {
            Seq::empty()
        }
    }
}

/// The hovered widgets: while something is clicked, dragged or long-touched,
/// only those; else the click and drag targets under the pointer and the
/// non-interactive widgets there (a label inside a draggable window).
pub open spec fn hovered_ids(clicked: Option<Id>, dragged: Option<Id>, long_touched: Option<Id>, hits: &WidgetHits) -> Seq<Id> {
    if clicked.is_some() || dragged.is_some() || long_touched.is_some() {
        opt_seq(clicked) + opt_seq(dragged) + opt_seq(long_touched)
    } else {
        opt_seq(hit_id(hits.click)) + opt_seq(hit_id(hits.drag)) + passive_ids(hits.contains_pointer@, hits.contains_pointer@.len())
    }
}

fn ids_of(ws: &Vec<WidgetRect>) -> (r: Vec<Id>)
    ensures
        r@.len() == ws@.len(),
        forall|i: int| 0 <= i < r@.len() ==> r@[i] == (#[trigger] ws@[i]).id,
{
    let mut r: Vec<Id> = Vec::new();
    let mut i: usize = 0;
    while i < ws.len()
        invariant
            i <= ws@.len(),
            r@.len() == i,
            forall|j: int| 0 <= j < i ==> r@[j] == (#[trigger] ws@[j]).id,
        decreases ws@.len() - i,
    {
        r.push(ws[i].id);
        i = i + 1;
    }
    r
}

fn hovered_of(clicked: Option<Id>, dragged: Option<Id>, long_touched: Option<Id>, hits: &WidgetHits) -> (r: Vec<Id>)
    ensures
        r@ == hovered_ids(clicked, dragged, long_touched, hits),
{
    let hit_click = match hits.click {
        Some(w) => Some(w.id),
        None => None,
    };
    let hit_drag = match hits.drag {
        Some(w) => Some(w.id),
        None => None,
    };
    let mut hovered: Vec<Id> = Vec::new();
    if clicked.is_some() || dragged.is_some() || long_touched.is_some() {
        if let Some(c) = clicked {
            hovered.push(c);
        }
        if let Some(d) = dragged {
            hovered.push(d);
        }
        if let Some(l) = long_touched {
            hovered.push(l);
        }
        proof {
            assert(hovered@ =~= opt_seq(clicked) + opt_seq(dragged) + opt_seq(long_touched));
        }
    } else {
        if let Some(c) = hit_click {
            hovered.push(c);
        }
        if let Some(d) = hit_drag {
            hovered.push(d);
        }
        let ghost head = hovered@;
        proof {
            assert(head =~= opt_seq(hit_click) + opt_seq(hit_drag));
            assert(hovered@ =~= head + passive_ids(hits.contains_pointer@, 0));
        }
        let mut k: usize = 0;
        while k < hits.contains_pointer.len()
            invariant
                k <= hits.contains_pointer@.len(),
                hovered@ == head + passive_ids(hits.contains_pointer@, k as nat),
            decreases hits.contains_pointer@.len() - k,
        {
            let w = hits.contains_pointer[k];
            if !w.sense.senses_click() && !w.sense.senses_drag() {
                hovered.push(w.id);
            }
            proof {
                assert(hovered@ =~= head + passive_ids(hits.contains_pointer@, (k + 1) as nat));
            }
            k = k + 1;
        }
    }
    hovered
}

/// What resolving a pass's pointer events gives: `prev` is the previous
/// snapshot, `known` the previous pass's widgets, `o` and `n` the pointer
/// state before and after, `r` the new snapshot.
pub open spec fn interact_result(
    prev: InteractionSnapshot,
    known: Map<u64, WidgetRect>,
    hits: WidgetHits,
    input: PointerInput,
    o: InteractionState,
    n: InteractionState,
    r: InteractionSnapshot,
) -> bool {
    &&& ({
            let known = known;
            let start = (still_known(o.potential_click_id, known), still_known(o.potential_drag_id, known), None::<Id>, prev.dragged);
            let s = pointer_scan(start, input.events@, hit_id(hits.click), hit_id(hits.drag), input.is_decidedly_dragging, known, input.events@.len());
            let dragged = if s.3.is_none() && starts_drag(s.1, known, input.is_decidedly_dragging) { s.1 } else { s.3 };
            let pc = if !input.could_any_button_be_click || !input.any_down || !input.has_pos { None::<Id> } else { s.0 };
            let pd = if !input.any_down || !input.has_pos { None::<Id> } else { s.1 };
            &&& r.clicked == s.2
            &&& r.dragged == dragged
            &&& (r.drag_started, r.drag_stopped) == drag_transition(prev.dragged, dragged)
            &&& r.long_touched == (if input.is_long_touch { hit_id(hits.click) } else { None::<Id> })
            &&& n.potential_click_id == pc
            &&& n.potential_drag_id == pd
        })
    &&& r.hovered@ == hovered_ids(r.clicked, r.dragged, r.long_touched, &hits)
    &&& r.contains_pointer@.len() == hits.contains_pointer@.len()
    &&& forall|i: int| 0 <= i < r.contains_pointer@.len() ==> r.contains_pointer@[i] == (#[trigger] hits.contains_pointer@[i]).id
}

/// Resolve this pass's pointer events against the widgets hit (found with
/// the previous pass's rectangles `widgets`) into clicks and drags.
pub fn interact(
    prev: &InteractionSnapshot,
    widgets: &WidgetRects,
    hits: &WidgetHits,
    input: &PointerInput,
    state: &mut InteractionState,
) -> (r: InteractionSnapshot)
    requires
        widgets.wf(),
    ensures
        interact_result(*prev, widgets.id_map(), *hits, *input, *old(state), *final(state), r),
{
    let ghost known = widgets.id_map();
    if let Some(id) = state.potential_click_id {
        if !widgets.contains(id) {
            state.potential_click_id = None;
        }
    }
    if let Some(id) = state.potential_drag_id {
        if !widgets.contains(id) {
            state.potential_drag_id = None;
        }
    }
    let long_touched = if input.is_long_touch {
        match hits.click {
            Some(w) => Some(w.id),
            None => None,
        }
    } else {
        None
    };
    let hits_click = match hits.click {
        Some(w) => Some(w.id),
        None => None,
    };
    let hits_drag = match hits.drag {
        Some(w) => Some(w.id),
        None => None,
    };
    let ghost start = (state.potential_click_id, state.potential_drag_id, None::<Id>, prev.dragged);
    let mut clicked: Option<Id> = None;
    let mut dragged: Option<Id> = prev.dragged;
    let mut i: usize = 0;
    while i < input.events.len()
        invariant
            i <= input.events@.len(),
            widgets.wf(),
            known == widgets.id_map(),
            (state.potential_click_id, state.potential_drag_id, clicked, dragged)
                == pointer_scan(start, input.events@, hits_click, hits_drag, input.is_decidedly_dragging, known, i as nat),
        decreases input.events@.len() - i,
    {
        match input.events[i] {
            PointerEvent::Moved => {},
            PointerEvent::Pressed => {
                if state.potential_click_id.is_none() {
                    state.potential_click_id = hits_click;
                }
                if state.potential_drag_id.is_none() {
                    state.potential_drag_id = hits_drag;
                }
            },
            PointerEvent::Released { click } => {
                if click && !input.is_decidedly_dragging {
                    if let Some(c) = state.potential_click_id {
                        if widgets.contains(c) {
                            clicked = Some(c);
                        }
                    }
                }
                state.potential_drag_id = None;
                state.potential_click_id = None;
                dragged = None;
            },
        }
        i = i + 1;
    }
    if dragged.is_none() {
        if let Some(id) = state.potential_drag_id {
            if let Some(w) = widgets.get(id) {
                if w.enabled {
                    let is_dragged = if w.sense.senses_click() && w.sense.senses_drag() {
                        input.is_decidedly_dragging
                    } else {
                        w.sense.senses_drag()
                    };
                    if is_dragged {
                        dragged = Some(id);
                    }
                }
            }
        }
    }
    if !input.could_any_button_be_click {
        state.potential_click_id = None;
    }
    if !input.any_down || !input.has_pos {
        state.potential_click_id = None;
        state.potential_drag_id = None;
    }
    let drag_changed = dragged != prev.dragged;
    let drag_stopped = if drag_changed { prev.dragged } else { None };
    let drag_started = if drag_changed { dragged } else { None };
    let contains_pointer = ids_of(&hits.contains_pointer);
    let hovered = hovered_of(clicked, dragged, long_touched, hits);
    InteractionSnapshot { clicked, long_touched, drag_started, dragged, drag_stopped, contains_pointer, hovered }
}

/// Make `id` the dragged widget. Starting a drag on another widget stops the
/// drag in progress in the same pass.
pub fn set_dragged_id(snapshot: &mut InteractionSnapshot, state: &mut InteractionState, id: Id)
    ensures
        final(snapshot).dragged == Some(id),
        old(snapshot).dragged != Some(id) ==> {
            &&& final(snapshot).drag_started == Some(id)
            &&& final(snapshot).drag_stopped == or_id(old(snapshot).dragged, old(snapshot).drag_stopped)
        },
        old(snapshot).dragged == Some(id) ==> {
            &&& final(snapshot).drag_started == old(snapshot).drag_started
            &&& final(snapshot).drag_stopped == old(snapshot).drag_stopped
        },
        final(snapshot).clicked == old(snapshot).clicked,
        final(state).potential_drag_id == Some(id),
        final(state).potential_click_id == old(state).potential_click_id,
{
    let already = match snapshot.dragged {
        Some(d) => d == id,
        None => false,
    };
    if !already {
        snapshot.drag_stopped = if snapshot.dragged.is_some() { snapshot.dragged } else { snapshot.drag_stopped };
        snapshot.dragged = Some(id);
        snapshot.drag_started = Some(id);
    }
    state.potential_drag_id = Some(id);
}

/// Stop dragging any widget; the widget being dragged is reported stopped.
pub fn stop_dragging(snapshot: &mut InteractionSnapshot, state: &mut InteractionState)
    ensures
        final(snapshot).dragged.is_none(),
        final(snapshot).drag_stopped == or_id(old(snapshot).dragged, old(snapshot).drag_stopped),
        final(snapshot).drag_started == old(snapshot).drag_started,
        final(snapshot).clicked == old(snapshot).clicked,
        final(state).potential_drag_id.is_none(),
        final(state).potential_click_id == old(state).potential_click_id,
{
    if snapshot.dragged.is_some() {
        snapshot.drag_stopped = snapshot.dragged;
        snapshot.dragged = None;
    }
    state.potential_drag_id = None;
}

/// At most one widget is dragged at a time, and a drag that passes from one
/// widget to another reports the old one stopped in the same pass as the new
/// one started, both in a pass's resolution and in `set_dragged_id`.
pub proof fn lemma_drag_exclusive(a: Id, b: Id, stopped_before: Option<Id>)
    requires
        a != b,
    ensures
        drag_transition(Some(a), Some(b)) == (Some(b), Some(a)),
        drag_transition(Some(a), None::<Id>) == (None::<Id>, Some(a)),
        drag_transition(Some(a), Some(a)) == (None::<Id>, None::<Id>),
        or_id(Some(a), stopped_before) == Some(a),
{
}

} // verus!
