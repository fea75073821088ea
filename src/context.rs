//! The façade: one context per UI, driving passes and frames.
use vstd::prelude::*;
use crate::id::Id;
use crate::layers::{LayerId, Order};
use crate::geometry::{Pos2, Rect};
use crate::areas::{AreaState, layers_top_first, top_first_below};
use crate::focus::{Key, KeyEvent, focused_id, new_focus, focus_began};
use crate::memory::Memory;
use crate::animation::AnimationManager;
use crate::interaction::{InteractionSnapshot, PointerEvent, PointerInput, WidgetHits, interact, interact_result};
use crate::hit_test::{hit_test, hit_test_result};
use crate::pass::{runs_another_pass, PlatformOutput, FullOutput, PassState, discard_requested, discard_granted, frame_passes_ok};
use crate::response::{Flags, Response};
use crate::widget_rect::{WidgetRect, layers_upto};
use crate::viewports::ViewportRegistry;
use crate::repaint::{repaint_began, repaint_requested, RepaintCause, RequestRepaintInfo, ViewportId, ViewportRepaintInfo, NO_REPAINT};

verus! {

broadcast use vstd::std_specs::hash::group_hash_axioms;

/// Options that the embedding application may change.
#[derive(Clone, Copy, Debug, PartialEq, Eq, Structural)]
pub struct Options {
    /// The most passes run per frame; at least 1 (1: strict single pass).
    pub max_passes: usize,
    /// Report identifiers used by two different widgets in one pass.
    pub warn_on_id_clash: bool,
    /// How far from a widget the pointer still hits it, in points.
    pub interact_radius: i64,
}

impl Options {
    pub fn new() -> (r: Options)
        ensures
            r.max_passes == 2,
            r.warn_on_id_clash,
            r.interact_radius == 5,
    {
        Options { max_passes: 2, warn_on_id_clash: true, interact_radius: 5 }
    }
}

impl Default for Options {
    fn default() -> (r: Options)
        ensures
            r.max_passes == 2,
            r.warn_on_id_clash,
            r.interact_radius == 5,
    {
        Options::new()
    }
}

/// The input of one pass, as plain values. Times are in microseconds.
pub struct RawInput {
    /// The time now.
    pub time: u64,
    /// The predicted duration of the next frame.
    pub predicted_dt: u64,
    /// The duration of a frame when frames run steadily.
    pub stable_dt: u64,
    /// The area of the screen available to the UI.
    pub screen_rect: Rect,
    /// Key events, in order.
    pub keys: Vec<KeyEvent>,
    /// What the pointer did.
    pub pointer: PointerInput,
    /// Where the pointer interacts, if anywhere.
    pub pointer_pos: Option<Pos2>,
}

impl RawInput {
    /// No events, at time zero.
    pub fn new(screen_rect: Rect) -> (r: RawInput)
        ensures
            r.time == 0,
            r.keys@.len() == 0,
            r.pointer.events@.len() == 0,
            r.pointer_pos.is_none(),
            r.screen_rect == screen_rect,
    {
        RawInput {
            time: 0,
            predicted_dt: 16_666,
            stable_dt: 16_666,
            screen_rect,
            keys: Vec::new(),
            pointer: PointerInput {
                events: Vec::new(),
                is_decidedly_dragging: false,
                could_any_button_be_click: false,
                any_down: false,
                has_pos: false,
                is_long_touch: false,
            },
            pointer_pos: None,
        }
    }

    /// The input for a repeated pass of the same frame: the same state, with
    /// the events already consumed.
    pub fn for_next_pass(&self) -> (r: RawInput)
        ensures
            r.time == self.time,
            r.keys@.len() == 0,
            r.pointer.events@.len() == 0,
            r.pointer_pos == self.pointer_pos,
            r.screen_rect == self.screen_rect,
    {
        RawInput {
            time: self.time,
            predicted_dt: self.predicted_dt,
            stable_dt: self.stable_dt,
            screen_rect: self.screen_rect,
            keys: Vec::new(),
            pointer: PointerInput {
                events: Vec::new(),
                is_decidedly_dragging: self.pointer.is_decidedly_dragging,
                could_any_button_be_click: self.pointer.could_any_button_be_click,
                any_down: self.pointer.any_down,
                has_pos: self.pointer.has_pos,
                is_long_touch: self.pointer.is_long_touch,
            },
            pointer_pos: self.pointer_pos,
        }
    }
}

/// The state of the viewport: the two generations of pass state, repaint
/// scheduling, this pass's interactions and output.
pub struct ViewportState {
    /// State collected during this pass.
    pub this_pass: PassState,
    /// The final state of the previous pass; only read from.
    pub prev_pass: PassState,
    /// Repaint scheduling.
    pub repaint: ViewportRepaintInfo,
    /// Widgets under the pointer, found at the start of the pass.
    pub hits: WidgetHits,
    /// This pass's interactions, found at the start of the pass.
    pub interact_widgets: InteractionSnapshot,
    /// The output of this pass so far.
    pub output: PlatformOutput,
    /// Frames in a row that ran more than one pass.
    pub num_multipass_in_row: usize,
}

fn empty_snapshot() -> (r: InteractionSnapshot)
    ensures
        r.clicked.is_none() && r.long_touched.is_none() && r.drag_started.is_none() && r.dragged.is_none()
            && r.drag_stopped.is_none(),
{
    InteractionSnapshot {
        clicked: None,
        long_touched: None,
        drag_started: None,
        dragged: None,
        drag_stopped: None,
        contains_pointer: Vec::new(),
        hovered: Vec::new(),
    }
}

fn no_hits() -> (r: WidgetHits)
    ensures
        r.click.is_none() && r.drag.is_none() && r.contains_pointer@.len() == 0 && r.close@.len() == 0,
{
    WidgetHits { click: None, drag: None, contains_pointer: Vec::new(), close: Vec::new() }
}

/// How two uses of one identifier in a pass clash.
#[derive(Clone, Copy, Debug, PartialEq, Eq, Structural)]
pub enum IdClash {
    /// No clash: first use, the same rectangle again, or warnings are off.
    NoClash,
    /// Used twice at nearly the same place: show one warning at `rect`.
    DoubleUse { rect: Rect },
    /// Used at two different places: show a warning at each.
    FirstAndSecondUse { first: Rect, second: Rect },
}

/// Was `k` pressed among `keys`?
pub open spec fn key_pressed(keys: Seq<KeyEvent>, k: Key) -> bool {
    exists|i: int| 0 <= i < keys.len() && (#[trigger] keys[i]).key == k && keys[i].pressed
}

pub open spec fn any_press(ev: Seq<PointerEvent>) -> bool {
    exists|i: int| 0 <= i < ev.len() && #[trigger] ev[i] == PointerEvent::Pressed
}

pub open spec fn any_release(ev: Seq<PointerEvent>) -> bool {
    exists|i: int| 0 <= i < ev.len() && (#[trigger] ev[i] is Released)
}

pub open spec fn any_click_release(ev: Seq<PointerEvent>) -> bool {
    exists|i: int| 0 <= i < ev.len() && #[trigger] ev[i] == (PointerEvent::Released { click: true })
}

fn key_was_pressed(keys: &Vec<KeyEvent>, k: Key) -> (r: bool)
    ensures
        r == key_pressed(keys@, k),
{
    let mut i: usize = 0;
    while i < keys.len()
        invariant
            i <= keys@.len(),
            forall|j: int| 0 <= j < i ==> !((#[trigger] keys@[j]).key == k && keys@[j].pressed),
        decreases keys@.len() - i,
    {
        if keys[i].key == k && keys[i].pressed {
            return true;
        }
        i = i + 1;
    }
    false
}

/// Which kinds of pointer event occur: a press, a release, a release that
/// completes a click.
fn pointer_event_kinds(ev: &Vec<PointerEvent>) -> (r: (bool, bool, bool))
    ensures
        r.0 == any_press(ev@),
        r.1 == any_release(ev@),
        r.2 == any_click_release(ev@),
{
    let mut press = false;
    let mut release = false;
    let mut click = false;
    let mut i: usize = 0;
    while i < ev.len()
        invariant
            i <= ev@.len(),
            press == exists|j: int| 0 <= j < i && #[trigger] ev@[j] == PointerEvent::Pressed,
            release == exists|j: int| 0 <= j < i && (#[trigger] ev@[j] is Released),
            click == exists|j: int| 0 <= j < i && #[trigger] ev@[j] == (PointerEvent::Released { click: true }),
        decreases ev@.len() - i,
    {
        match ev[i] {
            PointerEvent::Moved => {},
            PointerEvent::Pressed => { press = true; },
            PointerEvent::Released { click: c } => {
                release = true;
                if c {
                    click = true;
                }
            },
        }
        i = i + 1;
    }
    (press, release, click)
}

fn has_id(v: &Vec<Id>, id: Id) -> (r: bool)
    ensures
        r == v@.contains(id),
{
    let mut i: usize = 0;
    while i < v.len()
        invariant
            i <= v@.len(),
            forall|j: int| 0 <= j < i ==> v@[j] != id,
        decreases v@.len() - i,
    {
        if v[i] == id {
            return true;
        }
        i = i + 1;
    }
    false
}

/// The flags of a widget's response, before the focus is given up on a press
/// elsewhere.
pub open spec fn response_flags(w: WidgetRect, ctx: &ContextImpl) -> Flags {
    let id = w.id;
    let snap = ctx.snapshot_view();
    let ev = ctx.input_view().pointer.events@;
    let enabled = w.enabled;
    let inter = ctx.memory_view().interaction;
    let focused = focused_id(ctx.memory_view().focus.focused_widget) == Some(id);
    let release = any_release(ev);
    let clicked_snap = snap.clicked == Some(id);
    let long_touched = enabled && w.sense.click && snap.long_touched == Some(id);
    let down_on = (inter.potential_click_id == Some(id) || inter.potential_drag_id == Some(id)) && !release;
    let drag_stopped = enabled && snap.drag_stopped == Some(id);
    let interacted = down_on || long_touched || clicked_snap || drag_stopped;
    Flags {
        enabled,
        contains_pointer: snap.contains_pointer@.contains(id),
        highlighted: ctx.highlighted_view().contains(id),
        hovered: enabled && snap.hovered@.contains(id) && !(ctx.input_view().pointer.any_down && !interacted),
        clicked: enabled && w.sense.click && clicked_snap && any_click_release(ev),
        fake_primary_clicked: enabled && w.sense.click && focused
            && (key_pressed(ctx.input_view().keys@, Key::Space) || key_pressed(ctx.input_view().keys@, Key::Enter)),
        long_touched,
        is_pointer_button_down_on: down_on,
        dragged: enabled && snap.dragged == Some(id) && !release,
        drag_started: enabled && snap.drag_started == Some(id),
        drag_stopped,
        changed: false,
        close: false,
    }
}

/// How a use of `id` at `new_rect` clashes with the uses recorded so far
/// this pass: nearly the same rectangle is no clash; a corner within 4 points
/// is a double use; else a first and second use.
pub open spec fn clash_of(prev: Map<u64, Rect>, warn: bool, id: Id, new_rect: Rect) -> IdClash {
    if !warn || !prev.contains_key(id.0) {
        IdClash::NoClash
    } else {
        let p = prev[id.0];
        if crate::geometry::rect_contains_rect(p, new_rect) || crate::geometry::rect_contains_rect(new_rect, p) {
            IdClash::NoClash
        } else if crate::geometry::dist_sq(p.min, new_rect.min) < 16 {
            IdClash::DoubleUse { rect: new_rect }
        } else {
            IdClash::FirstAndSecondUse { first: p, second: new_rect }
        }
    }
}

/// Does the widget declare interest in focus: enabled, focusable, on a layer
/// that allows interaction?
pub open spec fn wants_focus(o: &ContextImpl, w: WidgetRect) -> bool {
    w.enabled && w.sense.focusable && w.layer_id.order != Order::Debug
        && crate::memory::above_modal(o.memory_view().areas.ranking(), o.memory_view().focus.top_modal_layer, w.layer_id)
}

/// The widget with this identifier, from this pass or else the previous one;
/// a rectangle not laid out yet (not positive) is taken from the previous pass.
pub open spec fn read_widget_spec(c: &ContextImpl, id: Id) -> Option<WidgetRect> {
    let cur = c.this_widgets();
    let prev = c.prev_widgets();
    if cur.contains_key(id.0) {
        let w = cur[id.0];
        if w.rect.min.x < w.rect.max.x && w.rect.min.y < w.rect.max.y {
            Some(w)
        } else if prev.contains_key(id.0) {
            Some(WidgetRect { rect: prev[id.0].rect, ..w })
        } else {
            Some(w)
        }
    } else if prev.contains_key(id.0) {
        Some(prev[id.0])
    } else {
        None
    }
}

/// The widget of a response, registered again with more senses.
pub open spec fn sensed_more(r: Response, sense: crate::widget_rect::Sense) -> WidgetRect {
    WidgetRect {
        id: r.id,
        layer_id: r.layer_id,
        rect: r.rect,
        interact_rect: r.interact_rect,
        sense: crate::widget_rect::Sense {
            click: r.sense.click || sense.click,
            drag: r.sense.drag || sense.drag,
            focusable: r.sense.focusable || sense.focusable,
        },
        enabled: r.flags.enabled,
    }
}

/// The registration of a widget, from `o` to `n`: the registry takes it
/// (merged if known), focus interest is declared or focus given up, and an
/// interactive or focusable widget's identifier use is recorded and checked.
pub open spec fn widget_registered(o: &ContextImpl, n: &ContextImpl, w: WidgetRect, allow_focus: bool, clash: IdClash) -> bool {
    let interactive = w.sense.click || w.sense.drag || w.sense.focusable;
    &&& n.this_widgets() == (if o.this_widgets().contains_key(w.id.0) {
        o.this_widgets().insert(w.id.0, crate::widget_rect::merged(o.this_widgets()[w.id.0], w))
    } else {
        o.this_widgets().insert(w.id.0, w)
    })
    &&& (allow_focus && wants_focus(o, w) ==> crate::focus::focus_interest(o.memory_view().focus, n.memory_view().focus, w.id))
    &&& (allow_focus && !wants_focus(o, w) ==> n.memory_view().focus == (crate::focus::Focus {
        focused_widget: if focused_id(o.memory_view().focus.focused_widget) == Some(w.id) {
            None
        } else {
            o.memory_view().focus.focused_widget
        },
        ..o.memory_view().focus
    }))
    &&& (!allow_focus ==> n.memory_view().focus == o.memory_view().focus)
    &&& (interactive ==> n.used_ids_view() == o.used_ids_view().insert(w.id.0, w.rect)
        && clash == clash_of(o.used_ids_view(), o.options_view().warn_on_id_clash, w.id, w.rect))
    &&& (!interactive ==> n.used_ids_view() == o.used_ids_view() && clash == IdClash::NoClash)
    &&& n.memory_view().areas == o.memory_view().areas
    &&& n.memory_view().interaction == o.memory_view().interaction
    &&& n.snapshot_view() == o.snapshot_view()
    &&& n.input_view() == o.input_view()
    &&& n.options_view() == o.options_view()
    &&& n.output_view() == o.output_view()
    &&& n.highlighted_view() == o.highlighted_view()
}

/// The response of a widget, from `o` to `n`: its flags, and a press
/// elsewhere takes focus from it.
pub open spec fn response_given(o: &ContextImpl, n: &ContextImpl, w: WidgetRect, r: Response) -> bool {
    &&& r.flags == response_flags(w, o)
    &&& r.id == w.id && r.layer_id == w.layer_id && r.rect == w.rect && r.interact_rect == w.interact_rect && r.sense == w.sense
    &&& r.interact_pointer_pos == (if r.flags.is_pointer_button_down_on || r.flags.long_touched
        || o.snapshot_view().clicked == Some(w.id) || r.flags.drag_stopped { o.input_view().pointer_pos } else { None })
    &&& (any_press(o.input_view().pointer.events@) && !r.flags.hovered ==> n.memory_view().focus.focused_widget
        == (if focused_id(o.memory_view().focus.focused_widget) == Some(w.id) { None } else { o.memory_view().focus.focused_widget }))
    &&& (!(any_press(o.input_view().pointer.events@) && !r.flags.hovered)
        ==> n.memory_view().focus.focused_widget == o.memory_view().focus.focused_widget)
    &&& n.memory_view().areas == o.memory_view().areas
    &&& n.output_view() == o.output_view()
    &&& n.options_view() == o.options_view()
    &&& n.used_ids_view() == o.used_ids_view()
    &&& n.this_widgets() == o.this_widgets()
}

/// All state of one UI: what is kept between frames, and the current pass.
pub struct ContextImpl {
    options: Options,
    memory: Memory,
    animation_manager: AnimationManager,
    viewport_id: ViewportId,
    viewport: ViewportState,
    input: RawInput,
    repaint_requests: Vec<RequestRepaintInfo>,
    direction_target: Option<Id>,
    viewports: ViewportRegistry,
}

impl ContextImpl {
    /// Options are valid, and each part is well formed.
    pub closed spec fn wf(&self) -> bool {
        &&& self.options.max_passes >= 1
        &&& self.memory.wf()
        &&& self.animation_manager.wf()
        &&& self.viewport.this_pass.widgets.wf()
        &&& self.viewport.prev_pass.widgets.wf()
        &&& self.viewports.wf()
    }

    pub closed spec fn options_view(&self) -> Options {
        self.options
    }

    pub closed spec fn memory_view(&self) -> &Memory {
        &self.memory
    }

    pub closed spec fn output_view(&self) -> &PlatformOutput {
        &self.viewport.output
    }

    pub closed spec fn repaint_view(&self) -> &ViewportRepaintInfo {
        &self.viewport.repaint
    }

    pub closed spec fn snapshot_view(&self) -> &InteractionSnapshot {
        &self.viewport.interact_widgets
    }

    pub closed spec fn input_view(&self) -> &RawInput {
        &self.input
    }

    pub closed spec fn used_ids_view(&self) -> Map<u64, Rect> {
        self.viewport.this_pass.used_ids@
    }

    pub closed spec fn this_widgets(&self) -> Map<u64, WidgetRect> {
        self.viewport.this_pass.widgets.id_map()
    }

    pub closed spec fn prev_widgets(&self) -> Map<u64, WidgetRect> {
        self.viewport.prev_pass.widgets.id_map()
    }

    /// The widgets asked to look highlighted in this pass (by the previous one).
    pub closed spec fn highlighted_view(&self) -> Seq<Id> {
        self.viewport.prev_pass.highlight_next_pass@
    }

    pub closed spec fn hits_view(&self) -> WidgetHits {
        self.viewport.hits
    }

    pub closed spec fn this_widgets_seq(&self) -> Seq<WidgetRect> {
        self.viewport.this_pass.widgets.widgets()
    }

    pub closed spec fn prev_widgets_seq(&self) -> Seq<WidgetRect> {
        self.viewport.prev_pass.widgets.widgets()
    }

    pub closed spec fn prev_used_ids_view(&self) -> Map<u64, Rect> {
        self.viewport.prev_pass.used_ids@
    }

    /// The widgets asked this pass to look highlighted next pass.
    pub closed spec fn highlight_requests(&self) -> Seq<Id> {
        self.viewport.this_pass.highlight_next_pass@
    }

    /// Where an arrow key should move focus at the end of this pass.
    pub closed spec fn direction_target_view(&self) -> Option<Id> {
        self.direction_target
    }

    /// The repaint requests not yet handed to the application.
    pub closed spec fn repaint_requests_view(&self) -> Seq<RequestRepaintInfo> {
        self.repaint_requests@
    }

    pub closed spec fn anim_bools(&self) -> Map<u64, crate::animation::BoolAnim> {
        self.animation_manager.bools_view()
    }

    pub closed spec fn anim_values(&self) -> Map<u64, crate::animation::ValueAnim> {
        self.animation_manager.values_view()
    }

    /// This context's viewport.
    pub closed spec fn viewport_id_view(&self) -> ViewportId {
        self.viewport_id
    }

    /// The known viewports besides the root.
    pub closed spec fn viewports_view(&self) -> Seq<crate::viewports::ViewportEntry> {
        self.viewports.view()
    }

    pub closed spec fn multipass_in_row(&self) -> usize {
        self.viewport.num_multipass_in_row
    }

    /// A fresh context for the viewport `viewport_id`, with default options.
    pub fn new(viewport_id: ViewportId, screen_rect: Rect) -> (r: ContextImpl)
        ensures
            r.wf(),
            r.options_view() == (Options { max_passes: 2, warn_on_id_clash: true, interact_radius: 5 }),
            r.output_view().num_completed_passes == 0,
            !discard_requested(r.output_view()),
            focused_id(r.memory_view().focus.focused_widget).is_none(),
    {
        ContextImpl {
            options: Options::new(),
            memory: Memory::new(),
            animation_manager: AnimationManager::new(),
            viewport_id,
            viewport: ViewportState {
                this_pass: PassState::new(),
                prev_pass: PassState::new(),
                repaint: ViewportRepaintInfo::new(),
                hits: no_hits(),
                interact_widgets: empty_snapshot(),
                output: PlatformOutput::new(),
                num_multipass_in_row: 0,
            },
            input: RawInput::new(screen_rect),
            repaint_requests: Vec::new(),
            direction_target: None,
            viewports: ViewportRegistry::new(),
        }
    }

    /// The options.
    pub fn options(&self) -> (r: Options)
        ensures
            r == self.options_view(),
    {
        self.options
    }

    /// Allow up to `max_passes` passes per frame.
    pub fn set_max_passes(&mut self, max_passes: usize)
        requires
            old(self).wf(),
            max_passes >= 1,
        ensures
            final(self).wf(),
            final(self).options_view() == (Options { max_passes, ..old(self).options_view() }),
            final(self).output_view() == old(self).output_view(),
    {
        self.options.max_passes = max_passes;
    }

    /// Turn identifier-clash warnings on or off.
    pub fn set_warn_on_id_clash(&mut self, value: bool)
        requires
            old(self).wf(),
        ensures
            final(self).wf(),
            final(self).options_view() == (Options { warn_on_id_clash: value, ..old(self).options_view() }),
    {
        self.options.warn_on_id_clash = value;
    }

    /// Read access to the memory.
    pub fn memory(&self) -> (r: &Memory)
        ensures
            r == self.memory_view(),
    {
        &self.memory
    }

    /// Read access to this pass's output so far.
    pub fn output(&self) -> (r: &PlatformOutput)
        ensures
            r == self.output_view(),
    {
        &self.viewport.output
    }

    /// The interactions of this pass.
    pub fn interaction_snapshot(&self) -> (r: &InteractionSnapshot)
        ensures
            r == self.snapshot_view(),
    {
        &self.viewport.interact_widgets
    }

    /// The start of a pass: the repaint schedule moves on, focus reads the
    /// keys, this pass's widget state starts empty, the pointer is hit-tested
    /// against the previous pass's widgets and its events resolved, and the
    /// background layer is registered over the screen.
    pub fn begin_pass(&mut self, new_input: RawInput)
        requires
            old(self).wf(),
        ensures
            final(self).wf(),
            ({
                let cands = layers_upto(old(self).prev_widgets_seq(), old(self).prev_widgets_seq().len());
                let layers = top_first_below(old(self).memory_view().areas.ranking(), cands, crate::layers::NUM_ORDERS as nat);
                match new_input.pointer_pos {
                    Some(pos) => hit_test_result(old(self).prev_widgets_seq(), layers, pos,
                        old(self).options_view().interact_radius as int, final(self).hits_view()),
                    None => final(self).hits_view().click.is_none() && final(self).hits_view().drag.is_none()
                        && final(self).hits_view().contains_pointer@.len() == 0 && final(self).hits_view().close@.len() == 0,
                }
            }),
            interact_result(*old(self).snapshot_view(), old(self).prev_widgets(), final(self).hits_view(), new_input.pointer,
                old(self).memory_view().interaction, final(self).memory_view().interaction, *final(self).snapshot_view()),
            focus_began(old(self).memory_view().focus, final(self).memory_view().focus, new_input.keys@),
            ({
                let r = if old(self).repaint_view().outstanding > 0 {
                    Some(RequestRepaintInfo { viewport_id: old(self).viewport_id_view(), delay: 0,
                        current_cumulative_pass_nr: old(self).repaint_view().cumulative_pass_nr })
                } else {
                    None::<RequestRepaintInfo>
                };
                &&& repaint_began(*old(self).repaint_view(), *final(self).repaint_view(), old(self).viewport_id_view(), r)
                &&& final(self).repaint_requests_view() == match r {
                    Some(info) => old(self).repaint_requests_view().push(info),
                    None => old(self).repaint_requests_view(),
                }
            }),
            final(self).used_ids_view() == Map::<u64, Rect>::empty(),
            final(self).this_widgets() == Map::<u64, WidgetRect>::empty(),
            final(self).highlight_requests().len() == 0,
            final(self).prev_widgets() == old(self).prev_widgets(),
            final(self).prev_widgets_seq() == old(self).prev_widgets_seq(),
            final(self).highlighted_view() == old(self).highlighted_view(),
            final(self).memory_view().areas.visible_current() == old(self).memory_view().areas.visible_current().insert(LayerId::background_spec()),
            final(self).memory_view().areas.visible_last() == old(self).memory_view().areas.visible_last(),
            final(self).memory_view().areas.ranking() == old(self).memory_view().areas.ranking(),
            final(self).memory_view().areas.area_map() == old(self).memory_view().areas.area_map().insert(
                LayerId::background_spec().id.0, AreaState { rect: new_input.screen_rect, interactable: true }),
            final(self).memory_view().popup == old(self).memory_view().popup,
            final(self).input_view() == new_input,
            final(self).options_view() == old(self).options_view(),
            final(self).output_view() == old(self).output_view(),
            final(self).multipass_in_row() == old(self).multipass_in_row(),
            final(self).direction_target_view() == old(self).direction_target_view(),
            final(self).anim_bools() == old(self).anim_bools(),
            final(self).anim_values() == old(self).anim_values(),
            final(self).viewports_view() == old(self).viewports_view(),
    {
        match self.viewport.repaint.begin_pass(self.viewport_id) {
            Some(info) => { self.repaint_requests.push(info); },
            None => {},
        }
        self.memory.begin_pass(&new_input.keys);
        self.viewport.this_pass = PassState::new();
        let cands = self.viewport.prev_pass.widgets.layer_ids();
        let layers = layers_top_first(&self.memory.areas, &cands);
        let hits = match new_input.pointer_pos {
            Some(pos) => hit_test(&self.viewport.prev_pass.widgets, &layers, pos, self.options.interact_radius),
            None => no_hits(),
        };
        let snapshot = interact(
            &self.viewport.interact_widgets,
            &self.viewport.prev_pass.widgets,
            &hits,
            &new_input.pointer,
            &mut self.memory.interaction,
        );
        self.viewport.hits = hits;
        self.viewport.interact_widgets = snapshot;
        self.memory.areas.set_state(LayerId::background(), AreaState { rect: new_input.screen_rect, interactable: true });
        self.input = new_input;
    }

    /// Ask for the focus to move to `target` at the end of this pass, after an
    /// arrow key (the geometric search runs outside this library).
    pub fn set_focus_direction_target(&mut self, target: Option<Id>)
        requires
            old(self).wf(),
        ensures
            final(self).wf(),
            final(self).direction_target_view() == target,
            final(self).output_view() == old(self).output_view(),
            final(self).options_view() == old(self).options_view(),
            final(self).memory_view() == old(self).memory_view(),
            final(self).input_view() == old(self).input_view(),
    {
        self.direction_target = target;
    }

    /// The end of a pass: the pass is counted, memory ends its pass (layer
    /// order, focus switch, popups), this pass's widget state becomes the
    /// previous one, and the output of the pass is handed over.
    pub fn end_pass(&mut self) -> (r: FullOutput)
        requires
            old(self).wf(),
        ensures
            final(self).wf(),
            r.platform_output.num_completed_passes == (if old(self).output_view().num_completed_passes < usize::MAX {
                old(self).output_view().num_completed_passes + 1
            } else {
                old(self).output_view().num_completed_passes as int
            }),
            r.platform_output.request_discard_reasons@ == old(self).output_view().request_discard_reasons@,
            final(self).output_view().num_completed_passes == 0,
            !discard_requested(final(self).output_view()),
            final(self).options_view() == old(self).options_view(),
            final(self).repaint_view().cumulative_pass_nr == (if old(self).repaint_view().cumulative_pass_nr < u64::MAX {
                old(self).repaint_view().cumulative_pass_nr + 1
            } else {
                old(self).repaint_view().cumulative_pass_nr as int
            }),
            final(self).memory_view().areas.visible_last() == old(self).memory_view().areas.visible_current(),
            r.repaint_delay == final(self).repaint_view().repaint_delay,
            final(self).multipass_in_row() == old(self).multipass_in_row(),
            crate::memory::memory_ended(*old(self).memory_view(), *final(self).memory_view(), old(self).used_ids_view(),
                old(self).direction_target_view()),
            final(self).prev_widgets() == old(self).this_widgets(),
            final(self).prev_widgets_seq() == old(self).this_widgets_seq(),
            final(self).prev_used_ids_view() == old(self).used_ids_view(),
            final(self).highlighted_view() == old(self).highlight_requests(),
            final(self).this_widgets() == old(self).prev_widgets(),
            final(self).direction_target_view().is_none(),
            final(self).viewports_view() == old(self).viewports_view().filter(
                crate::viewports::survives(old(self).viewports_view(), old(self).viewport_id_view())).map_values(
                crate::viewports::reset_child(old(self).viewport_id_view())),
            r.repaint_requests@ == old(self).repaint_requests_view(),
            final(self).repaint_requests_view().len() == 0,
            final(self).snapshot_view() == old(self).snapshot_view(),
            final(self).anim_bools() == old(self).anim_bools(),
            final(self).anim_values() == old(self).anim_values(),
            final(self).input_view() == old(self).input_view(),
            final(self).repaint_view().cumulative_frame_nr == old(self).repaint_view().cumulative_frame_nr,
    {
        self.viewport.repaint.cumulative_pass_nr = self.viewport.repaint.cumulative_pass_nr.saturating_add(1);
        let target = self.direction_target;
        self.direction_target = None;
        self.memory.end_pass(&self.viewport.this_pass.used_ids, target);
        let mut platform_output = PlatformOutput::new();
        std::mem::swap(&mut self.viewport.output, &mut platform_output);
        std::mem::swap(&mut self.viewport.prev_pass, &mut self.viewport.this_pass);
        platform_output.num_completed_passes = platform_output.num_completed_passes.saturating_add(1);
        self.viewports.end_pass(self.viewport_id);
        let mut requests: Vec<RequestRepaintInfo> = Vec::new();
        std::mem::swap(&mut self.repaint_requests, &mut requests);
        FullOutput { platform_output, repaint_delay: self.viewport.repaint.repaint_delay, repaint_requests: requests }
    }

    /// Ask for this pass's output to be discarded and the frame run again;
    /// granted only while the frame has room for another pass.
    pub fn request_discard(&mut self, cause: RepaintCause)
        requires
            old(self).wf(),
        ensures
            final(self).wf(),
            final(self).output_view().request_discard_reasons@ == old(self).output_view().request_discard_reasons@.push(cause),
            final(self).output_view().num_completed_passes == old(self).output_view().num_completed_passes,
            final(self).options_view() == old(self).options_view(),
            final(self).memory_view() == old(self).memory_view(),
    {
        self.viewport.output.request_discard_reasons.push(cause);
    }

    /// Will this pass's output be discarded? Then expensive painting can be
    /// skipped.
    pub fn will_discard(&self) -> (r: bool)
        ensures
            r == discard_granted(discard_requested(self.output_view()), self.output_view().num_completed_passes as int,
                self.options_view().max_passes as int),
    {
        self.viewport.output.requested_discard()
            && (self.viewport.output.num_completed_passes as u128) + 1 < self.options.max_passes as u128
    }

    /// Before each pass of a frame: the pass's output starts with the count
    /// of passes already run and no discard request.
    pub fn start_frame_pass(&mut self, passes: usize)
        requires
            old(self).wf(),
        ensures
            final(self).wf(),
            final(self).output_view().num_completed_passes == passes,
            !discard_requested(final(self).output_view()),
            final(self).options_view() == old(self).options_view(),
            final(self).memory_view() == old(self).memory_view(),
            final(self).repaint_view() == old(self).repaint_view(),
    {
        self.viewport.output.num_completed_passes = passes;
        self.viewport.output.request_discard_reasons = Vec::new();
    }

    /// After the last pass of a frame: count the frame, and the frames in a
    /// row that needed more than one pass.
    pub fn finish_frame(&mut self, passes: usize)
        requires
            old(self).wf(),
        ensures
            final(self).wf(),
            final(self).multipass_in_row() == (if passes > 1 {
                if old(self).multipass_in_row() < usize::MAX { old(self).multipass_in_row() + 1 } else { old(self).multipass_in_row() as int }
            } else {
                0
            }),
            final(self).repaint_view().cumulative_frame_nr == (if old(self).repaint_view().cumulative_frame_nr < u64::MAX {
                old(self).repaint_view().cumulative_frame_nr + 1
            } else {
                old(self).repaint_view().cumulative_frame_nr as int
            }),
            final(self).options_view() == old(self).options_view(),
    {
        if passes > 1 {
            self.viewport.num_multipass_in_row = self.viewport.num_multipass_in_row.saturating_add(1);
        } else {
            self.viewport.num_multipass_in_row = 0;
        }
        self.viewport.repaint.cumulative_frame_nr = self.viewport.repaint.cumulative_frame_nr.saturating_add(1);
    }

    /// Ask for a repaint after `delay` microseconds (zero: at once, and once
    /// more after that). The smallest delay of a pass wins.
    pub fn request_repaint_after(&mut self, delay: u64, cause: RepaintCause)
        requires
            old(self).wf(),
        ensures
            final(self).wf(),
            ({
                let pdt = old(self).input_view().predicted_dt;
                let d = if delay >= pdt { (delay - pdt) as u64 } else { 0u64 };
                let r = if d < old(self).repaint_view().repaint_delay {
                    Some(RequestRepaintInfo { viewport_id: old(self).viewport_id_view(), delay: d,
                        current_cumulative_pass_nr: old(self).repaint_view().cumulative_pass_nr })
                } else {
                    None::<RequestRepaintInfo>
                };
                &&& repaint_requested(*old(self).repaint_view(), *final(self).repaint_view(), delay, pdt,
                    old(self).viewport_id_view(), cause, r)
                &&& final(self).repaint_requests_view() == match r {
                    Some(info) => old(self).repaint_requests_view().push(info),
                    None => old(self).repaint_requests_view(),
                }
            }),
            final(self).output_view() == old(self).output_view(),
            final(self).options_view() == old(self).options_view(),
            final(self).memory_view() == old(self).memory_view(),
            final(self).input_view() == old(self).input_view(),
            final(self).anim_bools() == old(self).anim_bools(),
            final(self).anim_values() == old(self).anim_values(),
    {
        match self.viewport.repaint.request_repaint_after(delay, self.input.predicted_dt, self.viewport_id, cause) {
            Some(info) => { self.repaint_requests.push(info); },
            None => {},
        }
    }

    /// Ask for a repaint at once.
    pub fn request_repaint(&mut self, cause: RepaintCause)
        requires
            old(self).wf(),
        ensures
            final(self).wf(),
            ({
                let pdt = old(self).input_view().predicted_dt;
                let r = if 0 < old(self).repaint_view().repaint_delay {
                    Some(RequestRepaintInfo { viewport_id: old(self).viewport_id_view(), delay: 0,
                        current_cumulative_pass_nr: old(self).repaint_view().cumulative_pass_nr })
                } else {
                    None::<RequestRepaintInfo>
                };
                &&& repaint_requested(*old(self).repaint_view(), *final(self).repaint_view(), 0, pdt,
                    old(self).viewport_id_view(), cause, r)
                &&& final(self).repaint_requests_view() == match r {
                    Some(info) => old(self).repaint_requests_view().push(info),
                    None => old(self).repaint_requests_view(),
                }
            }),
            final(self).output_view() == old(self).output_view(),
            final(self).options_view() == old(self).options_view(),
            final(self).memory_view() == old(self).memory_view(),
            final(self).input_view() == old(self).input_view(),
            final(self).anim_bools() == old(self).anim_bools(),
            final(self).anim_values() == old(self).anim_values(),
    {
        self.request_repaint_after(0, cause);
    }

    /// The smallest repaint delay requested this pass, in microseconds.
    pub fn repaint_delay(&self) -> (r: u64)
        ensures
            r == self.repaint_view().repaint_delay,
    {
        self.viewport.repaint.repaint_delay
    }

    /// Is a repaint pending?
    pub fn has_requested_repaint(&self) -> (r: bool)
        ensures
            r == (0 < self.repaint_view().outstanding || self.repaint_view().repaint_delay < NO_REPAINT),
    {
        self.viewport.repaint.has_requested_repaint()
    }

    /// Did the previous pass ask for an immediate repaint?
    pub fn requested_repaint_last_pass(&self) -> (r: bool)
        ensures
            r == (self.repaint_view().prev_pass_paint_delay == 0),
    {
        self.viewport.repaint.requested_immediate_repaint_prev_pass()
    }

    /// The repaint requests not yet handed to the application.
    pub fn take_repaint_requests(&mut self) -> (r: Vec<RequestRepaintInfo>)
        requires
            old(self).wf(),
        ensures
            final(self).wf(),
            r@ == old(self).repaint_requests_view(),
            final(self).repaint_requests_view().len() == 0,
            final(self).repaint_view() == old(self).repaint_view(),
            final(self).output_view() == old(self).output_view(),
            final(self).options_view() == old(self).options_view(),
            final(self).memory_view() == old(self).memory_view(),
            final(self).input_view() == old(self).input_view(),
    {
        let mut requests: Vec<RequestRepaintInfo> = Vec::new();
        std::mem::swap(&mut self.repaint_requests, &mut requests);
        requests
    }

    /// Animate a bool towards `target` over `animation_time` microseconds;
    /// the progress is in `0..=ANIM_SCALE`. While it is between the ends, a
    /// repaint is requested, since nothing else would drive the animation.
    pub fn animate_bool_with_time(&mut self, id: Id, target: bool, animation_time: u64) -> (r: u64)
        requires
            old(self).wf(),
        ensures
            final(self).wf(),
            r <= crate::animation::ANIM_SCALE,
            ({
                let now = old(self).input_view().time;
                let sdt = old(self).input_view().stable_dt;
                let b = old(self).anim_bools();
                if b.contains_key(id.0) {
                    let a = b[id.0];
                    &&& r as int == crate::animation::bool_anim_step(a.last_value as int,
                        crate::animation::capped_elapsed(now as int, a.last_tick as int, sdt as int), animation_time as int, target)
                    &&& final(self).anim_bools() == b.insert(id.0, crate::animation::BoolAnim { last_value: r, last_tick: now })
                } else {
                    &&& r as int == crate::animation::bool_end(target)
                    &&& final(self).anim_bools() == b.insert(id.0, crate::animation::BoolAnim {
                        last_value: r, last_tick: if now >= sdt { (now - sdt) as u64 } else { 0 } })
                }
            }),
            final(self).anim_values() == old(self).anim_values(),
            0 < r < crate::animation::ANIM_SCALE ==> ({
                &&& final(self).repaint_view().repaint_delay == 0
                &&& final(self).repaint_view().outstanding == 1
                &&& final(self).repaint_view().causes@.len() == old(self).repaint_view().causes@.len() + 1
                &&& final(self).repaint_requests_view() == (if 0 < old(self).repaint_view().repaint_delay {
                    old(self).repaint_requests_view().push(RequestRepaintInfo { viewport_id: old(self).viewport_id_view(),
                        delay: 0, current_cumulative_pass_nr: old(self).repaint_view().cumulative_pass_nr })
                } else {
                    old(self).repaint_requests_view()
                })
            }),
            !(0 < r < crate::animation::ANIM_SCALE) ==> final(self).repaint_view() == old(self).repaint_view()
                && final(self).repaint_requests_view() == old(self).repaint_requests_view(),
            final(self).output_view() == old(self).output_view(),
            final(self).options_view() == old(self).options_view(),
            final(self).memory_view() == old(self).memory_view(),
            final(self).input_view() == old(self).input_view(),
    {
        let v = self.animation_manager.animate_bool(self.input.time, self.input.stable_dt, animation_time, id, target);
        if 0 < v && v < crate::animation::ANIM_SCALE {
            self.request_repaint(RepaintCause::new_reason("animation", 0, "bool animation in progress"));
        }
        v
    }

    /// Animate a value towards `target` over `animation_time` microseconds,
    /// requesting a repaint while it has not arrived.
    pub fn animate_value_with_time(&mut self, id: Id, target: i64, animation_time: u64) -> (r: i64)
        requires
            old(self).wf(),
        ensures
            final(self).wf(),
            ({
                let now = old(self).input_view().time;
                let pdt = old(self).input_view().predicted_dt;
                let vs = old(self).anim_values();
                if vs.contains_key(id.0) {
                    let a = vs[id.0];
                    let pos = crate::animation::value_anim_position(a, now as int, pdt as int, animation_time as int);
                    let from = if a.to_value != target { pos as i64 } else { a.from_value };
                    let toggled = if a.to_value != target { Some(now) } else { a.toggle_time };
                    &&& r as int == (if animation_time == 0 { target as int } else { pos })
                    &&& final(self).anim_values() == vs.insert(id.0, if animation_time == 0 {
                        crate::animation::ValueAnim { from_value: target, to_value: target, toggle_time: toggled }
                    } else {
                        crate::animation::ValueAnim { from_value: from, to_value: target, toggle_time: toggled }
                    })
                } else {
                    &&& r == target
                    &&& final(self).anim_values() == vs.insert(id.0,
                        crate::animation::ValueAnim { from_value: target, to_value: target, toggle_time: None })
                }
            }),
            final(self).anim_bools() == old(self).anim_bools(),
            r != target ==> ({
                &&& final(self).repaint_view().repaint_delay == 0
                &&& final(self).repaint_view().outstanding == 1
                &&& final(self).repaint_view().causes@.len() == old(self).repaint_view().causes@.len() + 1
                &&& final(self).repaint_requests_view() == (if 0 < old(self).repaint_view().repaint_delay {
                    old(self).repaint_requests_view().push(RequestRepaintInfo { viewport_id: old(self).viewport_id_view(),
                        delay: 0, current_cumulative_pass_nr: old(self).repaint_view().cumulative_pass_nr })
                } else {
                    old(self).repaint_requests_view()
                })
            }),
            r == target ==> final(self).repaint_view() == old(self).repaint_view()
                && final(self).repaint_requests_view() == old(self).repaint_requests_view(),
            final(self).output_view() == old(self).output_view(),
            final(self).options_view() == old(self).options_view(),
            final(self).memory_view() == old(self).memory_view(),
            final(self).input_view() == old(self).input_view(),
    {
        let v = self.animation_manager.animate_value(self.input.time, self.input.predicted_dt, animation_time, id, target);
        if v != target {
            self.request_repaint(RepaintCause::new_reason("animation", 0, "value animation in progress"));
        }
        v
    }

    /// Forget all animation state.
    pub fn clear_animations(&mut self)
        requires
            old(self).wf(),
        ensures
            final(self).wf(),
            final(self).anim_bools() == Map::<u64, crate::animation::BoolAnim>::empty(),
            final(self).anim_values() == Map::<u64, crate::animation::ValueAnim>::empty(),
            final(self).output_view() == old(self).output_view(),
            final(self).options_view() == old(self).options_view(),
            final(self).memory_view() == old(self).memory_view(),
            final(self).input_view() == old(self).input_view(),
    {
        self.animation_manager.clear();
    }

    /// Record a use of `id` at `new_rect` and report whether it clashes with
    /// an earlier use this pass: nearly the same rectangle is no clash; a
    /// corner within 4 points is a double use; else a first and second use.
    pub fn check_for_id_clash(&mut self, id: Id, new_rect: Rect) -> (r: IdClash)
        requires
            old(self).wf(),
        ensures
            final(self).wf(),
            final(self).used_ids_view() == old(self).used_ids_view().insert(id.0, new_rect),
            r == clash_of(old(self).used_ids_view(), old(self).options_view().warn_on_id_clash, id, new_rect),
            final(self).memory_view() == old(self).memory_view(),
            final(self).output_view() == old(self).output_view(),
            final(self).options_view() == old(self).options_view(),
            final(self).input_view() == old(self).input_view(),
            final(self).snapshot_view() == old(self).snapshot_view(),
            final(self).this_widgets() == old(self).this_widgets(),
            final(self).highlighted_view() == old(self).highlighted_view(),
    {
        let prev = self.viewport.this_pass.used_ids.insert(id.0, new_rect);
        if !self.options.warn_on_id_clash {
            return IdClash::NoClash;
        }
        match prev {
            None => IdClash::NoClash,
            Some(p) => {
                if p.contains_rect(new_rect) || new_rect.contains_rect(p) {
                    IdClash::NoClash
                } else {
                    let dx = p.min.x as i128 - new_rect.min.x as i128;
                    let dy = p.min.y as i128 - new_rect.min.y as i128;
                    proof {
                        let dd = crate::geometry::dist_sq(p.min, new_rect.min);
                        assert(dd == dx * dx + dy * dy);
                        assert((dx <= -4 || dx >= 4) ==> dx * dx >= 16) by (nonlinear_arith);
                        assert((dy <= -4 || dy >= 4) ==> dy * dy >= 16) by (nonlinear_arith);
                        assert(0 <= dx * dx && 0 <= dy * dy) by (nonlinear_arith);
                        assert((-4 < dx < 4) ==> dx * dx < 16) by (nonlinear_arith);
                        assert((-4 < dy < 4) ==> dy * dy < 16) by (nonlinear_arith);
                    }
                    if -4 < dx && dx < 4 && -4 < dy && dy < 4 && dx * dx + dy * dy < 16 {
                        IdClash::DoubleUse { rect: new_rect }
                    } else {
                        IdClash::FirstAndSecondUse { first: p, second: new_rect }
                    }
                }
            },
        }
    }

    /// The response of a registered widget: its interactions this pass. A
    /// press elsewhere takes the focus from it.
    pub fn get_response(&mut self, w: WidgetRect) -> (r: Response)
        requires
            old(self).wf(),
        ensures
            final(self).wf(),
            response_given(old(self), final(self), w, r),
    {
        let id = w.id;
        let enabled = w.enabled;
        let (press, release, click_release) = pointer_event_kinds(&self.input.pointer.events);
        let focused = self.memory.has_focus(id);
        let contains_pointer = has_id(&self.viewport.interact_widgets.contains_pointer, id);
        let in_hovered = has_id(&self.viewport.interact_widgets.hovered, id);
        let highlighted = has_id(&self.viewport.prev_pass.highlight_next_pass, id);
        let snap = &self.viewport.interact_widgets;
        let clicked_snap = snap.clicked == Some(id);
        let long_touched = enabled && w.sense.click && snap.long_touched == Some(id);
        let inter = self.memory.interaction;
        let down_on = (inter.potential_click_id == Some(id) || inter.potential_drag_id == Some(id)) && !release;
        let drag_stopped = enabled && snap.drag_stopped == Some(id);
        let interacted = down_on || long_touched || clicked_snap || drag_stopped;
        let fake = enabled && w.sense.click && focused
            && (key_was_pressed(&self.input.keys, Key::Space) || key_was_pressed(&self.input.keys, Key::Enter));
        let flags = Flags {
            enabled,
            contains_pointer,
            hovered: enabled && in_hovered && !(self.input.pointer.any_down && !interacted),
            highlighted,
            clicked: enabled && w.sense.click && clicked_snap && click_release,
            fake_primary_clicked: fake,
            long_touched,
            is_pointer_button_down_on: down_on,
            dragged: enabled && snap.dragged == Some(id) && !release,
            drag_started: enabled && snap.drag_started == Some(id),
            drag_stopped,
            changed: false,
            close: false,
        };
        let interact_pointer_pos = if interacted { self.input.pointer_pos } else { None };
        if press && !flags.hovered && focused {
            self.memory.surrender_focus(id);
        }
        Response {
            id,
            layer_id: w.layer_id,
            rect: w.rect,
            interact_rect: w.interact_rect,
            sense: w.sense,
            flags,
            interact_pointer_pos,
        }
    }

    /// Register a widget for this pass and resolve its interactions. A
    /// focusable, enabled widget on a layer that allows interaction declares
    /// interest in focus (when `allow_focus`); any other gives focus up. An
    /// interactive or focusable widget is checked for identifier clashes.
    pub fn create_widget(&mut self, w: WidgetRect, allow_focus: bool) -> (r: (Response, IdClash))
        requires
            old(self).wf(),
        ensures
            final(self).wf(),
            exists|mid: ContextImpl| #[trigger] widget_registered(old(self), &mid, w, allow_focus, r.1) && response_given(&mid, final(self), w, r.0),
            final(self).output_view() == old(self).output_view(),
            final(self).options_view() == old(self).options_view(),
    {
        let interested = w.enabled && w.sense.is_focusable() && self.memory.allows_interaction(w.layer_id);
        self.viewport.this_pass.widgets.insert(w);
        if allow_focus && interested {
            self.memory.interested_in_focus(w.id, w.layer_id);
        }
        if allow_focus && !interested {
            self.memory.surrender_focus(w.id);
        }
        let clash = if w.sense.click || w.sense.drag || w.sense.focusable {
            self.check_for_id_clash(w.id, w.rect)
        } else {
            IdClash::NoClash
        };
        let ghost mid = *self;
        let res = self.get_response(w);
        proof {
            assert(widget_registered(old(self), &mid, w, allow_focus, clash));
            assert(response_given(&mid, self, w, res));
            assert(widget_registered(old(self), &mid, w, allow_focus, (res, clash).1)
                && response_given(&mid, self, w, (res, clash).0));
        }
        (res, clash)
    }

    /// The widget with this identifier, from this pass or else the previous
    /// one; a rectangle not laid out yet is taken from the previous pass.
    pub fn read_widget(&self, id: Id) -> (r: Option<WidgetRect>)
        requires
            self.wf(),
        ensures
            r == read_widget_spec(self, id),
    {
        let cur = self.viewport.this_pass.widgets.get(id);
        let prev = self.viewport.prev_pass.widgets.get(id);
        match cur {
            Some(c) => {
                let laid_out = c.rect.min.x < c.rect.max.x && c.rect.min.y < c.rect.max.y;
                if !laid_out {
                    match prev {
                        Some(p) => Some(WidgetRect { rect: p.rect, ..c }),
                        None => Some(c),
                    }
                } else {
                    Some(c)
                }
            },
            None => prev,
        }
    }

    /// The response of a widget that may not be registered yet this pass
    /// (interaction works on the previous pass's rectangles).
    pub fn read_response(&mut self, id: Id) -> (r: Option<Response>)
        requires
            old(self).wf(),
        ensures
            final(self).wf(),
            match read_widget_spec(old(self), id) {
                Some(w) => r.is_some() && response_given(old(self), final(self), w, r.unwrap()),
                None => r.is_none() && *final(self) == *old(self),
            },
            final(self).output_view() == old(self).output_view(),
    {
        match self.read_widget(id) {
            Some(w) => Some(self.get_response(w)),
            None => None,
        }
    }

    /// Was there a click this pass somewhere outside the widget of `r` (on
    /// another layer, or outside its rectangle)? Clicks that land on the
    /// widget count whether or not it senses clicks.
    pub fn clicked_elsewhere(&self, r: &Response) -> (b: bool)
        requires
            self.wf(),
        ensures
            b == (any_click_release(self.input_view().pointer.events@) && !r.flags.contains_pointer && !r.flags.hovered
                && match self.input_view().pointer_pos {
                    Some(p) => (match self.memory_view().areas.layer_id_at_spec(p) {
                        Some(l) => if crate::memory::above_modal(self.memory_view().areas.ranking(), self.memory_view().focus.top_modal_layer, l) {
                            Some(l)
                        } else {
                            self.memory_view().focus.top_modal_layer
                        },
                        None => None,
                    }) != Some(r.layer_id) || !crate::geometry::rect_contains(r.interact_rect, p),
                    None => false,
                }),
    {
        let (_, _, any_click) = pointer_event_kinds(&self.input.pointer.events);
        if !any_click || r.flags.contains_pointer || r.flags.hovered {
            return false;
        }
        match self.input.pointer_pos {
            Some(p) => {
                let under = self.layer_id_at(p);
                let same = match under {
                    Some(l) => l == r.layer_id,
                    None => false,
                };
                if !same {
                    true
                } else {
                    !r.interact_rect.contains(p)
                }
            },
            None => false,
        }
    }

    /// Sense more for an existing widget: re-register it with the union of
    /// senses, unless it already senses all of `sense`.
    pub fn interact(&mut self, r: &Response, sense: crate::widget_rect::Sense) -> (out: Response)
        requires
            old(self).wf(),
        ensures
            final(self).wf(),
            out.id == r.id,
            final(self).output_view() == old(self).output_view(),
            (r.sense.click || !sense.click) && (r.sense.drag || !sense.drag) && (r.sense.focusable || !sense.focusable)
                ==> out == *r && *final(self) == *old(self),
            !((r.sense.click || !sense.click) && (r.sense.drag || !sense.drag) && (r.sense.focusable || !sense.focusable))
                ==> exists|mid: ContextImpl, c: IdClash| #[trigger] widget_registered(old(self), &mid, sensed_more(*r, sense), true, c)
                    && response_given(&mid, final(self), sensed_more(*r, sense), out),
    {
        let merged = r.sense.union(sense);
        if merged == r.sense {
            return *r;
        }
        let w = WidgetRect {
            id: r.id,
            layer_id: r.layer_id,
            rect: r.rect,
            interact_rect: r.interact_rect,
            sense: merged,
            enabled: r.flags.enabled,
        };
        let (res, _) = self.create_widget(w, true);
        proof {
            assert(w == sensed_more(*r, sense));
        }
        res
    }

    /// Move the layer to the top of its order class at the end of the pass.
    pub fn move_to_top(&mut self, layer_id: LayerId)
        requires
            old(self).wf(),
        ensures
            final(self).wf(),
            final(self).memory_view().areas.top_requests() == (if old(self).memory_view().areas.top_requests().contains(layer_id) {
                old(self).memory_view().areas.top_requests()
            } else {
                old(self).memory_view().areas.top_requests().push(layer_id)
            }),
            final(self).memory_view().areas.visible_current() == old(self).memory_view().areas.visible_current().insert(layer_id),
            final(self).output_view() == old(self).output_view(),
    {
        self.memory.areas.move_to_top(layer_id);
    }

    /// Mark `child` as a sublayer of `parent` (same order class).
    pub fn set_sublayer(&mut self, parent: LayerId, child: LayerId)
        requires
            old(self).wf(),
            parent.order == child.order,
            parent != child,
        ensures
            final(self).wf(),
            final(self).memory_view().areas.sublayer_groups()
                == crate::areas::with_sublayer(old(self).memory_view().areas.sublayer_groups(), parent, child),
            final(self).output_view() == old(self).output_view(),
    {
        self.memory.areas.set_sublayer(parent, child);
    }

    /// The top-most layer at `pos`, respecting the modal layer.
    pub fn layer_id_at(&self, pos: Pos2) -> (r: Option<LayerId>)
        requires
            self.wf(),
        ensures
            r == (match self.memory_view().areas.layer_id_at_spec(pos) {
                Some(l) => if crate::memory::above_modal(self.memory_view().areas.ranking(), self.memory_view().focus.top_modal_layer, l) {
                    Some(l)
                } else {
                    self.memory_view().focus.top_modal_layer
                },
                None => None,
            }),
    {
        self.memory.layer_id_at(pos)
    }

    /// Does `rect` on `layer_id` contain the pointer, with no other layer
    /// covering it there?
    pub fn rect_contains_pointer(&self, layer_id: LayerId, rect: Rect) -> (r: bool)
        requires
            self.wf(),
        ensures
            r == (rect.min.x < rect.max.x && rect.min.y < rect.max.y && match self.input_view().pointer_pos {
                Some(p) => crate::geometry::rect_contains(rect, p) && (match self.memory_view().areas.layer_id_at_spec(p) {
                    Some(l) => if crate::memory::above_modal(self.memory_view().areas.ranking(), self.memory_view().focus.top_modal_layer, l) {
                        Some(l)
                    } else {
                        self.memory_view().focus.top_modal_layer
                    },
                    None => None,
                }) == Some(layer_id),
                None => false,
            }),
    {
        if !rect.is_positive() {
            return false;
        }
        match self.input.pointer_pos {
            Some(p) => {
                if !rect.contains(p) {
                    return false;
                }
                match self.layer_id_at(p) {
                    Some(l) => l == layer_id,
                    None => false,
                }
            },
            None => false,
        }
    }

    /// Show the widget highlighted (as if hovered) from the next pass on.
    pub fn highlight_widget(&mut self, id: Id)
        requires
            old(self).wf(),
        ensures
            final(self).wf(),
            final(self).highlighted_view() == old(self).highlighted_view(),
            final(self).highlight_requests() == old(self).highlight_requests().push(id),
            final(self).output_view() == old(self).output_view(),
            final(self).memory_view() == old(self).memory_view(),
    {
        self.viewport.this_pass.highlight_next_pass.push(id);
    }

    /// What asked for repaints in the previous pass.
    pub fn repaint_causes(&self) -> (r: Vec<RepaintCause>)
        ensures
            r@.len() == self.repaint_view().prev_causes@.len(),
            forall|i: int| 0 <= i < r@.len() ==> (#[trigger] r@[i]).reason@ == self.repaint_view().prev_causes@[i].reason@
                && r@[i].file@ == self.repaint_view().prev_causes@[i].file@ && r@[i].line == self.repaint_view().prev_causes@[i].line,
    {
        let src = &self.viewport.repaint.prev_causes;
        let mut r: Vec<RepaintCause> = Vec::new();
        let mut i: usize = 0;
        while i < src.len()
            invariant
                i <= src@.len(),
                r@.len() == i,
                forall|j: int| 0 <= j < i ==> (#[trigger] r@[j]).reason@ == src@[j].reason@
                    && r@[j].file@ == src@[j].file@ && r@[j].line == src@[j].line,
            decreases src@.len() - i,
        {
            let c = &src[i];
            r.push(RepaintCause::new_reason(c.file.as_str(), c.line, c.reason.as_str()));
            i = i + 1;
        }
        r
    }

    /// The top-most window layer.
    pub fn top_layer_id(&self) -> (r: Option<LayerId>)
        ensures
            ({
                let a = self.memory_view().areas;
                let f = a.order_view().filter(crate::areas::top_candidates(a.sublayer_groups(), Order::Middle));
                r == if f.len() > 0 { Some(f.last()) } else { None::<LayerId> }
            }),
    {
        self.memory.areas.top_layer_id(Order::Middle)
    }

    /// Is the pointer held on a widget?
    pub fn is_using_pointer(&self) -> (r: bool)
        ensures
            r == (self.memory_view().interaction.potential_click_id.is_some() || self.memory_view().interaction.potential_drag_id.is_some()),
    {
        self.memory.interaction.is_using_pointer()
    }

    /// Is a widget taking keyboard input?
    pub fn wants_keyboard_input(&self) -> (r: bool)
        ensures
            r == focused_id(self.memory_view().focus.focused_widget).is_some(),
    {
        self.memory.focused().is_some()
    }

    /// The widget being dragged.
    pub fn dragged_id(&self) -> (r: Option<Id>)
        ensures
            r == self.snapshot_view().dragged,
    {
        self.viewport.interact_widgets.dragged
    }

    /// Is this widget being dragged?
    pub fn is_being_dragged(&self, id: Id) -> (r: bool)
        ensures
            r == (self.snapshot_view().dragged == Some(id)),
    {
        self.viewport.interact_widgets.dragged == Some(id)
    }

    /// The widget whose drag started this pass.
    pub fn drag_started_id(&self) -> (r: Option<Id>)
        ensures
            r == self.snapshot_view().drag_started,
    {
        self.viewport.interact_widgets.drag_started
    }

    /// The widget whose drag stopped this pass.
    pub fn drag_stopped_id(&self) -> (r: Option<Id>)
        ensures
            r == self.snapshot_view().drag_stopped,
    {
        self.viewport.interact_widgets.drag_stopped
    }

    /// Is a widget other than `not_this` being dragged?
    pub fn dragging_something_else(&self, not_this: Id) -> (r: bool)
        ensures
            r == (self.snapshot_view().dragged.is_some() && self.snapshot_view().dragged != Some(not_this)),
    {
        match self.viewport.interact_widgets.dragged {
            Some(d) => d != not_this,
            None => false,
        }
    }

    /// Make `id` the dragged widget; a drag in progress on another widget is
    /// reported stopped in the same pass.
    pub fn set_dragged_id(&mut self, id: Id)
        requires
            old(self).wf(),
        ensures
            final(self).wf(),
            final(self).snapshot_view().dragged == Some(id),
            old(self).snapshot_view().dragged != Some(id) ==> {
                &&& final(self).snapshot_view().drag_started == Some(id)
                &&& final(self).snapshot_view().drag_stopped
                    == crate::interaction::or_id(old(self).snapshot_view().dragged, old(self).snapshot_view().drag_stopped)
            },
            final(self).memory_view().interaction.potential_drag_id == Some(id),
            final(self).output_view() == old(self).output_view(),
    {
        crate::interaction::set_dragged_id(&mut self.viewport.interact_widgets, &mut self.memory.interaction, id);
    }

    /// Stop dragging; the dragged widget is reported stopped.
    pub fn stop_dragging(&mut self)
        requires
            old(self).wf(),
        ensures
            final(self).wf(),
            final(self).snapshot_view().dragged.is_none(),
            final(self).snapshot_view().drag_stopped
                == crate::interaction::or_id(old(self).snapshot_view().dragged, old(self).snapshot_view().drag_stopped),
            final(self).snapshot_view().drag_started == old(self).snapshot_view().drag_started,
            final(self).memory_view().interaction.potential_drag_id.is_none(),
            final(self).memory_view().interaction.potential_click_id == old(self).memory_view().interaction.potential_click_id,
            final(self).output_view() == old(self).output_view(),
    {
        crate::interaction::stop_dragging(&mut self.viewport.interact_widgets, &mut self.memory.interaction);
    }

    /// Does the widget have keyboard focus?
    pub fn has_focus(&self, id: Id) -> (r: bool)
        ensures
            r == (focused_id(self.memory_view().focus.focused_widget) == Some(id)),
    {
        self.memory.has_focus(id)
    }

    /// Give keyboard focus to the widget.
    pub fn request_focus(&mut self, id: Id)
        requires
            old(self).wf(),
        ensures
            final(self).wf(),
            final(self).memory_view().focus.focused_widget == Some(new_focus(id)),
            final(self).memory_view().focus.id_previous_frame == old(self).memory_view().focus.id_previous_frame,
            final(self).output_view() == old(self).output_view(),
    {
        self.memory.request_focus(id);
    }

    /// Give up focus, if the widget has it.
    pub fn surrender_focus(&mut self, id: Id)
        requires
            old(self).wf(),
        ensures
            final(self).wf(),
            focused_id(final(self).memory_view().focus.focused_widget) != Some(id),
            final(self).output_view() == old(self).output_view(),
    {
        self.memory.surrender_focus(id);
    }

    /// Limit interaction to this layer and those above it, from the next
    /// pass on.
    pub fn set_modal_layer(&mut self, layer_id: LayerId)
        requires
            old(self).wf(),
        ensures
            final(self).wf(),
            final(self).memory_view().focus == (crate::focus::Focus {
                top_modal_layer_current_frame: match old(self).memory_view().focus.top_modal_layer_current_frame {
                    Some(c) => if crate::areas::compare_layers(old(self).memory_view().areas.ranking(), layer_id, c)
                        == std::cmp::Ordering::Less { Some(c) } else { Some(layer_id) },
                    None => Some(layer_id),
                },
                ..old(self).memory_view().focus
            }),
            final(self).memory_view().areas == old(self).memory_view().areas,
            final(self).output_view() == old(self).output_view(),
    {
        self.memory.set_modal_layer(layer_id);
    }

    /// Register an area's state for this pass.
    pub fn set_area_state(&mut self, layer_id: LayerId, state: AreaState)
        requires
            old(self).wf(),
        ensures
            final(self).wf(),
            final(self).memory_view().areas.visible_current() == old(self).memory_view().areas.visible_current().insert(layer_id),
            final(self).memory_view().areas.area_map() == old(self).memory_view().areas.area_map().insert(layer_id.id.0, state),
            final(self).memory_view().areas.order_view() == (if old(self).memory_view().areas.order_view().contains(layer_id) {
                old(self).memory_view().areas.order_view()
            } else {
                old(self).memory_view().areas.order_view().push(layer_id)
            }),
            final(self).memory_view().areas.ranking() == old(self).memory_view().areas.ranking(),
            final(self).memory_view().focus == old(self).memory_view().focus,
            final(self).output_view() == old(self).output_view(),
    {
        self.memory.areas.set_state(layer_id, state);
    }

    /// After an arrow key, what the geometric search for the next focus needs:
    /// the direction, the focused widget, and the navigation candidates used
    /// this pass with their rectangles.
    pub fn direction_search(&self) -> (r: Option<(crate::focus::FocusDirection, Id, Vec<(Id, Rect)>)>)
        ensures
            ({
                let f = self.memory_view().focus;
                if crate::focus::is_cardinal_spec(f.focus_direction) && f.focused_widget.is_some() {
                    r.is_some() && r.unwrap().0 == f.focus_direction && r.unwrap().1 == f.focused_widget.unwrap().id
                        && r.unwrap().2@ == crate::focus::refreshed_cache(f.focus_widgets_cache@, self.used_ids_view(),
                            f.focus_widgets_cache@.len())
                } else {
                    r.is_none()
                }
            }),
    {
        let f = &self.memory.focus;
        if !f.focus_direction.is_cardinal() {
            return None;
        }
        match f.focused_widget {
            Some(w) => Some((f.focus_direction, w.id, f.refreshed_candidates(&self.viewport.this_pass.used_ids))),
            None => None,
        }
    }

    /// A child viewport of this one is shown this pass; one not shown is
    /// dropped at the end of the pass.
    pub fn show_viewport(&mut self, id: ViewportId)
        requires
            old(self).wf(),
        ensures
            final(self).wf(),
            (exists|i: int| 0 <= i < old(self).viewports_view().len() && (#[trigger] old(self).viewports_view()[i]).id == id) ==>
                exists|i: int| 0 <= i < old(self).viewports_view().len() && (#[trigger] old(self).viewports_view()[i]).id == id
                    && final(self).viewports_view() == old(self).viewports_view().update(i,
                        crate::viewports::ViewportEntry { id, parent: old(self).viewport_id_view(), used: true }),
            !(exists|i: int| 0 <= i < old(self).viewports_view().len() && (#[trigger] old(self).viewports_view()[i]).id == id) ==>
                final(self).viewports_view() == old(self).viewports_view().push(
                    crate::viewports::ViewportEntry { id, parent: old(self).viewport_id_view(), used: true }),
            final(self).output_view() == old(self).output_view(),
            final(self).options_view() == old(self).options_view(),
            final(self).memory_view() == old(self).memory_view(),
            final(self).input_view() == old(self).input_view(),
    {
        self.viewports.mark_used(id, self.viewport_id);
    }

    /// Every viewport known, the root included.
    pub fn all_viewport_ids(&self) -> (r: Vec<ViewportId>)
        requires
            self.wf(),
        ensures
            forall|v: ViewportId| r@.contains(v) <==> crate::viewports::known_viewport(self.viewports_view(), v),
    {
        self.viewports.all_viewport_ids()
    }

    /// The parent of this context's viewport.
    pub fn parent_viewport_id(&self) -> (r: ViewportId)
        ensures
            !(exists|i: int| 0 <= i < self.viewports_view().len() && (#[trigger] self.viewports_view()[i]).id == self.viewport_id_view())
                ==> r == crate::viewports::root_viewport(),
    {
        proof {
            assert(self.viewports_view() == self.viewports.view());
            assert(self.viewport_id_view() == self.viewport_id);
        }
        self.viewports.parent_of(self.viewport_id)
    }

    /// This context's viewport.
    pub fn viewport_id(&self) -> (r: ViewportId)
        ensures
            r == self.viewport_id_view(),
    {
        self.viewport_id
    }

    /// Frames in a row that ran more than one pass, when there were three or
    /// more: a layout that never settles, worth a warning.
    pub fn multipass_warning(&self) -> (r: Option<usize>)
        ensures
            r == (if self.multipass_in_row() >= 3 { Some(self.multipass_in_row()) } else { None::<usize> }),
    {
        if self.viewport.num_multipass_in_row >= 3 {
            Some(self.viewport.num_multipass_in_row)
        } else {
            None
        }
    }

    /// The index of this pass within the frame, from zero.
    pub fn current_pass_index(&self) -> (r: usize)
        ensures
            r == self.output_view().num_completed_passes,
    {
        self.viewport.output.num_completed_passes
    }

    /// The number of passes ever completed.
    pub fn cumulative_pass_nr(&self) -> (r: u64)
        ensures
            r == self.repaint_view().cumulative_pass_nr,
    {
        self.viewport.repaint.cumulative_pass_nr
    }

    /// The number of frames ever completed.
    pub fn cumulative_frame_nr(&self) -> (r: u64)
        ensures
            r == self.repaint_view().cumulative_frame_nr,
    {
        self.viewport.repaint.cumulative_frame_nr
    }
}

} // verus!

verus! {

/// The context of one UI. All state sits behind it and is changed in short
/// transactions; user code run between them cannot break its invariants.
pub struct Context {
    inner: ContextImpl,
}

impl Context {
    #[verifier::type_invariant]
    closed spec fn inv(&self) -> bool {
        self.inner.wf()
    }

    /// The state behind the context.
    pub closed spec fn state(&self) -> &ContextImpl {
        &self.inner
    }

    /// A fresh context for the viewport `viewport_id`, with default options.
    pub fn new(viewport_id: ViewportId, screen_rect: Rect) -> (r: Context)
        ensures
            r.state().options_view() == (Options { max_passes: 2, warn_on_id_clash: true, interact_radius: 5 }),
            r.state().output_view().num_completed_passes == 0,
            !discard_requested(r.state().output_view()),
    {
        Context { inner: ContextImpl::new(viewport_id, screen_rect) }
    }

    /// Begin a write transaction: take the state out, leaving a fresh one.
    fn take_inner(&mut self) -> (r: ContextImpl)
        ensures
            r == *old(self).state(),
            r.wf(),
    {
        proof {
            use_type_invariant(&*self);
        }
        let mut other = ContextImpl::new(ViewportId(Id::null()), Rect::nothing());
        std::mem::swap(&mut self.inner, &mut other);
        other
    }

    /// End a write transaction: put the state back.
    fn put_inner(&mut self, inner: ContextImpl)
        requires
            inner.wf(),
        ensures
            *final(self).state() == inner,
    {
        let mut x = inner;
        std::mem::swap(&mut self.inner, &mut x);
    }

    /// Read access to the state.
    pub fn read(&self) -> (r: &ContextImpl)
        ensures
            r == self.state(),
            r.wf(),
    {
        proof {
            use_type_invariant(&*self);
        }
        &self.inner
    }

    /// Allow up to `max_passes` passes per frame.
    pub fn set_max_passes(&mut self, max_passes: usize)
        requires
            max_passes >= 1,
        ensures
            final(self).state().options_view() == (Options { max_passes, ..old(self).state().options_view() }),
            final(self).state().output_view() == old(self).state().output_view(),
    {
        let mut inner = self.take_inner();
        inner.set_max_passes(max_passes);
        self.put_inner(inner);
    }

    /// Ask for this pass's output to be discarded and the frame run again.
    pub fn request_discard(&mut self, cause: RepaintCause)
        ensures
            final(self).state().output_view().request_discard_reasons@ == old(self).state().output_view().request_discard_reasons@.push(cause),
            final(self).state().output_view().num_completed_passes == old(self).state().output_view().num_completed_passes,
            final(self).state().options_view() == old(self).state().options_view(),
            final(self).state().memory_view() == old(self).state().memory_view(),
    {
        let mut inner = self.take_inner();
        inner.request_discard(cause);
        self.put_inner(inner);
    }

    /// Will this pass's output be discarded?
    pub fn will_discard(&self) -> (r: bool)
        ensures
            r == discard_granted(discard_requested(self.state().output_view()), self.state().output_view().num_completed_passes as int,
                self.state().options_view().max_passes as int),
    {
        self.read().will_discard()
    }

    /// This pass's output so far.
    pub fn output(&self) -> (r: &PlatformOutput)
        ensures
            r == self.state().output_view(),
    {
        self.read().output()
    }

    /// Start a pass outside `run`.
    pub fn begin_pass(&mut self, new_input: RawInput)
        ensures
            ({
                let cands = layers_upto(old(self).state().prev_widgets_seq(), old(self).state().prev_widgets_seq().len());
                let layers = top_first_below(old(self).state().memory_view().areas.ranking(), cands, crate::layers::NUM_ORDERS as nat);
                match new_input.pointer_pos {
                    Some(pos) => hit_test_result(old(self).state().prev_widgets_seq(), layers, pos,
                        old(self).state().options_view().interact_radius as int, final(self).state().hits_view()),
                    None => final(self).state().hits_view().click.is_none() && final(self).state().hits_view().drag.is_none()
                        && final(self).state().hits_view().contains_pointer@.len() == 0,
                }
            }),
            interact_result(*old(self).state().snapshot_view(), old(self).state().prev_widgets(), final(self).state().hits_view(), new_input.pointer,
                old(self).state().memory_view().interaction, final(self).state().memory_view().interaction, *final(self).state().snapshot_view()),
            focus_began(old(self).state().memory_view().focus, final(self).state().memory_view().focus, new_input.keys@),
            ({
                let r = if old(self).state().repaint_view().outstanding > 0 {
                    Some(RequestRepaintInfo { viewport_id: old(self).state().viewport_id_view(), delay: 0,
                        current_cumulative_pass_nr: old(self).state().repaint_view().cumulative_pass_nr })
                } else {
                    None::<RequestRepaintInfo>
                };
                &&& repaint_began(*old(self).state().repaint_view(), *final(self).state().repaint_view(), old(self).state().viewport_id_view(), r)
                &&& final(self).state().repaint_requests_view() == match r {
                    Some(info) => old(self).state().repaint_requests_view().push(info),
                    None => old(self).state().repaint_requests_view(),
                }
            }),
            final(self).state().used_ids_view() == Map::<u64, Rect>::empty(),
            final(self).state().this_widgets() == Map::<u64, WidgetRect>::empty(),
            final(self).state().highlight_requests().len() == 0,
            final(self).state().prev_widgets() == old(self).state().prev_widgets(),
            final(self).state().prev_widgets_seq() == old(self).state().prev_widgets_seq(),
            final(self).state().highlighted_view() == old(self).state().highlighted_view(),
            final(self).state().memory_view().areas.visible_current() == old(self).state().memory_view().areas.visible_current().insert(LayerId::background_spec()),
            final(self).state().memory_view().areas.visible_last() == old(self).state().memory_view().areas.visible_last(),
            final(self).state().memory_view().areas.ranking() == old(self).state().memory_view().areas.ranking(),
            final(self).state().memory_view().areas.area_map() == old(self).state().memory_view().areas.area_map().insert(
                LayerId::background_spec().id.0, AreaState { rect: new_input.screen_rect, interactable: true }),
            final(self).state().memory_view().popup == old(self).state().memory_view().popup,
            final(self).state().input_view() == new_input,
            final(self).state().options_view() == old(self).state().options_view(),
            final(self).state().output_view() == old(self).state().output_view(),
            final(self).state().multipass_in_row() == old(self).state().multipass_in_row(),
            final(self).state().direction_target_view() == old(self).state().direction_target_view(),
            final(self).state().anim_bools() == old(self).state().anim_bools(),
            final(self).state().anim_values() == old(self).state().anim_values(),
            final(self).state().viewports_view() == old(self).state().viewports_view(),
    {
        let mut inner = self.take_inner();
        inner.begin_pass(new_input);
        self.put_inner(inner);
    }

    /// End a pass started with `begin_pass`.
    pub fn end_pass(&mut self) -> (r: FullOutput)
        ensures
            r.platform_output.num_completed_passes == (if old(self).state().output_view().num_completed_passes < usize::MAX {
                old(self).state().output_view().num_completed_passes + 1
            } else {
                old(self).state().output_view().num_completed_passes as int
            }),
            r.platform_output.request_discard_reasons@ == old(self).state().output_view().request_discard_reasons@,
            final(self).state().output_view().num_completed_passes == 0,
            !discard_requested(final(self).state().output_view()),
            final(self).state().options_view() == old(self).state().options_view(),
            final(self).state().repaint_view().cumulative_pass_nr == (if old(self).state().repaint_view().cumulative_pass_nr < u64::MAX {
                old(self).state().repaint_view().cumulative_pass_nr + 1
            } else {
                old(self).state().repaint_view().cumulative_pass_nr as int
            }),
            final(self).state().memory_view().areas.visible_last() == old(self).state().memory_view().areas.visible_current(),
            r.repaint_delay == final(self).state().repaint_view().repaint_delay,
            final(self).state().multipass_in_row() == old(self).state().multipass_in_row(),
            crate::memory::memory_ended(*old(self).state().memory_view(), *final(self).state().memory_view(), old(self).state().used_ids_view(),
                old(self).state().direction_target_view()),
            final(self).state().prev_widgets() == old(self).state().this_widgets(),
            final(self).state().prev_widgets_seq() == old(self).state().this_widgets_seq(),
            final(self).state().prev_used_ids_view() == old(self).state().used_ids_view(),
            final(self).state().highlighted_view() == old(self).state().highlight_requests(),
            final(self).state().this_widgets() == old(self).state().prev_widgets(),
            final(self).state().direction_target_view().is_none(),
            final(self).state().viewports_view() == old(self).state().viewports_view().filter(
                crate::viewports::survives(old(self).state().viewports_view(), old(self).state().viewport_id_view())).map_values(
                crate::viewports::reset_child(old(self).state().viewport_id_view())),
            r.repaint_requests@ == old(self).state().repaint_requests_view(),
            final(self).state().repaint_requests_view().len() == 0,
            final(self).state().snapshot_view() == old(self).state().snapshot_view(),
            final(self).state().anim_bools() == old(self).state().anim_bools(),
            final(self).state().anim_values() == old(self).state().anim_values(),
            final(self).state().input_view() == old(self).state().input_view(),
    {
        let mut inner = self.take_inner();
        let r = inner.end_pass();
        self.put_inner(inner);
        r
    }

    /// Register a widget and resolve its interactions.
    pub fn create_widget(&mut self, w: WidgetRect, allow_focus: bool) -> (r: (Response, IdClash))
        ensures
            exists|mid: ContextImpl| #[trigger] widget_registered(old(self).state(), &mid, w, allow_focus, r.1) && response_given(&mid, final(self).state(), w, r.0),
            final(self).state().output_view() == old(self).state().output_view(),
            final(self).state().options_view() == old(self).state().options_view(),
    {
        let mut inner = self.take_inner();
        let r = inner.create_widget(w, allow_focus);
        self.put_inner(inner);
        r
    }

    /// The response of a widget registered this pass or the previous one.
    pub fn read_response(&mut self, id: Id) -> (r: Option<Response>)
        ensures
            match read_widget_spec(old(self).state(), id) {
                Some(w) => r.is_some() && response_given(old(self).state(), final(self).state(), w, r.unwrap()),
                None => r.is_none() && *final(self).state() == *old(self).state(),
            },
            final(self).state().output_view() == old(self).state().output_view(),
    {
        let mut inner = self.take_inner();
        let r = inner.read_response(id);
        self.put_inner(inner);
        r
    }

    /// Record a use of an identifier and report a clash with an earlier use.
    pub fn check_for_id_clash(&mut self, id: Id, new_rect: Rect) -> (r: IdClash)
        ensures
            final(self).state().used_ids_view() == old(self).state().used_ids_view().insert(id.0, new_rect),
            r == clash_of(old(self).state().used_ids_view(), old(self).state().options_view().warn_on_id_clash, id, new_rect),
            final(self).state().memory_view() == old(self).state().memory_view(),
            final(self).state().output_view() == old(self).state().output_view(),
            final(self).state().options_view() == old(self).state().options_view(),
            final(self).state().input_view() == old(self).state().input_view(),
            final(self).state().snapshot_view() == old(self).state().snapshot_view(),
            final(self).state().this_widgets() == old(self).state().this_widgets(),
            final(self).state().highlighted_view() == old(self).state().highlighted_view(),
    {
        let mut inner = self.take_inner();
        let r = inner.check_for_id_clash(id, new_rect);
        self.put_inner(inner);
        r
    }

    /// Does the widget have keyboard focus?
    pub fn has_focus(&self, id: Id) -> (r: bool)
        ensures
            r == (focused_id(self.state().memory_view().focus.focused_widget) == Some(id)),
    {
        self.read().has_focus(id)
    }

    /// Give keyboard focus to the widget.
    pub fn request_focus(&mut self, id: Id)
        ensures
            final(self).state().memory_view().focus.focused_widget == Some(new_focus(id)),
            final(self).state().memory_view().focus.id_previous_frame == old(self).state().memory_view().focus.id_previous_frame,
            final(self).state().output_view() == old(self).state().output_view(),
    {
        let mut inner = self.take_inner();
        inner.request_focus(id);
        self.put_inner(inner);
    }

    /// Give up focus, if the widget has it.
    pub fn surrender_focus(&mut self, id: Id)
        ensures
            focused_id(final(self).state().memory_view().focus.focused_widget) != Some(id),
            final(self).state().output_view() == old(self).state().output_view(),
    {
        let mut inner = self.take_inner();
        inner.surrender_focus(id);
        self.put_inner(inner);
    }

    /// Limit interaction to this layer and those above it, from the next pass.
    pub fn set_modal_layer(&mut self, layer_id: LayerId)
        ensures
            final(self).state().memory_view().focus == (crate::focus::Focus {
                top_modal_layer_current_frame: match old(self).state().memory_view().focus.top_modal_layer_current_frame {
                    Some(c) => if crate::areas::compare_layers(old(self).state().memory_view().areas.ranking(), layer_id, c)
                        == std::cmp::Ordering::Less { Some(c) } else { Some(layer_id) },
                    None => Some(layer_id),
                },
                ..old(self).state().memory_view().focus
            }),
            final(self).state().memory_view().areas == old(self).state().memory_view().areas,
            final(self).state().output_view() == old(self).state().output_view(),
    {
        let mut inner = self.take_inner();
        inner.set_modal_layer(layer_id);
        self.put_inner(inner);
    }

    /// The widget being dragged.
    pub fn dragged_id(&self) -> (r: Option<Id>)
        ensures
            r == self.state().snapshot_view().dragged,
    {
        self.read().dragged_id()
    }

    /// The widget whose drag started this pass.
    pub fn drag_started_id(&self) -> (r: Option<Id>)
        ensures
            r == self.state().snapshot_view().drag_started,
    {
        self.read().drag_started_id()
    }

    /// The widget whose drag stopped this pass.
    pub fn drag_stopped_id(&self) -> (r: Option<Id>)
        ensures
            r == self.state().snapshot_view().drag_stopped,
    {
        self.read().drag_stopped_id()
    }

    /// Make `id` the dragged widget; a drag on another widget stops in the
    /// same pass.
    pub fn set_dragged_id(&mut self, id: Id)
        ensures
            final(self).state().snapshot_view().dragged == Some(id),
            old(self).state().snapshot_view().dragged != Some(id) ==> {
                &&& final(self).state().snapshot_view().drag_started == Some(id)
                &&& final(self).state().snapshot_view().drag_stopped
                    == crate::interaction::or_id(old(self).state().snapshot_view().dragged, old(self).state().snapshot_view().drag_stopped)
            },
            final(self).state().memory_view().interaction.potential_drag_id == Some(id),
            final(self).state().output_view() == old(self).state().output_view(),
    {
        let mut inner = self.take_inner();
        inner.set_dragged_id(id);
        self.put_inner(inner);
    }

    /// Stop dragging; the dragged widget is reported stopped.
    pub fn stop_dragging(&mut self)
        ensures
            final(self).state().snapshot_view().dragged.is_none(),
            final(self).state().snapshot_view().drag_stopped
                == crate::interaction::or_id(old(self).state().snapshot_view().dragged, old(self).state().snapshot_view().drag_stopped),
            final(self).state().snapshot_view().drag_started == old(self).state().snapshot_view().drag_started,
            final(self).state().memory_view().interaction.potential_drag_id.is_none(),
            final(self).state().memory_view().interaction.potential_click_id == old(self).state().memory_view().interaction.potential_click_id,
            final(self).state().output_view() == old(self).state().output_view(),
    {
        let mut inner = self.take_inner();
        inner.stop_dragging();
        self.put_inner(inner);
    }

    /// Move the layer to the top of its class at the end of the pass.
    pub fn move_to_top(&mut self, layer_id: LayerId)
        ensures
            final(self).state().memory_view().areas.top_requests() == (if old(self).state().memory_view().areas.top_requests().contains(layer_id) {
                old(self).state().memory_view().areas.top_requests()
            } else {
                old(self).state().memory_view().areas.top_requests().push(layer_id)
            }),
            final(self).state().memory_view().areas.visible_current() == old(self).state().memory_view().areas.visible_current().insert(layer_id),
            final(self).state().output_view() == old(self).state().output_view(),
    {
        let mut inner = self.take_inner();
        inner.move_to_top(layer_id);
        self.put_inner(inner);
    }

    /// Mark `child` as a sublayer of `parent` (same order class).
    pub fn set_sublayer(&mut self, parent: LayerId, child: LayerId)
        requires
            parent.order == child.order,
            parent != child,
        ensures
            final(self).state().memory_view().areas.sublayer_groups()
                == crate::areas::with_sublayer(old(self).state().memory_view().areas.sublayer_groups(), parent, child),
            final(self).state().output_view() == old(self).state().output_view(),
    {
        let mut inner = self.take_inner();
        inner.set_sublayer(parent, child);
        self.put_inner(inner);
    }

    /// Register an area's state for this pass.
    pub fn set_area_state(&mut self, layer_id: LayerId, state: AreaState)
        ensures
            final(self).state().memory_view().areas.visible_current() == old(self).state().memory_view().areas.visible_current().insert(layer_id),
            final(self).state().memory_view().areas.area_map() == old(self).state().memory_view().areas.area_map().insert(layer_id.id.0, state),
            final(self).state().memory_view().areas.order_view() == (if old(self).state().memory_view().areas.order_view().contains(layer_id) {
                old(self).state().memory_view().areas.order_view()
            } else {
                old(self).state().memory_view().areas.order_view().push(layer_id)
            }),
            final(self).state().memory_view().areas.ranking() == old(self).state().memory_view().areas.ranking(),
            final(self).state().memory_view().focus == old(self).state().memory_view().focus,
            final(self).state().output_view() == old(self).state().output_view(),
    {
        let mut inner = self.take_inner();
        inner.set_area_state(layer_id, state);
        self.put_inner(inner);
    }

    /// The top-most layer at `pos`, respecting the modal layer.
    pub fn layer_id_at(&self, pos: Pos2) -> (r: Option<LayerId>)
        ensures
            r == (match self.state().memory_view().areas.layer_id_at_spec(pos) {
                Some(l) => if crate::memory::above_modal(self.state().memory_view().areas.ranking(), self.state().memory_view().focus.top_modal_layer, l) {
                    Some(l)
                } else {
                    self.state().memory_view().focus.top_modal_layer
                },
                None => None,
            }),
    {
        self.read().layer_id_at(pos)
    }

    /// Animate a bool towards `target` over `animation_time` microseconds,
    /// requesting a repaint while in progress.
    pub fn animate_bool_with_time(&mut self, id: Id, target: bool, animation_time: u64) -> (r: u64)
        ensures
            r <= crate::animation::ANIM_SCALE,
            ({
                let now = old(self).state().input_view().time;
                let sdt = old(self).state().input_view().stable_dt;
                let b = old(self).state().anim_bools();
                if b.contains_key(id.0) {
                    let a = b[id.0];
                    &&& r as int == crate::animation::bool_anim_step(a.last_value as int,
                        crate::animation::capped_elapsed(now as int, a.last_tick as int, sdt as int), animation_time as int, target)
                    &&& final(self).state().anim_bools() == b.insert(id.0, crate::animation::BoolAnim { last_value: r, last_tick: now })
                } else {
                    &&& r as int == crate::animation::bool_end(target)
                    &&& final(self).state().anim_bools() == b.insert(id.0, crate::animation::BoolAnim {
                        last_value: r, last_tick: if now >= sdt { (now - sdt) as u64 } else { 0 } })
                }
            }),
            final(self).state().anim_values() == old(self).state().anim_values(),
            0 < r < crate::animation::ANIM_SCALE ==> ({
                &&& final(self).state().repaint_view().repaint_delay == 0
                &&& final(self).state().repaint_view().outstanding == 1
                &&& final(self).state().repaint_view().causes@.len() == old(self).state().repaint_view().causes@.len() + 1
                &&& final(self).state().repaint_requests_view() == (if 0 < old(self).state().repaint_view().repaint_delay {
                    old(self).state().repaint_requests_view().push(RequestRepaintInfo { viewport_id: old(self).state().viewport_id_view(),
                        delay: 0, current_cumulative_pass_nr: old(self).state().repaint_view().cumulative_pass_nr })
                } else {
                    old(self).state().repaint_requests_view()
                })
            }),
            !(0 < r < crate::animation::ANIM_SCALE) ==> final(self).state().repaint_view() == old(self).state().repaint_view()
                && final(self).state().repaint_requests_view() == old(self).state().repaint_requests_view(),
            final(self).state().output_view() == old(self).state().output_view(),
            final(self).state().options_view() == old(self).state().options_view(),
            final(self).state().memory_view() == old(self).state().memory_view(),
            final(self).state().input_view() == old(self).state().input_view(),
    {
        let mut inner = self.take_inner();
        let r = inner.animate_bool_with_time(id, target, animation_time);
        self.put_inner(inner);
        r
    }

    /// Animate a value towards `target` over `animation_time` microseconds,
    /// requesting a repaint while in progress.
    pub fn animate_value_with_time(&mut self, id: Id, target: i64, animation_time: u64) -> (r: i64)
        ensures
            ({
                let now = old(self).state().input_view().time;
                let pdt = old(self).state().input_view().predicted_dt;
                let vs = old(self).state().anim_values();
                if vs.contains_key(id.0) {
                    let a = vs[id.0];
                    let pos = crate::animation::value_anim_position(a, now as int, pdt as int, animation_time as int);
                    let from = if a.to_value != target { pos as i64 } else { a.from_value };
                    let toggled = if a.to_value != target { Some(now) } else { a.toggle_time };
                    &&& r as int == (if animation_time == 0 { target as int } else { pos })
                    &&& final(self).state().anim_values() == vs.insert(id.0, if animation_time == 0 {
                        crate::animation::ValueAnim { from_value: target, to_value: target, toggle_time: toggled }
                    } else {
                        crate::animation::ValueAnim { from_value: from, to_value: target, toggle_time: toggled }
                    })
                } else {
                    &&& r == target
                    &&& final(self).state().anim_values() == vs.insert(id.0,
                        crate::animation::ValueAnim { from_value: target, to_value: target, toggle_time: None })
                }
            }),
            final(self).state().anim_bools() == old(self).state().anim_bools(),
            r != target ==> ({
                &&& final(self).state().repaint_view().repaint_delay == 0
                &&& final(self).state().repaint_view().outstanding == 1
                &&& final(self).state().repaint_view().causes@.len() == old(self).state().repaint_view().causes@.len() + 1
                &&& final(self).state().repaint_requests_view() == (if 0 < old(self).state().repaint_view().repaint_delay {
                    old(self).state().repaint_requests_view().push(RequestRepaintInfo { viewport_id: old(self).state().viewport_id_view(),
                        delay: 0, current_cumulative_pass_nr: old(self).state().repaint_view().cumulative_pass_nr })
                } else {
                    old(self).state().repaint_requests_view()
                })
            }),
            r == target ==> final(self).state().repaint_view() == old(self).state().repaint_view()
                && final(self).state().repaint_requests_view() == old(self).state().repaint_requests_view(),
            final(self).state().output_view() == old(self).state().output_view(),
            final(self).state().options_view() == old(self).state().options_view(),
            final(self).state().memory_view() == old(self).state().memory_view(),
            final(self).state().input_view() == old(self).state().input_view(),
    {
        let mut inner = self.take_inner();
        let r = inner.animate_value_with_time(id, target, animation_time);
        self.put_inner(inner);
        r
    }

    /// Ask for a repaint after `delay` microseconds.
    pub fn request_repaint_after(&mut self, delay: u64, cause: RepaintCause)
        ensures
            ({
                let pdt = old(self).state().input_view().predicted_dt;
                let d = if delay >= pdt { (delay - pdt) as u64 } else { 0u64 };
                let r = if d < old(self).state().repaint_view().repaint_delay {
                    Some(RequestRepaintInfo { viewport_id: old(self).state().viewport_id_view(), delay: d,
                        current_cumulative_pass_nr: old(self).state().repaint_view().cumulative_pass_nr })
                } else {
                    None::<RequestRepaintInfo>
                };
                &&& repaint_requested(*old(self).state().repaint_view(), *final(self).state().repaint_view(), delay, pdt,
                    old(self).state().viewport_id_view(), cause, r)
                &&& final(self).state().repaint_requests_view() == match r {
                    Some(info) => old(self).state().repaint_requests_view().push(info),
                    None => old(self).state().repaint_requests_view(),
                }
            }),
            final(self).state().output_view() == old(self).state().output_view(),
            final(self).state().options_view() == old(self).state().options_view(),
            final(self).state().memory_view() == old(self).state().memory_view(),
            final(self).state().input_view() == old(self).state().input_view(),
            final(self).state().anim_bools() == old(self).state().anim_bools(),
            final(self).state().anim_values() == old(self).state().anim_values(),
    {
        let mut inner = self.take_inner();
        inner.request_repaint_after(delay, cause);
        self.put_inner(inner);
    }

    /// Ask for a repaint at once.
    pub fn request_repaint(&mut self, cause: RepaintCause)
        ensures
            ({
                let pdt = old(self).state().input_view().predicted_dt;
                let r = if 0 < old(self).state().repaint_view().repaint_delay {
                    Some(RequestRepaintInfo { viewport_id: old(self).state().viewport_id_view(), delay: 0,
                        current_cumulative_pass_nr: old(self).state().repaint_view().cumulative_pass_nr })
                } else {
                    None::<RequestRepaintInfo>
                };
                &&& repaint_requested(*old(self).state().repaint_view(), *final(self).state().repaint_view(), 0, pdt,
                    old(self).state().viewport_id_view(), cause, r)
                &&& final(self).state().repaint_requests_view() == match r {
                    Some(info) => old(self).state().repaint_requests_view().push(info),
                    None => old(self).state().repaint_requests_view(),
                }
            }),
            final(self).state().output_view() == old(self).state().output_view(),
            final(self).state().options_view() == old(self).state().options_view(),
            final(self).state().memory_view() == old(self).state().memory_view(),
            final(self).state().input_view() == old(self).state().input_view(),
            final(self).state().anim_bools() == old(self).state().anim_bools(),
            final(self).state().anim_values() == old(self).state().anim_values(),
    {
        let mut inner = self.take_inner();
        inner.request_repaint(cause);
        self.put_inner(inner);
    }

    /// Ask for focus to move to `target` at the end of this pass, after an
    /// arrow key.
    pub fn set_focus_direction_target(&mut self, target: Option<Id>)
        ensures
            final(self).state().direction_target_view() == target,
            final(self).state().output_view() == old(self).state().output_view(),
            final(self).state().options_view() == old(self).state().options_view(),
            final(self).state().memory_view() == old(self).state().memory_view(),
            final(self).state().input_view() == old(self).state().input_view(),
    {
        let mut inner = self.take_inner();
        inner.set_focus_direction_target(target);
        self.put_inner(inner);
    }

    /// Forget all animation state.
    pub fn clear_animations(&mut self)
        ensures
            final(self).state().anim_bools() == Map::<u64, crate::animation::BoolAnim>::empty(),
            final(self).state().anim_values() == Map::<u64, crate::animation::ValueAnim>::empty(),
            final(self).state().output_view() == old(self).state().output_view(),
            final(self).state().options_view() == old(self).state().options_view(),
            final(self).state().memory_view() == old(self).state().memory_view(),
            final(self).state().input_view() == old(self).state().input_view(),
    {
        let mut inner = self.take_inner();
        inner.clear_animations();
        self.put_inner(inner);
    }

    /// Sense more for an existing widget.
    pub fn interact(&mut self, r: &Response, sense: crate::widget_rect::Sense) -> (out: Response)
        ensures
            out.id == r.id,
            final(self).state().output_view() == old(self).state().output_view(),
            (r.sense.click || !sense.click) && (r.sense.drag || !sense.drag) && (r.sense.focusable || !sense.focusable)
                ==> out == *r && *final(self).state() == *old(self).state(),
            !((r.sense.click || !sense.click) && (r.sense.drag || !sense.drag) && (r.sense.focusable || !sense.focusable))
                ==> exists|mid: ContextImpl, c: IdClash| #[trigger] widget_registered(old(self).state(), &mid, sensed_more(*r, sense), true, c)
                    && response_given(&mid, final(self).state(), sensed_more(*r, sense), out),
    {
        let mut inner = self.take_inner();
        let out = inner.interact(r, sense);
        self.put_inner(inner);
        out
    }

    /// Was there a click this pass outside the widget of `r`?
    pub fn clicked_elsewhere(&self, r: &Response) -> (b: bool)
        ensures
            b == (any_click_release(self.state().input_view().pointer.events@) && !r.flags.contains_pointer && !r.flags.hovered
                && match self.state().input_view().pointer_pos {
                    Some(p) => (match self.state().memory_view().areas.layer_id_at_spec(p) {
                        Some(l) => if crate::memory::above_modal(self.state().memory_view().areas.ranking(), self.state().memory_view().focus.top_modal_layer, l) {
                            Some(l)
                        } else {
                            self.state().memory_view().focus.top_modal_layer
                        },
                        None => None,
                    }) != Some(r.layer_id) || !crate::geometry::rect_contains(r.interact_rect, p),
                    None => false,
                }),
    {
        self.read().clicked_elsewhere(r)
    }

    /// A child viewport of this one is shown this pass.
    pub fn show_viewport(&mut self, id: ViewportId)
        ensures
            (exists|i: int| 0 <= i < old(self).state().viewports_view().len() && (#[trigger] old(self).state().viewports_view()[i]).id == id) ==>
                exists|i: int| 0 <= i < old(self).state().viewports_view().len() && (#[trigger] old(self).state().viewports_view()[i]).id == id
                    && final(self).state().viewports_view() == old(self).state().viewports_view().update(i,
                        crate::viewports::ViewportEntry { id, parent: old(self).state().viewport_id_view(), used: true }),
            !(exists|i: int| 0 <= i < old(self).state().viewports_view().len() && (#[trigger] old(self).state().viewports_view()[i]).id == id) ==>
                final(self).state().viewports_view() == old(self).state().viewports_view().push(
                    crate::viewports::ViewportEntry { id, parent: old(self).state().viewport_id_view(), used: true }),
            final(self).state().output_view() == old(self).state().output_view(),
            final(self).state().options_view() == old(self).state().options_view(),
            final(self).state().memory_view() == old(self).state().memory_view(),
            final(self).state().input_view() == old(self).state().input_view(),
    {
        let mut inner = self.take_inner();
        inner.show_viewport(id);
        self.put_inner(inner);
    }

    /// Before each pass of a frame run outside `run`: the pass's output
    /// starts with the count of passes already run and no discard request.
    pub fn start_frame_pass(&mut self, passes: usize)
        ensures
            final(self).state().output_view().num_completed_passes == passes,
            !discard_requested(final(self).state().output_view()),
            final(self).state().options_view() == old(self).state().options_view(),
            final(self).state().memory_view() == old(self).state().memory_view(),
            final(self).state().repaint_view() == old(self).state().repaint_view(),
    {
        let mut inner = self.take_inner();
        inner.start_frame_pass(passes);
        self.put_inner(inner);
    }

    /// After the last pass of a frame run outside `run`: count the frame.
    pub fn finish_frame(&mut self, passes: usize)
        ensures
            final(self).state().multipass_in_row() == (if passes > 1 {
                if old(self).state().multipass_in_row() < usize::MAX { old(self).state().multipass_in_row() + 1 } else { old(self).state().multipass_in_row() as int }
            } else {
                0
            }),
            final(self).state().repaint_view().cumulative_frame_nr == (if old(self).state().repaint_view().cumulative_frame_nr < u64::MAX {
                old(self).state().repaint_view().cumulative_frame_nr + 1
            } else {
                old(self).state().repaint_view().cumulative_frame_nr as int
            }),
            final(self).state().options_view() == old(self).state().options_view(),
    {
        let mut inner = self.take_inner();
        inner.finish_frame(passes);
        self.put_inner(inner);
    }

    /// Show the widget highlighted from the next pass on.
    pub fn highlight_widget(&mut self, id: Id)
        ensures
            final(self).state().highlighted_view() == old(self).state().highlighted_view(),
            final(self).state().highlight_requests() == old(self).state().highlight_requests().push(id),
            final(self).state().output_view() == old(self).state().output_view(),
            final(self).state().memory_view() == old(self).state().memory_view(),
    {
        let mut inner = self.take_inner();
        inner.highlight_widget(id);
        self.put_inner(inner);
    }

    /// The index of this pass within the frame, from zero.
    pub fn current_pass_index(&self) -> (r: usize)
        ensures
            r == self.state().output_view().num_completed_passes,
    {
        self.read().current_pass_index()
    }

    /// The number of passes ever completed.
    pub fn cumulative_pass_nr(&self) -> (r: u64)
        ensures
            r == self.state().repaint_view().cumulative_pass_nr,
    {
        self.read().cumulative_pass_nr()
    }

    /// The number of frames ever completed.
    pub fn cumulative_frame_nr(&self) -> (r: u64)
        ensures
            r == self.state().repaint_view().cumulative_frame_nr,
    {
        self.read().cumulative_frame_nr()
    }

    /// Run one frame: passes of `run_ui` between `begin_pass` and `end_pass`,
    /// repeated while a pass asks for a discard and fewer than `max_passes`
    /// passes have run. The body takes the context and hands it back. See
    /// `frame_record` for what is stated of every pass.
    pub fn run<F: FnMut(Context) -> Context>(&mut self, new_input: RawInput, mut run_ui: F) -> (r: FullOutput)
        requires
            forall|c: Context| run_ui.requires((c,)),
        ensures
            exists|ins: Seq<Context>, outs: Seq<Context>| frame_record(run_ui, *old(self), *final(self), r, ins, outs),
    {
        proof {
            use_type_invariant(&*self);
        }
        let ghost f0 = run_ui;
        let ghost start = *self;
        let max = self.inner.options.max_passes;
        let later_input = new_input.for_next_pass();
        let mut first_input = Some(new_input);
        let mut passes: usize = 0;
        let mut reasons: Vec<RepaintCause> = Vec::new();
        let mut repaint_delay: u64 = NO_REPAINT;
        let mut requests: Vec<RequestRepaintInfo> = Vec::new();
        let ghost mut ins: Seq<Context> = Seq::empty();
        let ghost mut outs: Seq<Context> = Seq::empty();
        let mut done = false;
        while !done
            invariant
                max == start.state().options_view().max_passes,
                1 <= max,
                passes <= max,
                run_ui == f0,
                forall|c: Context| run_ui.requires((c,)),
                ins.len() == passes && outs.len() == passes,
                forall|i: int| 0 <= i < passes ==> f0.ensures((#[trigger] ins[i],), outs[i]),
                forall|i: int| 0 <= i < passes ==> (#[trigger] ins[i]).state().output_view().num_completed_passes == i
                    && !discard_requested(ins[i].state().output_view()),
                passes > 0 ==> ins[0].state().options_view() == start.state().options_view()
                    && ins[0].state().repaint_view().cumulative_frame_nr == start.state().repaint_view().cumulative_frame_nr,
                forall|i: int| 0 <= i < passes - 1 ==> (#[trigger] ins[i + 1]).state().options_view() == outs[i].state().options_view()
                    && ins[i + 1].state().repaint_view().cumulative_frame_nr == outs[i].state().repaint_view().cumulative_frame_nr,
                forall|i: int| 0 <= i < passes - 1 ==> discard_requested((#[trigger] outs[i]).state().output_view()) && i + 1 < max,
                passes == 0 ==> !done && *self == start,
                passes > 0 ==> reasons@ == outs[passes - 1].state().output_view().request_discard_reasons@
                    && self.state().options_view() == outs[passes - 1].state().options_view()
                    && self.state().repaint_view().cumulative_frame_nr == outs[passes - 1].state().repaint_view().cumulative_frame_nr,
                passes > 0 ==> (!done == (discard_requested(outs[passes - 1].state().output_view()) && passes < max)),
            decreases max - passes,
        {
            proof {
                use_type_invariant(&*self);
            }
            let input = match first_input {
                Some(i) => i,
                None => later_input.for_next_pass(),
            };
            first_input = None;
            let mut inner = self.take_inner();
            inner.start_frame_pass(passes);
            inner.begin_pass(input);
            self.put_inner(inner);
            let mut handed = Context::new(ViewportId(Id::null()), Rect::nothing());
            std::mem::swap(self, &mut handed);
            let ghost before = handed;
            let returned = run_ui(handed);
            proof {
                ins = ins.push(before);
                outs = outs.push(returned);
            }
            *self = returned;
            let mut inner = self.take_inner();
            let o = inner.end_pass();
            self.put_inner(inner);
            passes = passes + 1;
            let another = runs_another_pass(&o.platform_output, passes, max);
            reasons = o.platform_output.request_discard_reasons;
            repaint_delay = o.repaint_delay;
            let mut more = o.repaint_requests;
            requests.append(&mut more);
            if !another {
                done = true;
            }
        }
        let mut inner = self.take_inner();
        inner.finish_frame(passes);
        self.put_inner(inner);
        let r = FullOutput {
            platform_output: PlatformOutput { num_completed_passes: passes, request_discard_reasons: reasons },
            repaint_delay,
            repaint_requests: requests,
        };
        proof {
            assert(frame_record(f0, start, *self, r, ins, outs));
        }
        r
    }

}

} // verus!

verus! {

/// What `run` states of a frame, with `ins[i]` the context handed to the body
/// in pass `i` and `outs[i]` the context it handed back:
/// - each pass is one call of the body, which starts with the pass's index
///   as its count of completed passes and no discard request;
/// - options and the frame counter carry from one pass to the next;
/// - every pass but the last asked for a discard with room for another pass,
///   and the last one did not, or no room was left;
/// - the output reports the last pass's discard reasons;
/// - the frame counter rises by one over what the last pass left.
pub open spec fn frame_record<F: FnMut(Context) -> Context>(
    f: F,
    start: Context,
    end: Context,
    r: FullOutput,
    ins: Seq<Context>,
    outs: Seq<Context>,
) -> bool {
    let n = r.platform_output.num_completed_passes as int;
    let max = start.state().options_view().max_passes as int;
    &&& 1 <= n <= max
    &&& ins.len() == n && outs.len() == n
    &&& forall|i: int| 0 <= i < n ==> f.ensures((#[trigger] ins[i],), outs[i])
    &&& forall|i: int| 0 <= i < n ==> (#[trigger] ins[i]).state().output_view().num_completed_passes == i
        && !discard_requested(ins[i].state().output_view())
    &&& ins[0].state().options_view() == start.state().options_view()
    &&& ins[0].state().repaint_view().cumulative_frame_nr == start.state().repaint_view().cumulative_frame_nr
    &&& forall|i: int| 0 <= i < n - 1 ==> (#[trigger] ins[i + 1]).state().options_view() == outs[i].state().options_view()
        && ins[i + 1].state().repaint_view().cumulative_frame_nr == outs[i].state().repaint_view().cumulative_frame_nr
    &&& forall|i: int| 0 <= i < n ==> ((i + 1 < n) == (discard_requested((#[trigger] outs[i]).state().output_view()) && i + 1 < max))
    &&& r.platform_output.request_discard_reasons@ == outs[n - 1].state().output_view().request_discard_reasons@
    &&& end.state().repaint_view().cumulative_frame_nr == (if outs[n - 1].state().repaint_view().cumulative_frame_nr < u64::MAX {
        outs[n - 1].state().repaint_view().cumulative_frame_nr + 1
    } else {
        outs[n - 1].state().repaint_view().cumulative_frame_nr as int
    })
}

/// With one pass allowed, a frame runs its body once and reports whether
/// that pass asked for a discard (the request is denied, not lost).
pub proof fn lemma_frame_single_pass<F: FnMut(Context) -> Context>(
    f: F, start: Context, end: Context, r: FullOutput, ins: Seq<Context>, outs: Seq<Context>,
)
    requires
        frame_record(f, start, end, r, ins, outs),
        start.state().options_view().max_passes == 1,
    ensures
        r.platform_output.num_completed_passes == 1,
        discard_requested(&r.platform_output) == discard_requested(outs[0].state().output_view()),
{
}

/// A body that always asks for a discard runs exactly `max_passes` times, and
/// the output still reports the request.
pub proof fn lemma_frame_always_discarding<F: FnMut(Context) -> Context>(
    f: F, start: Context, end: Context, r: FullOutput, ins: Seq<Context>, outs: Seq<Context>,
)
    requires
        frame_record(f, start, end, r, ins, outs),
        forall|c: Context, d: Context| #[trigger] f.ensures((c,), d) ==> discard_requested(d.state().output_view()),
    ensures
        r.platform_output.num_completed_passes == start.state().options_view().max_passes,
        discard_requested(&r.platform_output),
{
    let n = r.platform_output.num_completed_passes as int;
    assert(f.ensures((ins[n - 1],), outs[n - 1]));
}

/// A body that asks for a discard exactly in its first `k` passes, with room
/// for `k + 1` passes, runs `k + 1` times and reports no request.
pub proof fn lemma_frame_discards_first_passes<F: FnMut(Context) -> Context>(
    f: F, start: Context, end: Context, r: FullOutput, ins: Seq<Context>, outs: Seq<Context>, k: int,
)
    requires
        frame_record(f, start, end, r, ins, outs),
        0 <= k,
        k + 1 <= start.state().options_view().max_passes,
        forall|c: Context, d: Context| #[trigger] f.ensures((c,), d) ==> (discard_requested(d.state().output_view())
            == (c.state().output_view().num_completed_passes < k)),
    ensures
        r.platform_output.num_completed_passes == k + 1,
        !discard_requested(&r.platform_output),
{
    let n = r.platform_output.num_completed_passes as int;
    assert forall|i: int| 0 <= i < n implies discard_requested((#[trigger] outs[i]).state().output_view()) == (i < k) by {
        assert(f.ensures((ins[i],), outs[i]));
    }
    if n < k + 1 {
        assert(discard_requested(outs[n - 1].state().output_view()));
    } else if n > k + 1 {
        assert(!discard_requested(outs[k].state().output_view()));
    }
    assert(!discard_requested(outs[n - 1].state().output_view()));
}

/// The frame counter and options through the passes of a frame whose body
/// changes neither: every pass sees the options the frame started with, and
/// the counter rises by exactly one.
pub proof fn lemma_frame_counts_one_frame<F: FnMut(Context) -> Context>(
    f: F, start: Context, end: Context, r: FullOutput, ins: Seq<Context>, outs: Seq<Context>,
)
    requires
        frame_record(f, start, end, r, ins, outs),
        forall|c: Context, d: Context| #[trigger] f.ensures((c,), d) ==> d.state().options_view() == c.state().options_view()
            && d.state().repaint_view().cumulative_frame_nr == c.state().repaint_view().cumulative_frame_nr,
    ensures
        forall|i: int| 0 <= i < ins.len() ==> (#[trigger] ins[i]).state().options_view() == start.state().options_view(),
        end.state().repaint_view().cumulative_frame_nr == (if start.state().repaint_view().cumulative_frame_nr < u64::MAX {
            start.state().repaint_view().cumulative_frame_nr + 1
        } else {
            start.state().repaint_view().cumulative_frame_nr as int
        }),
{
    let n = ins.len() as int;
    let s = start.state();
    assert forall|i: int| 0 <= i < n implies (#[trigger] ins[i]).state().options_view() == s.options_view()
        && ins[i].state().repaint_view().cumulative_frame_nr == s.repaint_view().cumulative_frame_nr by {
        lemma_frame_prefix(f, start, end, r, ins, outs, i);
    }
    assert(f.ensures((ins[n - 1],), outs[n - 1]));
}

proof fn lemma_frame_prefix<F: FnMut(Context) -> Context>(
    f: F, start: Context, end: Context, r: FullOutput, ins: Seq<Context>, outs: Seq<Context>, i: int,
)
    requires
        frame_record(f, start, end, r, ins, outs),
        forall|c: Context, d: Context| #[trigger] f.ensures((c,), d) ==> d.state().options_view() == c.state().options_view()
            && d.state().repaint_view().cumulative_frame_nr == c.state().repaint_view().cumulative_frame_nr,
        0 <= i < ins.len(),
    ensures
        ins[i].state().options_view() == start.state().options_view(),
        ins[i].state().repaint_view().cumulative_frame_nr == start.state().repaint_view().cumulative_frame_nr,
    decreases i,
{
    if i > 0 {
        lemma_frame_prefix(f, start, end, r, ins, outs, i - 1);
        assert(f.ensures((ins[i - 1],), outs[i - 1]));
        assert(ins[(i - 1) + 1] == ins[i]);
    }
}

} // verus!
