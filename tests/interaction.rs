use egui::context::{Context, IdClash, RawInput};
use egui::geometry::{Pos2, Rect};
use egui::hit_test::hit_test;
use egui::id::Id;
use egui::interaction::{interact, InteractionSnapshot, InteractionState, PointerEvent, PointerInput, WidgetHits};
use egui::layers::{LayerId, Order};
use egui::repaint::ViewportId;
use egui::widget_rect::{Sense, WidgetRect, WidgetRects};

fn rect(x0: i64, y0: i64, x1: i64, y1: i64) -> Rect {
    Rect::from_min_max(Pos2::new(x0, y0), Pos2::new(x1, y1))
}

fn widget(name: &str, layer: LayerId, r: Rect, sense: Sense) -> WidgetRect {
    WidgetRect { id: Id::new(name), layer_id: layer, rect: r, interact_rect: r, sense, enabled: true }
}

fn empty_snapshot() -> InteractionSnapshot {
    InteractionSnapshot {
        clicked: None,
        long_touched: None,
        drag_started: None,
        dragged: None,
        drag_stopped: None,
        contains_pointer: vec![],
        hovered: vec![],
    }
}

fn pointer(events: Vec<PointerEvent>, any_down: bool, dragging: bool) -> PointerInput {
    PointerInput {
        events,
        is_decidedly_dragging: dragging,
        could_any_button_be_click: !dragging,
        any_down,
        has_pos: true,
        is_long_touch: false,
    }
}

#[test]
fn starting_a_new_drag_stops_the_old_one_in_the_same_pass() {
    let mut ctx = Context::new(ViewportId(Id::new("root")), rect(0, 0, 800, 600));
    let a = Id::new("a");
    let b = Id::new("b");
    ctx.set_dragged_id(a);
    assert_eq!(ctx.dragged_id(), Some(a));
    assert_eq!(ctx.drag_started_id(), Some(a));
    ctx.set_dragged_id(b);
    assert_eq!(ctx.dragged_id(), Some(b));
    assert_eq!(ctx.drag_started_id(), Some(b));
    assert_eq!(ctx.drag_stopped_id(), Some(a));
    ctx.stop_dragging();
    assert_eq!(ctx.dragged_id(), None);
    assert_eq!(ctx.drag_stopped_id(), Some(b));
}

#[test]
fn press_move_release_drags_exactly_one_widget() {
    let layer = LayerId::background();
    let mut widgets = WidgetRects::new();
    let handle = widget("handle", layer, rect(0, 0, 10, 10), Sense::drag());
    widgets.insert(handle);
    let hits = WidgetHits { click: None, drag: Some(handle), contains_pointer: vec![handle], close: vec![handle] };
    let mut state = InteractionState::new();

    // Press: a drag-only widget is dragged at once.
    let s1 = interact(&empty_snapshot(), &widgets, &hits, &pointer(vec![PointerEvent::Pressed], true, false), &mut state);
    assert_eq!(s1.dragged, Some(handle.id));
    assert_eq!(s1.drag_started, Some(handle.id));
    assert_eq!(s1.drag_stopped, None);
    assert!(state.is_using_pointer());

    // Move: still dragged, nothing started or stopped.
    let s2 = interact(&s1, &widgets, &hits, &pointer(vec![PointerEvent::Moved], true, true), &mut state);
    assert_eq!(s2.dragged, Some(handle.id));
    assert_eq!(s2.drag_started, None);

    // Release: the drag stops once.
    let s3 = interact(&s2, &widgets, &hits, &pointer(vec![PointerEvent::Released { click: false }], false, true), &mut state);
    assert_eq!(s3.dragged, None);
    assert_eq!(s3.drag_stopped, Some(handle.id));
    assert!(!state.is_using_pointer());
}

#[test]
fn click_and_drag_widget_waits_for_movement() {
    let layer = LayerId::background();
    let mut widgets = WidgetRects::new();
    let both = widget("both", layer, rect(0, 0, 10, 10), Sense::click_and_drag());
    widgets.insert(both);
    let hits = WidgetHits { click: Some(both), drag: Some(both), contains_pointer: vec![both], close: vec![both] };
    let mut state = InteractionState::new();
    let s1 = interact(&empty_snapshot(), &widgets, &hits, &pointer(vec![PointerEvent::Pressed], true, false), &mut state);
    assert_eq!(s1.dragged, None);
    // Release without moving: a click.
    let s2 = interact(&s1, &widgets, &hits, &pointer(vec![PointerEvent::Released { click: true }], false, false), &mut state);
    assert_eq!(s2.clicked, Some(both.id));
    assert_eq!(s2.dragged, None);
    assert_eq!(s2.hovered, vec![both.id]);
}

#[test]
fn hit_test_topmost_layer_wins() {
    let low = LayerId::new(Order::Middle, Id::new("low"));
    let high = LayerId::new(Order::Middle, Id::new("high"));
    let mut widgets = WidgetRects::new();
    let under = widget("under", low, rect(0, 0, 100, 100), Sense::click());
    let label = widget("label", high, rect(40, 40, 60, 60), Sense::hover());
    let far = widget("far", high, rect(500, 500, 510, 510), Sense::click());
    widgets.insert(under);
    widgets.insert(label);
    widgets.insert(far);
    let hits = hit_test(&widgets, &vec![high, low], Pos2::new(50, 50), 0);
    // The high layer owns the pointer through its label, even though only
    // the low layer has a clickable widget there.
    assert_eq!(hits.contains_pointer, vec![label]);
    assert_eq!(hits.click, None);
    let hits = hit_test(&widgets, &vec![high, low], Pos2::new(10, 10), 0);
    assert_eq!(hits.click, Some(under));
    let hits = hit_test(&widgets, &vec![high, low], Pos2::new(103, 50), 5);
    assert_eq!(hits.click, Some(under));
    // Within the touch tolerance, but not inside.
    assert_eq!(hits.close, vec![under]);
    assert!(hits.contains_pointer.is_empty());
    let hits = hit_test(&widgets, &vec![high, low], Pos2::new(300, 300), 5);
    assert!(hits.contains_pointer.is_empty());
    assert!(hits.close.is_empty());
}

#[test]
fn registry_merges_reregistration() {
    let layer = LayerId::background();
    let mut widgets = WidgetRects::new();
    let first = widget("w", layer, rect(0, 0, 10, 10), Sense::click());
    let other = widget("other", layer, rect(20, 0, 30, 10), Sense::hover());
    widgets.insert(first);
    widgets.insert(other);
    let mut again = widget("w", layer, rect(0, 0, 12, 12), Sense::drag());
    again.enabled = false;
    widgets.insert(again);
    let got = widgets.get(Id::new("w")).unwrap();
    assert_eq!(got.rect, rect(0, 0, 12, 12));
    assert!(got.sense.click && got.sense.drag);
    assert!(got.enabled);
    assert_eq!(widgets.order(Id::new("other")), Some((layer, 1)));
    assert_eq!(widgets.order(Id::new("w")), Some((layer, 0)));
    assert_eq!(widgets.get_layer(layer).len(), 2);
    assert_eq!(widgets.layer_ids(), vec![layer]);
    widgets.clear();
    assert!(!widgets.contains(Id::new("w")));
}

#[test]
fn id_clash_kinds() {
    let mut ctx = Context::new(ViewportId(Id::new("root")), rect(0, 0, 800, 600));
    ctx.begin_pass(RawInput::new(rect(0, 0, 800, 600)));
    let id = Id::new("dup");
    assert_eq!(ctx.check_for_id_clash(id, rect(0, 0, 10, 10)), IdClash::NoClash);
    assert_eq!(ctx.check_for_id_clash(id, rect(0, 0, 10, 10)), IdClash::NoClash);
    assert_eq!(ctx.check_for_id_clash(id, rect(2, 2, 30, 30)), IdClash::DoubleUse { rect: rect(2, 2, 30, 30) });
    assert_eq!(
        ctx.check_for_id_clash(id, rect(200, 200, 210, 210)),
        IdClash::FirstAndSecondUse { first: rect(2, 2, 30, 30), second: rect(200, 200, 210, 210) }
    );
}

#[test]
fn click_through_context_passes() {
    let screen = rect(0, 0, 800, 600);
    let mut ctx = Context::new(ViewportId(Id::new("root")), screen);
    let b = widget("button", LayerId::background(), rect(10, 10, 50, 30), Sense::click());
    // Pass 1: register the button.
    ctx.begin_pass(RawInput::new(screen));
    ctx.create_widget(b, true);
    let _ = ctx.end_pass();
    // Pass 2: press on it.
    let mut input = RawInput::new(screen);
    input.pointer_pos = Some(Pos2::new(20, 20));
    input.pointer = pointer(vec![PointerEvent::Pressed], true, false);
    ctx.begin_pass(input);
    let (r, _) = ctx.create_widget(b, true);
    assert!(r.is_pointer_button_down_on());
    assert!(r.contains_pointer());
    let _ = ctx.end_pass();
    // Pass 3: release: clicked.
    let mut input = RawInput::new(screen);
    input.pointer_pos = Some(Pos2::new(20, 20));
    input.pointer = pointer(vec![PointerEvent::Released { click: true }], false, false);
    ctx.begin_pass(input);
    let (r, _) = ctx.create_widget(b, true);
    assert!(r.clicked());
    assert!(!r.is_pointer_button_down_on());
    let _ = ctx.end_pass();
}

#[test]
fn highlight_shows_in_the_next_pass() {
    let screen = rect(0, 0, 800, 600);
    let mut ctx = Context::new(ViewportId(Id::new("root")), screen);
    let b = widget("button", LayerId::background(), rect(10, 10, 50, 30), Sense::click());
    ctx.begin_pass(RawInput::new(screen));
    let (r, _) = ctx.create_widget(b, true);
    assert!(!r.highlighted());
    ctx.highlight_widget(b.id);
    let _ = ctx.end_pass();
    ctx.begin_pass(RawInput::new(screen));
    let (r, _) = ctx.create_widget(b, true);
    assert!(r.highlighted());
    let mut r2 = r.with_new_rect(rect(0, 0, 1, 1));
    assert_eq!(r2.rect, rect(0, 0, 1, 1));
    r2.mark_changed();
    r2.set_close();
    assert!(r2.changed() && r2.should_close());
    let _ = ctx.end_pass();
}

#[test]
fn space_on_focused_button_is_a_click() {
    let screen = rect(0, 0, 800, 600);
    let mut ctx = Context::new(ViewportId(Id::new("root")), screen);
    let b = widget("button", LayerId::background(), rect(10, 10, 50, 30), Sense::click());
    ctx.begin_pass(RawInput::new(screen));
    ctx.create_widget(b, true);
    ctx.request_focus(b.id);
    let _ = ctx.end_pass();
    let mut input = RawInput::new(screen);
    input.keys = vec![egui::focus::KeyEvent { key: egui::focus::Key::Space, pressed: true, repeat: false, shift: false }];
    ctx.begin_pass(input);
    let (r, _) = ctx.create_widget(b, true);
    assert!(r.clicked());
    assert!(!r.flags.clicked);
    let _ = ctx.end_pass();
}

#[test]
fn animation_requests_repaint_while_running() {
    let screen = rect(0, 0, 800, 600);
    let mut ctx = Context::new(ViewportId(Id::new("root")), screen);
    let id = Id::new("anim");
    let mut input = RawInput::new(screen);
    input.time = 1_000_000;
    ctx.begin_pass(input);
    assert_eq!(ctx.animate_bool_with_time(id, false, 100_000), 0);
    let _ = ctx.end_pass();
    let mut input = RawInput::new(screen);
    input.time = 1_016_666;
    ctx.begin_pass(input);
    let v = ctx.animate_bool_with_time(id, true, 100_000);
    assert!(v > 0 && v < egui::animation::ANIM_SCALE);
    assert_eq!(ctx.read().repaint_delay(), 0);
    let _ = ctx.end_pass();
}

#[test]
fn click_outside_a_popup_is_clicked_elsewhere() {
    let screen = rect(0, 0, 800, 600);
    let mut ctx = Context::new(ViewportId(Id::new("root")), screen);
    let popup = widget("popup", LayerId::background(), rect(10, 10, 50, 30), Sense::hover());
    ctx.begin_pass(RawInput::new(screen));
    ctx.create_widget(popup, true);
    let _ = ctx.end_pass();
    let mut input = RawInput::new(screen);
    input.pointer_pos = Some(Pos2::new(400, 400));
    input.pointer = pointer(vec![PointerEvent::Released { click: true }], false, false);
    ctx.begin_pass(input);
    let (r, _) = ctx.create_widget(popup, true);
    assert!(ctx.clicked_elsewhere(&r));
    let _ = ctx.end_pass();
    let mut input = RawInput::new(screen);
    input.pointer_pos = Some(Pos2::new(20, 20));
    input.pointer = pointer(vec![PointerEvent::Released { click: true }], false, false);
    ctx.begin_pass(input);
    let (r, _) = ctx.create_widget(popup, true);
    assert!(!ctx.clicked_elsewhere(&r));
    let _ = ctx.end_pass();
}

#[test]
fn interact_adds_senses() {
    let screen = rect(0, 0, 800, 600);
    let mut ctx = Context::new(ViewportId(Id::new("root")), screen);
    let label = widget("label", LayerId::background(), rect(10, 10, 50, 30), Sense::hover());
    ctx.begin_pass(RawInput::new(screen));
    let (r, _) = ctx.create_widget(label, true);
    let same = ctx.interact(&r, Sense::hover());
    assert_eq!(same, r);
    let more = ctx.interact(&r, Sense::click());
    assert!(more.sense.click);
    assert_eq!(more.id, r.id);
    let _ = ctx.end_pass();
}
