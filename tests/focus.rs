use egui::context::{Context, RawInput};
use egui::focus::{EventFilter, Focus, Key, KeyEvent};
use egui::geometry::{Pos2, Rect};
use egui::id::Id;
use egui::layers::{LayerId, Order};
use egui::memory::Memory;
use egui::repaint::ViewportId;
use egui::widget_rect::{Sense, WidgetRect};
use std::collections::HashMap;

fn screen() -> Rect {
    Rect::from_min_max(Pos2::new(0, 0), Pos2::new(800, 600))
}

fn key(k: Key, shift: bool) -> KeyEvent {
    KeyEvent { key: k, pressed: true, repeat: false, shift }
}

fn button(name: &str, y: i64) -> WidgetRect {
    let r = Rect::from_min_max(Pos2::new(10, y), Pos2::new(100, y + 20));
    WidgetRect {
        id: Id::new(name),
        layer_id: LayerId::background(),
        rect: r,
        interact_rect: r,
        sense: Sense::click(),
        enabled: true,
    }
}

#[test]
fn dead_mans_switch_drops_focus_of_vanished_widget() {
    let mut ctx = Context::new(ViewportId(Id::new("root")), screen());
    let w = button("field", 10);

    // Pass N: the widget is shown and asks for focus.
    ctx.begin_pass(RawInput::new(screen()));
    ctx.create_widget(w, true);
    ctx.request_focus(w.id);
    let _ = ctx.end_pass();
    assert!(ctx.has_focus(w.id));

    // Pass N+1: the widget is not shown.
    ctx.begin_pass(RawInput::new(screen()));
    assert!(ctx.has_focus(w.id));
    let _ = ctx.end_pass();

    // Pass N+2: focus is gone.
    ctx.begin_pass(RawInput::new(screen()));
    assert!(!ctx.has_focus(w.id));
    let _ = ctx.end_pass();
}

#[test]
fn request_focus_has_one_pass_of_grace() {
    let mut ctx = Context::new(ViewportId(Id::new("root")), screen());
    let w = button("later", 10);
    ctx.begin_pass(RawInput::new(screen()));
    // Focus asked for before the widget is ever registered.
    ctx.request_focus(w.id);
    let _ = ctx.end_pass();
    assert!(ctx.has_focus(w.id));
    ctx.begin_pass(RawInput::new(screen()));
    ctx.create_widget(w, true);
    let _ = ctx.end_pass();
    assert!(ctx.has_focus(w.id));
}

#[test]
fn tab_gives_focus_to_first_interested_widget() {
    let mut f = Focus::new();
    f.begin_pass(&vec![key(Key::Tab, false)]);
    f.interested_in_focus(Id::new("a"));
    f.interested_in_focus(Id::new("b"));
    assert_eq!(f.focused(), Some(Id::new("a")));
}

#[test]
fn tab_moves_focus_to_next_widget() {
    let mut f = Focus::new();
    f.begin_pass(&vec![]);
    f.interested_in_focus(Id::new("a"));
    f.interested_in_focus(Id::new("b"));
    f.focused_widget = Some(egui::focus::FocusWidget::new(Id::new("a")));
    let used: HashMap<u64, Rect> = HashMap::new();
    f.end_pass(&used, None);
    f.begin_pass(&vec![key(Key::Tab, false)]);
    f.interested_in_focus(Id::new("a"));
    assert_eq!(f.focused(), None);
    f.interested_in_focus(Id::new("b"));
    assert_eq!(f.focused(), Some(Id::new("b")));
}

#[test]
fn shift_tab_with_nothing_focused_picks_last_interested() {
    let mut f = Focus::new();
    f.begin_pass(&vec![]);
    f.interested_in_focus(Id::new("a"));
    f.interested_in_focus(Id::new("b"));
    let used: HashMap<u64, Rect> = HashMap::new();
    f.end_pass(&used, None);
    f.begin_pass(&vec![key(Key::Tab, true)]);
    f.interested_in_focus(Id::new("a"));
    assert_eq!(f.focused(), Some(Id::new("b")));
}

#[test]
fn escape_clears_focus_unless_kept() {
    let mut f = Focus::new();
    f.focused_widget = Some(egui::focus::FocusWidget::new(Id::new("a")));
    f.begin_pass(&vec![key(Key::Escape, false)]);
    assert_eq!(f.focused(), None);

    let mut g = Focus::new();
    g.focused_widget = Some(egui::focus::FocusWidget {
        id: Id::new("a"),
        filter: EventFilter { tab: false, horizontal_arrows: false, vertical_arrows: false, escape: true },
    });
    g.begin_pass(&vec![key(Key::Escape, false)]);
    assert_eq!(g.focused(), Some(Id::new("a")));
}

#[test]
fn arrow_key_moves_focus_to_found_widget() {
    let mut f = Focus::new();
    f.focused_widget = Some(egui::focus::FocusWidget::new(Id::new("a")));
    f.begin_pass(&vec![key(Key::ArrowDown, false)]);
    assert!(f.focus_direction.is_cardinal());
    let mut used: HashMap<u64, Rect> = HashMap::new();
    used.insert(Id::new("b").value(), screen());
    f.end_pass(&used, Some(Id::new("b")));
    assert_eq!(f.focused(), Some(Id::new("b")));
}

#[test]
fn modal_layer_blocks_focus_below_it() {
    let mut mem = Memory::new();
    let low = LayerId::new(Order::Middle, Id::new("low"));
    let modal = LayerId::new(Order::Middle, Id::new("modal"));
    mem.areas.set_state(low, egui::areas::AreaState::new(Rect::nothing(), true));
    mem.areas.set_state(modal, egui::areas::AreaState::new(Rect::nothing(), true));
    mem.set_modal_layer(modal);
    let used: HashMap<u64, Rect> = HashMap::new();
    mem.end_pass(&used, None);
    assert_eq!(mem.top_modal_layer(), Some(modal));
    assert!(!mem.allows_interaction(low));
    assert!(mem.allows_interaction(modal));
    mem.begin_pass(&vec![key(Key::Tab, false)]);
    mem.interested_in_focus(Id::new("below"), low);
    assert_eq!(mem.focused(), None);
    mem.interested_in_focus(Id::new("inside"), modal);
    assert_eq!(mem.focused(), Some(Id::new("inside")));
}

#[test]
fn popup_closes_when_not_kept_open() {
    let mut mem = Memory::new();
    let p = Id::new("menu");
    mem.open_popup(p);
    assert!(mem.is_popup_open(p));
    let used: HashMap<u64, Rect> = HashMap::new();
    mem.end_pass(&used, None);
    assert!(mem.is_popup_open(p));
    mem.keep_popup_open(p);
    mem.end_pass(&used, None);
    assert!(mem.is_popup_open(p));
    mem.end_pass(&used, None);
    assert!(!mem.is_popup_open(p));
    mem.toggle_popup(p);
    assert!(mem.is_popup_open(p));
    mem.toggle_popup(p);
    assert!(!mem.any_popup_open());
}

#[test]
fn ime_incompatible_events_are_removed() {
    let mut events = vec![
        key(Key::Tab, false),
        key(Key::Backspace, false),
        KeyEvent { key: Key::Enter, pressed: true, repeat: true, shift: false },
        key(Key::ArrowLeft, false),
        key(Key::Enter, false),
    ];
    egui::focus::remove_ime_incompatible_events(&mut events);
    assert_eq!(events, vec![key(Key::Tab, false), key(Key::Enter, false)]);
}

#[test]
fn arrow_key_search_input_lists_used_candidates() {
    let mut ctx = Context::new(ViewportId(Id::new("root")), screen());
    let a = button("a", 10);
    let b = button("b", 100);
    ctx.begin_pass(RawInput::new(screen()));
    ctx.create_widget(a, true);
    ctx.create_widget(b, true);
    ctx.request_focus(a.id);
    let _ = ctx.end_pass();
    let mut input = RawInput::new(screen());
    input.keys = vec![key(Key::ArrowDown, false)];
    ctx.begin_pass(input);
    ctx.create_widget(a, true);
    ctx.create_widget(b, true);
    let (dir, current, candidates) = ctx.read().direction_search().unwrap();
    assert_eq!(dir, egui::focus::FocusDirection::Down);
    assert_eq!(current, a.id);
    assert_eq!(candidates, vec![(a.id, a.rect), (b.id, b.rect)]);
    ctx.set_focus_direction_target(Some(b.id));
    let _ = ctx.end_pass();
    assert!(ctx.has_focus(b.id));
}
