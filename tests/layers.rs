use egui::areas::{layers_top_first, AreaState, Areas};
use egui::geometry::{Pos2, Rect};
use egui::id::Id;
use egui::layers::{LayerId, Order};
use std::cmp::Ordering;

fn rect(x0: i64, y0: i64, x1: i64, y1: i64) -> Rect {
    Rect::from_min_max(Pos2::new(x0, y0), Pos2::new(x1, y1))
}

fn layer(order: Order, name: &str) -> LayerId {
    LayerId::new(order, Id::new(name))
}

#[test]
fn compare_order_on_background_and_tooltip_seed() {
    let layers = [
        layer(Order::Background, "b1"),
        layer(Order::Background, "b2"),
        layer(Order::Tooltip, "t1"),
        layer(Order::Tooltip, "t2"),
    ];
    let mut areas = Areas::new();
    for &l in &layers {
        areas.set_state(l, AreaState::new(Rect::nothing(), true));
    }
    areas.end_pass();
    let order = areas.order().clone();
    assert_eq!(order, layers.to_vec());
    for (i, &a) in order.iter().enumerate() {
        for (j, &b) in order.iter().enumerate() {
            assert_eq!(areas.compare_order(a, b), i.cmp(&j));
        }
    }
}

#[test]
fn unranked_layer_is_below_ranked_in_same_class() {
    let mut areas = Areas::new();
    let a = layer(Order::Middle, "a");
    let b = layer(Order::Middle, "b");
    areas.set_state(a, AreaState::new(Rect::nothing(), true));
    areas.end_pass();
    assert_eq!(areas.compare_order(b, a), Ordering::Less);
    assert_eq!(areas.compare_order(a, layer(Order::Foreground, "f")), Ordering::Less);
}

#[test]
fn move_to_top_keeps_previous_relative_order() {
    let mut areas = Areas::new();
    let a = layer(Order::Middle, "a");
    let b = layer(Order::Middle, "b");
    let c = layer(Order::Middle, "c");
    for &l in &[a, b, c] {
        areas.set_state(l, AreaState::new(Rect::nothing(), true));
    }
    areas.end_pass();
    // Both c and a ask; they go above b, keeping a below c.
    areas.move_to_top(c);
    areas.move_to_top(a);
    areas.end_pass();
    assert_eq!(areas.order().clone(), vec![b, a, c]);
}

#[test]
fn sort_puts_classes_in_order() {
    let mut areas = Areas::new();
    let t = layer(Order::Tooltip, "t");
    let m = layer(Order::Middle, "m");
    let bg = layer(Order::Background, "bg");
    for &l in &[t, m, bg] {
        areas.set_state(l, AreaState::new(Rect::nothing(), true));
    }
    areas.end_pass();
    assert_eq!(areas.order().clone(), vec![bg, m, t]);
}

#[test]
fn sublayers_follow_their_parent() {
    let mut areas = Areas::new();
    let p = layer(Order::Middle, "parent");
    let x = layer(Order::Middle, "x");
    let child = layer(Order::Middle, "child");
    for &l in &[child, p, x] {
        areas.set_state(l, AreaState::new(Rect::nothing(), true));
    }
    areas.set_sublayer(p, child);
    assert_eq!(areas.parent_layer(child), Some(p));
    assert!(areas.is_sublayer(child));
    assert_eq!(areas.child_layers(p), vec![child]);
    assert_eq!(areas.top_layer_id(Order::Middle), Some(x));
    areas.end_pass();
    assert_eq!(areas.order().clone(), vec![p, child, x]);
    assert_eq!(areas.parent_layer(child), None);
}

#[test]
fn visibility_hysteresis_round_trip() {
    let mut areas = Areas::new();
    let l = layer(Order::Foreground, "popup");
    // Pass N: registered.
    areas.set_state(l, AreaState::new(Rect::nothing(), true));
    assert!(areas.is_visible(&l));
    areas.end_pass();
    // Pass N+1: not registered, still visible.
    assert!(areas.is_visible(&l));
    assert!(areas.visible_last_frame(&l));
    areas.end_pass();
    // Pass N+2: gone.
    assert!(!areas.is_visible(&l));
    assert!(areas.visible_layer_ids().is_empty());
}

#[test]
fn layer_id_at_picks_topmost_interactable() {
    let mut areas = Areas::new();
    let low = layer(Order::Middle, "low");
    let high = layer(Order::Middle, "high");
    let inert = layer(Order::Tooltip, "inert");
    areas.set_state(low, AreaState::new(rect(0, 0, 100, 100), true));
    areas.set_state(high, AreaState::new(rect(50, 50, 150, 150), true));
    areas.set_state(inert, AreaState::new(rect(0, 0, 200, 200), false));
    areas.end_pass();
    assert_eq!(areas.layer_id_at(Pos2::new(75, 75)), Some(high));
    assert_eq!(areas.layer_id_at(Pos2::new(10, 10)), Some(low));
    assert_eq!(areas.layer_id_at(Pos2::new(190, 190)), None);
}

#[test]
fn layers_top_first_orders_by_class_then_rank() {
    let mut areas = Areas::new();
    let bg = layer(Order::Background, "bg");
    let m1 = layer(Order::Middle, "m1");
    let m2 = layer(Order::Middle, "m2");
    for &l in &[bg, m1, m2] {
        areas.set_state(l, AreaState::new(Rect::nothing(), true));
    }
    areas.end_pass();
    let fresh = layer(Order::Middle, "fresh");
    let top = layers_top_first(&areas, &vec![bg, fresh, m1, m2]);
    assert_eq!(top, vec![m2, m1, fresh, bg]);
}

#[test]
fn visible_windows_are_middle_non_sublayers() {
    let mut areas = Areas::new();
    let w = layer(Order::Middle, "window");
    let sub = layer(Order::Middle, "sub");
    let tip = layer(Order::Tooltip, "tip");
    for &l in &[w, sub, tip] {
        areas.set_state(l, AreaState::new(rect(0, 0, 10, 10), true));
    }
    areas.set_sublayer(w, sub);
    let windows = areas.visible_windows();
    assert_eq!(windows, vec![(w, AreaState::new(rect(0, 0, 10, 10), true))]);
}
