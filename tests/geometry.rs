use egui::context::{Context, RawInput};
use egui::geometry::{Pos2, Rect};
use egui::id::Id;
use egui::layers::LayerId;
use egui::repaint::ViewportId;

fn rect(x0: i64, y0: i64, x1: i64, y1: i64) -> Rect {
    Rect::from_min_max(Pos2::new(x0, y0), Pos2::new(x1, y1))
}

#[test]
fn window_is_moved_inside_area() {
    let area = rect(0, 0, 800, 600);
    assert_eq!(Rect::constrain_to_area(rect(750, 580, 850, 680), area), rect(700, 500, 800, 600));
    assert_eq!(Rect::constrain_to_area(rect(-20, -10, 80, 90), area), rect(0, 0, 100, 100));
    assert_eq!(Rect::constrain_to_area(rect(10, 10, 110, 110), area), rect(10, 10, 110, 110));
}

#[test]
fn too_large_window_may_stick_out_by_its_excess() {
    let area = rect(0, 0, 100, 100);
    // 50 wider than the area: may stick out up to 50 on either side.
    assert_eq!(Rect::constrain_to_area(rect(-80, 0, 70, 100), area), rect(-50, 0, 100, 100));
    assert_eq!(Rect::constrain_to_area(rect(-20, 0, 130, 100), area), rect(-20, 0, 130, 100));
}

#[test]
fn rect_contains_pointer_respects_layers() {
    let screen = rect(0, 0, 800, 600);
    let mut ctx = Context::new(ViewportId(Id::new("root")), screen);
    let mut input = RawInput::new(screen);
    input.pointer_pos = Some(Pos2::new(20, 20));
    ctx.begin_pass(input);
    let bg = LayerId::background();
    assert!(ctx.read().rect_contains_pointer(bg, rect(10, 10, 30, 30)));
    assert!(!ctx.read().rect_contains_pointer(bg, rect(100, 100, 130, 130)));
    assert!(!ctx.read().rect_contains_pointer(bg, rect(30, 30, 10, 10)));
    assert!(!ctx.read().rect_contains_pointer(LayerId::debug(), rect(10, 10, 30, 30)));
}

#[test]
fn nothing_and_everything() {
    assert!(!Rect::nothing().contains(Pos2::new(0, 0)));
    assert!(Rect::everything().contains(Pos2::new(-5, 7)));
    assert!(rect(0, 0, 10, 10).contains_rect(rect(2, 2, 8, 8)));
    assert_eq!(rect(0, 0, 10, 10).expand(2), rect(-2, -2, 12, 12));
    assert_eq!(Pos2::new(0, 0).distance_sq(Pos2::new(3, 4)), 25);
}
