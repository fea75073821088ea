use egui::context::{Context, RawInput};
use egui::geometry::{Pos2, Rect};
use egui::id::Id;
use egui::repaint::ViewportId;
use egui::viewports::ViewportRegistry;

fn root() -> ViewportId {
    ViewportId(Id::null())
}

#[test]
fn unused_children_and_orphans_are_dropped() {
    let a = ViewportId(Id::new("a"));
    let b = ViewportId(Id::new("b"));
    let mut reg = ViewportRegistry::new();
    reg.mark_used(a, root());
    reg.mark_used(b, a);
    assert_eq!(reg.parent_of(b), a);
    assert_eq!(reg.parent_of(ViewportId(Id::new("unknown"))), root());
    assert_eq!(reg.all_viewport_ids().len(), 3);

    // The root's pass ends: `a` was shown, so it stays.
    reg.end_pass(root());
    assert_eq!(reg.all_viewport_ids(), vec![a, b, root()]);

    // Next pass `a` is not shown: it goes; `b` still had a parent then.
    reg.end_pass(root());
    assert_eq!(reg.all_viewport_ids(), vec![b, root()]);

    // Now `b` is an orphan.
    reg.end_pass(root());
    assert_eq!(reg.all_viewport_ids(), vec![root()]);
}

#[test]
fn context_drops_child_viewport_not_shown() {
    let screen = Rect::from_min_max(Pos2::new(0, 0), Pos2::new(800, 600));
    let mut ctx = Context::new(root(), screen);
    let child = ViewportId(Id::new("child"));
    let _ = ctx.run(RawInput::new(screen), |mut ctx: Context| {
        ctx.show_viewport(child);
        ctx
    });
    assert_eq!(ctx.read().all_viewport_ids(), vec![child, root()]);
    let _ = ctx.run(RawInput::new(screen), |ctx: Context| ctx);
    assert_eq!(ctx.read().all_viewport_ids(), vec![root()]);
    assert_eq!(ctx.read().parent_viewport_id(), root());
}
