use egui::id::Id;
use egui::repaint::{RepaintCause, ViewportId, ViewportRepaintInfo, NO_REPAINT};

#[test]
fn zero_delay_gives_two_repaints() {
    let vid = ViewportId(Id::new("root"));
    let mut info = ViewportRepaintInfo::new();
    // The first pass repaints because of the initial outstanding request.
    let r = info.begin_pass(vid).unwrap();
    assert_eq!(r.delay, 0);
    assert_eq!(info.outstanding, 0);
    let r = info.request_repaint_after(0, 0, vid, RepaintCause::new("here", 1));
    assert_eq!(r.map(|i| i.delay), None, "already at zero this pass");
    assert_eq!(info.outstanding, 1);
    assert!(info.begin_pass(vid).is_some());
    assert!(info.requested_immediate_repaint_prev_pass());
    assert!(info.begin_pass(vid).is_none());
    assert_eq!(info.repaint_delay, NO_REPAINT);
    assert!(!info.has_requested_repaint());
}

#[test]
fn smallest_delay_wins_and_callback_only_on_decrease() {
    let vid = ViewportId(Id::new("root"));
    let mut info = ViewportRepaintInfo::new();
    info.outstanding = 0;
    info.begin_pass(vid);
    let r = info.request_repaint_after(100_000, 16_000, vid, RepaintCause::new_reason("here", 2, "tooltip"));
    assert_eq!(r.unwrap().delay, 84_000);
    assert!(info.request_repaint_after(200_000, 16_000, vid, RepaintCause::new("here", 3)).is_none());
    assert_eq!(info.request_repaint_after(50_000, 16_000, vid, RepaintCause::new("here", 4)).unwrap().delay, 34_000);
    assert_eq!(info.repaint_delay, 34_000);
    assert_eq!(info.causes.len(), 3);
    assert_eq!(info.causes[0].reason, "tooltip");
    info.begin_pass(vid);
    assert_eq!(info.prev_causes.len(), 3);
    assert_eq!(info.prev_pass_paint_delay, 34_000);
}

#[test]
fn defaults_schedule_one_initial_repaint() {
    let info = ViewportRepaintInfo::default();
    assert_eq!(info.outstanding, 1);
    assert_eq!(info.repaint_delay, NO_REPAINT);
    assert!(!info.requested_immediate_repaint_prev_pass());
    assert!(info.has_requested_repaint());
    let options = egui::context::Options::default();
    assert_eq!(options.max_passes, 2);
    let memory = egui::memory::Memory::default();
    assert_eq!(memory.focused(), None);
}
