use egui::context::{Context, RawInput};
use egui::geometry::{Pos2, Rect};
use egui::id::Id;
use egui::repaint::{RepaintCause, ViewportId};

fn screen() -> Rect {
    Rect::from_min_max(Pos2::new(0, 0), Pos2::new(800, 600))
}

fn new_ctx() -> Context {
    Context::new(ViewportId(Id::new("root")), screen())
}

fn cause(reason: &str) -> RepaintCause {
    RepaintCause::new_reason("tests/context.rs", 1, reason)
}

#[test]
fn test_single_pass() {
    let mut ctx = new_ctx();
    ctx.set_max_passes(1);

    // A single call, no request to discard:
    {
        let mut num_calls = 0;
        let output = ctx.run(RawInput::new(screen()), |mut ctx: Context| {
            num_calls += 1;
            assert_eq!(ctx.output().num_completed_passes, 0);
            assert!(!ctx.output().requested_discard());
            assert!(!ctx.will_discard());
            ctx
        });
        assert_eq!(num_calls, 1);
        assert_eq!(output.platform_output.num_completed_passes, 1);
        assert!(!output.platform_output.requested_discard());
    }

    // A single call, with a denied request to discard:
    {
        let mut num_calls = 0;
        let output = ctx.run(RawInput::new(screen()), |mut ctx: Context| {
            num_calls += 1;
            ctx.request_discard(cause("test"));
            assert!(!ctx.will_discard(), "The request should have been denied");
            ctx
        });
        assert_eq!(num_calls, 1);
        assert_eq!(output.platform_output.num_completed_passes, 1);
        assert!(output.platform_output.requested_discard(), "The request should be reported");
        assert_eq!(output.platform_output.request_discard_reasons.first().unwrap().reason, "test");
    }
}

#[test]
fn test_dual_pass() {
    let mut ctx = new_ctx();
    ctx.set_max_passes(2);

    // Normal single pass:
    {
        let mut num_calls = 0;
        let output = ctx.run(RawInput::new(screen()), |mut ctx: Context| {
            assert_eq!(ctx.output().num_completed_passes, 0);
            assert!(!ctx.output().requested_discard());
            assert!(!ctx.will_discard());
            num_calls += 1;
            ctx
        });
        assert_eq!(num_calls, 1);
        assert_eq!(output.platform_output.num_completed_passes, 1);
        assert!(!output.platform_output.requested_discard());
    }

    // Request discard once:
    {
        let mut num_calls = 0;
        let output = ctx.run(RawInput::new(screen()), |mut ctx: Context| {
            assert_eq!(ctx.output().num_completed_passes, num_calls);

            assert!(!ctx.will_discard());
            if num_calls == 0 {
                ctx.request_discard(cause("test"));
                assert!(ctx.will_discard());
            }

            num_calls += 1;
            ctx
        });
        assert_eq!(num_calls, 2);
        assert_eq!(output.platform_output.num_completed_passes, 2);
        assert!(
            !output.platform_output.requested_discard(),
            "The request should have been cleared when fulfilled"
        );
    }

    // Request discard twice:
    {
        let mut num_calls = 0;
        let output = ctx.run(RawInput::new(screen()), |mut ctx: Context| {
            assert_eq!(ctx.output().num_completed_passes, num_calls);

            assert!(!ctx.will_discard());
            ctx.request_discard(cause("test"));
            if num_calls == 0 {
                assert!(ctx.will_discard(), "First request granted");
            } else {
                assert!(!ctx.will_discard(), "Second request should be denied");
            }

            num_calls += 1;
            ctx
        });
        assert_eq!(num_calls, 2);
        assert_eq!(output.platform_output.num_completed_passes, 2);
        assert!(
            output.platform_output.requested_discard(),
            "The unfulfilled request should be reported"
        );
    }
}

#[test]
fn test_multi_pass() {
    let mut ctx = new_ctx();
    ctx.set_max_passes(10);

    // Request discard three times:
    {
        let mut num_calls = 0;
        let output = ctx.run(RawInput::new(screen()), |mut ctx: Context| {
            assert_eq!(ctx.output().num_completed_passes, num_calls);

            assert!(!ctx.will_discard());
            if num_calls <= 2 {
                ctx.request_discard(cause("test"));
                assert!(ctx.will_discard());
            }

            num_calls += 1;
            ctx
        });
        assert_eq!(num_calls, 4);
        assert_eq!(output.platform_output.num_completed_passes, 4);
        assert!(
            !output.platform_output.requested_discard(),
            "The request should have been cleared when fulfilled"
        );
    }
}

#[test]
fn unconditional_discard_runs_max_passes() {
    let mut ctx = new_ctx();
    ctx.set_max_passes(3);
    let mut num_calls = 0;
    let output = ctx.run(RawInput::new(screen()), |mut ctx: Context| {
        num_calls += 1;
        ctx.request_discard(cause("always"));
        ctx
    });
    assert_eq!(num_calls, 3);
    assert_eq!(output.platform_output.num_completed_passes, 3);
    assert!(output.platform_output.requested_discard());
    assert_eq!(ctx.cumulative_frame_nr(), 1);
    assert_eq!(ctx.cumulative_pass_nr(), 3);
}

#[test]
fn frames_and_passes_are_counted() {
    let mut ctx = new_ctx();
    for _ in 0..3 {
        let _ = ctx.run(RawInput::new(screen()), |ctx: Context| ctx);
    }
    assert_eq!(ctx.cumulative_frame_nr(), 3);
    assert_eq!(ctx.cumulative_pass_nr(), 3);
}

fn assert_send_sync<T: Send + Sync>() {}

#[test]
fn context_impl_send_sync() {
    assert_send_sync::<Context>();
    assert_send_sync::<egui::context::ContextImpl>();
}

#[test]
fn memory_impl_send_sync() {
    assert_send_sync::<egui::memory::Memory>();
}

#[test]
fn repeated_multipass_frames_raise_a_warning() {
    let mut ctx = new_ctx();
    for frame in 0..4 {
        let _ = ctx.run(RawInput::new(screen()), |mut ctx: Context| {
            if ctx.current_pass_index() == 0 {
                ctx.request_discard(cause("layout"));
            }
            ctx
        });
        let expected = if frame >= 2 { Some(frame + 1) } else { None };
        assert_eq!(ctx.read().multipass_warning(), expected);
    }
    let _ = ctx.run(RawInput::new(screen()), |ctx: Context| ctx);
    assert_eq!(ctx.read().multipass_warning(), None);
}
