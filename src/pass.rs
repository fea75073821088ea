//! The per-pass output, the widget state of a pass, and the rules of the
//! bounded multi-pass protocol.
use vstd::prelude::*;
use std::collections::HashMap;
use crate::geometry::Rect;
use crate::repaint::{RepaintCause, RequestRepaintInfo};
use crate::widget_rect::WidgetRects;

verus! {

/// What a pass hands to the platform layer (the parts this core decides).
pub struct PlatformOutput {
    /// The passes completed so far in this frame.
    pub num_completed_passes: usize,
    /// Why a discard (another pass) was requested during the pass.
    pub request_discard_reasons: Vec<RepaintCause>,
}

/// Did the pass ask for its output to be discarded?
pub open spec fn discard_requested(o: &PlatformOutput) -> bool {
    o.request_discard_reasons@.len() > 0
}

/// May a pass of index `completed` (passes before it in the frame) that asked
/// for a discard be discarded: is there room for another pass?
pub open spec fn discard_granted(requested: bool, completed: int, max_passes: int) -> bool {
    requested && completed + 1 < max_passes
}

/// Is `h` a possible record of a frame run with at most `max` passes, where
/// `h[i]` tells whether pass `i` asked for a discard: every pass but the last
/// asked, and the last one did not, or the limit was reached.
pub open spec fn frame_passes_ok(max: nat, h: Seq<bool>) -> bool {
    &&& 1 <= h.len() <= max
    &&& forall|i: int| 0 <= i < h.len() - 1 ==> #[trigger] h[i]
    &&& (!h.last() || h.len() == max)
}

impl PlatformOutput {
    pub fn new() -> (r: PlatformOutput)
        ensures
            r.num_completed_passes == 0,
            r.request_discard_reasons@.len() == 0,
    {
        PlatformOutput { num_completed_passes: 0, request_discard_reasons: Vec::new() }
    }

    /// Did the pass ask for its output to be discarded?
    pub fn requested_discard(&self) -> (r: bool)
        ensures
            r == discard_requested(self),
    {
        self.request_discard_reasons.len() > 0
    }
}

/// What a frame hands to the platform layer.
pub struct FullOutput {
    pub platform_output: PlatformOutput,
    /// The delay before the next repaint, in microseconds.
    pub repaint_delay: u64,
    /// The repaint requests to pass on to the application, in order.
    pub repaint_requests: Vec<RequestRepaintInfo>,
}

/// The state gathered during one pass.
pub struct PassState {
    /// Every widget registered this pass.
    pub widgets: WidgetRects,
    /// The rectangle of each identifier used by an interactive widget.
    pub used_ids: HashMap<u64, Rect>,
    /// Widgets to show highlighted in the next pass.
    pub highlight_next_pass: Vec<crate::id::Id>,
}

impl PassState {
    pub fn new() -> (r: PassState)
        ensures
            r.widgets.wf(),
            r.widgets.widgets().len() == 0,
            r.widgets.id_map() == Map::<u64, crate::widget_rect::WidgetRect>::empty(),
            r.used_ids@ == Map::<u64, Rect>::empty(),
            r.highlight_next_pass@.len() == 0,
    {
        PassState { widgets: WidgetRects::new(), used_ids: HashMap::new(), highlight_next_pass: Vec::new() }
    }
}

/// After a pass ended with output `o`, with `passes_done` passes run in the
/// frame so far: is another pass run? Only when the pass asked for a discard
/// and the frame has room.
pub fn runs_another_pass(o: &PlatformOutput, passes_done: usize, max_passes: usize) -> (r: bool)
    ensures
        r == (discard_requested(o) && passes_done < max_passes),
{
    o.requested_discard() && passes_done < max_passes
}

/// With one pass per frame, a discard is never granted.
pub proof fn lemma_single_pass_never_discards(requested: bool, completed: int, h: Seq<bool>)
    requires
        0 <= completed,
    ensures
        !discard_granted(requested, completed, 1),
        frame_passes_ok(1, h) ==> h.len() == 1,
{
}

/// A pass body that asks for a discard every time runs exactly `max` times,
/// and the final output still reports the (unfulfilled) request.
pub proof fn lemma_unconditional_discard_runs_max(max: nat, h: Seq<bool>)
    requires
        frame_passes_ok(max, h),
        forall|i: int| 0 <= i < h.len() ==> #[trigger] h[i],
    ensures
        h.len() == max,
        h.last(),
{
    assert(h[h.len() - 1]);
}

/// With room for two passes, a body that asks for a discard only in its first
/// pass runs twice, and the final output reports no request.
pub proof fn lemma_discard_once_is_fulfilled(max: nat, h: Seq<bool>)
    requires
        max >= 2,
        frame_passes_ok(max, h),
        forall|i: int| 0 <= i < h.len() ==> #[trigger] h[i] == (i == 0),
    ensures
        h.len() == 2,
        !h.last(),
{
    assert(h[0]);
    if h.len() == 1 {
        assert(h.last());
    } else {
        if h.len() > 2 {
            assert(h[1]);
        }
        assert(!h[1]);
    }
}

} // verus!
