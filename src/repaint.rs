//! Repaint scheduling per viewport.
//!
//! Durations are counted in microseconds; `NO_REPAINT` stands for "never".
use vstd::prelude::*;
use crate::id::Id;

verus! {

/// The delay that means "no repaint scheduled".
pub const NO_REPAINT: u64 = 0xffff_ffff_ffff_ffff;

/// An independent top-level surface.
#[derive(Clone, Copy, Debug, PartialEq, Eq, Structural, Hash)]
pub struct ViewportId(pub Id);

/// Where a repaint or discard was requested, and why.
#[derive(Clone, Debug)]
pub struct RepaintCause {
    /// The source file of the request.
    pub file: String,
    /// The line of the request.
    pub line: u32,
    /// Explicit reason; human readable.
    pub reason: String,
}

impl RepaintCause {
    /// A cause at the given place, with no reason.
    pub fn new(file: &str, line: u32) -> (r: RepaintCause)
        ensures
            r.file@ == file@,
            r.line == line,
            r.reason@ == Seq::<char>::empty(),
    {
        RepaintCause { file: file.to_owned(), line, reason: String::new() }
    }

    /// A cause at the given place, with a reason.
    pub fn new_reason(file: &str, line: u32, reason: &str) -> (r: RepaintCause)
        ensures
            r.file@ == file@,
            r.line == line,
            r.reason@ == reason@,
    {
        RepaintCause { file: file.to_owned(), line, reason: reason.to_owned() }
    }
}

/// What the embedding application is told when a repaint is wanted.
#[derive(Clone, Copy, Debug)]
pub struct RequestRepaintInfo {
    /// The viewport to repaint.
    pub viewport_id: ViewportId,
    /// Repaint after this many microseconds; zero: as soon as possible.
    pub delay: u64,
    /// The number of completed passes of the viewport so far.
    pub current_cumulative_pass_nr: u64,
}

/// Per-viewport state of repaint scheduling.
#[derive(Clone, Debug)]
pub struct ViewportRepaintInfo {
    /// Completed frames; incremented at the end of each run.
    pub cumulative_frame_nr: u64,
    /// Completed passes; never smaller than `cumulative_frame_nr`.
    pub cumulative_pass_nr: u64,
    /// The smallest delay requested this pass (`NO_REPAINT` if none).
    pub repaint_delay: u64,
    /// While positive, keep requesting repaints; decremented at each pass start.
    pub outstanding: u8,
    /// What requested repaints this pass.
    pub causes: Vec<RepaintCause>,
    /// What requested repaints the pass before.
    pub prev_causes: Vec<RepaintCause>,
    /// `repaint_delay` as it stood at the end of the previous pass.
    pub prev_pass_paint_delay: u64,
}

/// The start of a pass for repaint scheduling: causes move to the previous
/// ones, the delay of the previous pass is kept, and an outstanding repaint
/// is consumed and requested at once.
pub open spec fn repaint_began(o: ViewportRepaintInfo, n: ViewportRepaintInfo, viewport_id: ViewportId, r: Option<RequestRepaintInfo>) -> bool {
    &&& n.prev_causes@ == o.causes@
    &&& n.causes@.len() == 0
    &&& n.prev_pass_paint_delay == o.repaint_delay
    &&& n.cumulative_frame_nr == o.cumulative_frame_nr
    &&& n.cumulative_pass_nr == o.cumulative_pass_nr
    &&& o.outstanding == 0 ==> {
        &&& n.repaint_delay == NO_REPAINT
        &&& n.outstanding == 0
        &&& r.is_none()
            }
    &&& o.outstanding > 0 ==> {
        &&& n.repaint_delay == 0
        &&& n.outstanding == o.outstanding - 1
        &&& r == Some(RequestRepaintInfo {
            viewport_id,
            delay: 0,
            current_cumulative_pass_nr: o.cumulative_pass_nr,
        })
            }
}

/// A repaint request: `delay` less the predicted frame time; a zero delay
/// keeps one more repaint outstanding; the smallest delay of a pass wins and
/// the application is told only when the delay shrinks.
pub open spec fn repaint_requested(o: ViewportRepaintInfo, n: ViewportRepaintInfo, delay: u64, predicted_dt: u64, viewport_id: ViewportId, cause: RepaintCause, r: Option<RequestRepaintInfo>) -> bool {
    &&& ({
        let d = if delay >= predicted_dt { (delay - predicted_dt) as u64 } else { 0u64 };
        &&& n.outstanding == (if delay == 0 { 1 } else { o.outstanding })
        &&& n.causes@ == o.causes@.push(cause)
        &&& n.repaint_delay == (if d < o.repaint_delay { d } else { o.repaint_delay })
        &&& r == (if d < o.repaint_delay {
            Some(RequestRepaintInfo {
                viewport_id,
                delay: d,
                current_cumulative_pass_nr: o.cumulative_pass_nr,
            })
        } else {
            None
        })
    })
    &&& n.prev_causes@ == o.prev_causes@
    &&& n.prev_pass_paint_delay == o.prev_pass_paint_delay
    &&& n.cumulative_frame_nr == o.cumulative_frame_nr
    &&& n.cumulative_pass_nr == o.cumulative_pass_nr
}

impl ViewportRepaintInfo {
    /// No repaint scheduled, one outstanding so that the first frames run.
    pub fn new() -> (r: ViewportRepaintInfo)
        ensures
            r.cumulative_frame_nr == 0,
            r.cumulative_pass_nr == 0,
            r.repaint_delay == NO_REPAINT,
            r.outstanding == 1,
            r.causes@.len() == 0,
            r.prev_causes@.len() == 0,
            r.prev_pass_paint_delay == NO_REPAINT,
    {
        ViewportRepaintInfo {
            cumulative_frame_nr: 0,
            cumulative_pass_nr: 0,
            repaint_delay: NO_REPAINT,
            outstanding: 1,
            causes: Vec::new(),
            prev_causes: Vec::new(),
            prev_pass_paint_delay: NO_REPAINT,
        }
    }

    /// Did the previous pass ask to be repainted at once?
    pub fn requested_immediate_repaint_prev_pass(&self) -> (r: bool)
        ensures
            r == (self.prev_pass_paint_delay == 0),
    {
        self.prev_pass_paint_delay == 0
    }

    /// Is a repaint pending, immediate or delayed?
    pub fn has_requested_repaint(&self) -> (r: bool)
        ensures
            r == (0 < self.outstanding || self.repaint_delay < NO_REPAINT),
    {
        0 < self.outstanding || self.repaint_delay < NO_REPAINT
    }

    /// The start of a pass: the causes move to `prev_causes`, the delay of the
    /// previous pass is kept, and an outstanding repaint is consumed. Returns the
    /// request to hand to the application, if any.
    pub fn begin_pass(&mut self, viewport_id: ViewportId) -> (r: Option<RequestRepaintInfo>)
        ensures
            repaint_began(*old(self), *final(self), viewport_id, r),
    {
        let mut causes = Vec::new();
        std::mem::swap(&mut self.causes, &mut causes);
        self.prev_causes = causes;
        self.prev_pass_paint_delay = self.repaint_delay;
        if self.outstanding == 0 {
            self.repaint_delay = NO_REPAINT;
            None
        } else {
            self.repaint_delay = 0;
            self.outstanding = self.outstanding - 1;
            Some(RequestRepaintInfo { viewport_id, delay: 0, current_cumulative_pass_nr: self.cumulative_pass_nr })
        }
    }

    /// Ask for a repaint after `delay` microseconds, less the predicted frame
    /// time. A zero delay keeps one more repaint outstanding, so that two
    /// repaints follow. The smallest delay of a pass wins; the application is
    /// told only when the delay shrinks.
    pub fn request_repaint_after(
        &mut self,
        delay: u64,
        predicted_dt: u64,
        viewport_id: ViewportId,
        cause: RepaintCause,
    ) -> (r: Option<RequestRepaintInfo>)
        ensures
            repaint_requested(*old(self), *final(self), delay, predicted_dt, viewport_id, cause, r),
    {
        if delay == 0 {
            self.outstanding = 1;
        }
        let d = delay.saturating_sub(predicted_dt);
        self.causes.push(cause);
        if d < self.repaint_delay {
            self.repaint_delay = d;
            Some(RequestRepaintInfo { viewport_id, delay: d, current_cumulative_pass_nr: self.cumulative_pass_nr })
        } else {
            None
        }
    }
}

impl Default for ViewportRepaintInfo {
    fn default() -> (r: ViewportRepaintInfo)
        ensures
            r.cumulative_frame_nr == 0,
            r.cumulative_pass_nr == 0,
            r.repaint_delay == NO_REPAINT,
            r.outstanding == 1,
            r.causes@.len() == 0,
            r.prev_causes@.len() == 0,
            r.prev_pass_paint_delay == NO_REPAINT,
    {
        ViewportRepaintInfo::new()
    }
}

} // verus!
