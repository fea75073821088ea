//! Per-identifier animation state, kept across frames.
//!
//! Time is counted in microseconds and animation progress in fixed point:
//! `ANIM_SCALE` stands for 1.0.
use vstd::prelude::*;
use std::collections::HashMap;
use crate::id::Id;

verus! {

broadcast use vstd::std_specs::hash::group_hash_axioms;

/// The fixed-point value that stands for 1.0 in animation progress.
pub const ANIM_SCALE: u64 = 1_000_000;

/// The state of a bool animation: where it was last reported, and when.
#[derive(Clone, Copy, Debug)]
pub struct BoolAnim {
    /// Progress in `0..=ANIM_SCALE`.
    pub last_value: u64,
    /// Time of the last query, in microseconds.
    pub last_tick: u64,
}

/// The state of a scalar animation: the value it runs from, the value it runs
/// to, and when it was retargeted (`None`: long ago).
#[derive(Clone, Copy, Debug)]
pub struct ValueAnim {
    pub from_value: i64,
    pub to_value: i64,
    pub toggle_time: Option<u64>,
}

/// Animation states by identifier. States are created lazily on first query
/// and live until `clear`.
pub struct AnimationManager {
    bools: HashMap<u64, BoolAnim>,
    values: HashMap<u64, ValueAnim>,
}

/// The value a bool animation heads to: `ANIM_SCALE` for `true`, 0 for `false`.
pub open spec fn bool_end(target: bool) -> int {
    if target { ANIM_SCALE as int } else { 0 }
}

/// The time used for one step: the time since the last query, not below zero,
/// capped at the stable frame time.
pub open spec fn capped_elapsed(now: int, last_tick: int, stable_dt: int) -> int {
    let e = if now >= last_tick { now - last_tick } else { 0 };
    if e <= stable_dt { e } else { stable_dt }
}

/// How far one step moves: `elapsed / animation_time` of the full range,
/// rounded down, but at least one unit when any time has passed, so that
/// small steps still arrive.
pub open spec fn bool_anim_delta(elapsed: int, animation_time: int) -> int {
    let d = elapsed * ANIM_SCALE / animation_time;
    if d == 0 && elapsed > 0 { 1 } else { d }
}

/// One step of a bool animation: move linearly towards the target by
/// `bool_anim_delta`, clamped to `0..=ANIM_SCALE`. A zero animation time
/// jumps to the target.
pub open spec fn bool_anim_step(last: int, elapsed: int, animation_time: int, target: bool) -> int {
    if animation_time == 0 {
        bool_end(target)
    } else {
        let delta = bool_anim_delta(elapsed, animation_time);
        if target {
            if last + delta >= ANIM_SCALE { ANIM_SCALE as int } else { last + delta }
        } else {
            if last - delta <= 0 { 0 } else { last - delta }
        }
    }
}

/// Linear interpolation from `from` to `to` at `t` of `span`, clamped to the
/// ends; rounded towards `from`.
pub open spec fn remap_clamped(t: int, span: int, from: int, to: int) -> int {
    if t <= 0 {
        from
    } else if span <= t {
        to
    } else if from <= to {
        from + (to - from) * t / span
    } else {
        from - (from - to) * t / span
    }
}

/// The current position of a scalar animation at time `now` (extrapolated by
/// half a predicted frame, so that the frame of a retarget already moves).
pub open spec fn value_anim_position(a: ValueAnim, now: int, predicted_dt: int, animation_time: int) -> int {
    match a.toggle_time {
        None => a.to_value as int,
        Some(t0) => remap_clamped(now - t0 + predicted_dt / 2, animation_time, a.from_value as int, a.to_value as int),
    }
}

/// The progress of a bool animation after `n` queries towards `target`, each
/// `elapsed` after the one before.
pub open spec fn bool_anim_after(start: int, elapsed: int, animation_time: int, target: bool, n: nat) -> int
    decreases n,
{
    if n == 0 {
        start
    } else {
        bool_anim_step(bool_anim_after(start, elapsed, animation_time, target, (n - 1) as nat), elapsed, animation_time, target)
    }
}

/// A step towards `true` never goes down and never passes 1.0; a step towards
/// `false` never goes up and never passes 0. So a retarget never jumps back past
/// the value reported before it.
pub proof fn lemma_bool_anim_step_monotonic(last: int, elapsed: int, animation_time: int)
    requires
        0 <= last <= ANIM_SCALE,
        0 <= elapsed,
        0 <= animation_time,
    ensures
        last <= bool_anim_step(last, elapsed, animation_time, true) <= ANIM_SCALE,
        0 <= bool_anim_step(last, elapsed, animation_time, false) <= last,
{
    if animation_time != 0 {
        assert(elapsed * ANIM_SCALE / animation_time >= 0) by (nonlinear_arith)
            requires 0 <= elapsed, 0 < animation_time;
    }
}

/// Repeated queries towards `true` with a fixed time step give a non-decreasing
/// sequence that stays within 1.0; with a positive step it gains at least one
/// unit per query, so it reaches 1.0 after at most `ANIM_SCALE` queries and
/// stays there.
pub proof fn lemma_bool_anim_converges(start: int, elapsed: int, animation_time: int, n: nat)
    requires
        0 <= start <= ANIM_SCALE,
        0 <= elapsed,
        0 <= animation_time,
    ensures
        start <= bool_anim_after(start, elapsed, animation_time, true, n) <= ANIM_SCALE,
        bool_anim_after(start, elapsed, animation_time, true, n)
            <= bool_anim_after(start, elapsed, animation_time, true, n + 1),
        elapsed > 0 ==>
            bool_anim_after(start, elapsed, animation_time, true, n) >= (if start + n >= ANIM_SCALE { ANIM_SCALE as int } else { start + n }),
        elapsed > 0 && n >= ANIM_SCALE ==>
            bool_anim_after(start, elapsed, animation_time, true, n) == ANIM_SCALE,
    decreases n,
{
    if n > 0 {
        lemma_bool_anim_converges(start, elapsed, animation_time, (n - 1) as nat);
    }
    let v = bool_anim_after(start, elapsed, animation_time, true, n);
    lemma_bool_anim_step_monotonic(v, elapsed, animation_time);
    if animation_time != 0 {
        assert(elapsed * ANIM_SCALE / animation_time >= 0) by (nonlinear_arith)
            requires 0 <= elapsed, 0 < animation_time;
    }
}

/// Exactly: `n` queries towards `true` with a fixed time step give
/// `min(1.0, start + n * delta)`, where `delta` is the step's share of the
/// animation time in fixed point, rounded down but at least one unit; so the
/// value reaches 1.0 at query `ceil((ANIM_SCALE - start) / delta)`.
pub proof fn lemma_bool_anim_after_exact(start: int, elapsed: int, animation_time: int, n: nat)
    requires
        0 <= start <= ANIM_SCALE,
        0 <= elapsed,
        0 < animation_time,
    ensures
        ({
            let v = start + n * bool_anim_delta(elapsed, animation_time);
            bool_anim_after(start, elapsed, animation_time, true, n) == (if v >= ANIM_SCALE { ANIM_SCALE as int } else { v })
        }),
    decreases n,
{
    let d = bool_anim_delta(elapsed, animation_time);
    assert(elapsed * ANIM_SCALE / animation_time >= 0) by (nonlinear_arith)
        requires 0 <= elapsed, 0 < animation_time;
    if n > 0 {
        lemma_bool_anim_after_exact(start, elapsed, animation_time, (n - 1) as nat);
        assert(start + n * d == start + (n - 1) * d + d) by (nonlinear_arith);
        let prev = bool_anim_after(start, elapsed, animation_time, true, (n - 1) as nat);
        assert(bool_anim_after(start, elapsed, animation_time, true, n) == bool_anim_step(prev, elapsed, animation_time, true));
        assert(d >= 0);
    } else {
        assert(n * d == 0) by (nonlinear_arith)
            requires n == 0;
    }
}

impl AnimationManager {
    pub closed spec fn bools_view(&self) -> Map<u64, BoolAnim> {
        self.bools@
    }

    pub closed spec fn values_view(&self) -> Map<u64, ValueAnim> {
        self.values@
    }

    /// Every stored bool progress lies in `0..=ANIM_SCALE`.
    pub closed spec fn wf(&self) -> bool {
        forall|k: u64| #[trigger] self.bools@.contains_key(k) ==> self.bools@[k].last_value <= ANIM_SCALE
    }

    /// In a well-formed manager every stored bool progress is at most 1.0.
    pub proof fn lemma_stored_progress_bounded(&self, k: u64)
        requires
            self.wf(),
            self.bools_view().contains_key(k),
        ensures
            self.bools_view()[k].last_value <= ANIM_SCALE,
    {
    }

    pub fn new() -> (r: AnimationManager)
        ensures
            r.wf(),
            r.bools_view() == Map::<u64, BoolAnim>::empty(),
            r.values_view() == Map::<u64, ValueAnim>::empty(),
    {
        AnimationManager { bools: HashMap::new(), values: HashMap::new() }
    }

    /// Animate a bool towards `target`, returning the progress in
    /// `0..=ANIM_SCALE`. The first query of an identifier returns the target
    /// end at once.
    pub fn animate_bool(&mut self, now: u64, stable_dt: u64, animation_time: u64, id: Id, target: bool) -> (r: u64)
        requires
            old(self).wf(),
        ensures
            final(self).wf(),
            r <= ANIM_SCALE,
            old(self).bools_view().contains_key(id.0) ==> {
                let a = old(self).bools_view()[id.0];
                &&& r as int == bool_anim_step(
                    a.last_value as int,
                    capped_elapsed(now as int, a.last_tick as int, stable_dt as int),
                    animation_time as int,
                    target,
                )
                &&& final(self).bools_view() == old(self).bools_view().insert(id.0, BoolAnim { last_value: r, last_tick: now })
            },
            !old(self).bools_view().contains_key(id.0) ==> {
                &&& r as int == bool_end(target)
                &&& final(self).bools_view() == old(self).bools_view().insert(
                    id.0,
                    BoolAnim { last_value: r, last_tick: if now >= stable_dt { (now - stable_dt) as u64 } else { 0 } },
                )
            },
            final(self).values_view() == old(self).values_view(),
    {
        let end: u64 = if target { ANIM_SCALE } else { 0 };
        match self.bools.get(&id.0) {
            None => {
                let tick = now.saturating_sub(stable_dt);
                self.bools.insert(id.0, BoolAnim { last_value: end, last_tick: tick });
                end
            },
            Some(anim) => {
                let last = anim.last_value;
                let elapsed_raw = now.saturating_sub(anim.last_tick);
                let elapsed = if elapsed_raw <= stable_dt { elapsed_raw } else { stable_dt };
                let v = if animation_time == 0 {
                    end
                } else {
                    proof {
                        assert((elapsed as u128) * (ANIM_SCALE as u128) <= 0xffff_ffff_ffff_ffffu128 * 1_000_000u128)
                            by (nonlinear_arith)
                            requires elapsed <= 0xffff_ffff_ffff_ffffu64;
                    }
                    let d = (elapsed as u128) * (ANIM_SCALE as u128) / (animation_time as u128);
                    let delta = if d == 0 && elapsed > 0 { 1 } else { d };
                    if target {
                        if (last as u128) + delta >= ANIM_SCALE as u128 {
                            ANIM_SCALE
                        } else {
                            (last as u128 + delta) as u64
                        }
                    } else {
                        if (last as u128) <= delta {
                            0
                        } else {
                            (last as u128 - delta) as u64
                        }
                    }
                };
                self.bools.insert(id.0, BoolAnim { last_value: v, last_tick: now });
                v
            },
        }
    }

    /// Animate towards `target`, returning the current position. The first
    /// query snaps to the target; a retarget starts the new animation from the
    /// current position; a zero animation time snaps to the target at once.
    pub fn animate_value(&mut self, now: u64, predicted_dt: u64, animation_time: u64, id: Id, target: i64) -> (r: i64)
        requires
            old(self).wf(),
        ensures
            final(self).wf(),
            !old(self).values_view().contains_key(id.0) ==> {
                &&& r == target
                &&& final(self).values_view() == old(self).values_view().insert(
                    id.0,
                    ValueAnim { from_value: target, to_value: target, toggle_time: None },
                )
            },
            old(self).values_view().contains_key(id.0) ==> {
                let a = old(self).values_view()[id.0];
                let pos = value_anim_position(a, now as int, predicted_dt as int, animation_time as int);
                let from = if a.to_value != target { pos as i64 } else { a.from_value };
                let to = target;
                let toggled = if a.to_value != target { Some(now) } else { a.toggle_time };
                &&& r as int == (if animation_time == 0 { target as int } else { pos })
                &&& final(self).values_view() == old(self).values_view().insert(
                    id.0,
                    if animation_time == 0 {
                        ValueAnim { from_value: target, to_value: target, toggle_time: toggled }
                    } else {
                        ValueAnim { from_value: from, to_value: to, toggle_time: toggled }
                    },
                )
            },
            final(self).bools_view() == old(self).bools_view(),
    {
        match self.values.get(&id.0) {
            None => {
                self.values.insert(id.0, ValueAnim { from_value: target, to_value: target, toggle_time: None });
                target
            },
            Some(anim) => {
                let a = *anim;
                let current = current_position(a, now, predicted_dt, animation_time);
                let mut next = a;
                if a.to_value != target {
                    next.from_value = current;
                    next.to_value = target;
                    next.toggle_time = Some(now);
                }
                if animation_time == 0 {
                    next.from_value = target;
                    next.to_value = target;
                }
                self.values.insert(id.0, next);
                if animation_time == 0 {
                    target
                } else {
                    current
                }
            },
        }
    }

    /// Forget all animation states.
    pub fn clear(&mut self)
        ensures
            final(self).wf(),
            final(self).bools_view() == Map::<u64, BoolAnim>::empty(),
            final(self).values_view() == Map::<u64, ValueAnim>::empty(),
    {
        self.bools.clear();
        self.values.clear();
    }
}

/// The current position of a scalar animation.
fn current_position(a: ValueAnim, now: u64, predicted_dt: u64, animation_time: u64) -> (r: i64)
    ensures
        r as int == value_anim_position(a, now as int, predicted_dt as int, animation_time as int),
{
    match a.toggle_time {
        None => a.to_value,
        Some(t0) => {
            let from = a.from_value as i128;
            let to = a.to_value as i128;
            let t_end = now as i128 + (predicted_dt / 2) as i128;
            let span = animation_time as i128;
            if t_end <= t0 as i128 {
                a.from_value
            } else {
                let t = t_end - t0 as i128;
                if span <= t {
                    a.to_value
                } else if from <= to {
                    let d = (to - from) as u128;
                    let tu = t as u128;
                    let su = span as u128;
                    proof {
                        assert(d * tu <= d * su) by (nonlinear_arith)
                            requires 0 <= d, 0 < tu < su;
                        assert(d * su <= 0xffff_ffff_ffff_ffff_ffff_ffff_ffff_ffffu128) by (nonlinear_arith)
                            requires 0 <= d < 0x1_0000_0000_0000_0000, 0 <= su < 0x1_0000_0000_0000_0000;
                        assert((d * tu) / (su as int) <= d) by (nonlinear_arith)
                            requires 0 <= d, 0 < tu < su, d * tu <= d * su;
                    }
                    let q = d * tu / su;
                    (from + q as i128) as i64
                } else {
                    let d = (from - to) as u128;
                    let tu = t as u128;
                    let su = span as u128;
                    proof {
                        assert(d * tu <= d * su) by (nonlinear_arith)
                            requires 0 <= d, 0 < tu < su;
                        assert(d * su <= 0xffff_ffff_ffff_ffff_ffff_ffff_ffff_ffffu128) by (nonlinear_arith)
                            requires 0 <= d < 0x1_0000_0000_0000_0000, 0 <= su < 0x1_0000_0000_0000_0000;
                        assert((d * tu) / (su as int) <= d) by (nonlinear_arith)
                            requires 0 <= d, 0 < tu < su, d * tu <= d * su;
                    }
                    let q = d * tu / su;
                    (from - q as i128) as i64
                }
            }
        },
    }
}

} // verus!
