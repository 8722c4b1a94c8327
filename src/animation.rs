//! Composable animations driven by signed time steps.
//!
//! Time is measured in microseconds. A step may be negative, which plays the
//! animation backwards. Each step reports the progress of the animations it
//! touched as `(id, progress)` samples, with progress in
//! `0..=PROGRESS_ONE` (see [`crate::easing`]).
//!
//! An animation is a tree: a composite owns its children outright, so the
//! tree is a strict forest and every update or reset walks it by `&mut`.

use vstd::prelude::*;
use crate::easing::{Easing, PROGRESS_ONE, lemma_curve_bounds};

verus! {

/// Microseconds in one second.
pub const MICROS_PER_SECOND: u64 = 1000000;

/// One progress report: the id of an animation and its progress.
pub type Sample = (String, u64);

/// A single eased run from 0 to `duration` microseconds.
pub struct BasicAnimation {
    pub id: String,
    pub duration: u64,
    pub elapsed: u64,
    pub easing: Easing,
}

/// Holds its child back for `delay` microseconds before playing it.
pub struct DelayAnimation {
    pub delay: u64,
    pub elapsed: u64,
    pub child: Box<Animation>,
}

/// Plays its child `repeat_count` times, or forever when that is 0.
pub struct LoopingAnimation {
    pub child: Box<Animation>,
    pub repeat_count: usize,
    pub current_count: usize,
}

/// Plays its child forwards, then backwards, and so on: `repeat_count` legs
/// in all, or forever when that is 0.
pub struct BackAndForthAnimation {
    pub child: Box<Animation>,
    pub repeat_count: usize,
    pub current_count: usize,
    pub forward: bool,
}

/// Moves `current` towards a `target` that may change at any time, at
/// `speed` progress units per second.
pub struct TargetAnimation {
    pub id: String,
    pub current: u64,
    pub target: u64,
    pub speed: u64,
}

/// An animation tree.
pub enum Animation {
    Basic(BasicAnimation),
    /// Plays the children one after the other.
    Sequence(Vec<Animation>),
    /// Plays the children side by side.
    Parallel(Vec<Animation>),
    Delay(DelayAnimation),
    Looping(LoopingAnimation),
    BackAndForth(BackAndForthAnimation),
    Target(TargetAnimation),
}

/// `n + 1`, held at the largest `usize`.
pub open spec fn bumped(n: usize) -> usize {
    if n < usize::MAX {
        (n + 1) as usize
    } else {
        n
    }
}

/// `a / b` rounded up, for `b > 0`.
pub open spec fn ceil_div(a: int, b: int) -> int {
    (a + b - 1) / b
}

impl BasicAnimation {
    pub open spec fn finished(self) -> bool {
        self.elapsed >= self.duration
    }

    /// The clock after a step of `delta`, kept within `0..=duration`.
    pub open spec fn clamped(self, delta: int) -> int {
        let e = self.elapsed + delta;
        if e < 0 {
            0
        } else if e > self.duration {
            self.duration as int
        } else {
            e
        }
    }

    /// Linear progress at clock `e`; a run of no length is always complete.
    pub open spec fn linear_at(self, e: int) -> int {
        if self.duration == 0 {
            PROGRESS_ONE as int
        } else {
            e * PROGRESS_ONE / (self.duration as int)
        }
    }

    /// The progress reported by a step of `delta`. A finished run stepped
    /// forwards reports completion; a backward step mirrors the curve, so
    /// that playing back retraces the same eased path.
    pub open spec fn sample_after(self, delta: int) -> u64 {
        if self.finished() && delta >= 0 {
            PROGRESS_ONE
        } else {
            let p = self.linear_at(self.clamped(delta));
            if delta < 0 {
                (PROGRESS_ONE - self.easing.curve(PROGRESS_ONE - p)) as u64
            } else {
                self.easing.curve(p) as u64
            }
        }
    }

    pub open spec fn after(self, delta: int) -> BasicAnimation {
        if self.finished() && delta >= 0 {
            self
        } else {
            BasicAnimation { elapsed: self.clamped(delta) as u64, ..self }
        }
    }
}

impl TargetAnimation {
    /// How far a step of `delta` moves `current`: `speed * |delta|`,
    /// rounded up so that any step of a moving animation makes headway.
    pub open spec fn travel(self, delta: int) -> int {
        let magnitude = if delta < 0 { -delta } else { delta };
        ceil_div(self.speed * magnitude, MICROS_PER_SECOND as int)
    }

    /// `current` after a step of `delta`: forwards it approaches the target
    /// without passing it; backwards it moves away, within `0..=PROGRESS_ONE`.
    pub open spec fn moved(self, delta: int) -> int {
        let c = self.current as int;
        let t = self.target as int;
        let d = self.travel(delta);
        if c < t {
            if delta >= 0 {
                if c + d > t { t } else { c + d }
            } else {
                if c - d < 0 { 0 } else { c - d }
            }
        } else if c > t {
            if delta >= 0 {
                if c - d < t { t } else { c - d }
            } else {
                if c + d > PROGRESS_ONE { PROGRESS_ONE as int } else { c + d }
            }
        } else {
            c
        }
    }

    pub open spec fn after(self, delta: int) -> TargetAnimation {
        TargetAnimation { current: self.moved(delta) as u64, ..self }
    }
}

/// Names the state that the child of a looping animation reaches within a
/// step, before it is reset.
#[verifier::opaque]
pub open spec fn intermediate(c: Animation) -> bool {
    true
}

/// Index of the first unfinished animation of `s` from `i` on, or `s.len()`.
pub open spec fn first_unfinished(s: Seq<Animation>, i: int) -> int
    decreases s.len() - i,
{
    if i >= s.len() || i < 0 {
        s.len() as int
    } else if !s[i].finished() {
        i
    } else {
        first_unfinished(s, i + 1)
    }
}

/// Index of the last started animation of `s` below `n`, or -1.
pub open spec fn last_started(s: Seq<Animation>, n: int) -> int
    decreases n,
{
    if n <= 0 || n > s.len() {
        -1
    } else if s[n - 1].started() {
        n - 1
    } else {
        last_started(s, n - 1)
    }
}

/// All animations of `s` from `i` on are finished.
pub open spec fn all_finished(s: Seq<Animation>, i: int) -> bool
    decreases s, s.len() - i,
{
    if i < 0 || i >= s.len() {
        true
    } else {
        s[i].finished() && all_finished(s, i + 1)
    }
}

/// Some animation of `s` from `i` on has started.
pub open spec fn any_started(s: Seq<Animation>, i: int) -> bool
    decreases s, s.len() - i,
{
    if i < 0 || i >= s.len() {
        false
    } else {
        s[i].started() || any_started(s, i + 1)
    }
}

/// All animations of `s` from `i` on are reversible.
pub open spec fn all_reversible(s: Seq<Animation>, i: int) -> bool
    decreases s, s.len() - i,
{
    if i < 0 || i >= s.len() {
        true
    } else {
        s[i].reversible() && all_reversible(s, i + 1)
    }
}

/// All animations of `s` from `i` on are well formed.
pub open spec fn all_wf(s: Seq<Animation>, i: int) -> bool
    decreases s, s.len() - i,
{
    if i < 0 || i >= s.len() {
        true
    } else {
        s[i].wf() && all_wf(s, i + 1)
    }
}

/// From `i` on, each animation of `w` is its counterpart in `s` reset.
pub open spec fn all_reset(s: Seq<Animation>, w: Seq<Animation>, i: int) -> bool
    decreases s, s.len() - i,
{
    if i < 0 || i >= s.len() {
        true
    } else {
        s[i].resets_to(w[i]) && all_reset(s, w, i + 1)
    }
}

/// From `i` on, each animation of `w` is its counterpart in `s` stepped by
/// `delta`, or left as it was if that one had finished.
pub open spec fn parallel_steps(s: Seq<Animation>, w: Seq<Animation>, delta: int, i: int) -> bool
    decreases s, s.len() - i,
{
    if i < 0 || i >= s.len() {
        true
    } else {
        (if s[i].finished() {
            w[i] == s[i]
        } else {
            s[i].steps_to(delta, w[i])
        }) && parallel_steps(s, w, delta, i + 1)
    }
}

/// The samples of the unfinished animations of `s` from `i` on, in order,
/// each stepped by `delta`.
pub open spec fn parallel_output(s: Seq<Animation>, delta: int, i: int) -> Seq<Sample>
    decreases s, s.len() - i,
{
    if i < 0 || i >= s.len() {
        Seq::empty()
    } else {
        let here = if s[i].finished() {
            Seq::empty()
        } else {
            s[i].output(delta)
        };
        here + parallel_output(s, delta, i + 1)
    }
}

impl Animation {
    /// Whether the animation has reached its end, playing forwards.
    pub open spec fn finished(self) -> bool
        decreases self, 0int,
    {
        match self {
            Animation::Basic(b) => b.finished(),
            Animation::Sequence(v) => all_finished(v@, 0),
            Animation::Parallel(v) => all_finished(v@, 0),
            Animation::Delay(d) => d.child.finished(),
            Animation::Looping(l) => l.repeat_count != 0 && l.current_count >= l.repeat_count,
            Animation::BackAndForth(b) => b.repeat_count != 0 && b.current_count >= b.repeat_count,
            Animation::Target(t) => t.current == t.target,
        }
    }

    /// Whether any forward progress has been made.
    pub open spec fn started(self) -> bool
        decreases self, 0int,
    {
        match self {
            Animation::Basic(b) => b.elapsed > 0,
            Animation::Sequence(v) => any_started(v@, 0),
            Animation::Parallel(v) => any_started(v@, 0),
            Animation::Delay(d) => d.elapsed > 0 || d.child.started(),
            Animation::Looping(l) => l.current_count > 0 || l.child.started(),
            Animation::BackAndForth(b) => b.current_count > 0 || b.child.started(),
            Animation::Target(t) => t.current > 0,
        }
    }

    /// Whether the tree can be played backwards: it holds no looping part.
    pub open spec fn reversible(self) -> bool
        decreases self, 0int,
    {
        match self {
            Animation::Basic(_) => true,
            Animation::Sequence(v) => all_reversible(v@, 0),
            Animation::Parallel(v) => all_reversible(v@, 0),
            Animation::Delay(d) => d.child.reversible(),
            Animation::Looping(_) => false,
            Animation::BackAndForth(_) => false,
            Animation::Target(_) => true,
        }
    }

    /// Well-formedness: clocks within their bounds, progress within range,
    /// and the child of a back-and-forth reversible.
    pub open spec fn wf(self) -> bool
        decreases self, 0int,
    {
        match self {
            Animation::Basic(b) => b.elapsed <= b.duration,
            Animation::Sequence(v) => all_wf(v@, 0),
            Animation::Parallel(v) => all_wf(v@, 0),
            Animation::Delay(d) => d.elapsed <= d.delay && d.child.wf(),
            Animation::Looping(l) => l.child.wf(),
            Animation::BackAndForth(b) => b.child.wf() && b.child.reversible(),
            Animation::Target(t) => t.current <= PROGRESS_ONE && t.target <= PROGRESS_ONE,
        }
    }

    /// The index of the child of a sequence that a step of `delta` plays:
    /// forwards the first unfinished one, backwards the last started one.
    pub open spec fn active_child(v: Seq<Animation>, delta: int) -> int {
        if delta >= 0 {
            first_unfinished(v, 0)
        } else {
            last_started(v, v.len() as int)
        }
    }

    /// The samples that a step of `delta` reports.
    pub open spec fn output(self, delta: int) -> Seq<Sample>
        decreases self, 0int,
    {
        match self {
            Animation::Basic(b) => seq![(b.id, b.sample_after(delta))],
            Animation::Sequence(v) => {
                let i = Self::active_child(v@, delta);
                if 0 <= i < v@.len() {
                    v@[i].output(delta)
                } else {
                    Seq::empty()
                }
            },
            Animation::Parallel(v) => parallel_output(v@, delta, 0),
            Animation::Delay(d) => {
                if delta >= 0 {
                    if d.elapsed < d.delay {
                        if d.elapsed + delta <= d.delay {
                            Seq::empty()
                        } else {
                            d.child.output(d.elapsed + delta - d.delay)
                        }
                    } else {
                        d.child.output(delta)
                    }
                } else if d.child.started() {
                    d.child.output(delta)
                } else {
                    Seq::empty()
                }
            },
            Animation::Looping(l) => {
                if l.repeat_count != 0 && l.current_count >= l.repeat_count {
                    Seq::empty()
                } else {
                    l.child.output(delta)
                }
            },
            Animation::BackAndForth(b) => {
                if b.repeat_count != 0 && b.current_count >= b.repeat_count {
                    Seq::empty()
                } else {
                    b.child.output(if b.forward { delta } else { -delta })
                }
            },
            Animation::Target(t) => seq![(t.id, t.after(delta).current)],
        }
    }

    /// `post` is this animation returned to its initial state.
    pub open spec fn resets_to(self, post: Animation) -> bool
        decreases self, 0int,
    {
        match self {
            Animation::Basic(b) => post == Animation::Basic(BasicAnimation { elapsed: 0, ..b }),
            Animation::Sequence(v) => post matches Animation::Sequence(w) && w@.len() == v@.len()
                && all_reset(v@, w@, 0),
            Animation::Parallel(v) => post matches Animation::Parallel(w) && w@.len() == v@.len()
                && all_reset(v@, w@, 0),
            Animation::Delay(d) => post matches Animation::Delay(e) && e.delay == d.delay
                && e.elapsed == 0 && d.child.resets_to(*e.child),
            Animation::Looping(l) => post matches Animation::Looping(m) && m.repeat_count
                == l.repeat_count && m.current_count == 0 && l.child.resets_to(*m.child),
            Animation::BackAndForth(b) => post matches Animation::BackAndForth(c)
                && c.repeat_count == b.repeat_count && c.current_count == 0 && c.forward
                && b.child.resets_to(*c.child),
            Animation::Target(t) => post == Animation::Target(
                TargetAnimation { current: 0, target: 0, ..t },
            ),
        }
    }

    /// `post` is this animation after a step of `delta`.
    pub open spec fn steps_to(self, delta: int, post: Animation) -> bool
        decreases self, 0int,
    {
        match self {
            Animation::Basic(b) => post == Animation::Basic(b.after(delta)),
            Animation::Sequence(v) => post matches Animation::Sequence(w) && w@.len() == v@.len()
                && {
                let i = Self::active_child(v@, delta);
                if 0 <= i < v@.len() {
                    w@ == v@.update(i, w@[i]) && v@[i].steps_to(delta, w@[i])
                } else {
                    w@ == v@
                }
            },
            Animation::Parallel(v) => post matches Animation::Parallel(w) && w@.len() == v@.len()
                && parallel_steps(v@, w@, delta, 0),
            Animation::Delay(d) => post matches Animation::Delay(e) && e.delay == d.delay && {
                if delta >= 0 {
                    if d.elapsed < d.delay {
                        if d.elapsed + delta <= d.delay {
                            e.elapsed == d.elapsed + delta && e.child == d.child
                        } else {
                            e.elapsed == d.delay && d.child.steps_to(
                                d.elapsed + delta - d.delay,
                                *e.child,
                            )
                        }
                    } else {
                        e.elapsed == d.elapsed && d.child.steps_to(delta, *e.child)
                    }
                } else {
                    &&& e.elapsed == (if d.elapsed + delta < 0 { 0 } else { d.elapsed + delta })
                    &&& if d.child.started() {
                        d.child.steps_to(delta, *e.child)
                    } else {
                        e.child == d.child
                    }
                }
            },
            Animation::Looping(l) => {
                if l.repeat_count != 0 && l.current_count >= l.repeat_count {
                    post == self
                } else {
                    post matches Animation::Looping(m) && m.repeat_count == l.repeat_count
                        && exists|c: Animation| #[trigger]
                        intermediate(c) && l.child.steps_to(delta, c) && if c.finished() {
                            m.current_count == bumped(l.current_count) && c.resets_to(*m.child)
                        } else {
                            m.current_count == l.current_count && *m.child == c
                        }
                }
            },
            Animation::BackAndForth(b) => {
                if b.repeat_count != 0 && b.current_count >= b.repeat_count {
                    post == self
                } else {
                    post matches Animation::BackAndForth(c) && c.repeat_count == b.repeat_count
                        && b.child.steps_to(if b.forward { delta } else { -delta }, *c.child)
                        && if c.child.finished() || !c.child.started() {
                        c.current_count == bumped(b.current_count) && c.forward == !b.forward
                    } else {
                        c.current_count == b.current_count && c.forward == b.forward
                    }
                }
            },
            Animation::Target(t) => post == Animation::Target(t.after(delta)),
        }
    }
}

pub(crate) proof fn lemma_all_finished(s: Seq<Animation>, k: int)
    requires
        0 <= k <= s.len(),
    ensures
        all_finished(s, k) <==> forall|j: int| k <= j < s.len() ==> #[trigger] s[j].finished(),
    decreases s.len() - k,
{
    if k < s.len() {
        lemma_all_finished(s, k + 1);
        assert(all_finished(s, k) == (s[k].finished() && all_finished(s, k + 1)));
    }
}

pub(crate) proof fn lemma_any_started(s: Seq<Animation>, k: int)
    requires
        0 <= k <= s.len(),
    ensures
        any_started(s, k) <==> exists|j: int| k <= j < s.len() && #[trigger] s[j].started(),
    decreases s.len() - k,
{
    if k < s.len() {
        lemma_any_started(s, k + 1);
        assert(any_started(s, k) == (s[k].started() || any_started(s, k + 1)));
    }
}

pub(crate) proof fn lemma_all_reversible(s: Seq<Animation>, k: int)
    requires
        0 <= k <= s.len(),
    ensures
        all_reversible(s, k) <==> forall|j: int| k <= j < s.len() ==> #[trigger] s[j].reversible(),
    decreases s.len() - k,
{
    if k < s.len() {
        lemma_all_reversible(s, k + 1);
        assert(all_reversible(s, k) == (s[k].reversible() && all_reversible(s, k + 1)));
    }
}

pub(crate) proof fn lemma_all_wf(s: Seq<Animation>, k: int)
    requires
        0 <= k <= s.len(),
    ensures
        all_wf(s, k) <==> forall|j: int| k <= j < s.len() ==> #[trigger] s[j].wf(),
    decreases s.len() - k,
{
    if k < s.len() {
        lemma_all_wf(s, k + 1);
        assert(all_wf(s, k) == (s[k].wf() && all_wf(s, k + 1)));
    }
}

pub(crate) proof fn lemma_all_reset(s: Seq<Animation>, w: Seq<Animation>, k: int)
    requires
        0 <= k <= s.len(),
    ensures
        all_reset(s, w, k) <==> forall|j: int| k <= j < s.len() ==> #[trigger] s[j].resets_to(w[j]),
    decreases s.len() - k,
{
    if k < s.len() {
        lemma_all_reset(s, w, k + 1);
        assert(all_reset(s, w, k) == (s[k].resets_to(w[k]) && all_reset(s, w, k + 1)));
    }
}

pub(crate) proof fn lemma_same_reversible(s: Seq<Animation>, w: Seq<Animation>, k: int)
    requires
        0 <= k <= s.len(),
        w.len() == s.len(),
        forall|j: int| 0 <= j < s.len() ==> #[trigger] w[j].reversible() == s[j].reversible(),
    ensures
        all_reversible(w, k) == all_reversible(s, k),
    decreases s.len() - k,
{
    if k < s.len() {
        lemma_same_reversible(s, w, k + 1);
        assert(all_reversible(s, k) == (s[k].reversible() && all_reversible(s, k + 1)));
        assert(all_reversible(w, k) == (w[k].reversible() && all_reversible(w, k + 1)));
    }
}

/// One child of a parallel group after a step.
pub open spec fn parallel_child_steps(a: Animation, delta: int, b: Animation) -> bool {
    if a.finished() {
        b == a
    } else {
        a.steps_to(delta, b)
    }
}

pub(crate) proof fn lemma_parallel_steps(s: Seq<Animation>, w: Seq<Animation>, delta: int, k: int)
    requires
        0 <= k <= s.len(),
    ensures
        parallel_steps(s, w, delta, k) <==> forall|j: int|
            k <= j < s.len() ==> #[trigger] parallel_child_steps(s[j], delta, w[j]),
    decreases s.len() - k,
{
    if k < s.len() {
        lemma_parallel_steps(s, w, delta, k + 1);
        assert(parallel_steps(s, w, delta, k) == (parallel_child_steps(s[k], delta, w[k])
            && parallel_steps(s, w, delta, k + 1)));
    }
}

impl BasicAnimation {
    /// A run of `duration` microseconds, at its start.
    pub fn new(id: &str, duration: u64, easing: Easing) -> (r: Self)
        ensures
            r.id@ == id@,
            r.duration == duration,
            r.elapsed == 0,
            r.easing == easing,
    {
        BasicAnimation { id: id.to_owned(), duration, elapsed: 0, easing }
    }

    fn step(&mut self, delta: i64) -> (p: u64)
        requires
            old(self).elapsed <= old(self).duration,
        ensures
            *final(self) == old(self).after(delta as int),
            p == old(self).sample_after(delta as int),
            final(self).elapsed <= final(self).duration,
            p <= PROGRESS_ONE,
    {
        if self.elapsed >= self.duration && delta >= 0 {
            return PROGRESS_ONE;
        }
        let e: i128 = self.elapsed as i128 + delta as i128;
        let clamped: u64 = if e < 0 {
            0
        } else if e > self.duration as i128 {
            self.duration
        } else {
            e as u64
        };
        let lin: u64 = if self.duration == 0 {
            PROGRESS_ONE
        } else {
            proof {
                let c = clamped as int;
                let d = self.duration as int;
                assert(c * PROGRESS_ONE / d <= PROGRESS_ONE) by (nonlinear_arith)
                    requires 0 <= c <= d, 0 < d;
                assert(c * PROGRESS_ONE <= d * PROGRESS_ONE) by (nonlinear_arith)
                    requires 0 <= c <= d;
            }
            ((clamped as u128) * (PROGRESS_ONE as u128) / (self.duration as u128)) as u64
        };
        self.elapsed = clamped;
        if delta < 0 {
            PROGRESS_ONE - self.easing.apply(PROGRESS_ONE - lin)
        } else {
            self.easing.apply(lin)
        }
    }
}

impl TargetAnimation {
    /// An animation at 0 with target 0, moving at `speed` progress units
    /// per second.
    pub fn new(id: &str, speed: u64) -> (r: Self)
        ensures
            r.id@ == id@,
            r.speed == speed,
            r.current == 0,
            r.target == 0,
    {
        TargetAnimation { id: id.to_owned(), current: 0, target: 0, speed }
    }

    fn step(&mut self, delta: i64)
        requires
            old(self).current <= PROGRESS_ONE,
            old(self).target <= PROGRESS_ONE,
        ensures
            *final(self) == old(self).after(delta as int),
            final(self).current <= PROGRESS_ONE,
            final(self).target == old(self).target,
    {
        let magnitude: u128 = if delta < 0 {
            (-(delta as i128)) as u128
        } else {
            delta as u128
        };
        proof {
            let sp = self.speed as int;
            let m = magnitude as int;
            assert(sp * m <= 0xffff_ffff_ffff_ffff * 0x8000_0000_0000_0000) by (nonlinear_arith)
                requires 0 <= sp <= 0xffff_ffff_ffff_ffff, 0 <= m <= 0x8000_0000_0000_0000;
        }
        let travel: u128 = ((self.speed as u128) * magnitude + (MICROS_PER_SECOND as u128 - 1))
            / (MICROS_PER_SECOND as u128);
        let c: u128 = self.current as u128;
        let t: u128 = self.target as u128;
        let moved: u128 = if c < t {
            if delta >= 0 {
                if c + travel > t { t } else { c + travel }
            } else {
                if travel > c { 0 } else { c - travel }
            }
        } else if c > t {
            if delta >= 0 {
                if travel > c || c - travel < t { t } else { c - travel }
            } else {
                if c + travel > PROGRESS_ONE as u128 { PROGRESS_ONE as u128 } else { c + travel }
            }
        } else {
            c
        };
        self.current = moved as u64;
    }

    /// Points the animation at a new target, held to `0..=PROGRESS_ONE`.
    pub fn set_target(&mut self, target: u64)
        ensures
            final(self).target == if target > PROGRESS_ONE { PROGRESS_ONE } else { target },
            final(self).id == old(self).id,
            final(self).current == old(self).current,
            final(self).speed == old(self).speed,
    {
        self.target = if target > PROGRESS_ONE { PROGRESS_ONE } else { target };
    }
}

impl Animation {
    /// Whether the animation has reached its end, playing forwards.
    pub fn is_finished(&self) -> (r: bool)
        ensures
            r == self.finished(),
        decreases self,
    {
        match self {
            Animation::Basic(b) => b.elapsed >= b.duration,
            Animation::Sequence(v) => children_finished(v),
            Animation::Parallel(v) => children_finished(v),
            Animation::Delay(d) => d.child.is_finished(),
            Animation::Looping(l) => l.repeat_count != 0 && l.current_count >= l.repeat_count,
            Animation::BackAndForth(b) => b.repeat_count != 0 && b.current_count >= b.repeat_count,
            Animation::Target(t) => t.current == t.target,
        }
    }

    /// Whether any forward progress has been made.
    pub fn has_started(&self) -> (r: bool)
        ensures
            r == self.started(),
        decreases self,
    {
        match self {
            Animation::Basic(b) => b.elapsed > 0,
            Animation::Sequence(v) => children_started(v),
            Animation::Parallel(v) => children_started(v),
            Animation::Delay(d) => d.elapsed > 0 || d.child.has_started(),
            Animation::Looping(l) => l.current_count > 0 || l.child.has_started(),
            Animation::BackAndForth(b) => b.current_count > 0 || b.child.has_started(),
            Animation::Target(t) => t.current > 0,
        }
    }
}

fn children_finished(v: &Vec<Animation>) -> (r: bool)
    ensures
        r == all_finished(v@, 0),
    decreases v,
{
    let mut i: usize = 0;
    while i < v.len()
        invariant
            i <= v@.len(),
            forall|j: int| 0 <= j < i ==> #[trigger] v@[j].finished(),
        decreases v@.len() - i,
    {
        proof {
            assert(decreases_to!(v => v@[i as int]));
        }
        if !v[i].is_finished() {
            proof {
                lemma_all_finished(v@, 0);
            }
            return false;
        }
        i = i + 1;
    }
    proof {
        lemma_all_finished(v@, 0);
    }
    true
}

fn children_started(v: &Vec<Animation>) -> (r: bool)
    ensures
        r == any_started(v@, 0),
    decreases v,
{
    let mut i: usize = 0;
    while i < v.len()
        invariant
            i <= v@.len(),
            forall|j: int| 0 <= j < i ==> !(#[trigger] v@[j].started()),
        decreases v@.len() - i,
    {
        proof {
            assert(decreases_to!(v => v@[i as int]));
        }
        if v[i].has_started() {
            proof {
                lemma_any_started(v@, 0);
            }
            return true;
        }
        i = i + 1;
    }
    proof {
        lemma_any_started(v@, 0);
    }
    false
}

impl Animation {
    /// Returns the animation to its initial state, children included.
    pub fn reset(&mut self)
        requires
            old(self).wf(),
        ensures
            old(self).resets_to(*final(self)),
            final(self).wf(),
            final(self).reversible() == old(self).reversible(),
        decreases *old(self),
    {
        match self {
            Animation::Basic(b) => {
                b.elapsed = 0;
            },
            Animation::Sequence(v) => reset_children(v),
            Animation::Parallel(v) => reset_children(v),
            Animation::Delay(d) => {
                d.elapsed = 0;
                d.child.reset();
            },
            Animation::Looping(l) => {
                l.current_count = 0;
                l.child.reset();
            },
            Animation::BackAndForth(b) => {
                b.current_count = 0;
                b.forward = true;
                b.child.reset();
            },
            Animation::Target(t) => {
                t.current = 0;
                t.target = 0;
            },
        }
    }
}

fn reset_children(v: &mut Vec<Animation>)
    requires
        all_wf(old(v)@, 0),
    ensures
        final(v)@.len() == old(v)@.len(),
        all_reset(old(v)@, final(v)@, 0),
        all_wf(final(v)@, 0),
        all_reversible(final(v)@, 0) == all_reversible(old(v)@, 0),
    decreases *old(v),
{
    let ghost v0 = v@;
    proof {
        lemma_all_wf(v0, 0);
    }
    let mut i: usize = 0;
    while i < v.len()
        invariant
            v0 == old(v)@,
            v@.len() == v0.len(),
            i <= v0.len(),
            forall|j: int| 0 <= j < v0.len() ==> #[trigger] v0[j].wf(),
            forall|j: int| 0 <= j < i ==> #[trigger] v0[j].resets_to(v@[j]),
            forall|j: int| 0 <= j < i ==> #[trigger] v@[j].wf(),
            forall|j: int| 0 <= j < i ==> #[trigger] v@[j].reversible() == v0[j].reversible(),
            forall|j: int| i <= j < v0.len() ==> #[trigger] v@[j] == v0[j],
        decreases v0.len() - i,
    {
        proof {
            assert(decreases_to!(*old(v) => old(v)@));
            assert(decreases_to!(old(v)@ => old(v)@[i as int]));
        }
        v[i].reset();
        i = i + 1;
    }
    proof {
        lemma_all_reset(v0, v@, 0);
        lemma_all_wf(v@, 0);
        lemma_same_reversible(v0, v@, 0);
    }
}

fn first_unfinished_index(v: &Vec<Animation>) -> (r: usize)
    ensures
        r == first_unfinished(v@, 0),
        r <= v@.len(),
{
    let mut i: usize = 0;
    while i < v.len()
        invariant
            i <= v@.len(),
            first_unfinished(v@, 0) == first_unfinished(v@, i as int),
        decreases v@.len() - i,
    {
        if !v[i].is_finished() {
            return i;
        }
        i = i + 1;
    }
    i
}

/// The index of the last started child, if any.
fn last_started_index(v: &Vec<Animation>) -> (r: Option<usize>)
    ensures
        match r {
            Some(i) => i < v@.len() && i == last_started(v@, v@.len() as int),
            None => last_started(v@, v@.len() as int) == -1,
        },
{
    let mut n: usize = v.len();
    while n > 0
        invariant
            n <= v@.len(),
            last_started(v@, v@.len() as int) == last_started(v@, n as int),
        decreases n,
    {
        if v[n - 1].has_started() {
            return Some(n - 1);
        }
        n = n - 1;
    }
    None
}

fn update_sequence(v: &mut Vec<Animation>, delta: i64) -> (out: Vec<Sample>)
    requires
        all_wf(old(v)@, 0),
        delta >= 0 || all_reversible(old(v)@, 0),
    ensures
        final(v)@.len() == old(v)@.len(),
        ({
            let i = Animation::active_child(old(v)@, delta as int);
            if 0 <= i < old(v)@.len() {
                &&& final(v)@ == old(v)@.update(i, final(v)@[i])
                &&& old(v)@[i].steps_to(delta as int, final(v)@[i])
                &&& out@ == old(v)@[i].output(delta as int)
            } else {
                &&& final(v)@ == old(v)@
                &&& out@ == Seq::<Sample>::empty()
            }
        }),
        all_wf(final(v)@, 0),
        all_reversible(final(v)@, 0) == all_reversible(old(v)@, 0),
    decreases *old(v),
{
    let ghost v0 = v@;
    proof {
        lemma_all_wf(v0, 0);
        lemma_all_reversible(v0, 0);
    }
    let found: Option<usize> = if delta >= 0 {
        let i = first_unfinished_index(v);
        if i < v.len() {
            Some(i)
        } else {
            None
        }
    } else {
        last_started_index(v)
    };
    match found {
        Some(i) => {
            proof {
                assert(decreases_to!(*old(v) => old(v)@));
                assert(decreases_to!(old(v)@ => old(v)@[i as int]));
            }
            let out = v[i].update(delta);
            proof {
                lemma_all_wf(v@, 0);
                lemma_same_reversible(v0, v@, 0);
            }
            out
        },
        None => Vec::new(),
    }
}

fn update_parallel(v: &mut Vec<Animation>, delta: i64) -> (out: Vec<Sample>)
    requires
        all_wf(old(v)@, 0),
        delta >= 0 || all_reversible(old(v)@, 0),
    ensures
        final(v)@.len() == old(v)@.len(),
        parallel_steps(old(v)@, final(v)@, delta as int, 0),
        out@ == parallel_output(old(v)@, delta as int, 0),
        all_wf(final(v)@, 0),
        all_reversible(final(v)@, 0) == all_reversible(old(v)@, 0),
    decreases *old(v),
{
    let ghost v0 = v@;
    proof {
        lemma_all_wf(v0, 0);
        lemma_all_reversible(v0, 0);
    }
    let mut out: Vec<Sample> = Vec::new();
    let mut i: usize = 0;
    while i < v.len()
        invariant
            v0 == old(v)@,
            v@.len() == v0.len(),
            i <= v0.len(),
            forall|j: int| 0 <= j < v0.len() ==> #[trigger] v0[j].wf(),
            delta >= 0 || forall|j: int| 0 <= j < v0.len() ==> #[trigger] v0[j].reversible(),
            forall|j: int| 0 <= j < i ==> #[trigger] parallel_child_steps(v0[j], delta as int, v@[j]),
            forall|j: int| 0 <= j < i ==> #[trigger] v@[j].wf(),
            forall|j: int| 0 <= j < i ==> #[trigger] v@[j].reversible() == v0[j].reversible(),
            forall|j: int| i <= j < v0.len() ==> #[trigger] v@[j] == v0[j],
            out@ + parallel_output(v0, delta as int, i as int) == parallel_output(v0, delta as int, 0),
        decreases v0.len() - i,
    {
        proof {
            assert(decreases_to!(*old(v) => old(v)@));
            assert(decreases_to!(old(v)@ => old(v)@[i as int]));
            assert(parallel_output(v0, delta as int, i as int) == (if v0[i as int].finished() {
                Seq::<Sample>::empty()
            } else {
                v0[i as int].output(delta as int)
            }) + parallel_output(v0, delta as int, i + 1));
        }
        if !v[i].is_finished() {
            let mut o = v[i].update(delta);
            proof {
                assert(out@ + o@ + parallel_output(v0, delta as int, i + 1) =~= out@ + (o@
                    + parallel_output(v0, delta as int, i + 1)));
            }
            out.append(&mut o);
        } else {
            proof {
                assert(Seq::<Sample>::empty() + parallel_output(v0, delta as int, i + 1)
                    =~= parallel_output(v0, delta as int, i + 1));
            }
        }
        i = i + 1;
    }
    proof {
        assert(parallel_output(v0, delta as int, v0.len() as int) == Seq::<Sample>::empty());
        assert(out@ + Seq::<Sample>::empty() =~= out@);
        lemma_parallel_steps(v0, v@, delta as int, 0);
        lemma_all_wf(v@, 0);
        lemma_same_reversible(v0, v@, 0);
    }
    out
}

fn update_looping(l: &mut LoopingAnimation, delta: i64) -> (out: Vec<Sample>)
    requires
        old(l).child.wf(),
        delta >= 0,
    ensures
        Animation::Looping(*old(l)).steps_to(delta as int, Animation::Looping(*final(l))),
        out@ == Animation::Looping(*old(l)).output(delta as int),
        final(l).child.wf(),
    decreases *old(l),
{
    if l.repeat_count != 0 && l.current_count >= l.repeat_count {
        return Vec::new();
    }
    let out = l.child.update(delta);
    let ghost c = *l.child;
    if l.child.is_finished() {
        if l.current_count < usize::MAX {
            l.current_count = l.current_count + 1;
        }
        l.child.reset();
    }
    proof {
        reveal(intermediate);
        assert(intermediate(c));
    }
    out
}

fn update_back_and_forth(b: &mut BackAndForthAnimation, delta: i64) -> (out: Vec<Sample>)
    requires
        old(b).child.wf(),
        old(b).child.reversible(),
        delta >= 0,
    ensures
        Animation::BackAndForth(*old(b)).steps_to(delta as int, Animation::BackAndForth(*final(b))),
        out@ == Animation::BackAndForth(*old(b)).output(delta as int),
        final(b).child.wf(),
        final(b).child.reversible(),
    decreases *old(b),
{
    if b.repeat_count != 0 && b.current_count >= b.repeat_count {
        return Vec::new();
    }
    let d = if b.forward {
        delta
    } else {
        -delta
    };
    let out = b.child.update(d);
    if b.child.is_finished() || !b.child.has_started() {
        if b.current_count < usize::MAX {
            b.current_count = b.current_count + 1;
        }
        b.forward = !b.forward;
    }
    out
}

impl Animation {
    /// Advances the animation by `delta` microseconds (backwards when
    /// negative) and returns the samples of the animations it played.
    /// Only a tree without looping parts can be played backwards.
    pub fn update(&mut self, delta: i64) -> (out: Vec<Sample>)
        requires
            old(self).wf(),
            delta >= 0 || old(self).reversible(),
        ensures
            final(self).wf(),
            final(self).reversible() == old(self).reversible(),
            old(self).steps_to(delta as int, *final(self)),
            out@ == old(self).output(delta as int),
        decreases *old(self),
    {
        match self {
            Animation::Basic(b) => {
                let p = b.step(delta);
                let mut out: Vec<Sample> = Vec::new();
                out.push((b.id.clone(), p));
                out
            },
            Animation::Sequence(v) => update_sequence(v, delta),
            Animation::Parallel(v) => update_parallel(v, delta),
            Animation::Delay(d) => {
                if delta >= 0 {
                    if d.elapsed < d.delay {
                        let e: u128 = d.elapsed as u128 + delta as u128;
                        if e <= d.delay as u128 {
                            d.elapsed = e as u64;
                            Vec::new()
                        } else {
                            let adjusted = (e - d.delay as u128) as i64;
                            d.elapsed = d.delay;
                            d.child.update(adjusted)
                        }
                    } else {
                        d.child.update(delta)
                    }
                } else {
                    let out = if d.child.has_started() {
                        d.child.update(delta)
                    } else {
                        Vec::new()
                    };
                    let e: i128 = d.elapsed as i128 + delta as i128;
                    d.elapsed = if e < 0 {
                        0
                    } else {
                        e as u64
                    };
                    out
                }
            },
            Animation::Looping(l) => update_looping(l, delta),
            Animation::BackAndForth(b) => update_back_and_forth(b, delta),
            Animation::Target(t) => {
                t.step(delta);
                let mut out: Vec<Sample> = Vec::new();
                out.push((t.id.clone(), t.current));
                out
            },
        }
    }
}

impl DelayAnimation {
    /// Plays `child` after `delay` microseconds.
    pub fn new(delay: u64, child: Animation) -> (r: Self)
        ensures
            r.delay == delay,
            r.elapsed == 0,
            *r.child == child,
    {
        DelayAnimation { delay, elapsed: 0, child: Box::new(child) }
    }
}

impl LoopingAnimation {
    /// Plays `child` `repeat_count` times; 0 means forever.
    pub fn new(child: Animation, repeat_count: usize) -> (r: Self)
        ensures
            *r.child == child,
            r.repeat_count == repeat_count,
            r.current_count == 0,
    {
        LoopingAnimation { child: Box::new(child), repeat_count, current_count: 0 }
    }

    /// Plays `child` forever.
    pub fn infinite(child: Animation) -> (r: Self)
        ensures
            *r.child == child,
            r.repeat_count == 0,
            r.current_count == 0,
    {
        LoopingAnimation::new(child, 0)
    }
}

impl BackAndForthAnimation {
    /// Plays `child` forwards and backwards, `repeat_count` legs in all;
    /// 0 means forever.
    pub fn new(child: Animation, repeat_count: usize) -> (r: Self)
        ensures
            *r.child == child,
            r.repeat_count == repeat_count,
            r.current_count == 0,
            r.forward,
    {
        BackAndForthAnimation { child: Box::new(child), repeat_count, current_count: 0, forward: true }
    }

    /// Plays `child` forwards and backwards forever.
    pub fn infinite(child: Animation) -> (r: Self)
        ensures
            *r.child == child,
            r.repeat_count == 0,
            r.current_count == 0,
            r.forward,
    {
        BackAndForthAnimation::new(child, 0)
    }
}

impl Animation {
    /// A sequence of well-formed children is well formed.
    pub fn sequence(children: Vec<Animation>) -> (r: Animation)
        requires
            forall|i: int| 0 <= i < children@.len() ==> #[trigger] children@[i].wf(),
        ensures
            r == Animation::Sequence(children),
            r.wf(),
    {
        proof {
            lemma_all_wf(children@, 0);
        }
        Animation::Sequence(children)
    }

    /// A parallel group of well-formed children is well formed.
    pub fn parallel(children: Vec<Animation>) -> (r: Animation)
        requires
            forall|i: int| 0 <= i < children@.len() ==> #[trigger] children@[i].wf(),
        ensures
            r == Animation::Parallel(children),
            r.wf(),
    {
        proof {
            lemma_all_wf(children@, 0);
        }
        Animation::Parallel(children)
    }
}

} // verus!
