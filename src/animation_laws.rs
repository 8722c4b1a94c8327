//! Laws of the animation engine, proved over the contracts of `update`:
//! playing back retraces time, sequences complete their children in order,
//! parallel groups report once per unfinished child, loops count their
//! rounds, and target animations converge.

use vstd::prelude::*;
use crate::animation::{
    all_finished, bumped, first_unfinished, intermediate, lemma_all_finished, parallel_output,
    Animation, BasicAnimation, Sample, TargetAnimation,
};
use crate::easing::{lemma_curve_bounds, PROGRESS_ONE};

verus! {

/// A basic animation played forwards by `d` from its start, then backwards
/// by the same amount, is back at its start and reports progress 0.
pub proof fn lemma_basic_time_reversal(b: BasicAnimation, d: int, mid: Animation, end: Animation)
    requires
        b.elapsed == 0,
        b.duration > 0,
        d >= 0,
        Animation::Basic(b).steps_to(d, mid),
        mid.steps_to(-d, end),
    ensures
        end == Animation::Basic(b),
        mid.output(-d) == seq![(b.id, 0u64)],
{
    let m = b.after(d);
    assert(mid == Animation::Basic(m));
    lemma_curve_bounds(b.easing, 0);
    if d > 0 {
        assert(m.clamped(-d) == 0);
        assert(m.linear_at(0) == 0) by (nonlinear_arith)
            requires m.duration > 0, m.linear_at(0) == 0 * PROGRESS_ONE / (m.duration as int);
        assert(m.after(-d) == BasicAnimation { elapsed: 0, ..b });
    } else {
        assert(m == b);
        assert(b.clamped(0) == 0);
        assert(b.linear_at(0) == 0) by (nonlinear_arith)
            requires b.duration > 0, b.linear_at(0) == 0 * PROGRESS_ONE / (b.duration as int);
    }
}

/// `t` stepped `n` times by `d`.
pub open spec fn target_after_steps(t: TargetAnimation, d: int, n: nat) -> TargetAnimation
    decreases n,
{
    if n == 0 {
        t
    } else {
        target_after_steps(t, d, (n - 1) as nat).after(d)
    }
}

/// A target animation pointed at completion and stepped forwards never
/// moves back, and is finished once the steps have covered the distance:
/// after at most `ceil((PROGRESS_ONE - current) / travel)` steps, where each
/// step travels at least one unit.
pub proof fn lemma_target_converges(t: TargetAnimation, d: int, n: nat)
    requires
        t.target == PROGRESS_ONE,
        t.current <= PROGRESS_ONE,
        t.speed > 0,
        d > 0,
    ensures
        t.travel(d) >= 1,
        target_after_steps(t, d, n).current <= target_after_steps(t, d, n + 1).current,
        n * t.travel(d) >= PROGRESS_ONE - t.current ==> Animation::Target(
            target_after_steps(t, d, n),
        ).finished(),
    decreases n,
{
    let tr = t.travel(d);
    assert(t.speed * d >= 1) by (nonlinear_arith)
        requires t.speed > 0, d > 0;
    assert(tr >= 1);
    lemma_target_progress(t, d, n);
    lemma_target_progress(t, d, n + 1);
    assert(n * tr >= PROGRESS_ONE - t.current ==> t.current + n * tr >= PROGRESS_ONE);
}

proof fn lemma_target_progress(t: TargetAnimation, d: int, n: nat)
    requires
        t.target == PROGRESS_ONE,
        t.current <= PROGRESS_ONE,
        t.speed > 0,
        d > 0,
    ensures
        target_after_steps(t, d, n).target == PROGRESS_ONE,
        target_after_steps(t, d, n).speed == t.speed,
        target_after_steps(t, d, n).current <= PROGRESS_ONE,
        target_after_steps(t, d, n).current >= t.current,
        ({
            let c = target_after_steps(t, d, n).current as int;
            c == PROGRESS_ONE || c >= t.current + n * t.travel(d)
        }),
        n > 0 ==> target_after_steps(t, d, (n - 1) as nat).current <= target_after_steps(
            t,
            d,
            n,
        ).current,
    decreases n,
{
    let tr = t.travel(d);
    assert(t.speed * d >= 1) by (nonlinear_arith)
        requires t.speed > 0, d > 0;
    if n > 0 {
        lemma_target_progress(t, d, (n - 1) as nat);
        let p = target_after_steps(t, d, (n - 1) as nat);
        assert(p.travel(d) == tr);
        assert((n - 1) * tr + tr == n * tr) by (nonlinear_arith);
    }
}

/// How many animations of `s` from `i` on are unfinished.
pub open spec fn unfinished_count(s: Seq<Animation>, i: int) -> nat
    decreases s.len() - i,
{
    if i < 0 || i >= s.len() {
        0
    } else {
        (if s[i].finished() { 0nat } else { 1nat }) + unfinished_count(s, i + 1)
    }
}

/// The ids of the unfinished single animations of `s` from `i` on, in order.
pub open spec fn unfinished_ids(s: Seq<Animation>, i: int) -> Seq<String>
    decreases s.len() - i,
{
    if i < 0 || i >= s.len() {
        Seq::empty()
    } else {
        let rest = unfinished_ids(s, i + 1);
        if s[i].finished() {
            rest
        } else {
            seq![single_id(s[i])] + rest
        }
    }
}

/// An animation that reports exactly one sample per step, under its own id.
pub open spec fn single(a: Animation) -> bool {
    a is Basic || a is Target
}

/// The id of a single animation.
pub open spec fn single_id(a: Animation) -> String {
    match a {
        Animation::Target(t) => t.id,
        _ => a->Basic_0.id,
    }
}

pub open spec fn sample_ids(out: Seq<Sample>) -> Seq<String> {
    out.map_values(|p: Sample| p.0)
}

/// A step of a parallel group of basic and target animations reports
/// exactly one sample per child that had not finished, under that child's
/// id and in the children's order, and none for a finished child, however
/// many have finished.
pub proof fn lemma_parallel_one_sample_each(a: Animation, d: int)
    requires
        a is Parallel,
        forall|i: int| 0 <= i < a->Parallel_0@.len() ==> single(#[trigger] a->Parallel_0@[i]),
    ensures
        sample_ids(a.output(d)) == unfinished_ids(a->Parallel_0@, 0),
        a.output(d).len() == unfinished_count(a->Parallel_0@, 0),
{
    lemma_parallel_ids(a->Parallel_0@, d, 0);
}

proof fn lemma_parallel_ids(s: Seq<Animation>, d: int, i: int)
    requires
        0 <= i <= s.len(),
        forall|j: int| 0 <= j < s.len() ==> single(#[trigger] s[j]),
    ensures
        sample_ids(parallel_output(s, d, i)) == unfinished_ids(s, i),
        parallel_output(s, d, i).len() == unfinished_count(s, i),
    decreases s.len() - i,
{
    if i < s.len() {
        lemma_parallel_ids(s, d, i + 1);
        let rest = parallel_output(s, d, i + 1);
        let here = if s[i].finished() {
            Seq::<Sample>::empty()
        } else {
            s[i].output(d)
        };
        assert(parallel_output(s, d, i) == here + rest);
        assert(sample_ids(here + rest) =~= sample_ids(here) + sample_ids(rest));
        if !s[i].finished() {
            assert(sample_ids(here) =~= seq![single_id(s[i])]);
        } else {
            assert(sample_ids(here) =~= Seq::<String>::empty());
        }
        assert(unfinished_ids(s, i) =~= sample_ids(here) + sample_ids(rest));
    } else {
        assert(sample_ids(parallel_output(s, d, i)) =~= Seq::<String>::empty());
    }
}

proof fn lemma_first_unfinished_at(s: Seq<Animation>, i: int, k: int)
    requires
        0 <= i <= k < s.len(),
        forall|j: int| i <= j < k ==> #[trigger] s[j].finished(),
        !s[k].finished(),
    ensures
        first_unfinished(s, i) == k,
    decreases k - i,
{
    if i < k {
        lemma_first_unfinished_at(s, i + 1, k);
    }
}

/// The state of a sequence of fresh basic animations, all of length `dur`,
/// after `k` steps of `dur`: the first `k` have run to their end, the rest
/// are untouched.
pub open spec fn sequence_state_after(v: Seq<Animation>, dur: int, a: Animation, k: int) -> bool {
    &&& a is Sequence
    &&& a->Sequence_0@.len() == v.len()
    &&& forall|j: int|
        0 <= j < k ==> #[trigger] a->Sequence_0@[j] == Animation::Basic(
            BasicAnimation { elapsed: dur as u64, ..v[j]->Basic_0 },
        )
    &&& forall|j: int| k <= j < v.len() ==> #[trigger] a->Sequence_0@[j] == v[j]
}

/// A sequence of fresh basic animations of equal length `dur`, stepped by
/// `dur` once per child, completes each child in turn: step `k` reports the
/// `k`-th child at completion, and the sequence is finished after the last
/// step and not before.
pub proof fn lemma_sequence_in_order(v: Seq<Animation>, dur: int, states: Seq<Animation>)
    requires
        0 < dur <= u64::MAX,
        forall|j: int|
            0 <= j < v.len() ==> (#[trigger] v[j] is Basic) && v[j]->Basic_0.duration == dur
                && v[j]->Basic_0.elapsed == 0,
        states.len() == v.len() + 1,
        states[0] is Sequence,
        states[0]->Sequence_0@ == v,
        forall|k: int| 0 <= k < v.len() ==> #[trigger] states[k].steps_to(dur, states[k + 1]),
    ensures
        forall|k: int|
            0 <= k < v.len() ==> #[trigger] states[k].output(dur) == seq![
                (v[k]->Basic_0.id, PROGRESS_ONE),
            ],
        forall|k: int| 0 <= k <= v.len() ==> (#[trigger] states[k].finished() <==> k == v.len()),
{
    lemma_sequence_states(v, dur, states, v.len() as int);
    assert forall|k: int| 0 <= k < v.len() implies #[trigger] states[k].output(dur) == seq![
        (v[k]->Basic_0.id, PROGRESS_ONE),
    ] by {
        lemma_sequence_step(v, dur, states, k);
    }
    assert forall|k: int| 0 <= k <= v.len() implies (#[trigger] states[k].finished() <==> k
        == v.len()) by {
        let w = states[k]->Sequence_0@;
        assert(sequence_state_after(v, dur, states[k], k));
        lemma_all_finished(w, 0);
        if k < v.len() {
            assert(w[k] == v[k]);
            assert(!w[k].finished());
        } else {
            assert forall|j: int| 0 <= j < w.len() implies #[trigger] w[j].finished() by {
                assert(w[j] == Animation::Basic(
                    BasicAnimation { elapsed: dur as u64, ..v[j]->Basic_0 },
                ));
            }
        }
    }
}

proof fn lemma_sequence_states(v: Seq<Animation>, dur: int, states: Seq<Animation>, n: int)
    requires
        0 < dur <= u64::MAX,
        forall|j: int|
            0 <= j < v.len() ==> (#[trigger] v[j] is Basic) && v[j]->Basic_0.duration == dur
                && v[j]->Basic_0.elapsed == 0,
        states.len() == v.len() + 1,
        states[0] is Sequence,
        states[0]->Sequence_0@ == v,
        forall|k: int| 0 <= k < v.len() ==> #[trigger] states[k].steps_to(dur, states[k + 1]),
        0 <= n <= v.len(),
    ensures
        forall|k: int| 0 <= k <= n ==> #[trigger] sequence_state_after(v, dur, states[k], k),
    decreases n,
{
    if n > 0 {
        lemma_sequence_states(v, dur, states, n - 1);
        lemma_sequence_step(v, dur, states, n - 1);
    } else {
        assert(sequence_state_after(v, dur, states[0], 0));
    }
}

proof fn lemma_sequence_step(v: Seq<Animation>, dur: int, states: Seq<Animation>, k: int)
    requires
        0 < dur <= u64::MAX,
        forall|j: int|
            0 <= j < v.len() ==> (#[trigger] v[j] is Basic) && v[j]->Basic_0.duration == dur
                && v[j]->Basic_0.elapsed == 0,
        states.len() == v.len() + 1,
        0 <= k < v.len(),
        states[k].steps_to(dur, states[k + 1]),
        sequence_state_after(v, dur, states[k], k),
    ensures
        sequence_state_after(v, dur, states[k + 1], k + 1),
        states[k].output(dur) == seq![(v[k]->Basic_0.id, PROGRESS_ONE)],
{
    let w = states[k]->Sequence_0@;
    let b = v[k]->Basic_0;
    assert(w[k] == v[k]);
    assert forall|j: int| 0 <= j < k implies #[trigger] w[j].finished() by {
        assert(w[j] == Animation::Basic(BasicAnimation { elapsed: dur as u64, ..v[j]->Basic_0 }));
    }
    lemma_first_unfinished_at(w, 0, k);
    assert(Animation::active_child(w, dur) == k);
    let w2 = states[k + 1]->Sequence_0@;
    assert(w2 == w.update(k, w2[k]));
    assert(w[k].steps_to(dur, w2[k]));
    assert(w2[k] == Animation::Basic(b.after(dur)));
    assert(states[k].output(dur) == w[k].output(dur));
    assert(b.clamped(dur) == dur);
    assert(b.after(dur) == BasicAnimation { elapsed: dur as u64, ..b });
    assert(b.linear_at(dur) == PROGRESS_ONE) by (nonlinear_arith)
        requires b.duration == dur, dur > 0, b.linear_at(dur) == dur * PROGRESS_ONE / (b.duration as int);
    lemma_curve_bounds(b.easing, PROGRESS_ONE as int);
    assert(b.sample_after(dur) == PROGRESS_ONE);
    assert forall|j: int| 0 <= j < k + 1 implies #[trigger] w2[j] == Animation::Basic(
        BasicAnimation { elapsed: dur as u64, ..v[j]->Basic_0 },
    ) by {
        if j < k {
            assert(w2[j] == w[j]);
        }
    }
    assert forall|j: int| k + 1 <= j < v.len() implies #[trigger] w2[j] == v[j] by {
        assert(w2[j] == w[j]);
    }
}

/// The state of a looping basic animation `b` after `k` steps of its
/// whole length.
pub open spec fn looping_state_after(b: BasicAnimation, r: usize, a: Animation, k: int) -> bool {
    &&& a is Looping
    &&& *a->Looping_0.child == Animation::Basic(b)
    &&& a->Looping_0.repeat_count == r
    &&& a->Looping_0.current_count == if r != 0 && k > r { r as int } else { k }
}

/// A looping animation of a fresh basic animation `b`, stepped by the
/// length of `b`, completes it once per step and is finished exactly when
/// `r` completions have happened; with `r == 0` it never finishes.
pub proof fn lemma_looping_counts(b: BasicAnimation, r: usize, states: Seq<Animation>)
    requires
        b.elapsed == 0,
        b.duration > 0,
        states.len() >= 1,
        states.len() < usize::MAX,
        states[0] is Looping,
        *states[0]->Looping_0.child == Animation::Basic(b),
        states[0]->Looping_0.repeat_count == r,
        states[0]->Looping_0.current_count == 0,
        forall|k: int|
            0 <= k < states.len() - 1 ==> #[trigger] states[k].steps_to(
                b.duration as int,
                states[k + 1],
            ),
    ensures
        forall|k: int| 0 <= k < states.len() ==> #[trigger] looping_state_after(b, r, states[k], k),
        forall|k: int|
            0 <= k < states.len() ==> (#[trigger] states[k].finished() <==> (r != 0 && k >= r)),
{
    lemma_looping_states(b, r, states, states.len() - 1);
}

proof fn lemma_looping_states(b: BasicAnimation, r: usize, states: Seq<Animation>, n: int)
    requires
        b.elapsed == 0,
        b.duration > 0,
        states.len() >= 1,
        states.len() < usize::MAX,
        states[0] is Looping,
        *states[0]->Looping_0.child == Animation::Basic(b),
        states[0]->Looping_0.repeat_count == r,
        states[0]->Looping_0.current_count == 0,
        forall|k: int|
            0 <= k < states.len() - 1 ==> #[trigger] states[k].steps_to(
                b.duration as int,
                states[k + 1],
            ),
        0 <= n < states.len(),
    ensures
        forall|k: int| 0 <= k <= n ==> #[trigger] looping_state_after(b, r, states[k], k),
        forall|k: int| 0 <= k <= n ==> (#[trigger] states[k].finished() <==> (r != 0 && k >= r)),
    decreases n,
{
    if n > 0 {
        lemma_looping_states(b, r, states, n - 1);
        let k = n - 1;
        let a = states[k];
        assert(looping_state_after(b, r, a, k));
        let l = a->Looping_0;
        let dur = b.duration as int;
        assert(states[k].steps_to(b.duration as int, states[k + 1]));
        assert(k + 1 == n);
        if !(l.repeat_count != 0 && l.current_count >= l.repeat_count) {
            let m = states[n]->Looping_0;
            let c = choose|c: Animation| #[trigger]
                intermediate(c) && l.child.steps_to(dur, c) && if c.finished() {
                    m.current_count == bumped(l.current_count) && c.resets_to(*m.child)
                } else {
                    m.current_count == l.current_count && *m.child == c
                };
            assert(b.clamped(dur) == dur);
            assert(c == Animation::Basic(b.after(dur)));
            assert(c.finished());
            assert(*m.child == Animation::Basic(b));
            assert(looping_state_after(b, r, states[n], n));
        } else {
            assert(states[n] == a);
            assert(looping_state_after(b, r, states[n], n));
        }
        assert(states[n].finished() <==> (r != 0 && n >= r));
    } else {
        assert(looping_state_after(b, r, states[0], 0));
    }
}

/// A step of an unfinished looping animation completes at most one more
/// round: the count grows by one exactly when the child finished during
/// the step, and the animation is finished exactly when the count has
/// reached a non-zero repeat count. With a repeat count of 0 it never
/// finishes.
pub proof fn lemma_looping_step(a: Animation, d: int, post: Animation)
    requires
        a is Looping,
        a.steps_to(d, post),
    ensures
        post is Looping,
        post->Looping_0.repeat_count == a->Looping_0.repeat_count,
        a->Looping_0.repeat_count == 0 ==> !a.finished() && !post.finished(),
        !a.finished() ==> {
            let before = a->Looping_0.current_count;
            let after = post->Looping_0.current_count;
            &&& after == before || after == bumped(before)
            &&& post.finished() <==> (a->Looping_0.repeat_count != 0 && after
                >= a->Looping_0.repeat_count)
        },
{
}

} // verus!
