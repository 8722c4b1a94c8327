use tibs::animation::{
    Animation, BackAndForthAnimation, BasicAnimation, DelayAnimation, LoopingAnimation,
    TargetAnimation,
};
use tibs::easing::{Easing, PROGRESS_ONE};

const SECOND: i64 = 1_000_000;
const HALF: i64 = 500_000;

fn basic(id: &str, micros: u64, easing: Easing) -> Animation {
    Animation::Basic(BasicAnimation::new(id, micros, easing))
}

fn sample(id: &str, p: u64) -> (String, u64) {
    (id.to_string(), p)
}

#[test]
fn animation_test_basic_animation() {
    let mut anim = basic("test", 1_000_000, Easing::Linear);
    assert_eq!(anim.update(HALF), vec![sample("test", 500_000)]);
    assert_eq!(anim.update(HALF), vec![sample("test", PROGRESS_ONE)]);
    assert!(anim.is_finished());
    anim.reset();
    assert_eq!(anim.update(HALF), vec![sample("test", 500_000)]);
}

#[test]
fn animation_test_sequence_animation() {
    let anim1 = basic("anim1", 1_000_000, Easing::Linear);
    let anim2 = basic("anim2", 1_000_000, Easing::Linear);
    let mut seq = Animation::sequence(vec![anim1, anim2]);
    assert_eq!(seq.update(HALF), vec![sample("anim1", 500_000)]);
    assert_eq!(seq.update(HALF), vec![sample("anim1", PROGRESS_ONE)]);
    assert_eq!(seq.update(HALF), vec![sample("anim2", 500_000)]);
    assert_eq!(seq.update(HALF), vec![sample("anim2", PROGRESS_ONE)]);
    assert!(seq.is_finished());
    seq.reset();
    assert_eq!(seq.update(HALF), vec![sample("anim1", 500_000)]);
}

#[test]
fn animation_test_parallel_animation() {
    let anim1 = basic("anim1", 1_000_000, Easing::Linear);
    let anim2 = basic("anim2", 2_000_000, Easing::Linear);
    let mut par = Animation::parallel(vec![anim1, anim2]);
    assert_eq!(par.update(HALF), vec![sample("anim1", 500_000), sample("anim2", 250_000)]);
    assert_eq!(par.update(HALF), vec![sample("anim1", PROGRESS_ONE), sample("anim2", 500_000)]);
    assert_eq!(par.update(SECOND), vec![sample("anim2", PROGRESS_ONE)]);
    assert!(par.is_finished());
    par.reset();
    assert_eq!(par.update(HALF), vec![sample("anim1", 500_000), sample("anim2", 250_000)]);
}

#[test]
fn animation_test_delay_animation() {
    let anim = basic("anim", 1_000_000, Easing::Linear);
    let mut delay = Animation::Delay(DelayAnimation::new(1_000_000, anim));
    assert_eq!(delay.update(HALF), vec![]);
    assert_eq!(delay.update(HALF), vec![]);
    assert_eq!(delay.update(HALF), vec![sample("anim", 500_000)]);
    assert_eq!(delay.update(HALF), vec![sample("anim", PROGRESS_ONE)]);
    assert!(delay.is_finished());
    delay.reset();
    assert_eq!(delay.update(HALF), vec![]);
}

#[test]
fn animation_test_easing_functions() {
    let half = 500_000;
    assert_eq!(Easing::InQuad.apply(half), 250_000);
    assert_eq!(Easing::OutQuad.apply(half), 750_000);
    assert_eq!(Easing::InOutQuad.apply(half), 500_000);
    assert_eq!(Easing::InCubic.apply(half), 125_000);
    assert_eq!(Easing::OutCubic.apply(half), 875_000);
    assert_eq!(Easing::InOutCubic.apply(half), 500_000);
    assert_eq!(Easing::InQuart.apply(half), 62_500);
    assert_eq!(Easing::OutQuart.apply(half), 937_500);
    assert_eq!(Easing::InOutQuart.apply(half), 500_000);
    assert_eq!(Easing::InQuint.apply(half), 31_250);
    assert_eq!(Easing::OutQuint.apply(half), 968_750);
    assert_eq!(Easing::InOutQuint.apply(half), 500_000);
}

#[test]
fn animation_test_all_macro() {
    let anim1 = basic("anim1", 1_000_000, Easing::Linear);
    let anim2 = basic("anim2", 2_000_000, Easing::Linear);
    let mut par = Animation::parallel(vec![anim1, anim2]);
    assert_eq!(par.update(HALF), vec![sample("anim1", 500_000), sample("anim2", 250_000)]);
    assert_eq!(par.update(HALF), vec![sample("anim1", PROGRESS_ONE), sample("anim2", 500_000)]);
    assert_eq!(par.update(SECOND), vec![sample("anim2", PROGRESS_ONE)]);
    assert!(par.is_finished());
    par.reset();
    assert_eq!(par.update(HALF), vec![sample("anim1", 500_000), sample("anim2", 250_000)]);
}

#[test]
fn animation_test_seq_macro() {
    let anim1 = basic("anim1", 1_000_000, Easing::Linear);
    let anim2 = basic("anim2", 1_000_000, Easing::Linear);
    let mut seq = Animation::sequence(vec![anim1, anim2]);
    assert_eq!(seq.update(HALF), vec![sample("anim1", 500_000)]);
    assert_eq!(seq.update(HALF), vec![sample("anim1", PROGRESS_ONE)]);
    assert_eq!(seq.update(HALF), vec![sample("anim2", 500_000)]);
    assert_eq!(seq.update(HALF), vec![sample("anim2", PROGRESS_ONE)]);
    assert!(seq.is_finished());
    seq.reset();
    assert_eq!(seq.update(HALF), vec![sample("anim1", 500_000)]);
}

#[test]
fn basic_forward_then_back_returns_to_start() {
    let mut anim = basic("fade", 2_000_000, Easing::OutCubic);
    let forward = anim.update(700_000);
    assert_eq!(forward.len(), 1);
    assert_eq!(anim.update(-700_000), vec![sample("fade", 0)]);
    assert!(!anim.has_started());
    // a step past the start stops at the start
    assert_eq!(anim.update(-HALF), vec![sample("fade", 0)]);
}

#[test]
fn basic_backward_step_mirrors_the_curve() {
    let mut anim = basic("a", 1_000_000, Easing::InQuad);
    assert_eq!(anim.update(SECOND), vec![sample("a", PROGRESS_ONE)]);
    // linear position 0.5 played backwards: 1 - in_quad(1 - 0.5) = 0.75
    assert_eq!(anim.update(-HALF), vec![sample("a", 750_000)]);
}

#[test]
fn basic_finished_forward_step_reports_completion() {
    let mut anim = basic("a", 1_000_000, Easing::Linear);
    anim.update(3 * SECOND);
    assert!(anim.is_finished());
    assert_eq!(anim.update(0), vec![sample("a", PROGRESS_ONE)]);
}

#[test]
fn sequence_equal_children_complete_in_order() {
    let mut seq = Animation::sequence(vec![
        basic("a", 1_000_000, Easing::Linear),
        basic("b", 1_000_000, Easing::InQuad),
        basic("c", 1_000_000, Easing::OutQuint),
    ]);
    assert_eq!(seq.update(SECOND), vec![sample("a", PROGRESS_ONE)]);
    assert!(!seq.is_finished());
    assert_eq!(seq.update(SECOND), vec![sample("b", PROGRESS_ONE)]);
    assert!(!seq.is_finished());
    assert_eq!(seq.update(SECOND), vec![sample("c", PROGRESS_ONE)]);
    assert!(seq.is_finished());
    assert_eq!(seq.update(SECOND), vec![]);
}

#[test]
fn sequence_backwards_plays_last_started_child() {
    let mut seq = Animation::sequence(vec![
        basic("a", 1_000_000, Easing::Linear),
        basic("b", 1_000_000, Easing::Linear),
    ]);
    seq.update(SECOND);
    seq.update(HALF);
    assert_eq!(seq.update(-HALF), vec![sample("b", 0)]);
    assert_eq!(seq.update(-HALF), vec![sample("a", 500_000)]);
    assert_eq!(seq.update(-HALF), vec![sample("a", 0)]);
    assert_eq!(seq.update(-HALF), vec![]);
    assert!(!seq.has_started());
}

#[test]
fn empty_sequence_is_finished() {
    let mut seq = Animation::sequence(vec![]);
    assert!(seq.is_finished());
    assert_eq!(seq.update(SECOND), vec![]);
}

#[test]
fn parallel_reports_one_sample_per_unfinished_child() {
    let mut par = Animation::parallel(vec![
        basic("a", 1_000_000, Easing::Linear),
        basic("b", 3_000_000, Easing::Linear),
        basic("c", 2_000_000, Easing::Linear),
    ]);
    assert_eq!(par.update(SECOND).len(), 3);
    let second = par.update(SECOND);
    assert_eq!(second, vec![sample("b", 666_666), sample("c", PROGRESS_ONE)]);
    assert_eq!(par.update(SECOND), vec![sample("b", PROGRESS_ONE)]);
    assert!(par.is_finished());
    assert_eq!(par.update(SECOND), vec![]);
}

#[test]
fn delay_carries_overshoot_into_child() {
    let mut delay = Animation::Delay(DelayAnimation::new(
        1_000_000,
        basic("x", 1_000_000, Easing::Linear),
    ));
    assert_eq!(delay.update(1_250_000), vec![sample("x", 250_000)]);
}

#[test]
fn delay_runs_backwards_symmetrically() {
    let mut delay = Animation::Delay(DelayAnimation::new(
        1_000_000,
        basic("x", 1_000_000, Easing::Linear),
    ));
    delay.update(1_500_000);
    // the child plays back and the delay clock runs back with it
    assert_eq!(delay.update(-HALF), vec![sample("x", 0)]);
    assert!(delay.has_started());
    assert_eq!(delay.update(-HALF), vec![]);
    assert!(!delay.has_started());
    // forwards again, the whole delay has to pass once more
    assert_eq!(delay.update(SECOND), vec![]);
    assert_eq!(delay.update(HALF), vec![sample("x", 500_000)]);
}

#[test]
fn looping_three_times_finishes_after_three_completions() {
    let mut looping = Animation::Looping(LoopingAnimation::new(
        basic("spin", 1_000_000, Easing::Linear),
        3,
    ));
    for _ in 0..2 {
        assert_eq!(looping.update(SECOND), vec![sample("spin", PROGRESS_ONE)]);
        assert!(!looping.is_finished());
    }
    assert_eq!(looping.update(SECOND), vec![sample("spin", PROGRESS_ONE)]);
    assert!(looping.is_finished());
    assert_eq!(looping.update(SECOND), vec![]);
}

#[test]
fn looping_forever_never_finishes() {
    let mut looping = Animation::Looping(LoopingAnimation::infinite(basic(
        "spin",
        1_000_000,
        Easing::Linear,
    )));
    for _ in 0..50 {
        looping.update(SECOND);
        assert!(!looping.is_finished());
    }
}

#[test]
fn back_and_forth_alternates_direction() {
    let mut bf = Animation::BackAndForth(BackAndForthAnimation::new(
        basic("pulse", 1_000_000, Easing::Linear),
        2,
    ));
    assert_eq!(bf.update(SECOND), vec![sample("pulse", PROGRESS_ONE)]);
    assert!(!bf.is_finished());
    assert_eq!(bf.update(HALF), vec![sample("pulse", 500_000)]);
    assert_eq!(bf.update(HALF), vec![sample("pulse", 0)]);
    assert!(bf.is_finished());
    assert!(BackAndForthAnimation::infinite(basic("p", 1, Easing::Linear)).repeat_count == 0);
}

#[test]
fn target_moves_towards_target_and_finishes() {
    let mut t = TargetAnimation::new("progress", 500_000);
    t.set_target(2_000_000);
    assert_eq!(t.target, PROGRESS_ONE);
    let mut anim = Animation::Target(t);
    let mut last = 0;
    let mut steps = 0;
    while !anim.is_finished() {
        let out = anim.update(SECOND);
        assert!(out[0].1 >= last);
        last = out[0].1;
        steps += 1;
        assert!(steps <= 2);
    }
    assert_eq!(last, PROGRESS_ONE);
}

#[test]
fn target_never_passes_its_target() {
    let mut t = TargetAnimation::new("progress", 1_000_000);
    t.set_target(300_000);
    let mut anim = Animation::Target(t);
    assert_eq!(anim.update(SECOND), vec![sample("progress", 300_000)]);
    assert!(anim.is_finished());
}
