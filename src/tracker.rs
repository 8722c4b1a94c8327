//! Remembers the last progress reported for each animation id, and the one
//! before it, so that callers can act once when an animation completes.

use vstd::prelude::*;
use crate::animation::{Animation, Sample};
use crate::easing::PROGRESS_ONE;

verus! {

/// The progress last recorded for `key` in `t`: later entries win.
pub open spec fn lookup(t: Seq<Sample>, key: Seq<char>) -> Option<u64>
    decreases t.len(),
{
    if t.len() == 0 {
        None
    } else if t.last().0@ == key {
        Some(t.last().1)
    } else {
        lookup(t.drop_last(), key)
    }
}

/// The progress recorded for `key`, 0 when none is.
pub open spec fn progress_of(t: Seq<Sample>, key: Seq<char>) -> u64 {
    match lookup(t, key) {
        Some(p) => p,
        None => 0,
    }
}

proof fn lemma_lookup_append(t: Seq<Sample>, s: Sample, key: Seq<char>)
    ensures
        lookup(t.push(s), key) == if s.0@ == key { Some(s.1) } else { lookup(t, key) },
{
    assert(t.push(s).drop_last() =~= t);
}

proof fn lemma_lookup_concat(t: Seq<Sample>, u: Seq<Sample>, key: Seq<char>)
    ensures
        lookup(t + u, key) == match lookup(u, key) {
            Some(p) => Some(p),
            None => lookup(t, key),
        },
    decreases u.len(),
{
    if u.len() == 0 {
        assert(t + u =~= t);
    } else {
        assert((t + u).drop_last() =~= t + u.drop_last());
        lemma_lookup_concat(t, u.drop_last(), key);
    }
}

/// Overwriting the entry at `i`, the last one with its key, is the same as
/// appending the new entry, as far as lookups go.
proof fn lemma_lookup_overwrite(t: Seq<Sample>, i: int, s: Sample, key: Seq<char>)
    requires
        0 <= i < t.len(),
        t[i].0@ == s.0@,
        forall|j: int| i < j < t.len() ==> #[trigger] t[j].0@ != s.0@,
    ensures
        lookup(t.update(i, s), key) == lookup(t.push(s), key),
    decreases t.len(),
{
    lemma_lookup_append(t, s, key);
    let u = t.update(i, s);
    if i == t.len() - 1 {
        assert(u.drop_last() =~= t.drop_last());
        assert(u.last() == s);
        if s.0@ != key {
            assert(t.last().0@ == s.0@);
        }
    } else {
        assert(u.drop_last() =~= t.drop_last().update(i, s));
        lemma_lookup_overwrite(t.drop_last(), i, s, key);
        lemma_lookup_append(t.drop_last(), s, key);
        assert(u.last() == t.last());
    }
}

fn copy_samples(t: &Vec<Sample>) -> (r: Vec<Sample>)
    ensures
        r@ == t@,
{
    let mut r: Vec<Sample> = Vec::new();
    let mut i: usize = 0;
    while i < t.len()
        invariant
            i <= t@.len(),
            r@ == t@.subrange(0, i as int),
        decreases t@.len() - i,
    {
        r.push((t[i].0.clone(), t[i].1));
        proof {
            assert(t@.subrange(0, i + 1) =~= t@.subrange(0, i as int).push(t@[i as int]));
        }
        i = i + 1;
    }
    proof {
        assert(t@.subrange(0, t@.len() as int) =~= t@);
    }
    r
}

/// Records `s` in `t`, overwriting the entry with its key if there is one.
fn record(t: &mut Vec<Sample>, s: Sample)
    ensures
        forall|key: Seq<char>| #[trigger]
            lookup(final(t)@, key) == lookup(old(t)@.push(s), key),
{
    let mut n: usize = t.len();
    while n > 0
        invariant
            n <= t@.len(),
            t@ == old(t)@,
            forall|j: int| n <= j < t@.len() ==> #[trigger] t@[j].0@ != s.0@,
        decreases n,
    {
        if t[n - 1].0 == s.0 {
            let ghost t0 = t@;
            let i = n - 1;
            t.set(i, s);
            proof {
                assert forall|key: Seq<char>| #[trigger]
                    lookup(t@, key) == lookup(old(t)@.push(s), key) by {
                    lemma_lookup_overwrite(t0, i as int, s, key);
                }
            }
            return;
        }
        n = n - 1;
    }
    t.push(s);
}

fn lookup_exec(t: &Vec<Sample>, key: &str) -> (r: Option<u64>)
    ensures
        r == lookup(t@, key@),
{
    let wanted = key.to_owned();
    let mut n: usize = t.len();
    proof {
        assert(t@.subrange(0, n as int) =~= t@);
    }
    while n > 0
        invariant
            n <= t@.len(),
            wanted@ == key@,
            lookup(t@, key@) == lookup(t@.subrange(0, n as int), key@),
        decreases n,
    {
        proof {
            assert(t@.subrange(0, n as int).drop_last() =~= t@.subrange(0, n - 1));
            assert(t@.subrange(0, n as int).last() == t@[n - 1]);
        }
        if t[n - 1].0 == wanted {
            return Some(t[n - 1].1);
        }
        n = n - 1;
    }
    None
}

/// An animation together with the progress it last reported per id.
pub struct AnimationStateTracker {
    animation: Animation,
    current: Vec<Sample>,
    previous: Vec<Sample>,
}

impl AnimationStateTracker {
    /// The animation being watched.
    pub closed spec fn watched(&self) -> Animation {
        self.animation
    }

    /// What was recorded up to the last update; only lookups matter.
    pub closed spec fn current(&self) -> Seq<Sample> {
        self.current@
    }

    /// What was recorded up to the update before the last.
    pub closed spec fn previous(&self) -> Seq<Sample> {
        self.previous@
    }

    /// Tracks `animation`, with nothing recorded yet.
    pub fn new(animation: Animation) -> (r: Self)
        ensures
            r.watched() == animation,
            r.current() == Seq::<Sample>::empty(),
            r.previous() == Seq::<Sample>::empty(),
    {
        AnimationStateTracker { animation, current: Vec::new(), previous: Vec::new() }
    }

    /// Steps the animation by `delta` and records what it reports; what was
    /// recorded before becomes the previous frame.
    pub fn update(&mut self, delta: i64)
        requires
            old(self).watched().wf(),
            delta >= 0 || old(self).watched().reversible(),
        ensures
            final(self).watched().wf(),
            old(self).watched().steps_to(delta as int, final(self).watched()),
            forall|key: Seq<char>| #[trigger]
                lookup(final(self).previous(), key) == lookup(old(self).current(), key),
            forall|key: Seq<char>| #[trigger]
                lookup(final(self).current(), key) == lookup(
                    old(self).current() + old(self).watched().output(delta as int),
                    key,
                ),
    {
        self.previous = copy_samples(&self.current);
        let out = self.animation.update(delta);
        let ghost c0 = self.current@;
        let mut i: usize = 0;
        while i < out.len()
            invariant
                i <= out@.len(),
                self.animation.wf(),
                old(self).animation.steps_to(delta as int, self.animation),
                out@ == old(self).animation.output(delta as int),
                self.previous@ == old(self).current@,
                c0 == old(self).current@,
                forall|key: Seq<char>| #[trigger]
                    lookup(self.current@, key) == lookup(c0 + out@.subrange(0, i as int), key),
            decreases out@.len() - i,
        {
            let ghost before = self.current@;
            record(&mut self.current, (out[i].0.clone(), out[i].1));
            proof {
                assert forall|key: Seq<char>| #[trigger]
                    lookup(self.current@, key) == lookup(c0 + out@.subrange(0, i + 1), key) by {
                    assert(c0 + out@.subrange(0, i + 1) =~= (c0 + out@.subrange(0, i as int)).push(
                        out@[i as int],
                    ));
                    lemma_lookup_append(before, out@[i as int], key);
                    lemma_lookup_append(c0 + out@.subrange(0, i as int), out@[i as int], key);
                }
            }
            i = i + 1;
        }
        proof {
            assert(out@.subrange(0, out@.len() as int) =~= out@);
        }
    }

    pub fn animation(&self) -> (r: &Animation)
        ensures
            *r == self.watched(),
    {
        &self.animation
    }

    /// The progress last recorded for `id`, 0 if none was.
    pub fn get_animation_progress(&self, id: &str) -> (r: u64)
        ensures
            r == progress_of(self.current(), id@),
    {
        match lookup_exec(&self.current, id) {
            Some(p) => p,
            None => 0,
        }
    }

    /// Whether `id` reached completion on the last update: complete now and
    /// not before it.
    pub fn has_finished_this_frame(&self, id: &str) -> (r: bool)
        ensures
            r == (progress_of(self.previous(), id@) < PROGRESS_ONE && progress_of(
                self.current(),
                id@,
            ) >= PROGRESS_ONE),
    {
        let prev = match lookup_exec(&self.previous, id) {
            Some(p) => p,
            None => 0,
        };
        let curr = match lookup_exec(&self.current, id) {
            Some(p) => p,
            None => 0,
        };
        prev < PROGRESS_ONE && curr >= PROGRESS_ONE
    }

    /// Resets the watched animation; what was recorded stays.
    pub fn reset(&mut self)
        requires
            old(self).watched().wf(),
        ensures
            old(self).watched().resets_to(final(self).watched()),
            final(self).watched().wf(),
            final(self).current() == old(self).current(),
            final(self).previous() == old(self).previous(),
    {
        self.animation.reset();
    }
}

} // verus!
