//! How far the system's boot has come: the state of each service being
//! started, and whether start-up has finished.

use vstd::prelude::*;
use crate::easing::PROGRESS_ONE;
use crate::table::Table;
use crate::text::str_equal;

verus! {

#[derive(Clone, Copy, Debug, PartialEq, Eq, PartialOrd, Ord, Hash, Structural)]
pub enum ServiceState {
    Loading,
    Failed,
    Loaded,
}

/// The services being started, and whether start-up has finished.
pub struct ProgressData {
    services: Table<ServiceState>,
    finished: bool,
}

/// How many of the states in `s` below `n` are settled (not `Loading`).
pub open spec fn settled_count(s: Seq<(String, ServiceState)>, n: int) -> int
    decreases n,
{
    if n <= 0 || n > s.len() {
        0
    } else {
        settled_count(s, n - 1) + if s[n - 1].1 != ServiceState::Loading { 1int } else { 0int }
    }
}

/// Some state in `s` below `n` is `Failed`.
pub open spec fn any_failed(s: Seq<(String, ServiceState)>, n: int) -> bool
    decreases n,
{
    if n <= 0 || n > s.len() {
        false
    } else {
        any_failed(s, n - 1) || s[n - 1].1 == ServiceState::Failed
    }
}

/// What a finished job's result says of its service, if it is a result
/// that the watcher knows.
pub open spec fn result_state(result: Seq<char>) -> Option<ServiceState> {
    if result == "done"@ || result == "dependency"@ || result == "skipped"@ {
        Some(ServiceState::Loaded)
    } else if result == "canceled"@ || result == "timeout"@ || result == "failed"@ {
        Some(ServiceState::Failed)
    } else {
        None
    }
}

pub fn state_of_result(result: &str) -> (r: Option<ServiceState>)
    ensures
        r == result_state(result@),
{
    if str_equal(result, "done") || str_equal(result, "dependency") || str_equal(result, "skipped") {
        Some(ServiceState::Loaded)
    } else if str_equal(result, "canceled") || str_equal(result, "timeout") || str_equal(
        result,
        "failed",
    ) {
        Some(ServiceState::Failed)
    } else {
        None
    }
}

proof fn lemma_settled_count_bounds(s: Seq<(String, ServiceState)>, n: int)
    requires
        0 <= n <= s.len(),
    ensures
        0 <= settled_count(s, n) <= n,
    decreases n,
{
    if n > 0 {
        lemma_settled_count_bounds(s, n - 1);
    }
}

impl ProgressData {
    pub closed spec fn view(&self) -> Map<Seq<char>, ServiceState> {
        self.services@
    }

    /// The services with their states, in the order they were first seen.
    pub closed spec fn services(&self) -> Seq<(String, ServiceState)> {
        self.services.entries()
    }

    pub closed spec fn wf(&self) -> bool {
        self.services.wf()
    }

    pub closed spec fn is_finished_spec(&self) -> bool {
        self.finished
    }

    /// Whether start-up has finished.
    pub fn finished(&self) -> (r: bool)
        ensures
            r == self.is_finished_spec(),
    {
        self.finished
    }

    /// No service seen, start-up not finished.
    pub fn new() -> (r: Self)
        ensures
            r.wf(),
            r@ == Map::<Seq<char>, ServiceState>::empty(),
            r.services().len() == 0,
            !r.is_finished_spec(),
    {
        ProgressData { services: Table::new(), finished: false }
    }

    /// The state of `unit`, if it has been seen.
    pub fn service_state(&self, unit: &str) -> (r: Option<ServiceState>)
        requires
            self.wf(),
        ensures
            r == if self@.contains_key(unit@) {
                Some(self@[unit@])
            } else {
                None::<ServiceState>
            },
    {
        self.services.get(unit)
    }

    /// A job for `unit` was queued: a unit not seen yet is `Loading`; one
    /// already seen keeps its state.
    pub fn job_started(&mut self, unit: &str)
        requires
            old(self).wf(),
        ensures
            final(self).wf(),
            final(self).is_finished_spec() == old(self).is_finished_spec(),
            final(self)@ == if old(self)@.contains_key(unit@) {
                old(self)@
            } else {
                old(self)@.insert(unit@, ServiceState::Loading)
            },
    {
        match self.services.get(unit) {
            Some(_) => {
                proof {
                    assert(self@ =~= self@);
                }
            },
            None => self.services.insert(unit, ServiceState::Loading),
        }
    }

    /// A job for `unit` ended with `result`. A known result settles the
    /// unit's state and gives true; an unknown one changes nothing and
    /// gives false.
    pub fn job_removed(&mut self, unit: &str, result: &str) -> (known: bool)
        requires
            old(self).wf(),
        ensures
            final(self).wf(),
            final(self).is_finished_spec() == old(self).is_finished_spec(),
            known == result_state(result@) is Some,
            final(self)@ == match result_state(result@) {
                Some(state) => old(self)@.insert(unit@, state),
                None => old(self)@,
            },
    {
        match state_of_result(result) {
            Some(state) => {
                self.services.insert(unit, state);
                true
            },
            None => false,
        }
    }

    /// Start-up has finished.
    pub fn startup_finished(&mut self)
        ensures
            final(self).is_finished_spec(),
            final(self).services() == old(self).services(),
            final(self)@ == old(self)@,
            final(self).wf() == old(self).wf(),
    {
        self.finished = true;
    }

    /// The share of services that are settled, as progress: complete once
    /// start-up has finished, 0 while no service is known.
    pub fn get_percentage(&self) -> (r: u64)
        ensures
            r == if self.is_finished_spec() {
                PROGRESS_ONE as int
            } else if self.services().len() == 0 {
                0
            } else {
                settled_count(self.services(), self.services().len() as int) * PROGRESS_ONE
                    / self.services().len() as int
            },
            r <= PROGRESS_ONE,
    {
        if self.finished {
            return PROGRESS_ONE;
        }
        let n = self.services.len();
        if n == 0 {
            return 0;
        }
        let mut settled: usize = 0;
        let mut i: usize = 0;
        while i < n
            invariant
                i <= n,
                n == self.services().len(),
                settled == settled_count(self.services(), i as int),
            decreases n - i,
        {
            proof {
                lemma_settled_count_bounds(self.services(), i as int);
            }
            if self.services.value_at(i) != ServiceState::Loading {
                settled = settled + 1;
            }
            i = i + 1;
        }
        proof {
            lemma_settled_count_bounds(self.services(), n as int);
            let c = settled as int;
            let m = n as int;
            assert(c * PROGRESS_ONE / m <= PROGRESS_ONE) by (nonlinear_arith)
                requires 0 <= c <= m, 0 < m;
            assert(c * PROGRESS_ONE <= m * PROGRESS_ONE) by (nonlinear_arith)
                requires 0 <= c <= m;
        }
        ((settled as u128) * (PROGRESS_ONE as u128) / (n as u128)) as u64
    }

    /// Whether some service failed to start.
    pub fn has_failed_services(&self) -> (r: bool)
        ensures
            r == any_failed(self.services(), self.services().len() as int),
    {
        let n = self.services.len();
        let mut i: usize = 0;
        while i < n
            invariant
                i <= n,
                n == self.services().len(),
                !any_failed(self.services(), i as int),
            decreases n - i,
        {
            if self.services.value_at(i) == ServiceState::Failed {
                proof {
                    lemma_any_failed_later(self.services(), i + 1, n as int);
                }
                return true;
            }
            i = i + 1;
        }
        false
    }
}

proof fn lemma_any_failed_later(s: Seq<(String, ServiceState)>, m: int, n: int)
    requires
        0 < m <= n <= s.len(),
        any_failed(s, m),
    ensures
        any_failed(s, n),
    decreases n - m,
{
    if m < n {
        lemma_any_failed_later(s, m, n - 1);
    }
}

} // verus!
