//! Per-user login states.
//!
//! Authentication runs away from the caller; this table is what the caller
//! and the authentication worker share. A login may start only when the
//! user has none in flight, and the worker's result is decided by
//! [`login_outcome`].

use vstd::prelude::*;
use crate::table::Table;

verus! {

/// Where a user's login stands.
#[derive(Clone, Copy, Debug, PartialEq, Eq, Structural)]
pub enum LoginState {
    /// Authentication is in flight.
    Logging,
    Failed,
    /// Authenticated, with the user's numeric id.
    Authenticated(u32),
}

/// The login state of each user that has one.
pub struct LoginManager {
    states: Table<LoginState>,
}

/// What authenticating a user comes to, from the answers of the system:
/// whether an authentication context could be opened, whether the
/// credentials were accepted, whether a session was asked for and then
/// opened, and the user's id if it could be resolved. Any failure is
/// `Failed`; there is no finer distinction.
pub open spec fn outcome_of(
    context_opened: bool,
    accepted: bool,
    open_session: bool,
    session_opened: bool,
    uid: Option<u32>,
) -> LoginState {
    if context_opened && accepted && (!open_session || session_opened) && uid is Some {
        LoginState::Authenticated(uid->Some_0)
    } else {
        LoginState::Failed
    }
}

pub fn login_outcome(
    context_opened: bool,
    accepted: bool,
    open_session: bool,
    session_opened: bool,
    uid: Option<u32>,
) -> (r: LoginState)
    ensures
        r == outcome_of(context_opened, accepted, open_session, session_opened, uid),
{
    if !context_opened || !accepted {
        return LoginState::Failed;
    }
    if open_session && !session_opened {
        return LoginState::Failed;
    }
    match uid {
        Some(u) => LoginState::Authenticated(u),
        None => LoginState::Failed,
    }
}

impl LoginManager {
    pub closed spec fn view(&self) -> Map<Seq<char>, LoginState> {
        self.states@
    }

    pub closed spec fn wf(&self) -> bool {
        self.states.wf()
    }

    /// No user has a login state.
    pub fn new() -> (r: Self)
        ensures
            r.wf(),
            r@ == Map::<Seq<char>, LoginState>::empty(),
    {
        LoginManager { states: Table::new() }
    }

    /// Starts a login for `name` unless one is in flight: then nothing
    /// changes and the result is false. Otherwise the user's state becomes
    /// `Logging` and the result is true; the caller then runs the
    /// authentication and reports it with `finish_login`.
    pub fn start_login(&mut self, name: &str) -> (started: bool)
        requires
            old(self).wf(),
        ensures
            final(self).wf(),
            started == !(old(self)@.contains_key(name@) && old(self)@[name@]
                == LoginState::Logging),
            final(self)@ == if started {
                old(self)@.insert(name@, LoginState::Logging)
            } else {
                old(self)@
            },
    {
        match self.states.get(name) {
            Some(LoginState::Logging) => false,
            _ => {
                self.states.insert(name, LoginState::Logging);
                true
            },
        }
    }

    /// Records the result of the authentication of `name`.
    pub fn finish_login(&mut self, name: &str, outcome: LoginState)
        requires
            old(self).wf(),
        ensures
            final(self).wf(),
            final(self)@ == old(self)@.insert(name@, outcome),
    {
        self.states.insert(name, outcome);
    }

    /// The login state of `name`, if it has one.
    pub fn get_current_login_state(&self, name: &str) -> (r: Option<LoginState>)
        requires
            self.wf(),
        ensures
            r == if self@.contains_key(name@) {
                Some(self@[name@])
            } else {
                None::<LoginState>
            },
    {
        self.states.get(name)
    }

    /// Forgets the login state of `name`, so that a login can start afresh.
    pub fn reset_login_state(&mut self, name: &str)
        requires
            old(self).wf(),
        ensures
            final(self).wf(),
            final(self)@ == old(self)@.remove(name@),
    {
        self.states.remove(name);
    }
}

} // verus!
