//! Desktop sessions: which terminals are free, who may start a session, how
//! a session's process is doing, and the register of running sessions.
//!
//! The processes themselves are handles of type `S` that this register
//! holds for its caller; the caller reports how each is doing.

use vstd::prelude::*;
use crate::login::{LoginManager, LoginState};

verus! {

/// Terminals are numbered from 1 up to, but not including, this.
pub const TTY_LIMIT: u16 = 64;

/// How a session's process is doing.
#[derive(Clone, Copy, Debug, PartialEq, Eq, Structural)]
pub enum SessionStatus {
    Running,
    ShutdownGracefully,
    Crashed,
}

/// What the system says when asked, without waiting, about a process.
#[derive(Clone, Copy, Debug, PartialEq, Eq, Structural)]
pub enum ProcessState {
    Running,
    /// It has exited, with its exit code, or none if a signal ended it.
    Exited(Option<i32>),
    /// The system could not say.
    Unknown,
}

/// A process that exited with code 0 shut down gracefully; one that exited
/// any other way, or whose state cannot be had, crashed.
pub open spec fn status_spec(p: ProcessState) -> SessionStatus {
    match p {
        ProcessState::Running => SessionStatus::Running,
        ProcessState::Exited(Some(code)) => if code == 0 {
            SessionStatus::ShutdownGracefully
        } else {
            SessionStatus::Crashed
        },
        _ => SessionStatus::Crashed,
    }
}

pub fn status_of(p: ProcessState) -> (r: SessionStatus)
    ensures
        r == status_spec(p),
{
    match p {
        ProcessState::Running => SessionStatus::Running,
        ProcessState::Exited(Some(code)) => {
            if code == 0 {
                SessionStatus::ShutdownGracefully
            } else {
                SessionStatus::Crashed
            }
        },
        _ => SessionStatus::Crashed,
    }
}

/// Why a session could not be started.
#[derive(Clone, Copy, Debug, PartialEq, Eq, Structural)]
pub enum SessionError {
    /// The user is not authenticated.
    NotAuthenticated,
    /// Every terminal is taken.
    NoFreeTty,
    /// The session's process could not be launched.
    SpawnFailed,
}

impl SessionError {
    pub fn message(&self) -> (r: &'static str)
        ensures
            r@ == match self {
                SessionError::NotAuthenticated => "Tried to start a session without being authenticated"@,
                SessionError::NoFreeTty => "There's no free tty left for this session"@,
                SessionError::SpawnFailed => "The session's process could not be launched"@,
            },
    {
        match self {
            SessionError::NotAuthenticated => "Tried to start a session without being authenticated",
            SessionError::NoFreeTty => "There's no free tty left for this session",
            SessionError::SpawnFailed => "The session's process could not be launched",
        }
    }
}

/// A desktop environment that can be launched: its name and command.
#[derive(Clone, Debug)]
pub struct DesktopEnvironmentFile {
    name: String,
    command: String,
}

impl DesktopEnvironmentFile {
    pub closed spec fn name_spec(&self) -> Seq<char> {
        self.name@
    }

    pub closed spec fn command_spec(&self) -> Seq<char> {
        self.command@
    }

    pub fn new(name: String, command: String) -> (r: Self)
        ensures
            r.name_spec() == name@,
            r.command_spec() == command@,
    {
        DesktopEnvironmentFile { name, command }
    }

    pub fn name(&self) -> (r: &str)
        ensures
            r@ == self.name_spec(),
    {
        self.name.as_str()
    }

    pub fn command(&self) -> (r: &str)
        ensures
            r@ == self.command_spec(),
    {
        self.command.as_str()
    }
}

/// A running session: its user, its terminal and its process.
pub struct SessionEntry<S> {
    pub user_id: u32,
    pub tty: u16,
    pub handle: S,
}

/// The sessions started by the greeter, at most one per user; the terminal
/// the greeter runs on; and the desktop environments found last.
pub struct SessionManager<S> {
    sessions: Vec<SessionEntry<S>>,
    tibs_tty: u16,
    desktop_environments: Vec<DesktopEnvironmentFile>,
}

/// The index of the session of `uid` in `s`, or -1.
pub open spec fn index_of_user<S>(s: Seq<SessionEntry<S>>, uid: u32) -> int
    decreases s.len(),
{
    if s.len() == 0 {
        -1
    } else if s.last().user_id == uid {
        s.len() - 1
    } else {
        index_of_user(s.drop_last(), uid)
    }
}

proof fn lemma_index_of_user<S>(s: Seq<SessionEntry<S>>, uid: u32)
    ensures
        -1 <= index_of_user(s, uid) < s.len(),
        index_of_user(s, uid) >= 0 ==> s[index_of_user(s, uid)].user_id == uid,
        index_of_user(s, uid) == -1 <==> forall|i: int|
            0 <= i < s.len() ==> #[trigger] s[i].user_id != uid,
    decreases s.len(),
{
    if s.len() > 0 {
        lemma_index_of_user(s.drop_last(), uid);
        if s.last().user_id != uid {
            assert forall|i: int| 0 <= i < s.len() - 1 implies #[trigger] s[i].user_id
                == s.drop_last()[i].user_id by {}
        }
    }
}

/// Terminal `n` is free: it is not the greeter's own and no running
/// session holds it. `statuses[i]` is how session `i` is doing.
pub open spec fn tty_is_free<S>(
    sessions: Seq<SessionEntry<S>>,
    statuses: Seq<SessionStatus>,
    tibs_tty: u16,
    n: int,
) -> bool {
    n != tibs_tty && !exists|i: int|
        0 <= i < sessions.len() && statuses[i] == SessionStatus::Running && #[trigger] sessions[i].tty
            == n
}

/// The free terminals among `1..n`, in increasing order.
pub open spec fn free_ttys_below<S>(
    sessions: Seq<SessionEntry<S>>,
    statuses: Seq<SessionStatus>,
    tibs_tty: u16,
    n: int,
) -> Seq<u16>
    decreases n,
{
    if n <= 1 {
        Seq::empty()
    } else {
        let below = free_ttys_below(sessions, statuses, tibs_tty, n - 1);
        if tty_is_free(sessions, statuses, tibs_tty, n - 1) {
            below.push((n - 1) as u16)
        } else {
            below
        }
    }
}

impl<S> SessionManager<S> {
    pub closed spec fn sessions_spec(&self) -> Seq<SessionEntry<S>> {
        self.sessions@
    }

    pub closed spec fn tibs_tty_spec(&self) -> u16 {
        self.tibs_tty
    }

    pub closed spec fn desktop_environments_spec(&self) -> Seq<DesktopEnvironmentFile> {
        self.desktop_environments@
    }

    /// At most one session per user.
    pub closed spec fn wf(&self) -> bool {
        forall|i: int, j: int|
            0 <= i < j < self.sessions@.len() ==> self.sessions@[i].user_id
                != self.sessions@[j].user_id
    }

    /// A manager with no session, for a greeter on terminal `tibs_tty`.
    pub fn new(tibs_tty: u16, desktop_environments: Vec<DesktopEnvironmentFile>) -> (r: Self)
        ensures
            r.wf(),
            r.sessions_spec().len() == 0,
            r.tibs_tty_spec() == tibs_tty,
            r.desktop_environments_spec() == desktop_environments@,
    {
        SessionManager { sessions: Vec::new(), tibs_tty, desktop_environments }
    }

    /// The terminal the greeter runs on.
    pub fn tibs_tty(&self) -> (r: u16)
        ensures
            r == self.tibs_tty_spec(),
    {
        self.tibs_tty
    }

    /// Whether the active terminal, `active_tty`, is the greeter's own.
    pub fn is_on_tibs_tty(&self, active_tty: u16) -> (r: bool)
        ensures
            r == (active_tty == self.tibs_tty_spec()),
    {
        self.tibs_tty == active_tty
    }

    /// The desktop environments found by the last refresh.
    pub fn get_desktop_environments_list(&self) -> (r: &Vec<DesktopEnvironmentFile>)
        ensures
            r@ == self.desktop_environments_spec(),
    {
        &self.desktop_environments
    }

    /// Replaces the list of desktop environments with a fresh one.
    pub fn update_desktop_environments_cache(&mut self, found: Vec<DesktopEnvironmentFile>)
        ensures
            final(self).desktop_environments_spec() == found@,
            final(self).sessions_spec() == old(self).sessions_spec(),
            final(self).tibs_tty_spec() == old(self).tibs_tty_spec(),
            final(self).wf() == old(self).wf(),
    {
        self.desktop_environments = found;
    }

    /// The sessions, oldest first.
    pub fn sessions(&self) -> (r: &Vec<SessionEntry<S>>)
        ensures
            r@ == self.sessions_spec(),
    {
        &self.sessions
    }

    fn find_user(&self, uid: u32) -> (r: Option<usize>)
        ensures
            match r {
                Some(i) => i == index_of_user(self.sessions@, uid),
                None => index_of_user(self.sessions@, uid) == -1,
            },
    {
        proof {
            lemma_index_of_user(self.sessions@, uid);
        }
        let mut n: usize = self.sessions.len();
        proof {
            assert(self.sessions@.subrange(0, n as int) =~= self.sessions@);
        }
        while n > 0
            invariant
                n <= self.sessions@.len(),
                index_of_user(self.sessions@, uid) == index_of_user(
                    self.sessions@.subrange(0, n as int),
                    uid,
                ),
            decreases n,
        {
            proof {
                assert(self.sessions@.subrange(0, n as int).drop_last() =~= self.sessions@.subrange(
                    0,
                    n - 1,
                ));
            }
            if self.sessions[n - 1].user_id == uid {
                return Some(n - 1);
            }
            n = n - 1;
        }
        None
    }

    /// The session of user `uid`, if there is one.
    pub fn session_of(&self, uid: u32) -> (r: Option<&SessionEntry<S>>)
        ensures
            match r {
                Some(e) => {
                    let i = index_of_user(self.sessions_spec(), uid);
                    0 <= i < self.sessions_spec().len() && *e == self.sessions_spec()[i]
                        && e.user_id == uid
                },
                None => forall|i: int|
                    0 <= i < self.sessions_spec().len() ==> #[trigger] self.sessions_spec()[i].user_id
                        != uid,
            },
    {
        proof {
            lemma_index_of_user(self.sessions@, uid);
        }
        match self.find_user(uid) {
            Some(i) => Some(&self.sessions[i]),
            None => None,
        }
    }

    /// The free terminals in increasing order: every terminal from 1 up to
    /// `TTY_LIMIT` but the greeter's own and those of running sessions.
    /// `statuses[i]` is how session `i` is doing.
    pub fn free_ttys(&self, statuses: &Vec<SessionStatus>) -> (r: Vec<u16>)
        requires
            statuses@.len() == self.sessions_spec().len(),
        ensures
            r@ == free_ttys_below(self.sessions_spec(), statuses@, self.tibs_tty_spec(), TTY_LIMIT as int),
    {
        let mut r: Vec<u16> = Vec::new();
        let mut n: u16 = 1;
        while n < TTY_LIMIT
            invariant
                1 <= n <= TTY_LIMIT,
                statuses@.len() == self.sessions@.len(),
                r@ == free_ttys_below(self.sessions@, statuses@, self.tibs_tty, n as int),
            decreases TTY_LIMIT - n,
        {
            let mut busy = n == self.tibs_tty;
            let mut i: usize = 0;
            while i < self.sessions.len()
                invariant
                    i <= self.sessions@.len(),
                    statuses@.len() == self.sessions@.len(),
                    busy == (n == self.tibs_tty || exists|j: int|
                        0 <= j < i && statuses@[j] == SessionStatus::Running
                            && #[trigger] self.sessions@[j].tty == n),
                decreases self.sessions@.len() - i,
            {
                if statuses[i] == SessionStatus::Running && self.sessions[i].tty == n {
                    busy = true;
                }
                i = i + 1;
            }
            if !busy {
                r.push(n);
            }
            n = n + 1;
        }
        r
    }

    /// How the session of `uid` is doing, if they have one; `statuses[i]`
    /// is how session `i` is doing, as the system reports it now.
    pub fn get_session_state_of_user(&self, uid: u32, statuses: &Vec<SessionStatus>) -> (r: Option<
        SessionStatus,
    >)
        requires
            statuses@.len() == self.sessions_spec().len(),
        ensures
            r == if index_of_user(self.sessions_spec(), uid) >= 0 {
                Some(statuses@[index_of_user(self.sessions_spec(), uid)])
            } else {
                None::<SessionStatus>
            },
    {
        proof {
            lemma_index_of_user(self.sessions@, uid);
        }
        match self.find_user(uid) {
            Some(i) => Some(statuses[i]),
            None => None,
        }
    }

    /// Whether `uid` has a running session.
    pub fn is_running(&self, uid: u32, statuses: &Vec<SessionStatus>) -> (r: bool)
        requires
            statuses@.len() == self.sessions_spec().len(),
        ensures
            r == (index_of_user(self.sessions_spec(), uid) >= 0 && statuses@[index_of_user(
                self.sessions_spec(),
                uid,
            )] == SessionStatus::Running),
    {
        match self.get_session_state_of_user(uid, statuses) {
            Some(SessionStatus::Running) => true,
            _ => false,
        }
    }

    /// Whether the session of `uid` crashed.
    pub fn has_crashed(&self, uid: u32, statuses: &Vec<SessionStatus>) -> (r: bool)
        requires
            statuses@.len() == self.sessions_spec().len(),
        ensures
            r == (index_of_user(self.sessions_spec(), uid) >= 0 && statuses@[index_of_user(
                self.sessions_spec(),
                uid,
            )] == SessionStatus::Crashed),
    {
        match self.get_session_state_of_user(uid, statuses) {
            Some(SessionStatus::Crashed) => true,
            _ => false,
        }
    }

    /// Registers the session of `user_id` on terminal `tty`. A session the
    /// user had before is taken out and handed back, for the caller to end.
    pub fn insert_session(&mut self, user_id: u32, tty: u16, handle: S) -> (previous: Option<S>)
        requires
            old(self).wf(),
        ensures
            final(self).wf(),
            final(self).tibs_tty_spec() == old(self).tibs_tty_spec(),
            final(self).desktop_environments_spec() == old(self).desktop_environments_spec(),
            ({
                let i = index_of_user(old(self).sessions_spec(), user_id);
                let kept = if i >= 0 {
                    old(self).sessions_spec().remove(i)
                } else {
                    old(self).sessions_spec()
                };
                &&& final(self).sessions_spec() == kept.push(
                    SessionEntry { user_id, tty, handle },
                )
                &&& previous == if i >= 0 {
                    Some(old(self).sessions_spec()[i].handle)
                } else {
                    None::<S>
                }
            }),
    {
        proof {
            lemma_index_of_user(self.sessions@, user_id);
        }
        let previous = match self.find_user(user_id) {
            Some(i) => {
                let e = self.sessions.remove(i);
                Some(e.handle)
            },
            None => None,
        };
        let ghost kept = self.sessions@;
        self.sessions.push(SessionEntry { user_id, tty, handle });
        proof {
            assert forall|i: int, j: int|
                0 <= i < j < self.sessions@.len() implies self.sessions@[i].user_id
                != self.sessions@[j].user_id by {
                if j == self.sessions@.len() - 1 {
                    assert(self.sessions@[i] == kept[i]);
                }
            }
        }
        previous
    }

    /// Decides whether `username` may start a session: the user must be
    /// authenticated, and some terminal must be free. Gives back the user's
    /// id and the free terminals, to be tried in order.
    pub fn plan_session(
        &self,
        login_manager: &LoginManager,
        username: &str,
        statuses: &Vec<SessionStatus>,
    ) -> (r: Result<(u32, Vec<u16>), SessionError>)
        requires
            login_manager.wf(),
            statuses@.len() == self.sessions_spec().len(),
        ensures
            match r {
                Ok((uid, free)) => {
                    &&& login_manager@.contains_key(username@)
                    &&& login_manager@[username@] == LoginState::Authenticated(uid)
                    &&& free@ == free_ttys_below(
                        self.sessions_spec(),
                        statuses@,
                        self.tibs_tty_spec(),
                        TTY_LIMIT as int,
                    )
                    &&& free@.len() > 0
                },
                Err(SessionError::NotAuthenticated) => !(login_manager@.contains_key(username@)
                    && login_manager@[username@] is Authenticated),
                Err(SessionError::NoFreeTty) => {
                    &&& login_manager@.contains_key(username@)
                    &&& login_manager@[username@] is Authenticated
                    &&& free_ttys_below(
                        self.sessions_spec(),
                        statuses@,
                        self.tibs_tty_spec(),
                        TTY_LIMIT as int,
                    ).len() == 0
                },
                Err(SessionError::SpawnFailed) => false,
            },
    {
        let uid = match login_manager.get_current_login_state(username) {
            Some(LoginState::Authenticated(uid)) => uid,
            _ => return Err(SessionError::NotAuthenticated),
        };
        let free = self.free_ttys(statuses);
        if free.len() == 0 {
            return Err(SessionError::NoFreeTty);
        }
        Ok((uid, free))
    }
}

} // verus!
