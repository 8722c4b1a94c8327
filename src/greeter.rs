//! The greeter's decisions between screens: which users are offered, what
//! a login attempt shows, and when the login screen gives way to a session.

use vstd::prelude::*;
use crate::easing::PROGRESS_ONE;
use crate::login::LoginState;
use crate::session::{DesktopEnvironmentFile, SessionStatus};
use crate::text::{ends_with, starts_with, str_ends_with, str_equal, str_starts_with};

verus! {

/// Which way the animation that hides the login screen plays.
#[derive(Clone, Copy, Debug, PartialEq, Eq, Structural)]
pub enum LoginAnimationDirection {
    /// Hiding the login screen, towards the session.
    FadeOut,
    /// Showing the login screen.
    FadeIn,
}

impl LoginAnimationDirection {
    /// The login screen starts out shown.
    pub fn initial() -> (r: Self)
        ensures
            r == LoginAnimationDirection::FadeIn,
    {
        LoginAnimationDirection::FadeIn
    }

    /// The step to give the animation for a frame of `delta` microseconds:
    /// forwards when fading out, backwards when fading in.
    pub fn signed_delta(self, delta: i64) -> (r: i64)
        requires
            delta >= 0,
        ensures
            r == match self {
                LoginAnimationDirection::FadeOut => delta as int,
                LoginAnimationDirection::FadeIn => -delta,
            },
    {
        match self {
            LoginAnimationDirection::FadeOut => delta,
            LoginAnimationDirection::FadeIn => -delta,
        }
    }
}

/// What the login screen asks of the greeter.
#[derive(Clone, Copy, Debug, PartialEq, Eq, Structural)]
pub enum LoginScreenOutMessage {
    StartLoginAnimation,
}

/// Elements the layout draws by hand.
#[derive(Clone, Copy, Debug, PartialEq, Eq, Structural)]
pub enum CustomElements {
    Spinner,
}

/// Desktop environments that have an icon of their own.
#[derive(Clone, Copy, Debug, PartialEq, Eq, Hash, Structural)]
pub enum KnownDEs {
    KDE,
    GNOME,
    Hyprland,
    HyprDE,
    Unknown,
}

pub open spec fn known_de_of(name: Seq<char>) -> KnownDEs {
    if starts_with(name, "Plasma ("@) {
        KnownDEs::KDE
    } else if starts_with(name, "GNOME Shell"@) {
        KnownDEs::GNOME
    } else if name == "Hyprland"@ {
        KnownDEs::Hyprland
    } else if name == "HyprDE"@ {
        KnownDEs::HyprDE
    } else {
        KnownDEs::Unknown
    }
}

impl KnownDEs {
    /// Recognises a desktop environment by its name.
    pub fn from_de(de: &DesktopEnvironmentFile) -> (r: Self)
        ensures
            r == known_de_of(de.name_spec()),
    {
        let name = de.name();
        if str_starts_with(name, "Plasma (") {
            KnownDEs::KDE
        } else if str_starts_with(name, "GNOME Shell") {
            KnownDEs::GNOME
        } else if str_equal(name, "Hyprland") {
            KnownDEs::Hyprland
        } else if str_equal(name, "HyprDE") {
            KnownDEs::HyprDE
        } else {
            KnownDEs::Unknown
        }
    }
}

/// Ids of accounts that belong to people rather than to the system.
pub fn is_user_uid(uid: u32) -> (r: bool)
    ensures
        r == (1000 <= uid < 65534),
{
    uid >= 1000 && uid < 65534
}

/// Whether an account is offered on the login screen: a person's account
/// whose shell lets them log in.
pub fn is_listed_user(uid: u32, shell: &str) -> (r: bool)
    ensures
        r == (1000 <= uid < 65534 && !ends_with(shell@, "nologin"@)),
{
    is_user_uid(uid) && !str_ends_with(shell, "nologin")
}

/// A login is under way for the selected user: authentication is in flight
/// or has succeeded, and no session of theirs is running yet.
pub open spec fn logging_spec(state: Option<LoginState>, session: Option<SessionStatus>) -> bool {
    (state == Some(LoginState::Logging) || state matches Some(LoginState::Authenticated(_)))
        && session != Some(SessionStatus::Running)
}

pub fn is_logging(state: Option<LoginState>, session: Option<SessionStatus>) -> (r: bool)
    ensures
        r == logging_spec(state, session),
{
    match state {
        Some(LoginState::Logging) | Some(LoginState::Authenticated(_)) => {
            match session {
                Some(SessionStatus::Running) => false,
                _ => true,
            }
        },
        _ => false,
    }
}

/// The selected user's last login failed.
pub fn login_failed(state: Option<LoginState>) -> (r: bool)
    ensures
        r == (state == Some(LoginState::Failed)),
{
    match state {
        Some(LoginState::Failed) => true,
        _ => false,
    }
}

/// The id of the selected user when they are authenticated and have no
/// running session, which is when their session is due to start.
pub fn authenticated_with_no_session(state: Option<LoginState>, session_running: bool) -> (r:
    Option<u32>)
    ensures
        r == match state {
            Some(LoginState::Authenticated(uid)) => if session_running {
                None::<u32>
            } else {
                Some(uid)
            },
            _ => None::<u32>,
        },
{
    match state {
        Some(LoginState::Authenticated(uid)) => {
            if session_running {
                None
            } else {
                Some(uid)
            }
        },
        _ => None,
    }
}

/// Whether choosing a desktop environment starts a login: not while one is
/// under way, nor while the user's session runs.
pub fn may_start_login(state: Option<LoginState>, session: Option<SessionStatus>) -> (r: bool)
    ensures
        r == (!logging_spec(state, session) && session != Some(SessionStatus::Running)),
{
    let running = match session {
        Some(SessionStatus::Running) => true,
        _ => false,
    };
    !is_logging(state, session) && !running
}

/// What a frame of the greeter does about the login screen.
#[derive(Clone, Copy, Debug, PartialEq, Eq, Structural)]
pub struct LoginStep {
    pub direction: LoginAnimationDirection,
    /// Start the user's session now.
    pub start_session: bool,
}

/// The login screen hides when the greeter's terminal is not the active
/// one, or when the user is authenticated without a session and opening one
/// has not failed; otherwise it shows. The session starts on the frame in
/// which the background has finished hiding, and only then.
pub fn login_step(
    on_tibs_tty: bool,
    authenticated_without_session: bool,
    session_open_failed: bool,
    hide_background_finished: bool,
) -> (r: LoginStep)
    ensures
        r.direction == if !on_tibs_tty || (authenticated_without_session && !session_open_failed) {
            LoginAnimationDirection::FadeOut
        } else {
            LoginAnimationDirection::FadeIn
        },
        r.start_session == (on_tibs_tty && authenticated_without_session && !session_open_failed
            && hide_background_finished),
{
    if on_tibs_tty {
        if authenticated_without_session && !session_open_failed {
            LoginStep {
                direction: LoginAnimationDirection::FadeOut,
                start_session: hide_background_finished,
            }
        } else {
            LoginStep { direction: LoginAnimationDirection::FadeIn, start_session: false }
        }
    } else {
        LoginStep { direction: LoginAnimationDirection::FadeOut, start_session: false }
    }
}

/// Progress of the boot bar from which the loading screen may give way.
pub const BOOT_DONE_PROGRESS: u64 = 990000;

/// The loading screen gives way to the login screen when the user chooses
/// to go on anyway, or when the boot bar shows (nearly) complete and no
/// service failed.
pub fn should_show_login_screen(continue_anyway: bool, boot_bar: u64, has_failed_services: bool) -> (r:
    bool)
    ensures
        r == (continue_anyway || (boot_bar >= BOOT_DONE_PROGRESS && !has_failed_services)),
{
    continue_anyway || (boot_bar >= BOOT_DONE_PROGRESS && !has_failed_services)
}

/// The pointer is drawn once boot has finished, while the interface is not
/// completely hidden.
pub fn shows_pointer(boot_finished: bool, hide_ui: u64) -> (r: bool)
    ensures
        r == (boot_finished && hide_ui < PROGRESS_ONE),
{
    boot_finished && hide_ui < PROGRESS_ONE
}

} // verus!
