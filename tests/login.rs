use tibs::greeter::{
    authenticated_with_no_session, is_logging, login_failed, login_step, may_start_login,
    should_show_login_screen, shows_pointer, LoginAnimationDirection,
};
use tibs::login::{login_outcome, LoginManager, LoginState};
use tibs::session::{ProcessState, SessionError, SessionManager, SessionStatus, status_of};

#[test]
fn wrong_password_ends_failed() {
    let mut logins = LoginManager::new();
    assert!(logins.start_login("alice"));
    assert_eq!(logins.get_current_login_state("alice"), Some(LoginState::Logging));
    let outcome = login_outcome(true, false, true, false, None);
    assert_eq!(outcome, LoginState::Failed);
    logins.finish_login("alice", outcome);
    assert_eq!(logins.get_current_login_state("alice"), Some(LoginState::Failed));
}

#[test]
fn correct_password_then_session_runs() {
    let mut logins = LoginManager::new();
    assert!(logins.start_login("alice"));
    let outcome = login_outcome(true, true, true, true, Some(1000));
    logins.finish_login("alice", outcome);
    assert_eq!(logins.get_current_login_state("alice"), Some(LoginState::Authenticated(1000)));

    let mut sessions: SessionManager<&str> = SessionManager::new(1, vec![]);
    let statuses: Vec<SessionStatus> = vec![];
    let (uid, free) = sessions.plan_session(&logins, "alice", &statuses).unwrap();
    assert_eq!(uid, 1000);
    assert_eq!(free[0], 2);
    assert_eq!(sessions.insert_session(uid, free[0], "process"), None);
    let entry = sessions.session_of(1000).unwrap();
    assert_eq!(entry.tty, 2);
    assert_eq!(status_of(ProcessState::Running), SessionStatus::Running);
    logins.reset_login_state("alice");
    assert_eq!(logins.get_current_login_state("alice"), None);
}

#[test]
fn second_start_while_logging_is_refused() {
    let mut logins = LoginManager::new();
    assert!(logins.start_login("alice"));
    assert!(!logins.start_login("alice"));
    assert_eq!(logins.get_current_login_state("alice"), Some(LoginState::Logging));
    // another user is independent
    assert!(logins.start_login("bob"));
    // after the first attempt resolves, a new one may start
    logins.finish_login("alice", LoginState::Failed);
    assert!(logins.start_login("alice"));
}

#[test]
fn login_outcome_covers_every_failure() {
    assert_eq!(login_outcome(false, true, true, true, Some(1)), LoginState::Failed);
    assert_eq!(login_outcome(true, true, true, false, Some(1)), LoginState::Failed);
    assert_eq!(login_outcome(true, true, false, false, Some(7)), LoginState::Authenticated(7));
    assert_eq!(login_outcome(true, true, true, true, None), LoginState::Failed);
}

#[test]
fn unknown_user_has_no_state() {
    let mut logins = LoginManager::new();
    assert_eq!(logins.get_current_login_state("nobody"), None);
    logins.reset_login_state("nobody");
    assert_eq!(logins.get_current_login_state("nobody"), None);
}

#[test]
fn start_session_requires_authentication() {
    let mut logins = LoginManager::new();
    let sessions: SessionManager<u8> = SessionManager::new(1, vec![]);
    let none: Vec<SessionStatus> = vec![];
    assert_eq!(
        sessions.plan_session(&logins, "alice", &none).unwrap_err(),
        SessionError::NotAuthenticated
    );
    logins.start_login("alice");
    assert_eq!(
        sessions.plan_session(&logins, "alice", &none).unwrap_err(),
        SessionError::NotAuthenticated
    );
}

#[test]
fn no_free_tty_when_all_are_taken() {
    let mut logins = LoginManager::new();
    logins.finish_login("alice", LoginState::Authenticated(5000));
    let tibs = 7u16;
    let mut sessions: SessionManager<u16> = SessionManager::new(tibs, vec![]);
    let mut statuses = Vec::new();
    let mut uid = 1000u32;
    for tty in 1..64u16 {
        if tty != tibs {
            sessions.insert_session(uid, tty, tty);
            statuses.push(SessionStatus::Running);
            uid += 1;
        }
    }
    assert!(sessions.free_ttys(&statuses).is_empty());
    assert_eq!(
        sessions.plan_session(&logins, "alice", &statuses).unwrap_err(),
        SessionError::NoFreeTty
    );
    // one session ending frees its terminal
    statuses[3] = SessionStatus::Crashed;
    assert_eq!(sessions.free_ttys(&statuses), vec![4]);
}

#[test]
fn free_ttys_skip_greeter_and_running_sessions() {
    let mut sessions: SessionManager<()> = SessionManager::new(2, vec![]);
    sessions.insert_session(1000, 1, ());
    sessions.insert_session(1001, 3, ());
    let statuses = vec![SessionStatus::Running, SessionStatus::ShutdownGracefully];
    let free = sessions.free_ttys(&statuses);
    assert_eq!(free[0], 3);
    assert_eq!(free[1], 4);
    assert_eq!(free.len(), 61);
    assert_eq!(*free.last().unwrap(), 63);
}

#[test]
fn new_session_replaces_previous_of_same_user() {
    let mut sessions: SessionManager<&str> = SessionManager::new(1, vec![]);
    assert_eq!(sessions.insert_session(1000, 2, "first"), None);
    assert_eq!(sessions.insert_session(1001, 3, "other"), None);
    assert_eq!(sessions.insert_session(1000, 4, "second"), Some("first"));
    assert_eq!(sessions.sessions().len(), 2);
    assert_eq!(sessions.session_of(1000).unwrap().tty, 4);
    assert!(sessions.session_of(42).is_none());
}

#[test]
fn exit_codes_decide_status() {
    assert_eq!(status_of(ProcessState::Exited(Some(0))), SessionStatus::ShutdownGracefully);
    assert_eq!(status_of(ProcessState::Exited(Some(1))), SessionStatus::Crashed);
    assert_eq!(status_of(ProcessState::Exited(None)), SessionStatus::Crashed);
    assert_eq!(status_of(ProcessState::Unknown), SessionStatus::Crashed);
    assert_eq!(status_of(ProcessState::Running), SessionStatus::Running);
}

#[test]
fn greeter_tty_check() {
    let sessions: SessionManager<()> = SessionManager::new(3, vec![]);
    assert!(sessions.is_on_tibs_tty(3));
    assert!(!sessions.is_on_tibs_tty(4));
    assert_eq!(sessions.tibs_tty(), 3);
}

#[test]
fn login_policies() {
    assert!(is_logging(Some(LoginState::Logging), None));
    assert!(is_logging(Some(LoginState::Authenticated(3)), Some(SessionStatus::Crashed)));
    assert!(!is_logging(Some(LoginState::Authenticated(3)), Some(SessionStatus::Running)));
    assert!(!is_logging(Some(LoginState::Failed), None));
    assert!(login_failed(Some(LoginState::Failed)));
    assert!(!login_failed(None));
    assert_eq!(authenticated_with_no_session(Some(LoginState::Authenticated(9)), false), Some(9));
    assert_eq!(authenticated_with_no_session(Some(LoginState::Authenticated(9)), true), None);
    assert_eq!(authenticated_with_no_session(Some(LoginState::Logging), false), None);
    assert!(may_start_login(None, None));
    assert!(may_start_login(Some(LoginState::Failed), Some(SessionStatus::Crashed)));
    assert!(!may_start_login(Some(LoginState::Logging), None));
    assert!(!may_start_login(None, Some(SessionStatus::Running)));
}

#[test]
fn login_step_transitions() {
    let away = login_step(false, false, false, false);
    assert_eq!(away.direction, LoginAnimationDirection::FadeOut);
    assert!(!away.start_session);
    let idle = login_step(true, false, false, true);
    assert_eq!(idle.direction, LoginAnimationDirection::FadeIn);
    assert!(!idle.start_session);
    let hiding = login_step(true, true, false, false);
    assert_eq!(hiding.direction, LoginAnimationDirection::FadeOut);
    assert!(!hiding.start_session);
    let go = login_step(true, true, false, true);
    assert!(go.start_session);
    let failed = login_step(true, true, true, true);
    assert_eq!(failed.direction, LoginAnimationDirection::FadeIn);
    assert!(!failed.start_session);
    assert_eq!(LoginAnimationDirection::FadeIn.signed_delta(5), -5);
    assert_eq!(LoginAnimationDirection::FadeOut.signed_delta(5), 5);
    assert_eq!(LoginAnimationDirection::initial(), LoginAnimationDirection::FadeIn);
}

#[test]
fn loading_screen_gives_way() {
    assert!(should_show_login_screen(true, 0, true));
    assert!(should_show_login_screen(false, 990_000, false));
    assert!(!should_show_login_screen(false, 989_999, false));
    assert!(!should_show_login_screen(false, 1_000_000, true));
    assert!(shows_pointer(true, 999_999));
    assert!(!shows_pointer(true, 1_000_000));
    assert!(!shows_pointer(false, 0));
}

#[test]
fn session_status_projections() {
    let mut sessions: SessionManager<()> = SessionManager::new(1, vec![]);
    sessions.insert_session(1000, 2, ());
    sessions.insert_session(1001, 3, ());
    let statuses = vec![SessionStatus::Running, SessionStatus::Crashed];
    assert_eq!(sessions.get_session_state_of_user(1000, &statuses), Some(SessionStatus::Running));
    assert_eq!(sessions.get_session_state_of_user(1001, &statuses), Some(SessionStatus::Crashed));
    assert_eq!(sessions.get_session_state_of_user(7, &statuses), None);
    assert!(sessions.is_running(1000, &statuses));
    assert!(!sessions.is_running(1001, &statuses));
    assert!(sessions.has_crashed(1001, &statuses));
    assert!(!sessions.has_crashed(7, &statuses));
    assert_eq!(SessionError::NoFreeTty.message(), "There's no free tty left for this session");
}
