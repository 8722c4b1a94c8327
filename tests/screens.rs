use tibs::desktop::{
    desktop_environment_from_entry, desktop_environment_from_fields, has_desktop_extension,
    session_dirs, split,
};
use tibs::fps::FPSCounter;
use tibs::greeter::{is_listed_user, is_user_uid, KnownDEs};
use tibs::progress::{state_of_result, ProgressData, ServiceState};
use tibs::session::DesktopEnvironmentFile;
use tibs::textbox::{EditKey, Textbox};
use tibs::tracker::AnimationStateTracker;
use tibs::animation::{Animation, BasicAnimation};
use tibs::easing::{Easing, PROGRESS_ONE};

fn de(name: &str) -> DesktopEnvironmentFile {
    DesktopEnvironmentFile::new(name.to_string(), "cmd".to_string())
}

#[test]
fn known_desktops_by_name() {
    assert_eq!(KnownDEs::from_de(&de("Plasma (Wayland)")), KnownDEs::KDE);
    assert_eq!(KnownDEs::from_de(&de("GNOME Shell on Wayland")), KnownDEs::GNOME);
    assert_eq!(KnownDEs::from_de(&de("Hyprland")), KnownDEs::Hyprland);
    assert_eq!(KnownDEs::from_de(&de("HyprDE")), KnownDEs::HyprDE);
    assert_eq!(KnownDEs::from_de(&de("Hyprland (uwsm)")), KnownDEs::Unknown);
    assert_eq!(KnownDEs::from_de(&de("Plasma")), KnownDEs::Unknown);
    assert_eq!(KnownDEs::from_de(&de("")), KnownDEs::Unknown);
}

#[test]
fn listed_users() {
    assert!(is_user_uid(1000));
    assert!(!is_user_uid(999));
    assert!(!is_user_uid(65534));
    assert!(is_listed_user(1000, "/bin/bash"));
    assert!(!is_listed_user(1000, "/usr/sbin/nologin"));
    assert!(!is_listed_user(0, "/bin/bash"));
}

#[test]
fn desktop_entry_fields() {
    let file = b"[Desktop Entry]\nName=Hyprland\nExec=Hyprland --flag\nType=Application\n".to_vec();
    let found = desktop_environment_from_entry(&file).unwrap();
    assert_eq!(found.name(), "Hyprland");
    assert_eq!(found.command(), "Hyprland --flag");
    let no_exec = b"[Desktop Entry]\nName=Broken\n".to_vec();
    assert!(desktop_environment_from_entry(&no_exec).is_none());
    let other_section = b"[Other]\nName=X\nExec=y\n".to_vec();
    assert!(desktop_environment_from_entry(&other_section).is_none());
    assert!(desktop_environment_from_fields(Some("a".to_string()), None).is_none());
    let both = desktop_environment_from_fields(Some("a".to_string()), Some("b".to_string())).unwrap();
    assert_eq!(both.name(), "a");
    assert_eq!(both.command(), "b");
}

#[test]
fn desktop_file_extension() {
    assert!(has_desktop_extension("hyprland.desktop"));
    assert!(!has_desktop_extension(".desktop"));
    assert!(!has_desktop_extension("hyprland.desktop.bak"));
    assert!(!has_desktop_extension("desktop"));
}

#[test]
fn session_directories() {
    assert_eq!(
        session_dirs(None),
        vec![
            "/usr/share/wayland-sessions".to_string(),
            "/run/current-system/sw/share/wayland-sessions".to_string()
        ]
    );
    assert_eq!(session_dirs(Some("/a:/b")), vec!["/a".to_string(), "/b".to_string()]);
    assert_eq!(split("a::b:", ':'), vec!["a", "", "b", ""]);
    assert_eq!(split("", ':'), vec![""]);
}

#[test]
fn textbox_editing() {
    let mut t = Textbox::new("password", true);
    assert!(t.is_focused());
    t.update(None, "héllo");
    assert_eq!(t.text(), "héllo");
    assert_eq!(t.cursor(), 5);
    assert_eq!(t.display_text(), "•••••");
    t.update(Some(EditKey::Backspace), "");
    assert_eq!(t.text(), "héll");
    t.update(Some(EditKey::Home), "X");
    assert_eq!(t.text(), "Xhéll");
    assert_eq!(t.cursor(), 1);
    t.update(Some(EditKey::Delete), "");
    assert_eq!(t.text(), "Xéll");
    t.update(Some(EditKey::Right), "");
    t.update(Some(EditKey::Left), "");
    t.update(Some(EditKey::Left), "");
    t.update(Some(EditKey::Left), "");
    assert_eq!(t.cursor(), 0);
    t.update(Some(EditKey::Backspace), "");
    assert_eq!(t.text(), "Xéll");
    t.update(Some(EditKey::End), "!");
    assert_eq!(t.text(), "Xéll!");
    t.set_focused(false);
    t.update(None, "ignored");
    assert_eq!(t.text(), "Xéll!");
    t.hide_input = false;
    assert_eq!(t.display_text(), "Xéll!");
}

#[test]
fn textbox_byte_positions() {
    assert_eq!(Textbox::chars_count("héllo"), 5);
    assert_eq!(Textbox::char_index_to_byte_index("héllo", 2), 3);
    assert_eq!(Textbox::char_index_to_byte_index("héllo", 9), 6);
    assert_eq!(Textbox::char_index_to_byte_index("", 3), 0);
}

#[test]
fn boot_progress_percentage() {
    let mut p = ProgressData::new();
    assert_eq!(p.get_percentage(), 0);
    p.job_started("a.service");
    p.job_started("b.service");
    p.job_started("c.service");
    p.job_started("d.service");
    assert_eq!(p.get_percentage(), 0);
    assert!(p.job_removed("a.service", "done"));
    assert!(p.job_removed("b.service", "failed"));
    assert_eq!(p.get_percentage(), 500_000);
    assert!(p.has_failed_services());
    assert!(!p.job_removed("c.service", "weird"));
    assert_eq!(p.service_state("c.service"), Some(ServiceState::Loading));
    p.job_started("a.service");
    assert_eq!(p.service_state("a.service"), Some(ServiceState::Loaded));
    p.startup_finished();
    assert!(p.finished());
    assert_eq!(p.get_percentage(), PROGRESS_ONE);
}

#[test]
fn job_results() {
    for r in ["done", "dependency", "skipped"] {
        assert_eq!(state_of_result(r), Some(ServiceState::Loaded));
    }
    for r in ["canceled", "timeout", "failed"] {
        assert_eq!(state_of_result(r), Some(ServiceState::Failed));
    }
    assert_eq!(state_of_result("other"), None);
}

#[test]
fn fps_counter_windows() {
    let mut f = FPSCounter::new(0);
    for i in 1..60u64 {
        assert_eq!(f.tick(i * 16_000), None);
    }
    assert_eq!(f.tick(1_000_000), Some(60));
    assert_eq!(f.tick(1_500_000), None);
}

#[test]
fn tracker_reports_completion_once() {
    let anim = Animation::Basic(BasicAnimation::new("hide", 1_000_000, Easing::Linear));
    let mut tracker = AnimationStateTracker::new(anim);
    assert_eq!(tracker.get_animation_progress("hide"), 0);
    tracker.update(600_000);
    assert_eq!(tracker.get_animation_progress("hide"), 600_000);
    assert!(!tracker.has_finished_this_frame("hide"));
    tracker.update(600_000);
    assert!(tracker.has_finished_this_frame("hide"));
    tracker.update(600_000);
    assert!(!tracker.has_finished_this_frame("hide"));
    assert_eq!(tracker.get_animation_progress("hide"), PROGRESS_ONE);
    tracker.update(-1_000_000);
    assert_eq!(tracker.get_animation_progress("hide"), 0);
    assert_eq!(tracker.get_animation_progress("other"), 0);
    tracker.reset();
    assert!(!tracker.animation().has_started());
}
