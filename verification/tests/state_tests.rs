use hdr_netflix::config::Config;
use hdr_netflix::hdr::{AdvancedColorStatus, DisplayTarget};
use hdr_netflix::state::{
    apply_hdr_change, configured_hdr_state, quit, mark_hdr_active, poll_delay_ms, record_save,
    record_startup_change, set_manual_hdr, toggle_auto, watch_decision, watch_step, AppState, HdrState, WatchAction,
};

fn status(supported: bool, enabled: bool, force_disabled: bool) -> AdvancedColorStatus {
    AdvancedColorStatus {
        target: DisplayTarget { key: "k".to_string(), name: "n".to_string(), adapter_high_part: 0, adapter_low_part: 0, target_id: 0 },
        supported,
        enabled,
        force_disabled,
    }
}

fn hdr(any_on: bool, all_on: bool) -> HdrState {
    HdrState { any_on, all_on }
}

#[test]
fn default_state() {
    let s = AppState::default();
    assert!(!s.netflix_running && !s.hdr_active_by_app && !s.exiting);
    assert!(s.last_error.is_none());
    assert_eq!(s.config.poll_interval_ms, 1500);
}

#[test]
fn hdr_state_of_displays() {
    assert_eq!(configured_hdr_state(&Err("x".to_string())), hdr(false, false));
    assert_eq!(configured_hdr_state(&Ok(vec![])), hdr(false, false));
    assert_eq!(configured_hdr_state(&Ok(vec![status(false, true, false)])), hdr(false, false));
    assert_eq!(configured_hdr_state(&Ok(vec![status(true, true, true)])), hdr(false, false));
    assert_eq!(configured_hdr_state(&Ok(vec![status(true, true, false), status(true, false, false)])), hdr(true, false));
    assert_eq!(configured_hdr_state(&Ok(vec![status(true, true, false), status(false, false, false)])), hdr(true, true));
    assert_eq!(configured_hdr_state(&Ok(vec![status(true, false, false)])), hdr(false, false));
}

#[test]
fn watcher_turns_hdr_on_while_netflix_runs() {
    let c = Config::default();
    assert_eq!(watch_decision(&c, false, true, hdr(false, false)), WatchAction::TurnHdrOn);
    assert_eq!(watch_decision(&c, true, true, hdr(true, false)), WatchAction::TurnHdrOn);
    assert_eq!(watch_decision(&c, false, true, hdr(true, true)), WatchAction::TurnHdrOn);
    assert_eq!(watch_decision(&c, true, true, hdr(true, true)), WatchAction::MarkHdrActive);
}

#[test]
fn watcher_turns_hdr_off_when_netflix_closes() {
    let c = Config::default();
    assert_eq!(watch_decision(&c, true, false, hdr(false, false)), WatchAction::TurnHdrOff);
    assert_eq!(watch_decision(&c, false, false, hdr(true, false)), WatchAction::TurnHdrOff);
    assert_eq!(watch_decision(&c, false, false, hdr(false, false)), WatchAction::Nothing);
    let mut keep = Config::default();
    keep.turn_off_when_netflix_closes = false;
    assert_eq!(watch_decision(&keep, true, false, hdr(true, true)), WatchAction::Nothing);
}

#[test]
fn watcher_with_auto_disabled() {
    let mut c = Config::default();
    c.auto_enabled = false;
    assert_eq!(watch_decision(&c, false, true, hdr(false, false)), WatchAction::Nothing);
    assert_eq!(watch_decision(&c, true, true, hdr(true, true)), WatchAction::TurnHdrOff);
}

#[test]
fn poll_delay_has_a_floor() {
    let mut c = Config::default();
    assert_eq!(poll_delay_ms(&c), 1500);
    c.poll_interval_ms = 100;
    assert_eq!(poll_delay_ms(&c), 500);
    c.poll_interval_ms = 500;
    assert_eq!(poll_delay_ms(&c), 500);
}

#[test]
fn recording_outcomes() {
    let mut s = AppState::default();
    apply_hdr_change(&mut s, true, Ok(()));
    assert!(s.hdr_active_by_app && s.last_error.is_none());
    apply_hdr_change(&mut s, true, Err("e1".to_string()));
    assert!(!s.hdr_active_by_app);
    assert_eq!(s.last_error.as_deref(), Some("e1"));
    apply_hdr_change(&mut s, false, Ok(()));
    assert!(!s.hdr_active_by_app && s.last_error.is_none());
    mark_hdr_active(&mut s, true, None);
    assert!(s.hdr_active_by_app);

    set_manual_hdr(&mut s, false, Err("e2".to_string()));
    assert!(s.hdr_active_by_app);
    assert_eq!(s.last_error.as_deref(), Some("e2"));
    set_manual_hdr(&mut s, false, Ok(()));
    assert!(!s.hdr_active_by_app && s.last_error.is_none());

    record_save(&mut s, Err("disk full".to_string()));
    assert_eq!(s.last_error.as_deref(), Some("Save config failed: disk full"));
    record_save(&mut s, Ok(()));
    assert!(s.last_error.is_none());

    record_startup_change(&mut s, Err("RegOpenKeyExW failed with code 5".to_string()));
    assert_eq!(s.last_error.as_deref(), Some("RegOpenKeyExW failed with code 5"));
    record_startup_change(&mut s, Ok(()));
    assert!(s.last_error.is_none());

    toggle_auto(&mut s);
    assert!(!s.config.auto_enabled);
    toggle_auto(&mut s);
    assert!(s.config.auto_enabled);
}

#[test]
fn quitting_marks_exit_then_asks_for_hdr_off() {
    let mut s = AppState::default();
    s.config.selected_targets = vec!["k1".to_string(), "k2".to_string()];
    s.hdr_active_by_app = true;
    let next = quit(&mut s);
    assert!(s.exiting);
    assert!(!next.enable);
    assert_eq!(next.selected_targets, vec!["k1".to_string(), "k2".to_string()]);
    assert!(s.hdr_active_by_app);
    set_manual_hdr(&mut s, next.enable, Ok(()));
    assert!(!s.hdr_active_by_app && s.exiting);
}

#[test]
fn a_whole_watcher_look() {
    let mut s = AppState::default();
    s.hdr_active_by_app = true;
    s.last_error = Some("old".to_string());
    assert_eq!(watch_step(&mut s, true, hdr(true, true)), WatchAction::MarkHdrActive);
    assert!(s.netflix_running && s.hdr_active_by_app && s.last_error.is_none());

    let mut s = AppState::default();
    s.last_error = Some("old".to_string());
    assert_eq!(watch_step(&mut s, true, hdr(false, false)), WatchAction::TurnHdrOn);
    assert!(s.netflix_running && !s.hdr_active_by_app);
    assert_eq!(s.last_error.as_deref(), Some("old"));
    apply_hdr_change(&mut s, true, Ok(()));
    assert!(s.hdr_active_by_app);

    assert_eq!(watch_step(&mut s, false, hdr(true, true)), WatchAction::TurnHdrOff);
    assert!(!s.netflix_running && s.hdr_active_by_app);
}
