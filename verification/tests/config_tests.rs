use hdr_netflix::config::Config;

fn with_names(list: &[&str]) -> Config {
    let mut c = Config::default();
    c.process_names = list.iter().map(|s| s.to_string()).collect();
    c
}

#[test]
fn default_settings() {
    let c = Config::default();
    assert!(c.auto_enabled);
    assert_eq!(c.poll_interval_ms, 1500);
    assert!(c.turn_off_when_netflix_closes);
    assert!(c.selected_targets.is_empty());
    assert_eq!(c.process_names, vec!["Netflix.exe".to_string()]);
    assert!(c.detect_window_titles);
}

#[test]
fn normalize_keeps_netflix_names() {
    let mut c = with_names(&["Netflix.exe"]);
    assert!(!c.normalize());
    assert_eq!(c.process_names, vec!["Netflix.exe".to_string()]);

    let mut c = with_names(&["chrome.exe", "NETFLIX.EXE", "MyNetflixPlayer.exe"]);
    assert!(c.normalize());
    assert_eq!(c.process_names, vec!["NETFLIX.EXE".to_string(), "MyNetflixPlayer.exe".to_string()]);
}

#[test]
fn normalize_falls_back_to_default() {
    let mut c = with_names(&[]);
    assert!(c.normalize());
    assert_eq!(c.process_names, vec!["Netflix.exe".to_string()]);

    let mut c = with_names(&["vlc.exe"]);
    c.poll_interval_ms = 900;
    assert!(c.normalize());
    assert_eq!(c.process_names, vec!["Netflix.exe".to_string()]);
    assert_eq!(c.poll_interval_ms, 900);
}

#[test]
fn normalize_twice_changes_nothing_more() {
    for list in [&["a.exe", "netflix.exe"][..], &[][..], &["x"][..]] {
        let mut c = with_names(list);
        c.normalize();
        let once = c.process_names.clone();
        assert!(!c.normalize());
        assert_eq!(c.process_names, once);
    }
}
