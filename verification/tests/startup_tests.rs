use hdr_netflix::startup::{
    app_name, is_enabled, registry_lookup, run_key, set_enabled, StartupAction, StartupChange, StartupEvent,
};
use hdr_netflix::text::wide;

fn units(s: &str) -> Vec<u16> {
    let mut v: Vec<u16> = s.encode_utf16().collect();
    v.push(0);
    v
}

#[test]
fn wide_strings() {
    assert_eq!(wide(""), vec![0]);
    assert_eq!(wide("A"), vec![65, 0]);
    assert_eq!(wide("😀é"), vec![0xD83D, 0xDE00, 0xE9, 0]);
    assert_eq!(wide(run_key()), units("Software\\Microsoft\\Windows\\CurrentVersion\\Run"));
    assert_eq!(app_name(), "HDR Netflix");
}

#[test]
fn registry_lookups() {
    assert_eq!(registry_lookup(0, 1), Ok(true));
    assert_eq!(registry_lookup(0, 4), Ok(false));
    assert_eq!(registry_lookup(2, 1), Ok(false));
    assert_eq!(registry_lookup(5, 1), Err("RegGetValueW failed with code 5".to_string()));
}

#[test]
fn enabled_by_registry_or_legacy_shortcut() {
    assert!(is_enabled(Ok(true), false));
    assert!(!is_enabled(Ok(false), false));
    assert!(!is_enabled(Err("x".to_string()), false));
    assert!(is_enabled(Err("x".to_string()), true));
    assert!(is_enabled(Ok(false), true));
}

fn step(c: &mut StartupChange, e: StartupEvent) -> StartupAction {
    assert!(c.accepts(&e));
    c.advance(e)
}

#[test]
fn registering_writes_the_quoted_exe() {
    let mut c = set_enabled(true);
    assert!(!c.accepts(&StartupEvent::KeyOpened(0)));
    assert!(matches!(step(&mut c, StartupEvent::LegacyRemoved), StartupAction::ResolveExe));
    let a = step(&mut c, StartupEvent::ExeResolved(Ok("C:\\Apps\\HDRNetflix.exe".to_string())));
    assert!(matches!(a, StartupAction::OpenRunKey(2)));
    match step(&mut c, StartupEvent::KeyOpened(0)) {
        StartupAction::WriteValue { name, value_type, data, bytes } => {
            assert_eq!(name, units("HDR Netflix"));
            assert_eq!(value_type, 1);
            assert_eq!(data, units("\"C:\\Apps\\HDRNetflix.exe\""));
            assert_eq!(bytes as usize, data.len() * 2);
        }
        _ => panic!("expected a write"),
    }
    match step(&mut c, StartupEvent::ValueWritten(0)) {
        StartupAction::Finish(r) => assert_eq!(r, Ok(())),
        _ => panic!("expected the end"),
    }
}

#[test]
fn registering_reports_failures() {
    let mut c = set_enabled(true);
    step(&mut c, StartupEvent::LegacyRemoved);
    match step(&mut c, StartupEvent::ExeResolved(Err("no exe".to_string()))) {
        StartupAction::Finish(r) => assert_eq!(r, Err("current_exe failed: no exe".to_string())),
        _ => panic!(),
    }
    let mut c = set_enabled(true);
    step(&mut c, StartupEvent::LegacyRemoved);
    step(&mut c, StartupEvent::ExeResolved(Ok("x".to_string())));
    match step(&mut c, StartupEvent::KeyOpened(5)) {
        StartupAction::Finish(r) => assert_eq!(r, Err("RegOpenKeyExW failed with code 5".to_string())),
        _ => panic!(),
    }
    let mut c = set_enabled(true);
    step(&mut c, StartupEvent::LegacyRemoved);
    step(&mut c, StartupEvent::ExeResolved(Ok("x".to_string())));
    step(&mut c, StartupEvent::KeyOpened(0));
    match step(&mut c, StartupEvent::ValueWritten(1)) {
        StartupAction::Finish(r) => assert_eq!(r, Err("RegSetValueExW failed with code 1".to_string())),
        _ => panic!(),
    }
}

#[test]
fn unregistering_deletes_the_value() {
    for (code, expected) in [(0u32, Ok(())), (2, Ok(())), (5, Err("RegDeleteValueW failed with code 5".to_string()))] {
        let mut c = set_enabled(false);
        assert!(matches!(step(&mut c, StartupEvent::LegacyRemoved), StartupAction::OpenRunKey(3)));
        match step(&mut c, StartupEvent::KeyOpened(0)) {
            StartupAction::DeleteValue { name } => assert_eq!(name, units("HDR Netflix")),
            _ => panic!(),
        }
        match step(&mut c, StartupEvent::ValueDeleted(code)) {
            StartupAction::Finish(r) => assert_eq!(r, expected),
            _ => panic!(),
        }
    }
}
