use hdr_netflix::hdr::{AdvancedColorStatus, DisplayTarget};
use hdr_netflix::state::AppState;
use hdr_netflix::tray::{
    build_target_menu, copy_tip, handle_command, hdr_status_label, item_flags, main_menu, menu_key,
    status_label, window_event, MenuCommand, MenuItem, WindowEvent,
};

fn status(key: &str, name: &str, supported: bool, enabled: bool) -> AdvancedColorStatus {
    AdvancedColorStatus {
        target: DisplayTarget { key: key.to_string(), name: name.to_string(), adapter_high_part: 0, adapter_low_part: 0, target_id: 0 },
        supported,
        enabled,
        force_disabled: false,
    }
}

fn describe(items: &[MenuItem]) -> Vec<String> {
    items
        .iter()
        .map(|i| match i {
            MenuItem::Entry { id, label, checked, enabled } => format!("{id}|{label}|{checked}|{enabled}"),
            MenuItem::Separator => "-".to_string(),
            MenuItem::TargetsPopup { label } => format!(">{label}"),
        })
        .collect()
}

#[test]
fn window_messages() {
    assert_eq!(window_event(0x8001, 0, 0x0205), WindowEvent::ShowMenu);
    assert_eq!(window_event(0x8001, 0, 0x0202), WindowEvent::ShowMenu);
    assert_eq!(window_event(0x8001, 0, 0x0200), WindowEvent::Handled);
    assert_eq!(window_event(0x0111, 0x0001_03ED, 0), WindowEvent::Command(1005));
    assert_eq!(window_event(0x0002, 0, 0), WindowEvent::Destroy);
    assert_eq!(window_event(0x000F, 0, 0), WindowEvent::Default);
}

#[test]
fn menu_commands() {
    assert_eq!(handle_command(1001), MenuCommand::ToggleAuto);
    assert_eq!(handle_command(1002), MenuCommand::HdrOn);
    assert_eq!(handle_command(1003), MenuCommand::HdrOff);
    assert_eq!(handle_command(1005), MenuCommand::Quit);
    assert_eq!(handle_command(1006), MenuCommand::ToggleStartup);
    assert_eq!(handle_command(1100), MenuCommand::SelectAllTargets);
    assert_eq!(handle_command(1200), MenuCommand::ToggleTarget(0));
    assert_eq!(handle_command(1999), MenuCommand::ToggleTarget(799));
    assert_eq!(handle_command(2000), MenuCommand::Ignore);
    assert_eq!(handle_command(0), MenuCommand::Ignore);
    let keys = vec!["a".to_string(), "b".to_string()];
    assert_eq!(menu_key(&keys, 1), Some("b".to_string()));
    assert_eq!(menu_key(&keys, 2), None);
}

#[test]
fn flags() {
    assert_eq!(item_flags(false, true), 0);
    assert_eq!(item_flags(true, true), 8);
    assert_eq!(item_flags(false, false), 2);
    assert_eq!(item_flags(true, false), 10);
}

#[test]
fn labels() {
    assert_eq!(hdr_status_label(&Ok(vec![])), "HDR: no active displays");
    assert_eq!(hdr_status_label(&Err("boom".to_string())), "HDR: boom");
    let ss = vec![status("a", "A", true, true), status("b", "B", true, false), status("c", "C", false, true)];
    assert_eq!(hdr_status_label(&Ok(ss)), "HDR: 1/2 displays on");
    assert_eq!(status_label(&None), "Status: OK");
    assert_eq!(status_label(&Some("bad".to_string())), "Last error: bad");
}

#[test]
fn tray_menu() {
    let mut state = AppState::default();
    state.netflix_running = true;
    let items = main_menu(&state, false, &Ok(vec![status("a", "A", true, true)]));
    assert_eq!(
        describe(&items),
        vec![
            "1001|Disable auto HDR|false|true",
            "1006|Enable start with Windows|false|true",
            ">HDR displays",
            "-",
            "1002|Turn HDR on now|false|true",
            "1003|Turn HDR off now|false|true",
            "-",
            "0|Netflix: running|false|false",
            "0|HDR: 1/1 displays on|false|false",
            "0|Status: OK|false|false",
            "-",
            "1005|Quit|false|true",
        ]
    );
    state.config.auto_enabled = false;
    state.last_error = Some("x".to_string());
    let items = describe(&main_menu(&state, true, &Err("e".to_string())));
    assert_eq!(items[0], "1001|Enable auto HDR|false|true");
    assert_eq!(items[1], "1006|Disable start with Windows|false|true");
    assert_eq!(items[8], "0|HDR: e|false|false");
    assert_eq!(items[9], "0|Last error: x|false|false");
}

#[test]
fn display_menu() {
    let ss = vec![status("a", "Dell", true, true), status("b", "LG", true, false), status("c", "TV", false, false)];
    let m = build_target_menu(&[], &Ok(ss.clone()));
    assert_eq!(
        describe(&m.items),
        vec![
            "1100|All displays|true|true",
            "-",
            "1200|Dell (HDR on)|false|true",
            "1201|LG (HDR off)|false|true",
            "1202|TV (HDR unsupported)|false|false",
        ]
    );
    assert_eq!(m.keys, vec!["a".to_string(), "b".to_string(), "c".to_string()]);
    let m = build_target_menu(&["b".to_string()], &Ok(ss));
    let d = describe(&m.items);
    assert_eq!(d[0], "1100|All displays|false|true");
    assert_eq!(d[2], "1200|Dell (HDR on)|false|true");
    assert_eq!(d[3], "1201|LG (HDR off)|true|true");
    let m = build_target_menu(&[], &Ok(vec![]));
    assert_eq!(describe(&m.items), vec!["1100|All displays|true|true", "-", "0|No active displays|false|false"]);
    assert!(m.keys.is_empty());
    let m = build_target_menu(&["a".to_string()], &Err("oops".to_string()));
    assert_eq!(describe(&m.items), vec!["1100|All displays|false|true", "-", "0|Display error: oops|false|false"]);
}

#[test]
fn tip_is_cut_to_the_buffer() {
    let mut buf = vec![0u16; 128];
    copy_tip(&mut buf, "HDR Netflix");
    let expected: Vec<u16> = "HDR Netflix".encode_utf16().collect();
    assert_eq!(&buf[..11], &expected[..]);
    assert!(buf[11..].iter().all(|u| *u == 0));
    let mut small = vec![9u16; 3];
    copy_tip(&mut small, "HDR Netflix");
    assert_eq!(small, vec![72, 68, 82]);
    let mut keep = vec![9u16; 4];
    copy_tip(&mut keep, "ab");
    assert_eq!(keep, vec![97, 98, 9, 9]);
}

#[test]
fn display_menu_for_many_displays() {
    let ss: Vec<AdvancedColorStatus> = (0..900).map(|i| status(&format!("k{i}"), &format!("D{i}"), true, false)).collect();
    let m = build_target_menu(&[], &Ok(ss));
    assert_eq!(m.items.len(), 902);
    assert_eq!(m.keys.len(), 900);
    match &m.items[901] {
        MenuItem::Entry { id, label, .. } => {
            assert_eq!(*id, 2099);
            assert_eq!(label, "D899 (HDR off)");
        }
        _ => panic!("expected an entry"),
    }
    assert_eq!(m.keys[899], "k899");
}
