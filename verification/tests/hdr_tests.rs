use hdr_netflix::hdr::{
    check_win32_i32, check_win32_u32, list_targets, select_by_keys, selected_set, status_from_color_info,
    target_key, target_name, DisplayPath, DisplayTarget,
};

fn target(key: &str) -> DisplayTarget {
    DisplayTarget { key: key.to_string(), name: format!("Mon {key}"), adapter_high_part: 0, adapter_low_part: 1, target_id: 2 }
}

fn path(high: i32, low: u32, id: u32, name: Option<&str>, device: Option<&str>) -> DisplayPath {
    DisplayPath {
        adapter_high_part: high,
        adapter_low_part: low,
        target_id: id,
        friendly_name: name.map(|s| s.to_string()),
        device_path: device.map(|s| s.to_string()),
    }
}

/// FNV-1a over the UTF-16 units of `identity`, as 16 hex digits.
fn expected_key(identity: &str) -> String {
    let mut h: u64 = 0xcbf29ce484222325;
    for u in identity.encode_utf16() {
        h ^= u as u64;
        h = h.wrapping_mul(0x100000001b3);
    }
    format!("{h:016x}")
}

#[test]
fn keys_hash_the_device_path() {
    let dev = r"\\?\DISPLAY#DEL40F0#5&2a8b1c3&0&UID4352#{e6f07b5f-ee97-4a90-b076-33f57bf4eaa7}";
    let k = target_key(&Some(dev.to_string()), &Some("DELL".to_string()), 4352);
    assert_eq!(k, expected_key(dev));
    assert_eq!(k.len(), 16);
    assert!(k.chars().all(|c| c.is_ascii_hexdigit() && !c.is_ascii_uppercase()));
    assert_eq!(target_key(&Some(dev.to_string()), &None, 7), k);
    assert_eq!(expected_key(""), "cbf29ce484222325");
    assert_eq!(expected_key("a"), "af63dc4c8601ec8c");
}

#[test]
fn keys_without_a_device_path_use_name_and_target() {
    assert_eq!(target_key(&None, &Some("LG".to_string()), 7), expected_key("LG#7"));
    assert_eq!(target_key(&Some("".to_string()), &Some("LG".to_string()), 7), expected_key("LG#7"));
    assert_eq!(target_key(&None, &None, 260), expected_key("target#260"));
    assert_eq!(target_key(&None, &Some("".to_string()), 0), expected_key("target#0"));
    assert_eq!(target_key(&None, &Some(" \t".to_string()), 0), expected_key("target#0"));
    assert_eq!(target_key(&None, &Some(" LG".to_string()), 1), expected_key(" LG#1"));
}

#[test]
fn keys_survive_a_new_adapter_id() {
    let before = list_targets(&[path(0, 1, 7, Some("LG"), None), path(0, 1, 8, None, Some("dev"))]);
    let after = list_targets(&[path(0, 2, 7, Some("LG"), None), path(-5, 9, 8, None, Some("dev"))]);
    let kb: Vec<String> = before.iter().map(|t| t.key.clone()).collect();
    let ka: Vec<String> = after.iter().map(|t| t.key.clone()).collect();
    assert_eq!(kb, ka);
}

#[test]
fn names_come_from_the_wide_buffer() {
    let mut raw: Vec<u16> = "DELL U2720Q".encode_utf16().collect();
    raw.extend([0, 88, 88]);
    assert_eq!(target_name(0, &raw), Some("DELL U2720Q".to_string()));
    assert_eq!(target_name(31, &raw), None);
}

#[test]
fn status_codes() {
    assert_eq!(check_win32_u32(0, "QueryDisplayConfig"), Ok(()));
    assert_eq!(check_win32_u32(87, "QueryDisplayConfig"), Err("QueryDisplayConfig failed with code 87".to_string()));
    assert_eq!(check_win32_i32(0, "X"), Ok(()));
    assert_eq!(check_win32_i32(-1, "Y"), Err("Y failed with code 4294967295".to_string()));
}

#[test]
fn color_bits() {
    let s = status_from_color_info(target("k"), 0b1011);
    assert!(s.supported && s.enabled && s.force_disabled);
    assert_eq!(s.target.key, "k");
    let s = status_from_color_info(target("k"), 0b0100);
    assert!(!s.supported && !s.enabled && !s.force_disabled);
    let s = status_from_color_info(target("k"), 1);
    assert!(s.supported && !s.enabled);
}

#[test]
fn selection_is_trimmed_and_deduplicated() {
    let sel: Vec<String> = [" a ", "a", "", "  ", "b", "\u{3000}c\u{a0}"].iter().map(|s| s.to_string()).collect();
    assert_eq!(selected_set(&sel), vec!["a".to_string(), "b".to_string(), "c".to_string()]);
    assert!(selected_set(&[" ".to_string()]).is_empty());
    assert!(selected_set(&["".to_string(), " \t".to_string(), "\u{2028}".to_string()]).is_empty());
}

#[test]
fn selecting_targets() {
    let ts = vec![target("1:1:1"), target("1:1:2"), target("1:1:3")];
    let pick = |sel: &[&str]| {
        let raw: Vec<String> = sel.iter().map(|s| s.to_string()).collect();
        select_by_keys(&ts, &selected_set(&raw)).into_iter().map(|t| t.key).collect::<Vec<String>>()
    };
    assert_eq!(pick(&[]).len(), 3);
    assert_eq!(pick(&["  "]).len(), 3);
    assert_eq!(pick(&[" 1:1:3", "9:9:9", "1:1:1"]), vec!["1:1:1".to_string(), "1:1:3".to_string()]);
    assert!(pick(&["9:9:9"]).is_empty());
}

#[test]
fn targets_one_per_key_with_fallback_names() {
    let paths = vec![
        path(0, 5, 1, Some("LG"), Some("dev-lg")),
        path(0, 5, 1, Some("again"), Some("dev-lg")),
        path(-2, 6, 3, Some("   "), None),
        path(0, 5, 4, None, Some("dev-tv")),
        path(0, 9, 3, None, None),
    ];
    let ts = list_targets(&paths);
    let got: Vec<(String, String)> = ts.iter().map(|t| (t.key.clone(), t.name.clone())).collect();
    assert_eq!(
        got,
        vec![
            (expected_key("dev-lg"), "LG".to_string()),
            (expected_key("target#3"), "Display 2".to_string()),
            (expected_key("dev-tv"), "Display 3".to_string()),
            (expected_key("target#3"), "Display 4".to_string()),
        ]
    );
    assert_eq!(ts[1].adapter_high_part, -2);
    assert_eq!(ts[1].target_id, 3);
    assert_eq!((ts[3].adapter_low_part, ts[3].target_id), (9, 3));
    assert!(list_targets(&[]).is_empty());
}
