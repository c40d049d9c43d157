use hdr_netflix::hdr::DisplayTarget;
use hdr_netflix::switch::{
    get_statuses, join, set_hdr_for_targets, HdrAction, HdrEvent, HdrSwitch, StatusAction, StatusEvent,
};

fn target(key: &str) -> DisplayTarget {
    DisplayTarget { key: key.to_string(), name: key.to_uppercase(), adapter_high_part: 0, adapter_low_part: 0, target_id: 0 }
}

fn read_key(a: &HdrAction) -> Option<String> {
    match a {
        HdrAction::ReadStatus(t) => Some(t.key.clone()),
        _ => None,
    }
}

/// Runs a switch against canned outcomes: the colour value or error of each
/// key, and the outcome of switching each key. Returns the requests made and
/// the final outcome.
fn run(
    sw: &mut HdrSwitch,
    listed: Result<Vec<DisplayTarget>, String>,
    value: impl Fn(&str) -> Result<u32, String>,
    apply: impl Fn(&str) -> Result<(), String>,
) -> (Vec<String>, Result<(), String>) {
    let mut log = Vec::new();
    let mut event = HdrEvent::TargetsListed(listed);
    loop {
        assert!(sw.accepts(&event));
        match sw.advance(event) {
            HdrAction::ReadStatus(t) => {
                log.push(format!("read {}", t.key));
                event = HdrEvent::StatusRead(value(&t.key));
            }
            HdrAction::ApplyHdr(t, on) => {
                log.push(format!("apply {} {}", t.key, on));
                event = HdrEvent::HdrApplied(apply(&t.key));
            }
            HdrAction::Finish(r) => {
                assert!(sw.is_finished());
                return (log, r);
            }
        }
    }
}

#[test]
fn joining() {
    assert_eq!(join(&vec![], "; "), "");
    assert_eq!(join(&vec!["a".to_string()], "; "), "a");
    assert_eq!(join(&vec!["a".to_string(), "b".to_string(), "c".to_string()], "; "), "a; b; c");
}

#[test]
fn switches_supported_displays_and_collects_failures() {
    let mut sw = set_hdr_for_targets(true, &[]);
    let listed = Ok(vec![target("a"), target("b"), target("c"), target("d")]);
    let (log, result) = run(
        &mut sw,
        listed,
        |k| match k {
            "a" => Ok(1),
            "b" => Ok(0),
            "c" => Err("nope".to_string()),
            _ => Ok(3),
        },
        |k| if k == "a" { Err("boom".to_string()) } else { Ok(()) },
    );
    assert_eq!(log, vec!["read a", "apply a true", "read b", "read c", "read d", "apply d true"]);
    assert_eq!(result, Err("a: boom; c: nope".to_string()));
}

#[test]
fn switch_succeeds_when_nothing_fails() {
    let mut sw = set_hdr_for_targets(false, &[]);
    let (log, result) = run(&mut sw, Ok(vec![target("a"), target("b")]), |_| Ok(1), |_| Ok(()));
    assert_eq!(log, vec!["read a", "apply a false", "read b", "apply b false"]);
    assert_eq!(result, Ok(()));
}

#[test]
fn switch_only_touches_selected_displays() {
    let mut sw = set_hdr_for_targets(true, &[" b ".to_string()]);
    let (log, result) = run(&mut sw, Ok(vec![target("a"), target("b")]), |_| Ok(1), |_| Ok(()));
    assert_eq!(log, vec!["read b", "apply b true"]);
    assert_eq!(result, Ok(()));

    let mut sw = set_hdr_for_targets(true, &["zz".to_string()]);
    let (log, result) = run(&mut sw, Ok(vec![target("a")]), |_| Ok(1), |_| Ok(()));
    assert!(log.is_empty());
    assert_eq!(result, Ok(()));
}

#[test]
fn switch_reports_a_failed_listing() {
    let mut sw = set_hdr_for_targets(true, &[]);
    let (log, result) = run(&mut sw, Err("QueryDisplayConfig failed with code 5".to_string()), |_| Ok(1), |_| Ok(()));
    assert!(log.is_empty());
    assert_eq!(result, Err("QueryDisplayConfig failed with code 5".to_string()));
}

#[test]
fn switch_refuses_events_out_of_turn() {
    let mut sw = set_hdr_for_targets(true, &[]);
    assert!(!sw.accepts(&HdrEvent::StatusRead(Ok(1))));
    let a = sw.advance(HdrEvent::TargetsListed(Ok(vec![target("a")])));
    assert_eq!(read_key(&a), Some("a".to_string()));
    assert!(!sw.accepts(&HdrEvent::HdrApplied(Ok(()))));
    assert!(sw.accepts(&HdrEvent::StatusRead(Ok(1))));
}

fn scan(
    selected: &[String],
    listed: Result<Vec<DisplayTarget>, String>,
    value: impl Fn(&str) -> Result<u32, String>,
) -> Result<Vec<(String, bool, bool, bool)>, String> {
    let mut s = get_statuses(selected);
    let mut event = StatusEvent::TargetsListed(listed);
    loop {
        assert!(s.accepts(&event));
        match s.advance(event) {
            StatusAction::ReadStatus(t) => event = StatusEvent::StatusRead(value(&t.key)),
            StatusAction::Finish(r) => {
                return r.map(|v| {
                    v.into_iter().map(|st| (st.target.key, st.supported, st.enabled, st.force_disabled)).collect()
                })
            }
        }
    }
}

#[test]
fn scan_reads_each_selected_display() {
    let got = scan(&[], Ok(vec![target("a"), target("b")]), |k| if k == "a" { Ok(3) } else { Ok(9) });
    assert_eq!(got, Ok(vec![("a".to_string(), true, true, false), ("b".to_string(), true, false, true)]));
    let got = scan(&["b".to_string()], Ok(vec![target("a"), target("b")]), |_| Ok(1));
    assert_eq!(got, Ok(vec![("b".to_string(), true, false, false)]));
    assert_eq!(scan(&[], Ok(vec![]), |_| Ok(1)), Ok(vec![]));
}

#[test]
fn scan_stops_at_the_first_failure() {
    let got = scan(&[], Ok(vec![target("a"), target("b"), target("c")]), |k| {
        if k == "b" { Err("b broke".to_string()) } else { Ok(1) }
    });
    assert_eq!(got, Err("b broke".to_string()));
    assert_eq!(scan(&[], Err("list failed".to_string()), |_| Ok(1)), Err("list failed".to_string()));
}

#[test]
fn blank_selection_switches_every_display() {
    let mut blank = set_hdr_for_targets(true, &["".to_string(), " \u{3000}".to_string()]);
    let (log_blank, r_blank) = run(&mut blank, Ok(vec![target("a"), target("b")]), |_| Ok(1), |_| Ok(()));
    let mut empty = set_hdr_for_targets(true, &[]);
    let (log_empty, r_empty) = run(&mut empty, Ok(vec![target("a"), target("b")]), |_| Ok(1), |_| Ok(()));
    assert_eq!(log_blank, log_empty);
    assert_eq!(r_blank, r_empty);
    let mut padded = set_hdr_for_targets(true, &[" b\t".to_string()]);
    let (log_padded, _) = run(&mut padded, Ok(vec![target("a"), target("b")]), |_| Ok(1), |_| Ok(()));
    let mut plain = set_hdr_for_targets(true, &["b".to_string()]);
    let (log_plain, _) = run(&mut plain, Ok(vec![target("a"), target("b")]), |_| Ok(1), |_| Ok(()));
    assert_eq!(log_padded, log_plain);
}
