use hdr_netflix::netflix::{
    detection_reasons, is_netflix_running, is_netflix_window_title, process_match, process_reasons,
    window_title_match, window_title_reasons, ProcessEntry,
};

fn entry(name: &str, pid: u32) -> ProcessEntry {
    let mut exe_file: Vec<u16> = name.encode_utf16().collect();
    exe_file.push(0);
    exe_file.extend([7u16, 7, 7]);
    ProcessEntry { exe_file, process_id: pid }
}

fn names(list: &[&str]) -> Vec<String> {
    list.iter().map(|s| s.to_string()).collect()
}

#[test]
fn window_titles_that_name_netflix() {
    assert!(is_netflix_window_title("Netflix"));
    assert!(is_netflix_window_title("NETFLIX"));
    assert!(is_netflix_window_title("Netflix - Stranger Things"));
    assert!(is_netflix_window_title("Stranger Things - Netflix"));
    assert!(is_netflix_window_title("Some.Show_-_Netflix"));
    assert!(is_netflix_window_title("Netflix.-.Show"));
}

#[test]
fn window_titles_that_do_not() {
    assert!(!is_netflix_window_title("Netflix App"));
    assert!(!is_netflix_window_title("netflix.com"));
    assert!(!is_netflix_window_title("My Netflix notes"));
    assert!(!is_netflix_window_title(""));
    assert!(!is_netflix_window_title("Netflix_"));
}

#[test]
fn own_windows_never_count() {
    assert!(!is_netflix_window_title("HDR-Netflix - Netflix"));
    assert!(!is_netflix_window_title("hdr_netflix"));
    assert!(!is_netflix_window_title("Netflix - HDR_NETFLIX settings"));
}

#[test]
fn processes_match_by_name_without_case() {
    let procs = vec![entry("explorer.exe", 4), entry("NETFLIX.EXE", 42), entry("Netflix.exe", 7)];
    let reasons = process_reasons(&names(&["Netflix.exe"]), &procs, 7);
    assert_eq!(reasons, vec!["process:netflix.exe pid=42".to_string()]);
    assert!(process_match(&names(&["netflix.exe"]), &procs, 7));
    assert!(!process_match(&names(&["chrome.exe"]), &procs, 7));
    assert!(!process_match(&names(&["Netflix.exe"]), &[entry("Netflix.exe", 9)], 9));
}

#[test]
fn window_reasons_keep_order() {
    let titles = names(&["Mail", "Netflix", "x - Netflix"]);
    assert_eq!(
        window_title_reasons(&titles),
        vec!["window:Netflix".to_string(), "window:x - Netflix".to_string()]
    );
    assert!(window_title_match(&titles));
    assert!(!window_title_match(&names(&["Mail"])));
}

#[test]
fn detection_combines_processes_and_windows() {
    let procs = vec![entry("netflix.exe", 12)];
    let titles = names(&["Netflix"]);
    let wanted = names(&["Netflix.exe"]);
    let both = detection_reasons(&wanted, true, &procs, 1, &titles);
    assert_eq!(both, vec!["process:netflix.exe pid=12".to_string(), "window:Netflix".to_string()]);
    let only_processes = detection_reasons(&wanted, false, &procs, 1, &titles);
    assert_eq!(only_processes, vec!["process:netflix.exe pid=12".to_string()]);
}

#[test]
fn running_exactly_when_there_is_a_reason() {
    let wanted = names(&["Netflix.exe"]);
    let titles = names(&["Netflix"]);
    for (procs, detect) in [
        (vec![], false),
        (vec![], true),
        (vec![entry("netflix.exe", 3)], false),
        (vec![entry("other.exe", 3)], true),
    ] {
        let running = is_netflix_running(&wanted, detect, &procs, 1, &titles);
        let reasons = detection_reasons(&wanted, detect, &procs, 1, &titles);
        assert_eq!(running, !reasons.is_empty());
    }
    assert!(!is_netflix_running(&wanted, true, &[], 1, &names(&["Mail"])));
}
