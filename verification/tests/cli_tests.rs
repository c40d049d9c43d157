use hdr_netflix::cli::{detection_report, handle_cli, set_hdr_exit_code, status_line, CliCommand};
use hdr_netflix::hdr::{AdvancedColorStatus, DisplayTarget};

fn args(list: &[&str]) -> Vec<String> {
    list.iter().map(|s| s.to_string()).collect()
}

#[test]
fn commands() {
    assert_eq!(handle_cli(&args(&[])), None);
    assert_eq!(handle_cli(&args(&["--on"])), Some(CliCommand::SetHdr(true)));
    assert_eq!(handle_cli(&args(&["--off", "x"])), Some(CliCommand::SetHdr(false)));
    assert_eq!(handle_cli(&args(&["--status"])), Some(CliCommand::Status));
    assert_eq!(
        handle_cli(&args(&["--detect-netflix"])),
        Some(CliCommand::DetectNetflix { detect_window_titles: true })
    );
    assert_eq!(
        handle_cli(&args(&["--detect-netflix", "--no-window-titles"])),
        Some(CliCommand::DetectNetflix { detect_window_titles: false })
    );
    assert_eq!(handle_cli(&args(&["--help"])), Some(CliCommand::Help { exit_code: 0 }));
    assert_eq!(handle_cli(&args(&["-h"])), Some(CliCommand::Help { exit_code: 0 }));
    assert_eq!(handle_cli(&args(&["--bogus"])), Some(CliCommand::Help { exit_code: 2 }));
}

#[test]
fn status_lines() {
    let s = AdvancedColorStatus {
        target: DisplayTarget { key: "0:5:1".to_string(), name: "LG".to_string(), adapter_high_part: 0, adapter_low_part: 5, target_id: 1 },
        supported: true,
        enabled: false,
        force_disabled: false,
    };
    assert_eq!(status_line(&s), "0:5:1 name=\"LG\" supported=true enabled=false force_disabled=false");
}

#[test]
fn detection_reports() {
    let (lines, code) = detection_report(&vec!["process:netflix.exe pid=4".to_string()]);
    assert_eq!(lines, vec!["netflix_running=true".to_string(), "reason=process:netflix.exe pid=4".to_string()]);
    assert_eq!(code, 0);
    let (lines, code) = detection_report(&vec![]);
    assert_eq!(lines, vec!["netflix_running=false".to_string()]);
    assert_eq!(code, 1);
}

#[test]
fn set_hdr_exit_codes() {
    assert_eq!(set_hdr_exit_code(&Ok(())), 0);
    assert_eq!(set_hdr_exit_code(&Err("x".to_string())), 1);
}
