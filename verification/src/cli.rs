//! The command line: which command the arguments ask for, and the text and
//! exit code each command reports.
use vstd::prelude::*;
use vstd::string::*;
use crate::hdr::AdvancedColorStatus;
use crate::text::str_eq;

verus! {

/// A command given on the command line.
#[derive(Debug, Clone, Copy, PartialEq, Eq, Structural)]
pub enum CliCommand {
    /// Switch HDR on (`true`) or off for the configured displays.
    SetHdr(bool),
    /// List the active displays and their HDR state.
    Status,
    /// Report whether Netflix is running, and why.
    DetectNetflix { detect_window_titles: bool },
    /// Print the usage text and exit with this code.
    Help { exit_code: i32 },
}

/// Some argument is `arg`.
pub open spec fn has_arg(args: Seq<Seq<char>>, arg: Seq<char>) -> bool {
    exists|i: int| 0 <= i < args.len() && args[i] == arg
}

/// The command the first argument names; none means running the tray.
pub open spec fn cli_command(args: Seq<Seq<char>>) -> Option<CliCommand> {
    if args.len() == 0 {
        None
    } else if args[0] == "--on"@ {
        Some(CliCommand::SetHdr(true))
    } else if args[0] == "--off"@ {
        Some(CliCommand::SetHdr(false))
    } else if args[0] == "--status"@ {
        Some(CliCommand::Status)
    } else if args[0] == "--detect-netflix"@ {
        Some(CliCommand::DetectNetflix { detect_window_titles: !has_arg(args, "--no-window-titles"@) })
    } else if args[0] == "--help"@ || args[0] == "-h"@ {
        Some(CliCommand::Help { exit_code: 0 })
    } else {
        Some(CliCommand::Help { exit_code: 2 })
    }
}

/// The command the arguments (without the program name) ask for: none
/// runs the tray; an unknown first argument prints the usage and fails.
pub fn handle_cli(args: &[String]) -> (c: Option<CliCommand>)
    ensures
        c == cli_command(args.deep_view()),
{
    if args.len() == 0 {
        return None;
    }
    let first = args[0].as_str();
    proof {
        assert(args.deep_view()[0] == first@);
    }
    if str_eq(first, "--on") {
        Some(CliCommand::SetHdr(true))
    } else if str_eq(first, "--off") {
        Some(CliCommand::SetHdr(false))
    } else if str_eq(first, "--status") {
        Some(CliCommand::Status)
    } else if str_eq(first, "--detect-netflix") {
        let mut found = false;
        let mut i: usize = 0;
        while i < args.len()
            invariant
                i <= args@.len(),
                found == exists|j: int| 0 <= j < i && args.deep_view()[j] == "--no-window-titles"@,
            decreases args@.len() - i,
        {
            proof {
                assert(args.deep_view()[i as int] == args@[i as int]@);
            }
            if str_eq(args[i].as_str(), "--no-window-titles") {
                found = true;
            }
            i = i + 1;
        }
        Some(CliCommand::DetectNetflix { detect_window_titles: !found })
    } else if str_eq(first, "--help") || str_eq(first, "-h") {
        Some(CliCommand::Help { exit_code: 0 })
    } else {
        Some(CliCommand::Help { exit_code: 2 })
    }
}

/// `true` or `false`.
pub open spec fn bool_text(b: bool) -> Seq<char> {
    if b { "true"@ } else { "false"@ }
}

fn push_bool(s: &mut String, b: bool)
    ensures
        final(s)@ == old(s)@ + bool_text(b),
{
    if b {
        s.append("true");
    } else {
        s.append("false");
    }
}

/// The status line of a display:
/// `<key> name="<name>" supported=<b> enabled=<b> force_disabled=<b>`.
pub fn status_line(status: &AdvancedColorStatus) -> (line: String)
    ensures
        line@ == status.target.key@ + " name=\""@ + status.target.name@ + "\" supported="@ + bool_text(
            status.supported,
        ) + " enabled="@ + bool_text(status.enabled) + " force_disabled="@ + bool_text(
            status.force_disabled,
        ),
{
    let mut line = status.target.key.clone();
    line.append(" name=\"");
    line.append(status.target.name.as_str());
    line.append("\" supported=");
    push_bool(&mut line, status.supported);
    line.append(" enabled=");
    push_bool(&mut line, status.enabled);
    line.append(" force_disabled=");
    push_bool(&mut line, status.force_disabled);
    line
}

/// What `--detect-netflix` prints, and its exit code: whether Netflix is
/// running, then one line per reason; exit code 0 when it runs, else 1.
pub fn detection_report(reasons: &Vec<String>) -> (report: (Vec<String>, i32))
    ensures
        report.0.deep_view().len() == reasons.deep_view().len() + 1,
        report.0.deep_view()[0] == "netflix_running="@ + bool_text(reasons@.len() > 0),
        forall|i: int| 0 <= i < reasons@.len() ==> #[trigger] report.0.deep_view()[i + 1]
            == "reason="@ + reasons@[i]@,
        report.1 == if reasons@.len() > 0 { 0i32 } else { 1i32 },
{
    let running = reasons.len() > 0;
    let mut lines: Vec<String> = Vec::new();
    let mut head = String::from_str("netflix_running=");
    push_bool(&mut head, running);
    lines.push(head);
    let mut i: usize = 0;
    while i < reasons.len()
        invariant
            i <= reasons@.len(),
            lines.deep_view().len() == i + 1,
            lines.deep_view()[0] == "netflix_running="@ + bool_text(running),
            running == (reasons@.len() > 0),
            forall|j: int| 0 <= j < i ==> #[trigger] lines.deep_view()[j + 1] == "reason="@
                + reasons@[j]@,
        decreases reasons@.len() - i,
    {
        let mut line = String::from_str("reason=");
        line.append(reasons[i].as_str());
        let ghost before = lines.deep_view();
        lines.push(line);
        assert(lines.deep_view() =~= before.push("reason="@ + reasons@[i as int]@));
        i = i + 1;
    }
    (lines, if running { 0 } else { 1 })
}

/// The exit code of `--on` and `--off`: 0 on success, else 1.
pub fn set_hdr_exit_code(result: &Result<(), String>) -> (code: i32)
    ensures
        code == if result is Ok { 0i32 } else { 1i32 },
{
    match result {
        Ok(()) => 0,
        Err(_) => 1,
    }
}

} // verus!
