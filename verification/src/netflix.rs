//! Netflix detection: which running processes and which window titles show
//! that Netflix is open.
//!
//! The process list and the titles of the visible windows are read by the
//! caller; these functions decide on them.
use vstd::prelude::*;
use vstd::string::*;
use crate::text::{
    ascii_lower, before_nul, chars_equal, chars_of, contains_chars, decimal, has_prefix, has_substring,
    occurs_at_exec, push_decimal, to_ascii_lowercase, utf16_lossy, wide_array_to_string,
};

verus! {

/// One entry of the system's process list: the executable's file name as a
/// zero-terminated UTF-16 buffer, and the process id.
pub struct ProcessEntry {
    pub exe_file: Vec<u16>,
    pub process_id: u32,
}

/// The executable name of a process entry, lower-cased.
pub open spec fn entry_exe(entry: ProcessEntry) -> Seq<char> {
    ascii_lower(utf16_lossy(before_nul(entry.exe_file@)))
}

/// `exe` is one of the wanted names, compared without ASCII case.
pub open spec fn is_wanted(process_names: Seq<Seq<char>>, exe: Seq<char>) -> bool {
    exists|k: int| 0 <= k < process_names.len() && ascii_lower(process_names[k]) == exe
}

/// The reason reported for a matching process.
pub open spec fn process_reason(exe: Seq<char>, pid: u32) -> Seq<char> {
    "process:"@ + exe + " pid="@ + decimal(pid as nat)
}

/// The reasons, in process-list order, for every process other than the
/// current one whose executable is one of the wanted names.
pub open spec fn process_reasons_of(
    process_names: Seq<Seq<char>>,
    processes: Seq<ProcessEntry>,
    current_process_id: u32,
) -> Seq<Seq<char>>
    decreases processes.len(),
{
    if processes.len() == 0 {
        Seq::empty()
    } else {
        let rest = process_reasons_of(process_names, processes.drop_last(), current_process_id);
        let e = processes.last();
        if e.process_id != current_process_id && is_wanted(process_names, entry_exe(e)) {
            rest.push(process_reason(entry_exe(e), e.process_id))
        } else {
            rest
        }
    }
}

/// `_` and `.` read as spaces.
pub open spec fn separators_as_spaces(s: Seq<char>) -> Seq<char> {
    Seq::new(s.len(), |i: int| if s[i] == '_' || s[i] == '.' { ' ' } else { s[i] })
}

/// A window title that names the Netflix app: after lower-casing, and reading
/// `_` and `.` as spaces, it is `netflix`, starts with `netflix -` or holds
/// ` - netflix`. Titles of this tool's own windows (holding `hdr-netflix` or
/// `hdr_netflix`) never count.
pub open spec fn netflix_window_title(title: Seq<char>) -> bool {
    let lower = ascii_lower(title);
    if has_substring(lower, "hdr-netflix"@) || has_substring(lower, "hdr_netflix"@) {
        false
    } else {
        let normalized = separators_as_spaces(lower);
        ||| normalized == "netflix"@
        ||| has_prefix(normalized, "netflix -"@)
        ||| has_substring(normalized, " - netflix"@)
    }
}

/// The reasons, in order, for the window titles that name Netflix.
pub open spec fn window_reasons_of(titles: Seq<Seq<char>>) -> Seq<Seq<char>>
    decreases titles.len(),
{
    if titles.len() == 0 {
        Seq::empty()
    } else {
        let rest = window_reasons_of(titles.drop_last());
        if netflix_window_title(titles.last()) {
            rest.push("window:"@ + titles.last())
        } else {
            rest
        }
    }
}

/// All reasons to believe Netflix is running: the matching processes, then,
/// when window titles are consulted, the matching windows.
pub open spec fn detection_reasons_of(
    process_names: Seq<Seq<char>>,
    detect_window_titles: bool,
    processes: Seq<ProcessEntry>,
    current_process_id: u32,
    window_titles: Seq<Seq<char>>,
) -> Seq<Seq<char>> {
    process_reasons_of(process_names, processes, current_process_id) + if detect_window_titles {
        window_reasons_of(window_titles)
    } else {
        Seq::<Seq<char>>::empty()
    }
}

/// Whether a window title names Netflix (see `netflix_window_title`).
pub fn is_netflix_window_title(title: &str) -> (b: bool)
    ensures
        b == netflix_window_title(title@),
{
    let lower = to_ascii_lowercase(title);
    let lower_chars = chars_of(lower.as_str());
    let a = chars_of("hdr-netflix");
    let u = chars_of("hdr_netflix");
    if contains_chars(&lower_chars, &a) || contains_chars(&lower_chars, &u) {
        return false;
    }
    let mut normalized: Vec<char> = Vec::new();
    let mut i: usize = 0;
    while i < lower_chars.len()
        invariant
            i <= lower_chars.len(),
            normalized@ == separators_as_spaces(lower_chars@).subrange(0, i as int),
        decreases lower_chars.len() - i,
    {
        let c = lower_chars[i];
        if c == '_' || c == '.' {
            normalized.push(' ');
        } else {
            normalized.push(c);
        }
        i = i + 1;
        assert(normalized@ =~= separators_as_spaces(lower_chars@).subrange(0, i as int));
    }
    assert(normalized@ =~= separators_as_spaces(lower_chars@));
    let whole = chars_of("netflix");
    let start = chars_of("netflix -");
    let inner = chars_of(" - netflix");
    chars_equal(&normalized, &whole) || occurs_at_exec(&normalized, &start, 0) || contains_chars(
        &normalized,
        &inner,
    )
}

/// Whether `exe` is one of the (already lower-cased) wanted names.
fn wanted_contains(wanted: &Vec<String>, exe: &String) -> (b: bool)
    ensures
        b == exists|k: int| 0 <= k < wanted@.len() && wanted@[k]@ == exe@,
{
    let mut k: usize = 0;
    while k < wanted.len()
        invariant
            k <= wanted.len(),
            forall|j: int| 0 <= j < k ==> wanted@[j]@ != exe@,
        decreases wanted.len() - k,
    {
        if wanted[k] == *exe {
            return true;
        }
        k = k + 1;
    }
    false
}

/// The reasons for the matching processes: every process other than the
/// current one whose executable name equals one of `process_names` without
/// regard to ASCII case, reported as `process:<name> pid=<id>`.
pub fn process_reasons(
    process_names: &[String],
    processes: &[ProcessEntry],
    current_process_id: u32,
) -> (reasons: Vec<String>)
    ensures
        reasons.deep_view() == process_reasons_of(
            process_names.deep_view(),
            processes@,
            current_process_id,
        ),
{
    let mut wanted: Vec<String> = Vec::new();
    let mut k: usize = 0;
    while k < process_names.len()
        invariant
            k <= process_names@.len(),
            wanted@.len() == k,
            forall|j: int| 0 <= j < k ==> wanted@[j]@ == ascii_lower(process_names@[j]@),
        decreases process_names@.len() - k,
    {
        wanted.push(to_ascii_lowercase(process_names[k].as_str()));
        k = k + 1;
    }
    let ghost names = process_names.deep_view();
    let mut reasons: Vec<String> = Vec::new();
    let mut i: usize = 0;
    while i < processes.len()
        invariant
            names == process_names.deep_view(),
            wanted@.len() == names.len(),
            forall|j: int| 0 <= j < names.len() ==> wanted@[j]@ == ascii_lower(names[j]),
            i <= processes@.len(),
            reasons.deep_view() == process_reasons_of(
                names,
                processes@.subrange(0, i as int),
                current_process_id,
            ),
        decreases processes@.len() - i,
    {
        let entry = &processes[i];
        let name = wide_array_to_string(entry.exe_file.as_slice());
        let exe = to_ascii_lowercase(name.as_str());
        let hit = wanted_contains(&wanted, &exe);
        proof {
            assert(processes@.subrange(0, i + 1).drop_last() =~= processes@.subrange(0, i as int));
            assert(hit == is_wanted(names, exe@)) by {
                if hit {
                    let k = choose|k: int| 0 <= k < wanted@.len() && wanted@[k]@ == exe@;
                    assert(ascii_lower(names[k]) == exe@);
                }
                if is_wanted(names, exe@) {
                    let k = choose|k: int| 0 <= k < names.len() && ascii_lower(names[k]) == exe@;
                    assert(wanted@[k]@ == exe@);
                }
            }
        }
        if entry.process_id != current_process_id && hit {
            let mut r = String::new();
            r.append("process:");
            r.append(exe.as_str());
            r.append(" pid=");
            push_decimal(&mut r, entry.process_id as u64);
            reasons.push(r);
            assert(reasons.deep_view() =~= process_reasons_of(
                names,
                processes@.subrange(0, i + 1),
                current_process_id,
            ));
        } else {
            assert(reasons.deep_view() =~= process_reasons_of(
                names,
                processes@.subrange(0, i + 1),
                current_process_id,
            ));
        }
        i = i + 1;
    }
    assert(processes@.subrange(0, processes@.len() as int) =~= processes@);
    reasons
}

/// The reasons for the window titles that name Netflix, reported as
/// `window:<title>`, in order.
pub fn window_title_reasons(window_titles: &[String]) -> (reasons: Vec<String>)
    ensures
        reasons.deep_view() == window_reasons_of(window_titles.deep_view()),
{
    let ghost titles = window_titles.deep_view();
    let mut reasons: Vec<String> = Vec::new();
    let mut i: usize = 0;
    while i < window_titles.len()
        invariant
            titles == window_titles.deep_view(),
            i <= titles.len(),
            reasons.deep_view() == window_reasons_of(titles.subrange(0, i as int)),
        decreases titles.len() - i,
    {
        let title = &window_titles[i];
        proof {
            assert(titles.subrange(0, i + 1).drop_last() =~= titles.subrange(0, i as int));
            assert(titles[i as int] == title@);
        }
        if is_netflix_window_title(title.as_str()) {
            let mut r = String::new();
            r.append("window:");
            r.append(title.as_str());
            reasons.push(r);
        }
        assert(reasons.deep_view() =~= window_reasons_of(titles.subrange(0, i + 1)));
        i = i + 1;
    }
    assert(titles.subrange(0, titles.len() as int) =~= titles);
    reasons
}

/// Whether a process other than the current one runs one of the wanted
/// executables.
pub fn process_match(process_names: &[String], processes: &[ProcessEntry], current_process_id: u32) -> (b: bool)
    ensures
        b == (process_reasons_of(process_names.deep_view(), processes@, current_process_id).len() > 0),
{
    let reasons = process_reasons(process_names, processes, current_process_id);
    reasons.len() > 0
}

/// Whether a window title names Netflix.
pub fn window_title_match(window_titles: &[String]) -> (b: bool)
    ensures
        b == (window_reasons_of(window_titles.deep_view()).len() > 0),
{
    let reasons = window_title_reasons(window_titles);
    reasons.len() > 0
}

/// Whether Netflix is running: a wanted process runs, or, when window titles
/// are consulted, a window title names Netflix.
pub fn is_netflix_running(
    process_names: &[String],
    detect_window_titles: bool,
    processes: &[ProcessEntry],
    current_process_id: u32,
    window_titles: &[String],
) -> (b: bool)
    ensures
        b == (process_reasons_of(process_names.deep_view(), processes@, current_process_id).len() > 0
            || (detect_window_titles && window_reasons_of(window_titles.deep_view()).len() > 0)),
{
    process_match(process_names, processes, current_process_id) || (detect_window_titles
        && window_title_match(window_titles))
}

/// Every reason to believe Netflix is running: the matching processes, then,
/// when window titles are consulted, the matching windows.
pub fn detection_reasons(
    process_names: &[String],
    detect_window_titles: bool,
    processes: &[ProcessEntry],
    current_process_id: u32,
    window_titles: &[String],
) -> (reasons: Vec<String>)
    ensures
        reasons.deep_view() == detection_reasons_of(
            process_names.deep_view(),
            detect_window_titles,
            processes@,
            current_process_id,
            window_titles.deep_view(),
        ),
{
    let mut reasons = process_reasons(process_names, processes, current_process_id);
    if detect_window_titles {
        let mut more = window_title_reasons(window_titles);
        let ghost before = reasons.deep_view();
        let ghost extra = more.deep_view();
        reasons.append(&mut more);
        assert(reasons.deep_view() =~= before + extra);
    } else {
        assert(reasons.deep_view() =~= reasons.deep_view() + Seq::<Seq<char>>::empty());
    }
    reasons
}

/// A title of this tool's own windows never counts as Netflix, whatever
/// else it says.
pub proof fn law_own_windows_never_count(title: Seq<char>)
    requires
        has_substring(ascii_lower(title), "hdr-netflix"@) || has_substring(ascii_lower(title), "hdr_netflix"@),
    ensures
        !netflix_window_title(title),
{
}

/// Netflix counts as running exactly when there is a reason to believe so.
pub proof fn law_running_iff_reasons(
    process_names: Seq<Seq<char>>,
    detect_window_titles: bool,
    processes: Seq<ProcessEntry>,
    current_process_id: u32,
    window_titles: Seq<Seq<char>>,
)
    ensures
        (process_reasons_of(process_names, processes, current_process_id).len() > 0 || (
        detect_window_titles && window_reasons_of(window_titles).len() > 0)) <==> detection_reasons_of(
            process_names,
            detect_window_titles,
            processes,
            current_process_id,
            window_titles,
        ).len() > 0,
{
}

/// A title whose lower-cased form, with `_` and `.` read as spaces, holds
/// ` - netflix` anywhere (as a browser tab's `<page> - Netflix - <browser>`
/// does) counts as Netflix, unless it names this tool.
pub proof fn law_netflix_inside_title_counts(title: Seq<char>, i: int)
    requires
        0 <= i,
        i + 10 <= title.len(),
        separators_as_spaces(ascii_lower(title)).subrange(i, i + 10) == " - netflix"@,
        !has_substring(ascii_lower(title), "hdr-netflix"@),
        !has_substring(ascii_lower(title), "hdr_netflix"@),
    ensures
        netflix_window_title(title),
{
    reveal_strlit(" - netflix");
    let normalized = separators_as_spaces(ascii_lower(title));
    assert(crate::text::occurs_at(normalized, " - netflix"@, i));
}

/// A title whose lower-cased form, with `_` and `.` read as spaces, is
/// `netflix` or begins with `netflix -` counts as Netflix, unless it names
/// this tool.
pub proof fn law_netflix_leading_title_counts(title: Seq<char>)
    requires
        separators_as_spaces(ascii_lower(title)) == "netflix"@ || (9 <= title.len()
            && separators_as_spaces(ascii_lower(title)).subrange(0, 9) == "netflix -"@),
        !has_substring(ascii_lower(title), "hdr-netflix"@),
        !has_substring(ascii_lower(title), "hdr_netflix"@),
    ensures
        netflix_window_title(title),
{
    reveal_strlit("netflix -");
    let normalized = separators_as_spaces(ascii_lower(title));
    if normalized != "netflix"@ {
        assert(crate::text::occurs_at(normalized, "netflix -"@, 0));
    }
}

/// The reasons for a list of processes are those for its first part, then
/// those for the rest: each process is judged on its own, in list order.
pub proof fn law_process_reasons_concat(
    process_names: Seq<Seq<char>>,
    a: Seq<ProcessEntry>,
    b: Seq<ProcessEntry>,
    current_process_id: u32,
)
    ensures
        process_reasons_of(process_names, a + b, current_process_id) == process_reasons_of(
            process_names,
            a,
            current_process_id,
        ) + process_reasons_of(process_names, b, current_process_id),
    decreases b.len(),
{
    if b.len() == 0 {
        assert(a + b =~= a);
        assert(process_reasons_of(process_names, a, current_process_id) + Seq::<Seq<char>>::empty()
            =~= process_reasons_of(process_names, a, current_process_id));
    } else {
        law_process_reasons_concat(process_names, a, b.drop_last(), current_process_id);
        assert((a + b).drop_last() =~= a + b.drop_last());
        assert((a + b).last() == b.last());
        let ra = process_reasons_of(process_names, a, current_process_id);
        let rb = process_reasons_of(process_names, b.drop_last(), current_process_id);
        assert((ra + rb).push(process_reason(entry_exe(b.last()), b.last().process_id)) =~= ra + rb.push(
            process_reason(entry_exe(b.last()), b.last().process_id),
        ));
    }
}

/// A single process gives a reason exactly when it is not the current
/// process and its executable name, lower-cased, is one of the wanted names
/// lower-cased; the reason is `process:<name> pid=<id>`.
pub proof fn law_process_reason_single(
    process_names: Seq<Seq<char>>,
    e: ProcessEntry,
    current_process_id: u32,
)
    ensures
        process_reasons_of(process_names, seq![e], current_process_id) == if e.process_id
            != current_process_id && exists|k: int|
            0 <= k < process_names.len() && ascii_lower(process_names[k]) == ascii_lower(
                utf16_lossy(before_nul(e.exe_file@)),
            ) {
            seq![
                "process:"@ + ascii_lower(utf16_lossy(before_nul(e.exe_file@))) + " pid="@ + decimal(
                    e.process_id as nat,
                ),
            ]
        } else {
            Seq::<Seq<char>>::empty()
        },
{
    assert(seq![e].drop_last() =~= Seq::<ProcessEntry>::empty());
    assert(seq![e].last() == e);
    assert(process_reasons_of(process_names, Seq::<ProcessEntry>::empty(), current_process_id)
        =~= Seq::<Seq<char>>::empty());
    let r = process_reason(entry_exe(e), e.process_id);
    assert(Seq::<Seq<char>>::empty().push(r) =~= seq![r]);
}

/// The reasons for a list of window titles are those for its first part,
/// then those for the rest: each title is judged on its own, in order.
pub proof fn law_window_reasons_concat(a: Seq<Seq<char>>, b: Seq<Seq<char>>)
    ensures
        window_reasons_of(a + b) == window_reasons_of(a) + window_reasons_of(b),
    decreases b.len(),
{
    if b.len() == 0 {
        assert(a + b =~= a);
        assert(window_reasons_of(a) + Seq::<Seq<char>>::empty() =~= window_reasons_of(a));
    } else {
        law_window_reasons_concat(a, b.drop_last());
        assert((a + b).drop_last() =~= a + b.drop_last());
        assert((a + b).last() == b.last());
        let ra = window_reasons_of(a);
        let rb = window_reasons_of(b.drop_last());
        assert((ra + rb).push("window:"@ + b.last()) =~= ra + rb.push("window:"@ + b.last()));
    }
}

/// A single title gives the reason `window:<title>` exactly when it names
/// Netflix.
pub proof fn law_window_reason_single(title: Seq<char>)
    ensures
        window_reasons_of(seq![title]) == if netflix_window_title(title) {
            seq!["window:"@ + title]
        } else {
            Seq::<Seq<char>>::empty()
        },
{
    assert(seq![title].drop_last() =~= Seq::<Seq<char>>::empty());
    assert(seq![title].last() == title);
    assert(window_reasons_of(Seq::<Seq<char>>::empty()) =~= Seq::<Seq<char>>::empty());
    assert(Seq::<Seq<char>>::empty().push("window:"@ + title) =~= seq!["window:"@ + title]);
}

/// A title counts as Netflix only in the three forms: after lower-casing,
/// and reading `_` and `.` as spaces, it is `netflix`, begins with
/// `netflix -`, or holds ` - netflix` somewhere. A title that merely
/// mentions Netflix does not count.
pub proof fn law_netflix_title_forms_only(title: Seq<char>)
    requires
        separators_as_spaces(ascii_lower(title)) != "netflix"@,
        !(9 <= title.len() && separators_as_spaces(ascii_lower(title)).subrange(0, 9) == "netflix -"@),
        forall|i: int|
            0 <= i && i + 10 <= title.len() ==> #[trigger] separators_as_spaces(ascii_lower(title)).subrange(
                i,
                i + 10,
            ) != " - netflix"@,
    ensures
        !netflix_window_title(title),
{
    reveal_strlit("netflix -");
    reveal_strlit(" - netflix");
    let normalized = separators_as_spaces(ascii_lower(title));
    assert(!has_prefix(normalized, "netflix -"@));
    assert(!has_substring(normalized, " - netflix"@)) by {
        if has_substring(normalized, " - netflix"@) {
            let i = choose|i: int| crate::text::occurs_at(normalized, " - netflix"@, i);
            assert(normalized.subrange(i, i + 10) == " - netflix"@);
        }
    }
}

} // verus!
