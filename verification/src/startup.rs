//! Starting with the system: whether the tool is registered to start at
//! login, and the procedure that registers or unregisters it.
//!
//! Registration is a value named after the tool under the user's `Run`
//! registry key; an older release used a shortcut in the Startup folder,
//! which is removed whenever registration changes.
use vstd::prelude::*;
use vstd::string::*;
use crate::text::{decimal, push_decimal, utf16_of, wide};

verus! {

/// The registry value name the tool registers under.
pub fn app_name() -> (s: &'static str)
    ensures
        s@ == "HDR Netflix"@,
{
    "HDR Netflix"
}

/// The per-user key whose values the system starts at login.
pub fn run_key() -> (s: &'static str)
    ensures
        s@ == "Software\\Microsoft\\Windows\\CurrentVersion\\Run"@,
{
    "Software\\Microsoft\\Windows\\CurrentVersion\\Run"
}

/// The system's success code.
pub const ERROR_SUCCESS: u32 = 0;

/// The system's "not found" code.
pub const ERROR_FILE_NOT_FOUND: u32 = 2;

/// The registry type of a string value.
pub const REG_SZ: u32 = 1;

/// Access right to read a key's values.
pub const KEY_QUERY_VALUE: u32 = 0x1;

/// Access right to write a key's values.
pub const KEY_SET_VALUE: u32 = 0x2;

/// `<call> failed with code <code>`.
pub open spec fn call_failed(call: Seq<char>, code: u32) -> Seq<char> {
    call + " failed with code "@ + decimal(code as nat)
}

fn call_failure(call: &str, code: u32) -> (e: String)
    ensures
        e@ == call_failed(call@, code),
{
    let mut e = String::from_str(call);
    e.append(" failed with code ");
    push_decimal(&mut e, code as u64);
    e
}

/// What a reading of the tool's registry value reports: present when found
/// as a string value, absent when found otherwise or not found, else a
/// failure.
pub open spec fn lookup_of(code: u32, value_type: u32) -> Result<bool, Seq<char>> {
    if code == ERROR_SUCCESS {
        Ok(value_type == REG_SZ)
    } else if code == ERROR_FILE_NOT_FOUND {
        Ok(false)
    } else {
        Err(call_failed("RegGetValueW"@, code))
    }
}

/// Whether the tool counts as starting with the system, from a reading of
/// its registry value and whether the old shortcut exists.
pub open spec fn enabled_of(reading: Result<bool, Seq<char>>, legacy_shortcut_exists: bool) -> bool {
    reading == Ok::<bool, Seq<char>>(true) || legacy_shortcut_exists
}

/// A reading as a mathematical value.
pub open spec fn reading_view(r: Result<bool, String>) -> Result<bool, Seq<char>> {
    match r {
        Ok(b) => Ok(b),
        Err(e) => Err(e@),
    }
}

/// Whether the registry holds the tool's start-up value, from the outcome
/// of reading it: present as a string value, absent, or a failure.
pub fn registry_lookup(code: u32, value_type: u32) -> (r: Result<bool, String>)
    ensures
        reading_view(r) == lookup_of(code, value_type),
{
    if code == ERROR_SUCCESS {
        Ok(value_type == REG_SZ)
    } else if code == ERROR_FILE_NOT_FOUND {
        Ok(false)
    } else {
        Err(call_failure("RegGetValueW", code))
    }
}

/// Whether the tool starts with the system: its registry value is present
/// (an unreadable registry counts as absent), or the old start-up shortcut
/// exists.
pub fn is_enabled(registry_value: Result<bool, String>, legacy_shortcut_exists: bool) -> (b: bool)
    ensures
        b == enabled_of(reading_view(registry_value), legacy_shortcut_exists),
{
    let present = match registry_value {
        Ok(p) => p,
        Err(_) => false,
    };
    present || legacy_shortcut_exists
}

/// Where a start-up change stands.
#[derive(Clone, Copy, PartialEq, Eq, Structural)]
pub enum StartupStage {
    RemovingLegacy,
    ResolvingExe,
    OpeningKey,
    Writing,
    Deleting,
    Finished,
}

/// What the caller reports back to a start-up change.
pub enum StartupEvent {
    /// The old start-up shortcut was removed if it existed.
    LegacyRemoved,
    /// The path of the running executable, or why it is unknown.
    ExeResolved(Result<String, String>),
    /// The status code of opening the `Run` key.
    KeyOpened(u32),
    /// The status code of writing the value.
    ValueWritten(u32),
    /// The status code of deleting the value.
    ValueDeleted(u32),
}

/// What a start-up change asks the caller to do next.
pub enum StartupAction {
    /// Find the path of the running executable.
    ResolveExe,
    /// Open the `Run` key with these access rights.
    OpenRunKey(u32),
    /// Write the value `name`, of registry type `value_type`, with `data`
    /// (zero-terminated UTF-16, `bytes` long) under the open key.
    WriteValue { name: Vec<u16>, value_type: u32, data: Vec<u16>, bytes: u32 },
    /// Delete the value `name` under the open key.
    DeleteValue { name: Vec<u16> },
    /// The change is over, with this outcome.
    Finish(Result<(), String>),
}

/// A start-up event as a mathematical value.
pub enum StartupEventView {
    LegacyRemoved,
    ExeResolved(Result<Seq<char>, Seq<char>>),
    KeyOpened(u32),
    ValueWritten(u32),
    ValueDeleted(u32),
}

/// A start-up action as a mathematical value.
pub enum StartupActionView {
    ResolveExe,
    OpenRunKey(u32),
    WriteValue { name: Seq<u16>, value_type: u32, data: Seq<u16>, bytes: u32 },
    DeleteValue { name: Seq<u16> },
    Finish(Result<(), Seq<char>>),
}

impl View for StartupEvent {
    type V = StartupEventView;

    open spec fn view(&self) -> StartupEventView {
        match self {
            StartupEvent::LegacyRemoved => StartupEventView::LegacyRemoved,
            StartupEvent::ExeResolved(Ok(p)) => StartupEventView::ExeResolved(Ok(p@)),
            StartupEvent::ExeResolved(Err(e)) => StartupEventView::ExeResolved(Err(e@)),
            StartupEvent::KeyOpened(c) => StartupEventView::KeyOpened(*c),
            StartupEvent::ValueWritten(c) => StartupEventView::ValueWritten(*c),
            StartupEvent::ValueDeleted(c) => StartupEventView::ValueDeleted(*c),
        }
    }
}

impl View for StartupAction {
    type V = StartupActionView;

    open spec fn view(&self) -> StartupActionView {
        match self {
            StartupAction::ResolveExe => StartupActionView::ResolveExe,
            StartupAction::OpenRunKey(a) => StartupActionView::OpenRunKey(*a),
            StartupAction::WriteValue { name, value_type, data, bytes } => StartupActionView::WriteValue {
                name: name@,
                value_type: *value_type,
                data: data@,
                bytes: *bytes,
            },
            StartupAction::DeleteValue { name } => StartupActionView::DeleteValue { name: name@ },
            StartupAction::Finish(Ok(())) => StartupActionView::Finish(Ok(())),
            StartupAction::Finish(Err(e)) => StartupActionView::Finish(Err(e@)),
        }
    }
}

/// Registering (`enabled`) or unregistering the tool to start at login.
pub struct StartupChange {
    enabled: bool,
    stage: StartupStage,
    command: Vec<u16>,
}

/// A start-up change as a mathematical value.
pub struct StartupChangeView {
    pub enabled: bool,
    pub stage: StartupStage,
    /// The command to register, once known (zero-terminated UTF-16).
    pub command: Seq<u16>,
}

impl View for StartupChange {
    type V = StartupChangeView;

    closed spec fn view(&self) -> StartupChangeView {
        StartupChangeView { enabled: self.enabled, stage: self.stage, command: self.command@ }
    }
}

/// The command line registered for a executable path: the path in double
/// quotes.
pub open spec fn quoted(path: Seq<char>) -> Seq<char> {
    "\""@ + path + "\""@
}

/// The byte length that a system call is given for `units` UTF-16 units,
/// kept to 32 bits.
pub open spec fn byte_len(units: nat) -> u32 {
    ((units * 2) % 0x1_0000_0000) as u32
}

/// The stage in which a change takes the event.
pub open spec fn startup_accepts(stage: StartupStage, e: StartupEventView) -> bool {
    match e {
        StartupEventView::LegacyRemoved => stage == StartupStage::RemovingLegacy,
        StartupEventView::ExeResolved(_) => stage == StartupStage::ResolvingExe,
        StartupEventView::KeyOpened(_) => stage == StartupStage::OpeningKey,
        StartupEventView::ValueWritten(_) => stage == StartupStage::Writing,
        StartupEventView::ValueDeleted(_) => stage == StartupStage::Deleting,
    }
}

/// One step of a start-up change: the next state and what to do next.
pub open spec fn startup_next(s: StartupChangeView, e: StartupEventView) -> (StartupChangeView, StartupActionView) {
    let finished = StartupChangeView { stage: StartupStage::Finished, ..s };
    match e {
        StartupEventView::LegacyRemoved => if s.enabled {
            (StartupChangeView { stage: StartupStage::ResolvingExe, ..s }, StartupActionView::ResolveExe)
        } else {
            (
                StartupChangeView { stage: StartupStage::OpeningKey, ..s },
                StartupActionView::OpenRunKey(KEY_SET_VALUE | KEY_QUERY_VALUE),
            )
        },
        StartupEventView::ExeResolved(Err(err)) => (
            finished,
            StartupActionView::Finish(Err("current_exe failed: "@ + err)),
        ),
        StartupEventView::ExeResolved(Ok(path)) => (
            StartupChangeView {
                stage: StartupStage::OpeningKey,
                command: utf16_of(quoted(path)).push(0u16),
                ..s
            },
            StartupActionView::OpenRunKey(KEY_SET_VALUE),
        ),
        StartupEventView::KeyOpened(code) => if code != ERROR_SUCCESS {
            (finished, StartupActionView::Finish(Err(call_failed("RegOpenKeyExW"@, code))))
        } else if s.enabled {
            (
                StartupChangeView { stage: StartupStage::Writing, ..s },
                StartupActionView::WriteValue {
                    name: utf16_of("HDR Netflix"@).push(0u16),
                    value_type: REG_SZ,
                    data: s.command,
                    bytes: byte_len(s.command.len()),
                },
            )
        } else {
            (
                StartupChangeView { stage: StartupStage::Deleting, ..s },
                StartupActionView::DeleteValue { name: utf16_of("HDR Netflix"@).push(0u16) },
            )
        },
        StartupEventView::ValueWritten(code) => if code == ERROR_SUCCESS {
            (finished, StartupActionView::Finish(Ok(())))
        } else {
            (finished, StartupActionView::Finish(Err(call_failed("RegSetValueExW"@, code))))
        },
        StartupEventView::ValueDeleted(code) => if code == ERROR_SUCCESS || code
            == ERROR_FILE_NOT_FOUND {
            (finished, StartupActionView::Finish(Ok(())))
        } else {
            (finished, StartupActionView::Finish(Err(call_failed("RegDeleteValueW"@, code))))
        },
    }
}

fn units_byte_len(units: &Vec<u16>) -> (b: u32)
    ensures
        b == byte_len(units@.len()),
{
    let n: usize = units.len();
    let half: u64 = (n as u64) % 0x8000_0000u64;
    let b: u32 = (half * 2) as u32;
    assert((n as int * 2) % 0x1_0000_0000 == (n as int % 0x8000_0000) * 2) by (nonlinear_arith)
        requires
            n >= 0,
    ;
    b
}

impl StartupChange {
    /// Whether the change can take the event now.
    pub fn accepts(&self, event: &StartupEvent) -> (b: bool)
        ensures
            b == startup_accepts(self@.stage, event@),
    {
        match event {
            StartupEvent::LegacyRemoved => self.stage == StartupStage::RemovingLegacy,
            StartupEvent::ExeResolved(_) => self.stage == StartupStage::ResolvingExe,
            StartupEvent::KeyOpened(_) => self.stage == StartupStage::OpeningKey,
            StartupEvent::ValueWritten(_) => self.stage == StartupStage::Writing,
            StartupEvent::ValueDeleted(_) => self.stage == StartupStage::Deleting,
        }
    }

    /// Takes the outcome of the last request and names the next one.
    pub fn advance(&mut self, event: StartupEvent) -> (action: StartupAction)
        requires
            startup_accepts(old(self)@.stage, event@),
        ensures
            (final(self)@, action@) == startup_next(old(self)@, event@),
    {
        match event {
            StartupEvent::LegacyRemoved => {
                if self.enabled {
                    self.stage = StartupStage::ResolvingExe;
                    StartupAction::ResolveExe
                } else {
                    self.stage = StartupStage::OpeningKey;
                    StartupAction::OpenRunKey(KEY_SET_VALUE | KEY_QUERY_VALUE)
                }
            },
            StartupEvent::ExeResolved(Err(err)) => {
                self.stage = StartupStage::Finished;
                let mut e = String::from_str("current_exe failed: ");
                e.append(err.as_str());
                StartupAction::Finish(Err(e))
            },
            StartupEvent::ExeResolved(Ok(path)) => {
                let mut command = String::from_str("\"");
                command.append(path.as_str());
                command.append("\"");
                self.command = wide(command.as_str());
                self.stage = StartupStage::OpeningKey;
                StartupAction::OpenRunKey(KEY_SET_VALUE)
            },
            StartupEvent::KeyOpened(code) => {
                if code != ERROR_SUCCESS {
                    self.stage = StartupStage::Finished;
                    StartupAction::Finish(Err(call_failure("RegOpenKeyExW", code)))
                } else if self.enabled {
                    self.stage = StartupStage::Writing;
                    let data = self.command.clone();
                    assert(data@ == self.command@);
                    let bytes = units_byte_len(&data);
                    StartupAction::WriteValue { name: wide(app_name()), value_type: REG_SZ, data, bytes }
                } else {
                    self.stage = StartupStage::Deleting;
                    StartupAction::DeleteValue { name: wide(app_name()) }
                }
            },
            StartupEvent::ValueWritten(code) => {
                self.stage = StartupStage::Finished;
                if code == ERROR_SUCCESS {
                    StartupAction::Finish(Ok(()))
                } else {
                    StartupAction::Finish(Err(call_failure("RegSetValueExW", code)))
                }
            },
            StartupEvent::ValueDeleted(code) => {
                self.stage = StartupStage::Finished;
                if code == ERROR_SUCCESS || code == ERROR_FILE_NOT_FOUND {
                    StartupAction::Finish(Ok(()))
                } else {
                    StartupAction::Finish(Err(call_failure("RegDeleteValueW", code)))
                }
            },
        }
    }
}

/// Starts registering (`enabled`) or unregistering the tool to start at
/// login. The caller first removes the old start-up shortcut if it exists
/// and reports `StartupEvent::LegacyRemoved`.
pub fn set_enabled(enabled: bool) -> (c: StartupChange)
    ensures
        c@.enabled == enabled,
        c@.stage == StartupStage::RemovingLegacy,
        c@.command.len() == 0,
{
    let c = StartupChange { enabled, stage: StartupStage::RemovingLegacy, command: Vec::new() };
    c
}

/// Registration writes the quoted path of the running executable under the
/// tool's name, and succeeds exactly when the write does.
pub proof fn law_registration_writes_quoted_exe(enabled: bool, command: Seq<u16>, path: Seq<char>, code: u32)
    requires
        enabled,
    ensures
        ({
            let s0 = StartupChangeView { enabled, stage: StartupStage::ResolvingExe, command };
            let s1 = startup_next(s0, StartupEventView::ExeResolved(Ok(path))).0;
            let a2 = startup_next(s1, StartupEventView::KeyOpened(ERROR_SUCCESS)).1;
            let s2 = startup_next(s1, StartupEventView::KeyOpened(ERROR_SUCCESS)).0;
            &&& a2 == StartupActionView::WriteValue {
                name: utf16_of("HDR Netflix"@).push(0u16),
                value_type: REG_SZ,
                data: utf16_of(quoted(path)).push(0u16),
                bytes: byte_len(utf16_of(quoted(path)).len() + 1),
            }
            &&& startup_next(s2, StartupEventView::ValueWritten(code)).1 == StartupActionView::Finish(
                if code == ERROR_SUCCESS {
                    Ok(())
                } else {
                    Err(call_failed("RegSetValueExW"@, code))
                },
            )
        }),
{
}

/// The registration round trip. Registering writes a string value under the
/// tool's name (the value `registry_lookup` reads), and a reading that finds
/// a string value reports the tool enabled. Unregistering first removes the
/// old shortcut, then deletes that value, and a reading that finds no value
/// (with the shortcut gone) reports it disabled.
pub proof fn law_startup_round_trip(s: StartupChangeView, legacy_shortcut_exists: bool)
    requires
        s.stage == StartupStage::OpeningKey,
    ensures
        s.enabled ==> (startup_next(s, StartupEventView::KeyOpened(ERROR_SUCCESS)).1 matches StartupActionView::WriteValue {
            name,
            value_type,
            ..
        } && name == utf16_of("HDR Netflix"@).push(0u16) && value_type == REG_SZ),
        !s.enabled ==> (startup_next(s, StartupEventView::KeyOpened(ERROR_SUCCESS)).1 matches StartupActionView::DeleteValue {
            name,
        } && name == utf16_of("HDR Netflix"@).push(0u16)),
        enabled_of(lookup_of(ERROR_SUCCESS, REG_SZ), legacy_shortcut_exists),
        !enabled_of(lookup_of(ERROR_FILE_NOT_FOUND, REG_SZ), false),
        startup_next(
            StartupChangeView { enabled: false, stage: StartupStage::RemovingLegacy, command: s.command },
            StartupEventView::LegacyRemoved,
        ).1 == StartupActionView::OpenRunKey(KEY_SET_VALUE | KEY_QUERY_VALUE),
{
}

/// Unregistering succeeds when the value is deleted or was never there.
pub proof fn law_unregistering_tolerates_absence(command: Seq<u16>)
    ensures
        ({
            let s = StartupChangeView { enabled: false, stage: StartupStage::Deleting, command };
            &&& startup_next(s, StartupEventView::ValueDeleted(ERROR_SUCCESS)).1
                == StartupActionView::Finish(Ok(()))
            &&& startup_next(s, StartupEventView::ValueDeleted(ERROR_FILE_NOT_FOUND)).1
                == StartupActionView::Finish(Ok(()))
        }),
{
}

} // verus!
