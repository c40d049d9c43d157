//! The shared application state and the watcher's decisions: from what was
//! seen (is Netflix running, what HDR state the displays are in) to what to
//! do about HDR.
use vstd::prelude::*;
use vstd::string::*;
use crate::config::Config;
use crate::hdr::{AdvancedColorStatus, StatusView};

verus! {

/// The state shared by the watcher and the tray menu.
#[derive(Debug)]
pub struct AppState {
    pub config: Config,
    /// Netflix was running at the watcher's last look.
    pub netflix_running: bool,
    /// HDR was last turned on by this tool (and not turned off since).
    pub hdr_active_by_app: bool,
    /// The last failure to report, if any.
    pub last_error: Option<String>,
    /// The tool is shutting down.
    pub exiting: bool,
}

impl Default for AppState {
    /// The default settings; nothing seen yet, nothing turned on, no failure.
    fn default() -> (s: Self)
        ensures
            s.config.auto_enabled,
            s.config.poll_interval_ms == 1500,
            s.config.turn_off_when_netflix_closes,
            s.config.selected_targets@.len() == 0,
            s.config.process_names.deep_view() == seq![crate::config::default_process_name()],
            s.config.detect_window_titles,
            !s.netflix_running,
            !s.hdr_active_by_app,
            s.last_error is None,
            !s.exiting,
    {
        AppState {
            config: Config::default(),
            netflix_running: false,
            hdr_active_by_app: false,
            last_error: None,
            exiting: false,
        }
    }
}

/// Whether any controlled display has HDR on, and whether all have.
#[derive(Debug, Clone, Copy, PartialEq, Eq, Structural)]
pub struct HdrState {
    pub any_on: bool,
    pub all_on: bool,
}

/// A display whose HDR state counts: it supports HDR and is not forced off.
pub open spec fn counts(s: StatusView) -> bool {
    s.supported && !s.force_disabled
}

/// Some display counts.
pub open spec fn some_counts(ss: Seq<StatusView>) -> bool {
    exists|i: int| 0 <= i < ss.len() && counts(ss[i])
}

/// Some display that counts has HDR on.
pub open spec fn some_on(ss: Seq<StatusView>) -> bool {
    exists|i: int| 0 <= i < ss.len() && counts(ss[i]) && ss[i].enabled
}

/// Every display that counts has HDR on.
pub open spec fn every_on(ss: Seq<StatusView>) -> bool {
    forall|i: int| 0 <= i < ss.len() && counts(ss[i]) ==> ss[i].enabled
}

/// The HDR state of the controlled displays, from their states: when the
/// states could not be read, or no display counts, HDR is neither on
/// anywhere nor everywhere.
pub fn configured_hdr_state(statuses: &Result<Vec<AdvancedColorStatus>, String>) -> (h: HdrState)
    ensures
        match statuses {
            Ok(v) => {
                &&& h.any_on == some_on(v.deep_view())
                &&& h.all_on == (some_counts(v.deep_view()) && every_on(v.deep_view()))
            },
            Err(_) => !h.any_on && !h.all_on,
        },
{
    match statuses {
        Err(_) => HdrState { any_on: false, all_on: false },
        Ok(v) => {
            let ghost ss = v.deep_view();
            let mut any_counts = false;
            let mut any_on = false;
            let mut all_on = true;
            let mut i: usize = 0;
            while i < v.len()
                invariant
                    ss == v.deep_view(),
                    i <= ss.len(),
                    any_counts == exists|j: int| 0 <= j < i && counts(ss[j]),
                    any_on == exists|j: int| 0 <= j < i && counts(ss[j]) && ss[j].enabled,
                    all_on == forall|j: int| 0 <= j < i && counts(ss[j]) ==> ss[j].enabled,
                decreases ss.len() - i,
            {
                let s = &v[i];
                assert(ss[i as int] == s@);
                if s.supported && !s.force_disabled {
                    any_counts = true;
                    if s.enabled {
                        any_on = true;
                    } else {
                        all_on = false;
                    }
                }
                i = i + 1;
            }
            HdrState { any_on, all_on: any_counts && all_on }
        },
    }
}

/// What the watcher does about HDR after a look.
#[derive(Debug, Clone, Copy, PartialEq, Eq, Structural)]
pub enum WatchAction {
    /// Switch HDR on for the selected displays.
    TurnHdrOn,
    /// HDR is already on: record that this tool keeps it on.
    MarkHdrActive,
    /// Switch HDR off for the selected displays.
    TurnHdrOff,
    /// Leave everything as it is.
    Nothing,
}

/// The watcher's decision table.
pub open spec fn watch_rule(
    auto_enabled: bool,
    turn_off_when_netflix_closes: bool,
    hdr_active_by_app: bool,
    running: bool,
    hdr: HdrState,
) -> WatchAction {
    if auto_enabled && running && (!hdr_active_by_app || !hdr.all_on) {
        WatchAction::TurnHdrOn
    } else if auto_enabled && running && hdr.any_on {
        WatchAction::MarkHdrActive
    } else if (!running || !auto_enabled) && turn_off_when_netflix_closes && (hdr_active_by_app
        || hdr.any_on) {
        WatchAction::TurnHdrOff
    } else {
        WatchAction::Nothing
    }
}

/// What the watcher does after a look: with automatic switching on and
/// Netflix running, switch HDR on unless this tool already holds it on
/// everywhere; once Netflix is gone (or automatic switching is off), switch
/// it off if so configured and it is on or was turned on by this tool.
pub fn watch_decision(config: &Config, hdr_active_by_app: bool, running: bool, hdr: HdrState) -> (a: WatchAction)
    ensures
        a == watch_rule(
            config.auto_enabled,
            config.turn_off_when_netflix_closes,
            hdr_active_by_app,
            running,
            hdr,
        ),
{
    let needs_hdr_on = config.auto_enabled && running && (!hdr_active_by_app || !hdr.all_on);
    if needs_hdr_on {
        WatchAction::TurnHdrOn
    } else if config.auto_enabled && running && hdr.any_on {
        WatchAction::MarkHdrActive
    } else if (!running || !config.auto_enabled) && config.turn_off_when_netflix_closes && (
    hdr_active_by_app || hdr.any_on) {
        WatchAction::TurnHdrOff
    } else {
        WatchAction::Nothing
    }
}

/// One look of the watcher, applied to the shared state: it decides what to
/// do about HDR from what was seen, records that this tool holds HDR when it
/// is already on (clearing the last failure), and records whether Netflix
/// runs. Switching HDR on or off is left to the caller, who records the
/// outcome with `apply_hdr_change`.
pub fn watch_step(state: &mut AppState, running: bool, hdr: HdrState) -> (a: WatchAction)
    ensures
        a == watch_rule(
            old(state).config.auto_enabled,
            old(state).config.turn_off_when_netflix_closes,
            old(state).hdr_active_by_app,
            running,
            hdr,
        ),
        final(state).netflix_running == running,
        a == WatchAction::MarkHdrActive ==> final(state).hdr_active_by_app && final(state).last_error is None,
        a != WatchAction::MarkHdrActive ==> final(state).hdr_active_by_app == old(state).hdr_active_by_app
            && final(state).last_error == old(state).last_error,
        final(state).config == old(state).config,
        final(state).exiting == old(state).exiting,
{
    let a = watch_decision(&state.config, state.hdr_active_by_app, running, hdr);
    if a == WatchAction::MarkHdrActive {
        mark_hdr_active(state, true, None);
    }
    state.netflix_running = running;
    a
}

/// How long the watcher waits between looks: the configured interval, but
/// never less than 500 ms.
pub fn poll_delay_ms(config: &Config) -> (ms: u64)
    ensures
        ms == if config.poll_interval_ms < 500 { 500 } else { config.poll_interval_ms },
{
    if config.poll_interval_ms < 500 {
        500
    } else {
        config.poll_interval_ms
    }
}

/// Records whether this tool holds HDR on, and the last failure.
pub fn mark_hdr_active(state: &mut AppState, active: bool, last_error: Option<String>)
    ensures
        final(state).hdr_active_by_app == active,
        final(state).last_error == last_error,
        final(state).config == old(state).config,
        final(state).netflix_running == old(state).netflix_running,
        final(state).exiting == old(state).exiting,
{
    state.hdr_active_by_app = active;
    state.last_error = last_error;
}

/// Records the outcome of the watcher's HDR switch: HDR counts as held by
/// this tool when it was switched on without failure; a failure is kept.
pub fn apply_hdr_change(state: &mut AppState, enable: bool, result: Result<(), String>)
    ensures
        final(state).hdr_active_by_app == (enable && result is Ok),
        final(state).last_error == match result {
            Ok(()) => None,
            Err(e) => Some(e),
        },
        final(state).config == old(state).config,
        final(state).netflix_running == old(state).netflix_running,
        final(state).exiting == old(state).exiting,
{
    let ok = result.is_ok();
    let last_error = match result {
        Ok(()) => None,
        Err(e) => Some(e),
    };
    mark_hdr_active(state, enable && ok, last_error);
}

/// Records the outcome of switching HDR from the menu: on success this tool
/// holds HDR as requested and no failure is left; a failure only is kept.
pub fn set_manual_hdr(state: &mut AppState, enable: bool, result: Result<(), String>)
    ensures
        match result {
            Ok(()) => final(state).hdr_active_by_app == enable && final(state).last_error is None,
            Err(e) => final(state).hdr_active_by_app == old(state).hdr_active_by_app
                && final(state).last_error == Some(e),
        },
        final(state).config == old(state).config,
        final(state).netflix_running == old(state).netflix_running,
        final(state).exiting == old(state).exiting,
{
    match result {
        Ok(()) => {
            state.hdr_active_by_app = enable;
            state.last_error = None;
        },
        Err(e) => {
            state.last_error = Some(e);
        },
    }
}

/// Records the outcome of changing start-up registration: success clears
/// the last failure, a failure replaces it.
pub fn record_startup_change(state: &mut AppState, result: Result<(), String>)
    ensures
        final(state).last_error == match result {
            Ok(()) => None,
            Err(e) => Some(e),
        },
        final(state).config == old(state).config,
        final(state).netflix_running == old(state).netflix_running,
        final(state).hdr_active_by_app == old(state).hdr_active_by_app,
        final(state).exiting == old(state).exiting,
{
    state.last_error = match result {
        Ok(()) => None,
        Err(e) => Some(e),
    };
}

/// Records the outcome of saving the settings after a selection change:
/// success clears the last failure, a failure is kept as
/// `Save config failed: <error>`.
pub fn record_save(state: &mut AppState, result: Result<(), String>)
    ensures
        match result {
            Ok(()) => final(state).last_error is None,
            Err(e) => final(state).last_error matches Some(m) && m@ == "Save config failed: "@ + e@,
        },
        final(state).config == old(state).config,
        final(state).netflix_running == old(state).netflix_running,
        final(state).hdr_active_by_app == old(state).hdr_active_by_app,
        final(state).exiting == old(state).exiting,
{
    match result {
        Ok(()) => {
            state.last_error = None;
        },
        Err(e) => {
            let mut m = String::from_str("Save config failed: ");
            m.append(e.as_str());
            state.last_error = Some(m);
        },
    }
}

/// Flips automatic switching.
pub fn toggle_auto(state: &mut AppState)
    ensures
        final(state).config.auto_enabled == !old(state).config.auto_enabled,
        final(state).config.poll_interval_ms == old(state).config.poll_interval_ms,
        final(state).config.turn_off_when_netflix_closes == old(state).config.turn_off_when_netflix_closes,
        final(state).config.selected_targets == old(state).config.selected_targets,
        final(state).config.process_names == old(state).config.process_names,
        final(state).config.detect_window_titles == old(state).config.detect_window_titles,
        final(state).netflix_running == old(state).netflix_running,
        final(state).hdr_active_by_app == old(state).hdr_active_by_app,
        final(state).last_error == old(state).last_error,
        final(state).exiting == old(state).exiting,
{
    state.config.auto_enabled = !state.config.auto_enabled;
}

/// A request to switch HDR on (`enable`) or off for a selection of displays.
pub struct HdrRequest {
    pub enable: bool,
    pub selected_targets: Vec<String>,
}

/// Starts quitting: the tool is marked as exiting (so the watcher stops
/// before anything else happens), and the next step is to switch HDR off
/// for the saved selection, whose outcome `set_manual_hdr` records.
pub fn quit(state: &mut AppState) -> (next: HdrRequest)
    ensures
        final(state).exiting,
        !next.enable,
        next.selected_targets.deep_view() == old(state).config.selected_targets.deep_view(),
        final(state).config == old(state).config,
        final(state).netflix_running == old(state).netflix_running,
        final(state).hdr_active_by_app == old(state).hdr_active_by_app,
        final(state).last_error == old(state).last_error,
{
    state.exiting = true;
    let mut selected_targets: Vec<String> = Vec::new();
    let mut i: usize = 0;
    while i < state.config.selected_targets.len()
        invariant
            i <= state.config.selected_targets@.len(),
            selected_targets.deep_view() == state.config.selected_targets.deep_view().subrange(0, i as int),
        decreases state.config.selected_targets@.len() - i,
    {
        let ghost before = selected_targets.deep_view();
        let t = state.config.selected_targets[i].clone();
        selected_targets.push(t);
        assert(selected_targets.deep_view() =~= before.push(state.config.selected_targets@[i as int]@));
        assert(selected_targets.deep_view() =~= state.config.selected_targets.deep_view().subrange(0, i + 1));
        i = i + 1;
    }
    assert(selected_targets.deep_view() =~= state.config.selected_targets.deep_view());
    HdrRequest { enable: false, selected_targets }
}

/// With automatic switching on, Netflix running and HDR not on everywhere,
/// the watcher switches HDR on.
pub proof fn law_netflix_open_turns_hdr_on(
    turn_off_when_netflix_closes: bool,
    hdr_active_by_app: bool,
    hdr: HdrState,
)
    requires
        !hdr.all_on,
    ensures
        watch_rule(true, turn_off_when_netflix_closes, hdr_active_by_app, true, hdr)
            == WatchAction::TurnHdrOn,
{
}

/// Once Netflix is gone, with switching off on close configured, the
/// watcher switches HDR off whenever it is on somewhere or was turned on by
/// this tool, and otherwise leaves it alone.
pub proof fn law_netflix_closed_turns_hdr_off(auto_enabled: bool, hdr_active_by_app: bool, hdr: HdrState)
    ensures
        watch_rule(auto_enabled, true, hdr_active_by_app, false, hdr) == if hdr_active_by_app
            || hdr.any_on {
            WatchAction::TurnHdrOff
        } else {
            WatchAction::Nothing
        },
{
}

/// Without switching off on close, the watcher never switches HDR off.
pub proof fn law_never_off_unless_configured(
    auto_enabled: bool,
    hdr_active_by_app: bool,
    running: bool,
    hdr: HdrState,
)
    ensures
        watch_rule(auto_enabled, false, hdr_active_by_app, running, hdr) != WatchAction::TurnHdrOff,
{
}

/// With automatic switching off, the watcher never switches HDR on.
pub proof fn law_never_on_when_auto_disabled(
    turn_off_when_netflix_closes: bool,
    hdr_active_by_app: bool,
    running: bool,
    hdr: HdrState,
)
    ensures
        watch_rule(false, turn_off_when_netflix_closes, hdr_active_by_app, running, hdr)
            != WatchAction::TurnHdrOn,
{
}

/// Once this tool has switched HDR on and it is on everywhere, the watcher
/// keeps it as it is while Netflix runs.
pub proof fn law_steady_while_running(turn_off_when_netflix_closes: bool, hdr: HdrState)
    requires
        hdr.all_on,
        hdr.any_on,
    ensures
        watch_rule(true, turn_off_when_netflix_closes, true, true, hdr) == WatchAction::MarkHdrActive,
{
}

/// The watcher switches HDR on only while Netflix runs and automatic
/// switching is on, and holds it only while Netflix runs with HDR on
/// somewhere; it switches HDR off only when so configured and only once
/// Netflix is gone or automatic switching is off.
pub proof fn law_watch_acts_only_when_due(
    auto_enabled: bool,
    turn_off_when_netflix_closes: bool,
    hdr_active_by_app: bool,
    running: bool,
    hdr: HdrState,
)
    ensures
        watch_rule(auto_enabled, turn_off_when_netflix_closes, hdr_active_by_app, running, hdr)
            == WatchAction::TurnHdrOn ==> auto_enabled && running,
        watch_rule(auto_enabled, turn_off_when_netflix_closes, hdr_active_by_app, running, hdr)
            == WatchAction::MarkHdrActive ==> auto_enabled && running && hdr.any_on,
        watch_rule(auto_enabled, turn_off_when_netflix_closes, hdr_active_by_app, running, hdr)
            == WatchAction::TurnHdrOff ==> turn_off_when_netflix_closes && !(auto_enabled && running),
{
}

/// While Netflix is not running the watcher never switches HDR on, whatever
/// the configuration and the displays' state.
pub proof fn law_never_on_while_closed(
    auto_enabled: bool,
    turn_off_when_netflix_closes: bool,
    hdr_active_by_app: bool,
    hdr: HdrState,
)
    ensures
        watch_rule(auto_enabled, turn_off_when_netflix_closes, hdr_active_by_app, false, hdr)
            != WatchAction::TurnHdrOn,
{
}

/// With no display, HDR is on nowhere and (vacuously) everywhere, and no
/// display counts.
pub proof fn law_hdr_state_empty()
    ensures
        !some_on(Seq::<StatusView>::empty()),
        !some_counts(Seq::<StatusView>::empty()),
        every_on(Seq::<StatusView>::empty()),
{
}

/// How one more display changes the HDR state: it matters only when it
/// supports HDR and is not forced off; then HDR is on somewhere if it is on
/// there, and on everywhere only if it is on there too.
pub proof fn law_hdr_state_push(ss: Seq<StatusView>, x: StatusView)
    ensures
        some_on(ss.push(x)) == (some_on(ss) || (x.supported && !x.force_disabled && x.enabled)),
        some_counts(ss.push(x)) == (some_counts(ss) || (x.supported && !x.force_disabled)),
        every_on(ss.push(x)) == (every_on(ss) && (x.supported && !x.force_disabled ==> x.enabled)),
{
    let t = ss.push(x);
    assert(t[ss.len() as int] == x);
    assert(forall|i: int| 0 <= i < ss.len() ==> t[i] == ss[i]);
    if some_on(ss) {
        let i = choose|i: int| 0 <= i < ss.len() && counts(ss[i]) && ss[i].enabled;
        assert(t[i] == ss[i]);
    }
    if some_counts(ss) {
        let i = choose|i: int| 0 <= i < ss.len() && counts(ss[i]);
        assert(t[i] == ss[i]);
    }
    if every_on(t) {
        assert forall|i: int| 0 <= i < ss.len() && counts(ss[i]) implies ss[i].enabled by {
            assert(t[i] == ss[i]);
        }
    }
}

/// With automatic switching on and Netflix running, the watcher switches
/// HDR on unless this tool already holds it on everywhere (so the first look
/// after this tool let go of HDR switches it on even when it is on
/// everywhere); when it is held on everywhere it is kept as it is.
pub proof fn law_watch_while_netflix_runs(
    turn_off_when_netflix_closes: bool,
    hdr_active_by_app: bool,
    hdr: HdrState,
)
    ensures
        watch_rule(true, turn_off_when_netflix_closes, hdr_active_by_app, true, hdr) == if !hdr_active_by_app
            || !hdr.all_on {
            WatchAction::TurnHdrOn
        } else if hdr.any_on {
            WatchAction::MarkHdrActive
        } else {
            WatchAction::Nothing
        },
{
}

/// When Netflix is not running, or automatic switching is off, the watcher
/// switches HDR off exactly when so configured and HDR is on somewhere or
/// held by this tool, and otherwise does nothing.
pub proof fn law_watch_otherwise(
    auto_enabled: bool,
    turn_off_when_netflix_closes: bool,
    hdr_active_by_app: bool,
    running: bool,
    hdr: HdrState,
)
    requires
        !(auto_enabled && running),
    ensures
        watch_rule(auto_enabled, turn_off_when_netflix_closes, hdr_active_by_app, running, hdr) == if turn_off_when_netflix_closes
            && (hdr_active_by_app || hdr.any_on) {
            WatchAction::TurnHdrOff
        } else {
            WatchAction::Nothing
        },
{
}

} // verus!
