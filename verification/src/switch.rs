//! The two display procedures that alternate system queries with decisions,
//! as machines that take the outcome of each query and name the next one:
//! switching HDR on the selected displays, and reading their HDR state.
use vstd::prelude::*;
use vstd::string::*;
use crate::hdr::{
    AdvancedColorStatus, DisplayTarget, StatusView, TargetView, controlled, kept_by,
    lemma_kept_by_selection, select_by_keys, selected_set, status_from_color_info,
};

verus! {

/// `parts` joined with `sep` between neighbours.
pub open spec fn joined(parts: Seq<Seq<char>>, sep: Seq<char>) -> Seq<char>
    decreases parts.len(),
{
    if parts.len() == 0 {
        Seq::empty()
    } else if parts.len() == 1 {
        parts[0]
    } else {
        joined(parts.drop_last(), sep) + sep + parts.last()
    }
}

/// Joins strings with a separator between neighbours; `[String]::join`.
pub fn join(parts: &Vec<String>, sep: &str) -> (s: String)
    ensures
        s@ == joined(parts.deep_view(), sep@),
{
    let ghost ps = parts.deep_view();
    let mut s = String::new();
    let mut i: usize = 0;
    while i < parts.len()
        invariant
            ps == parts.deep_view(),
            i <= ps.len(),
            s@ == joined(ps.subrange(0, i as int), sep@),
        decreases ps.len() - i,
    {
        proof {
            assert(ps.subrange(0, i + 1).drop_last() =~= ps.subrange(0, i as int));
            assert(ps[i as int] == parts@[i as int]@);
        }
        if i > 0 {
            s.append(sep);
        }
        s.append(parts[i].as_str());
        proof {
            if i == 0 {
                assert(ps.subrange(0, 1)[0] == ps[0]);
            }
        }
        i = i + 1;
    }
    assert(ps.subrange(0, ps.len() as int) =~= ps);
    s
}

/// Where a procedure stands.
#[derive(Clone, Copy, PartialEq, Eq, Structural)]
pub enum Stage {
    /// Waiting for the list of display targets.
    Listing,
    /// Waiting for the HDR state of the current target.
    Reading,
    /// Waiting for the outcome of switching the current target.
    Applying,
    /// Done; no further event is taken.
    Finished,
}

/// What the caller reports back to the HDR switch.
pub enum HdrEvent {
    /// The active display targets, or why they could not be listed.
    TargetsListed(Result<Vec<DisplayTarget>, String>),
    /// The current target's advanced-colour value, or why it could not be read.
    StatusRead(Result<u32, String>),
    /// Whether switching the current target succeeded.
    HdrApplied(Result<(), String>),
}

/// What the HDR switch asks the caller to do next.
pub enum HdrAction {
    /// Read the HDR state of this target.
    ReadStatus(DisplayTarget),
    /// Switch HDR on (`true`) or off on this target.
    ApplyHdr(DisplayTarget, bool),
    /// The procedure is over, with this outcome.
    Finish(Result<(), String>),
}

/// An HDR switch event as a mathematical value.
pub enum HdrEventView {
    TargetsListed(Result<Seq<TargetView>, Seq<char>>),
    StatusRead(Result<u32, Seq<char>>),
    HdrApplied(Result<(), Seq<char>>),
}

/// An HDR switch action as a mathematical value.
pub enum HdrActionView {
    ReadStatus(TargetView),
    ApplyHdr(TargetView, bool),
    Finish(Result<(), Seq<char>>),
}

impl View for HdrEvent {
    type V = HdrEventView;

    open spec fn view(&self) -> HdrEventView {
        match self {
            HdrEvent::TargetsListed(Ok(ts)) => HdrEventView::TargetsListed(Ok(ts.deep_view())),
            HdrEvent::TargetsListed(Err(e)) => HdrEventView::TargetsListed(Err(e@)),
            HdrEvent::StatusRead(Ok(v)) => HdrEventView::StatusRead(Ok(*v)),
            HdrEvent::StatusRead(Err(e)) => HdrEventView::StatusRead(Err(e@)),
            HdrEvent::HdrApplied(Ok(())) => HdrEventView::HdrApplied(Ok(())),
            HdrEvent::HdrApplied(Err(e)) => HdrEventView::HdrApplied(Err(e@)),
        }
    }
}

impl View for HdrAction {
    type V = HdrActionView;

    open spec fn view(&self) -> HdrActionView {
        match self {
            HdrAction::ReadStatus(t) => HdrActionView::ReadStatus(t@),
            HdrAction::ApplyHdr(t, on) => HdrActionView::ApplyHdr(t@, *on),
            HdrAction::Finish(Ok(())) => HdrActionView::Finish(Ok(())),
            HdrAction::Finish(Err(e)) => HdrActionView::Finish(Err(e@)),
        }
    }
}

/// Switching HDR on or off on the selected displays, one target at a time:
/// list the targets, keep the selected ones, read each one's state, switch
/// the ones that support HDR, and report every failure.
pub struct HdrSwitch {
    enable: bool,
    selection: Vec<String>,
    targets: Vec<DisplayTarget>,
    next: usize,
    errors: Vec<String>,
    stage: Stage,
}

/// An HDR switch as a mathematical value.
pub struct HdrSwitchView {
    /// Whether HDR is being switched on.
    pub enable: bool,
    /// The selected keys; empty means every display.
    pub selection: Seq<Seq<char>>,
    /// The controlled targets, once listed.
    pub targets: Seq<TargetView>,
    /// The position of the current target.
    pub next: nat,
    /// The failures so far, in target order.
    pub errors: Seq<Seq<char>>,
    pub stage: Stage,
}

impl View for HdrSwitch {
    type V = HdrSwitchView;

    closed spec fn view(&self) -> HdrSwitchView {
        HdrSwitchView {
            enable: self.enable,
            selection: self.selection.deep_view(),
            targets: self.targets.deep_view(),
            next: self.next as nat,
            errors: self.errors.deep_view(),
            stage: self.stage,
        }
    }
}

/// The failure reported for a target: `<key>: <error>`.
pub open spec fn failure(target: TargetView, err: Seq<char>) -> Seq<char> {
    target.key + ": "@ + err
}

/// The outcome of a finished switch: success when nothing failed, else the
/// failures joined with `; `.
pub open spec fn switch_outcome(errors: Seq<Seq<char>>) -> Result<(), Seq<char>> {
    if errors.len() == 0 {
        Ok(())
    } else {
        Err(joined(errors, "; "@))
    }
}

/// The stage in which a switch takes the event.
pub open spec fn switch_accepts(stage: Stage, e: HdrEventView) -> bool {
    match e {
        HdrEventView::TargetsListed(_) => stage == Stage::Listing,
        HdrEventView::StatusRead(_) => stage == Stage::Reading,
        HdrEventView::HdrApplied(_) => stage == Stage::Applying,
    }
}

/// Moving past the current target with the failures `errors`: read the next
/// target, or finish when there is none.
pub open spec fn switch_move_on(s: HdrSwitchView, errors: Seq<Seq<char>>) -> (HdrSwitchView, HdrActionView) {
    if s.next + 1 < s.targets.len() {
        (
            HdrSwitchView { next: s.next + 1, errors, stage: Stage::Reading, ..s },
            HdrActionView::ReadStatus(s.targets[s.next + 1 as int]),
        )
    } else {
        (
            HdrSwitchView { next: s.next + 1, errors, stage: Stage::Finished, ..s },
            HdrActionView::Finish(switch_outcome(errors)),
        )
    }
}

/// One step of the HDR switch: the next state and what to do next.
pub open spec fn switch_next(s: HdrSwitchView, e: HdrEventView) -> (HdrSwitchView, HdrActionView) {
    match e {
        HdrEventView::TargetsListed(Err(err)) => (
            HdrSwitchView { stage: Stage::Finished, ..s },
            HdrActionView::Finish(Err(err)),
        ),
        HdrEventView::TargetsListed(Ok(ts)) => {
            let chosen = kept_by(ts, s.selection);
            if chosen.len() == 0 {
                (
                    HdrSwitchView { targets: chosen, next: 0, errors: Seq::empty(), stage: Stage::Finished, ..s },
                    HdrActionView::Finish(Ok(())),
                )
            } else {
                (
                    HdrSwitchView { targets: chosen, next: 0, errors: Seq::empty(), stage: Stage::Reading, ..s },
                    HdrActionView::ReadStatus(chosen[0]),
                )
            }
        },
        HdrEventView::StatusRead(Err(err)) => switch_move_on(
            s,
            s.errors.push(failure(s.targets[s.next as int], err)),
        ),
        HdrEventView::StatusRead(Ok(value)) => if value & 1 == 0 {
            switch_move_on(s, s.errors)
        } else {
            (
                HdrSwitchView { stage: Stage::Applying, ..s },
                HdrActionView::ApplyHdr(s.targets[s.next as int], s.enable),
            )
        },
        HdrEventView::HdrApplied(Err(err)) => switch_move_on(
            s,
            s.errors.push(failure(s.targets[s.next as int], err)),
        ),
        HdrEventView::HdrApplied(Ok(())) => switch_move_on(s, s.errors),
    }
}

/// A switch state that can take its next event.
pub open spec fn switch_wf(s: HdrSwitchView) -> bool {
    &&& s.next <= s.targets.len()
    &&& (s.stage == Stage::Reading || s.stage == Stage::Applying) ==> s.next < s.targets.len()
}

impl HdrSwitch {
    /// Whether the switch can take the event now.
    pub fn accepts(&self, event: &HdrEvent) -> (b: bool)
        ensures
            b == switch_accepts(self@.stage, event@),
    {
        match event {
            HdrEvent::TargetsListed(_) => self.stage == Stage::Listing,
            HdrEvent::StatusRead(_) => self.stage == Stage::Reading,
            HdrEvent::HdrApplied(_) => self.stage == Stage::Applying,
        }
    }

    /// Whether the procedure is over.
    pub fn is_finished(&self) -> (b: bool)
        ensures
            b == (self@.stage == Stage::Finished),
    {
        self.stage == Stage::Finished
    }

    fn move_on(&mut self) -> (action: HdrAction)
        requires
            switch_wf(old(self)@),
            old(self)@.next < old(self)@.targets.len(),
        ensures
            switch_wf(final(self)@),
            (final(self)@, action@) == switch_move_on(old(self)@, old(self)@.errors),
    {
        assert(self.targets.deep_view().len() == self.targets@.len());
        assert(self@.next == self.next as nat);
        assert(self.next < self.targets.len());
        self.next = self.next + 1;
        if self.next < self.targets.len() {
            self.stage = Stage::Reading;
            HdrAction::ReadStatus(self.targets[self.next].clone())
        } else {
            self.stage = Stage::Finished;
            if self.errors.len() == 0 {
                HdrAction::Finish(Ok(()))
            } else {
                HdrAction::Finish(Err(join(&self.errors, "; ")))
            }
        }
    }

    fn record_failure(&mut self, err: String)
        requires
            old(self)@.next < old(self)@.targets.len(),
        ensures
            final(self)@ == (HdrSwitchView {
                errors: old(self)@.errors.push(failure(old(self)@.targets[old(self)@.next as int], err@)),
                ..old(self)@
            }),
    {
        let mut m = self.targets[self.next].key.clone();
        m.append(": ");
        m.append(err.as_str());
        self.errors.push(m);
        assert(self.errors.deep_view() =~= old(self)@.errors.push(
            failure(old(self)@.targets[old(self)@.next as int], err@),
        ));
    }

    /// Takes the outcome of the last request and names the next one.
    pub fn advance(&mut self, event: HdrEvent) -> (action: HdrAction)
        requires
            switch_wf(old(self)@),
            switch_accepts(old(self)@.stage, event@),
        ensures
            switch_wf(final(self)@),
            (final(self)@, action@) == switch_next(old(self)@, event@),
    {
        match event {
            HdrEvent::TargetsListed(Err(e)) => {
                self.stage = Stage::Finished;
                HdrAction::Finish(Err(e))
            },
            HdrEvent::TargetsListed(Ok(ts)) => {
                let chosen = select_by_keys(ts.as_slice(), &self.selection);
                self.targets = chosen;
                self.next = 0;
                self.errors = Vec::new();
                assert(self.errors.deep_view() =~= Seq::<Seq<char>>::empty());
                if self.targets.len() == 0 {
                    self.stage = Stage::Finished;
                    HdrAction::Finish(Ok(()))
                } else {
                    self.stage = Stage::Reading;
                    HdrAction::ReadStatus(self.targets[0].clone())
                }
            },
            HdrEvent::StatusRead(Err(e)) => {
                self.record_failure(e);
                self.move_on()
            },
            HdrEvent::StatusRead(Ok(value)) => {
                if value & 1 == 0 {
                    self.move_on()
                } else {
                    self.stage = Stage::Applying;
                    HdrAction::ApplyHdr(self.targets[self.next].clone(), self.enable)
                }
            },
            HdrEvent::HdrApplied(Err(e)) => {
                self.record_failure(e);
                self.move_on()
            },
            HdrEvent::HdrApplied(Ok(())) => self.move_on(),
        }
    }
}

/// Starts switching HDR on (`enable`) or off for the selected displays (all
/// HDR-capable ones when no key is selected). The caller first lists the
/// active display targets and reports them with `HdrEvent::TargetsListed`.
pub fn set_hdr_for_targets(enable: bool, selected_targets: &[String]) -> (s: HdrSwitch)
    ensures
        switch_wf(s@),
        s@.stage == Stage::Listing,
        s@.enable == enable,
        s@.targets.len() == 0,
        s@.next == 0,
        s@.errors.len() == 0,
        forall|k: Seq<char>| s@.selection.contains(k) <==> crate::hdr::picks(selected_targets.deep_view(), k),
        s@.selection.len() == 0 <==> !crate::hdr::picks_any(selected_targets.deep_view()),
{
    let selection = selected_set(selected_targets);
    let s = HdrSwitch {
        enable,
        selection,
        targets: Vec::new(),
        next: 0,
        errors: Vec::new(),
        stage: Stage::Listing,
    };
    assert(s@.targets =~= Seq::<TargetView>::empty());
    assert(s@.errors =~= Seq::<Seq<char>>::empty());
    s
}

/// The targets a switch works on are the displays that the raw selection
/// controls, in list order.
pub proof fn law_switch_targets_are_selected(
    s: HdrSwitchView,
    selected: Seq<Seq<char>>,
    listed: Seq<TargetView>,
)
    requires
        forall|k: Seq<char>| s.selection.contains(k) <==> crate::hdr::picks(selected, k),
        s.selection.len() == 0 <==> !crate::hdr::picks_any(selected),
    ensures
        switch_next(s, HdrEventView::TargetsListed(Ok(listed))).0.targets == controlled(listed, selected),
{
    lemma_kept_by_selection(listed, s.selection, selected);
}

/// A selection of blank entries switches every listed display, as an empty
/// selection does.
pub proof fn law_blank_selection_switches_all(s: HdrSwitchView, selected: Seq<Seq<char>>, listed: Seq<TargetView>)
    requires
        forall|k: Seq<char>| s.selection.contains(k) <==> crate::hdr::picks(selected, k),
        s.selection.len() == 0 <==> !crate::hdr::picks_any(selected),
        forall|i: int, j: int|
            0 <= i < selected.len() && 0 <= j < selected[i].len() ==> crate::text::white_space(
                #[trigger] selected[i][j],
            ),
    ensures
        switch_next(s, HdrEventView::TargetsListed(Ok(listed))).0.targets == listed,
{
    law_switch_targets_are_selected(s, selected, listed);
    crate::hdr::law_blank_selection_controls_all(selected, listed);
}

/// HDR is switched only on a target that reports HDR support, only to the
/// requested state, and only after its state was read.
pub proof fn law_switch_applies_only_supported(s: HdrSwitchView, e: HdrEventView)
    requires
        switch_wf(s),
        switch_accepts(s.stage, e),
    ensures
        switch_next(s, e).1 matches HdrActionView::ApplyHdr(t, on) ==> {
            &&& e matches HdrEventView::StatusRead(Ok(v)) && v & 1 != 0
            &&& t == s.targets[s.next as int]
            &&& on == s.enable
        },
{
}

/// Every target whose read value has bit 0 (HDR support) set is switched to
/// the requested state, whatever its current state and whichever way HDR is
/// being switched; a target whose value lacks that bit is passed over and
/// nothing is recorded against it.
pub proof fn law_supported_target_is_switched(s: HdrSwitchView, v: u32)
    requires
        switch_wf(s),
        s.stage == Stage::Reading,
    ensures
        v & 1 != 0 ==> switch_next(s, HdrEventView::StatusRead(Ok(v))).1 == HdrActionView::ApplyHdr(
            s.targets[s.next as int],
            s.enable,
        ),
        v & 1 != 0 ==> switch_next(s, HdrEventView::StatusRead(Ok(v))).0.stage == Stage::Applying,
        v & 1 == 0 ==> !(switch_next(s, HdrEventView::StatusRead(Ok(v))).1 is ApplyHdr),
        v & 1 == 0 ==> switch_next(s, HdrEventView::StatusRead(Ok(v))).0.next == s.next + 1,
        v & 1 == 0 ==> switch_next(s, HdrEventView::StatusRead(Ok(v))).0.errors == s.errors,
{
}

/// The state of a switch and the requests it makes when each read of the
/// current target gives the next of `values` and each switch it asks for
/// succeeds.
pub open spec fn switch_reads(s: HdrSwitchView, values: Seq<u32>) -> (HdrSwitchView, Seq<HdrActionView>)
    decreases values.len(),
{
    if values.len() == 0 {
        (s, Seq::empty())
    } else {
        let read = switch_next(s, HdrEventView::StatusRead(Ok(values[0])));
        let (after, asked) = if read.1 is ApplyHdr {
            let applied = switch_next(read.0, HdrEventView::HdrApplied(Ok(())));
            (applied.0, seq![read.1, applied.1])
        } else {
            (read.0, seq![read.1])
        };
        let rest = switch_reads(after, values.drop_first());
        (rest.0, asked + rest.1)
    }
}

/// The requests made for the target at `k`, whose value is `v`: switch it
/// when it supports HDR, then read the next target or finish.
spec fn requests_for(targets: Seq<TargetView>, enable: bool, k: int, v: u32) -> Seq<HdrActionView> {
    (if v & 1 != 0 {
        seq![HdrActionView::ApplyHdr(targets[k], enable)]
    } else {
        Seq::empty()
    }) + seq![
        if k + 1 < targets.len() {
            HdrActionView::ReadStatus(targets[k + 1])
        } else {
            HdrActionView::Finish(Ok(()))
        },
    ]
}

proof fn lemma_switch_reads(s: HdrSwitchView, values: Seq<u32>)
    requires
        switch_wf(s),
        s.stage == Stage::Reading,
        s.errors.len() == 0,
        s.next + values.len() == s.targets.len(),
    ensures
        switch_reads(s, values).1 == Seq::new(
            values.len(),
            |i: int| requests_for(s.targets, s.enable, s.next + i, values[i]),
        ).flatten(),
    decreases values.len(),
{
    let blocks = Seq::new(
        values.len(),
        |i: int| requests_for(s.targets, s.enable, s.next + i, values[i]),
    );
    let read = switch_next(s, HdrEventView::StatusRead(Ok(values[0])));
    let after = if read.1 is ApplyHdr {
        switch_next(read.0, HdrEventView::HdrApplied(Ok(()))).0
    } else {
        read.0
    };
    let asked = if read.1 is ApplyHdr {
        seq![read.1, switch_next(read.0, HdrEventView::HdrApplied(Ok(()))).1]
    } else {
        seq![read.1]
    };
    let rest = values.drop_first();
    assert(switch_outcome(Seq::<Seq<char>>::empty()) == Result::<(), Seq<char>>::Ok(()));
    assert(asked =~= blocks[0]);
    assert(switch_reads(s, values).1 == asked + switch_reads(after, rest).1);
    assert(blocks.flatten() == blocks[0] + blocks.drop_first().flatten());
    if values.len() == 1 {
        assert(blocks.drop_first() =~= Seq::<Seq<HdrActionView>>::empty());
        assert(switch_reads(after, rest).1 =~= Seq::<HdrActionView>::empty());
    } else {
        lemma_switch_reads(after, rest);
        assert(blocks.drop_first() =~= Seq::new(
            rest.len(),
            |i: int| requests_for(after.targets, after.enable, after.next + i, rest[i]),
        ));
    }
}

/// When every read succeeds and every switch succeeds, a switch asks, in
/// listing order, for each controlled target: to switch it to the requested
/// state exactly when its value has bit 0 (HDR support) set, then to read
/// the next target; after the last one it finishes with success.
pub proof fn law_switch_run(s: HdrSwitchView, listed: Seq<TargetView>, values: Seq<u32>)
    requires
        switch_wf(s),
        s.stage == Stage::Listing,
        values.len() == kept_by(listed, s.selection).len(),
    ensures
        ({
            let first = switch_next(s, HdrEventView::TargetsListed(Ok(listed)));
            let kept = kept_by(listed, s.selection);
            if kept.len() == 0 {
                first.1 == HdrActionView::Finish(Ok(()))
            } else {
                &&& first.1 == HdrActionView::ReadStatus(kept[0])
                &&& switch_reads(first.0, values).1 == Seq::new(
                    kept.len(),
                    |i: int|
                        (if values[i] & 1 != 0 {
                            seq![HdrActionView::ApplyHdr(kept[i], s.enable)]
                        } else {
                            Seq::empty()
                        }) + seq![
                            if i + 1 < kept.len() {
                                HdrActionView::ReadStatus(kept[i + 1])
                            } else {
                                HdrActionView::Finish(Ok(()))
                            },
                        ],
                ).flatten()
            }
        }),
{
    let first = switch_next(s, HdrEventView::TargetsListed(Ok(listed)));
    let kept = kept_by(listed, s.selection);
    if kept.len() > 0 {
        lemma_switch_reads(first.0, values);
        assert(Seq::new(
            kept.len(),
            |i: int| requests_for(first.0.targets, first.0.enable, first.0.next + i, values[i]),
        ) =~= Seq::new(
            kept.len(),
            |i: int|
                (if values[i] & 1 != 0 {
                    seq![HdrActionView::ApplyHdr(kept[i], s.enable)]
                } else {
                    Seq::empty()
                }) + seq![
                    if i + 1 < kept.len() {
                        HdrActionView::ReadStatus(kept[i + 1])
                    } else {
                        HdrActionView::Finish(Ok(()))
                    },
                ],
        ));
    }
}

/// A switch that cannot list the targets finishes with that failure. After
/// any outcome for the current target other than a read showing HDR
/// support (a failed read, a read without support, a switch that succeeded
/// or failed), it goes on to read the next target, or finishes after the
/// last one: a failure never stops it early.
pub proof fn law_switch_moves_on(s: HdrSwitchView, e: HdrEventView)
    requires
        switch_wf(s),
        switch_accepts(s.stage, e),
    ensures
        e matches HdrEventView::TargetsListed(Err(err)) ==> switch_next(s, e).1 == HdrActionView::Finish(
            Err(err),
        ),
        s.stage != Stage::Listing && !(e matches HdrEventView::StatusRead(Ok(v)) && v & 1 != 0) ==> {
            &&& switch_next(s, e).0.next == s.next + 1
            &&& s.next + 1 < s.targets.len() ==> switch_next(s, e).1 == HdrActionView::ReadStatus(
                s.targets[s.next + 1 as int],
            ) && switch_next(s, e).0.stage == Stage::Reading
            &&& s.next + 1 >= s.targets.len() ==> switch_next(s, e).1 is Finish && switch_next(s, e).0.stage
                == Stage::Finished
        },
{
}

/// A finished switch reports success exactly when no target failed, and
/// otherwise every failure, in target order, joined with `; `.
pub proof fn law_switch_outcome(s: HdrSwitchView, e: HdrEventView)
    requires
        switch_wf(s),
        switch_accepts(s.stage, e),
        !(e matches HdrEventView::TargetsListed(Err(_))),
    ensures
        switch_next(s, e).1 matches HdrActionView::Finish(r) ==> r == switch_outcome(
            switch_next(s, e).0.errors,
        ),
{
}

/// A failing read or switch is recorded against its target; nothing else
/// is ever recorded, and earlier failures are kept.
pub proof fn law_switch_records_failures(s: HdrSwitchView, e: HdrEventView)
    requires
        switch_wf(s),
        switch_accepts(s.stage, e),
        s.stage != Stage::Listing,
    ensures
        switch_next(s, e).0.errors == match e {
            HdrEventView::StatusRead(Err(err)) => s.errors.push(failure(s.targets[s.next as int], err)),
            HdrEventView::HdrApplied(Err(err)) => s.errors.push(failure(s.targets[s.next as int], err)),
            _ => s.errors,
        },
{
}

/// What the caller reports back to a status scan.
pub enum StatusEvent {
    /// The active display targets, or why they could not be listed.
    TargetsListed(Result<Vec<DisplayTarget>, String>),
    /// The current target's advanced-colour value, or why it could not be read.
    StatusRead(Result<u32, String>),
}

/// What a status scan asks the caller to do next.
pub enum StatusAction {
    /// Read the HDR state of this target.
    ReadStatus(DisplayTarget),
    /// The scan is over, with the states of the selected targets or the
    /// first failure.
    Finish(Result<Vec<AdvancedColorStatus>, String>),
}

/// A status scan event as a mathematical value.
pub enum StatusEventView {
    TargetsListed(Result<Seq<TargetView>, Seq<char>>),
    StatusRead(Result<u32, Seq<char>>),
}

/// A status scan action as a mathematical value.
pub enum StatusActionView {
    ReadStatus(TargetView),
    Finish(Result<Seq<StatusView>, Seq<char>>),
}

impl View for StatusEvent {
    type V = StatusEventView;

    open spec fn view(&self) -> StatusEventView {
        match self {
            StatusEvent::TargetsListed(Ok(ts)) => StatusEventView::TargetsListed(Ok(ts.deep_view())),
            StatusEvent::TargetsListed(Err(e)) => StatusEventView::TargetsListed(Err(e@)),
            StatusEvent::StatusRead(Ok(v)) => StatusEventView::StatusRead(Ok(*v)),
            StatusEvent::StatusRead(Err(e)) => StatusEventView::StatusRead(Err(e@)),
        }
    }
}

impl View for StatusAction {
    type V = StatusActionView;

    open spec fn view(&self) -> StatusActionView {
        match self {
            StatusAction::ReadStatus(t) => StatusActionView::ReadStatus(t@),
            StatusAction::Finish(Ok(v)) => StatusActionView::Finish(Ok(v.deep_view())),
            StatusAction::Finish(Err(e)) => StatusActionView::Finish(Err(e@)),
        }
    }
}

/// Reading the HDR state of the selected displays: list the targets, keep
/// the selected ones, and read each one's state; the first failure ends it.
pub struct StatusScan {
    selection: Vec<String>,
    targets: Vec<DisplayTarget>,
    statuses: Vec<AdvancedColorStatus>,
    stage: Stage,
}

/// A status scan as a mathematical value.
pub struct StatusScanView {
    /// The selected keys; empty means every display.
    pub selection: Seq<Seq<char>>,
    /// The controlled targets, once listed.
    pub targets: Seq<TargetView>,
    /// The states read so far, one per target in order.
    pub statuses: Seq<StatusView>,
    pub stage: Stage,
}

impl View for StatusScan {
    type V = StatusScanView;

    closed spec fn view(&self) -> StatusScanView {
        StatusScanView {
            selection: self.selection.deep_view(),
            targets: self.targets.deep_view(),
            statuses: self.statuses.deep_view(),
            stage: self.stage,
        }
    }
}

/// The state of a target read from its advanced-colour value.
pub open spec fn status_of(target: TargetView, value: u32) -> StatusView {
    StatusView {
        target,
        supported: value & 1 != 0,
        enabled: value & 2 != 0,
        force_disabled: value & 8 != 0,
    }
}

/// The stage in which a scan takes the event.
pub open spec fn scan_accepts(stage: Stage, e: StatusEventView) -> bool {
    match e {
        StatusEventView::TargetsListed(_) => stage == Stage::Listing,
        StatusEventView::StatusRead(_) => stage == Stage::Reading,
    }
}

/// One step of a status scan: the next state and what to do next.
pub open spec fn scan_next(s: StatusScanView, e: StatusEventView) -> (StatusScanView, StatusActionView) {
    match e {
        StatusEventView::TargetsListed(Err(err)) => (
            StatusScanView { stage: Stage::Finished, ..s },
            StatusActionView::Finish(Err(err)),
        ),
        StatusEventView::TargetsListed(Ok(ts)) => {
            let chosen = kept_by(ts, s.selection);
            if chosen.len() == 0 {
                (
                    StatusScanView { targets: chosen, statuses: Seq::empty(), stage: Stage::Finished, ..s },
                    StatusActionView::Finish(Ok(Seq::empty())),
                )
            } else {
                (
                    StatusScanView { targets: chosen, statuses: Seq::empty(), stage: Stage::Reading, ..s },
                    StatusActionView::ReadStatus(chosen[0]),
                )
            }
        },
        StatusEventView::StatusRead(Err(err)) => (
            StatusScanView { stage: Stage::Finished, ..s },
            StatusActionView::Finish(Err(err)),
        ),
        StatusEventView::StatusRead(Ok(value)) => {
            let statuses = s.statuses.push(status_of(s.targets[s.statuses.len() as int], value));
            if statuses.len() < s.targets.len() {
                (
                    StatusScanView { statuses, ..s },
                    StatusActionView::ReadStatus(s.targets[statuses.len() as int]),
                )
            } else {
                (
                    StatusScanView { statuses, stage: Stage::Finished, ..s },
                    StatusActionView::Finish(Ok(statuses)),
                )
            }
        },
    }
}

/// A scan state that can take its next event.
pub open spec fn scan_wf(s: StatusScanView) -> bool {
    &&& s.statuses.len() <= s.targets.len()
    &&& s.stage == Stage::Reading ==> s.statuses.len() < s.targets.len()
    &&& s.stage != Stage::Applying
}

impl StatusScan {
    /// Whether the scan can take the event now.
    pub fn accepts(&self, event: &StatusEvent) -> (b: bool)
        ensures
            b == scan_accepts(self@.stage, event@),
    {
        match event {
            StatusEvent::TargetsListed(_) => self.stage == Stage::Listing,
            StatusEvent::StatusRead(_) => self.stage == Stage::Reading,
        }
    }

    /// Takes the outcome of the last request and names the next one.
    pub fn advance(&mut self, event: StatusEvent) -> (action: StatusAction)
        requires
            scan_wf(old(self)@),
            scan_accepts(old(self)@.stage, event@),
        ensures
            scan_wf(final(self)@),
            (final(self)@, action@) == scan_next(old(self)@, event@),
    {
        match event {
            StatusEvent::TargetsListed(Err(e)) => {
                self.stage = Stage::Finished;
                StatusAction::Finish(Err(e))
            },
            StatusEvent::TargetsListed(Ok(ts)) => {
                let chosen = select_by_keys(ts.as_slice(), &self.selection);
                self.targets = chosen;
                self.statuses = Vec::new();
                assert(self.statuses.deep_view() =~= Seq::<StatusView>::empty());
                if self.targets.len() == 0 {
                    self.stage = Stage::Finished;
                    StatusAction::Finish(Ok(Vec::new()))
                } else {
                    self.stage = Stage::Reading;
                    StatusAction::ReadStatus(self.targets[0].clone())
                }
            },
            StatusEvent::StatusRead(Err(e)) => {
                self.stage = Stage::Finished;
                StatusAction::Finish(Err(e))
            },
            StatusEvent::StatusRead(Ok(value)) => {
                let ghost before = self.statuses.deep_view();
                let t = self.targets[self.statuses.len()].clone();
                let st = status_from_color_info(t, value);
                self.statuses.push(st);
                assert(self.statuses.deep_view() =~= before.push(
                    status_of(self@.targets[before.len() as int], value),
                ));
                if self.statuses.len() < self.targets.len() {
                    StatusAction::ReadStatus(self.targets[self.statuses.len()].clone())
                } else {
                    self.stage = Stage::Finished;
                    let mut out: Vec<AdvancedColorStatus> = Vec::new();
                    let mut i: usize = 0;
                    while i < self.statuses.len()
                        invariant
                            i <= self.statuses.len(),
                            out.deep_view() == self.statuses.deep_view().subrange(0, i as int),
                        decreases self.statuses.len() - i,
                    {
                        let ghost before = out.deep_view();
                        let c = self.statuses[i].clone();
                        assert(c@ == self.statuses.deep_view()[i as int]);
                        out.push(c);
                        assert(out.deep_view() =~= before.push(c@));
                        assert(out.deep_view() =~= self.statuses.deep_view().subrange(0, i + 1));
                        i = i + 1;
                    }
                    assert(out.deep_view() =~= self.statuses.deep_view());
                    StatusAction::Finish(Ok(out))
                }
            },
        }
    }
}

/// Starts reading the HDR state of the selected displays (every display
/// when no key is selected). The caller first lists the active display
/// targets and reports them with `StatusEvent::TargetsListed`.
pub fn get_statuses(selected_targets: &[String]) -> (s: StatusScan)
    ensures
        scan_wf(s@),
        s@.stage == Stage::Listing,
        s@.targets.len() == 0,
        s@.statuses.len() == 0,
        forall|k: Seq<char>| s@.selection.contains(k) <==> crate::hdr::picks(selected_targets.deep_view(), k),
        s@.selection.len() == 0 <==> !crate::hdr::picks_any(selected_targets.deep_view()),
{
    let selection = selected_set(selected_targets);
    let s = StatusScan { selection, targets: Vec::new(), statuses: Vec::new(), stage: Stage::Listing };
    assert(s@.targets =~= Seq::<TargetView>::empty());
    assert(s@.statuses =~= Seq::<StatusView>::empty());
    s
}

/// A successful scan reports one state per selected target, in order, each
/// decoded from that target's value.
pub proof fn law_scan_reports_each_target(s: StatusScanView, e: StatusEventView)
    requires
        scan_wf(s),
        scan_accepts(s.stage, e),
        forall|i: int| 0 <= i < s.statuses.len() ==> #[trigger] s.statuses[i].target == s.targets[i],
    ensures
        forall|i: int|
            0 <= i < scan_next(s, e).0.statuses.len() ==> #[trigger] scan_next(s, e).0.statuses[i].target
                == scan_next(s, e).0.targets[i],
        scan_next(s, e).1 matches StatusActionView::Finish(Ok(v)) ==> v.len() == scan_next(s, e).0.targets.len(),
{
}

/// The state and last request of a scan after it is told, one read at a
/// time, that the current target's value is `values[0]`, then `values[1]`,
/// and so on (at least one value).
pub open spec fn scan_reads(s: StatusScanView, values: Seq<u32>) -> (StatusScanView, StatusActionView)
    recommends
        values.len() > 0,
    decreases values.len(),
{
    let step = scan_next(s, StatusEventView::StatusRead(Ok(values[0])));
    if values.len() <= 1 {
        step
    } else {
        scan_reads(step.0, values.drop_first())
    }
}

/// Reading a target's state never changes which targets a scan reports on;
/// the listing fixes them to the controlled ones, in list order.
pub proof fn law_scan_targets_fixed_at_listing(s: StatusScanView, e: StatusEventView)
    requires
        scan_wf(s),
        scan_accepts(s.stage, e),
    ensures
        e is StatusRead ==> scan_next(s, e).0.targets == s.targets,
        e matches StatusEventView::TargetsListed(Ok(ts)) ==> scan_next(s, e).0.targets == kept_by(
            ts,
            s.selection,
        ),
{
}

proof fn lemma_scan_reads(s: StatusScanView, values: Seq<u32>)
    requires
        s.stage == Stage::Reading,
        values.len() > 0,
        s.statuses.len() + values.len() == s.targets.len(),
    ensures
        scan_reads(s, values).1 == StatusActionView::Finish(
            Ok(
                s.statuses + Seq::new(
                    values.len(),
                    |i: int| status_of(s.targets[s.statuses.len() + i], values[i]),
                ),
            ),
        ),
    decreases values.len(),
{
    let n = s.statuses.len();
    let read = |i: int| status_of(s.targets[n + i], values[i]);
    let step = scan_next(s, StatusEventView::StatusRead(Ok(values[0])));
    let pushed = s.statuses.push(status_of(s.targets[n as int], values[0]));
    assert(step.0.statuses == pushed);
    if values.len() <= 1 {
        assert(pushed =~= s.statuses + Seq::new(values.len(), read));
    } else {
        let rest = values.drop_first();
        lemma_scan_reads(step.0, rest);
        assert(pushed + Seq::new(
            rest.len(),
            |i: int| status_of(step.0.targets[pushed.len() + i], rest[i]),
        ) =~= s.statuses + Seq::new(values.len(), read));
    }
}

/// A scan in which every read succeeds reports exactly the controlled
/// targets, in listing order, each with the state decoded from its value:
/// bit 0 is HDR support, bit 1 HDR on, bit 3 HDR forced off. A display that
/// cannot do HDR is reported like any other.
pub proof fn law_scan_reports_all_controlled(s: StatusScanView, listed: Seq<TargetView>, values: Seq<u32>)
    requires
        scan_wf(s),
        s.stage == Stage::Listing,
        values.len() == kept_by(listed, s.selection).len(),
    ensures
        ({
            let first = scan_next(s, StatusEventView::TargetsListed(Ok(listed)));
            let kept = kept_by(listed, s.selection);
            let report = Seq::new(
                kept.len(),
                |i: int|
                    (StatusView {
                        target: kept[i],
                        supported: values[i] & 1 != 0,
                        enabled: values[i] & 2 != 0,
                        force_disabled: values[i] & 8 != 0,
                    }),
            );
            if kept.len() == 0 {
                first.1 == StatusActionView::Finish(Ok(report))
            } else {
                scan_reads(first.0, values).1 == StatusActionView::Finish(Ok(report))
            }
        }),
{
    let first = scan_next(s, StatusEventView::TargetsListed(Ok(listed)));
    let kept = kept_by(listed, s.selection);
    let report = Seq::new(
        kept.len(),
        |i: int|
            (StatusView {
                target: kept[i],
                supported: values[i] & 1 != 0,
                enabled: values[i] & 2 != 0,
                force_disabled: values[i] & 8 != 0,
            }),
    );
    if kept.len() == 0 {
        assert(report =~= Seq::<StatusView>::empty());
    } else {
        lemma_scan_reads(first.0, values);
        assert(first.0.statuses + Seq::new(
            values.len(),
            |i: int| status_of(first.0.targets[first.0.statuses.len() + i], values[i]),
        ) =~= report);
    }
}

/// A scan ends at the first failure, with that failure: when the targets
/// cannot be listed, or when any target's state cannot be read.
pub proof fn law_scan_stops_at_failure(s: StatusScanView, err: Seq<char>)
    ensures
        scan_next(s, StatusEventView::TargetsListed(Err(err))).1 == StatusActionView::Finish(Err(err)),
        scan_next(s, StatusEventView::TargetsListed(Err(err))).0.stage == Stage::Finished,
        scan_next(s, StatusEventView::StatusRead(Err(err))).1 == StatusActionView::Finish(Err(err)),
        scan_next(s, StatusEventView::StatusRead(Err(err))).0.stage == Stage::Finished,
{
}

} // verus!
