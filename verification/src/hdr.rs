//! Displays and their HDR ("advanced colour") state: stable keys, the
//! targets list built from the active display paths, the user's selection,
//! and the decoding of the colour state that the system reports.
use vstd::prelude::*;
use vstd::string::*;
use crate::text::{
    decimal, push_char, push_decimal, trim, trimmed, utf16_lossy, white_space,
    utf16_of, before_nul, wide, wide_array_to_string,
};

verus! {

/// An active display target.
pub struct DisplayTarget {
    /// Key that survives reboots: 16 hexadecimal digits derived from the
    /// monitor's device path, or its name and target id (see `key_of`).
    pub key: String,
    /// Friendly monitor name, or `Display <n>`.
    pub name: String,
    /// High part of the adapter's locally unique id.
    pub adapter_high_part: i32,
    /// Low part of the adapter's locally unique id.
    pub adapter_low_part: u32,
    /// The target's id on its adapter.
    pub target_id: u32,
}

/// A display target as a mathematical value.
pub struct TargetView {
    pub key: Seq<char>,
    pub name: Seq<char>,
    pub adapter_high_part: i32,
    pub adapter_low_part: u32,
    pub target_id: u32,
}

impl View for DisplayTarget {
    type V = TargetView;

    open spec fn view(&self) -> TargetView {
        TargetView {
            key: self.key@,
            name: self.name@,
            adapter_high_part: self.adapter_high_part,
            adapter_low_part: self.adapter_low_part,
            target_id: self.target_id,
        }
    }
}

impl DeepView for DisplayTarget {
    type V = TargetView;

    open spec fn deep_view(&self) -> TargetView {
        self@
    }
}

impl Clone for DisplayTarget {
    fn clone(&self) -> (r: Self)
        ensures
            r == *self,
    {
        DisplayTarget {
            key: self.key.clone(),
            name: self.name.clone(),
            adapter_high_part: self.adapter_high_part,
            adapter_low_part: self.adapter_low_part,
            target_id: self.target_id,
        }
    }
}

/// The HDR state of one display target.
pub struct AdvancedColorStatus {
    pub target: DisplayTarget,
    /// The display can show HDR.
    pub supported: bool,
    /// HDR is on.
    pub enabled: bool,
    /// HDR is forced off (by policy or the system).
    pub force_disabled: bool,
}

/// An HDR state as a mathematical value.
pub struct StatusView {
    pub target: TargetView,
    pub supported: bool,
    pub enabled: bool,
    pub force_disabled: bool,
}

impl View for AdvancedColorStatus {
    type V = StatusView;

    open spec fn view(&self) -> StatusView {
        StatusView {
            target: self.target@,
            supported: self.supported,
            enabled: self.enabled,
            force_disabled: self.force_disabled,
        }
    }
}

impl DeepView for AdvancedColorStatus {
    type V = StatusView;

    open spec fn deep_view(&self) -> StatusView {
        self@
    }
}

impl Clone for AdvancedColorStatus {
    fn clone(&self) -> (r: Self)
        ensures
            r == *self,
    {
        AdvancedColorStatus {
            target: self.target.clone(),
            supported: self.supported,
            enabled: self.enabled,
            force_disabled: self.force_disabled,
        }
    }
}

/// One active display path as the system reports it: the target's adapter
/// and id, and the monitor's friendly name and device path when they could
/// be read.
pub struct DisplayPath {
    pub adapter_high_part: i32,
    pub adapter_low_part: u32,
    pub target_id: u32,
    pub friendly_name: Option<String>,
    pub device_path: Option<String>,
}

/// What identifies a target across reboots, without the adapter's id
/// (which the system assigns anew at every boot): the monitor's device path
/// when it is known and not empty; else its friendly name (when not blank)
/// with the target id, as `<name>#<id>`; else `target#<id>`.
pub open spec fn identity_of(device_path: Option<Seq<char>>, friendly_name: Option<Seq<char>>, target_id: u32) -> Seq<char> {
    if device_path matches Some(p) && p.len() > 0 {
        device_path.unwrap()
    } else if friendly_name matches Some(n) && trimmed(n).len() > 0 {
        friendly_name.unwrap() + "#"@ + decimal(target_id as nat)
    } else {
        "target#"@ + decimal(target_id as nat)
    }
}

/// The 64-bit FNV-1a offset basis.
pub const FNV_OFFSET: u64 = 0xcbf2_9ce4_8422_2325;

/// The 64-bit FNV-1a prime.
pub const FNV_PRIME: u64 = 0x0000_0100_0000_01b3;

/// The 64-bit FNV-1a hash of a sequence of 16-bit units.
pub open spec fn fnv1a(units: Seq<u16>) -> u64
    decreases units.len(),
{
    if units.len() == 0 {
        FNV_OFFSET
    } else {
        (((fnv1a(units.drop_last()) ^ (units.last() as u64)) as nat * FNV_PRIME as nat)
            % 0x1_0000_0000_0000_0000nat) as u64
    }
}

/// The lower-case hexadecimal digit of a value below 16.
pub open spec fn hex_digit(d: u64) -> char {
    if d < 10 {
        (('0' as u32) + d) as char
    } else {
        (('a' as u32) + d - 10) as char
    }
}

/// A 64-bit value as 16 lower-case hexadecimal digits, most significant
/// first.
pub open spec fn hex16(h: u64) -> Seq<char> {
    Seq::new(16, |i: int| hex_digit((h >> ((60 - 4 * i) as u64)) & 0xFu64))
}

/// The key of a target: the FNV-1a hash of the UTF-16 form of its identity,
/// in 16 hexadecimal digits.
pub open spec fn key_of(device_path: Option<Seq<char>>, friendly_name: Option<Seq<char>>, target_id: u32) -> Seq<char> {
    hex16(fnv1a(utf16_of(identity_of(device_path, friendly_name, target_id))))
}

/// An optional string as a mathematical value.
pub open spec fn opt_view(s: Option<String>) -> Option<Seq<char>> {
    match s {
        Some(t) => Some(t@),
        None => None,
    }
}

/// The key of the target of a display path.
pub open spec fn path_key(p: DisplayPath) -> Seq<char> {
    key_of(opt_view(p.device_path), opt_view(p.friendly_name), p.target_id)
}

/// The name given to the target of a path that is the `position`-th new
/// target (counting from 0): its friendly name unless that is blank, else
/// `Display <position + 1>`.
pub open spec fn display_name(p: DisplayPath, position: nat) -> Seq<char> {
    match p.friendly_name {
        Some(n) => if trimmed(n@).len() > 0 {
            n@
        } else {
            "Display "@ + decimal(position + 1)
        },
        None => "Display "@ + decimal(position + 1),
    }
}

/// The target and the path name the same adapter and target id.
pub open spec fn same_target(t: TargetView, p: DisplayPath) -> bool {
    &&& t.adapter_high_part == p.adapter_high_part
    &&& t.adapter_low_part == p.adapter_low_part
    &&& t.target_id == p.target_id
}

/// The target of the path is already among `targets`.
pub open spec fn has_target(targets: Seq<TargetView>, p: DisplayPath) -> bool {
    exists|i: int| 0 <= i < targets.len() && same_target(targets[i], p)
}

/// The targets of the paths, in path order, one per adapter and target id
/// (the first path to a target gives it).
pub open spec fn targets_of(paths: Seq<DisplayPath>) -> Seq<TargetView>
    decreases paths.len(),
{
    if paths.len() == 0 {
        Seq::empty()
    } else {
        let prev = targets_of(paths.drop_last());
        let p = paths.last();
        if has_target(prev, p) {
            prev
        } else {
            prev.push(
                TargetView {
                    key: path_key(p),
                    name: display_name(p, prev.len()),
                    adapter_high_part: p.adapter_high_part,
                    adapter_low_part: p.adapter_low_part,
                    target_id: p.target_id,
                },
            )
        }
    }
}

/// `selected` names `key`: some entry, trimmed, is `key` (and not empty).
pub open spec fn picks(selected: Seq<Seq<char>>, key: Seq<char>) -> bool {
    key.len() > 0 && exists|i: int| 0 <= i < selected.len() && trimmed(selected[i]) == key
}

/// `selected` names some display at all: some entry is not blank.
pub open spec fn picks_any(selected: Seq<Seq<char>>) -> bool {
    exists|i: int| 0 <= i < selected.len() && trimmed(selected[i]).len() > 0
}

/// The display with `key` is controlled: nothing is selected (meaning every
/// display), or `key` is.
pub open spec fn controls(selected: Seq<Seq<char>>, key: Seq<char>) -> bool {
    !picks_any(selected) || picks(selected, key)
}

/// The controlled targets, in order.
pub open spec fn controlled(targets: Seq<TargetView>, selected: Seq<Seq<char>>) -> Seq<TargetView>
    decreases targets.len(),
{
    if targets.len() == 0 {
        Seq::empty()
    } else if controls(selected, targets.last().key) {
        controlled(targets.drop_last(), selected).push(targets.last())
    } else {
        controlled(targets.drop_last(), selected)
    }
}

/// The FNV-1a hash of all units of `units` but the last.
fn fnv1a_but_last(units: &Vec<u16>) -> (h: u64)
    requires
        units@.len() > 0,
    ensures
        h == fnv1a(units@.drop_last()),
{
    let n = units.len() - 1;
    let mut h: u64 = FNV_OFFSET;
    let mut i: usize = 0;
    while i < n
        invariant
            n == units@.len() - 1,
            i <= n,
            h == fnv1a(units@.subrange(0, i as int)),
        decreases n - i,
    {
        proof {
            assert(units@.subrange(0, i + 1).drop_last() =~= units@.subrange(0, i as int));
        }
        h = (h ^ (units[i] as u64)).wrapping_mul(FNV_PRIME);
        i = i + 1;
    }
    assert(units@.subrange(0, n as int) =~= units@.drop_last());
    h
}

/// Appends a 64-bit value as 16 lower-case hexadecimal digits.
fn push_hex16(s: &mut String, h: u64)
    ensures
        final(s)@ == old(s)@ + hex16(h),
{
    let mut i: u64 = 0;
    while i < 16
        invariant
            i <= 16,
            s@ == old(s)@ + hex16(h).subrange(0, i as int),
        decreases 16 - i,
    {
        let shift: u64 = 60 - 4 * i;
        let d: u64 = (h >> shift) & 0xFu64;
        assert(d < 16) by (bit_vector)
            requires
                d == (h >> shift) & 0xFu64,
        ;
        let c: char = if d < 10 {
            (48u8 + d as u8) as char
        } else {
            (97u8 + (d as u8 - 10)) as char
        };
        assert(c == hex_digit(d));
        push_char(s, c);
        proof {
            assert(hex16(h)[i as int] == c);
            assert(s@ =~= old(s)@ + hex16(h).subrange(0, i + 1));
        }
        i = i + 1;
    }
    assert(hex16(h).subrange(0, 16) =~= hex16(h));
}

/// The key of a target (see `key_of`): the same at every boot.
pub fn target_key(device_path: &Option<String>, friendly_name: &Option<String>, target_id: u32) -> (key: String)
    ensures
        key@ == key_of(opt_view(*device_path), opt_view(*friendly_name), target_id),
{
    let mut identity = String::new();
    let mut done = false;
    match device_path {
        Some(p) => {
            if p.as_str().unicode_len() > 0 {
                identity = p.clone();
                done = true;
            }
        },
        None => {},
    }
    if !done {
        match friendly_name {
            Some(n) => {
                let t = trim(n.as_str());
                if t.as_str().unicode_len() > 0 {
                    identity = n.clone();
                    identity.append("#");
                    push_decimal(&mut identity, target_id as u64);
                    done = true;
                }
            },
            None => {},
        }
    }
    if !done {
        identity.append("target#");
        push_decimal(&mut identity, target_id as u64);
    }
    assert(identity@ == identity_of(opt_view(*device_path), opt_view(*friendly_name), target_id));
    let units = wide(identity.as_str());
    assert(units@.drop_last() =~= utf16_of(identity@));
    let h = fnv1a_but_last(&units);
    let mut key = String::new();
    push_hex16(&mut key, h);
    key
}

/// The friendly name read for a target: none when the query failed (a
/// non-zero code), else the zero-terminated UTF-16 name buffer decoded.
pub fn target_name(code: i32, raw_name: &[u16]) -> (name: Option<String>)
    ensures
        code != 0 ==> name is None,
        code == 0 ==> (name matches Some(n) && n@ == utf16_lossy(before_nul(raw_name@))),
{
    if code != 0 {
        return None;
    }
    Some(wide_array_to_string(raw_name))
}

/// The outcome of a system call that returns an unsigned status code:
/// success for 0, else `<name> failed with code <code>`.
pub fn check_win32_u32(code: u32, name: &str) -> (r: Result<(), String>)
    ensures
        code == 0 ==> r is Ok,
        code != 0 ==> (r matches Err(e) && e@ == name@ + " failed with code "@ + decimal(
            code as nat,
        )),
{
    if code == 0 {
        Ok(())
    } else {
        let mut e = String::from_str(name);
        e.append(" failed with code ");
        push_decimal(&mut e, code as u64);
        Err(e)
    }
}

/// The outcome of a system call that returns a signed status code, read as
/// the unsigned code with the same bits.
pub fn check_win32_i32(code: i32, name: &str) -> (r: Result<(), String>)
    ensures
        code == 0 ==> r is Ok,
        code != 0 ==> (r matches Err(e) && e@ == name@ + " failed with code "@ + decimal(
            (code as u32) as nat,
        )),
{
    let unsigned: u32 = code as u32;
    assert(code == 0 <==> unsigned == 0) by (bit_vector)
        requires
            unsigned == code as u32,
    ;
    check_win32_u32(unsigned, name)
}

/// The HDR state of a target from the advanced-colour value the system
/// reports: bit 0 is "supported", bit 1 "enabled", bit 3 "force disabled".
pub fn status_from_color_info(target: DisplayTarget, value: u32) -> (s: AdvancedColorStatus)
    ensures
        s.target == target,
        s.supported == (value & 1 != 0),
        s.enabled == (value & 2 != 0),
        s.force_disabled == (value & 8 != 0),
{
    AdvancedColorStatus {
        target,
        supported: (value & 1) != 0,
        enabled: (value & 2) != 0,
        force_disabled: (value & 8) != 0,
    }
}

/// Whether `keys` already holds `key`.
fn holds_key(keys: &Vec<String>, key: &String) -> (b: bool)
    ensures
        b == keys.deep_view().contains(key@),
{
    let mut i: usize = 0;
    while i < keys.len()
        invariant
            i <= keys.len(),
            forall|j: int| 0 <= j < i ==> keys@[j]@ != key@,
        decreases keys.len() - i,
    {
        if keys[i] == *key {
            assert(keys.deep_view()[i as int] == key@);
            return true;
        }
        i = i + 1;
    }
    false
}

/// The set of selected keys: every entry trimmed, blank ones dropped, each
/// key once.
pub fn selected_set(selected_targets: &[String]) -> (keys: Vec<String>)
    ensures
        keys.deep_view().no_duplicates(),
        forall|k: Seq<char>| keys.deep_view().contains(k) <==> picks(selected_targets.deep_view(), k),
        keys.deep_view().len() == 0 <==> !picks_any(selected_targets.deep_view()),
{
    let ghost sel = selected_targets.deep_view();
    let mut keys: Vec<String> = Vec::new();
    let mut i: usize = 0;
    while i < selected_targets.len()
        invariant
            sel == selected_targets.deep_view(),
            i <= sel.len(),
            keys.deep_view().no_duplicates(),
            forall|k: Seq<char>| keys.deep_view().contains(k) <==> picks(sel.subrange(0, i as int), k),
            keys.deep_view().len() == 0 <==> !picks_any(sel.subrange(0, i as int)),
        decreases sel.len() - i,
    {
        let item = trim(selected_targets[i].as_str());
        let ghost before = keys.deep_view();
        let ghost s0 = sel.subrange(0, i as int);
        let ghost s1 = sel.subrange(0, i + 1);
        proof {
            assert(sel[i as int] == selected_targets@[i as int]@);
            assert forall|j: int| 0 <= j < i implies s1[j] == s0[j] by {}
            assert(s1[i as int] == sel[i as int]);
            assert(item@ == trimmed(s1[i as int]));
        }
        let nonblank = item.as_str().unicode_len() > 0;
        let mut pushed = false;
        if nonblank && !holds_key(&keys, &item) {
            keys.push(item);
            pushed = true;
            proof {
                assert(keys.deep_view() =~= before.push(item@));
            }
        }
        proof {
            assert(pushed ==> keys.deep_view() == before.push(item@));
            assert(!pushed ==> keys.deep_view() == before);
            assert(!pushed ==> (!nonblank || before.contains(item@)));
            assert forall|k: Seq<char>| keys.deep_view().contains(k) <==> picks(s1, k) by {
                if picks(s1, k) {
                    let j = choose|j: int| 0 <= j < s1.len() && trimmed(s1[j]) == k;
                    if j < i {
                        assert(s0[j] == s1[j]);
                        assert(picks(s0, k));
                        assert(before.contains(k));
                        if pushed {
                            assert(keys.deep_view()[before.len() as int] == item@);
                            let m = choose|m: int| 0 <= m < before.len() && before[m] == k;
                            assert(keys.deep_view()[m] == k);
                        }
                    } else {
                        assert(k == item@);
                        if pushed {
                            assert(keys.deep_view()[before.len() as int] == item@);
                        }
                    }
                }
                if keys.deep_view().contains(k) {
                    let m = choose|m: int| 0 <= m < keys.deep_view().len() && keys.deep_view()[m] == k;
                    if m < before.len() {
                        assert(before[m] == k);
                        assert(before.contains(k));
                        assert(picks(s0, k));
                        let j = choose|j: int| 0 <= j < s0.len() && trimmed(s0[j]) == k;
                        assert(s1[j] == s0[j]);
                    } else {
                        assert(pushed);
                        assert(k == item@);
                        assert(trimmed(s1[i as int]) == k);
                    }
                }
            }
            if keys.deep_view().len() == 0 {
                assert(!pushed);
                assert forall|j: int| 0 <= j < s1.len() implies trimmed(s1[j]).len() == 0 by {
                    if j < i {
                        assert(s0[j] == s1[j]);
                    } else {
                        assert(!nonblank);
                    }
                }
            } else {
                let k = keys.deep_view()[0];
                assert(keys.deep_view().contains(k));
                assert(picks(s1, k));
                let j = choose|j: int| 0 <= j < s1.len() && trimmed(s1[j]) == k;
                assert(trimmed(s1[j]).len() > 0);
            }
        }
        i = i + 1;
    }
    assert(sel.subrange(0, sel.len() as int) =~= sel);
    keys
}

/// Whether the display with `key` is controlled by the selection `keys`
/// (from `selected_set`): all displays when `keys` is empty.
pub fn is_controlled(keys: &Vec<String>, key: &String) -> (b: bool)
    ensures
        b == (keys.deep_view().len() == 0 || keys.deep_view().contains(key@)),
{
    keys.len() == 0 || holds_key(keys, key)
}

/// The display with `key` is controlled by a set of selected keys: every
/// display when the set is empty, else the ones in it.
pub open spec fn keys_control(keys: Seq<Seq<char>>, key: Seq<char>) -> bool {
    keys.len() == 0 || keys.contains(key)
}

/// The targets that a set of selected keys controls, in order.
pub open spec fn kept_by(targets: Seq<TargetView>, keys: Seq<Seq<char>>) -> Seq<TargetView>
    decreases targets.len(),
{
    if targets.len() == 0 {
        Seq::empty()
    } else if keys_control(keys, targets.last().key) {
        kept_by(targets.drop_last(), keys).push(targets.last())
    } else {
        kept_by(targets.drop_last(), keys)
    }
}

/// A set of keys made by `selected_set` controls what the raw selection does.
pub proof fn lemma_kept_by_selection(targets: Seq<TargetView>, keys: Seq<Seq<char>>, selected: Seq<Seq<char>>)
    requires
        forall|k: Seq<char>| keys.contains(k) <==> picks(selected, k),
        keys.len() == 0 <==> !picks_any(selected),
    ensures
        kept_by(targets, keys) == controlled(targets, selected),
    decreases targets.len(),
{
    if targets.len() > 0 {
        lemma_kept_by_selection(targets.drop_last(), keys, selected);
        assert(keys_control(keys, targets.last().key) == controls(selected, targets.last().key));
    }
}

/// The targets that a set of selected keys controls, in order.
pub fn select_by_keys(targets: &[DisplayTarget], keys: &Vec<String>) -> (chosen: Vec<DisplayTarget>)
    ensures
        chosen.deep_view() == kept_by(targets.deep_view(), keys.deep_view()),
{
    let ghost ts = targets.deep_view();
    let mut chosen: Vec<DisplayTarget> = Vec::new();
    let mut i: usize = 0;
    while i < targets.len()
        invariant
            ts == targets.deep_view(),
            i <= ts.len(),
            chosen.deep_view() == kept_by(ts.subrange(0, i as int), keys.deep_view()),
        decreases ts.len() - i,
    {
        let t = &targets[i];
        let c = is_controlled(keys, &t.key);
        proof {
            assert(ts[i as int] == t@);
            assert(ts.subrange(0, i + 1).drop_last() =~= ts.subrange(0, i as int));
        }
        if c {
            chosen.push(t.clone());
        }
        assert(chosen.deep_view() =~= kept_by(ts.subrange(0, i + 1), keys.deep_view()));
        i = i + 1;
    }
    assert(ts.subrange(0, ts.len() as int) =~= ts);
    chosen
}

/// Whether the target of `p` (its adapter and target id) is among `targets`.
fn targets_hold(targets: &Vec<DisplayTarget>, p: &DisplayPath) -> (b: bool)
    ensures
        b == has_target(targets.deep_view(), *p),
{
    let mut i: usize = 0;
    while i < targets.len()
        invariant
            i <= targets.len(),
            forall|j: int| 0 <= j < i ==> !same_target(#[trigger] targets.deep_view()[j], *p),
        decreases targets.len() - i,
    {
        let t = &targets[i];
        if t.adapter_high_part == p.adapter_high_part && t.adapter_low_part == p.adapter_low_part
            && t.target_id == p.target_id {
            assert(same_target(targets.deep_view()[i as int], *p));
            return true;
        }
        assert(targets.deep_view()[i as int] == t@);
        i = i + 1;
    }
    false
}

/// The display targets of the active paths: one per adapter and target id,
/// in path order,
/// named by the monitor's friendly name unless that is blank, else
/// `Display <n>` where n counts the targets so far.
pub fn list_targets(paths: &[DisplayPath]) -> (targets: Vec<DisplayTarget>)
    ensures
        targets.deep_view() == targets_of(paths@),
{
    let mut targets: Vec<DisplayTarget> = Vec::new();
    let mut i: usize = 0;
    while i < paths.len()
        invariant
            i <= paths@.len(),
            targets.deep_view() == targets_of(paths@.subrange(0, i as int)),
            targets@.len() <= i,
        decreases paths@.len() - i,
    {
        let p = &paths[i];
        proof {
            assert(paths@.subrange(0, i + 1).drop_last() =~= paths@.subrange(0, i as int));
            assert(paths@.subrange(0, i + 1).last() == *p);
        }
        let key = target_key(&p.device_path, &p.friendly_name, p.target_id);
        proof {
            lemma_targets_len(paths@.subrange(0, i as int));
        }
        if !targets_hold(&targets, p) {
            let position = targets.len();
            let mut fallback = true;
            let mut name = String::new();
            match &p.friendly_name {
                Some(n) => {
                    let t = trim(n.as_str());
                    if t.as_str().unicode_len() > 0 {
                        name = n.clone();
                        fallback = false;
                    }
                },
                None => {},
            }
            if fallback {
                name.append("Display ");
                push_decimal(&mut name, position as u64 + 1);
            }
            proof {
                assert(name@ == display_name(*p, position as nat));
            }
            targets.push(
                DisplayTarget {
                    key,
                    name,
                    adapter_high_part: p.adapter_high_part,
                    adapter_low_part: p.adapter_low_part,
                    target_id: p.target_id,
                },
            );
        }
        assert(targets.deep_view() =~= targets_of(paths@.subrange(0, i + 1)));
        i = i + 1;
    }
    assert(paths@.subrange(0, paths@.len() as int) =~= paths@);
    targets
}

proof fn lemma_targets_len(paths: Seq<DisplayPath>)
    ensures
        targets_of(paths).len() <= paths.len(),
    decreases paths.len(),
{
    if paths.len() > 0 {
        lemma_targets_len(paths.drop_last());
    }
}

/// A target's key does not depend on the adapter's id, which the system
/// assigns anew at every boot: two readings of the same display that differ
/// only there give the same key, of 16 characters.
pub proof fn law_key_survives_reboot(before: DisplayPath, after: DisplayPath)
    requires
        opt_view(before.device_path) == opt_view(after.device_path),
        opt_view(before.friendly_name) == opt_view(after.friendly_name),
        before.target_id == after.target_id,
    ensures
        path_key(before) == path_key(after),
        path_key(before).len() == 16,
{
}

proof fn lemma_blank_trims_to_empty(s: Seq<char>)
    requires
        forall|j: int| 0 <= j < s.len() ==> white_space(#[trigger] s[j]),
    ensures
        trimmed(s).len() == 0,
    decreases s.len(),
{
    if s.len() > 0 {
        let t = s.drop_first();
        assert forall|j: int| 0 <= j < t.len() implies white_space(#[trigger] t[j]) by {
            assert(t[j] == s[j + 1]);
        }
        lemma_blank_trims_to_empty(t);
    }
}

proof fn lemma_controlled_all(targets: Seq<TargetView>, selected: Seq<Seq<char>>)
    requires
        !picks_any(selected),
    ensures
        controlled(targets, selected) == targets,
    decreases targets.len(),
{
    if targets.len() > 0 {
        lemma_controlled_all(targets.drop_last(), selected);
        assert(targets.drop_last().push(targets.last()) =~= targets);
    }
}

/// A selection whose entries hold only white space controls every display,
/// exactly as an empty selection does.
pub proof fn law_blank_selection_controls_all(selected: Seq<Seq<char>>, targets: Seq<TargetView>)
    requires
        forall|i: int, j: int|
            0 <= i < selected.len() && 0 <= j < selected[i].len() ==> white_space(#[trigger] selected[i][j]),
    ensures
        !picks_any(selected),
        controlled(targets, selected) == targets,
        controlled(targets, selected) == controlled(targets, Seq::<Seq<char>>::empty()),
{
    assert forall|i: int| 0 <= i < selected.len() implies trimmed(#[trigger] selected[i]).len() == 0 by {
        let e = selected[i];
        assert forall|j: int| 0 <= j < e.len() implies white_space(#[trigger] e[j]) by {
            assert(white_space(selected[i][j]));
        }
        lemma_blank_trims_to_empty(e);
    }
    lemma_controlled_all(targets, selected);
    lemma_controlled_all(targets, Seq::<Seq<char>>::empty());
}

/// Only the trimmed entries count: two selections whose entries agree
/// after trimming control the same displays (so ` k ` selects what `k`
/// does).
pub proof fn law_selection_reads_trimmed(a: Seq<Seq<char>>, b: Seq<Seq<char>>, targets: Seq<TargetView>)
    requires
        a.len() == b.len(),
        forall|i: int| 0 <= i < a.len() ==> trimmed(#[trigger] a[i]) == trimmed(b[i]),
    ensures
        controlled(targets, a) == controlled(targets, b),
    decreases targets.len(),
{
    assert forall|k: Seq<char>| picks(a, k) == picks(b, k) by {
        if picks(a, k) {
            let i = choose|i: int| 0 <= i < a.len() && trimmed(a[i]) == k;
            assert(trimmed(b[i]) == k);
        }
        if picks(b, k) {
            let i = choose|i: int| 0 <= i < b.len() && trimmed(b[i]) == k;
            assert(trimmed(a[i]) == k);
        }
    }
    if picks_any(a) {
        let i = choose|i: int| 0 <= i < a.len() && trimmed(a[i]).len() > 0;
        assert(trimmed(b[i]).len() > 0);
    }
    if picks_any(b) {
        let i = choose|i: int| 0 <= i < b.len() && trimmed(b[i]).len() > 0;
        assert(trimmed(a[i]).len() > 0);
    }
    if targets.len() > 0 {
        law_selection_reads_trimmed(a, b, targets.drop_last());
    }
}

/// No two listed targets are the same adapter's same target.
pub proof fn law_targets_unique(paths: Seq<DisplayPath>)
    ensures
        forall|i: int, j: int|
            0 <= i < j < targets_of(paths).len() ==> !(#[trigger] targets_of(paths)[i].adapter_high_part
                == #[trigger] targets_of(paths)[j].adapter_high_part && targets_of(paths)[i].adapter_low_part
                == targets_of(paths)[j].adapter_low_part && targets_of(paths)[i].target_id
                == targets_of(paths)[j].target_id),
    decreases paths.len(),
{
    if paths.len() > 0 {
        law_targets_unique(paths.drop_last());
        let prev = targets_of(paths.drop_last());
        let cur = targets_of(paths);
        assert forall|i: int, j: int| 0 <= i < j < cur.len() implies !(cur[i].adapter_high_part
            == cur[j].adapter_high_part && cur[i].adapter_low_part == cur[j].adapter_low_part
            && cur[i].target_id == cur[j].target_id) by {
            if j < prev.len() {
                assert(cur[i] == prev[i]);
                assert(cur[j] == prev[j]);
            } else {
                assert(cur[i] == prev[i]);
                assert(!has_target(prev, paths.last()));
                assert(!same_target(prev[i], paths.last()));
            }
        }
    }
}

/// Every path's target is listed, under that path's key when it is the
/// first path to it.
pub proof fn law_every_path_listed(paths: Seq<DisplayPath>)
    ensures
        forall|i: int| 0 <= i < paths.len() ==> has_target(targets_of(paths), #[trigger] paths[i]),
        forall|i: int|
            0 <= i < paths.len() && !has_target(targets_of(paths.subrange(0, i)), #[trigger] paths[i])
                ==> exists|j: int|
                0 <= j < targets_of(paths).len() && same_target(targets_of(paths)[j], paths[i])
                    && targets_of(paths)[j].key == path_key(paths[i]),
    decreases paths.len(),
{
    if paths.len() > 0 {
        let rest = paths.drop_last();
        law_every_path_listed(rest);
        let prev = targets_of(rest);
        let cur = targets_of(paths);
        assert(prev.len() <= cur.len());
        assert forall|j: int| 0 <= j < prev.len() implies cur[j] == prev[j] by {}
        assert forall|i: int| 0 <= i < paths.len() implies has_target(cur, #[trigger] paths[i]) by {
            if i < paths.len() - 1 {
                assert(paths[i] == rest[i]);
                assert(has_target(prev, rest[i]));
                let j = choose|j: int| 0 <= j < prev.len() && same_target(prev[j], rest[i]);
                assert(cur[j] == prev[j]);
            } else if !has_target(prev, paths.last()) {
                assert(same_target(cur[prev.len() as int], paths.last()));
            }
        }
        assert forall|i: int|
            0 <= i < paths.len() && !has_target(targets_of(paths.subrange(0, i)), #[trigger] paths[i])
            implies exists|j: int|
            0 <= j < cur.len() && same_target(cur[j], paths[i]) && cur[j].key == path_key(paths[i]) by {
            if i < paths.len() - 1 {
                assert(paths[i] == rest[i]);
                assert(rest.subrange(0, i) =~= paths.subrange(0, i));
                let j = choose|j: int|
                    0 <= j < prev.len() && same_target(prev[j], rest[i]) && prev[j].key == path_key(rest[i]);
                assert(cur[j] == prev[j]);
            } else {
                assert(paths.subrange(0, i) =~= rest);
                assert(same_target(cur[prev.len() as int], paths[i]));
            }
        }
    }
}

/// The controlled targets are the listed ones, in list order, that are
/// either named by a non-blank entry of the selection (after trimming), or
/// all of them when every entry is blank.
pub proof fn law_controlled_filters(targets: Seq<TargetView>, selected: Seq<Seq<char>>)
    ensures
        controlled(targets, selected) == targets.filter(
            |t: TargetView|
                (forall|i: int| 0 <= i < selected.len() ==> trimmed(#[trigger] selected[i]).len() == 0)
                    || (t.key.len() > 0 && exists|i: int|
                    0 <= i < selected.len() && trimmed(#[trigger] selected[i]) == t.key),
        ),
    decreases targets.len(),
{
    reveal(Seq::filter);
    if targets.len() > 0 {
        law_controlled_filters(targets.drop_last(), selected);
    }
}

/// The targets kept by a set of selected keys are the listed ones, in list
/// order, whose key is in the set, or all of them when the set is empty.
pub proof fn law_kept_by_filters(targets: Seq<TargetView>, keys: Seq<Seq<char>>)
    ensures
        kept_by(targets, keys) == targets.filter(|t: TargetView| keys.len() == 0 || keys.contains(t.key)),
    decreases targets.len(),
{
    reveal(Seq::filter);
    if targets.len() > 0 {
        law_kept_by_filters(targets.drop_last(), keys);
    }
}

/// A monitor with a known device path keeps its key whatever its name and
/// its target id: the key is the hash of the device path alone.
pub proof fn law_key_follows_device_path(
    device_path: Seq<char>,
    name_a: Option<Seq<char>>,
    name_b: Option<Seq<char>>,
    id_a: u32,
    id_b: u32,
)
    requires
        device_path.len() > 0,
    ensures
        key_of(Some(device_path), name_a, id_a) == key_of(Some(device_path), name_b, id_b),
        key_of(Some(device_path), name_a, id_a) == hex16(fnv1a(utf16_of(device_path))),
{
}

} // verus!
