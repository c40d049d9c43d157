//! The tray icon's model: what its window messages mean, which command a
//! menu item stands for, and what the menu shows.
use vstd::prelude::*;
use vstd::string::*;
use crate::hdr::{AdvancedColorStatus, StatusView};
use crate::state::AppState;
use crate::text::{utf16_of, wide};
use crate::text::{decimal, push_decimal};

verus! {

/// The message the tray icon sends to its window (`WM_APP + 1`).
pub const WM_TRAY: u32 = 0x8001;
/// A menu item was chosen.
pub const WM_COMMAND: u32 = 0x0111;
/// The window is being destroyed.
pub const WM_DESTROY: u32 = 0x0002;
/// The left mouse button was released.
pub const WM_LBUTTONUP: u32 = 0x0202;
/// The right mouse button was released.
pub const WM_RBUTTONUP: u32 = 0x0205;

/// Menu item: switch automatic HDR on or off.
pub const ID_TOGGLE_AUTO: usize = 1001;
/// Menu item: switch HDR on now.
pub const ID_HDR_ON: usize = 1002;
/// Menu item: switch HDR off now.
pub const ID_HDR_OFF: usize = 1003;
/// Menu item: quit.
pub const ID_QUIT: usize = 1005;
/// Menu item: switch start with the system on or off.
pub const ID_TOGGLE_STARTUP: usize = 1006;
/// Menu item: control all displays.
pub const ID_TARGET_ALL: usize = 1100;
/// Menu item of the first display; display `i` has `ID_TARGET_BASE + i`.
pub const ID_TARGET_BASE: usize = 1200;
/// Last menu item id that stands for a display.
pub const ID_TARGET_LAST: usize = 1999;

/// What a message to the tray window asks for.
#[derive(Debug, Clone, Copy, PartialEq, Eq, Structural)]
pub enum WindowEvent {
    /// Show the tray menu.
    ShowMenu,
    /// A tray notification that needs nothing; answered with 0.
    Handled,
    /// The menu item with this id was chosen.
    Command(usize),
    /// The window goes away: remove the icon and leave the message loop.
    Destroy,
    /// Not ours: pass it to the default window procedure.
    Default,
}

/// What a message to the tray window means: a click on the icon (either
/// button, on release) shows the menu; a menu choice carries the item id in
/// the low 16 bits of `wparam`.
pub fn window_event(msg: u32, wparam: usize, lparam: isize) -> (e: WindowEvent)
    ensures
        e == if msg == WM_TRAY {
            if (lparam as u32) == WM_RBUTTONUP || (lparam as u32) == WM_LBUTTONUP {
                WindowEvent::ShowMenu
            } else {
                WindowEvent::Handled
            }
        } else if msg == WM_COMMAND {
            WindowEvent::Command(wparam & 0xffff)
        } else if msg == WM_DESTROY {
            WindowEvent::Destroy
        } else {
            WindowEvent::Default
        },
{
    if msg == WM_TRAY {
        let event = lparam as u32;
        if event == WM_RBUTTONUP || event == WM_LBUTTONUP {
            WindowEvent::ShowMenu
        } else {
            WindowEvent::Handled
        }
    } else if msg == WM_COMMAND {
        WindowEvent::Command(wparam & 0xffff)
    } else if msg == WM_DESTROY {
        WindowEvent::Destroy
    } else {
        WindowEvent::Default
    }
}

/// The command a menu item stands for.
#[derive(Debug, Clone, Copy, PartialEq, Eq, Structural)]
pub enum MenuCommand {
    ToggleAuto,
    HdrOn,
    HdrOff,
    SelectAllTargets,
    /// Toggle the display at this position of the last display menu.
    ToggleTarget(usize),
    ToggleStartup,
    Quit,
    /// Not a command (a label, or an unknown id).
    Ignore,
}

/// The command of a menu item id.
pub fn handle_command(id: usize) -> (c: MenuCommand)
    ensures
        c == if id == ID_TOGGLE_AUTO {
            MenuCommand::ToggleAuto
        } else if id == ID_HDR_ON {
            MenuCommand::HdrOn
        } else if id == ID_HDR_OFF {
            MenuCommand::HdrOff
        } else if id == ID_TARGET_ALL {
            MenuCommand::SelectAllTargets
        } else if ID_TARGET_BASE <= id <= ID_TARGET_LAST {
            MenuCommand::ToggleTarget((id - ID_TARGET_BASE) as usize)
        } else if id == ID_TOGGLE_STARTUP {
            MenuCommand::ToggleStartup
        } else if id == ID_QUIT {
            MenuCommand::Quit
        } else {
            MenuCommand::Ignore
        },
{
    if id == ID_TOGGLE_AUTO {
        MenuCommand::ToggleAuto
    } else if id == ID_HDR_ON {
        MenuCommand::HdrOn
    } else if id == ID_HDR_OFF {
        MenuCommand::HdrOff
    } else if id == ID_TARGET_ALL {
        MenuCommand::SelectAllTargets
    } else if ID_TARGET_BASE <= id && id <= ID_TARGET_LAST {
        MenuCommand::ToggleTarget(id - ID_TARGET_BASE)
    } else if id == ID_TOGGLE_STARTUP {
        MenuCommand::ToggleStartup
    } else if id == ID_QUIT {
        MenuCommand::Quit
    } else {
        MenuCommand::Ignore
    }
}

/// The key shown at a position of the last display menu, if there is one.
pub fn menu_key(keys: &Vec<String>, index: usize) -> (k: Option<String>)
    ensures
        index < keys@.len() ==> k == Some(keys@[index as int]),
        index >= keys@.len() ==> k is None,
{
    if index < keys.len() {
        Some(keys[index].clone())
    } else {
        None
    }
}

/// Flag: the item is ticked.
pub const MF_CHECKED: u32 = 0x0008;
/// Flag: the item is greyed out.
pub const MF_GRAYED: u32 = 0x0002;
/// Flag: the item opens a submenu.
pub const MF_POPUP: u32 = 0x0010;
/// Flag: the item is a separator line.
pub const MF_SEPARATOR: u32 = 0x0800;

/// The menu flags of an item: ticked when checked, greyed out when not
/// enabled.
pub fn item_flags(checked: bool, enabled: bool) -> (flags: u32)
    ensures
        flags == (if checked { MF_CHECKED } else { 0u32 }) | (if enabled { 0u32 } else { MF_GRAYED }),
{
    let mut flags: u32 = 0;
    if checked {
        flags = flags | MF_CHECKED;
    }
    if !enabled {
        flags = flags | MF_GRAYED;
    }
    proof {
        let c: u32 = if checked { MF_CHECKED } else { 0u32 };
        let g: u32 = if enabled { 0u32 } else { MF_GRAYED };
        assert((0u32 | c) == c) by (bit_vector);
        assert((c | 0u32) == c) by (bit_vector);
    }
    flags
}

/// One entry of a menu.
pub enum MenuItem {
    /// A command or a label: the id chosen (0 for a label), its text, and
    /// whether it is ticked and can be chosen.
    Entry { id: usize, label: String, checked: bool, enabled: bool },
    /// A separator line.
    Separator,
    /// The submenu of displays, with its title.
    TargetsPopup { label: String },
}

/// A menu entry as a mathematical value.
pub enum MenuItemView {
    Entry { id: usize, label: Seq<char>, checked: bool, enabled: bool },
    Separator,
    TargetsPopup { label: Seq<char> },
}

impl View for MenuItem {
    type V = MenuItemView;

    open spec fn view(&self) -> MenuItemView {
        match self {
            MenuItem::Entry { id, label, checked, enabled } => MenuItemView::Entry {
                id: *id,
                label: label@,
                checked: *checked,
                enabled: *enabled,
            },
            MenuItem::Separator => MenuItemView::Separator,
            MenuItem::TargetsPopup { label } => MenuItemView::TargetsPopup { label: label@ },
        }
    }
}

impl DeepView for MenuItem {
    type V = MenuItemView;

    open spec fn deep_view(&self) -> MenuItemView {
        self@
    }
}

/// An entry that can be chosen and is not ticked.
pub open spec fn command_entry(id: usize, label: Seq<char>) -> MenuItemView {
    MenuItemView::Entry { id, label, checked: false, enabled: true }
}

/// A label: an entry that cannot be chosen.
pub open spec fn label_entry(label: Seq<char>) -> MenuItemView {
    MenuItemView::Entry { id: 0, label, checked: false, enabled: false }
}

fn entry(id: usize, label: &str, checked: bool, enabled: bool) -> (m: MenuItem)
    ensures
        m@ == (MenuItemView::Entry { id, label: label@, checked, enabled }),
{
    MenuItem::Entry { id, label: String::from_str(label), checked, enabled }
}

/// The number of displays that support HDR, and of those with HDR on.
pub open spec fn hdr_counts(ss: Seq<StatusView>) -> (nat, nat)
    decreases ss.len(),
{
    if ss.len() == 0 {
        (0, 0)
    } else {
        let (s, e) = hdr_counts(ss.drop_last());
        let last = ss.last();
        (s + if last.supported { 1nat } else { 0nat }, e + if last.supported && last.enabled {
            1nat
        } else {
            0nat
        })
    }
}

/// The HDR line of the menu: `HDR: no active displays`, `HDR: <on>/<capable>
/// displays on`, or `HDR: <error>`.
pub open spec fn hdr_label_of(statuses: Result<Seq<StatusView>, Seq<char>>) -> Seq<char> {
    match statuses {
        Ok(ss) => if ss.len() == 0 {
            "HDR: no active displays"@
        } else {
            "HDR: "@ + decimal(hdr_counts(ss).1) + "/"@ + decimal(hdr_counts(ss).0) + " displays on"@
        },
        Err(e) => "HDR: "@ + e,
    }
}

/// The states as a mathematical value.
pub open spec fn statuses_view(statuses: Result<Vec<AdvancedColorStatus>, String>) -> Result<Seq<StatusView>, Seq<char>> {
    match statuses {
        Ok(v) => Ok(v.deep_view()),
        Err(e) => Err(e@),
    }
}

/// The HDR line of the menu for the selected displays' states.
pub fn hdr_status_label(statuses: &Result<Vec<AdvancedColorStatus>, String>) -> (label: String)
    ensures
        label@ == hdr_label_of(statuses_view(*statuses)),
{
    match statuses {
        Err(e) => {
            let mut l = String::from_str("HDR: ");
            l.append(e.as_str());
            l
        },
        Ok(v) => {
            if v.len() == 0 {
                return String::from_str("HDR: no active displays");
            }
            let ghost ss = v.deep_view();
            let mut supported: usize = 0;
            let mut enabled: usize = 0;
            let mut i: usize = 0;
            while i < v.len()
                invariant
                    ss == v.deep_view(),
                    i <= ss.len(),
                    supported <= i,
                    enabled <= i,
                    (supported as nat, enabled as nat) == hdr_counts(ss.subrange(0, i as int)),
                decreases ss.len() - i,
            {
                proof {
                    assert(ss.subrange(0, i + 1).drop_last() =~= ss.subrange(0, i as int));
                    assert(ss[i as int] == v@[i as int]@);
                }
                if v[i].supported {
                    supported = supported + 1;
                    if v[i].enabled {
                        enabled = enabled + 1;
                    }
                }
                i = i + 1;
            }
            assert(ss.subrange(0, ss.len() as int) =~= ss);
            let mut l = String::from_str("HDR: ");
            push_decimal(&mut l, enabled as u64);
            l.append("/");
            push_decimal(&mut l, supported as u64);
            l.append(" displays on");
            l
        },
    }
}

/// The status line of the menu: `Last error: <error>` or `Status: OK`.
pub fn status_label(last_error: &Option<String>) -> (label: String)
    ensures
        label@ == match last_error {
            Some(e) => "Last error: "@ + e@,
            None => "Status: OK"@,
        },
{
    match last_error {
        Some(e) => {
            let mut l = String::from_str("Last error: ");
            l.append(e.as_str());
            l
        },
        None => String::from_str("Status: OK"),
    }
}

/// The entries of the tray menu, in order: the two toggles, the display
/// submenu, the two manual HDR commands, the three status lines, and Quit,
/// with separators between the groups.
pub open spec fn main_menu_of(
    auto_enabled: bool,
    startup_enabled: bool,
    netflix_running: bool,
    hdr_label: Seq<char>,
    status_line: Seq<char>,
) -> Seq<MenuItemView> {
    seq![
        command_entry(ID_TOGGLE_AUTO, if auto_enabled { "Disable auto HDR"@ } else { "Enable auto HDR"@ }),
        command_entry(
            ID_TOGGLE_STARTUP,
            if startup_enabled { "Disable start with Windows"@ } else { "Enable start with Windows"@ },
        ),
        MenuItemView::TargetsPopup { label: "HDR displays"@ },
        MenuItemView::Separator,
        command_entry(ID_HDR_ON, "Turn HDR on now"@),
        command_entry(ID_HDR_OFF, "Turn HDR off now"@),
        MenuItemView::Separator,
        label_entry(if netflix_running { "Netflix: running"@ } else { "Netflix: not running"@ }),
        label_entry(hdr_label),
        label_entry(status_line),
        MenuItemView::Separator,
        command_entry(ID_QUIT, "Quit"@),
    ]
}

/// The tray menu for the current state.
pub fn main_menu(
    state: &AppState,
    startup_enabled: bool,
    statuses: &Result<Vec<AdvancedColorStatus>, String>,
) -> (items: Vec<MenuItem>)
    ensures
        items.deep_view() == main_menu_of(
            state.config.auto_enabled,
            startup_enabled,
            state.netflix_running,
            hdr_label_of(statuses_view(*statuses)),
            match state.last_error {
                Some(e) => "Last error: "@ + e@,
                None => "Status: OK"@,
            },
        ),
{
    let mut items: Vec<MenuItem> = Vec::new();
    let auto_label = if state.config.auto_enabled {
        "Disable auto HDR"
    } else {
        "Enable auto HDR"
    };
    let startup_label = if startup_enabled {
        "Disable start with Windows"
    } else {
        "Enable start with Windows"
    };
    let netflix_label = if state.netflix_running {
        "Netflix: running"
    } else {
        "Netflix: not running"
    };
    items.push(entry(ID_TOGGLE_AUTO, auto_label, false, true));
    items.push(entry(ID_TOGGLE_STARTUP, startup_label, false, true));
    items.push(MenuItem::TargetsPopup { label: String::from_str("HDR displays") });
    items.push(MenuItem::Separator);
    items.push(entry(ID_HDR_ON, "Turn HDR on now", false, true));
    items.push(entry(ID_HDR_OFF, "Turn HDR off now", false, true));
    items.push(MenuItem::Separator);
    items.push(entry(0, netflix_label, false, false));
    let hdr_label = hdr_status_label(statuses);
    items.push(MenuItem::Entry { id: 0, label: hdr_label, checked: false, enabled: false });
    let status = status_label(&state.last_error);
    items.push(MenuItem::Entry { id: 0, label: status, checked: false, enabled: false });
    items.push(MenuItem::Separator);
    items.push(entry(ID_QUIT, "Quit", false, true));
    assert(items.deep_view() =~= main_menu_of(
        state.config.auto_enabled,
        startup_enabled,
        state.netflix_running,
        hdr_label_of(statuses_view(*statuses)),
        match state.last_error {
            Some(e) => "Last error: "@ + e@,
            None => "Status: OK"@,
        },
    ));
    items
}

/// The display submenu, and the keys of its displays by position.
pub struct TargetMenu {
    pub items: Vec<MenuItem>,
    pub keys: Vec<String>,
}

/// The label of a display entry: its name, then its HDR state in brackets.
pub open spec fn target_label(s: StatusView) -> Seq<char> {
    s.target.name + " ("@ + (if s.supported {
        if s.enabled { "HDR on"@ } else { "HDR off"@ }
    } else {
        "HDR unsupported"@
    }) + ")"@
}

/// The entry of the display at position `i`: ticked when some displays are
/// selected and this one is among them, and choosable when it supports HDR.
pub open spec fn target_entry(selected: Seq<Seq<char>>, i: int, s: StatusView) -> MenuItemView {
    MenuItemView::Entry {
        id: (ID_TARGET_BASE + i) as usize,
        label: target_label(s),
        checked: selected.len() != 0 && selected.contains(s.target.key),
        enabled: s.supported,
    }
}

/// The display submenu: "All displays" (ticked when nothing is selected),
/// a separator, then one entry per display, or a line saying there is none
/// or why the displays could not be read.
pub open spec fn target_menu_of(
    selected: Seq<Seq<char>>,
    statuses: Result<Seq<StatusView>, Seq<char>>,
) -> Seq<MenuItemView> {
    let head = seq![
        MenuItemView::Entry {
            id: ID_TARGET_ALL,
            label: "All displays"@,
            checked: selected.len() == 0,
            enabled: true,
        },
        MenuItemView::Separator,
    ];
    match statuses {
        Ok(ss) => if ss.len() == 0 {
            head.push(label_entry("No active displays"@))
        } else {
            head + Seq::new(ss.len(), |i: int| target_entry(selected, i, ss[i]))
        },
        Err(e) => head.push(label_entry("Display error: "@ + e)),
    }
}

/// The keys of the display entries, by position.
pub open spec fn target_keys_of(statuses: Result<Seq<StatusView>, Seq<char>>) -> Seq<Seq<char>> {
    match statuses {
        Ok(ss) => Seq::new(ss.len(), |i: int| ss[i].target.key),
        Err(_) => Seq::empty(),
    }
}

fn holds(list: &[String], key: &String) -> (b: bool)
    ensures
        b == list.deep_view().contains(key@),
{
    let mut i: usize = 0;
    while i < list.len()
        invariant
            i <= list@.len(),
            forall|j: int| 0 <= j < i ==> list@[j]@ != key@,
        decreases list@.len() - i,
    {
        if list[i] == *key {
            assert(list.deep_view()[i as int] == key@);
            return true;
        }
        i = i + 1;
    }
    false
}

/// The display submenu for the saved selection and every display's state.
pub fn build_target_menu(selected: &[String], statuses: &Result<Vec<AdvancedColorStatus>, String>) -> (menu: TargetMenu)
    requires
        statuses matches Ok(v) ==> v@.len() <= usize::MAX - ID_TARGET_BASE,
    ensures
        menu.items.deep_view() == target_menu_of(selected.deep_view(), statuses_view(*statuses)),
        menu.keys.deep_view() == target_keys_of(statuses_view(*statuses)),
{
    let all_checked = selected.len() == 0;
    let mut items: Vec<MenuItem> = Vec::new();
    items.push(entry(ID_TARGET_ALL, "All displays", all_checked, true));
    items.push(MenuItem::Separator);
    let mut keys: Vec<String> = Vec::new();
    let ghost sel = selected.deep_view();
    let ghost head = items.deep_view();
    assert(head =~= seq![
        MenuItemView::Entry {
            id: ID_TARGET_ALL,
            label: "All displays"@,
            checked: sel.len() == 0,
            enabled: true,
        },
        MenuItemView::Separator,
    ]);
    match statuses {
        Ok(v) => {
            if v.len() == 0 {
                items.push(entry(0, "No active displays", false, false));
                assert(items.deep_view() =~= head.push(label_entry("No active displays"@)));
            } else {
                let ghost ss = v.deep_view();
                let mut i: usize = 0;
                while i < v.len()
                    invariant
                        ss == v.deep_view(),
                        sel == selected.deep_view(),
                        all_checked == (sel.len() == 0),
                        ss.len() <= usize::MAX - ID_TARGET_BASE,
                        i <= ss.len(),
                        items.deep_view() == head + Seq::new(i as nat, |j: int| target_entry(sel, j, ss[j])),
                        keys.deep_view() == Seq::new(i as nat, |j: int| ss[j].target.key),
                    decreases ss.len() - i,
                {
                    let s = &v[i];
                    proof {
                        assert(ss[i as int] == s@);
                    }
                    let checked = !all_checked && holds(selected, &s.target.key);
                    let mut label = s.target.name.clone();
                    label.append(" (");
                    if s.supported {
                        if s.enabled {
                            label.append("HDR on");
                        } else {
                            label.append("HDR off");
                        }
                    } else {
                        label.append("HDR unsupported");
                    }
                    label.append(")");
                    let ghost before_items = items.deep_view();
                    let ghost before_keys = keys.deep_view();
                    items.push(
                        MenuItem::Entry {
                            id: ID_TARGET_BASE + i,
                            label,
                            checked,
                            enabled: s.supported,
                        },
                    );
                    let k = s.target.key.clone();
                    keys.push(k);
                    proof {
                        assert(keys.deep_view() =~= before_keys.push(ss[i as int].target.key));
                        assert(items.deep_view() =~= before_items.push(target_entry(sel, i as int, ss[i as int])));
                        assert(items.deep_view() =~= head + Seq::new((i + 1) as nat, |j: int| target_entry(sel, j, ss[j])));
                        assert(keys.deep_view() =~= Seq::new((i + 1) as nat, |j: int| ss[j].target.key));
                    }
                    i = i + 1;
                }
                assert(Seq::new(ss.len(), |j: int| target_entry(sel, j, ss[j])) =~= Seq::new(
                    i as nat,
                    |j: int| target_entry(sel, j, ss[j]),
                ));
            }
        },
        Err(e) => {
            let mut l = String::from_str("Display error: ");
            l.append(e.as_str());
            items.push(MenuItem::Entry { id: 0, label: l, checked: false, enabled: false });
            assert(items.deep_view() =~= head.push(label_entry("Display error: "@ + e@)));
        },
    }
    assert(items.deep_view() =~= target_menu_of(sel, statuses_view(*statuses)));
    assert(keys.deep_view() =~= target_keys_of(statuses_view(*statuses)));
    TargetMenu { items, keys }
}

/// Copies the tip text into the icon's fixed tip buffer: as many of its
/// UTF-16 units as fit, the rest of the buffer left as it was.
pub fn copy_tip(target: &mut Vec<u16>, value: &str)
    ensures
        final(target)@.len() == old(target)@.len(),
        forall|i: int| 0 <= i < final(target)@.len() ==> #[trigger] final(target)@[i] == if i < utf16_of(
            value@,
        ).len() {
            utf16_of(value@)[i]
        } else {
            old(target)@[i]
        },
{
    let wide_value = wide(value);
    let len = if wide_value.len() - 1 < target.len() {
        wide_value.len() - 1
    } else {
        target.len()
    };
    let ghost original = target@;
    let mut i: usize = 0;
    while i < len
        invariant
            wide_value@ == utf16_of(value@).push(0u16),
            len <= target@.len(),
            len <= utf16_of(value@).len(),
            len == utf16_of(value@).len() || len == target@.len(),
            target@.len() == original.len(),
            i <= len,
            forall|j: int| 0 <= j < target@.len() ==> #[trigger] target@[j] == if j < i {
                utf16_of(value@)[j]
            } else {
                original[j]
            },
        decreases len - i,
    {
        target.set(i, wide_value[i]);
        i = i + 1;
    }
}

/// The counts behind the HDR line: the number of displays that can do HDR,
/// and the number of those that have it on. A display that cannot do HDR is
/// counted in neither, whatever its other flags say.
pub proof fn law_hdr_counts_count(ss: Seq<StatusView>)
    ensures
        hdr_counts(ss).0 == ss.filter(|st: StatusView| st.supported).len(),
        hdr_counts(ss).1 == ss.filter(|st: StatusView| st.supported && st.enabled).len(),
    decreases ss.len(),
{
    reveal(Seq::filter);
    if ss.len() > 0 {
        law_hdr_counts_count(ss.drop_last());
    }
}

/// With at least one display, the HDR line reads `HDR: <on>/<capable>
/// displays on`, where `<capable>` is the number of displays that can do HDR
/// and `<on>` the number of those with HDR on.
pub proof fn law_hdr_label_counts(ss: Seq<StatusView>)
    requires
        ss.len() > 0,
    ensures
        hdr_label_of(Ok(ss)) == "HDR: "@ + decimal(
            ss.filter(|st: StatusView| st.supported && st.enabled).len(),
        ) + "/"@ + decimal(ss.filter(|st: StatusView| st.supported).len()) + " displays on"@,
{
    law_hdr_counts_count(ss);
}

/// In the display submenu, the entry at position `i + 2` stands for the
/// display whose key is at position `i` of the keys: it carries the id
/// `ID_TARGET_BASE + i`, shows the display's name and HDR state, is ticked
/// when some displays are selected and this one is among them, and can be
/// chosen only when the display supports HDR. "All displays" comes first,
/// ticked when nothing is selected.
pub proof fn law_target_menu_entries(selected: Seq<Seq<char>>, ss: Seq<StatusView>, i: int)
    requires
        0 <= i < ss.len(),
    ensures
        target_menu_of(selected, Ok(ss)).len() == ss.len() + 2,
        target_keys_of(Ok(ss)).len() == ss.len(),
        target_menu_of(selected, Ok(ss))[0] == (MenuItemView::Entry {
            id: ID_TARGET_ALL,
            label: "All displays"@,
            checked: selected.len() == 0,
            enabled: true,
        }),
        target_menu_of(selected, Ok(ss))[i + 2] == (MenuItemView::Entry {
            id: (ID_TARGET_BASE + i) as usize,
            label: ss[i].target.name + " ("@ + (if ss[i].supported {
                if ss[i].enabled {
                    "HDR on"@
                } else {
                    "HDR off"@
                }
            } else {
                "HDR unsupported"@
            }) + ")"@,
            checked: selected.len() != 0 && selected.contains(ss[i].target.key),
            enabled: ss[i].supported,
        }),
        target_keys_of(Ok(ss))[i] == ss[i].target.key,
{
}

} // verus!
