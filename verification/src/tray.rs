//! The tray (Windows) and menu-bar status item (macOS): open and quit, plus a
//! quick switch - every shared display to one host, or one display at a time -
//! without opening any window.

use crate::locale::{text_in, ui_text, UiLocale};
use crate::switcher::{
    monitor_models, HostSwitcherMonitor, HostSwitcherOption, MonitorModel, OptionModel,
};
use crate::text::{
    chars_of, cut, cut_at, join3, join5, lemma_first_index_is, same_optional_text,
    same_text, text_of,
};
use vstd::prelude::*;

verus! {

pub const TRAY_ID: &'static str = "muxsu";

pub const OPEN_ID: &'static str = "tray-open";

pub const QUIT_ID: &'static str = "tray-quit";

/// What a click on the menu asks for.
#[derive(Debug, PartialEq, Eq)]
pub enum TrayAction {
    Open,
    Quit,
    SwitchOne { monitor_key: String, host_id: String },
    SwitchAll { host_id: String },
}

/// What a click on the menu asks for, as characters.
pub enum ActionModel {
    Open,
    Quit,
    SwitchOne { monitor_key: Seq<char>, host_id: Seq<char> },
    SwitchAll { host_id: Seq<char> },
}

impl View for TrayAction {
    type V = ActionModel;

    open spec fn view(&self) -> ActionModel {
        match self {
            TrayAction::Open => ActionModel::Open,
            TrayAction::Quit => ActionModel::Quit,
            TrayAction::SwitchOne { monitor_key, host_id } => ActionModel::SwitchOne {
                monitor_key: monitor_key@,
                host_id: host_id@,
            },
            TrayAction::SwitchAll { host_id } => ActionModel::SwitchAll { host_id: host_id@ },
        }
    }
}

/// What a menu id asks for. Ids carry the display and host they switch, split
/// by a character neither a display key nor a host id contains.
pub open spec fn action_of(id: Seq<char>) -> Option<ActionModel> {
    if id == "tray-open"@ {
        Some(ActionModel::Open)
    } else if id == "tray-quit"@ {
        Some(ActionModel::Quit)
    } else {
        let (kind, rest) = cut(id, '\n');
        match rest {
            None => None,
            Some(after_kind) => {
                let (first, more) = cut(after_kind, '\n');
                match more {
                    None => if kind == "tray-all"@ {
                        Some(ActionModel::SwitchAll { host_id: first })
                    } else {
                        None
                    },
                    Some(after_first) => {
                        let (second, extra) = cut(after_first, '\n');
                        if kind == "tray-one"@ && extra is None {
                            Some(ActionModel::SwitchOne { monitor_key: first, host_id: second })
                        } else {
                            None
                        }
                    },
                }
            },
        }
    }
}

/// What a menu id asks for.
pub fn parse_action(id: &str) -> (action: Option<TrayAction>)
    ensures
        match action {
            Some(found) => action_of(id@) == Some(found@),
            None => action_of(id@) is None,
        },
{
    if same_text(id, OPEN_ID) {
        return Some(TrayAction::Open);
    }
    if same_text(id, QUIT_ID) {
        return Some(TrayAction::Quit);
    }
    let (kind, rest) = cut_at(id, '\n');
    let after_kind = match rest {
        Some(text) => text,
        None => return None,
    };
    let (first, more) = cut_at(&after_kind, '\n');
    match more {
        None => if same_text(&kind, "tray-all") {
            Some(TrayAction::SwitchAll { host_id: first })
        } else {
            None
        },
        Some(after_first) => {
            let (second, extra) = cut_at(&after_first, '\n');
            if same_text(&kind, "tray-one") && extra.is_none() {
                Some(TrayAction::SwitchOne { monitor_key: first, host_id: second })
            } else {
                None
            }
        },
    }
}

/// The id of the item that switches one display to a host.
pub open spec fn one_id(monitor_key: Seq<char>, host_id: Seq<char>) -> Seq<char> {
    "tray-one"@ + "\n"@ + monitor_key + "\n"@ + host_id
}

/// The id of the item that switches every display to a host.
pub open spec fn all_id(host_id: Seq<char>) -> Seq<char> {
    "tray-all"@ + "\n"@ + host_id
}

pub fn switch_one_id(monitor_key: &str, host_id: &str) -> (id: String)
    ensures
        id@ == one_id(monitor_key@, host_id@),
{
    join5("tray-one", "\n", monitor_key, "\n", host_id)
}

pub fn switch_all_id(host_id: &str) -> (id: String)
    ensures
        id@ == all_id(host_id@),
{
    join3("tray-all", "\n", host_id)
}

proof fn lemma_cut_joined(first: Seq<char>, rest: Seq<char>)
    requires
        !first.contains('\n'),
    ensures
        cut(first + seq!['\n'] + rest, '\n') == (first, Some(rest)),
{
    let whole = first + seq!['\n'] + rest;
    assert forall|j: int| 0 <= j < first.len() implies #[trigger] whole[j] != '\n' by {
        assert(first.contains(first[j]));
    }
    lemma_first_index_is(whole, '\n', first.len() as int);
    assert(whole.take(first.len() as int) =~= first);
    assert(whole.skip(first.len() as int + 1) =~= rest);
}

proof fn lemma_cut_whole(text: Seq<char>)
    requires
        !text.contains('\n'),
    ensures
        cut(text, '\n') == (text, None::<Seq<char>>),
{
    assert forall|j: int| 0 <= j < text.len() implies #[trigger] text[j] != '\n' by {
        assert(text.contains(text[j]));
    }
    lemma_first_index_is(text, '\n', text.len() as int);
}

/// A menu id that was made for a display and a host asks for just that.
pub proof fn menu_ids_round_trip(monitor_key: Seq<char>, host_id: Seq<char>)
    requires
        !monitor_key.contains('\n'),
        !host_id.contains('\n'),
    ensures
        action_of(one_id(monitor_key, host_id)) == Some(
            ActionModel::SwitchOne { monitor_key, host_id },
        ),
        action_of(all_id(host_id)) == Some(ActionModel::SwitchAll { host_id }),
{
    reveal_strlit("tray-one");
    reveal_strlit("tray-all");
    reveal_strlit("tray-open");
    reveal_strlit("tray-quit");
    reveal_strlit("\n");
    let one = one_id(monitor_key, host_id);
    let all = all_id(host_id);
    assert(one =~= "tray-one"@ + seq!['\n'] + (monitor_key + seq!['\n'] + host_id));
    assert(all =~= "tray-all"@ + seq!['\n'] + host_id);
    lemma_cut_joined("tray-one"@, monitor_key + seq!['\n'] + host_id);
    lemma_cut_joined(monitor_key, host_id);
    lemma_cut_whole(host_id);
    lemma_cut_joined("tray-all"@, host_id);
    assert(one[8] == '\n' && all[8] == '\n');
    assert("tray-open"@[8] == 'n' && "tray-quit"@[8] == 't');
    assert("tray-one"@[5] == 'o' && "tray-all"@[5] == 'a');
}

/// Whether a switch to a host would change what a display shows: it has a port
/// for the host and is not already showing it.
pub open spec fn would_change(hosts: Seq<OptionModel>, host_id: Seq<char>) -> bool {
    exists|k: int|
        0 <= k < hosts.len() && (#[trigger] hosts[k]).id == host_id && hosts[k].available
            && !hosts[k].is_active
}

fn is_switch_target(monitor: &HostSwitcherMonitor, host_id: &str) -> (yes: bool)
    ensures
        yes == would_change(monitor@.hosts, host_id@),
{
    let hosts = &monitor.hosts;
    let mut k: usize = 0;
    while k < hosts.len()
        invariant
            k <= hosts@.len(),
            hosts@ == monitor.hosts@,
            forall|j: int|
                0 <= j < k ==> !((#[trigger] monitor@.hosts[j]).id == host_id@
                    && monitor@.hosts[j].available && !monitor@.hosts[j].is_active),
        decreases hosts@.len() - k,
    {
        assert(monitor@.hosts[k as int] == hosts@[k as int]@);
        if same_text(&hosts[k].id, host_id) && hosts[k].available && !hosts[k].is_active {
            return true;
        }
        k += 1;
    }
    false
}

/// Displays that a switch to a host would change.
pub open spec fn is_target(host_id: Seq<char>) -> spec_fn(HostSwitcherMonitor) -> bool {
    |monitor: HostSwitcherMonitor| would_change(monitor@.hosts, host_id)
}

/// Whether `targets` are the displays that a switch to a host would change.
pub open spec fn are_switch_targets(
    monitors: Seq<HostSwitcherMonitor>,
    host_id: Seq<char>,
    targets: Seq<&HostSwitcherMonitor>,
) -> bool {
    targets.map_values(|monitor: &HostSwitcherMonitor| *monitor) == monitors.filter(
        is_target(host_id),
    )
}

/// Displays a switch to `host_id` would change: those that have a port for it
/// and are not already showing it.
pub fn switch_targets<'a>(monitors: &'a [HostSwitcherMonitor], host_id: &str) -> (targets: Vec<
    &'a HostSwitcherMonitor,
>)
    ensures
        are_switch_targets(monitors@, host_id@, targets@),
{
    let ghost keep = is_target(host_id@);
    let mut targets: Vec<&'a HostSwitcherMonitor> = Vec::new();
    assert(targets@.map_values(|monitor: &HostSwitcherMonitor| *monitor) =~= monitors@.take(
        0,
    ).filter(keep)) by {
        reveal(Seq::filter);
    }
    let mut i: usize = 0;
    while i < monitors.len()
        invariant
            i <= monitors@.len(),
            keep == is_target(host_id@),
            targets@.map_values(|monitor: &HostSwitcherMonitor| *monitor) == monitors@.take(
                i as int,
            ).filter(keep),
        decreases monitors@.len() - i,
    {
        let ghost before = targets@.map_values(|monitor: &HostSwitcherMonitor| *monitor);
        proof {
            assert(monitors@.take(i + 1).drop_last() =~= monitors@.take(i as int));
            reveal(Seq::filter);
        }
        if is_switch_target(&monitors[i], host_id) {
            targets.push(&monitors[i]);
            assert(targets@.map_values(|monitor: &HostSwitcherMonitor| *monitor) =~= before.push(
                monitors@[i as int],
            ));
        }
        i += 1;
    }
    assert(monitors@.take(monitors@.len() as int) =~= monitors@);
    targets
}

/// A text with every `&` doubled.
pub open spec fn doubled(text: Seq<char>) -> Seq<char>
    decreases text.len(),
{
    if text.len() == 0 {
        text
    } else if text.last() == '&' {
        doubled(text.drop_last()).push('&').push('&')
    } else {
        doubled(text.drop_last()).push(text.last())
    }
}

/// Menu text as the platform draws it.
pub open spec fn label_of(text: Seq<char>, windows: bool) -> Seq<char> {
    if windows {
        doubled(text)
    } else {
        text
    }
}

/// Menu text as the platform draws it: Windows reads `&` as the marker of a
/// keyboard accelerator, so a host called "R&D" would lose its ampersand.
pub fn label(text: &str, windows: bool) -> (drawn: String)
    ensures
        drawn@ == label_of(text@, windows),
{
    if !windows {
        return text.to_owned();
    }
    let chars = chars_of(text);
    let mut drawn: Vec<char> = Vec::new();
    let mut i: usize = 0;
    while i < chars.len()
        invariant
            i <= chars@.len(),
            drawn@ == doubled(chars@.take(i as int)),
        decreases chars@.len() - i,
    {
        assert(chars@.take(i + 1).drop_last() =~= chars@.take(i as int));
        if chars[i] == '&' {
            drawn.push('&');
        }
        drawn.push(chars[i]);
        i += 1;
    }
    assert(chars@.take(chars@.len() as int) =~= chars@);
    text_of(&drawn)
}

/// An item of the menu that switches.
#[derive(Debug, PartialEq, Eq)]
pub struct MenuItem {
    pub id: String,
    pub text: String,
    pub checked: bool,
    pub enabled: bool,
}

/// An item of the menu that switches, as characters.
pub struct ItemModel {
    pub id: Seq<char>,
    pub text: Seq<char>,
    pub checked: bool,
    pub enabled: bool,
}

impl View for MenuItem {
    type V = ItemModel;

    open spec fn view(&self) -> ItemModel {
        ItemModel { id: self.id@, text: self.text@, checked: self.checked, enabled: self.enabled }
    }
}

/// The items, as characters.
pub open spec fn item_models(items: Seq<MenuItem>) -> Seq<ItemModel> {
    items.map_values(|item: MenuItem| item@)
}

/// A line of the menu.
#[derive(Debug, PartialEq, Eq)]
pub enum MenuEntry {
    Heading(String),
    Switch(MenuItem),
    Separator,
    Submenu { text: String, items: Vec<MenuItem> },
    Command { id: String, text: String },
}

/// A line of the menu, as characters.
pub enum EntryModel {
    Heading(Seq<char>),
    Switch(ItemModel),
    Separator,
    Submenu { text: Seq<char>, items: Seq<ItemModel> },
    Command { id: Seq<char>, text: Seq<char> },
}

impl View for MenuEntry {
    type V = EntryModel;

    open spec fn view(&self) -> EntryModel {
        match self {
            MenuEntry::Heading(text) => EntryModel::Heading(text@),
            MenuEntry::Switch(item) => EntryModel::Switch(item@),
            MenuEntry::Separator => EntryModel::Separator,
            MenuEntry::Submenu { text, items } => EntryModel::Submenu {
                text: text@,
                items: item_models(items@),
            },
            MenuEntry::Command { id, text } => EntryModel::Command { id: id@, text: text@ },
        }
    }
}

/// The lines, as characters.
pub open spec fn entry_models(entries: Seq<MenuEntry>) -> Seq<EntryModel> {
    entries.map_values(|entry: MenuEntry| entry@)
}

/// The item that switches a display to one of its hosts; the host on screen is
/// checked.
pub open spec fn item_of(windows: bool, key: Seq<char>, host: OptionModel) -> ItemModel {
    ItemModel {
        id: one_id(key, host.id),
        text: label_of(host.name, windows),
        checked: host.is_active,
        enabled: host.available && !host.is_active,
    }
}

/// The hosts of one display as items.
pub open spec fn items_of(windows: bool, monitor: MonitorModel) -> Seq<ItemModel> {
    monitor.hosts.map_values(|host: OptionModel| item_of(windows, monitor.key, host))
}

/// Whether a display shows a host.
pub open spec fn shows_host(monitor: MonitorModel, host_id: Seq<char>) -> bool {
    exists|k: int|
        0 <= k < monitor.hosts.len() && (#[trigger] monitor.hosts[k]).id == host_id
            && monitor.hosts[k].is_active
}

/// The item that switches every display to a host: checked where every display
/// shows it, and of use where some display would change.
pub open spec fn everywhere_item_of(
    windows: bool,
    monitors: Seq<MonitorModel>,
    host: OptionModel,
) -> ItemModel {
    ItemModel {
        id: all_id(host.id),
        text: label_of(host.name, windows),
        checked: forall|k: int|
            0 <= k < monitors.len() ==> shows_host(#[trigger] monitors[k], host.id),
        enabled: exists|k: int|
            0 <= k < monitors.len() && would_change((#[trigger] monitors[k]).hosts, host.id),
    }
}

/// The lines that switch displays: none without a shared display; one line per
/// host for the only one; and for several, one line per host for all of them
/// together and a submenu for each.
pub open spec fn switch_entries(
    locale: UiLocale,
    windows: bool,
    monitors: Seq<MonitorModel>,
) -> Seq<EntryModel> {
    if monitors.len() == 0 {
        seq![]
    } else if monitors.len() == 1 {
        seq![
            EntryModel::Heading(
                text_in(locale, "共用螢幕切到"@, "Switch the shared display to"@),
            ),
        ] + items_of(windows, monitors[0]).map_values(|item: ItemModel| EntryModel::Switch(item))
            + seq![EntryModel::Separator]
    } else {
        seq![
            EntryModel::Heading(text_in(locale, "全部螢幕切到"@, "Switch every display to"@)),
        ] + monitors[0].hosts.map_values(
            |host: OptionModel| EntryModel::Switch(everywhere_item_of(windows, monitors, host)),
        ) + seq![EntryModel::Separator] + monitors.map_values(
            |monitor: MonitorModel|
                EntryModel::Submenu {
                    text: label_of(monitor.name, windows),
                    items: items_of(windows, monitor),
                },
        ) + seq![EntryModel::Separator]
    }
}

/// The whole menu.
pub open spec fn menu_of(locale: UiLocale, windows: bool, monitors: Seq<MonitorModel>) -> Seq<
    EntryModel,
> {
    switch_entries(locale, windows, monitors) + seq![
        EntryModel::Command {
            id: "tray-open"@,
            text: text_in(locale, "開啟 MuxSU"@, "Open MuxSU"@),
        },
        EntryModel::Separator,
        EntryModel::Command {
            id: "tray-quit"@,
            text: text_in(locale, "結束 MuxSU"@, "Quit MuxSU"@),
        },
    ]
}

/// The hosts of one display as items; the host on screen is checked.
fn host_items(windows: bool, monitor: &HostSwitcherMonitor) -> (items: Vec<MenuItem>)
    ensures
        item_models(items@) == items_of(windows, monitor@),
{
    let hosts = &monitor.hosts;
    let ghost wanted = items_of(windows, monitor@);
    let mut items: Vec<MenuItem> = Vec::new();
    assert(item_models(items@) =~= wanted.take(0));
    let mut k: usize = 0;
    while k < hosts.len()
        invariant
            k <= hosts@.len(),
            hosts@ == monitor.hosts@,
            wanted == items_of(windows, monitor@),
            item_models(items@) == wanted.take(k as int),
        decreases hosts@.len() - k,
    {
        let host = &hosts[k];
        let ghost before = item_models(items@);
        assert(monitor@.hosts[k as int] == host@);
        items.push(
            MenuItem {
                id: switch_one_id(&monitor.monitor_key, &host.id),
                text: label(&host.name, windows),
                checked: host.is_active,
                enabled: host.available && !host.is_active,
            },
        );
        proof {
            assert(item_models(items@) =~= before.push(wanted[k as int]));
            assert(wanted.take(k + 1) =~= wanted.take(k as int).push(wanted[k as int]));
        }
        k += 1;
    }
    assert(wanted.take(wanted.len() as int) =~= wanted);
    items
}

fn is_shown_on(monitor: &HostSwitcherMonitor, host_id: &str) -> (yes: bool)
    ensures
        yes == shows_host(monitor@, host_id@),
{
    let hosts = &monitor.hosts;
    let mut k: usize = 0;
    while k < hosts.len()
        invariant
            k <= hosts@.len(),
            hosts@ == monitor.hosts@,
            forall|j: int|
                0 <= j < k ==> !((#[trigger] monitor@.hosts[j]).id == host_id@
                    && monitor@.hosts[j].is_active),
        decreases hosts@.len() - k,
    {
        assert(monitor@.hosts[k as int] == hosts@[k as int]@);
        if same_text(&hosts[k].id, host_id) && hosts[k].is_active {
            return true;
        }
        k += 1;
    }
    false
}

fn everywhere_item(windows: bool, monitors: &[HostSwitcherMonitor], host: &HostSwitcherOption) -> (item:
    MenuItem)
    ensures
        item@ == everywhere_item_of(windows, monitor_models(monitors@), host@),
{
    let ghost models = monitor_models(monitors@);
    let mut everywhere: bool = true;
    let mut anywhere: bool = false;
    let mut k: usize = 0;
    while k < monitors.len()
        invariant
            k <= monitors@.len(),
            models == monitor_models(monitors@),
            everywhere == forall|j: int|
                0 <= j < k ==> shows_host(#[trigger] models[j], host.id@),
            anywhere == exists|j: int|
                0 <= j < k && would_change((#[trigger] models[j]).hosts, host.id@),
        decreases monitors@.len() - k,
    {
        assert(models[k as int] == monitors@[k as int]@);
        let shown = is_shown_on(&monitors[k], &host.id);
        let target = is_switch_target(&monitors[k], &host.id);
        proof {
            if everywhere && shown {
                assert forall|j: int| 0 <= j < k + 1 implies shows_host(
                    #[trigger] models[j],
                    host.id@,
                ) by {}
            }
            if target {
                assert(would_change(models[k as int].hosts, host.id@));
            }
        }
        everywhere = everywhere && shown;
        anywhere = anywhere || target;
        k += 1;
    }
    MenuItem {
        id: switch_all_id(&host.id),
        text: label(&host.name, windows),
        checked: everywhere,
        enabled: anywhere,
    }
}

/// The whole menu: switches for the shared displays, then open and quit.
pub fn menu_for(locale: UiLocale, windows: bool, monitors: &[HostSwitcherMonitor]) -> (menu: Vec<
    MenuEntry,
>)
    ensures
        entry_models(menu@) == menu_of(locale, windows, monitor_models(monitors@)),
{
    let ghost models = monitor_models(monitors@);
    let mut menu: Vec<MenuEntry> = Vec::new();
    if monitors.len() == 1 {
        assert(models[0] == monitors@[0]@);
        menu.push(
            MenuEntry::Heading(
                ui_text(locale, "共用螢幕切到", "Switch the shared display to").to_owned(),
            ),
        );
        let ghost head = entry_models(menu@);
        assert(head =~= seq![
            EntryModel::Heading(
                text_in(locale, "共用螢幕切到"@, "Switch the shared display to"@),
            ),
        ]);
        let mut items = host_items(windows, &monitors[0]);
        let ghost wanted = items_of(windows, models[0]).map_values(
            |item: ItemModel| EntryModel::Switch(item),
        );
        let ghost all = items@;
        let ghost mut done: int = 0;
        assert(entry_models(menu@) =~= head + wanted.take(0));
        while items.len() > 0
            invariant
                0 <= done <= all.len(),
                items@ == all.skip(done),
                item_models(all) == items_of(windows, models[0]),
                wanted == items_of(windows, models[0]).map_values(
                    |item: ItemModel| EntryModel::Switch(item),
                ),
                entry_models(menu@) == head + wanted.take(done),
            decreases items@.len(),
        {
            let item = items.remove(0);
            let ghost before = entry_models(menu@);
            proof {
                assert(item == all[done]);
                assert(item_models(all)[done] == item@);
                assert(items@ =~= all.skip(done + 1));
            }
            menu.push(MenuEntry::Switch(item));
            proof {
                assert(entry_models(menu@) =~= before.push(wanted[done]));
                assert(head + wanted.take(done + 1) =~= (head + wanted.take(done)).push(
                    wanted[done],
                ));
                done = done + 1;
            }
        }
        assert(wanted.take(done) =~= wanted);
        let ghost before = entry_models(menu@);
        menu.push(MenuEntry::Separator);
        assert(entry_models(menu@) =~= before.push(EntryModel::Separator));
        assert(entry_models(menu@) =~= switch_entries(locale, windows, models));
    } else if monitors.len() > 1 {
        assert(models[0] == monitors@[0]@);
        menu.push(
            MenuEntry::Heading(
                ui_text(locale, "全部螢幕切到", "Switch every display to").to_owned(),
            ),
        );
        let ghost head = entry_models(menu@);
        assert(head =~= seq![
            EntryModel::Heading(text_in(locale, "全部螢幕切到"@, "Switch every display to"@)),
        ]);
        // Every display lists the same hosts in the same saved order.
        let hosts = &monitors[0].hosts;
        let ghost wanted = models[0].hosts.map_values(
            |host: OptionModel| EntryModel::Switch(everywhere_item_of(windows, models, host)),
        );
        assert(entry_models(menu@) =~= head + wanted.take(0));
        let mut k: usize = 0;
        while k < hosts.len()
            invariant
                k <= hosts@.len(),
                models == monitor_models(monitors@),
                models.len() > 0,
                models[0] == monitors@[0]@,
                hosts@ == monitors@[0].hosts@,
                wanted == models[0].hosts.map_values(
                    |host: OptionModel|
                        EntryModel::Switch(everywhere_item_of(windows, models, host)),
                ),
                entry_models(menu@) == head + wanted.take(k as int),
            decreases hosts@.len() - k,
        {
            let ghost before = entry_models(menu@);
            assert(models[0].hosts[k as int] == hosts@[k as int]@);
            menu.push(MenuEntry::Switch(everywhere_item(windows, monitors, &hosts[k])));
            proof {
                assert(entry_models(menu@) =~= before.push(wanted[k as int]));
                assert(head + wanted.take(k + 1) =~= (head + wanted.take(k as int)).push(
                    wanted[k as int],
                ));
            }
            k += 1;
        }
        assert(wanted.take(wanted.len() as int) =~= wanted);
        let ghost with_hosts = entry_models(menu@);
        menu.push(MenuEntry::Separator);
        let ghost upper = entry_models(menu@);
        assert(upper =~= with_hosts + seq![EntryModel::Separator]);
        let ghost submenus = models.map_values(
            |monitor: MonitorModel|
                EntryModel::Submenu {
                    text: label_of(monitor.name, windows),
                    items: items_of(windows, monitor),
                },
        );
        assert(entry_models(menu@) =~= upper + submenus.take(0));
        let mut m: usize = 0;
        while m < monitors.len()
            invariant
                m <= monitors@.len(),
                models == monitor_models(monitors@),
                submenus == models.map_values(
                    |monitor: MonitorModel|
                        EntryModel::Submenu {
                            text: label_of(monitor.name, windows),
                            items: items_of(windows, monitor),
                        },
                ),
                entry_models(menu@) == upper + submenus.take(m as int),
            decreases monitors@.len() - m,
        {
            let ghost before = entry_models(menu@);
            assert(models[m as int] == monitors@[m as int]@);
            menu.push(
                MenuEntry::Submenu {
                    text: label(&monitors[m].name, windows),
                    items: host_items(windows, &monitors[m]),
                },
            );
            proof {
                assert(entry_models(menu@) =~= before.push(submenus[m as int]));
                assert(upper + submenus.take(m + 1) =~= (upper + submenus.take(m as int)).push(
                    submenus[m as int],
                ));
            }
            m += 1;
        }
        assert(submenus.take(submenus.len() as int) =~= submenus);
        let ghost before = entry_models(menu@);
        menu.push(MenuEntry::Separator);
        assert(entry_models(menu@) =~= before.push(EntryModel::Separator));
        assert(entry_models(menu@) =~= switch_entries(locale, windows, models));
    } else {
        assert(entry_models(menu@) =~= switch_entries(locale, windows, models));
    }
    let ghost upper = entry_models(menu@);
    menu.push(
        MenuEntry::Command {
            id: OPEN_ID.to_owned(),
            text: ui_text(locale, "開啟 MuxSU", "Open MuxSU").to_owned(),
        },
    );
    menu.push(MenuEntry::Separator);
    menu.push(
        MenuEntry::Command {
            id: QUIT_ID.to_owned(),
            text: ui_text(locale, "結束 MuxSU", "Quit MuxSU").to_owned(),
        },
    );
    assert(entry_models(menu@) =~= menu_of(locale, windows, models));
    menu
}

/// Everything the menu shows, in the language it shows it in.
#[derive(Debug)]
pub struct MenuSignature {
    pub locale: UiLocale,
    pub monitors: Vec<HostSwitcherMonitor>,
}

impl MenuSignature {
    /// What the menu shows, as characters.
    pub open spec fn shows(self) -> (UiLocale, Seq<MonitorModel>) {
        (self.locale, monitor_models(self.monitors@))
    }
}

/// Everything the menu shows, in the language it shows it in.
pub fn signature(locale: UiLocale, monitors: Vec<HostSwitcherMonitor>) -> (shown: MenuSignature)
    ensures
        shown.shows() == (locale, monitor_models(monitors@)),
{
    MenuSignature { locale, monitors }
}

fn same_option(a: &HostSwitcherOption, b: &HostSwitcherOption) -> (same: bool)
    ensures
        same == (a@ == b@),
{
    same_text(&a.id, &b.id) && same_text(&a.name, &b.name) && a.platform == b.platform
        && same_optional_text(&a.input_name, &b.input_name) && a.is_local == b.is_local
        && a.available == b.available && a.is_active == b.is_active
}

fn same_monitor(a: &HostSwitcherMonitor, b: &HostSwitcherMonitor) -> (same: bool)
    ensures
        same == (a@ == b@),
{
    if !same_text(&a.monitor_key, &b.monitor_key) || !same_text(&a.name, &b.name) {
        return false;
    }
    assert(a@.hosts.len() == a.hosts@.len() && b@.hosts.len() == b.hosts@.len());
    if a.hosts.len() != b.hosts.len() {
        return false;
    }
    let mut k: usize = 0;
    while k < a.hosts.len()
        invariant
            k <= a.hosts@.len() == b.hosts@.len(),
            forall|j: int| 0 <= j < k ==> a.hosts@[j]@ == b.hosts@[j]@,
        decreases a.hosts@.len() - k,
    {
        if !same_option(&a.hosts[k], &b.hosts[k]) {
            assert(a@.hosts[k as int] != b@.hosts[k as int]);
            return false;
        }
        k += 1;
    }
    assert(a@.hosts =~= b@.hosts);
    true
}

/// What the menu showed when it was last built. The main window asks for a
/// rebuild on every refresh, and replacing a menu that is open closes it on
/// Windows, so a rebuild that would change nothing is skipped.
#[derive(Debug)]
pub struct MenuMemory {
    pub last: Option<MenuSignature>,
}

impl MenuMemory {
    pub fn new() -> (memory: Self)
        ensures
            memory.last is None,
    {
        MenuMemory { last: None }
    }

    pub fn remember(&mut self, shown: Option<MenuSignature>)
        ensures
            final(self).last == shown,
    {
        self.last = shown;
    }

    /// Whether the menu shows just this already.
    pub fn is_showing(&self, shown: &MenuSignature) -> (yes: bool)
        ensures
            yes == (self.last matches Some(last) && last.shows() == shown.shows()),
    {
        match &self.last {
            None => false,
            Some(last) => {
                assert(last.shows().1.len() == last.monitors@.len());
                assert(shown.shows().1.len() == shown.monitors@.len());
                if last.locale != shown.locale || last.monitors.len() != shown.monitors.len() {
                    return false;
                }
                let mut k: usize = 0;
                while k < last.monitors.len()
                    invariant
                        k <= last.monitors@.len() == shown.monitors@.len(),
                        self.last == Some(*last),
                        forall|j: int| 0 <= j < k ==> last.monitors@[j]@ == shown.monitors@[j]@,
                    decreases last.monitors@.len() - k,
                {
                    if !same_monitor(&last.monitors[k], &shown.monitors[k]) {
                        assert(last.shows().1[k as int] != shown.shows().1[k as int]);
                        return false;
                    }
                    k += 1;
                }
                assert(last.shows().1 =~= shown.shows().1);
                true
            },
        }
    }
}

} // verus!
