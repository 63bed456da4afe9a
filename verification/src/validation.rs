//! Which settings may be saved, and which shortcuts may be registered.

use crate::domain::{contains_input, DestinationHost, DisplayInput, Identity};
use crate::error::DisplayMuxError;
use crate::locale::{text_in, ui_text, UiLocale};
use crate::network::{mac_of, MacAddress};
use crate::routes::ports_are_distinct;
use crate::settings::{
    has_valid_shared_key, valid_key, AppSettings, HostRoute, SelectedMonitor, MIN_SHARED_KEY_LENGTH,
};
use crate::text::{decimal, decimal_text, join2, join3, trim, trimmed};
use vstd::prelude::*;

verus! {

/// The key of a shortcut, as far as it matters which one it is.
#[derive(Clone, Copy, Debug, PartialEq, Eq, Structural)]
pub enum ShortcutKey {
    /// A letter key, by its upper-case letter.
    Letter(char),
    Tab,
    F4,
    Other,
}

/// A shortcut: the modifiers held and the key pressed.
#[derive(Clone, Copy, Debug, PartialEq, Eq, Structural)]
pub struct Shortcut {
    pub control: bool,
    pub command: bool,
    pub alt: bool,
    pub shift: bool,
    pub key: ShortcutKey,
}

/// Why a shortcut is not accepted.
#[derive(Clone, Copy, Debug, PartialEq, Eq, Structural)]
pub enum ShortcutFault {
    Unrecognized,
    NoPrimaryModifier,
    TooManyModifiers,
    CommonlyUsed,
}

impl Shortcut {
    /// Whether the modifier is held that a shortcut must have: Command on a
    /// Mac, Ctrl elsewhere.
    pub open spec fn has_primary(self, platform: DestinationHost) -> bool {
        match platform {
            DestinationHost::Mac => self.command,
            DestinationHost::Windows => self.control,
        }
    }

    /// How many modifiers are held.
    pub open spec fn modifier_count(self) -> int {
        (if self.control { 1int } else { 0 }) + (if self.command { 1int } else { 0 }) + (if self.alt {
            1int
        } else {
            0
        }) + (if self.shift { 1int } else { 0 })
    }

    /// Whether the shortcut is one that browsers and other applications use:
    /// the primary modifier alone with one of their keys, or with Shift.
    pub open spec fn is_common(self, platform: DestinationHost) -> bool {
        let primary = self.has_primary(platform);
        ||| primary && self.modifier_count() == 1 && is_common_key(self.key)
        ||| primary && self.shift && self.modifier_count() == 2 && is_common_shift_key(self.key)
    }
}

/// Keys that applications commonly use with the primary modifier.
pub open spec fn is_common_key(key: ShortcutKey) -> bool {
    match key {
        ShortcutKey::Letter(c) => {
            ||| c == 'A'
            ||| c == 'C'
            ||| c == 'F'
            ||| c == 'H'
            ||| 'L' <= c <= 'T'
            ||| 'V' <= c <= 'Z'
        },
        ShortcutKey::Tab => true,
        ShortcutKey::F4 => true,
        ShortcutKey::Other => false,
    }
}

/// Keys that applications commonly use with the primary modifier and Shift.
pub open spec fn is_common_shift_key(key: ShortcutKey) -> bool {
    match key {
        ShortcutKey::Letter(c) => {
            ||| c == 'N'
            ||| c == 'P'
            ||| 'R' <= c <= 'T'
            ||| c == 'W'
        },
        _ => false,
    }
}

/// Whether the shortcut is one that browsers and other applications use.
pub fn is_common_application_shortcut(shortcut: &Shortcut, platform: DestinationHost) -> (common: bool)
    ensures
        common == shortcut.is_common(platform),
{
    let primary = match platform {
        DestinationHost::Mac => shortcut.command,
        DestinationHost::Windows => shortcut.control,
    };
    let others: bool = shortcut.alt || (match platform {
        DestinationHost::Mac => shortcut.control,
        DestinationHost::Windows => shortcut.command,
    });
    let primary_only = primary && !others && !shortcut.shift;
    let primary_with_shift = primary && !others && shortcut.shift;
    let common_alone = match shortcut.key {
        ShortcutKey::Letter(c) => c == 'A' || c == 'C' || c == 'F' || c == 'H' || ('L' <= c && c
            <= 'T') || ('V' <= c && c <= 'Z'),
        ShortcutKey::Tab | ShortcutKey::F4 => true,
        ShortcutKey::Other => false,
    };
    let common_shifted = match shortcut.key {
        ShortcutKey::Letter(c) => c == 'N' || c == 'P' || ('R' <= c && c <= 'T') || c == 'W',
        _ => false,
    };
    (primary_only && common_alone) || (primary_with_shift && common_shifted)
}

/// Why a shortcut, as far as it was recognized, is not accepted.
pub open spec fn shortcut_fault(
    shortcut: Option<Shortcut>,
    platform: DestinationHost,
) -> Option<ShortcutFault> {
    match shortcut {
        None => Some(ShortcutFault::Unrecognized),
        Some(found) => if !found.has_primary(platform) {
            Some(ShortcutFault::NoPrimaryModifier)
        } else if found.modifier_count() > 2 {
            Some(ShortcutFault::TooManyModifiers)
        } else if found.is_common(platform) {
            Some(ShortcutFault::CommonlyUsed)
        } else {
            None
        },
    }
}

/// What is said of a shortcut that is not accepted.
pub open spec fn shortcut_fault_text(locale: UiLocale, fault: ShortcutFault) -> Seq<char> {
    match fault {
        ShortcutFault::Unrecognized => text_in(
            locale,
            "無法辨識快捷鍵，請同時按下修飾鍵與一個一般按鍵"@,
            "The shortcut was not recognized. Press a modifier and one regular key."@,
        ),
        ShortcutFault::NoPrimaryModifier => text_in(
            locale,
            "Windows 快捷鍵必須包含 Ctrl；macOS 快捷鍵必須包含 Command"@,
            "The shortcut must include Ctrl on Windows or Command on macOS."@,
        ),
        ShortcutFault::TooManyModifiers => text_in(
            locale,
            "Ctrl 或 Command 之外最多只能再搭配一個修飾鍵"@,
            "Use at most one additional modifier with Ctrl or Command."@,
        ),
        ShortcutFault::CommonlyUsed => text_in(
            locale,
            "這是瀏覽器或常用應用程式的快捷鍵，請改用其他組合"@,
            "This shortcut is commonly used by browsers or other applications. Choose another combination."@,
        ),
    }
}

/// Whether an error is a backend error of this text.
pub open spec fn is_backend_error(error: DisplayMuxError, text: Seq<char>) -> bool {
    error matches DisplayMuxError::Backend(detail) && detail@ == text
}

/// Whether `result` says whether a shortcut is accepted.
pub open spec fn is_shortcut_verdict(
    locale: UiLocale,
    shortcut: Option<Shortcut>,
    platform: DestinationHost,
    result: Result<Shortcut, DisplayMuxError>,
) -> bool {
    match result {
        Ok(accepted) => shortcut == Some(accepted) && shortcut_fault(shortcut, platform) is None,
        Err(error) => shortcut_fault(shortcut, platform) matches Some(fault)
            && is_backend_error(error, shortcut_fault_text(locale, fault)),
    }
}

/// Accepts a shortcut, as far as it was recognized: it must hold the primary
/// modifier, at most one more, and be none that applications commonly use.
pub fn validate_host_switcher_shortcut(
    locale: UiLocale,
    shortcut: Option<Shortcut>,
    platform: DestinationHost,
) -> (result: Result<Shortcut, DisplayMuxError>)
    ensures
        is_shortcut_verdict(locale, shortcut, platform, result),
{
    let found = match shortcut {
        Some(found) => found,
        None => {
            return Err(
                DisplayMuxError::Backend(
                    ui_text(
                        locale,
                        "無法辨識快捷鍵，請同時按下修飾鍵與一個一般按鍵",
                        "The shortcut was not recognized. Press a modifier and one regular key.",
                    ).to_owned(),
                ),
            );
        },
    };
    let primary = match platform {
        DestinationHost::Mac => found.command,
        DestinationHost::Windows => found.control,
    };
    if !primary {
        return Err(
            DisplayMuxError::Backend(
                ui_text(
                    locale,
                    "Windows 快捷鍵必須包含 Ctrl；macOS 快捷鍵必須包含 Command",
                    "The shortcut must include Ctrl on Windows or Command on macOS.",
                ).to_owned(),
            ),
        );
    }
    let mut count: u8 = 0;
    if found.control {
        count += 1;
    }
    if found.command {
        count += 1;
    }
    if found.alt {
        count += 1;
    }
    if found.shift {
        count += 1;
    }
    if count > 2 {
        return Err(
            DisplayMuxError::Backend(
                ui_text(
                    locale,
                    "Ctrl 或 Command 之外最多只能再搭配一個修飾鍵",
                    "Use at most one additional modifier with Ctrl or Command.",
                ).to_owned(),
            ),
        );
    }
    if is_common_application_shortcut(&found, platform) {
        return Err(
            DisplayMuxError::Backend(
                ui_text(
                    locale,
                    "這是瀏覽器或常用應用程式的快捷鍵，請改用其他組合",
                    "This shortcut is commonly used by browsers or other applications. Choose another combination.",
                ).to_owned(),
            ),
        );
    }
    Ok(found)
}

/// What is to be done about the registered shortcut when settings change.
#[derive(Clone, Copy, Debug, PartialEq, Eq, Structural)]
pub struct ShortcutChange {
    /// The shortcut to give up first.
    pub unregister: Option<Shortcut>,
    /// The shortcut to register after that.
    pub register: Option<Shortcut>,
    /// Whether anything changes at all.
    pub needed: bool,
}

/// Whether `result` is what is to be done about the registered shortcut when settings
/// change from `previous` to `next`.
pub open spec fn is_shortcut_plan(
    locale: UiLocale,
    previous: AppSettings,
    next: AppSettings,
    previous_shortcut: Option<Shortcut>,
    previous_registered: bool,
    next_shortcut: Option<Shortcut>,
    platform: DestinationHost,
    result: Result<ShortcutChange, DisplayMuxError>,
) -> bool {
    let same = previous.host_switcher_enabled == next.host_switcher_enabled
        && previous.host_switcher_shortcut@ == next.host_switcher_shortcut@;
    let fault = shortcut_fault(next_shortcut, platform);
    match result {
        Err(error) => !same && next.host_switcher_enabled && (fault matches Some(found)
            && is_backend_error(error, shortcut_fault_text(locale, found))),
        Ok(change) => if same {
            change == (ShortcutChange { unregister: None, register: None, needed: false })
        } else {
            &&& next.host_switcher_enabled ==> fault is None
            &&& change == (ShortcutChange {
                unregister: if previous.host_switcher_enabled && previous_registered {
                    previous_shortcut
                } else {
                    None
                },
                register: if next.host_switcher_enabled {
                    next_shortcut
                } else {
                    None
                },
                needed: true,
            })
        },
    }
}

/// What is to be done about the registered shortcut when settings change from
/// `previous` to `next`: nothing where neither the switch nor the text of the
/// shortcut changed; else the previous one is given up where it is registered,
/// and the next one, which must be acceptable, is registered.
pub fn plan_shortcut_change(
    locale: UiLocale,
    previous: &AppSettings,
    next: &AppSettings,
    previous_shortcut: Option<Shortcut>,
    previous_registered: bool,
    next_shortcut: Option<Shortcut>,
    platform: DestinationHost,
) -> (result: Result<ShortcutChange, DisplayMuxError>)
    ensures
        is_shortcut_plan(
            locale,
            *previous,
            *next,
            previous_shortcut,
            previous_registered,
            next_shortcut,
            platform,
            result,
        ),
{
    if previous.host_switcher_enabled == next.host_switcher_enabled && crate::text::same_text(
        &previous.host_switcher_shortcut,
        &next.host_switcher_shortcut,
    ) {
        return Ok(ShortcutChange { unregister: None, register: None, needed: false });
    }
    let register = if next.host_switcher_enabled {
        match validate_host_switcher_shortcut(locale, next_shortcut, platform) {
            Ok(shortcut) => Some(shortcut),
            Err(error) => return Err(error),
        }
    } else {
        None
    };
    let unregister = if previous.host_switcher_enabled && previous_registered {
        previous_shortcut
    } else {
        None
    };
    Ok(ShortcutChange { unregister, register, needed: true })
}

/// What only the platform can say of settings.
#[derive(Debug)]
pub struct SettingsChecks {
    /// The host type that the operating system gives this computer.
    pub local_host: DestinationHost,
    /// The host switcher's shortcut, as far as it was recognized.
    pub shortcut: Option<Shortcut>,
    /// For each paired host, whether its address is an IP address.
    pub peer_addresses: Vec<bool>,
    /// Whether the broadcast address is an IPv4 address.
    pub broadcast_address: bool,
}

/// Why settings may not be saved.
pub enum SettingsFault {
    WrongHost,
    BadShortcut(ShortcutFault),
    InvalidInput,
    UnknownMonitor,
    SharedPort,
    UnlistedInput,
    PeerAddress(int),
    PeerMac(int),
    Broadcast,
    ShortKey,
}

/// Whether some recorded input is no input at all.
pub open spec fn has_invalid_input(settings: AppSettings) -> bool {
    ||| exists|k: int|
        0 <= k < settings.shared_monitors@.len() && ((
        #[trigger] settings.shared_monitors@[k]).local_input matches Some(input) && !input.usable())
    ||| exists|k: int, a: int|
        0 <= k < settings.peers@.len() && 0 <= a < settings.peers@[k].inputs@.len()
            && !(#[trigger] settings.peers@[k].inputs@[a]).input.usable()
}

/// Whether a display of this identity is shared.
pub open spec fn is_shared(monitors: Seq<SelectedMonitor>, monitor: Identity) -> bool {
    exists|m: int| 0 <= m < monitors.len() && (#[trigger] monitors[m]).fingerprint@ == monitor
}

/// Whether some assignment is for a display that is not shared.
pub open spec fn has_unknown_monitor(settings: AppSettings) -> bool {
    exists|k: int, a: int|
        0 <= k < settings.peers@.len() && 0 <= a < settings.peers@[k].inputs@.len() && !is_shared(
            settings.shared_monitors@,
            (#[trigger] settings.peers@[k].inputs@[a]).monitor@,
        )
}

/// Whether a paired host uses an input that the display does not list.
pub open spec fn uses_unlisted(selected: SelectedMonitor, peers: Seq<HostRoute>) -> bool {
    selected.supported_inputs matches Some(listed) && exists|k: int|
        0 <= k < peers.len() && ((#[trigger] peers[k]).input_on(selected.fingerprint@) matches Some(input)
            && !listed@.contains(input))
}

/// What is wrong with the inputs of a shared display.
pub open spec fn display_fault(selected: SelectedMonitor, peers: Seq<HostRoute>) -> Option<
    SettingsFault,
> {
    if !ports_are_distinct(selected.local_input, peers, selected.fingerprint@) {
        Some(SettingsFault::SharedPort)
    } else if uses_unlisted(selected, peers) {
        Some(SettingsFault::UnlistedInput)
    } else {
        None
    }
}

/// What is wrong with the first shared display, from `n` on, with which
/// anything is.
pub open spec fn displays_fault(settings: AppSettings, n: int) -> Option<SettingsFault>
    decreases settings.shared_monitors@.len() - n,
{
    if n < 0 || n >= settings.shared_monitors@.len() {
        None
    } else {
        match display_fault(settings.shared_monitors@[n], settings.peers@) {
            Some(fault) => Some(fault),
            None => displays_fault(settings, n + 1),
        }
    }
}

/// What is wrong with the first paired host, from `n` on, with which anything
/// is.
pub open spec fn peers_fault(settings: AppSettings, addresses: Seq<bool>, n: int) -> Option<
    SettingsFault,
>
    decreases settings.peers@.len() - n,
{
    if n < 0 || n >= settings.peers@.len() {
        None
    } else if !addresses[n] {
        Some(SettingsFault::PeerAddress(n))
    } else if trimmed(settings.peers@[n].mac_address@).len() > 0 && mac_of(
        settings.peers@[n].mac_address@,
    ) is None {
        Some(SettingsFault::PeerMac(n))
    } else {
        peers_fault(settings, addresses, n + 1)
    }
}

/// Why settings may not be saved: the first of the reasons, in this order.
pub open spec fn settings_fault(settings: AppSettings, checks: SettingsChecks) -> Option<
    SettingsFault,
> {
    let shortcut = shortcut_fault(checks.shortcut, checks.local_host);
    if settings.local_host != checks.local_host {
        Some(SettingsFault::WrongHost)
    } else if settings.host_switcher_enabled && shortcut is Some {
        Some(SettingsFault::BadShortcut(shortcut->0))
    } else if has_invalid_input(settings) {
        Some(SettingsFault::InvalidInput)
    } else if has_unknown_monitor(settings) {
        Some(SettingsFault::UnknownMonitor)
    } else if displays_fault(settings, 0) is Some {
        displays_fault(settings, 0)
    } else if peers_fault(settings, checks.peer_addresses@, 0) is Some {
        peers_fault(settings, checks.peer_addresses@, 0)
    } else if !checks.broadcast_address {
        Some(SettingsFault::Broadcast)
    } else if settings.shared_key@.len() > 0 && !valid_key(settings.shared_key@) {
        Some(SettingsFault::ShortKey)
    } else {
        None
    }
}

/// Whether an error is what is returned for a fault.
pub open spec fn is_fault_error(
    locale: UiLocale,
    settings: AppSettings,
    fault: SettingsFault,
    error: DisplayMuxError,
) -> bool {
    match fault {
        SettingsFault::WrongHost => is_backend_error(
            error,
            text_in(
                locale,
                "這台電腦的主機類型必須由作業系統自動判定"@,
                "This computer's host type must be determined by the operating system"@,
            ),
        ),
        SettingsFault::BadShortcut(found) => is_backend_error(
            error,
            shortcut_fault_text(locale, found),
        ),
        SettingsFault::InvalidInput => is_backend_error(
            error,
            text_in(
                locale,
                "請選擇有效的螢幕輸入 Port"@,
                "Select a valid display input port"@,
            ),
        ),
        SettingsFault::UnknownMonitor => is_backend_error(
            error,
            text_in(
                locale,
                "輸入設定對應到不存在的共用螢幕"@,
                "The input assignment refers to a shared display that is not selected"@,
            ),
        ),
        SettingsFault::SharedPort => is_backend_error(
            error,
            text_in(
                locale,
                "每個主機必須使用不同的螢幕輸入 Port"@,
                "Each host must use a different display input port"@,
            ),
        ),
        SettingsFault::UnlistedInput => is_backend_error(
            error,
            text_in(
                locale,
                "輸入值不在這台螢幕的 MCCS capabilities 清單中"@,
                "The input is not listed in this display's MCCS capabilities"@,
            ),
        ),
        SettingsFault::PeerAddress(k) => error matches DisplayMuxError::PeerUnavailable(text)
            && text@ == settings.peers@[k].name@ + text_in(
            locale,
            " 的 IP 位址無效"@,
            " has an invalid IP address"@,
        ),
        SettingsFault::PeerMac(k) => error matches DisplayMuxError::InvalidMacAddress(text) && text@
            == settings.peers@[k].mac_address@,
        SettingsFault::Broadcast => error matches DisplayMuxError::WakeFailed(text) && text@
            == text_in(locale, "廣播位址格式無效"@, "Invalid broadcast address"@),
        SettingsFault::ShortKey => is_backend_error(
            error,
            match locale {
                UiLocale::TraditionalChinese => "配對密碼至少需要 "@ + decimal(
                    MIN_SHARED_KEY_LENGTH as nat,
                ) + " 個字元"@,
                UiLocale::English => "The pairing password must contain at least "@ + decimal(
                    MIN_SHARED_KEY_LENGTH as nat,
                ) + " characters"@,
            },
        ),
    }
}

fn finds_invalid_input(settings: &AppSettings) -> (found: bool)
    ensures
        found == has_invalid_input(*settings),
{
    let mut k: usize = 0;
    while k < settings.shared_monitors.len()
        invariant
            k <= settings.shared_monitors@.len(),
            forall|j: int|
                0 <= j < k ==> !((#[trigger] settings.shared_monitors@[j]).local_input matches Some(input)
                    && !input.usable()),
        decreases settings.shared_monitors@.len() - k,
    {
        if let Some(input) = settings.shared_monitors[k].local_input {
            if DisplayInput::new(input.value()).is_err() {
                assert(settings.shared_monitors@[k as int].local_input matches Some(found)
                    && !found.usable());
                return true;
            }
        }
        k += 1;
    }
    let mut p: usize = 0;
    while p < settings.peers.len()
        invariant
            p <= settings.peers@.len(),
            forall|j: int|
                0 <= j < settings.shared_monitors@.len() ==> !((
                #[trigger] settings.shared_monitors@[j]).local_input matches Some(input)
                    && !input.usable()),
            forall|j: int, a: int|
                0 <= j < p && 0 <= a < settings.peers@[j].inputs@.len() ==> (
                #[trigger] settings.peers@[j].inputs@[a]).input.usable(),
        decreases settings.peers@.len() - p,
    {
        let inputs = &settings.peers[p].inputs;
        let mut a: usize = 0;
        while a < inputs.len()
            invariant
                p < settings.peers@.len(),
                inputs@ == settings.peers@[p as int].inputs@,
                a <= inputs@.len(),
                forall|b: int| 0 <= b < a ==> (#[trigger] inputs@[b]).input.usable(),
            decreases inputs@.len() - a,
        {
            if DisplayInput::new(inputs[a].input.value()).is_err() {
                assert(!settings.peers@[p as int].inputs@[a as int].input.usable());
                return true;
            }
            a += 1;
        }
        p += 1;
    }
    false
}

fn finds_unknown_monitor(settings: &AppSettings) -> (found: bool)
    ensures
        found == has_unknown_monitor(*settings),
{
    let mut p: usize = 0;
    while p < settings.peers.len()
        invariant
            p <= settings.peers@.len(),
            forall|j: int, a: int|
                0 <= j < p && 0 <= a < settings.peers@[j].inputs@.len() ==> is_shared(
                    settings.shared_monitors@,
                    (#[trigger] settings.peers@[j].inputs@[a]).monitor@,
                ),
        decreases settings.peers@.len() - p,
    {
        let inputs = &settings.peers[p].inputs;
        let mut a: usize = 0;
        while a < inputs.len()
            invariant
                p < settings.peers@.len(),
                inputs@ == settings.peers@[p as int].inputs@,
                a <= inputs@.len(),
                forall|b: int|
                    0 <= b < a ==> is_shared(
                        settings.shared_monitors@,
                        (#[trigger] inputs@[b]).monitor@,
                    ),
            decreases inputs@.len() - a,
        {
            let mut known: bool = false;
            let mut m: usize = 0;
            while m < settings.shared_monitors.len() && !known
                invariant
                    a < inputs@.len(),
                    m <= settings.shared_monitors@.len(),
                    known ==> is_shared(settings.shared_monitors@, inputs@[a as int].monitor@),
                    !known ==> forall|n: int|
                        0 <= n < m ==> (#[trigger] settings.shared_monitors@[n]).fingerprint@
                            != inputs@[a as int].monitor@,
                decreases settings.shared_monitors@.len() - m,
            {
                known = settings.shared_monitors[m].fingerprint.matches_exactly(
                    &inputs[a].monitor,
                );
                m += 1;
            }
            if !known {
                assert(!is_shared(
                    settings.shared_monitors@,
                    settings.peers@[p as int].inputs@[a as int].monitor@,
                ));
                return true;
            }
            a += 1;
        }
        p += 1;
    }
    false
}

fn has_distinct_ports(selected: &SelectedMonitor, peers: &Vec<HostRoute>) -> (distinct: bool)
    ensures
        distinct == ports_are_distinct(selected.local_input, peers@, selected.fingerprint@),
{
    let ghost monitor = selected.fingerprint@;
    let mut k: usize = 0;
    while k < peers.len()
        invariant
            k <= peers@.len(),
            monitor == selected.fingerprint@,
            forall|j: int|
                0 <= j < k && (#[trigger] peers@[j]).input_on(monitor) is Some
                    ==> peers@[j].input_on(monitor) != selected.local_input,
            forall|i: int, j: int|
                #![trigger peers@[i], peers@[j]]
                0 <= i < j < k && peers@[i].input_on(monitor) is Some ==> peers@[i].input_on(
                    monitor,
                ) != peers@[j].input_on(monitor),
        decreases peers@.len() - k,
    {
        let input = peers[k].input_for(&selected.fingerprint);
        if input.is_some() {
            if input == selected.local_input {
                assert(peers@[k as int].input_on(monitor) is Some);
                return false;
            }
            let mut j: usize = 0;
            while j < k
                invariant
                    j <= k < peers@.len(),
                    monitor == selected.fingerprint@,
                    input == peers@[k as int].input_on(monitor),
                    input is Some,
                    forall|i: int|
                        0 <= i < j ==> (#[trigger] peers@[i]).input_on(monitor) != input,
                decreases k - j,
            {
                if peers[j].input_for(&selected.fingerprint) == input {
                    assert(peers@[j as int].input_on(monitor) == peers@[k as int].input_on(monitor));
                    return false;
                }
                j += 1;
            }
        }
        k += 1;
    }
    true
}

fn finds_unlisted(selected: &SelectedMonitor, peers: &Vec<HostRoute>) -> (found: bool)
    ensures
        found == uses_unlisted(*selected, peers@),
{
    match &selected.supported_inputs {
        None => false,
        Some(listed) => {
            let mut k: usize = 0;
            while k < peers.len()
                invariant
                    k <= peers@.len(),
                    selected.supported_inputs == Some(*listed),
                    forall|j: int|
                        0 <= j < k ==> !((#[trigger] peers@[j]).input_on(selected.fingerprint@) matches Some(input)
                            && !listed@.contains(input)),
                decreases peers@.len() - k,
            {
                if let Some(input) = peers[k].input_for(&selected.fingerprint) {
                    if !contains_input(listed, input) {
                        assert(peers@[k as int].input_on(selected.fingerprint@) matches Some(found)
                            && !listed@.contains(found));
                        return true;
                    }
                }
                k += 1;
            }
            false
        },
    }
}

/// Whether `result` says whether settings may be saved.
pub open spec fn is_validated(
    locale: UiLocale,
    settings: AppSettings,
    checks: SettingsChecks,
    result: Result<(), DisplayMuxError>,
) -> bool {
    match result {
        Ok(_) => settings_fault(settings, checks) is None,
        Err(error) => settings_fault(settings, checks) matches Some(fault) && is_fault_error(
            locale,
            settings,
            fault,
            error,
        ),
    }
}

/// Whether settings may be saved.
pub fn validate_settings(locale: UiLocale, settings: &AppSettings, checks: &SettingsChecks) -> (result:
    Result<(), DisplayMuxError>)
    requires
        checks.peer_addresses@.len() == settings.peers@.len(),
    ensures
        is_validated(locale, *settings, *checks, result),
{
    if settings.local_host != checks.local_host {
        return Err(
            DisplayMuxError::Backend(
                ui_text(
                    locale,
                    "這台電腦的主機類型必須由作業系統自動判定",
                    "This computer's host type must be determined by the operating system",
                ).to_owned(),
            ),
        );
    }
    if settings.host_switcher_enabled {
        if let Err(error) = validate_host_switcher_shortcut(
            locale,
            checks.shortcut,
            checks.local_host,
        ) {
            return Err(error);
        }
    }
    if finds_invalid_input(settings) {
        return Err(
            DisplayMuxError::Backend(
                ui_text(
                    locale,
                    "請選擇有效的螢幕輸入 Port",
                    "Select a valid display input port",
                ).to_owned(),
            ),
        );
    }
    if finds_unknown_monitor(settings) {
        return Err(
            DisplayMuxError::Backend(
                ui_text(
                    locale,
                    "輸入設定對應到不存在的共用螢幕",
                    "The input assignment refers to a shared display that is not selected",
                ).to_owned(),
            ),
        );
    }
    let ghost so_far = settings_fault(*settings, *checks);
    let mut m: usize = 0;
    while m < settings.shared_monitors.len()
        invariant
            m <= settings.shared_monitors@.len(),
            displays_fault(*settings, 0) == displays_fault(*settings, m as int),
            so_far == settings_fault(*settings, *checks),
            displays_fault(*settings, 0) is Some ==> so_far == displays_fault(*settings, 0),
        decreases settings.shared_monitors@.len() - m,
    {
        let selected = &settings.shared_monitors[m];
        if !has_distinct_ports(selected, &settings.peers) {
            assert(displays_fault(*settings, m as int) == Some(SettingsFault::SharedPort));
            return Err(
                DisplayMuxError::Backend(
                    ui_text(
                        locale,
                        "每個主機必須使用不同的螢幕輸入 Port",
                        "Each host must use a different display input port",
                    ).to_owned(),
                ),
            );
        }
        if finds_unlisted(selected, &settings.peers) {
            assert(displays_fault(*settings, m as int) == Some(SettingsFault::UnlistedInput));
            return Err(
                DisplayMuxError::Backend(
                    ui_text(
                        locale,
                        "輸入值不在這台螢幕的 MCCS capabilities 清單中",
                        "The input is not listed in this display's MCCS capabilities",
                    ).to_owned(),
                ),
            );
        }
        m += 1;
    }
    let ghost addresses = checks.peer_addresses@;
    let mut p: usize = 0;
    while p < settings.peers.len()
        invariant
            p <= settings.peers@.len(),
            addresses == checks.peer_addresses@,
            addresses.len() == settings.peers@.len(),
            peers_fault(*settings, addresses, 0) == peers_fault(*settings, addresses, p as int),
            so_far == settings_fault(*settings, *checks),
            peers_fault(*settings, addresses, 0) is Some ==> so_far == peers_fault(
                *settings,
                addresses,
                0,
            ),
        decreases settings.peers@.len() - p,
    {
        let peer = &settings.peers[p];
        if !checks.peer_addresses[p] {
            assert(peers_fault(*settings, addresses, p as int) == Some(
                SettingsFault::PeerAddress(p as int),
            ));
            return Err(
                DisplayMuxError::PeerUnavailable(
                    join2(
                        &peer.name,
                        ui_text(locale, " 的 IP 位址無效", " has an invalid IP address"),
                    ),
                ),
            );
        }
        let mac = trim(&peer.mac_address);
        if !mac.as_str().is_empty() {
            if let Err(error) = MacAddress::parse(&peer.mac_address) {
                assert(peers_fault(*settings, addresses, p as int) == Some(
                    SettingsFault::PeerMac(p as int),
                ));
                return Err(error);
            }
        }
        p += 1;
    }
    if !checks.broadcast_address {
        return Err(
            DisplayMuxError::WakeFailed(
                ui_text(locale, "廣播位址格式無效", "Invalid broadcast address").to_owned(),
            ),
        );
    }
    if !settings.shared_key.as_str().is_empty() && !has_valid_shared_key(&settings.shared_key) {
        let least = decimal_text(MIN_SHARED_KEY_LENGTH as u64);
        return Err(
            DisplayMuxError::Backend(
                match locale {
                    UiLocale::TraditionalChinese => join3("配對密碼至少需要 ", &least, " 個字元"),
                    UiLocale::English => join3(
                        "The pairing password must contain at least ",
                        &least,
                        " characters",
                    ),
                },
            ),
        );
    }
    Ok(())
}

proof fn lemma_no_display_fault(settings: AppSettings, n: int, m: int)
    requires
        0 <= n <= m < settings.shared_monitors@.len(),
        displays_fault(settings, n) is None,
    ensures
        display_fault(settings.shared_monitors@[m], settings.peers@) is None,
    decreases m - n,
{
    if n < m {
        lemma_no_display_fault(settings, n + 1, m);
    }
}

/// In settings that may be saved, no two hosts use one input of a display.
pub proof fn saved_settings_have_distinct_ports(
    settings: AppSettings,
    checks: SettingsChecks,
    m: int,
)
    requires
        settings_fault(settings, checks) is None,
        0 <= m < settings.shared_monitors@.len(),
    ensures
        ports_are_distinct(
            settings.shared_monitors@[m].local_input,
            settings.peers@,
            settings.shared_monitors@[m].fingerprint@,
        ),
        !uses_unlisted(settings.shared_monitors@[m], settings.peers@),
{
    lemma_no_display_fault(settings, 0, m);
}

} // verus!
