//! What the user set up, and how it is looked up and changed.

use crate::domain::{
    DestinationHost, DiscoveredPeer, DisplayInput, HostAlias, Identity, InputLabel,
    MonitorDescriptor, MonitorFingerprint, MonitorIdentityLink, MonitorResolution, ResolutionSource,
};
use crate::input_label::{label_for, label_of};
use crate::lists::{first_at, lemma_first_at, lemma_first_at_is, some_item};
use crate::locale::{input_label, input_label_of, text_in, ui_text, UiLocale};
use crate::monitor_identity::{is_same_display, same_display};
use crate::network::LocalHostIdentity;
use crate::text::{join3, join4, join5, same_text};
use vstd::prelude::*;
use vstd::string::StrSliceExecFns;

verus! {

/// Shortest pairing password accepted, in characters.
pub const MIN_SHARED_KEY_LENGTH: usize = 8;

/// The shortcut that shows the host switcher unless the user picks another.
pub const DEFAULT_HOST_SWITCHER_SHORTCUT: &'static str = "CommandOrControl+Alt+Space";

/// A display that the user shares between hosts.
#[derive(Clone, Debug, PartialEq, Eq)]
pub struct SelectedMonitor {
    pub name: String,
    pub fingerprint: MonitorFingerprint,
    pub max_resolution: Option<MonitorResolution>,
    pub resolution_source: Option<ResolutionSource>,
    /// The input that this computer is plugged into.
    pub local_input: Option<DisplayInput>,
    pub supported_inputs: Option<Vec<DisplayInput>>,
    /// True when `supported_inputs` is the display's private 1..=max index
    /// list rather than MCCS codes, because the advertised capabilities did
    /// not even contain the input it was actually showing. Values are then
    /// labelled "Input N" instead of by MCCS name.
    pub vendor_indexed_inputs: bool,
    /// "local" or a peer id: whichever route was last confirmed as the
    /// monitor's active input by a successful switch. Not re-derived from a
    /// live DDC read, since some displays cannot be read back reliably once
    /// switched away from.
    pub active_route: Option<String>,
    /// When a switch or a paired host's notice last confirmed `active_route`
    /// (Unix milliseconds). Live reads cannot override it until
    /// `ACTIVE_ROUTE_SETTLE_MS` later. In memory only.
    pub active_route_confirmed_at_ms: u64,
}

impl SelectedMonitor {
    /// A display as it is selected: nothing is known of its inputs yet.
    pub open spec fn selected_from(monitor: MonitorDescriptor) -> SelectedMonitor {
        SelectedMonitor {
            name: monitor.name,
            fingerprint: monitor.fingerprint,
            max_resolution: monitor.max_resolution,
            resolution_source: monitor.resolution_source,
            local_input: None,
            supported_inputs: None,
            vendor_indexed_inputs: false,
            active_route: None,
            active_route_confirmed_at_ms: 0,
        }
    }

    /// A display as it is selected: nothing is known of its inputs yet.
    pub fn from(monitor: &MonitorDescriptor) -> (selected: Self)
        ensures
            selected == Self::selected_from(*monitor),
    {
        SelectedMonitor {
            name: monitor.name.clone(),
            fingerprint: monitor.fingerprint.clone(),
            max_resolution: monitor.max_resolution,
            resolution_source: monitor.resolution_source,
            local_input: None,
            supported_inputs: None,
            vendor_indexed_inputs: false,
            active_route: None,
            active_route_confirmed_at_ms: 0,
        }
    }

    /// The route that the display is said to show: an unset one is this host.
    pub open spec fn shown_route(self) -> Seq<char> {
        match self.active_route {
            Some(route) => route@,
            None => "local"@,
        }
    }
}

/// The input of a display that a paired host is plugged into.
#[derive(Debug, PartialEq, Eq)]
pub struct MonitorInputAssignment {
    pub monitor: MonitorFingerprint,
    pub input: DisplayInput,
}

impl Clone for MonitorInputAssignment {
    fn clone(&self) -> (copy: Self)
        ensures
            copy == *self,
    {
        MonitorInputAssignment { monitor: self.monitor.clone(), input: self.input }
    }
}

/// A paired host.
#[derive(Clone, Debug, PartialEq, Eq)]
pub struct HostRoute {
    pub id: String,
    pub name: String,
    pub platform: DestinationHost,
    pub address: String,
    pub port: u16,
    pub mac_address: String,
    pub inputs: Vec<MonitorInputAssignment>,
}

/// The assignments for a display.
pub open spec fn assigned_to(monitor: Identity) -> spec_fn(MonitorInputAssignment) -> bool {
    |assignment: MonitorInputAssignment| assignment.monitor@ == monitor
}

/// The assignments for other displays.
pub open spec fn not_assigned_to(monitor: Identity) -> spec_fn(MonitorInputAssignment) -> bool {
    |assignment: MonitorInputAssignment| assignment.monitor@ != monitor
}

/// The input assigned for a display, if there is one.
pub open spec fn assigned_input(
    inputs: Seq<MonitorInputAssignment>,
    monitor: Identity,
) -> Option<DisplayInput> {
    let i = first_at(inputs, assigned_to(monitor));
    if i < inputs.len() {
        Some(inputs[i].input)
    } else {
        None
    }
}

/// The assignments after one is set (or, without an input, removed).
pub open spec fn with_input(
    inputs: Seq<MonitorInputAssignment>,
    monitor: MonitorFingerprint,
    input: Option<DisplayInput>,
) -> Seq<MonitorInputAssignment> {
    let kept = inputs.filter(not_assigned_to(monitor@));
    match input {
        Some(value) => kept.push(MonitorInputAssignment { monitor, input: value }),
        None => kept,
    }
}

impl HostRoute {
    /// The input that the host uses on a display.
    pub open spec fn input_on(self, monitor: Identity) -> Option<DisplayInput> {
        assigned_input(self.inputs@, monitor)
    }

    pub fn input_for(&self, fingerprint: &MonitorFingerprint) -> (input: Option<DisplayInput>)
        ensures
            input == self.input_on(fingerprint@),
    {
        let ghost wanted = assigned_to(fingerprint@);
        let mut i: usize = 0;
        while i < self.inputs.len()
            invariant
                i <= self.inputs@.len(),
                wanted == assigned_to(fingerprint@),
                forall|j: int| 0 <= j < i ==> !wanted(#[trigger] self.inputs@[j]),
            decreases self.inputs@.len() - i,
        {
            if self.inputs[i].monitor.matches_exactly(fingerprint) {
                proof {
                    lemma_first_at_is(self.inputs@, wanted, i as int);
                }
                return Some(self.inputs[i].input);
            }
            i += 1;
        }
        proof {
            lemma_first_at_is(self.inputs@, wanted, i as int);
        }
        None
    }

    pub fn set_input_for(
        &mut self,
        fingerprint: &MonitorFingerprint,
        input: Option<DisplayInput>,
    )
        ensures
            final(self).inputs@ == with_input(old(self).inputs@, *fingerprint, input),
            *final(self) == (HostRoute { inputs: final(self).inputs, ..*old(self) }),
    {
        let ghost keep = not_assigned_to(fingerprint@);
        let mut inputs: Vec<MonitorInputAssignment> = Vec::new();
        let mut i: usize = 0;
        while i < self.inputs.len()
            invariant
                i <= self.inputs@.len(),
                *self == *old(self),
                keep == not_assigned_to(fingerprint@),
                inputs@ == self.inputs@.take(i as int).filter(keep),
            decreases self.inputs@.len() - i,
        {
            proof {
                assert(self.inputs@.take(i + 1).drop_last() =~= self.inputs@.take(i as int));
                reveal(Seq::filter);
            }
            if !self.inputs[i].monitor.matches_exactly(fingerprint) {
                inputs.push(self.inputs[i].clone());
            }
            i += 1;
        }
        assert(self.inputs@.take(self.inputs@.len() as int) =~= self.inputs@);
        if let Some(value) = input {
            inputs.push(MonitorInputAssignment { monitor: fingerprint.clone(), input: value });
        }
        self.inputs = inputs;
    }
}

/// Setting the input of a display sets that one, and leaves the others.
pub proof fn setting_an_input_sets_that_display_only(
    inputs: Seq<MonitorInputAssignment>,
    monitor: MonitorFingerprint,
    input: Option<DisplayInput>,
    other: Identity,
)
    ensures
        assigned_input(with_input(inputs, monitor, input), monitor@) == input,
        other != monitor@ ==> assigned_input(with_input(inputs, monitor, input), other)
            == assigned_input(inputs, other),
    decreases inputs.len(),
{
    let kept = inputs.filter(not_assigned_to(monitor@));
    let all = with_input(inputs, monitor, input);
    assert forall|j: int| 0 <= j < kept.len() implies !assigned_to(monitor@)(#[trigger] kept[j]) by {
        broadcast use vstd::seq_lib::group_filter_ensures;

        assert(kept.contains(kept[j]));
        assert(not_assigned_to(monitor@)(kept[j]));
    }
    assert forall|j: int| 0 <= j < kept.len() implies !assigned_to(monitor@)(#[trigger] all[j]) by {
        assert(all[j] == kept[j]);
    }
    lemma_first_at_is(all, assigned_to(monitor@), kept.len() as int);
    if other != monitor@ {
        lemma_other_display_is_kept(inputs, monitor@, other);
        lemma_first_at(kept, assigned_to(other));
        let n = first_at(kept, assigned_to(other));
        assert forall|j: int| 0 <= j < n implies !assigned_to(other)(#[trigger] all[j]) by {
            assert(all[j] == kept[j]);
        }
        if n < kept.len() {
            assert(all[n] == kept[n]);
            lemma_first_at_is(all, assigned_to(other), n);
        } else {
            lemma_first_at_is(all, assigned_to(other), all.len() as int);
        }
    }
}

proof fn lemma_other_display_is_kept(
    inputs: Seq<MonitorInputAssignment>,
    monitor: Identity,
    other: Identity,
)
    requires
        other != monitor,
    ensures
        assigned_input(inputs.filter(not_assigned_to(monitor)), other) == assigned_input(
            inputs,
            other,
        ),
    decreases inputs.len(),
{
    reveal(Seq::filter);
    if inputs.len() > 0 {
        let front = inputs.drop_last();
        let keep = not_assigned_to(monitor);
        let want = assigned_to(other);
        lemma_other_display_is_kept(front, monitor, other);
        let a = front.filter(keep);
        let b = inputs.filter(keep);
        lemma_first_at(front, want);
        lemma_first_at(a, want);
        let n = first_at(front, want);
        let m = first_at(a, want);
        assert forall|j: int| 0 <= j < n implies !want(#[trigger] inputs[j]) by {
            assert(!want(front[j]));
        }
        assert forall|j: int| 0 <= j < m implies !want(#[trigger] b[j]) by {
            assert(!want(a[j]));
        }
        if n < front.len() {
            assert(assigned_input(front, other) is Some);
            assert(m < a.len());
            assert(inputs[n] == front[n]);
            assert(b[m] == a[m]);
            lemma_first_at_is(inputs, want, n);
            lemma_first_at_is(b, want, m);
        } else {
            assert(assigned_input(front, other) is None);
            assert(m == a.len());
            if want(inputs.last()) {
                assert(keep(inputs.last()));
                lemma_first_at_is(inputs, want, front.len() as int);
                lemma_first_at_is(b, want, a.len() as int);
            } else {
                lemma_first_at_is(inputs, want, inputs.len() as int);
                lemma_first_at_is(b, want, b.len() as int);
            }
        }
    }
}

/// The settings of this computer.
#[derive(Clone, Debug, PartialEq, Eq)]
pub struct AppSettings {
    pub local_host: DestinationHost,
    pub shared_monitors: Vec<SelectedMonitor>,
    pub peers: Vec<HostRoute>,
    pub broadcast_ip: String,
    pub wake_port: u16,
    pub shared_key: String,
    pub wait_seconds: u64,
    pub autostart: bool,
    pub check_updates: bool,
    pub onboarding_completed: bool,
    pub host_switcher_enabled: bool,
    pub host_switcher_shortcut: String,
    /// Host card order shared with paired hosts, as discovery ids (see
    /// `host_order`). Changed only through `set_host_order` or a paired host's
    /// notice, never by saving a settings form.
    pub host_order: Vec<String>,
    /// When `host_order` last changed (Unix milliseconds), so the newest order
    /// wins when several hosts reorder.
    pub host_order_updated_at_ms: u64,
    /// Custom host names shared with paired hosts (see `host_alias`).
    pub host_aliases: Vec<HostAlias>,
    /// Notes for shared display inputs, shared with paired hosts (see
    /// `input_label`).
    pub input_labels: Vec<InputLabel>,
    /// Which EDID identities the user declared to be the same physical display,
    /// shared with paired hosts (see `monitor_identity`).
    pub monitor_identity_links: Vec<MonitorIdentityLink>,
    /// Whether the shared display list has ever been decided - by the user or
    /// by the one-time auto-select. An empty list means "none chosen" only
    /// until then; afterwards it means the user emptied it on purpose, and
    /// auto-select must not undo that.
    pub shared_monitors_chosen: bool,
    /// This computer's discovery id, fixed the first time it is worked out.
    /// Peers store it to name this host in their pairings, host order and
    /// custom names, so it must never be re-derived.
    pub local_host_id: String,
}

/// Whether the settings are those of a fresh install on `host`.
pub open spec fn is_fresh_install(settings: AppSettings, host: DestinationHost) -> bool {
    &&& settings.local_host == host
    &&& settings.shared_monitors@.len() == 0
    &&& settings.peers@.len() == 0
    &&& settings.shared_key@.len() == 0
    &&& has_factory_options(settings)
    &&& !settings.onboarding_completed
    &&& !settings.shared_monitors_chosen
    &&& settings.local_host_id@.len() == 0
    &&& nothing_shared(settings)
}

/// Whether the options that the user can set are as delivered.
pub open spec fn has_factory_options(settings: AppSettings) -> bool {
    &&& settings.broadcast_ip@ == "255.255.255.255"@
    &&& settings.wake_port == 9
    &&& settings.wait_seconds == 45
    &&& settings.autostart
    &&& settings.check_updates
    &&& !settings.host_switcher_enabled
    &&& settings.host_switcher_shortcut@ == "CommandOrControl+Alt+Space"@
}

/// Whether nothing that paired hosts share is there.
pub open spec fn nothing_shared(settings: AppSettings) -> bool {
    &&& settings.host_order@.len() == 0
    &&& settings.host_order_updated_at_ms == 0
    &&& settings.host_aliases@.len() == 0
    &&& settings.input_labels@.len() == 0
    &&& settings.monitor_identity_links@.len() == 0
}

impl AppSettings {
    /// The settings of a fresh install on `host`.
    pub fn for_host(host: DestinationHost) -> (settings: Self)
        ensures
            is_fresh_install(settings, host),
    {
        AppSettings {
            local_host: host,
            shared_monitors: Vec::new(),
            peers: Vec::new(),
            broadcast_ip: "255.255.255.255".to_owned(),
            wake_port: 9,
            shared_key: String::new(),
            wait_seconds: 45,
            autostart: true,
            check_updates: true,
            onboarding_completed: false,
            host_switcher_enabled: false,
            host_switcher_shortcut: DEFAULT_HOST_SWITCHER_SHORTCUT.to_owned(),
            host_order: Vec::new(),
            host_order_updated_at_ms: 0,
            host_aliases: Vec::new(),
            input_labels: Vec::new(),
            monitor_identity_links: Vec::new(),
            shared_monitors_chosen: false,
            local_host_id: String::new(),
        }
    }
}

impl Default for AppSettings {
    /// A platform that is neither counts as Windows.
    fn default() -> (settings: Self)
        ensures
            is_fresh_install(settings, DestinationHost::Windows),
    {
        AppSettings::for_host(DestinationHost::Windows)
    }
}

/// The frontend-facing id of a monitor identity.
pub open spec fn key_of(monitor: Identity) -> Seq<char> {
    monitor.manufacturer + ":"@ + monitor.product + ":"@ + match monitor.serial {
        Some(serial) => serial,
        None => ""@,
    }
}

/// A stable, opaque, frontend-facing id for a monitor identity. Not
/// persisted - recomputed from the fingerprint on every call.
pub fn monitor_key(fingerprint: &MonitorFingerprint) -> (key: String)
    ensures
        key@ == key_of(fingerprint@),
{
    let serial = match &fingerprint.serial_number {
        Some(serial) => serial.as_str(),
        None => "",
    };
    join5(&fingerprint.manufacturer_id, ":", &fingerprint.product_code, ":", serial)
}

/// `MANUFACTURER / PRODUCT`, enough to tell two identities of one display apart
/// where the name is identical because it is the same panel.
pub open spec fn identity_label_of(monitor: Identity) -> Seq<char> {
    monitor.manufacturer + " / "@ + monitor.product
}

pub fn identity_label(fingerprint: &MonitorFingerprint) -> (label: String)
    ensures
        label@ == identity_label_of(fingerprint@),
{
    join3(&fingerprint.manufacturer_id, " / ", &fingerprint.product_code)
}

/// One "these two identities are the same display" claim, as the settings page
/// shows it. The keys go back to `set_monitor_identity_link`, so a claim can be
/// withdrawn even when neither identity is present or shared any more.
#[derive(Clone, Debug, PartialEq, Eq)]
pub struct MonitorIdentityClaim {
    pub alias_key: String,
    pub alias_label: String,
    pub primary_key: String,
    pub primary_label: String,
}

/// What a claim shows: the two identities.
pub open spec fn shows_claim(
    claim: MonitorIdentityClaim,
    alias: Identity,
    primary: Identity,
) -> bool {
    &&& claim.alias_key@ == key_of(alias)
    &&& claim.alias_label@ == identity_label_of(alias)
    &&& claim.primary_key@ == key_of(primary)
    &&& claim.primary_label@ == identity_label_of(primary)
}

/// The claims that stand, in order.
pub open spec fn standing_claims(links: Seq<MonitorIdentityLink>) -> Seq<MonitorIdentityLink> {
    links.filter(|link: MonitorIdentityLink| link.primary is Some)
}

/// The claims that stand, as the settings page shows them.
pub fn monitor_identity_claims(settings: &AppSettings) -> (claims: Vec<MonitorIdentityClaim>)
    ensures
        claims@.len() == standing_claims(settings.monitor_identity_links@).len(),
        forall|i: int|
            0 <= i < claims@.len() ==> {
                let link = standing_claims(settings.monitor_identity_links@)[i];
                link.primary is Some && shows_claim(
                    #[trigger] claims@[i],
                    link.alias@,
                    link.primary->0@,
                )
            },
{
    let links = &settings.monitor_identity_links;
    let ghost stands = |link: MonitorIdentityLink| link.primary is Some;
    let mut claims: Vec<MonitorIdentityClaim> = Vec::new();
    let mut i: usize = 0;
    while i < links.len()
        invariant
            i <= links@.len(),
            stands == (|link: MonitorIdentityLink| link.primary is Some),
            claims@.len() == links@.take(i as int).filter(stands).len(),
            forall|k: int|
                0 <= k < claims@.len() ==> {
                    let link = links@.take(i as int).filter(stands)[k];
                    link.primary is Some && shows_claim(
                        #[trigger] claims@[k],
                        link.alias@,
                        link.primary->0@,
                    )
                },
        decreases links@.len() - i,
    {
        proof {
            assert(links@.take(i + 1).drop_last() =~= links@.take(i as int));
            reveal(Seq::filter);
        }
        if let Some(primary) = &links[i].primary {
            claims.push(
                MonitorIdentityClaim {
                    alias_key: monitor_key(&links[i].alias),
                    alias_label: identity_label(&links[i].alias),
                    primary_key: monitor_key(primary),
                    primary_label: identity_label(primary),
                },
            );
        }
        i += 1;
    }
    assert(links@.take(links@.len() as int) =~= links@);
    claims
}

/// An input's name with the user's note in front, e.g. "USB-C (Input 8)".
pub open spec fn noted_label_of(
    locale: UiLocale,
    labels: Seq<InputLabel>,
    monitor: Identity,
    vendor_indexed: bool,
    input: DisplayInput,
) -> Seq<char> {
    let base = input_label_of(locale, vendor_indexed, input);
    match label_of(labels, monitor, input) {
        Some(note) => match locale {
            UiLocale::TraditionalChinese => note + "（"@ + base + "）"@,
            UiLocale::English => note + " ("@ + base + ")"@,
        },
        None => base,
    }
}

/// An input's name with the user's note in front, e.g. "USB-C (Input 8)".
pub fn noted_input_label(
    locale: UiLocale,
    settings: &AppSettings,
    selected: &SelectedMonitor,
    input: DisplayInput,
) -> (label: String)
    ensures
        label@ == noted_label_of(
            locale,
            settings.input_labels@,
            selected.fingerprint@,
            selected.vendor_indexed_inputs,
            input,
        ),
{
    let base = input_label(locale, selected.vendor_indexed_inputs, input);
    match label_for(&settings.input_labels, &selected.fingerprint, input) {
        Some(note) => match locale {
            UiLocale::TraditionalChinese => join4(note, "（", &base, "）"),
            UiLocale::English => join4(note, " (", &base, ")"),
        },
        None => base,
    }
}

/// The shared display of a frontend-facing id.
pub open spec fn has_key(key: Seq<char>) -> spec_fn(SelectedMonitor) -> bool {
    |selected: SelectedMonitor| key_of(selected.fingerprint@) == key
}

/// The position of the shared display of a frontend-facing id, if there is one.
pub fn shared_monitor_index(settings: &AppSettings, monitor_id: &str) -> (found: Option<usize>)
    ensures
        match found {
            Some(i) => i == first_at(settings.shared_monitors@, has_key(monitor_id@)) && i
                < settings.shared_monitors@.len(),
            None => !some_item(settings.shared_monitors@, has_key(monitor_id@)),
        },
{
    let monitors = &settings.shared_monitors;
    let ghost wanted = has_key(monitor_id@);
    let mut i: usize = 0;
    while i < monitors.len()
        invariant
            i <= monitors@.len(),
            monitors@ == settings.shared_monitors@,
            wanted == has_key(monitor_id@),
            forall|j: int| 0 <= j < i ==> !wanted(#[trigger] monitors@[j]),
        decreases monitors@.len() - i,
    {
        if same_text(&monitor_key(&monitors[i].fingerprint), monitor_id) {
            proof {
                lemma_first_at_is(monitors@, wanted, i as int);
            }
            return Some(i);
        }
        i += 1;
    }
    proof {
        lemma_first_at_is(monitors@, wanted, i as int);
    }
    None
}

/// What is said where a shared display is not found.
pub open spec fn shared_monitor_missing(locale: UiLocale) -> Seq<char> {
    text_in(
        locale,
        "找不到這台共用螢幕，請重新整理後再試一次"@,
        "This shared display was not found. Refresh and try again."@,
    )
}

/// Whether `result` is the shared display of a frontend-facing id.
pub open spec fn is_found_monitor(
    locale: UiLocale,
    settings: AppSettings,
    key: Seq<char>,
    result: Result<&SelectedMonitor, String>,
) -> bool {
    let i = first_at(settings.shared_monitors@, has_key(key));
    match result {
        Ok(selected) => i < settings.shared_monitors@.len() && *selected
            == settings.shared_monitors@[i],
        Err(message) => i == settings.shared_monitors@.len() && message@
            == shared_monitor_missing(locale),
    }
}

/// The shared display of a frontend-facing id.
pub fn find_shared_monitor<'a>(locale: UiLocale, settings: &'a AppSettings, monitor_id: &str) -> (result:
    Result<&'a SelectedMonitor, String>)
    ensures
        is_found_monitor(locale, *settings, monitor_id@, result),
{
    proof {
        lemma_first_at(settings.shared_monitors@, has_key(monitor_id@));
    }
    match shared_monitor_index(settings, monitor_id) {
        Some(i) => Ok(&settings.shared_monitors[i]),
        None => Err(
            ui_text(
                locale,
                "找不到這台共用螢幕，請重新整理後再試一次",
                "This shared display was not found. Refresh and try again.",
            ).to_owned(),
        ),
    }
}

/// The host of an id.
pub open spec fn has_id(id: Seq<char>) -> spec_fn(HostRoute) -> bool {
    |peer: HostRoute| peer.id@ == id
}

/// The position of the paired host of an id, if there is one.
pub fn peer_index(peers: &[HostRoute], peer_id: &str) -> (found: Option<usize>)
    ensures
        match found {
            Some(i) => i == first_at(peers@, has_id(peer_id@)) && i < peers@.len(),
            None => first_at(peers@, has_id(peer_id@)) == peers@.len(),
        },
{
    let ghost wanted = has_id(peer_id@);
    let mut i: usize = 0;
    while i < peers.len()
        invariant
            i <= peers@.len(),
            wanted == has_id(peer_id@),
            forall|j: int| 0 <= j < i ==> !wanted(#[trigger] peers@[j]),
        decreases peers@.len() - i,
    {
        if same_text(&peers[i].id, peer_id) {
            proof {
                lemma_first_at_is(peers@, wanted, i as int);
            }
            return Some(i);
        }
        i += 1;
    }
    proof {
        lemma_first_at_is(peers@, wanted, i as int);
    }
    None
}

/// What is said where a paired host is not found.
pub open spec fn peer_missing(locale: UiLocale) -> Seq<char> {
    text_in(
        locale,
        "找不到這台已配對主機，請重新搜尋並加入"@,
        "This paired host was not found. Search for it and add it again."@,
    )
}

/// Whether `result` is the paired host of an id.
pub open spec fn is_found_peer(
    locale: UiLocale,
    settings: AppSettings,
    id: Seq<char>,
    result: Result<&HostRoute, String>,
) -> bool {
    let i = first_at(settings.peers@, has_id(id));
    match result {
        Ok(peer) => i < settings.peers@.len() && *peer == settings.peers@[i],
        Err(message) => i == settings.peers@.len() && message@ == peer_missing(locale),
    }
}

/// The paired host of an id.
pub fn find_peer<'a>(locale: UiLocale, settings: &'a AppSettings, peer_id: &str) -> (result: Result<
    &'a HostRoute,
    String,
>)
    ensures
        is_found_peer(locale, *settings, peer_id@, result),
{
    match peer_index(&settings.peers, peer_id) {
        Some(i) => Ok(&settings.peers[i]),
        None => Err(
            ui_text(
                locale,
                "找不到這台已配對主機，請重新搜尋並加入",
                "This paired host was not found. Search for it and add it again.",
            ).to_owned(),
        ),
    }
}

/// Whether a pairing password is long enough.
pub open spec fn valid_key(shared_key: Seq<char>) -> bool {
    shared_key.len() >= MIN_SHARED_KEY_LENGTH
}

/// Whether a pairing password is long enough.
pub fn has_valid_shared_key(shared_key: &str) -> (valid: bool)
    ensures
        valid == valid_key(shared_key@),
{
    shared_key.unicode_len() >= MIN_SHARED_KEY_LENGTH
}

/// Whether `result` is the settings as a build of this kind keeps them.
pub open spec fn is_for_build(
    settings: AppSettings,
    development: bool,
    result: AppSettings,
) -> bool {
    result == (AppSettings {
        autostart: settings.autostart && !development,
        ..settings
    })
}

/// A development executable may point at a dev server and, on Windows, may
/// be a console process. It is never kept as a login item.
pub fn settings_for_current_build(settings: AppSettings, development: bool) -> (result: AppSettings)
    ensures
        is_for_build(settings, development, result),
{
    let mut result = settings;
    if development {
        result.autostart = false;
    }
    result
}

/// The hosts of other ids.
pub open spec fn not_id(id: Seq<char>) -> spec_fn(HostRoute) -> bool {
    |peer: HostRoute| peer.id@ != id
}

/// Whether `after` is `before` without the paired host of an id.
pub open spec fn is_unpaired(before: AppSettings, peer_id: Seq<char>, after: AppSettings) -> bool {
    &&& after.peers@ == before.peers@.filter(not_id(peer_id))
    &&& after == (AppSettings { peers: after.peers, ..before })
}

/// `settings` without the paired host of an id.
pub fn remove_peer(settings: &mut AppSettings, peer_id: &str)
    ensures
        is_unpaired(*old(settings), peer_id@, *final(settings)),
{
    let ghost all = settings.peers@;
    let ghost keep = not_id(peer_id@);
    let mut kept: Vec<HostRoute> = Vec::new();
    let mut rest: Vec<HostRoute> = Vec::new();
    rest.append(&mut settings.peers);
    assert(rest@ =~= all);
    let ghost mut done: int = 0;
    while rest.len() > 0
        invariant
            keep == not_id(peer_id@),
            0 <= done <= all.len(),
            rest@ == all.skip(done),
            kept@ == all.take(done).filter(keep),
            settings.peers@.len() == 0,
            *settings == (AppSettings { peers: settings.peers, ..*old(settings) }),
        decreases rest@.len(),
    {
        let peer = rest.remove(0);
        proof {
            assert(peer == all[done]);
            assert(rest@ =~= all.skip(done + 1));
            assert(all.take(done + 1).drop_last() =~= all.take(done));
            reveal(Seq::filter);
            done = done + 1;
        }
        if !same_text(&peer.id, peer_id) {
            kept.push(peer);
        }
    }
    assert(all.take(done) =~= all);
    settings.peers = kept;
}

/// The text of an optional MAC address, empty where there is none.
pub open spec fn mac_or_empty(mac_address: Option<String>) -> Seq<char> {
    match mac_address {
        Some(mac) => mac@,
        None => ""@,
    }
}

/// Whether `route` says of a host what was discovered of it.
pub open spec fn is_as_discovered(route: HostRoute, peer: DiscoveredPeer) -> bool {
    &&& route.id@ == peer.id@
    &&& route.name@ == peer.name@
    &&& route.platform == peer.platform
    &&& route.address@ == peer.address@
    &&& route.port == peer.port
    &&& route.mac_address@ == mac_or_empty(peer.mac_address)
}

/// Whether `after` is `before` with a discovered host recorded: an already paired
/// one is updated and keeps its inputs, a new one is added without any.
pub open spec fn is_recorded(before: AppSettings, peer: DiscoveredPeer, after: AppSettings) -> bool {
    let i = first_at(before.peers@, has_id(peer.id@));
    &&& after == (AppSettings { peers: after.peers, ..before })
    &&& if i < before.peers@.len() {
        &&& after.peers@ == before.peers@.update(i, after.peers@[i])
        &&& is_as_discovered(after.peers@[i], peer)
        &&& after.peers@[i].id == before.peers@[i].id
        &&& after.peers@[i].inputs == before.peers@[i].inputs
    } else {
        &&& after.peers@.len() == before.peers@.len() + 1
        &&& after.peers@.drop_last() == before.peers@
        &&& is_as_discovered(after.peers@.last(), peer)
        &&& after.peers@.last().inputs@.len() == 0
    }
}

/// Records a discovered host: an already paired one is updated and keeps its
/// inputs, a new one is added without any.
pub fn upsert_discovered_peer(settings: &mut AppSettings, peer: &DiscoveredPeer)
    ensures
        is_recorded(*old(settings), *peer, *final(settings)),
{
    let mac_address = match &peer.mac_address {
        Some(mac) => mac.clone(),
        None => "".to_owned(),
    };
    proof {
        lemma_first_at(settings.peers@, has_id(peer.id@));
    }
    let ghost before = settings.peers@;
    match peer_index(&settings.peers, &peer.id) {
        Some(i) => {
            assert(has_id(peer.id@)(before[i as int]));
            let existing = &mut settings.peers[i];
            existing.name = peer.name.clone();
            existing.platform = peer.platform;
            existing.address = peer.address.clone();
            existing.port = peer.port;
            existing.mac_address = mac_address;
            assert(settings.peers@ =~= before.update(i as int, settings.peers@[i as int]));
        },
        None => {
            settings.peers.push(
                HostRoute {
                    id: peer.id.clone(),
                    name: peer.name.clone(),
                    platform: peer.platform,
                    address: peer.address.clone(),
                    port: peer.port,
                    mac_address,
                    inputs: Vec::new(),
                },
            );
            assert(settings.peers@.drop_last() =~= before);
        },
    }
}

/// Whether two entries say the same of where a host is reached.
pub open spec fn same_endpoint(a: HostRoute, b: HostRoute) -> bool {
    &&& a.name@ == b.name@
    &&& a.platform == b.platform
    &&& a.address@ == b.address@
    &&& a.port == b.port
    &&& a.mac_address@ == b.mac_address@
}

/// Whether `after` is `before` once a discovered host was looked at: one that is
/// paired is updated and keeps its inputs, any other is passed over.
pub open spec fn is_endpoint_update(
    before: Seq<HostRoute>,
    peer: DiscoveredPeer,
    after: Seq<HostRoute>,
) -> bool {
    let i = first_at(before, has_id(peer.id@));
    if i < before.len() {
        &&& after == before.update(i, after[i])
        &&& is_as_discovered(after[i], peer)
        &&& after[i].id == before[i].id
        &&& after[i].inputs == before[i].inputs
    } else {
        after == before
    }
}

/// Whether the paired hosts went through `states` as discovered hosts were
/// looked at one after the other.
pub open spec fn are_endpoint_updates(
    states: Seq<Seq<HostRoute>>,
    peers: Seq<DiscoveredPeer>,
) -> bool {
    &&& states.len() == peers.len() + 1
    &&& forall|k: int|
        0 <= k < peers.len() ==> #[trigger] is_endpoint_update(states[k], peers[k], states[k + 1])
}

fn copy_endpoints(peers: &Vec<HostRoute>) -> (copies: Vec<HostRoute>)
    ensures
        copies@.len() == peers@.len(),
        forall|k: int| 0 <= k < peers@.len() ==> same_endpoint(peers@[k], #[trigger] copies@[k]),
{
    let mut copies: Vec<HostRoute> = Vec::new();
    let mut i: usize = 0;
    while i < peers.len()
        invariant
            i <= peers@.len(),
            copies@.len() == i,
            forall|k: int| 0 <= k < i ==> same_endpoint(peers@[k], #[trigger] copies@[k]),
        decreases peers@.len() - i,
    {
        let peer = &peers[i];
        copies.push(
            HostRoute {
                id: peer.id.clone(),
                name: peer.name.clone(),
                platform: peer.platform,
                address: peer.address.clone(),
                port: peer.port,
                mac_address: peer.mac_address.clone(),
                inputs: Vec::new(),
            },
        );
        i += 1;
    }
    copies
}

fn has_same_endpoint(a: &HostRoute, b: &HostRoute) -> (same: bool)
    ensures
        same == same_endpoint(*a, *b),
{
    same_text(&a.name, &b.name) && a.platform == b.platform && same_text(&a.address, &b.address)
        && a.port == b.port && same_text(&a.mac_address, &b.mac_address)
}

fn update_endpoints(settings: &mut AppSettings, peers: &[DiscoveredPeer])
    ensures
        *final(settings) == (AppSettings { peers: final(settings).peers, ..*old(settings) }),
        final(settings).peers@.len() == old(settings).peers@.len(),
        exists|states: Seq<Seq<HostRoute>>|
            {
                &&& #[trigger] are_endpoint_updates(states, peers@)
                &&& states[0] == old(settings).peers@
                &&& states.last() == final(settings).peers@
            },
{
    let ghost mut states: Seq<Seq<HostRoute>> = seq![settings.peers@];
    let mut n: usize = 0;
    while n < peers.len()
        invariant
            n <= peers@.len(),
            *settings == (AppSettings { peers: settings.peers, ..*old(settings) }),
            settings.peers@.len() == old(settings).peers@.len(),
            states.len() == n + 1,
            states[0] == old(settings).peers@,
            states.last() == settings.peers@,
            forall|k: int|
                0 <= k < n ==> #[trigger] is_endpoint_update(states[k], peers@[k], states[k + 1]),
        decreases peers@.len() - n,
    {
        let ghost before = settings.peers@;
        let ghost had = states;
        if peer_index(&settings.peers, &peers[n].id).is_some() {
            upsert_discovered_peer(settings, &peers[n]);
        }
        proof {
            assert(is_endpoint_update(before, peers@[n as int], settings.peers@));
            states = states.push(settings.peers@);
            assert forall|k: int| 0 <= k < n + 1 implies #[trigger] is_endpoint_update(
                states[k],
                peers@[k],
                states[k + 1],
            ) by {
                if k < n {
                    assert(is_endpoint_update(had[k], peers@[k], had[k + 1]));
                }
            }
        }
        n += 1;
    }
    assert(are_endpoint_updates(states, peers@));
}

/// Whether `after` is `before` with what is saved of paired hosts brought in line
/// with where they were discovered, and `changed` whether anything is said
/// differently now.
pub open spec fn is_refreshed(
    before: AppSettings,
    peers: Seq<DiscoveredPeer>,
    after: AppSettings,
    changed: bool,
) -> bool {
    &&& after == (AppSettings { peers: after.peers, ..before })
    &&& after.peers@.len() == before.peers@.len()
    &&& changed == exists|k: int|
        0 <= k < before.peers@.len() && !same_endpoint(
            #[trigger] before.peers@[k],
            after.peers@[k],
        )
    &&& exists|states: Seq<Seq<HostRoute>>|
        {
            &&& #[trigger] are_endpoint_updates(states, peers)
            &&& states[0] == before.peers@
            &&& states.last() == after.peers@
        }
}

/// Brings what is saved of paired hosts in line with where they were discovered.
/// No host is added. Returns whether anything is said differently now.
pub fn refresh_paired_endpoints(settings: &mut AppSettings, peers: &[DiscoveredPeer]) -> (changed: bool)
    ensures
        is_refreshed(*old(settings), peers@, *final(settings), changed),
{
    let ghost before = settings.peers@;
    let kept = copy_endpoints(&settings.peers);
    update_endpoints(settings, peers);
    let ghost after = *settings;
    let mut k: usize = 0;
    let mut changed: bool = false;
    while k < settings.peers.len() && !changed
        invariant
            k <= settings.peers@.len() == before.len(),
            kept@.len() == before.len(),
            *settings == after,
            forall|j: int| 0 <= j < before.len() ==> same_endpoint(before[j], #[trigger] kept@[j]),
            changed ==> exists|j: int|
                0 <= j < before.len() && !same_endpoint(#[trigger] before[j], settings.peers@[j]),
            !changed ==> forall|j: int|
                0 <= j < k ==> same_endpoint(#[trigger] before[j], settings.peers@[j]),
        decreases settings.peers@.len() - k,
    {
        assert(same_endpoint(before[k as int], kept@[k as int]));
        if !has_same_endpoint(&kept[k], &settings.peers[k]) {
            assert(!same_endpoint(before[k as int], settings.peers@[k as int]));
            changed = true;
        }
        k += 1;
    }
    changed
}

/// Whether a display present right now is the display `selected` names.
pub open spec fn names_display(
    links: Seq<MonitorIdentityLink>,
    selected: SelectedMonitor,
    monitor: MonitorDescriptor,
) -> bool {
    same_display(links, selected.fingerprint@, monitor.fingerprint@)
}

/// Whether `monitor`, present right now, is the display `selected` names - its
/// own identity or one the user merged into it. Deciding *which* display is
/// meant is separate from deciding what may be written to: every switch still
/// demands an exact fingerprint match.
pub fn is_selected_display(
    links: &[MonitorIdentityLink],
    selected: &SelectedMonitor,
    monitor: &MonitorDescriptor,
) -> (yes: bool)
    ensures
        yes == names_display(links@, *selected, *monitor),
{
    is_same_display(links, &selected.fingerprint, &monitor.fingerprint)
}

/// The selected displays that are the display of an identity.
pub open spec fn selects(links: Seq<MonitorIdentityLink>, monitor: Identity) -> spec_fn(
    SelectedMonitor,
) -> bool {
    |selected: SelectedMonitor| same_display(links, selected.fingerprint@, monitor)
}

/// The position of the first selection of the display of an identity, if there
/// is one.
pub fn selection_index(
    monitors: &[SelectedMonitor],
    links: &[MonitorIdentityLink],
    monitor: &MonitorFingerprint,
) -> (found: Option<usize>)
    ensures
        match found {
            Some(i) => i == first_at(monitors@, selects(links@, monitor@)) && i < monitors@.len(),
            None => first_at(monitors@, selects(links@, monitor@)) == monitors@.len(),
        },
{
    let ghost wanted = selects(links@, monitor@);
    let mut i: usize = 0;
    while i < monitors.len()
        invariant
            i <= monitors@.len(),
            wanted == selects(links@, monitor@),
            forall|j: int| 0 <= j < i ==> !wanted(#[trigger] monitors@[j]),
        decreases monitors@.len() - i,
    {
        if is_same_display(links, &monitors[i].fingerprint, monitor) {
            proof {
                lemma_first_at_is(monitors@, wanted, i as int);
            }
            return Some(i);
        }
        i += 1;
    }
    proof {
        lemma_first_at_is(monitors@, wanted, i as int);
    }
    None
}

/// Whether `after` is `before` with a display shared that is present: unless one
/// of the shared displays is that display already, it is added. `at` is where it
/// stands.
pub open spec fn is_shared_at(
    before: AppSettings,
    monitor: MonitorDescriptor,
    after: AppSettings,
    at: usize,
) -> bool {
    let monitors = before.shared_monitors@;
    let i = first_at(monitors, selects(before.monitor_identity_links@, monitor.fingerprint@));
    &&& at == i
    &&& at < after.shared_monitors@.len()
    &&& after.shared_monitors@ == if i < monitors.len() {
        monitors
    } else {
        monitors.push(SelectedMonitor::selected_from(monitor))
    }
    &&& after == (AppSettings {
        shared_monitors: after.shared_monitors,
        shared_monitors_chosen: true,
        ..before
    })
}

/// Shares a display that is present: unless one of the shared displays is that
/// display already, it is added. Says where it stands.
pub fn share_monitor(settings: &mut AppSettings, monitor: &MonitorDescriptor) -> (at: usize)
    ensures
        is_shared_at(*old(settings), *monitor, *final(settings), at),
{
    settings.shared_monitors_chosen = true;
    match selection_index(
        &settings.shared_monitors,
        &settings.monitor_identity_links,
        &monitor.fingerprint,
    ) {
        Some(i) => i,
        None => {
            let at: usize = settings.shared_monitors.len();
            settings.shared_monitors.push(SelectedMonitor::from(monitor));
            at
        },
    }
}

/// The selections that are not the display of an identity.
pub open spec fn does_not_select(links: Seq<MonitorIdentityLink>, monitor: Identity) -> spec_fn(
    SelectedMonitor,
) -> bool {
    |selected: SelectedMonitor| !same_display(links, selected.fingerprint@, monitor)
}

/// Whether an assignment is for a display that is gone: `target` itself, or a
/// selection that is the same display.
pub open spec fn is_gone(
    links: Seq<MonitorIdentityLink>,
    selections: Seq<SelectedMonitor>,
    target: Identity,
    monitor: Identity,
) -> bool {
    monitor == target || exists|k: int|
        0 <= k < selections.len() && (#[trigger] selections[k]).fingerprint@ == monitor
            && same_display(links, selections[k].fingerprint@, target)
}

/// The assignments that stay when a display is no longer shared.
pub open spec fn stays(
    links: Seq<MonitorIdentityLink>,
    selections: Seq<SelectedMonitor>,
    target: Identity,
) -> spec_fn(MonitorInputAssignment) -> bool {
    |assignment: MonitorInputAssignment| !is_gone(links, selections, target, assignment.monitor@)
}

fn kept_assignments(
    inputs: &Vec<MonitorInputAssignment>,
    links: &Vec<MonitorIdentityLink>,
    selections: &Vec<SelectedMonitor>,
    target: &MonitorFingerprint,
) -> (kept: Vec<MonitorInputAssignment>)
    ensures
        kept@ == inputs@.filter(stays(links@, selections@, target@)),
{
    let ghost keep = stays(links@, selections@, target@);
    let mut kept: Vec<MonitorInputAssignment> = Vec::new();
    let mut i: usize = 0;
    while i < inputs.len()
        invariant
            i <= inputs@.len(),
            keep == stays(links@, selections@, target@),
            kept@ == inputs@.take(i as int).filter(keep),
        decreases inputs@.len() - i,
    {
        proof {
            assert(inputs@.take(i + 1).drop_last() =~= inputs@.take(i as int));
            reveal(Seq::filter);
        }
        let monitor = &inputs[i].monitor;
        let mut gone: bool = monitor.matches_exactly(target);
        let mut k: usize = 0;
        while k < selections.len() && !gone
            invariant
                k <= selections@.len(),
                gone ==> is_gone(links@, selections@, target@, monitor@),
                !gone ==> monitor@ != target@ && forall|j: int|
                    0 <= j < k ==> !((#[trigger] selections@[j]).fingerprint@ == monitor@
                        && same_display(links@, selections@[j].fingerprint@, target@)),
            decreases selections@.len() - k,
        {
            gone = selections[k].fingerprint.matches_exactly(monitor) && is_same_display(
                links,
                &selections[k].fingerprint,
                target,
            );
            k += 1;
        }
        if !gone {
            kept.push(inputs[i].clone());
        }
        i += 1;
    }
    assert(inputs@.take(inputs@.len() as int) =~= inputs@);
    kept
}

/// Whether `after` is `before` with the display of a key no longer shared: every
/// selection of that display goes, and with it what paired hosts use of it. Where
/// no shared display has the key, that is said and nothing changes.
pub open spec fn is_unshared(
    locale: UiLocale,
    before: AppSettings,
    key: Seq<char>,
    after: AppSettings,
    result: Result<(), String>,
) -> bool {
    let monitors = before.shared_monitors@;
    let i = first_at(monitors, has_key(key));
    match result {
        Err(message) => {
            &&& i == monitors.len()
            &&& message@ == shared_monitor_missing(locale)
            &&& after == before
        },
        Ok(_) => {
            let target = monitors[i].fingerprint@;
            let links = before.monitor_identity_links@;
            &&& i < monitors.len()
            &&& after.shared_monitors@ == monitors.filter(does_not_select(links, target))
            &&& after.peers@.len() == before.peers@.len()
            &&& forall|k: int|
                0 <= k < before.peers@.len() ==> {
                    &&& (#[trigger] after.peers@[k]).inputs@ == before.peers@[k].inputs@.filter(
                        stays(links, monitors, target),
                    )
                    &&& after.peers@[k] == (HostRoute {
                        inputs: after.peers@[k].inputs,
                        ..before.peers@[k]
                    })
                }
            &&& after == (AppSettings {
                shared_monitors: after.shared_monitors,
                shared_monitors_chosen: true,
                peers: after.peers,
                ..before
            })
        },
    }
}

/// Stops sharing a display, named by its key. Every selection of that display
/// goes, and with it what paired hosts use of it; a display is removed
/// precisely when this computer may not see it, so it need not be present.
pub fn remove_shared_monitor(locale: UiLocale, settings: &mut AppSettings, monitor_id: &str) -> (result:
    Result<(), String>)
    ensures
        is_unshared(locale, *old(settings), monitor_id@, *final(settings), result),
{
    let target = match find_shared_monitor(locale, settings, monitor_id) {
        Ok(selected) => selected.fingerprint.clone(),
        Err(message) => return Err(message),
    };
    settings.shared_monitors_chosen = true;
    let ghost monitors = settings.shared_monitors@;
    let ghost links = settings.monitor_identity_links@;
    let ghost peers = settings.peers@;
    let mut k: usize = 0;
    while k < settings.peers.len()
        invariant
            k <= settings.peers@.len() == peers.len(),
            monitors == settings.shared_monitors@,
            links == settings.monitor_identity_links@,
            peers == old(settings).peers@,
            *settings == (AppSettings {
                shared_monitors_chosen: true,
                peers: settings.peers,
                ..*old(settings)
            }),
            forall|j: int|
                0 <= j < k ==> {
                    &&& (#[trigger] settings.peers@[j]).inputs@ == peers[j].inputs@.filter(
                        stays(links, monitors, target@),
                    )
                    &&& settings.peers@[j] == (HostRoute {
                        inputs: settings.peers@[j].inputs,
                        ..peers[j]
                    })
                },
            forall|j: int| k <= j < peers.len() ==> settings.peers@[j] == peers[j],
        decreases peers.len() - k,
    {
        let kept = kept_assignments(
            &settings.peers[k].inputs,
            &settings.monitor_identity_links,
            &settings.shared_monitors,
            &target,
        );
        let peer = &mut settings.peers[k];
        peer.inputs = kept;
        k += 1;
    }
    let ghost keep = does_not_select(links, target@);
    let mut rest: Vec<SelectedMonitor> = Vec::new();
    rest.append(&mut settings.shared_monitors);
    assert(rest@ =~= monitors);
    let mut kept: Vec<SelectedMonitor> = Vec::new();
    let ghost mut done: int = 0;
    let ghost before_loop = *settings;
    while rest.len() > 0
        invariant
            keep == does_not_select(links, target@),
            links == settings.monitor_identity_links@,
            *settings == before_loop,
            0 <= done <= monitors.len(),
            rest@ == monitors.skip(done),
            kept@ == monitors.take(done).filter(keep),
        decreases rest@.len(),
    {
        let selected = rest.remove(0);
        proof {
            assert(selected == monitors[done]);
            assert(rest@ =~= monitors.skip(done + 1));
            assert(monitors.take(done + 1).drop_last() =~= monitors.take(done));
            reveal(Seq::filter);
            done = done + 1;
        }
        if !is_same_display(&settings.monitor_identity_links, &selected.fingerprint, &target) {
            kept.push(selected);
        }
    }
    assert(monitors.take(done) =~= monitors);
    settings.shared_monitors = kept;
    Ok(())
}

/// The inputs that displays commonly have.
pub open spec fn common_codes() -> Seq<u32> {
    seq![0x01u32, 0x03, 0x0f, 0x11, 0x12, 0x1b]
}

/// The inputs that displays commonly have.
pub open spec fn common_inputs() -> Seq<DisplayInput> {
    common_codes().map_values(|code: u32| DisplayInput { code })
}

pub fn common_input_sources() -> (inputs: Vec<DisplayInput>)
    ensures
        inputs@ == common_inputs(),
{
    let inputs = vec![
        DisplayInput { code: 0x01 },
        DisplayInput { code: 0x03 },
        DisplayInput { code: 0x0f },
        DisplayInput { code: 0x11 },
        DisplayInput { code: 0x12 },
        DisplayInput { code: 0x1b },
    ];
    assert(inputs@ =~= common_inputs());
    inputs
}

/// An input to choose from.
#[derive(Clone, Debug, PartialEq, Eq)]
pub struct InputOption {
    pub value: u32,
    /// The name to show, with the user's note when there is one.
    pub name: String,
    /// The name the display's input data gives, without the note.
    pub base_name: String,
    /// The user's note, or empty.
    pub label: String,
}

/// The inputs that a display offers: those it reported, else the common ones.
pub open spec fn offered_inputs(selected: SelectedMonitor) -> Seq<DisplayInput> {
    match selected.supported_inputs {
        Some(inputs) if inputs@.len() > 0 => inputs@,
        _ => common_inputs(),
    }
}

/// Whether an option shows an input of a display.
pub open spec fn shows_input(
    option: InputOption,
    locale: UiLocale,
    labels: Seq<InputLabel>,
    selected: SelectedMonitor,
    input: DisplayInput,
) -> bool {
    &&& option.value == input.code
    &&& option.name@ == noted_label_of(
        locale,
        labels,
        selected.fingerprint@,
        selected.vendor_indexed_inputs,
        input,
    )
    &&& option.base_name@ == input_label_of(locale, selected.vendor_indexed_inputs, input)
    &&& option.label@ == match label_of(labels, selected.fingerprint@, input) {
        Some(note) => note,
        None => ""@,
    }
}

/// Whether `result` is the inputs to choose from for the shared display of a key.
pub open spec fn are_input_options(
    locale: UiLocale,
    settings: AppSettings,
    key: Seq<char>,
    result: Result<Vec<InputOption>, String>,
) -> bool {
    let i = first_at(settings.shared_monitors@, has_key(key));
    match result {
        Err(message) => i == settings.shared_monitors@.len() && message@
            == shared_monitor_missing(locale),
        Ok(options) => {
            let selected = settings.shared_monitors@[i];
            &&& i < settings.shared_monitors@.len()
            &&& options@.len() == offered_inputs(selected).len()
            &&& forall|k: int|
                0 <= k < options@.len() ==> shows_input(
                    #[trigger] options@[k],
                    locale,
                    settings.input_labels@,
                    selected,
                    offered_inputs(selected)[k],
                )
        },
    }
}

/// The inputs to choose from for a shared display, in the order it offers them.
pub fn input_options(locale: UiLocale, settings: &AppSettings, monitor_id: &str) -> (result: Result<
    Vec<InputOption>,
    String,
>)
    ensures
        are_input_options(locale, *settings, monitor_id@, result),
{
    let selected = match find_shared_monitor(locale, settings, monitor_id) {
        Ok(selected) => selected,
        Err(message) => return Err(message),
    };
    let common = common_input_sources();
    let inputs = match &selected.supported_inputs {
        Some(inputs) => if inputs.len() > 0 {
            inputs
        } else {
            &common
        },
        None => &common,
    };
    assert(inputs@ == offered_inputs(*selected));
    let mut options: Vec<InputOption> = Vec::new();
    let mut k: usize = 0;
    while k < inputs.len()
        invariant
            k <= inputs@.len(),
            inputs@ == offered_inputs(*selected),
            options@.len() == k,
            forall|j: int|
                0 <= j < k ==> shows_input(
                    #[trigger] options@[j],
                    locale,
                    settings.input_labels@,
                    *selected,
                    inputs@[j],
                ),
        decreases inputs@.len() - k,
    {
        let input = inputs[k];
        let label = match label_for(&settings.input_labels, &selected.fingerprint, input) {
            Some(note) => note.to_owned(),
            None => "".to_owned(),
        };
        options.push(
            InputOption {
                value: input.value(),
                name: noted_input_label(locale, settings, selected, input),
                base_name: input_label(locale, selected.vendor_indexed_inputs, input),
                label,
            },
        );
        k += 1;
    }
    Ok(options)
}

/// `incoming` as a settings form sent it, with what the form may not decide put
/// back.
pub open spec fn form_applied(incoming: AppSettings, protected: AppSettings) -> AppSettings {
    AppSettings {
        peers: incoming.peers,
        broadcast_ip: incoming.broadcast_ip,
        wake_port: incoming.wake_port,
        shared_key: incoming.shared_key,
        wait_seconds: incoming.wait_seconds,
        autostart: incoming.autostart,
        check_updates: incoming.check_updates,
        host_switcher_enabled: incoming.host_switcher_enabled,
        host_switcher_shortcut: incoming.host_switcher_shortcut,
        ..protected
    }
}

/// `incoming` as a settings form sent it, with what the form may not decide put
/// back: monitor identity and discovered input data are owned here, and a form
/// opened before a paired host reordered must not revert that.
pub fn with_protected_fields(incoming: AppSettings, protected: AppSettings) -> (result: AppSettings)
    ensures
        result == form_applied(incoming, protected),
{
    let mut result = incoming;
    result.local_host = protected.local_host;
    result.shared_monitors = protected.shared_monitors;
    result.onboarding_completed = protected.onboarding_completed;
    result.host_order = protected.host_order;
    result.host_order_updated_at_ms = protected.host_order_updated_at_ms;
    result.host_aliases = protected.host_aliases;
    result.input_labels = protected.input_labels;
    result.monitor_identity_links = protected.monitor_identity_links;
    result.shared_monitors_chosen = protected.shared_monitors_chosen;
    result.local_host_id = protected.local_host_id;
    result
}

/// The identity that this computer goes by, given what it looks like right now:
/// the saved id stays, and only without one is the detected id taken.
pub open spec fn identity_kept(saved_id: String, detected: LocalHostIdentity) -> LocalHostIdentity {
    if saved_id@.len() == 0 {
        detected
    } else {
        LocalHostIdentity { id: saved_id, ..detected }
    }
}

/// Whether `after` is `before` with the id of this computer settled.
pub open spec fn is_settled(
    before: AppSettings,
    detected: LocalHostIdentity,
    after: AppSettings,
    settled: (LocalHostIdentity, bool),
) -> bool {
    &&& settled.0 == identity_kept(before.local_host_id, detected)
    &&& settled.1 == (before.local_host_id@.len() == 0)
    &&& after.local_host_id == settled.0.id
    &&& after == (AppSettings {
        local_host_id: after.local_host_id,
        ..before
    })
}

/// Settles the id of this computer, which is fixed once and then kept: every
/// paired host stores it, so re-deriving it would silently strand this
/// computer's pairings, its place in the shared host order and its custom name.
/// Returns whether the settings changed.
pub fn settle_local_host_id(settings: &mut AppSettings, detected: LocalHostIdentity) -> (settled: (
    LocalHostIdentity,
    bool,
))
    ensures
        is_settled(*old(settings), detected, *final(settings), settled),
{
    if settings.local_host_id.as_str().is_empty() {
        settings.local_host_id = detected.id.clone();
        (detected, true)
    } else {
        let identity = LocalHostIdentity::with_id(
            settings.local_host_id.clone(),
            detected.name,
            detected.platform,
            detected.mac_address,
        );
        (identity, false)
    }
}

/// Once there is an id, whatever the computer looks like later leaves it.
pub proof fn the_local_host_id_is_fixed_once(
    first: LocalHostIdentity,
    later: LocalHostIdentity,
    saved_id: String,
)
    requires
        first.id@.len() > 0,
    ensures
        identity_kept(identity_kept(saved_id, first).id, later).id == identity_kept(
            saved_id,
            first,
        ).id,
{
}

/// How much of the saved setup a reset clears.
#[derive(Clone, Copy, Debug, PartialEq, Eq, Structural)]
pub enum ResetScope {
    /// The shared displays and everything keyed to them. Pairing survives, so
    /// this undoes a display setup without costing the user a re-pair on both
    /// computers.
    Displays,
    /// Everything a fresh install would not have, except this computer's host
    /// id: peers name this computer by it, so changing it here would strand
    /// them on the *other* computer, which a local reset has no business doing.
    Everything,
}

/// Whether `after` is what a reset of the displays leaves of `before`.
pub open spec fn is_display_reset(before: AppSettings, after: AppSettings) -> bool {
    &&& after.shared_monitors@.len() == 0
    &&& after.monitor_identity_links@.len() == 0
    &&& after.input_labels@.len() == 0
    &&& after.peers@.len() == before.peers@.len()
    &&& forall|k: int|
        0 <= k < before.peers@.len() ==> {
            &&& (#[trigger] after.peers@[k]).inputs@.len() == 0
            &&& after.peers@[k] == (HostRoute { inputs: after.peers@[k].inputs, ..before.peers@[k] })
        }
    &&& after == (AppSettings {
        shared_monitors: after.shared_monitors,
        shared_monitors_chosen: true,
        monitor_identity_links: after.monitor_identity_links,
        input_labels: after.input_labels,
        peers: after.peers,
        ..before
    })
}

/// Whether `after` is what a full reset leaves of `before`: a fresh install of
/// the same host, which has chosen its displays.
pub open spec fn is_full_reset(before: AppSettings, after: AppSettings) -> bool {
    &&& after.local_host == before.local_host
    &&& after.local_host_id == before.local_host_id
    &&& after.shared_monitors_chosen
    &&& after.shared_monitors@.len() == 0
    &&& after.peers@.len() == 0
    &&& after.shared_key@.len() == 0
    &&& !after.onboarding_completed
    &&& has_factory_options(after)
    &&& nothing_shared(after)
}

/// `settings` with `scope` cleared. Emptied on purpose, by someone who is here:
/// treating a reset as "never chosen" would refill the list on the next refresh
/// and make the reset look like it did nothing.
pub fn settings_after_reset(settings: AppSettings, scope: ResetScope) -> (result: AppSettings)
    ensures
        match scope {
            ResetScope::Displays => is_display_reset(settings, result),
            ResetScope::Everything => is_full_reset(settings, result),
        },
{
    match scope {
        ResetScope::Displays => {
            let ghost before = settings;
            let mut result = settings;
            result.shared_monitors = Vec::new();
            result.shared_monitors_chosen = true;
            result.monitor_identity_links = Vec::new();
            result.input_labels = Vec::new();
            let mut k: usize = 0;
            while k < result.peers.len()
                invariant
                    k <= result.peers@.len() == before.peers@.len(),
                    result == (AppSettings {
                        shared_monitors: result.shared_monitors,
                        shared_monitors_chosen: true,
                        monitor_identity_links: result.monitor_identity_links,
                        input_labels: result.input_labels,
                        peers: result.peers,
                        ..before
                    }),
                    result.shared_monitors@.len() == 0,
                    result.monitor_identity_links@.len() == 0,
                    result.input_labels@.len() == 0,
                    forall|j: int|
                        0 <= j < k ==> {
                            &&& (#[trigger] result.peers@[j]).inputs@.len() == 0
                            &&& result.peers@[j] == (HostRoute {
                                inputs: result.peers@[j].inputs,
                                ..before.peers@[j]
                            })
                        },
                    forall|j: int|
                        k <= j < before.peers@.len() ==> result.peers@[j] == before.peers@[j],
                decreases before.peers@.len() - k,
            {
                let peer = &mut result.peers[k];
                peer.inputs = Vec::new();
                k += 1;
            }
            result
        },
        ResetScope::Everything => {
            let mut result = AppSettings::for_host(settings.local_host);
            result.local_host_id = settings.local_host_id;
            result.shared_monitors_chosen = true;
            result
        },
    }
}

} // verus!
