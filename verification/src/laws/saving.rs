//! Which settings may be saved, which shortcuts may be registered, and what
//! becomes of settings that were saved before.

use crate::domain::{DestinationHost, DisplayInput, Identity};
use crate::error::DisplayMuxError;
use crate::laws::{is_plugged_into, lemma_plugged};
use crate::locale::UiLocale;
use crate::migration::{
    are_settings_of, is_legacy_migration, is_single_monitor_migration, LegacySettings,
    SingleMonitorSettings, StoredSettings,
};
use crate::network::mac_of;
use crate::settings::{AppSettings, HostRoute, SelectedMonitor};
use crate::text::{trimmed, trimming_takes_off_just_the_white_space, white_space};
use crate::validation::{
    display_fault, displays_fault, has_invalid_input, has_unknown_monitor, is_shared,
    is_shortcut_plan, is_shortcut_verdict, is_validated, peers_fault, uses_unlisted, SettingsChecks,
    Shortcut, ShortcutChange, ShortcutKey,
};
use vstd::prelude::*;

verus! {

/// Whether at most one of three holds.
pub open spec fn at_most_one(a: bool, b: bool, c: bool) -> bool {
    !(a && b) && !(a && c) && !(b && c)
}

/// Whether a key belongs to applications when the main modifier alone is held.
pub open spec fn is_taken_key(key: ShortcutKey) -> bool {
    ||| key == ShortcutKey::Tab
    ||| key == ShortcutKey::F4
    ||| key matches ShortcutKey::Letter(c) && seq![
        'A', 'C', 'F', 'H', 'L', 'M', 'N', 'O', 'P', 'Q', 'R', 'S', 'T', 'V', 'W', 'X', 'Y', 'Z',
    ].contains(c)
}

/// Whether a key belongs to applications when Shift is held besides.
pub open spec fn is_taken_shift_key(key: ShortcutKey) -> bool {
    key matches ShortcutKey::Letter(c) && seq!['N', 'P', 'R', 'S', 'T', 'W'].contains(c)
}

/// Whether a shortcut can be had on a platform: it holds the main modifier and at
/// most one more, and no application has it.
pub open spec fn is_free_shortcut(shortcut: Shortcut, platform: DestinationHost) -> bool {
    let (main, other) = match platform {
        DestinationHost::Mac => (shortcut.command, shortcut.control),
        DestinationHost::Windows => (shortcut.control, shortcut.command),
    };
    &&& main
    &&& at_most_one(other, shortcut.alt, shortcut.shift)
    &&& !other && !shortcut.alt && !shortcut.shift ==> !is_taken_key(shortcut.key)
    &&& !other && !shortcut.alt && shortcut.shift ==> !is_taken_shift_key(shortcut.key)
}

proof fn lemma_letters(key: ShortcutKey)
    ensures
        key matches ShortcutKey::Letter(c) ==> 'A' <= c <= 'Z' ==> {
            &&& crate::validation::is_common_key(key) == is_taken_key(key)
            &&& crate::validation::is_common_shift_key(key) == is_taken_shift_key(key)
        },
        !(key is Letter) ==> {
            &&& crate::validation::is_common_key(key) == is_taken_key(key)
            &&& crate::validation::is_common_shift_key(key) == is_taken_shift_key(key)
        },
{
    if let ShortcutKey::Letter(c) = key {
        if 'A' <= c <= 'Z' {
            let many = seq![
                'A', 'C', 'F', 'H', 'L', 'M', 'N', 'O', 'P', 'Q', 'R', 'S', 'T', 'V', 'W', 'X', 'Y',
                'Z',
            ];
            let few = seq!['N', 'P', 'R', 'S', 'T', 'W'];
            assert(many[0] == 'A' && many[1] == 'C' && many[2] == 'F' && many[3] == 'H' && many[4]
                == 'L' && many[5] == 'M' && many[6] == 'N' && many[7] == 'O' && many[8] == 'P'
                && many[9] == 'Q' && many[10] == 'R' && many[11] == 'S' && many[12] == 'T'
                && many[13] == 'V' && many[14] == 'W' && many[15] == 'X' && many[16] == 'Y'
                && many[17] == 'Z');
            assert(few[0] == 'N' && few[1] == 'P' && few[2] == 'R' && few[3] == 'S' && few[4] == 'T'
                && few[5] == 'W');
        }
    }
}

/// A shortcut of a letter or another key is accepted exactly where it can be had,
/// and as it is.
pub proof fn a_shortcut_is_accepted_where_it_is_free(
    locale: UiLocale,
    shortcut: Option<Shortcut>,
    platform: DestinationHost,
    result: Result<Shortcut, DisplayMuxError>,
)
    requires
        is_shortcut_verdict(locale, shortcut, platform, result),
        shortcut is Some && shortcut->0.key is Letter ==> 'A' <= shortcut->0.key->Letter_0 <= 'Z',
    ensures
        result is Ok <==> shortcut is Some && is_free_shortcut(shortcut->0, platform),
        result matches Ok(accepted) ==> shortcut == Some(accepted),
{
    if shortcut is Some {
        lemma_letters(shortcut->0.key);
    }
}

/// The registered shortcut follows the settings: nothing is done where neither the
/// switch nor the shortcut changed; else the old one is given up where it was
/// registered, and the new one is registered where the switcher is on, which it
/// can only be with one that is accepted.
pub proof fn the_registered_shortcut_follows_the_settings(
    locale: UiLocale,
    previous: AppSettings,
    next: AppSettings,
    previous_shortcut: Option<Shortcut>,
    previous_registered: bool,
    next_shortcut: Option<Shortcut>,
    platform: DestinationHost,
    result: Result<ShortcutChange, DisplayMuxError>,
)
    requires
        is_shortcut_plan(
            locale,
            previous,
            next,
            previous_shortcut,
            previous_registered,
            next_shortcut,
            platform,
            result,
        ),
        next_shortcut is Some && next_shortcut->0.key is Letter ==> 'A'
            <= next_shortcut->0.key->Letter_0 <= 'Z',
    ensures
        ({
            let same = previous.host_switcher_enabled == next.host_switcher_enabled
                && previous.host_switcher_shortcut@ == next.host_switcher_shortcut@;
            let accepted = next_shortcut is Some && is_free_shortcut(next_shortcut->0, platform);
            &&& result is Ok <==> same || !next.host_switcher_enabled || accepted
            &&& same ==> !result->Ok_0.needed && result->Ok_0.register is None
                && result->Ok_0.unregister is None
            &&& result is Ok && !same ==> {
                &&& result->Ok_0.needed
                &&& next.host_switcher_enabled ==> result->Ok_0.register == next_shortcut
                &&& !next.host_switcher_enabled ==> result->Ok_0.register is None
                &&& previous.host_switcher_enabled && previous_registered
                    ==> result->Ok_0.unregister == previous_shortcut
                &&& !(previous.host_switcher_enabled && previous_registered)
                    ==> result->Ok_0.unregister is None
            }
        }),
{
    if next_shortcut is Some {
        lemma_letters(next_shortcut->0.key);
    }
}

/// Whether every input that settings hold is one that a display can have.
pub open spec fn has_possible_inputs(settings: AppSettings) -> bool {
    &&& forall|m: int|
        0 <= m < settings.shared_monitors@.len() && (
        #[trigger] settings.shared_monitors@[m]).local_input is Some ==> 1
            <= settings.shared_monitors@[m].local_input->0.code <= 255
    &&& forall|p: int, a: int|
        0 <= p < settings.peers@.len() && 0 <= a < settings.peers@[p].inputs@.len() ==> 1 <= (
        #[trigger] settings.peers@[p].inputs@[a]).input.code <= 255
}

/// Whether a display of exactly this identity is shared.
pub open spec fn is_among(monitors: Seq<SelectedMonitor>, monitor: Identity) -> bool {
    exists|m: int| 0 <= m < monitors.len() && (#[trigger] monitors[m]).fingerprint@ == monitor
}

/// Whether every input that a host has is on a shared display.
pub open spec fn has_shared_displays_only(settings: AppSettings) -> bool {
    forall|p: int, a: int|
        0 <= p < settings.peers@.len() && 0 <= a < settings.peers@[p].inputs@.len() ==> is_among(
            settings.shared_monitors@,
            (#[trigger] settings.peers@[p].inputs@[a]).monitor@,
        )
}

/// Whether no two hosts are plugged into one input of a display, this computer
/// among them, and each into one that the display lists.
pub open spec fn has_own_inputs(selected: SelectedMonitor, peers: Seq<HostRoute>) -> bool {
    let monitor = selected.fingerprint@;
    &&& forall|p: int, input: DisplayInput|
        0 <= p < peers.len() && #[trigger] is_plugged_into(peers[p], monitor, input) ==> {
            &&& selected.local_input != Some(input)
            &&& selected.supported_inputs is Some ==> selected.supported_inputs->0@.contains(input)
        }
    &&& forall|p: int, q: int, input: DisplayInput|
        0 <= p < q < peers.len() ==> !(#[trigger] is_plugged_into(peers[p], monitor, input)
            && #[trigger] is_plugged_into(peers[q], monitor, input))
}

/// Whether a hardware address is left blank, or one.
pub open spec fn is_blank_or_mac(text: Seq<char>) -> bool {
    (forall|i: int| 0 <= i < text.len() ==> white_space(#[trigger] text[i])) || mac_of(text) is Some
}

/// Whether nothing is wrong with settings.
pub open spec fn is_sound(settings: AppSettings, checks: SettingsChecks) -> bool {
    &&& settings.local_host == checks.local_host
    &&& settings.host_switcher_enabled ==> checks.shortcut is Some && is_free_shortcut(
        checks.shortcut->0,
        checks.local_host,
    )
    &&& has_possible_inputs(settings)
    &&& has_shared_displays_only(settings)
    &&& forall|m: int|
        0 <= m < settings.shared_monitors@.len() ==> has_own_inputs(
            #[trigger] settings.shared_monitors@[m],
            settings.peers@,
        )
    &&& forall|p: int|
        0 <= p < settings.peers@.len() ==> checks.peer_addresses@[p] && is_blank_or_mac(
            (#[trigger] settings.peers@[p]).mac_address@,
        )
    &&& checks.broadcast_address
    &&& settings.shared_key@.len() == 0 || settings.shared_key@.len() >= 8
}

proof fn lemma_possible_inputs(settings: AppSettings)
    ensures
        has_possible_inputs(settings) <==> !has_invalid_input(settings),
        has_shared_displays_only(settings) <==> !has_unknown_monitor(settings),
{
    assert forall|monitor: Identity| #[trigger]
        is_among(settings.shared_monitors@, monitor) == is_shared(
            settings.shared_monitors@,
            monitor,
        ) by {}
    if !has_invalid_input(settings) {
        assert forall|m: int|
            0 <= m < settings.shared_monitors@.len() && (
            #[trigger] settings.shared_monitors@[m]).local_input is Some implies 1
            <= settings.shared_monitors@[m].local_input->0.code <= 255 by {}
    }
    if !has_unknown_monitor(settings) {
        assert forall|p: int, a: int|
            0 <= p < settings.peers@.len() && 0 <= a < settings.peers@[p].inputs@.len() implies
            is_among(
            settings.shared_monitors@,
            (#[trigger] settings.peers@[p].inputs@[a]).monitor@,
        ) by {
            assert(is_shared(
                settings.shared_monitors@,
                settings.peers@[p].inputs@[a].monitor@,
            ));
        }
    }
    if has_shared_displays_only(settings) && has_unknown_monitor(settings) {
        let (p, a) = choose|p: int, a: int|
            0 <= p < settings.peers@.len() && 0 <= a < settings.peers@[p].inputs@.len()
                && !is_shared(
                settings.shared_monitors@,
                (#[trigger] settings.peers@[p].inputs@[a]).monitor@,
            );
        assert(is_among(settings.shared_monitors@, settings.peers@[p].inputs@[a].monitor@));
    }
}

proof fn lemma_own_inputs(selected: SelectedMonitor, peers: Seq<HostRoute>)
    ensures
        has_own_inputs(selected, peers) <==> display_fault(selected, peers) is None,
{
    let monitor = selected.fingerprint@;
    assert forall|p: int, input: DisplayInput|
        0 <= p < peers.len() implies (#[trigger] is_plugged_into(peers[p], monitor, input)
        <==> peers[p].input_on(monitor) == Some(input)) by {
        lemma_plugged(peers[p], monitor);
    }
    if display_fault(selected, peers) is None {
        assert forall|p: int, q: int, input: DisplayInput| 0 <= p < q < peers.len() implies !(
        #[trigger] is_plugged_into(peers[p], monitor, input) && #[trigger] is_plugged_into(
            peers[q],
            monitor,
            input,
        )) by {
            assert(peers[p].input_on(monitor) is Some ==> peers[p].input_on(monitor)
                != peers[q].input_on(monitor));
        }
    }
    if has_own_inputs(selected, peers) {
        assert forall|k: int|
            0 <= k < peers.len() && (#[trigger] peers[k]).input_on(monitor) is Some implies
            peers[k].input_on(monitor) != selected.local_input by {
            assert(is_plugged_into(peers[k], monitor, peers[k].input_on(monitor)->0));
        }
        assert forall|k: int, l: int|
            #![trigger peers[k], peers[l]]
            0 <= k < l < peers.len() && peers[k].input_on(monitor) is Some implies
            peers[k].input_on(monitor) != peers[l].input_on(monitor) by {
            let input = peers[k].input_on(monitor)->0;
            assert(is_plugged_into(peers[k], monitor, input));
            if peers[l].input_on(monitor) == Some(input) {
                assert(is_plugged_into(peers[l], monitor, input));
            }
        }
        if uses_unlisted(selected, peers) {
            let k = choose|k: int|
                0 <= k < peers.len() && ((#[trigger] peers[k]).input_on(monitor) is Some
                    && !selected.supported_inputs->0@.contains(peers[k].input_on(monitor)->0));
            assert(is_plugged_into(peers[k], monitor, peers[k].input_on(monitor)->0));
        }
    }
}

proof fn lemma_displays(settings: AppSettings, n: int)
    requires
        0 <= n <= settings.shared_monitors@.len(),
    ensures
        displays_fault(settings, n) is None <==> forall|m: int|
            n <= m < settings.shared_monitors@.len() ==> has_own_inputs(
                #[trigger] settings.shared_monitors@[m],
                settings.peers@,
            ),
        displays_fault(settings, n) matches Some(fault) ==> fault
            == crate::validation::SettingsFault::SharedPort || fault
            == crate::validation::SettingsFault::UnlistedInput,
    decreases settings.shared_monitors@.len() - n,
{
    if n < settings.shared_monitors@.len() {
        lemma_displays(settings, n + 1);
        lemma_own_inputs(settings.shared_monitors@[n], settings.peers@);
    }
}

proof fn lemma_blank_or_mac(text: Seq<char>)
    ensures
        is_blank_or_mac(text) <==> !(trimmed(text).len() > 0 && mac_of(text) is None),
{
    let ends = trimming_takes_off_just_the_white_space(text);
    if trimmed(text).len() == 0 {
        assert forall|i: int| 0 <= i < text.len() implies white_space(#[trigger] text[i]) by {
            if i >= ends.0 {
                assert(ends.1 <= i);
            }
        }
    }
}

proof fn lemma_peers(settings: AppSettings, addresses: Seq<bool>, n: int)
    requires
        0 <= n <= settings.peers@.len(),
        addresses.len() == settings.peers@.len(),
    ensures
        peers_fault(settings, addresses, n) is None <==> forall|p: int|
            n <= p < settings.peers@.len() ==> addresses[p] && is_blank_or_mac(
                (#[trigger] settings.peers@[p]).mac_address@,
            ),
        match peers_fault(settings, addresses, n) {
            None => true,
            Some(crate::validation::SettingsFault::PeerAddress(p)) => n <= p
                < settings.peers@.len() && !addresses[p],
            Some(crate::validation::SettingsFault::PeerMac(p)) => n <= p < settings.peers@.len()
                && !is_blank_or_mac(settings.peers@[p].mac_address@),
            Some(_) => false,
        },
    decreases settings.peers@.len() - n,
{
    if n < settings.peers@.len() {
        lemma_peers(settings, addresses, n + 1);
        lemma_blank_or_mac(settings.peers@[n].mac_address@);
    }
}

/// Settings may be saved exactly where nothing is wrong with them. Where a hardware
/// address, a network address or the broadcast address is complained of, that is
/// what is wrong.
pub proof fn settings_are_saved_exactly_where_nothing_is_wrong(
    locale: UiLocale,
    settings: AppSettings,
    checks: SettingsChecks,
    result: Result<(), DisplayMuxError>,
)
    requires
        is_validated(locale, settings, checks, result),
        checks.peer_addresses@.len() == settings.peers@.len(),
        checks.shortcut is Some && checks.shortcut->0.key is Letter ==> 'A'
            <= checks.shortcut->0.key->Letter_0 <= 'Z',
    ensures
        result is Ok <==> is_sound(settings, checks),
        result is Err && result->Err_0 is InvalidMacAddress ==> exists|p: int|
            {
                &&& 0 <= p < settings.peers@.len()
                &&& (#[trigger] settings.peers@[p]).mac_address@
                    == result->Err_0->InvalidMacAddress_0@
                &&& !is_blank_or_mac(settings.peers@[p].mac_address@)
            },
        result is Err && result->Err_0 is PeerUnavailable ==> exists|p: int|
            {
                &&& 0 <= p < settings.peers@.len()
                &&& !checks.peer_addresses@[p]
                &&& (#[trigger] settings.peers@[p]).name@.is_prefix_of(
                    result->Err_0->PeerUnavailable_0@,
                )
            },
        result is Err && result->Err_0 is WakeFailed ==> !checks.broadcast_address,
{
    lemma_possible_inputs(settings);
    lemma_displays(settings, 0);
    lemma_peers(settings, checks.peer_addresses@, 0);
    if checks.shortcut is Some {
        lemma_letters(checks.shortcut->0.key);
    }
}

/// Settings for a single display keep it, with its inputs, and every host keeps the
/// input that it was plugged into, now on that display.
pub proof fn settings_for_one_display_are_kept(
    before: SingleMonitorSettings,
    existing_install: bool,
    after: AppSettings,
    k: int,
)
    requires
        is_single_monitor_migration(before, existing_install, after),
        0 <= k < before.peers@.len(),
    ensures
        before.shared_monitor matches Some(selected) ==> {
            &&& after.shared_monitors@.len() == 1
            &&& after.shared_monitors@[0].fingerprint@ == selected.fingerprint@
            &&& after.shared_monitors@[0].name == selected.name
            &&& after.shared_monitors@[0].local_input == before.local_input
            &&& after.shared_monitors@[0].supported_inputs == before.supported_inputs
            &&& before.peers@[k].input matches Some(input) ==> is_plugged_into(
                after.peers@[k],
                selected.fingerprint@,
                input,
            )
            &&& before.peers@[k].input is None ==> after.peers@[k].inputs@.len() == 0
        },
        before.shared_monitor is None ==> after.shared_monitors@.len() == 0
            && after.peers@[k].inputs@.len() == 0,
        after.peers@.len() == before.peers@.len(),
        after.peers@[k].id == before.peers@[k].id,
        after.peers@[k].name == before.peers@[k].name,
        after.peers@[k].platform == before.peers@[k].platform,
        after.peers@[k].address == before.peers@[k].address,
        after.peers@[k].port == before.peers@[k].port,
        after.peers@[k].mac_address == before.peers@[k].mac_address,
        after.shared_key == before.shared_key,
        after.local_host == before.local_host,
        existing_install || before.onboarding_completed <==> after.onboarding_completed,
{
    let route = after.peers@[k];
    if let (Some(selected), Some(input)) = (before.shared_monitor, before.peers@[k].input) {
        assert(route.inputs@[0].monitor == selected.fingerprint);
        assert(is_plugged_into(route, selected.fingerprint@, input));
    }
}

/// Settings of the first shape keep their peer, on the other platform, where its id
/// and address were known; the user is never sent through the first run again.
pub proof fn settings_for_one_peer_are_kept(before: LegacySettings, after: AppSettings)
    requires
        is_legacy_migration(before, after),
    ensures
        after.peers@.len() == 1 <==> before.peer_id@.len() > 0 && before.peer_ip@.len() > 0,
        after.peers@.len() <= 1,
        after.peers@.len() == 1 ==> {
            let peer = after.peers@[0];
            &&& peer.id == before.peer_id
            &&& peer.name == before.peer_name
            &&& peer.address == before.peer_ip
            &&& peer.port == before.peer_port
            &&& peer.mac_address == before.peer_mac
            &&& peer.platform != before.local_host
            &&& peer.inputs@.len() == 0
        },
        after.shared_key == before.shared_key,
        after.local_host == before.local_host,
        after.wait_seconds == before.wait_seconds,
        after.shared_monitors@.len() == 0 && !after.shared_monitors_chosen,
        after.onboarding_completed,
{
}

/// Settings that could be read are run with as they are; only an install from
/// before the first run counts as having seen it. Of what could not be read
/// nothing is left.
pub proof fn readable_settings_are_run_with(
    stored: StoredSettings,
    has_onboarding_marker: bool,
    host: DestinationHost,
    result: AppSettings,
)
    requires
        are_settings_of(stored, has_onboarding_marker, host, result),
    ensures
        stored matches StoredSettings::Current(Some(settings)) ==> {
            &&& result.shared_monitors == settings.shared_monitors
            &&& result.peers == settings.peers
            &&& result.shared_key == settings.shared_key
            &&& result.local_host == settings.local_host
            &&& result.local_host_id == settings.local_host_id
            &&& result.host_order == settings.host_order
            &&& result.host_aliases == settings.host_aliases
            &&& result.input_labels == settings.input_labels
            &&& result.monitor_identity_links == settings.monitor_identity_links
            &&& result.shared_monitors_chosen == settings.shared_monitors_chosen
            &&& has_onboarding_marker ==> result == settings
            &&& !has_onboarding_marker ==> result.onboarding_completed
        },
        (stored matches StoredSettings::Current(None)) || (
        stored matches StoredSettings::SingleMonitor(None)) || (
        stored matches StoredSettings::Legacy(None)) ==> {
            &&& result.local_host == host
            &&& result.shared_monitors@.len() == 0
            &&& result.peers@.len() == 0
            &&& result.shared_key@.len() == 0
        },
        stored matches StoredSettings::SingleMonitor(Some(settings)) ==> {
            &&& result.peers@.len() == settings.peers@.len()
            &&& result.shared_key == settings.shared_key
            &&& result.onboarding_completed == (settings.onboarding_completed
                || !has_onboarding_marker)
        },
        stored matches StoredSettings::Legacy(Some(settings)) ==> result.shared_key
            == settings.shared_key && result.onboarding_completed,
{
}

} // verus!
