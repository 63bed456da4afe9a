//! What a switch does: the named display, the host's own input, and nobody else.

use crate::agent::AgentResponse;
use crate::domain::{DisplayInput, MonitorDescriptor, MonitorFingerprint, SwitchOutcome};
use crate::error::DisplayMuxError;
use crate::laws::{
    is_display_under, is_host_of, is_plugged_into, is_unplugged, lemma_display_under, lemma_host,
    lemma_plugged,
};
use crate::lists::{first_at, lemma_first_at, lemma_first_at_is};
use crate::locale::UiLocale;
use crate::network::{mac_of, HostAddress, PeerEndpoint, WakeTarget};
use crate::port::MonitorControl;
use crate::service::a_target_is_never_guessed;
use crate::settings::{has_id, has_key, AppSettings, HostRoute};
use crate::switching::{
    identity_to_switch, is_display_told, is_executor, is_peer_answer, is_plan, is_preparation_step,
    is_present, is_request_target, is_switch_run, is_switch_step, is_wake_target,
    NetworkPreparation, PreparationEvent, PreparationState, SwitchEvent, SwitchPlan, SwitchState,
};
use crate::text::{trimming_takes_off_just_the_white_space, white_space};
use vstd::prelude::*;

verus! {

/// A plan is for the display under the key and the host of the id, and switches
/// to the input that the host's own list holds for that very display; for this
/// computer, to the input that the display has for it.
pub proof fn a_plan_is_for_the_named_display_and_host(
    locale: UiLocale,
    settings: AppSettings,
    monitor_id: Seq<char>,
    target_id: Seq<char>,
    plan: SwitchPlan,
)
    requires
        is_plan(locale, settings, monitor_id, target_id, Ok(plan)),
    ensures
        is_display_under(settings.shared_monitors@, monitor_id, plan.monitor as int),
        target_id == "local"@ ==> plan.peer is None
            && settings.shared_monitors@[plan.monitor as int].local_input == Some(plan.input),
        target_id != "local"@ ==> {
            &&& plan.peer is Some
            &&& is_host_of(settings.peers@, target_id, plan.peer->0 as int)
            &&& is_plugged_into(
                settings.peers@[plan.peer->0 as int],
                settings.shared_monitors@[plan.monitor as int].fingerprint@,
                plan.input,
            )
        },
{
    lemma_display_under(settings.shared_monitors@, monitor_id);
    lemma_host(settings.peers@, target_id);
    let m = first_at(settings.shared_monitors@, has_key(monitor_id));
    let p = first_at(settings.peers@, has_id(target_id));
    lemma_plugged(settings.peers@[p], settings.shared_monitors@[m].fingerprint@);
}

/// A switch is refused only where the display, the host or its input is unknown.
pub proof fn a_plan_is_owed_where_all_is_known(
    locale: UiLocale,
    settings: AppSettings,
    monitor_id: Seq<char>,
    target_id: Seq<char>,
    message: String,
    m: int,
    p: int,
)
    requires
        is_plan(locale, settings, monitor_id, target_id, Err(message)),
        is_display_under(settings.shared_monitors@, monitor_id, m),
    ensures
        target_id == "local"@ ==> settings.shared_monitors@[m].local_input is None,
        target_id != "local"@ && is_host_of(settings.peers@, target_id, p) ==> is_unplugged(
            settings.peers@[p],
            settings.shared_monitors@[m].fingerprint@,
        ),
{
    lemma_display_under(settings.shared_monitors@, monitor_id);
    lemma_host(settings.peers@, target_id);
    lemma_plugged(settings.peers@[p], settings.shared_monitors@[m].fingerprint@);
}

/// Two plans for one display and one host agree on the input where the host is
/// plugged into the same input of that display, whatever else is set up: other
/// displays, and what the host uses of them.
pub proof fn other_displays_do_not_change_a_plan(
    locale: UiLocale,
    settings: AppSettings,
    others: AppSettings,
    monitor_id: Seq<char>,
    other_id: Seq<char>,
    target_id: Seq<char>,
    plan: SwitchPlan,
    other: SwitchPlan,
)
    requires
        is_plan(locale, settings, monitor_id, target_id, Ok(plan)),
        is_plan(locale, others, other_id, target_id, Ok(other)),
        target_id != "local"@,
        settings.shared_monitors@[plan.monitor as int].fingerprint@
            == others.shared_monitors@[other.monitor as int].fingerprint@,
        forall|input: DisplayInput| #[trigger]
            is_plugged_into(
                settings.peers@[plan.peer->0 as int],
                settings.shared_monitors@[plan.monitor as int].fingerprint@,
                input,
            ) ==> is_plugged_into(
                others.peers@[other.peer->0 as int],
                settings.shared_monitors@[plan.monitor as int].fingerprint@,
                input,
            ),
    ensures
        other.input == plan.input,
{
    a_plan_is_for_the_named_display_and_host(locale, settings, monitor_id, target_id, plan);
    a_plan_is_for_the_named_display_and_host(locale, others, other_id, target_id, other);
    lemma_plugged(
        others.peers@[other.peer->0 as int],
        others.shared_monitors@[other.monitor as int].fingerprint@,
    );
}

/// What this computer could not switch, the target itself is asked to switch; to
/// come back here, the only paired host. The host that is asked stays the same,
/// and is told the identity of the planned display, unless it cannot understand
/// that: then it is told none, and only where one display is shared.
pub proof fn help_is_asked_of_the_right_host_for_the_right_display(
    locale: UiLocale,
    settings: AppSettings,
    plan: SwitchPlan,
    target_id: Seq<char>,
    preparation: NetworkPreparation,
    before: SwitchState,
    event: SwitchEvent,
    after: SwitchState,
)
    requires
        is_switch_step(locale, settings, plan, target_id, preparation, before, event, after),
        plan.monitor < settings.shared_monitors@.len(),
    ensures
        before is SwitchingHere && after is AskingVersion ==> {
            let executor = after->AskingVersion_executor as int;
            &&& event is TriedHere && event->TriedHere_0 is Err
            &&& target_id == "local"@ ==> settings.peers@.len() == 1 && executor == 0
            &&& target_id != "local"@ ==> is_host_of(settings.peers@, target_id, executor)
        },
        before is SwitchingHere && event is TriedHere && event->TriedHere_0 is Err ==> {
            ||| after is AskingVersion
            ||| after is Failed && target_id == "local"@ && settings.peers@.len() != 1
            ||| after is Failed && target_id != "local"@ && forall|j: int|
                0 <= j < settings.peers@.len() ==> (#[trigger] settings.peers@[j]).id@ != target_id
        },
        before is SwitchingHere && event is TriedHere && event->TriedHere_0 is Ok ==> after
            is Switched,
        before is AskingVersion && after is AskingPeer ==> {
            &&& event is VersionKnown && event->VersionKnown_0 is Ok
            &&& after->AskingPeer_executor == before->AskingVersion_executor
            &&& match after->AskingPeer_monitor {
                Some(named) => named@ == settings.shared_monitors@[plan.monitor as int].fingerprint@
                    && event->VersionKnown_0->Ok_0 >= 2,
                None => settings.shared_monitors@.len() == 1 && event->VersionKnown_0->Ok_0 < 2,
            }
        },
        before is AskingVersion && event is VersionKnown && event->VersionKnown_0 is Ok ==> {
            ||| after is AskingPeer
            ||| after is Failed && event->VersionKnown_0->Ok_0 < 2
                && settings.shared_monitors@.len() > 1
        },
        before is AskingVersion && event is VersionKnown && event->VersionKnown_0 is Err ==> after
            is Failed,
        before is AskingPeer && event is PeerTried && event->PeerTried_0 is Err ==> after is Failed,
        before is AskingPeer && event is PeerTried && event->PeerTried_0 is Ok ==> after is Switched,
        after is Switched && !(before is Switched) ==> {
            &&& after->Switched_0.peer_woken == match preparation {
                NetworkPreparation::NotRequired => false,
                NetworkPreparation::Ready { wake_sent } => wake_sent,
                NetworkPreparation::Unavailable { wake_sent, .. } => wake_sent,
            }
            &&& after->Switched_0.warning == (before is SwitchingHere && preparation is Unavailable)
        },
{
    lemma_host(settings.peers@, target_id);
}

/// A preparation sends one wake signal, asks the host once, and asks a woken one
/// again for as many seconds as the user set, within 5 and 120. Whether the wake
/// signal was sent is told as it was.
pub proof fn a_host_is_woken_asked_and_waited_for(
    locale: UiLocale,
    settings: AppSettings,
    peer_name: Seq<char>,
    before: PreparationState,
    event: PreparationEvent,
    after: PreparationState,
)
    requires
        is_preparation_step(locale, settings, peer_name, before, event, after),
    ensures
        before is Waking && event is WakeTried ==> {
            let wake = event->WakeTried_0;
            if settings.shared_key@.len() >= 8 {
                after == (PreparationState::Checking { wake })
            } else {
                after matches PreparationState::Finished(
                    NetworkPreparation::Unavailable { wake_sent, .. },
                ) && wake_sent == (wake is Ok)
            }
        },
        before is Checking && event == (PreparationEvent::PeerAsked { answered: true }) ==> after
            == PreparationState::Finished(
            NetworkPreparation::Ready { wake_sent: before->Checking_wake is Ok },
        ),
        before is Checking && event == (PreparationEvent::PeerAsked { answered: false }) ==> {
            if before->Checking_wake is Ok {
                &&& after is Waiting
                &&& 5 <= after->Waiting_attempts_left <= 120
                &&& 5 <= settings.wait_seconds <= 120 ==> after->Waiting_attempts_left
                    == settings.wait_seconds
                &&& settings.wait_seconds < 5 ==> after->Waiting_attempts_left == 5
                &&& settings.wait_seconds > 120 ==> after->Waiting_attempts_left == 120
            } else {
                after matches PreparationState::Finished(
                    NetworkPreparation::Unavailable { wake_sent, .. },
                ) && !wake_sent
            }
        },
        before is Waiting && event == (PreparationEvent::PeerAsked { answered: true }) ==> after
            == PreparationState::Finished(NetworkPreparation::Ready { wake_sent: true }),
        before is Waiting && event == (PreparationEvent::PeerAsked { answered: false }) ==> {
            if before->Waiting_attempts_left > 1 {
                after == (PreparationState::Waiting {
                    attempts_left: (before->Waiting_attempts_left - 1) as u64,
                })
            } else {
                after matches PreparationState::Finished(
                    NetworkPreparation::Unavailable { wake_sent, .. },
                ) && wake_sent
            }
        },
        before is Finished ==> after == before,
{
}

/// The identity that is switched is one of those given: one that a display
/// present right now has, where there is such a display.
pub proof fn a_present_identity_is_switched(
    identities: Seq<MonitorFingerprint>,
    present: Seq<MonitorDescriptor>,
)
    ensures
        identities.len() == 0 <==> identity_to_switch(identities, present) is None,
        identity_to_switch(identities, present) matches Some(chosen) ==> {
            &&& identities.contains(chosen)
            &&& (exists|i: int, k: int|
                0 <= i < identities.len() && 0 <= k < present.len() && (
                #[trigger] identities[i])@ == (#[trigger] present[k]).fingerprint@) ==> exists|
                k: int,
            |
                0 <= k < present.len() && (#[trigger] present[k]).fingerprint@ == chosen@
        },
{
    let wanted = is_present(present);
    lemma_first_at(identities, wanted);
    let n = first_at(identities, wanted);
    if exists|i: int, k: int|
        0 <= i < identities.len() && 0 <= k < present.len() && (#[trigger] identities[i])@ == (
        #[trigger] present[k]).fingerprint@ {
        let (i, k) = choose|i: int, k: int|
            0 <= i < identities.len() && 0 <= k < present.len() && (#[trigger] identities[i])@ == (
            #[trigger] present[k]).fingerprint@;
        assert(wanted(identities[i]));
        assert(n < identities.len());
        assert(wanted(identities[n]));
    }
    if n < identities.len() {
        assert(identities.contains(identities[n]));
    } else if identities.len() > 0 {
        assert(identities.contains(identities[0]));
    }
}

/// A display that was switched has one of the identities given, was the only
/// connected one with it, and shows the input that was asked for; what it showed
/// before is what was read of it.
pub proof fn only_a_display_with_a_given_identity_is_switched<C: MonitorControl>(
    controller: &C,
    identities: Seq<MonitorFingerprint>,
    input: DisplayInput,
    present: Result<Vec<MonitorDescriptor>, DisplayMuxError>,
    listed: Result<Vec<MonitorDescriptor>, DisplayMuxError>,
    read: Result<DisplayInput, DisplayMuxError>,
    written: Result<(), DisplayMuxError>,
    outcome: SwitchOutcome,
)
    requires
        is_switch_run(controller, identities, input, present, listed, read, written, Ok(outcome)),
    ensures
        listed is Ok,
        match outcome {
            SwitchOutcome::DryRun { .. } => false,
            SwitchOutcome::AlreadySelected { target, input: shown } => {
                &&& shown == input
                &&& read == Ok::<DisplayInput, DisplayMuxError>(input)
                &&& is_sole_match(identities, listed->Ok_0@, target)
                &&& call_ensures(C::read_input, (controller, &target.id), read)
            },
            SwitchOutcome::Switched { target, previous, selected } => {
                &&& selected == input
                &&& previous != input
                &&& read == Ok::<DisplayInput, DisplayMuxError>(previous)
                &&& is_sole_match(identities, listed->Ok_0@, target)
                &&& call_ensures(C::read_input, (controller, &target.id), read)
                &&& call_ensures(C::write_input, (controller, &target.id, input), written)
                &&& written is Ok
            },
        },
{
    let monitors = present->Ok_0@;
    a_present_identity_is_switched(identities, monitors);
    let chosen = identity_to_switch(identities, monitors)->0;
    let target = match outcome {
        SwitchOutcome::DryRun { target, .. } => target,
        SwitchOutcome::AlreadySelected { target, .. } => target,
        SwitchOutcome::Switched { target, .. } => target,
    };
    a_target_is_never_guessed(listed->Ok_0@, chosen, target);
    let i = choose|i: int| 0 <= i < identities.len() && identities[i] == chosen;
    assert(identities[i]@ == target.fingerprint@);
}

/// What this computer could not switch is handed to the target itself or, to come
/// back here, to the only paired host; and to nobody else.
pub proof fn a_switch_is_handed_to_the_host_it_concerns(
    locale: UiLocale,
    settings: AppSettings,
    target_id: Seq<char>,
    local_error: Seq<char>,
    result: Result<usize, String>,
    p: int,
)
    requires
        is_executor(locale, settings, target_id, local_error, result),
    ensures
        target_id == "local"@ ==> (result is Ok <==> settings.peers@.len() == 1),
        target_id == "local"@ && result is Ok ==> result->Ok_0 == 0,
        target_id != "local"@ && is_host_of(settings.peers@, target_id, p) ==> result is Ok
            && result->Ok_0 == p,
        target_id != "local"@ && (forall|j: int|
            0 <= j < settings.peers@.len() ==> (#[trigger] settings.peers@[j]).id@ != target_id)
            ==> result is Err,
{
    lemma_host(settings.peers@, target_id);
}

/// A host that understands it is told which display to switch; one that does not is
/// asked only where there is just one.
pub proof fn a_display_is_named_to_hosts_that_understand(
    locale: UiLocale,
    version: u32,
    count: usize,
    target: MonitorFingerprint,
    result: Result<Option<MonitorFingerprint>, String>,
)
    requires
        is_display_told(locale, version, count, target, result),
    ensures
        version >= 2 ==> result is Ok && result->Ok_0 is Some && result->Ok_0->0@ == target@,
        version < 2 && count <= 1 ==> result is Ok && result->Ok_0 is None,
        version < 2 && count > 1 ==> result is Err,
{
}

/// A paired host is asked at its own address and port, with a password of at least
/// eight characters or not at all; and what it answers counts only where it is
/// ready.
pub proof fn a_host_is_asked_where_it_listens(
    locale: UiLocale,
    settings: AppSettings,
    peer: HostRoute,
    address: Option<HostAddress>,
    target: Result<PeerEndpoint, String>,
    answer: Result<AgentResponse, DisplayMuxError>,
    meant: Result<AgentResponse, String>,
)
    requires
        is_request_target(locale, settings, peer, address, target),
        is_peer_answer(locale, answer, meant),
    ensures
        target is Ok <==> address is Some && settings.shared_key@.len() >= 8,
        target is Ok ==> Some(target->Ok_0.address) == address && target->Ok_0.port == peer.port,
        meant is Ok <==> answer is Ok && answer->Ok_0.ready,
        meant is Ok ==> meant->Ok_0 == answer->Ok_0,
        answer is Ok && !answer->Ok_0.ready ==> meant->Err_0@ == answer->Ok_0.message@,
{
}

/// A host is woken by its own hardware address, broadcast where the user set; it
/// cannot be without such an address or without somewhere to broadcast to.
pub proof fn a_host_is_woken_by_its_own_address(
    locale: UiLocale,
    settings: AppSettings,
    peer: HostRoute,
    broadcast: Option<[u8; 4]>,
    result: Result<WakeTarget, String>,
)
    requires
        is_wake_target(locale, settings, peer, broadcast, result),
        peer.mac_address@.len() == 0 || !white_space(peer.mac_address@[0]),
    ensures
        result is Ok <==> peer.mac_address@.len() > 0 && mac_of(peer.mac_address@) is Some
            && broadcast is Some,
        result is Ok ==> {
            &&& mac_of(peer.mac_address@) == Some(result->Ok_0.mac_address.bytes@)
            &&& Some(result->Ok_0.broadcast_address) == broadcast
            &&& result->Ok_0.port == settings.wake_port
        },
{
    let ends = trimming_takes_off_just_the_white_space(peer.mac_address@);
    if peer.mac_address@.len() > 0 {
        assert(ends.0 == 0);
        if ends.1 == 0 {
            assert(white_space(peer.mac_address@[0]));
        }
    }
}

/// Whether a display is connected, has one of the identities, and is the only one
/// with its identity.
pub open spec fn is_sole_match(
    identities: Seq<MonitorFingerprint>,
    listed: Seq<MonitorDescriptor>,
    target: MonitorDescriptor,
) -> bool {
    &&& listed.contains(target)
    &&& exists|i: int|
        0 <= i < identities.len() && (#[trigger] identities[i])@ == target.fingerprint@
    &&& forall|i: int, j: int|
        0 <= i < j < listed.len() ==> !((#[trigger] listed[i]).fingerprint@ == target.fingerprint@
            && (#[trigger] listed[j]).fingerprint@ == target.fingerprint@)
}

/// Of the identities given the first that a present display has is switched, and
/// the first of all where none is present.
pub proof fn the_first_present_identity_is_switched(
    identities: Seq<MonitorFingerprint>,
    present: Seq<MonitorDescriptor>,
    i: int,
    k: int,
)
    requires
        0 <= i < identities.len(),
    ensures
        0 <= k < present.len() && present[k].fingerprint@ == identities[i]@ && (forall|a: int, b: int|
            0 <= a < i && 0 <= b < present.len() ==> (#[trigger] identities[a])@ != (
            #[trigger] present[b]).fingerprint@) ==> identity_to_switch(identities, present)
            == Some(identities[i]),
        (forall|a: int, b: int|
            0 <= a < identities.len() && 0 <= b < present.len() ==> (#[trigger] identities[a])@ != (
            #[trigger] present[b]).fingerprint@) ==> identity_to_switch(identities, present)
            == Some(identities[0]),
{
    let wanted = is_present(present);
    if 0 <= k < present.len() && present[k].fingerprint@ == identities[i]@ && (forall|
        a: int,
        b: int,
    |
        0 <= a < i && 0 <= b < present.len() ==> (#[trigger] identities[a])@ != (
        #[trigger] present[b]).fingerprint@) {
        assert(wanted(identities[i]));
        assert forall|a: int| 0 <= a < i implies !wanted(#[trigger] identities[a]) by {}
        lemma_first_at_is(identities, wanted, i);
    }
    if forall|a: int, b: int|
        0 <= a < identities.len() && 0 <= b < present.len() ==> (#[trigger] identities[a])@ != (
        #[trigger] present[b]).fingerprint@ {
        assert forall|a: int| 0 <= a < identities.len() implies !wanted(
            #[trigger] identities[a],
        ) by {}
        lemma_first_at_is(identities, wanted, identities.len() as int);
    }
}

} // verus!
