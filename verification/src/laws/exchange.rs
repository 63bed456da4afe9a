//! What paired hosts tell each other, and what becomes of it.

use crate::agent::{AgentAction, AgentResponse};
use crate::domain::{
    DisplayInput, HostAlias, Identity, InputLabel, MonitorDescriptor, MonitorFingerprint,
    MonitorIdentityLink, SwitchOutcome,
};
use crate::entries::{adopt_all, newest};
use crate::error::DisplayMuxError;
use crate::laws::claims::{is_claimed_to_be, is_unclaimed};
use crate::laws::entries::{
    a_list_that_fits_is_sent_whole, is_name_older, is_note_older, is_plain_id, is_presentable,
    the_later_claim_stands, the_later_name_stands, the_later_note_stands,
};
use crate::laws::naming::{is_annotated, is_called, is_nameless, lemma_called};
use crate::laws::routing::{
    an_input_shows_its_sole_user, is_named, is_sole_user, one_display_is_named,
    the_display_meant_is_the_named_one,
};
use crate::laws::sharing::{is_plain_order, lemma_plain_order};
use crate::laws::{is_display_under, is_keyed, is_showing, lemma_display_under};
use crate::lists::{first_at, lemma_first_at, lemma_first_at_is};
use crate::locale::UiLocale;
use crate::routes::{is_notice_taken, is_route_adoption};
use crate::settings::{AppSettings, SelectedMonitor};
use crate::sharing::{
    announced_notices, announced_under, are_announced, are_announcements, claims_key,
    has_monitor_id, is_ahead, is_announcement, is_due, is_layout_adopted, is_named_identity,
    is_news, is_notice_answer, is_notice_applied, is_pairing_key, is_ping_answer, is_switch_answer,
    is_under, localized, missing_there, names_of_routes, notice_in, notices_in, AnnouncedInput,
    LayoutChanges, Notice, NoticeEffect,
};
use crate::text::views;
use vstd::prelude::*;

verus! {

/// Whether a paired host called a host something that it may be called, once, and
/// later than anything that it is called in `ours`.
pub open spec fn is_told_later(ours: Seq<HostAlias>, theirs: Seq<HostAlias>, k: int) -> bool {
    &&& 0 <= k < theirs.len() <= 16
    &&& is_plain_id(theirs[k].host_id@)
    &&& is_presentable(theirs[k].name@, 32)
    &&& forall|j: int|
        0 <= j < theirs.len() && j != k ==> (#[trigger] theirs[j]).host_id@ != theirs[k].host_id@
    &&& is_name_older(ours, theirs[k].host_id@, theirs[k].updated_at_ms)
}

/// Whether a host goes by what an entry says of it.
pub open spec fn goes_by(aliases: Seq<HostAlias>, entry: HostAlias) -> bool {
    &&& entry.name@.len() > 0 ==> is_called(aliases, entry.host_id@, entry.name@)
    &&& entry.name@.len() == 0 ==> is_nameless(aliases, entry.host_id@)
}

/// Whether claims hold of an identity just what an entry says of it.
pub open spec fn stands(links: Seq<MonitorIdentityLink>, entry: MonitorIdentityLink) -> bool {
    match entry.primary {
        Some(primary) => is_claimed_to_be(links, entry.alias@, primary@),
        None => is_unclaimed(links, entry.alias@),
    }
}

/// Whether a paired host said of an identity something that may be said, once,
/// and later than anything said in `ours`.
pub open spec fn is_claimed_later(
    ours: Seq<MonitorIdentityLink>,
    theirs: Seq<MonitorIdentityLink>,
    k: int,
) -> bool {
    &&& 0 <= k < theirs.len() <= 32
    &&& theirs[k].primary is Some ==> theirs[k].primary->0@ != theirs[k].alias@
    &&& forall|j: int|
        0 <= j < theirs.len() && j != k ==> (#[trigger] theirs[j]).alias@ != theirs[k].alias@
    &&& forall|i: int|
        0 <= i < ours.len() && (#[trigger] ours[i]).alias@ == theirs[k].alias@
            ==> ours[i].updated_at_ms < theirs[k].updated_at_ms
}

/// A notice of a later name gives the host that name.
pub proof fn a_notice_of_a_later_name_is_followed(
    before: AppSettings,
    aliases: Vec<HostAlias>,
    now_ms: u64,
    after: AppSettings,
    effect: NoticeEffect,
    k: int,
)
    requires
        is_notice_applied(
            before,
            AgentAction::HostAliasesChanged { aliases },
            now_ms,
            after,
            effect,
        ),
    ensures
        is_told_later(before.host_aliases@, aliases@, k) ==> goes_by(
            after.host_aliases@,
            aliases@[k],
        ),
        aliases@.len() > 16 ==> after == before,
        effect == NoticeEffect::HostNames || effect == NoticeEffect::Nothing,
        effect == NoticeEffect::Nothing ==> after == before,
        after.host_aliases@ != before.host_aliases@ ==> effect == NoticeEffect::HostNames,
        after.shared_monitors == before.shared_monitors && after.peers == before.peers,
{
    if is_told_later(before.host_aliases@, aliases@, k) {
        the_later_name_stands(before.host_aliases@, aliases@, k, seq![], seq![]);
    }
}

/// A notice of a later claim is followed.
pub proof fn a_notice_of_a_later_claim_is_followed(
    before: AppSettings,
    links: Vec<MonitorIdentityLink>,
    now_ms: u64,
    after: AppSettings,
    effect: NoticeEffect,
    k: int,
)
    requires
        is_notice_applied(
            before,
            AgentAction::MonitorIdentitiesChanged { links },
            now_ms,
            after,
            effect,
        ),
    ensures
        is_claimed_later(before.monitor_identity_links@, links@, k) ==> stands(
            after.monitor_identity_links@,
            links@[k],
        ),
        links@.len() > 32 ==> after == before,
        effect == NoticeEffect::MonitorIdentities || effect == NoticeEffect::Nothing,
        effect == NoticeEffect::Nothing ==> after == before,
        after.monitor_identity_links@ != before.monitor_identity_links@ ==> effect
            == NoticeEffect::MonitorIdentities,
        after.shared_monitors == before.shared_monitors && after.peers == before.peers,
{
    if is_claimed_later(before.monitor_identity_links@, links@, k) {
        let any = links@[k].alias@;
        the_later_claim_stands(before.monitor_identity_links@, links@, k, any, any);
    }
}

/// A notice of a later order is followed.
pub proof fn a_notice_of_a_later_order_is_followed(
    before: AppSettings,
    order: Vec<String>,
    at: u64,
    now_ms: u64,
    after: AppSettings,
    effect: NoticeEffect,
)
    requires
        is_notice_applied(
            before,
            AgentAction::HostOrderChanged { order, updated_at_ms: at },
            now_ms,
            after,
            effect,
        ),
    ensures
        at > before.host_order_updated_at_ms && is_plain_order(order@) ==> {
            &&& after.host_order@ == order@
            &&& after.host_order_updated_at_ms == at
            &&& effect == NoticeEffect::HostOrder
        },
        !(at > before.host_order_updated_at_ms && is_plain_order(order@)) ==> after == before
            && effect == NoticeEffect::Nothing,
{
    lemma_plain_order(before, order@, at);
}

/// A note that comes in is about the display that it names here, or stays as it
/// was sent where it names none.
pub proof fn a_note_comes_to_the_named_display(
    settings: AppSettings,
    labels: Seq<InputLabel>,
    k: int,
    m: int,
)
    requires
        0 <= k < labels.len(),
    ensures
        localized(settings, labels).len() == labels.len(),
        localized(settings, labels)[k].input == labels[k].input,
        localized(settings, labels)[k].label == labels[k].label,
        localized(settings, labels)[k].updated_at_ms == labels[k].updated_at_ms,
        is_named(
            settings.shared_monitors@,
            settings.monitor_identity_links@,
            labels[k].monitor@,
            m,
        ) ==> localized(settings, labels)[k].monitor == settings.shared_monitors@[m].fingerprint,
        (forall|i: int|
            !#[trigger] is_named(
                settings.shared_monitors@,
                settings.monitor_identity_links@,
                labels[k].monitor@,
                i,
            )) ==> localized(settings, labels)[k].monitor == labels[k].monitor,
{
    let monitors = settings.shared_monitors@;
    let links = settings.monitor_identity_links@;
    the_display_meant_is_the_named_one(monitors, links, labels[k].monitor);
    if is_named(monitors, links, labels[k].monitor@, m) {
        one_display_is_named(monitors, links, labels[k].monitor, m);
    }
}

/// A notice of a later note gives the named display's input that note.
pub proof fn a_notice_of_a_later_note_is_followed(
    before: AppSettings,
    labels: Vec<InputLabel>,
    now_ms: u64,
    after: AppSettings,
    effect: NoticeEffect,
    m: int,
)
    requires
        is_notice_applied(
            before,
            AgentAction::InputLabelsChanged { labels },
            now_ms,
            after,
            effect,
        ),
        labels@.len() == 1,
        1 <= labels@[0].input.code <= 255,
        is_presentable(labels@[0].label@, 24),
        labels@[0].label@.len() > 0,
        is_named(
            before.shared_monitors@,
            before.monitor_identity_links@,
            labels@[0].monitor@,
            m,
        ),
        is_note_older(
            before.input_labels@,
            before.shared_monitors@[m].fingerprint@,
            labels@[0].input,
            labels@[0].updated_at_ms,
        ),
    ensures
        is_annotated(
            after.input_labels@,
            before.shared_monitors@[m].fingerprint@,
            labels@[0].input,
            labels@[0].label@,
        ),
        effect == NoticeEffect::InputLabels || effect == NoticeEffect::Nothing,
        after.shared_monitors == before.shared_monitors && after.peers == before.peers,
{
    a_note_comes_to_the_named_display(before, labels@, 0, m);
    let theirs = localized(before, labels@);
    the_later_note_stands(
        before.input_labels@,
        theirs,
        0,
        theirs[0].monitor@,
        theirs[0].input,
        theirs[0].label@,
    );
}

/// A notice that a display was switched moves the named display to the only route
/// that uses its input, and starts its settle period; any other display stays.
pub proof fn a_notice_of_a_switch_is_followed(
    before: AppSettings,
    monitor: MonitorFingerprint,
    input: DisplayInput,
    now_ms: u64,
    after: AppSettings,
    effect: NoticeEffect,
    m: int,
    k: int,
    route: Seq<char>,
)
    requires
        is_notice_applied(
            before,
            AgentAction::ActiveInputChanged { monitor, input },
            now_ms,
            after,
            effect,
        ),
        is_named(before.shared_monitors@, before.monitor_identity_links@, monitor@, m),
    ensures
        is_sole_user(before.shared_monitors@[m], before.peers@, input, route) ==> {
            &&& is_showing(after.shared_monitors@[m], route)
            &&& after.shared_monitors@[m].active_route_confirmed_at_ms == now_ms
            &&& effect == NoticeEffect::ActiveRoute
        },
        (forall|other: Seq<char>|
            !#[trigger] is_sole_user(before.shared_monitors@[m], before.peers@, input, other))
            ==> effect == NoticeEffect::Nothing,
        after.shared_monitors@.len() == before.shared_monitors@.len(),
        after.shared_monitors@[m].local_input == before.shared_monitors@[m].local_input,
        0 <= k < before.shared_monitors@.len() && k != m ==> after.shared_monitors@[k]
            == before.shared_monitors@[k],
        after.peers == before.peers,
{
    one_display_is_named(before.shared_monitors@, before.monitor_identity_links@, monitor, m);
    let result = choose|result: Option<bool>|
        {
            &&& #[trigger] is_notice_taken(
                before,
                monitor,
                input,
                now_ms,
                after.shared_monitors@,
                result,
            )
            &&& effect == if result is Some {
                NoticeEffect::ActiveRoute
            } else {
                NoticeEffect::Nothing
            }
        };
    let adopted = choose|adopted: SelectedMonitor|
        {
            &&& #[trigger] is_route_adoption(
                before.shared_monitors@[m],
                before.peers@,
                input,
                adopted,
                result,
            )
            &&& after.shared_monitors@[m] == if result is Some {
                SelectedMonitor { active_route_confirmed_at_ms: now_ms, ..adopted }
            } else {
                adopted
            }
        };
    an_input_shows_its_sole_user(
        before.shared_monitors@[m],
        before.peers@,
        input,
        adopted,
        result,
        route,
    );
}

/// A request to answer or to switch is no notice and changes nothing.
pub proof fn a_request_is_no_notice(
    before: AppSettings,
    action: AgentAction,
    now_ms: u64,
    after: AppSettings,
    effect: NoticeEffect,
)
    requires
        is_notice_applied(before, action, now_ms, after, effect),
        action is Ping || action is SwitchInput,
    ensures
        after == before,
        effect == NoticeEffect::Nothing,
{
}

/// From a paired host's answer everything later is taken over, and nothing else
/// changes.
pub proof fn an_answer_brings_what_is_later(
    before: AppSettings,
    theirs: AgentResponse,
    after: AppSettings,
    changes: LayoutChanges,
    k: int,
)
    requires
        is_layout_adopted(before, theirs, after, changes),
    ensures
        is_told_later(before.host_aliases@, theirs.host_aliases@, k) ==> goes_by(
            after.host_aliases@,
            theirs.host_aliases@[k],
        ),
        is_claimed_later(before.monitor_identity_links@, theirs.monitor_identity_links@, k)
            ==> stands(after.monitor_identity_links@, theirs.monitor_identity_links@[k]),
        theirs.host_order_updated_at_ms > before.host_order_updated_at_ms && is_plain_order(
            theirs.host_order@,
        ) ==> after.host_order@ == theirs.host_order@ && after.host_order_updated_at_ms
            == theirs.host_order_updated_at_ms && changes.order,
        theirs.host_order_updated_at_ms <= before.host_order_updated_at_ms ==> after.host_order
            == before.host_order && !changes.order,
        changes.names <==> after.host_aliases@ != before.host_aliases@,
        changes.labels <==> after.input_labels@ != before.input_labels@,
        changes.identities <==> after.monitor_identity_links@ != before.monitor_identity_links@,
        after.shared_monitors == before.shared_monitors,
        after.peers == before.peers,
        after.shared_key == before.shared_key,
        after.local_host_id == before.local_host_id,
{
    lemma_plain_order(before, theirs.host_order@, theirs.host_order_updated_at_ms);
    if is_told_later(before.host_aliases@, theirs.host_aliases@, k) {
        the_later_name_stands(before.host_aliases@, theirs.host_aliases@, k, seq![], seq![]);
    }
    if is_claimed_later(before.monitor_identity_links@, theirs.monitor_identity_links@, k) {
        let any = theirs.monitor_identity_links@[k].alias@;
        the_later_claim_stands(
            before.monitor_identity_links@,
            theirs.monitor_identity_links@,
            k,
            any,
            any,
        );
    }
}

/// A single later note in an answer becomes the note of the named display's input.
pub proof fn an_answer_brings_a_later_note(
    before: AppSettings,
    theirs: AgentResponse,
    after: AppSettings,
    changes: LayoutChanges,
    m: int,
)
    requires
        is_layout_adopted(before, theirs, after, changes),
        theirs.input_labels@.len() == 1,
        1 <= theirs.input_labels@[0].input.code <= 255,
        is_presentable(theirs.input_labels@[0].label@, 24),
        theirs.input_labels@[0].label@.len() > 0,
        is_named(
            before.shared_monitors@,
            before.monitor_identity_links@,
            theirs.input_labels@[0].monitor@,
            m,
        ),
        is_note_older(
            before.input_labels@,
            before.shared_monitors@[m].fingerprint@,
            theirs.input_labels@[0].input,
            theirs.input_labels@[0].updated_at_ms,
        ),
    ensures
        is_annotated(
            after.input_labels@,
            before.shared_monitors@[m].fingerprint@,
            theirs.input_labels@[0].input,
            theirs.input_labels@[0].label@,
        ),
{
    a_note_comes_to_the_named_display(before, theirs.input_labels@, 0, m);
    let sent = localized(before, theirs.input_labels@);
    the_later_note_stands(
        before.input_labels@,
        sent,
        0,
        sent[0].monitor@,
        sent[0].input,
        sent[0].label@,
    );
}

/// Whether one of the actions tells a host order.
pub open spec fn tells_order(actions: Seq<AgentAction>, order: Seq<Seq<char>>, at: u64) -> bool {
    exists|a: int|
        {
            &&& 0 <= a < actions.len()
            &&& (#[trigger] actions[a]) is HostOrderChanged
            &&& views(actions[a]->order@) == order
            &&& actions[a]->updated_at_ms == at
        }
}

/// Whether one of the actions tells names, and this one among them.
pub open spec fn tells_name(actions: Seq<AgentAction>, entry: HostAlias) -> bool {
    exists|a: int|
        {
            &&& 0 <= a < actions.len()
            &&& (#[trigger] actions[a]) is HostAliasesChanged
            &&& actions[a]->aliases@.contains(entry)
        }
}

/// Whether one of the actions tells claims, and this one among them.
pub open spec fn tells_claim(actions: Seq<AgentAction>, entry: MonitorIdentityLink) -> bool {
    exists|a: int|
        {
            &&& 0 <= a < actions.len()
            &&& (#[trigger] actions[a]) is MonitorIdentitiesChanged
            &&& actions[a]->links@.contains(entry)
        }
}

/// A paired host is told our order exactly where ours is later, and every name and
/// claim that we have later than it.
pub proof fn a_host_that_is_behind_is_told(
    settings: AppSettings,
    theirs: AgentResponse,
    actions: Seq<AgentAction>,
    k: int,
)
    requires
        notices_in(actions) == missing_there(settings, theirs),
    ensures
        settings.host_order@.len() > 0 && settings.host_order_updated_at_ms
            > theirs.host_order_updated_at_ms ==> tells_order(
            actions,
            views(settings.host_order@),
            settings.host_order_updated_at_ms,
        ),
        settings.host_order_updated_at_ms <= theirs.host_order_updated_at_ms ==> forall|a: int|
            0 <= a < actions.len() ==> !((#[trigger] actions[a]) is HostOrderChanged),
        settings.host_aliases@.len() <= 16 && is_told_later(
            theirs.host_aliases@,
            settings.host_aliases@,
            k,
        ) ==> tells_name(actions, settings.host_aliases@[k]),
        0 <= k < settings.monitor_identity_links@.len() && (forall|i: int|
            0 <= i < theirs.monitor_identity_links@.len() && (
            #[trigger] theirs.monitor_identity_links@[i]).alias@
                == settings.monitor_identity_links@[k].alias@
                ==> theirs.monitor_identity_links@[i].updated_at_ms
                < settings.monitor_identity_links@[k].updated_at_ms) ==> tells_claim(
            actions,
            settings.monitor_identity_links@[k],
        ),
        forall|a: int|
            0 <= a < actions.len() ==> !((#[trigger] actions[a]) is Ping)
                && !(actions[a] is SwitchInput) && !(actions[a] is ActiveInputChanged)
                && !(actions[a] is LocalInputConfirmed),
{
    let names = newest(settings.host_aliases@, 16);
    let labels = newest(settings.input_labels@, 16);
    let their_labels = localized(settings, theirs.input_labels@);
    let order = Notice::Order {
        order: views(settings.host_order@),
        at: settings.host_order_updated_at_ms,
    };
    let first = settings.host_order@.len() > 0 && settings.host_order_updated_at_ms
        > theirs.host_order_updated_at_ms;
    let second = adopt_all(theirs.host_aliases@, names) != theirs.host_aliases@;
    let third = crate::monitor_identity::misses_some(
        theirs.monitor_identity_links@,
        settings.monitor_identity_links@,
    );
    let fourth = adopt_all(their_labels, labels) != their_labels;
    let a: Seq<Notice> = crate::sharing::sent_if(first, order);
    let b: Seq<Notice> = crate::sharing::sent_if(second, Notice::Aliases(names));
    let c: Seq<Notice> = crate::sharing::sent_if(
        third,
        Notice::Links(settings.monitor_identity_links@),
    );
    let d: Seq<Notice> = crate::sharing::sent_if(fourth, Notice::Labels(labels));
    let all = a + b + c + d;
    assert(notices_in(actions) == all);
    assert(all.len() == actions.len());
    assert forall|n: int| 0 <= n < actions.len() implies notice_in(#[trigger] actions[n])
        == all[n] by {
        assert(notices_in(actions)[n] == notice_in(actions[n]));
    }
    if first {
        assert(notice_in(actions[0]) == all[0]);
        assert(all[0] == order);
        assert(actions[0] is HostOrderChanged);
    }
    if settings.host_aliases@.len() <= 16 && is_told_later(
        theirs.host_aliases@,
        settings.host_aliases@,
        k,
    ) {
        let entry = settings.host_aliases@[k];
        a_list_that_fits_is_sent_whole(settings.host_aliases@, 16, k);
        lemma_later_name_changes(theirs.host_aliases@, settings.host_aliases@, names, k);
        let n = a.len() as int;
        assert(all[n] == Notice::Aliases(names));
        assert(notice_in(actions[n]) == all[n]);
        assert(actions[n] is HostAliasesChanged && actions[n]->aliases@.contains(entry));
    }
    if 0 <= k < settings.monitor_identity_links@.len() && (forall|i: int|
        0 <= i < theirs.monitor_identity_links@.len() && (
        #[trigger] theirs.monitor_identity_links@[i]).alias@
            == settings.monitor_identity_links@[k].alias@
            ==> theirs.monitor_identity_links@[i].updated_at_ms
            < settings.monitor_identity_links@[k].updated_at_ms) {
        assert(!crate::monitor_identity::holds_as_new(
            theirs.monitor_identity_links@,
            settings.monitor_identity_links@[k],
        ));
        let n = (a.len() + b.len()) as int;
        assert(all[n] == Notice::Links(settings.monitor_identity_links@));
        assert(notice_in(actions[n]) == all[n]);
        assert(actions[n] is MonitorIdentitiesChanged && actions[n]->links@.contains(
            settings.monitor_identity_links@[k],
        ));
    }
}

proof fn lemma_later_name_changes(
    theirs: Seq<HostAlias>,
    ours: Seq<HostAlias>,
    sent: Seq<HostAlias>,
    k: int,
)
    requires
        is_told_later(theirs, ours, k),
        ours.len() <= 16,
        sent == newest(ours, 16),
    ensures
        adopt_all(theirs, sent) != theirs,
        sent.contains(ours[k]),
{
    a_list_that_fits_is_sent_whole(ours, 16, k);
    let n = choose|n: int| 0 <= n < sent.len() && sent[n] == ours[k];
    let entry = ours[k];
    assert(crate::host_alias::normal_alias(entry.name@)) by {
        crate::laws::entries::lemma_presentable(entry.name@);
    }
    assert(crate::host_order::valid_host_id(entry.host_id@)) by {
        assert forall|i: int| 0 <= i < entry.host_id@.len() implies
            crate::host_order::host_id_char(#[trigger] entry.host_id@[i]) by {
            assert(crate::laws::entries::is_plain_id_char(entry.host_id@[i]));
        }
    }
    crate::entries::merging_takes_over_what_is_newer(theirs, sent, n);
    if adopt_all(theirs, sent) == theirs {
        lemma_first_at(theirs, crate::entries::about(entry));
        let at = crate::entries::entry_index(theirs, entry);
        assert(theirs[at].host_id@ == entry.host_id@);
    }
}

/// A paired host that asks is told the order, every claim, and every name and note
/// where there are at most sixteen.
pub proof fn a_ping_tells_what_hosts_share(
    locale: UiLocale,
    settings: AppSettings,
    response: AgentResponse,
    k: int,
)
    requires
        is_ping_answer(locale, Some(settings), response),
    ensures
        response.ready,
        response.host_order@ == settings.host_order@,
        response.host_order_updated_at_ms == settings.host_order_updated_at_ms,
        response.monitor_identity_links@ == settings.monitor_identity_links@,
        response.host_aliases@.len() <= 16,
        response.input_labels@.len() <= 16,
        0 <= k < settings.host_aliases@.len() <= 16 ==> response.host_aliases@.contains(
            settings.host_aliases@[k],
        ),
        0 <= k < settings.input_labels@.len() <= 16 ==> response.input_labels@.contains(
            settings.input_labels@[k],
        ),
        0 <= k < response.host_aliases@.len() ==> settings.host_aliases@.contains(
            response.host_aliases@[k],
        ),
        0 <= k < response.input_labels@.len() ==> settings.input_labels@.contains(
            response.input_labels@[k],
        ),
{
    crate::entries::newest_are_of_the_list(settings.host_aliases@, 16);
    crate::entries::newest_are_of_the_list(settings.input_labels@, 16);
    if settings.host_aliases@.len() <= 16 {
        a_list_that_fits_is_sent_whole(settings.host_aliases@, 16, k);
    }
    if settings.input_labels@.len() <= 16 {
        a_list_that_fits_is_sent_whole(settings.input_labels@, 16, k);
    }
}

/// Whether an input was announced under the key of a display: the first entry
/// under it says so.
pub open spec fn was_announced(
    entries: Seq<AnnouncedInput>,
    monitor: Identity,
    input: DisplayInput,
) -> bool {
    exists|i: int|
        {
            &&& 0 <= i < entries.len()
            &&& is_keyed(monitor, (#[trigger] entries[i]).key@)
            &&& entries[i].input == input
            &&& forall|j: int| 0 <= j < i ==> !is_keyed(monitor, (#[trigger] entries[j]).key@)
        }
}

proof fn lemma_was_announced(
    entries: Seq<AnnouncedInput>,
    monitor: Identity,
    input: DisplayInput,
)
    ensures
        was_announced(entries, monitor, input) <==> announced_under(
            entries,
            crate::settings::key_of(monitor),
        ) == Some(input),
{
    let wanted = is_under(crate::settings::key_of(monitor));
    lemma_first_at(entries, wanted);
    let n = first_at(entries, wanted);
    assert forall|j: int| 0 <= j < n implies !is_keyed(monitor, (#[trigger] entries[j]).key@) by {
        assert(!wanted(entries[j]));
    }
    if n < entries.len() {
        assert(wanted(entries[n]));
    }
    if was_announced(entries, monitor, input) {
        let i = choose|i: int|
            {
                &&& 0 <= i < entries.len()
                &&& is_keyed(monitor, (#[trigger] entries[i]).key@)
                &&& entries[i].input == input
                &&& forall|j: int| 0 <= j < i ==> !is_keyed(monitor, (#[trigger] entries[j]).key@)
            };
        lemma_first_at_is(entries, wanted, i);
    }
}

/// Whether one of the actions confirms to paired hosts that this host is plugged
/// into an input of a display.
pub open spec fn confirms(
    actions: Seq<AgentAction>,
    host_id: Seq<char>,
    monitor: MonitorFingerprint,
    input: DisplayInput,
) -> bool {
    exists|a: int|
        {
            &&& 0 <= a < actions.len()
            &&& (#[trigger] actions[a]) matches AgentAction::LocalInputConfirmed {
                host_id: id,
                monitor: on,
                input: shown,
            } && id@ == host_id && on == monitor && shown == input
        }
}

proof fn lemma_announcing(
    states: Seq<Seq<AnnouncedInput>>,
    monitors: Seq<SelectedMonitor>,
    host_id: Seq<char>,
    n: int,
    k: int,
)
    requires
        are_announcements(states, monitors),
        0 <= n <= monitors.len(),
        0 <= k < monitors.len(),
        forall|j: int|
            0 <= j < monitors.len() && j != k ==> crate::settings::key_of(
                (#[trigger] monitors[j]).fingerprint@,
            ) != crate::settings::key_of(monitors[k].fingerprint@),
    ensures
        n <= k ==> announced_under(
            states[n],
            crate::settings::key_of(monitors[k].fingerprint@),
        ) == announced_under(states[0], crate::settings::key_of(monitors[k].fingerprint@)),
        n > k && is_news(states[0], monitors[k]) ==> announced_notices(
            states,
            monitors,
            host_id,
            n,
        ).contains(
            Notice::Confirmed {
                host_id,
                monitor: monitors[k].fingerprint,
                input: monitors[k].local_input->0,
            },
        ),
        forall|a: int|
            0 <= a < announced_notices(states, monitors, host_id, n).len() ==> exists|j: int|
                {
                    &&& 0 <= j < monitors.len()
                    &&& is_showing(#[trigger] monitors[j], "local"@)
                    &&& monitors[j].local_input is Some
                    &&& (#[trigger] announced_notices(states, monitors, host_id, n)[a])
                        == (Notice::Confirmed {
                        host_id,
                        monitor: monitors[j].fingerprint,
                        input: monitors[j].local_input->0,
                    })
                },
    decreases n,
{
    let key = crate::settings::key_of(monitors[k].fingerprint@);
    if n > 0 {
        lemma_announcing(states, monitors, host_id, n - 1, k);
        let before = announced_notices(states, monitors, host_id, n - 1);
        let after = announced_notices(states, monitors, host_id, n);
        let last = monitors[n - 1];
        let news = is_news(states[n - 1], last);
        assert(states[n - 1 + 1] == states[n]);
        let notice = Notice::Confirmed {
            host_id,
            monitor: last.fingerprint,
            input: last.local_input->0,
        };
        if news {
            assert(after == before.push(notice));
        }
        assert forall|a: int| 0 <= a < after.len() implies exists|j: int|
            {
                &&& 0 <= j < monitors.len()
                &&& is_showing(#[trigger] monitors[j], "local"@)
                &&& monitors[j].local_input is Some
                &&& (#[trigger] after[a]) == (Notice::Confirmed {
                    host_id,
                    monitor: monitors[j].fingerprint,
                    input: monitors[j].local_input->0,
                })
            } by {
            if a < before.len() {
                assert(after[a] == before[a]);
            } else {
                assert(is_showing(monitors[n - 1], "local"@));
                assert(after[a] == notice);
            }
        }
        if n - 1 < k {
            let other = crate::settings::key_of(last.fingerprint@);
            assert(other != key);
            if news {
                lemma_other_key(states[n - 1], other, last.local_input->0, states[n], key);
            }
        } else if n - 1 == k {
            assert(announced_under(states[k], key) == announced_under(states[0], key));
            if is_news(states[0], monitors[k]) {
                assert(after[before.len() as int] == notice);
            }
        } else {
            if is_news(states[0], monitors[k]) {
                let told = Notice::Confirmed {
                    host_id,
                    monitor: monitors[k].fingerprint,
                    input: monitors[k].local_input->0,
                };
                let a = choose|a: int| 0 <= a < before.len() && before[a] == told;
                assert(after[a] == told);
            }
        }
    }
}

proof fn lemma_other_key(
    before: Seq<AnnouncedInput>,
    key: Seq<char>,
    input: DisplayInput,
    after: Seq<AnnouncedInput>,
    other: Seq<char>,
)
    requires
        is_announcement(before, key, input, after),
        other != key,
    ensures
        announced_under(after, other) == announced_under(before, other),
{
    let wanted = is_under(other);
    lemma_first_at(before, wanted);
    lemma_first_at(before, is_under(key));
    let i = first_at(before, is_under(key));
    let n = first_at(before, wanted);
    if i < before.len() {
        assert(is_under(key)(before[i]));
        assert forall|j: int| 0 <= j < n implies !wanted(#[trigger] after[j]) by {
            assert(!wanted(before[j]));
        }
        lemma_first_at_is(after, wanted, n);
    } else {
        assert forall|j: int| 0 <= j < before.len() implies #[trigger] after[j] == before[j] by {
            assert(after.drop_last()[j] == before[j]);
        }
        if n < before.len() {
            lemma_first_at_is(after, wanted, n);
        } else {
            lemma_first_at_is(after, wanted, after.len() as int);
        }
    }
}

/// Paired hosts are told of every display that shows this computer the input that
/// it is plugged into, unless that was announced already; and nothing else. Where
/// this computer has no id, nothing is.
pub proof fn every_new_input_is_announced(
    before: Seq<AnnouncedInput>,
    settings: AppSettings,
    host_id: Seq<char>,
    after: Seq<AnnouncedInput>,
    actions: Seq<AgentAction>,
    k: int,
    input: DisplayInput,
)
    requires
        are_announced(before, settings, host_id, after, actions),
        0 <= k < settings.shared_monitors@.len(),
        forall|j: int, key: Seq<char>|
            0 <= j < settings.shared_monitors@.len() && j != k && is_keyed(
                settings.shared_monitors@[k].fingerprint@,
                key,
            ) ==> !#[trigger] is_keyed(
                (#[trigger] settings.shared_monitors@[j]).fingerprint@,
                key,
            ),
    ensures
        host_id.len() == 0 ==> actions.len() == 0 && after == before,
        host_id.len() > 0 && is_showing(settings.shared_monitors@[k], "local"@)
            && settings.shared_monitors@[k].local_input == Some(input) && !was_announced(
            before,
            settings.shared_monitors@[k].fingerprint@,
            input,
        ) ==> confirms(actions, host_id, settings.shared_monitors@[k].fingerprint, input),
        forall|a: int|
            0 <= a < actions.len() ==> {
                &&& (#[trigger] actions[a]) is LocalInputConfirmed
                &&& exists|j: int|
                    {
                        &&& 0 <= j < settings.shared_monitors@.len()
                        &&& is_showing(#[trigger] settings.shared_monitors@[j], "local"@)
                        &&& settings.shared_monitors@[j].local_input is Some
                        &&& confirms(
                            seq![actions[a]],
                            host_id,
                            settings.shared_monitors@[j].fingerprint,
                            settings.shared_monitors@[j].local_input->0,
                        )
                    }
            },
{
    if host_id.len() > 0 {
        let monitors = settings.shared_monitors@;
        let n = monitors.len() as int;
        let states = choose|states: Seq<Seq<AnnouncedInput>>|
            {
                &&& #[trigger] are_announcements(states, monitors)
                &&& states[0] == before
                &&& states.last() == after
                &&& notices_in(actions) == announced_notices(states, monitors, host_id, n)
            };
        let key = crate::settings::key_of(monitors[k].fingerprint@);
        assert(is_keyed(monitors[k].fingerprint@, key));
        assert forall|j: int| 0 <= j < monitors.len() && j != k implies crate::settings::key_of(
            (#[trigger] monitors[j]).fingerprint@,
        ) != key by {
            assert(!is_keyed(monitors[j].fingerprint@, key));
        }
        lemma_announcing(states, monitors, host_id, n, k);
        let told = announced_notices(states, monitors, host_id, n);
        assert(told.len() == actions.len());
        assert forall|a: int| 0 <= a < actions.len() implies {
            &&& (#[trigger] actions[a]) is LocalInputConfirmed
            &&& exists|j: int|
                {
                    &&& 0 <= j < monitors.len()
                    &&& is_showing(#[trigger] monitors[j], "local"@)
                    &&& monitors[j].local_input is Some
                    &&& confirms(
                        seq![actions[a]],
                        host_id,
                        monitors[j].fingerprint,
                        monitors[j].local_input->0,
                    )
                }
        } by {
            assert(notices_in(actions)[a] == notice_in(actions[a]));
            assert(told[a] == notice_in(actions[a]));
            let j = choose|j: int|
                {
                    &&& 0 <= j < monitors.len()
                    &&& is_showing(#[trigger] monitors[j], "local"@)
                    &&& monitors[j].local_input is Some
                    &&& told[a] == (Notice::Confirmed {
                        host_id,
                        monitor: monitors[j].fingerprint,
                        input: monitors[j].local_input->0,
                    })
                };
            assert(seq![actions[a]][0] == actions[a]);
            assert(is_showing(monitors[j], "local"@));
        }
        if is_showing(monitors[k], "local"@) && monitors[k].local_input == Some(input)
            && !was_announced(before, monitors[k].fingerprint@, input) {
            lemma_was_announced(before, monitors[k].fingerprint@, input);
            assert(is_news(states[0], monitors[k]));
            let wanted = Notice::Confirmed {
                host_id,
                monitor: monitors[k].fingerprint,
                input,
            };
            let a = choose|a: int| 0 <= a < told.len() && told[a] == wanted;
            assert(notices_in(actions)[a] == notice_in(actions[a]));
        }
    }
}

/// What the user's id names is the shared display under it, else the identity that
/// a claim is about, else the present display of that platform id.
pub proof fn an_id_names_its_display(
    locale: UiLocale,
    settings: AppSettings,
    key: Seq<char>,
    listed: Result<Vec<MonitorDescriptor>, DisplayMuxError>,
    result: Result<MonitorFingerprint, String>,
    m: int,
)
    requires
        is_named_identity(locale, settings, key, listed, result),
    ensures
        is_display_under(settings.shared_monitors@, key, m) ==> result is Ok && result->Ok_0
            == settings.shared_monitors@[m].fingerprint,
        (forall|j: int| 0 <= j < settings.shared_monitors@.len() ==> !is_keyed(
            (#[trigger] settings.shared_monitors@[j]).fingerprint@,
            key,
        )) && 0 <= m < settings.monitor_identity_links@.len() && is_keyed(
            settings.monitor_identity_links@[m].alias@,
            key,
        ) ==> result is Ok && is_keyed(result->Ok_0@, key),
        (forall|j: int| 0 <= j < settings.shared_monitors@.len() ==> !is_keyed(
            (#[trigger] settings.shared_monitors@[j]).fingerprint@,
            key,
        )) && (forall|j: int| 0 <= j < settings.monitor_identity_links@.len() ==> !is_keyed(
            (#[trigger] settings.monitor_identity_links@[j]).alias@,
            key,
        )) ==> match listed {
            Err(_) => result is Err,
            Ok(monitors) => {
                &&& 0 <= m < monitors@.len() && monitors@[m].id.text@ == key && (forall|j: int|
                    0 <= j < m ==> (#[trigger] monitors@[j]).id.text@ != key) ==> result is Ok
                    && result->Ok_0 == monitors@[m].fingerprint
                &&& (forall|j: int| 0 <= j < monitors@.len() ==> (
                #[trigger] monitors@[j]).id.text@ != key) ==> result is Err
            },
        },
{
    lemma_display_under(settings.shared_monitors@, key);
    let links = settings.monitor_identity_links@;
    let wanted = claims_key(key);
    lemma_first_at(links, wanted);
    if 0 <= m < links.len() && is_keyed(links[m].alias@, key) {
        assert(wanted(links[m]));
    }
    if listed is Ok {
        let monitors = listed->Ok_0@;
        let named = has_monitor_id(key);
        lemma_first_at(monitors, named);
        if first_at(monitors, named) < monitors.len() {
            assert(named(monitors[first_at(monitors, named)]));
        }
        if 0 <= m < monitors.len() && monitors[m].id.text@ == key && (forall|j: int|
            0 <= j < m ==> (#[trigger] monitors[j]).id.text@ != key) {
            lemma_first_at_is(monitors, named, m);
        }
    }
}

/// A host is asked with the password that was typed where it is long enough, else
/// with the saved one, and not at all without one of eight characters.
pub proof fn a_host_is_asked_with_a_long_enough_password(
    settings: AppSettings,
    given: Option<String>,
    key: Option<String>,
)
    requires
        is_pairing_key(settings, given, key),
    ensures
        given is Some && given->0@.len() >= 8 ==> key == given,
        (given is None || given->0@.len() < 8) && settings.shared_key@.len() >= 8 ==> key == Some(
            settings.shared_key,
        ),
        (given is None || given->0@.len() < 8) && settings.shared_key@.len() < 8 ==> key is None,
{
}

/// A host that asked for a switch or sent a notice hears that it is done exactly
/// where it is.
pub proof fn an_answer_says_whether_it_was_done(
    locale: UiLocale,
    vendor_indexed: bool,
    input: DisplayInput,
    outcome: Result<Result<SwitchOutcome, DisplayMuxError>, String>,
    applied: Result<(), String>,
    switched: AgentResponse,
    noticed: AgentResponse,
)
    requires
        is_switch_answer(locale, vendor_indexed, input, outcome, switched),
        is_notice_answer(locale, applied, noticed),
    ensures
        switched.ready <==> outcome is Ok && outcome->Ok_0 is Ok,
        noticed.ready <==> applied is Ok,
        switched.display_routes@.len() == 0 && noticed.display_routes@.len() == 0,
        switched.host_order@.len() == 0 && noticed.host_order@.len() == 0,
        applied is Err ==> noticed.message@ == applied->Err_0@,
{
}

/// The names by route are those of this computer and its peers, each under its
/// own route, and just of those that have one.
pub proof fn every_route_has_its_hosts_name(
    settings: AppSettings,
    local_host_id: Seq<char>,
    p: int,
    name: Seq<char>,
)
    requires
        0 <= p < settings.peers@.len(),
    ensures
        ({
            let names = names_of_routes(
                settings,
                local_host_id,
                settings.peers@.len() as int + 1,
            );
            &&& is_called(settings.host_aliases@, settings.peers@[p].id@, name) ==> names.contains(
                (settings.peers@[p].id@, name),
            )
            &&& is_called(settings.host_aliases@, local_host_id, name) ==> names.contains(
                ("local"@, name),
            )
            &&& forall|n: int|
                0 <= n < names.len() ==> (#[trigger] names[n]).0 == "local"@ && is_called(
                    settings.host_aliases@,
                    local_host_id,
                    names[n].1,
                ) || is_called(settings.host_aliases@, names[n].0, names[n].1)
        }),
{
    lemma_names(settings, local_host_id, settings.peers@.len() as int + 1, 0, name);
    lemma_names(settings, local_host_id, settings.peers@.len() as int + 1, p + 1, name);
}

proof fn lemma_names(
    settings: AppSettings,
    local_host_id: Seq<char>,
    n: int,
    r: int,
    name: Seq<char>,
)
    requires
        0 <= n <= settings.peers@.len() + 1,
        0 <= r <= settings.peers@.len(),
    ensures
        ({
            let names = names_of_routes(settings, local_host_id, n);
            let route = if r == 0 {
                "local"@
            } else {
                settings.peers@[r - 1].id@
            };
            let host = if r == 0 {
                local_host_id
            } else {
                route
            };
            &&& r < n && is_called(settings.host_aliases@, host, name) ==> names.contains(
                (route, name),
            )
            &&& forall|i: int|
                0 <= i < names.len() ==> (#[trigger] names[i]).0 == "local"@ && is_called(
                    settings.host_aliases@,
                    local_host_id,
                    names[i].1,
                ) || is_called(settings.host_aliases@, names[i].0, names[i].1)
        }),
    decreases n,
{
    if n > 0 {
        lemma_names(settings, local_host_id, n - 1, r, name);
        let before = names_of_routes(settings, local_host_id, n - 1);
        let names = names_of_routes(settings, local_host_id, n);
        let all = crate::host_order::all_routes(crate::sharing::peer_id_views(settings.peers@));
        let route = all[n - 1];
        if n > 1 {
            assert(route == settings.peers@[n - 2].id@);
        } else {
            assert(route == "local"@);
        }
        let host = if n == 1 {
            local_host_id
        } else {
            route
        };
        lemma_called(settings.host_aliases@, host);
        let wanted = if r == 0 {
            "local"@
        } else {
            settings.peers@[r - 1].id@
        };
        match crate::host_alias::alias_of(settings.host_aliases@, host) {
            Some(text) => {
                assert(names == before.push((route, text)));
                if before.contains((wanted, name)) {
                    let i = choose|i: int| 0 <= i < before.len() && before[i] == (wanted, name);
                    assert(names[i] == (wanted, name));
                }
                assert(names[before.len() as int] == (route, text));
            },
            None => {},
        }
    }
}

/// What hosts share is asked for again once thirty seconds have passed, and not
/// before.
pub proof fn hosts_are_asked_every_thirty_seconds(now_ms: u64, last_ms: u64, due: bool)
    requires
        is_due(now_ms, last_ms, due),
    ensures
        due <==> now_ms >= last_ms + 30000,
{
}

/// A paired host is behind where there is an order here and it changed later.
pub proof fn a_host_with_an_earlier_order_is_behind(
    settings: AppSettings,
    theirs_updated_at_ms: u64,
    newer: bool,
)
    requires
        is_ahead(settings, theirs_updated_at_ms, newer),
    ensures
        settings.host_order@.len() == 0 ==> !newer,
        settings.host_order@.len() > 0 ==> (newer <==> theirs_updated_at_ms
            < settings.host_order_updated_at_ms),
{
}

proof fn lemma_announced_once(
    states: Seq<Seq<AnnouncedInput>>,
    monitors: Seq<SelectedMonitor>,
    n: int,
    k: int,
)
    requires
        are_announcements(states, monitors),
        0 <= k < n <= monitors.len(),
        is_showing(monitors[k], "local"@),
        monitors[k].local_input is Some,
        forall|j: int|
            0 <= j < monitors.len() && j != k ==> crate::settings::key_of(
                (#[trigger] monitors[j]).fingerprint@,
            ) != crate::settings::key_of(monitors[k].fingerprint@),
    ensures
        announced_under(states[n], crate::settings::key_of(monitors[k].fingerprint@))
            == monitors[k].local_input,
    decreases n,
{
    let key = crate::settings::key_of(monitors[k].fingerprint@);
    let last = monitors[n - 1];
    assert(states[n - 1 + 1] == states[n]);
    let news = is_news(states[n - 1], last);
    if n - 1 == k {
        if news {
            crate::sharing::an_announced_input_is_no_news(states[k], monitors[k], states[n]);
        }
    } else {
        lemma_announced_once(states, monitors, n - 1, k);
        if news {
            lemma_other_key(
                states[n - 1],
                crate::settings::key_of(last.fingerprint@),
                last.local_input->0,
                states[n],
                key,
            );
        }
    }
}

/// What was announced is remembered, so that it is not announced again.
pub proof fn an_announced_input_is_remembered(
    before: Seq<AnnouncedInput>,
    settings: AppSettings,
    host_id: Seq<char>,
    after: Seq<AnnouncedInput>,
    actions: Seq<AgentAction>,
    k: int,
    input: DisplayInput,
)
    requires
        are_announced(before, settings, host_id, after, actions),
        host_id.len() > 0,
        0 <= k < settings.shared_monitors@.len(),
        forall|j: int, key: Seq<char>|
            0 <= j < settings.shared_monitors@.len() && j != k && is_keyed(
                settings.shared_monitors@[k].fingerprint@,
                key,
            ) ==> !#[trigger] is_keyed(
                (#[trigger] settings.shared_monitors@[j]).fingerprint@,
                key,
            ),
        is_showing(settings.shared_monitors@[k], "local"@),
        settings.shared_monitors@[k].local_input == Some(input),
    ensures
        was_announced(after, settings.shared_monitors@[k].fingerprint@, input),
{
    let monitors = settings.shared_monitors@;
    let n = monitors.len() as int;
    let states = choose|states: Seq<Seq<AnnouncedInput>>|
        {
            &&& #[trigger] are_announcements(states, monitors)
            &&& states[0] == before
            &&& states.last() == after
            &&& notices_in(actions) == announced_notices(states, monitors, host_id, n)
        };
    let key = crate::settings::key_of(monitors[k].fingerprint@);
    assert(is_keyed(monitors[k].fingerprint@, key));
    assert forall|j: int| 0 <= j < monitors.len() && j != k implies crate::settings::key_of(
        (#[trigger] monitors[j]).fingerprint@,
    ) != key by {
        assert(!is_keyed(monitors[j].fingerprint@, key));
    }
    lemma_announced_once(states, monitors, n, k);
    assert(states.last() == states[n]);
    lemma_was_announced(after, monitors[k].fingerprint@, input);
}

} // verus!
