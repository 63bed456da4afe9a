//! Which requests of paired hosts are carried out, and what their signatures cover.

use crate::agent::{
    action_tree, checked_at, is_admission, payload, payloads_tell_requests_apart, refusal,
    remembered, signature_of, Admission, AgentAction, AgentRequest,
};
use crate::auth::{hex_bytes, hmac_sha256, is_hex};
use crate::domain::{HostAlias, InputLabel, MonitorFingerprint, MonitorIdentityLink};
use crate::json::Tree;
use vstd::prelude::*;

verus! {

/// A request is carried out only where it could be read, its time is within thirty
/// seconds of this computer's, its signature is the tag of what it says under the
/// shared key, and no request with its nonce is remembered; and then just the
/// action that it names is. Any other is answered that it is refused, and leaves
/// what is remembered as it was.
pub proof fn only_a_fresh_signed_and_new_request_is_carried_out(
    admission: Admission,
    request: Option<AgentRequest>,
    key: Seq<u8>,
    now: u64,
    before: Seq<Seq<char>>,
    after: Seq<Seq<char>>,
)
    requires
        is_admission(
            admission,
            request,
            refusal(request, checked_at(request, key, now), before),
            before,
            after,
        ),
    ensures
        admission matches Admission::Admitted(action) ==> {
            &&& request is Some
            &&& action == request->0.action
            &&& now <= request->0.timestamp_seconds + 30
            &&& request->0.timestamp_seconds <= now + 30
            &&& is_hex(request->0.signature@)
            &&& hex_bytes(request->0.signature@) == hmac_sha256(
                key,
                payload(request->0.timestamp_seconds, request->0.nonce@, action),
            )
            &&& !before.contains(request->0.nonce@)
            &&& before.len() < 2048 ==> after == before.push(request->0.nonce@)
            &&& before.len() >= 2048 ==> after.len() == 0
        },
        admission matches Admission::Refused(response) ==> {
            &&& !response.ready
            &&& response.display_route is None
            &&& response.display_routes@.len() == 0
            &&& response.host_order@.len() == 0
            &&& response.host_aliases@.len() == 0
            &&& response.input_labels@.len() == 0
            &&& response.monitor_identity_links@.len() == 0
            &&& after == before
        },
        request is None ==> admission is Refused,
{
}

/// A request that a paired host signed with the shared key is carried out where it
/// arrives within thirty seconds, for the first time.
pub proof fn a_request_signed_with_the_key_is_carried_out(
    admission: Admission,
    request: AgentRequest,
    key: Seq<u8>,
    now: u64,
    before: Seq<Seq<char>>,
    after: Seq<Seq<char>>,
)
    requires
        is_admission(
            admission,
            Some(request),
            refusal(Some(request), checked_at(Some(request), key, now), before),
            before,
            after,
        ),
        request.signature@ == signature_of(
            request.timestamp_seconds,
            request.nonce@,
            request.action,
            key,
        ),
        now <= request.timestamp_seconds + 30,
        request.timestamp_seconds <= now + 30,
        !before.contains(request.nonce@),
    ensures
        admission == Admission::Admitted(request.action),
{
    crate::agent::a_signed_request_is_accepted_while_fresh(request, key, now);
}

/// Whether two fingerprints say the same.
pub open spec fn are_one_identity(a: MonitorFingerprint, b: MonitorFingerprint) -> bool {
    &&& a.manufacturer_id@ == b.manufacturer_id@
    &&& a.product_code@ == b.product_code@
    &&& match (a.serial_number, b.serial_number) {
        (Some(x), Some(y)) => x@ == y@,
        (None, None) => true,
        _ => false,
    }
}

/// Whether two names say the same.
pub open spec fn are_one_name(a: HostAlias, b: HostAlias) -> bool {
    a.host_id@ == b.host_id@ && a.name@ == b.name@ && a.updated_at_ms == b.updated_at_ms
}

/// Whether two notes say the same.
pub open spec fn are_one_note(a: InputLabel, b: InputLabel) -> bool {
    &&& are_one_identity(a.monitor, b.monitor)
    &&& a.input.code == b.input.code
    &&& a.label@ == b.label@
    &&& a.updated_at_ms == b.updated_at_ms
}

/// Whether two claims say the same.
pub open spec fn are_one_claim(a: MonitorIdentityLink, b: MonitorIdentityLink) -> bool {
    &&& are_one_identity(a.alias, b.alias)
    &&& match (a.primary, b.primary) {
        (Some(x), Some(y)) => are_one_identity(x, y),
        (None, None) => true,
        _ => false,
    }
    &&& a.updated_at_ms == b.updated_at_ms
}

/// Whether two actions ask for the same.
pub open spec fn are_one_action(a: AgentAction, b: AgentAction) -> bool {
    match (a, b) {
        (AgentAction::Ping, AgentAction::Ping) => true,
        (
            AgentAction::SwitchInput { monitor: m, input: x },
            AgentAction::SwitchInput { monitor: n, input: y },
        ) => x.code == y.code && match (m, n) {
            (Some(v), Some(w)) => are_one_identity(v, w),
            (None, None) => true,
            _ => false,
        },
        (
            AgentAction::ActiveInputChanged { monitor: m, input: x },
            AgentAction::ActiveInputChanged { monitor: n, input: y },
        ) => x.code == y.code && are_one_identity(m, n),
        (
            AgentAction::HostOrderChanged { order: v, updated_at_ms: x },
            AgentAction::HostOrderChanged { order: w, updated_at_ms: y },
        ) => x == y && v@.len() == w@.len() && forall|i: int|
            0 <= i < v@.len() ==> (#[trigger] v@[i])@ == w@[i]@,
        (
            AgentAction::HostAliasesChanged { aliases: v },
            AgentAction::HostAliasesChanged { aliases: w },
        ) => v@.len() == w@.len() && forall|i: int|
            0 <= i < v@.len() ==> are_one_name(#[trigger] v@[i], w@[i]),
        (
            AgentAction::InputLabelsChanged { labels: v },
            AgentAction::InputLabelsChanged { labels: w },
        ) => v@.len() == w@.len() && forall|i: int|
            0 <= i < v@.len() ==> are_one_note(#[trigger] v@[i], w@[i]),
        (
            AgentAction::MonitorIdentitiesChanged { links: v },
            AgentAction::MonitorIdentitiesChanged { links: w },
        ) => v@.len() == w@.len() && forall|i: int|
            0 <= i < v@.len() ==> are_one_claim(#[trigger] v@[i], w@[i]),
        (
            AgentAction::LocalInputConfirmed { host_id: h, monitor: m, input: x },
            AgentAction::LocalInputConfirmed { host_id: k, monitor: n, input: y },
        ) => h@ == k@ && x.code == y.code && are_one_identity(m, n),
        _ => false,
    }
}

proof fn lemma_identity_tree(a: MonitorFingerprint, b: MonitorFingerprint)
    requires
        crate::agent::identity_tree(a@) == crate::agent::identity_tree(b@),
    ensures
        are_one_identity(a, b),
{
    let x = crate::agent::identity_tree(a@)->Object_0;
    let y = crate::agent::identity_tree(b@)->Object_0;
    assert(x[0].1 == Tree::Text(a@.manufacturer) && y[0].1 == Tree::Text(b@.manufacturer));
    assert(x[1].1 == Tree::Text(a@.product) && y[1].1 == Tree::Text(b@.product));
    assert(x[2].1 == y[2].1);
    assert(x[2].1 == match a@.serial {
        Some(serial) => Tree::Text(serial),
        None => Tree::Null,
    });
    assert(y[2].1 == match b@.serial {
        Some(serial) => Tree::Text(serial),
        None => Tree::Null,
    });
}

proof fn lemma_alias_tree(a: HostAlias, b: HostAlias)
    requires
        crate::agent::alias_tree(a) == crate::agent::alias_tree(b),
    ensures
        are_one_name(a, b),
{
    let x = crate::agent::alias_tree(a)->Object_0;
    let y = crate::agent::alias_tree(b)->Object_0;
    assert(x[0].1 == Tree::Text(a.host_id@) && y[0].1 == Tree::Text(b.host_id@));
    assert(x[1].1 == Tree::Text(a.name@) && y[1].1 == Tree::Text(b.name@));
    assert(x[2].1 == Tree::Number(a.updated_at_ms as nat) && y[2].1 == Tree::Number(
        b.updated_at_ms as nat,
    ));
}

proof fn lemma_label_tree(a: InputLabel, b: InputLabel)
    requires
        crate::agent::label_tree(a) == crate::agent::label_tree(b),
    ensures
        are_one_note(a, b),
{
    let x = crate::agent::label_tree(a)->Object_0;
    let y = crate::agent::label_tree(b)->Object_0;
    assert(x[0].1 == crate::agent::identity_tree(a.monitor@) && y[0].1
        == crate::agent::identity_tree(b.monitor@));
    lemma_identity_tree(a.monitor, b.monitor);
    assert(x[1].1 == Tree::Number(a.input.code as nat) && y[1].1 == Tree::Number(
        b.input.code as nat,
    ));
    assert(x[2].1 == Tree::Text(a.label@) && y[2].1 == Tree::Text(b.label@));
    assert(x[3].1 == Tree::Number(a.updated_at_ms as nat) && y[3].1 == Tree::Number(
        b.updated_at_ms as nat,
    ));
}

proof fn lemma_link_tree(a: MonitorIdentityLink, b: MonitorIdentityLink)
    requires
        crate::agent::link_tree(a) == crate::agent::link_tree(b),
    ensures
        are_one_claim(a, b),
{
    let x = crate::agent::link_tree(a)->Object_0;
    let y = crate::agent::link_tree(b)->Object_0;
    assert(x[0].1 == crate::agent::identity_tree(a.alias@) && y[0].1
        == crate::agent::identity_tree(b.alias@));
    lemma_identity_tree(a.alias, b.alias);
    assert(x[1].1 == crate::agent::primary_tree(a.primary) && y[1].1 == crate::agent::primary_tree(
        b.primary,
    ));
    if let (Some(v), Some(w)) = (a.primary, b.primary) {
        lemma_identity_tree(v, w);
    }
    assert(x[2].1 == Tree::Number(a.updated_at_ms as nat) && y[2].1 == Tree::Number(
        b.updated_at_ms as nat,
    ));
}

/// Whether two actions are of one kind.
pub open spec fn are_one_kind(a: AgentAction, b: AgentAction) -> bool {
    match a {
        AgentAction::Ping => b is Ping,
        AgentAction::SwitchInput { .. } => b is SwitchInput,
        AgentAction::ActiveInputChanged { .. } => b is ActiveInputChanged,
        AgentAction::HostOrderChanged { .. } => b is HostOrderChanged,
        AgentAction::HostAliasesChanged { .. } => b is HostAliasesChanged,
        AgentAction::InputLabelsChanged { .. } => b is InputLabelsChanged,
        AgentAction::MonitorIdentitiesChanged { .. } => b is MonitorIdentitiesChanged,
        AgentAction::LocalInputConfirmed { .. } => b is LocalInputConfirmed,
    }
}

proof fn lemma_kind(a: AgentAction, b: AgentAction)
    requires
        action_tree(a) == action_tree(b),
    ensures
        are_one_kind(a, b),
{
    reveal_strlit("ping");
    reveal_strlit("switch_input");
    reveal_strlit("active_input_changed");
    reveal_strlit("host_order_changed");
    reveal_strlit("host_aliases_changed");
    reveal_strlit("input_labels_changed");
    reveal_strlit("monitor_identities_changed");
    reveal_strlit("local_input_confirmed");
    let x = crate::agent::action_fields(a);
    let y = crate::agent::action_fields(b);
    assert(x == y);
    assert(x[0].1 == y[0].1);
    let v = x[0].1->Text_0;
    let w = y[0].1->Text_0;
    assert(v == w);
    assert(v.len() == w.len() && v[0] == w[0] && v[5] == w[5]);
}

/// What a signature covers tells any two requests apart that differ in their time,
/// their nonce or anything that their actions ask for.
pub proof fn a_signature_covers_everything_asked_for(
    timestamp: u64,
    nonce: Seq<char>,
    action: AgentAction,
    other_timestamp: u64,
    other_nonce: Seq<char>,
    other_action: AgentAction,
)
    requires
        payload(timestamp, nonce, action) == payload(other_timestamp, other_nonce, other_action),
    ensures
        timestamp == other_timestamp,
        nonce == other_nonce,
        are_one_action(action, other_action),
{
    payloads_tell_requests_apart(
        timestamp,
        nonce,
        action,
        other_timestamp,
        other_nonce,
        other_action,
    );
    lemma_kind(action, other_action);
    lemma_one_action(action, other_action);
}

proof fn lemma_one_action(a: AgentAction, b: AgentAction)
    requires
        action_tree(a) == action_tree(b),
        are_one_kind(a, b),
    ensures
        are_one_action(a, b),
{
    let x = crate::agent::action_fields(a);
    let y = crate::agent::action_fields(b);
    assert(x == y);
    match (a, b) {
        (
            AgentAction::SwitchInput { monitor: m, input: i },
            AgentAction::SwitchInput { monitor: n, input: j },
        ) => {
            assert(x.len() == y.len());
            if let (Some(v), Some(w)) = (m, n) {
                assert(x[1].1 == crate::agent::identity_tree(v@) && y[1].1
                    == crate::agent::identity_tree(w@));
                lemma_identity_tree(v, w);
                assert(x[2].1 == Tree::Number(i.code as nat) && y[2].1 == Tree::Number(
                    j.code as nat,
                ));
            } else {
                assert(x[1].1 == y[1].1);
            }
        },
        (
            AgentAction::ActiveInputChanged { monitor: m, input: i },
            AgentAction::ActiveInputChanged { monitor: n, input: j },
        ) => {
            assert(x[1].1 == crate::agent::identity_tree(m@) && y[1].1
                == crate::agent::identity_tree(n@));
            lemma_identity_tree(m, n);
            assert(x[2].1 == Tree::Number(i.code as nat) && y[2].1 == Tree::Number(j.code as nat));
        },
        (
            AgentAction::HostOrderChanged { order: v, updated_at_ms: i },
            AgentAction::HostOrderChanged { order: w, updated_at_ms: j },
        ) => {
            let s = v@.map_values(|host: String| Tree::Text(host@));
            let t = w@.map_values(|host: String| Tree::Text(host@));
            assert(x[1].1 == Tree::List(s) && y[1].1 == Tree::List(t));
            assert(s.len() == v@.len() && t.len() == w@.len());
            assert(x[2].1 == Tree::Number(i as nat) && y[2].1 == Tree::Number(j as nat));
            assert forall|k: int| 0 <= k < v@.len() implies (#[trigger] v@[k])@ == w@[k]@ by {
                assert(s[k] == Tree::Text(v@[k]@) && t[k] == Tree::Text(w@[k]@));
            }
        },
        (
            AgentAction::HostAliasesChanged { aliases: v },
            AgentAction::HostAliasesChanged { aliases: w },
        ) => {
            let s = v@.map_values(|alias: HostAlias| crate::agent::alias_tree(alias));
            let t = w@.map_values(|alias: HostAlias| crate::agent::alias_tree(alias));
            assert(x[1].1 == Tree::List(s) && y[1].1 == Tree::List(t));
            assert(s.len() == v@.len() && t.len() == w@.len());
            assert forall|k: int| 0 <= k < v@.len() implies are_one_name(
                #[trigger] v@[k],
                w@[k],
            ) by {
                assert(s[k] == crate::agent::alias_tree(v@[k]) && t[k]
                    == crate::agent::alias_tree(w@[k]));
                lemma_alias_tree(v@[k], w@[k]);
            }
        },
        (
            AgentAction::InputLabelsChanged { labels: v },
            AgentAction::InputLabelsChanged { labels: w },
        ) => {
            let s = v@.map_values(|label: InputLabel| crate::agent::label_tree(label));
            let t = w@.map_values(|label: InputLabel| crate::agent::label_tree(label));
            assert(x[1].1 == Tree::List(s) && y[1].1 == Tree::List(t));
            assert(s.len() == v@.len() && t.len() == w@.len());
            assert forall|k: int| 0 <= k < v@.len() implies are_one_note(
                #[trigger] v@[k],
                w@[k],
            ) by {
                assert(s[k] == crate::agent::label_tree(v@[k]) && t[k]
                    == crate::agent::label_tree(w@[k]));
                lemma_label_tree(v@[k], w@[k]);
            }
        },
        (
            AgentAction::MonitorIdentitiesChanged { links: v },
            AgentAction::MonitorIdentitiesChanged { links: w },
        ) => {
            let s = v@.map_values(|link: MonitorIdentityLink| crate::agent::link_tree(link));
            let t = w@.map_values(|link: MonitorIdentityLink| crate::agent::link_tree(link));
            assert(x[1].1 == Tree::List(s) && y[1].1 == Tree::List(t));
            assert(s.len() == v@.len() && t.len() == w@.len());
            assert forall|k: int| 0 <= k < v@.len() implies are_one_claim(
                #[trigger] v@[k],
                w@[k],
            ) by {
                assert(s[k] == crate::agent::link_tree(v@[k]) && t[k] == crate::agent::link_tree(
                    w@[k],
                ));
                lemma_link_tree(v@[k], w@[k]);
            }
        },
        (
            AgentAction::LocalInputConfirmed { host_id: h, monitor: m, input: i },
            AgentAction::LocalInputConfirmed { host_id: g, monitor: n, input: j },
        ) => {
            assert(x[1].1 == Tree::Text(h@) && y[1].1 == Tree::Text(g@));
            assert(x[2].1 == crate::agent::identity_tree(m@) && y[2].1
                == crate::agent::identity_tree(n@));
            lemma_identity_tree(m, n);
            assert(x[3].1 == Tree::Number(i.code as nat) && y[3].1 == Tree::Number(j.code as nat));
        },
        _ => {},
    }
}

} // verus!
