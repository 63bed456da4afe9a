//! What paired hosts ask of each other, how a request is signed, and which
//! requests are answered.

use crate::auth::{
    hex_bytes, hex_decode, hex_encode, hex_round_trip, hmac_sha256, is_hex, lower_hex, tag_of,
    verifies,
};
use crate::clock::unix_time;
use crate::domain::{
    DisplayInput, HostAlias, Identity, InputLabel, MonitorFingerprint, MonitorIdentityLink,
};
use crate::error::DisplayMuxError;
use crate::json::{
    json_list, json_number, json_object, json_text, render, render_fields, render_items,
    rendering_is_injective, with_field, with_item, Tree,
};
use crate::text::{contains_text, join2, trim, trimmed, views};
use vstd::prelude::*;
use vstd::string::StrSliceExecFns;
use vstd::utf8::{encode_utf8, encode_utf8_decode_utf8};

verus! {

pub const DEFAULT_AGENT_PORT: u16 = 47653;

/// Bumped whenever the agent wire protocol gains a field that changes how a
/// request must be interpreted (not just an additive/ignorable one). A peer
/// reporting a version below this may not understand per-monitor requests.
pub const AGENT_PROTOCOL_VERSION: u32 = 2;

/// How far the time of a request may be from this computer's, in seconds.
pub const MAX_CLOCK_SKEW_SECONDS: u64 = 30;

/// Longest request read, in bytes.
pub const MAX_PACKET_BYTES: u64 = 8192;

/// How many nonces are remembered before they are forgotten together.
pub const MAX_SEEN_NONCES: usize = 2048;

/// What one host asks of another.
#[allow(inconsistent_fields)]
#[derive(Clone, Debug, PartialEq, Eq)]
pub enum AgentAction {
    Ping,
    SwitchInput {
        /// Which shared monitor to switch. `None` is the shape before version
        /// 2: the receiving agent must have exactly one shared monitor selected
        /// to accept it unambiguously (see `AGENT_PROTOCOL_VERSION`).
        monitor: Option<MonitorFingerprint>,
        input: DisplayInput,
    },
    /// Best-effort notice that a paired host just switched `monitor` to
    /// `input`, so the receiver can update which host it shows as active.
    /// Agents older than this variant reject the request; senders ignore that.
    ActiveInputChanged { monitor: MonitorFingerprint, input: DisplayInput },
    /// The host cards were put in another order.
    HostOrderChanged { order: Vec<String>, updated_at_ms: u64 },
    /// Hosts were renamed.
    HostAliasesChanged { aliases: Vec<HostAlias> },
    /// Notes on inputs changed.
    InputLabelsChanged { labels: Vec<InputLabel> },
    /// Claims about display identities changed.
    MonitorIdentitiesChanged { links: Vec<MonitorIdentityLink> },
    /// The sender read which input of `monitor` it is plugged into.
    LocalInputConfirmed { host_id: String, monitor: MonitorFingerprint, input: DisplayInput },
}

/// The JSON value of a display identity.
pub open spec fn identity_tree(identity: Identity) -> Tree {
    Tree::Object(
        Seq::empty().push(("manufacturer_id"@, Tree::Text(identity.manufacturer))).push(
            ("product_code"@, Tree::Text(identity.product)),
        ).push(
            (
                "serial_number"@,
                match identity.serial {
                    Some(serial) => Tree::Text(serial),
                    None => Tree::Null,
                },
            ),
        ),
    )
}

/// The JSON value of an input.
pub open spec fn input_tree(input: DisplayInput) -> Tree {
    Tree::Number(input.code as nat)
}

/// The JSON value of a custom host name.
pub open spec fn alias_tree(alias: HostAlias) -> Tree {
    Tree::Object(
        Seq::empty().push(("hostId"@, Tree::Text(alias.host_id@))).push(
            ("name"@, Tree::Text(alias.name@)),
        ).push(("updatedAtMs"@, Tree::Number(alias.updated_at_ms as nat))),
    )
}

/// The JSON value of a note on an input.
pub open spec fn label_tree(label: InputLabel) -> Tree {
    Tree::Object(
        Seq::empty().push(("monitor"@, identity_tree(label.monitor@))).push(
            ("input"@, input_tree(label.input)),
        ).push(("label"@, Tree::Text(label.label@))).push(
            ("updatedAtMs"@, Tree::Number(label.updated_at_ms as nat)),
        ),
    )
}

/// The JSON value of what an identity is claimed to be.
pub open spec fn primary_tree(primary: Option<MonitorFingerprint>) -> Tree {
    match primary {
        Some(fingerprint) => identity_tree(fingerprint@),
        None => Tree::Null,
    }
}

/// The JSON value of a claim about a display identity.
pub open spec fn link_tree(link: MonitorIdentityLink) -> Tree {
    Tree::Object(
        Seq::empty().push(("alias"@, identity_tree(link.alias@))).push(
            ("primary"@, primary_tree(link.primary)),
        ).push(("updatedAtMs"@, Tree::Number(link.updated_at_ms as nat))),
    )
}

/// The fields of an action, behind the one that names its kind.
pub open spec fn action_fields(action: AgentAction) -> Seq<(Seq<char>, Tree)> {
    let start = Seq::<(Seq<char>, Tree)>::empty();
    match action {
        AgentAction::Ping => start.push(("type"@, Tree::Text("ping"@))),
        AgentAction::SwitchInput { monitor, input } => {
            let kind = start.push(("type"@, Tree::Text("switch_input"@)));
            match monitor {
                Some(fingerprint) => kind.push(("monitor"@, identity_tree(fingerprint@))),
                None => kind,
            }.push(("input"@, input_tree(input)))
        },
        AgentAction::ActiveInputChanged { monitor, input } => start.push(
            ("type"@, Tree::Text("active_input_changed"@)),
        ).push(("monitor"@, identity_tree(monitor@))).push(("input"@, input_tree(input))),
        AgentAction::HostOrderChanged { order, updated_at_ms } => start.push(
            ("type"@, Tree::Text("host_order_changed"@)),
        ).push(
            ("order"@, Tree::List(order@.map_values(|host: String| Tree::Text(host@)))),
        ).push(("updated_at_ms"@, Tree::Number(updated_at_ms as nat))),
        AgentAction::HostAliasesChanged { aliases } => start.push(
            ("type"@, Tree::Text("host_aliases_changed"@)),
        ).push(
            ("aliases"@, Tree::List(aliases@.map_values(|alias: HostAlias| alias_tree(alias)))),
        ),
        AgentAction::InputLabelsChanged { labels } => start.push(
            ("type"@, Tree::Text("input_labels_changed"@)),
        ).push(
            ("labels"@, Tree::List(labels@.map_values(|label: InputLabel| label_tree(label)))),
        ),
        AgentAction::MonitorIdentitiesChanged { links } => start.push(
            ("type"@, Tree::Text("monitor_identities_changed"@)),
        ).push(
            ("links"@, Tree::List(links@.map_values(|link: MonitorIdentityLink| link_tree(link)))),
        ),
        AgentAction::LocalInputConfirmed { host_id, monitor, input } => start.push(
            ("type"@, Tree::Text("local_input_confirmed"@)),
        ).push(("host_id"@, Tree::Text(host_id@))).push(
            ("monitor"@, identity_tree(monitor@)),
        ).push(("input"@, input_tree(input))),
    }
}

/// The JSON value of an action.
pub open spec fn action_tree(action: AgentAction) -> Tree {
    Tree::Object(action_fields(action))
}

fn identity_text(fingerprint: &MonitorFingerprint) -> (text: String)
    ensures
        text@ == render(identity_tree(fingerprint@)),
{
    let ghost f0 = Seq::<(Seq<char>, Tree)>::empty();
    let maker = json_text(&fingerprint.manufacturer_id);
    let ghost t1 = Tree::Text(fingerprint@.manufacturer);
    let fields = with_field(String::new(), "manufacturer_id", &maker, Ghost(f0), Ghost(t1));
    let ghost f1 = f0.push(("manufacturer_id"@, t1));
    let product = json_text(&fingerprint.product_code);
    let ghost t2 = Tree::Text(fingerprint@.product);
    let fields = with_field(fields, "product_code", &product, Ghost(f1), Ghost(t2));
    let ghost f2 = f1.push(("product_code"@, t2));
    let serial = match &fingerprint.serial_number {
        Some(serial) => json_text(serial),
        None => "null".to_owned(),
    };
    let ghost t3 = match fingerprint@.serial {
        Some(serial) => Tree::Text(serial),
        None => Tree::Null,
    };
    let fields = with_field(fields, "serial_number", &serial, Ghost(f2), Ghost(t3));
    json_object(&fields, Ghost(f2.push(("serial_number"@, t3))))
}

fn alias_text(alias: &HostAlias) -> (text: String)
    ensures
        text@ == render(alias_tree(*alias)),
{
    let ghost f0 = Seq::<(Seq<char>, Tree)>::empty();
    let host = json_text(&alias.host_id);
    let ghost t1 = Tree::Text(alias.host_id@);
    let fields = with_field(String::new(), "hostId", &host, Ghost(f0), Ghost(t1));
    let ghost f1 = f0.push(("hostId"@, t1));
    let name = json_text(&alias.name);
    let ghost t2 = Tree::Text(alias.name@);
    let fields = with_field(fields, "name", &name, Ghost(f1), Ghost(t2));
    let ghost f2 = f1.push(("name"@, t2));
    let at = json_number(alias.updated_at_ms);
    let ghost t3 = Tree::Number(alias.updated_at_ms as nat);
    let fields = with_field(fields, "updatedAtMs", &at, Ghost(f2), Ghost(t3));
    json_object(&fields, Ghost(f2.push(("updatedAtMs"@, t3))))
}

fn label_text(label: &InputLabel) -> (text: String)
    ensures
        text@ == render(label_tree(*label)),
{
    let ghost f0 = Seq::<(Seq<char>, Tree)>::empty();
    let monitor = identity_text(&label.monitor);
    let ghost t1 = identity_tree(label.monitor@);
    let fields = with_field(String::new(), "monitor", &monitor, Ghost(f0), Ghost(t1));
    let ghost f1 = f0.push(("monitor"@, t1));
    let input = json_number(label.input.value() as u64);
    let ghost t2 = input_tree(label.input);
    let fields = with_field(fields, "input", &input, Ghost(f1), Ghost(t2));
    let ghost f2 = f1.push(("input"@, t2));
    let note = json_text(&label.label);
    let ghost t3 = Tree::Text(label.label@);
    let fields = with_field(fields, "label", &note, Ghost(f2), Ghost(t3));
    let ghost f3 = f2.push(("label"@, t3));
    let at = json_number(label.updated_at_ms);
    let ghost t4 = Tree::Number(label.updated_at_ms as nat);
    let fields = with_field(fields, "updatedAtMs", &at, Ghost(f3), Ghost(t4));
    json_object(&fields, Ghost(f3.push(("updatedAtMs"@, t4))))
}

fn link_text(link: &MonitorIdentityLink) -> (text: String)
    ensures
        text@ == render(link_tree(*link)),
{
    let ghost f0 = Seq::<(Seq<char>, Tree)>::empty();
    let alias = identity_text(&link.alias);
    let ghost t1 = identity_tree(link.alias@);
    let fields = with_field(String::new(), "alias", &alias, Ghost(f0), Ghost(t1));
    let ghost f1 = f0.push(("alias"@, t1));
    let primary = match &link.primary {
        Some(primary) => identity_text(primary),
        None => "null".to_owned(),
    };
    let ghost t2 = primary_tree(link.primary);
    let fields = with_field(fields, "primary", &primary, Ghost(f1), Ghost(t2));
    let ghost f2 = f1.push(("primary"@, t2));
    let at = json_number(link.updated_at_ms);
    let ghost t3 = Tree::Number(link.updated_at_ms as nat);
    let fields = with_field(fields, "updatedAtMs", &at, Ghost(f2), Ghost(t3));
    json_object(&fields, Ghost(f2.push(("updatedAtMs"@, t3))))
}

fn order_text(order: &Vec<String>) -> (text: String)
    ensures
        text@ == render(Tree::List(order@.map_values(|host: String| Tree::Text(host@)))),
{
    let ghost trees = order@.map_values(|host: String| Tree::Text(host@));
    let mut items = String::new();
    let mut i: usize = 0;
    while i < order.len()
        invariant
            i <= order@.len(),
            trees == order@.map_values(|host: String| Tree::Text(host@)),
            items@ == render_items(trees.take(i as int)),
        decreases order@.len() - i,
    {
        let item = json_text(&order[i]);
        items = with_item(items, &item, Ghost(trees.take(i as int)), Ghost(trees[i as int]));
        assert(trees.take(i + 1) =~= trees.take(i as int).push(trees[i as int]));
        i += 1;
    }
    assert(trees.take(trees.len() as int) =~= trees);
    json_list(&items, Ghost(trees))
}

fn aliases_text(aliases: &Vec<HostAlias>) -> (text: String)
    ensures
        text@ == render(Tree::List(aliases@.map_values(|alias: HostAlias| alias_tree(alias)))),
{
    let ghost trees = aliases@.map_values(|alias: HostAlias| alias_tree(alias));
    let mut items = String::new();
    let mut i: usize = 0;
    while i < aliases.len()
        invariant
            i <= aliases@.len(),
            trees == aliases@.map_values(|alias: HostAlias| alias_tree(alias)),
            items@ == render_items(trees.take(i as int)),
        decreases aliases@.len() - i,
    {
        let item = alias_text(&aliases[i]);
        items = with_item(items, &item, Ghost(trees.take(i as int)), Ghost(trees[i as int]));
        assert(trees.take(i + 1) =~= trees.take(i as int).push(trees[i as int]));
        i += 1;
    }
    assert(trees.take(trees.len() as int) =~= trees);
    json_list(&items, Ghost(trees))
}

fn labels_text(labels: &Vec<InputLabel>) -> (text: String)
    ensures
        text@ == render(Tree::List(labels@.map_values(|label: InputLabel| label_tree(label)))),
{
    let ghost trees = labels@.map_values(|label: InputLabel| label_tree(label));
    let mut items = String::new();
    let mut i: usize = 0;
    while i < labels.len()
        invariant
            i <= labels@.len(),
            trees == labels@.map_values(|label: InputLabel| label_tree(label)),
            items@ == render_items(trees.take(i as int)),
        decreases labels@.len() - i,
    {
        let item = label_text(&labels[i]);
        items = with_item(items, &item, Ghost(trees.take(i as int)), Ghost(trees[i as int]));
        assert(trees.take(i + 1) =~= trees.take(i as int).push(trees[i as int]));
        i += 1;
    }
    assert(trees.take(trees.len() as int) =~= trees);
    json_list(&items, Ghost(trees))
}

fn links_text(links: &Vec<MonitorIdentityLink>) -> (text: String)
    ensures
        text@ == render(Tree::List(links@.map_values(|link: MonitorIdentityLink| link_tree(link)))),
{
    let ghost trees = links@.map_values(|link: MonitorIdentityLink| link_tree(link));
    let mut items = String::new();
    let mut i: usize = 0;
    while i < links.len()
        invariant
            i <= links@.len(),
            trees == links@.map_values(|link: MonitorIdentityLink| link_tree(link)),
            items@ == render_items(trees.take(i as int)),
        decreases links@.len() - i,
    {
        let item = link_text(&links[i]);
        items = with_item(items, &item, Ghost(trees.take(i as int)), Ghost(trees[i as int]));
        assert(trees.take(i + 1) =~= trees.take(i as int).push(trees[i as int]));
        i += 1;
    }
    assert(trees.take(trees.len() as int) =~= trees);
    json_list(&items, Ghost(trees))
}

/// The field that names the kind of an action.
fn kind_field(kind: &str) -> (fields: String)
    ensures
        fields@ == render_fields(
            Seq::<(Seq<char>, Tree)>::empty().push(("type"@, Tree::Text(kind@))),
        ),
{
    let name = json_text(kind);
    with_field(
        String::new(),
        "type",
        &name,
        Ghost(Seq::<(Seq<char>, Tree)>::empty()),
        Ghost(Tree::Text(kind@)),
    )
}

/// The fields of a display and one of its inputs, behind `fields`.
fn monitor_and_input(
    fields: String,
    monitor: &MonitorFingerprint,
    input: DisplayInput,
    Ghost(f): Ghost<Seq<(Seq<char>, Tree)>>,
) -> (result: String)
    requires
        fields@ == render_fields(f),
    ensures
        result@ == render_fields(
            f.push(("monitor"@, identity_tree(monitor@))).push(("input"@, input_tree(input))),
        ),
{
    let display = identity_text(monitor);
    let ghost t1 = identity_tree(monitor@);
    let fields = with_field(fields, "monitor", &display, Ghost(f), Ghost(t1));
    let number = json_number(input.value() as u64);
    with_field(
        fields,
        "input",
        &number,
        Ghost(f.push(("monitor"@, t1))),
        Ghost(input_tree(input)),
    )
}

/// The JSON text of an action.
pub fn action_text(action: &AgentAction) -> (text: String)
    ensures
        text@ == render(action_tree(*action)),
{
    let ghost start = Seq::<(Seq<char>, Tree)>::empty();
    let fields = match action {
        AgentAction::Ping => kind_field("ping"),
        AgentAction::SwitchInput { monitor, input } => {
            let fields = kind_field("switch_input");
            let ghost kind = start.push(("type"@, Tree::Text("switch_input"@)));
            match monitor {
                Some(fingerprint) => monitor_and_input(fields, fingerprint, *input, Ghost(kind)),
                None => {
                    let number = json_number(input.value() as u64);
                    with_field(fields, "input", &number, Ghost(kind), Ghost(input_tree(*input)))
                },
            }
        },
        AgentAction::ActiveInputChanged { monitor, input } => {
            let fields = kind_field("active_input_changed");
            let ghost kind = start.push(("type"@, Tree::Text("active_input_changed"@)));
            monitor_and_input(fields, monitor, *input, Ghost(kind))
        },
        AgentAction::HostOrderChanged { order, updated_at_ms } => {
            let fields = kind_field("host_order_changed");
            let ghost kind = start.push(("type"@, Tree::Text("host_order_changed"@)));
            let list = order_text(order);
            let ghost t1 = Tree::List(order@.map_values(|host: String| Tree::Text(host@)));
            let fields = with_field(fields, "order", &list, Ghost(kind), Ghost(t1));
            let at = json_number(*updated_at_ms);
            with_field(
                fields,
                "updated_at_ms",
                &at,
                Ghost(kind.push(("order"@, t1))),
                Ghost(Tree::Number(*updated_at_ms as nat)),
            )
        },
        AgentAction::HostAliasesChanged { aliases } => {
            let fields = kind_field("host_aliases_changed");
            let ghost kind = start.push(("type"@, Tree::Text("host_aliases_changed"@)));
            let list = aliases_text(aliases);
            let ghost t1 = Tree::List(aliases@.map_values(|alias: HostAlias| alias_tree(alias)));
            with_field(fields, "aliases", &list, Ghost(kind), Ghost(t1))
        },
        AgentAction::InputLabelsChanged { labels } => {
            let fields = kind_field("input_labels_changed");
            let ghost kind = start.push(("type"@, Tree::Text("input_labels_changed"@)));
            let list = labels_text(labels);
            let ghost t1 = Tree::List(labels@.map_values(|label: InputLabel| label_tree(label)));
            with_field(fields, "labels", &list, Ghost(kind), Ghost(t1))
        },
        AgentAction::MonitorIdentitiesChanged { links } => {
            let fields = kind_field("monitor_identities_changed");
            let ghost kind = start.push(("type"@, Tree::Text("monitor_identities_changed"@)));
            let list = links_text(links);
            let ghost t1 = Tree::List(
                links@.map_values(|link: MonitorIdentityLink| link_tree(link)),
            );
            with_field(fields, "links", &list, Ghost(kind), Ghost(t1))
        },
        AgentAction::LocalInputConfirmed { host_id, monitor, input } => {
            let fields = kind_field("local_input_confirmed");
            let ghost kind = start.push(("type"@, Tree::Text("local_input_confirmed"@)));
            let host = json_text(host_id);
            let ghost t1 = Tree::Text(host_id@);
            let fields = with_field(fields, "host_id", &host, Ghost(kind), Ghost(t1));
            monitor_and_input(fields, monitor, *input, Ghost(kind.push(("host_id"@, t1))))
        },
    };
    json_object(&fields, Ghost(action_fields(*action)))
}

/// What a signature covers: the time, the nonce and the action.
pub open spec fn payload_tree(timestamp: u64, nonce: Seq<char>, action: AgentAction) -> Tree {
    Tree::List(
        Seq::empty().push(Tree::Number(timestamp as nat)).push(Tree::Text(nonce)).push(
            action_tree(action),
        ),
    )
}

/// The bytes that a signature covers.
pub open spec fn payload(timestamp: u64, nonce: Seq<char>, action: AgentAction) -> Seq<u8> {
    encode_utf8(render(payload_tree(timestamp, nonce, action)))
}

fn signing_payload(timestamp_seconds: u64, nonce: &str, action: &AgentAction) -> (bytes: Vec<u8>)
    ensures
        bytes@ == payload(timestamp_seconds, nonce@, *action),
{
    let ghost i0 = Seq::<Tree>::empty();
    let time = json_number(timestamp_seconds);
    let ghost t1 = Tree::Number(timestamp_seconds as nat);
    let items = with_item(String::new(), &time, Ghost(i0), Ghost(t1));
    let name = json_text(nonce);
    let ghost t2 = Tree::Text(nonce@);
    let items = with_item(items, &name, Ghost(i0.push(t1)), Ghost(t2));
    let asked = action_text(action);
    let ghost t3 = action_tree(*action);
    let items = with_item(items, &asked, Ghost(i0.push(t1).push(t2)), Ghost(t3));
    let list = json_list(&items, Ghost(i0.push(t1).push(t2).push(t3)));
    list.as_str().as_bytes_vec()
}

/// Requests that differ in time, nonce or action are signed over different
/// bytes.
pub proof fn payloads_tell_requests_apart(
    timestamp: u64,
    nonce: Seq<char>,
    action: AgentAction,
    other_timestamp: u64,
    other_nonce: Seq<char>,
    other_action: AgentAction,
)
    requires
        payload(timestamp, nonce, action) == payload(other_timestamp, other_nonce, other_action),
    ensures
        timestamp == other_timestamp,
        nonce == other_nonce,
        action_tree(action) == action_tree(other_action),
{
    let a = payload_tree(timestamp, nonce, action);
    let b = payload_tree(other_timestamp, other_nonce, other_action);
    encode_utf8_decode_utf8(render(a));
    encode_utf8_decode_utf8(render(b));
    rendering_is_injective(a, b);
    let x = a->List_0;
    let y = b->List_0;
    assert(x[0] == y[0] && x[1] == y[1] && x[2] == y[2]);
}

/// The signature of a request.
pub open spec fn signature_of(
    timestamp: u64,
    nonce: Seq<char>,
    action: AgentAction,
    key: Seq<u8>,
) -> Seq<char> {
    lower_hex(hmac_sha256(key, payload(timestamp, nonce, action)))
}

fn sign(timestamp_seconds: u64, nonce: &str, action: &AgentAction, shared_key: &[u8]) -> (result:
    Result<String, DisplayMuxError>)
    ensures
        result is Ok,
        result->Ok_0@ == signature_of(timestamp_seconds, nonce@, *action, shared_key@),
{
    let message = signing_payload(timestamp_seconds, nonce, action);
    match tag_of(shared_key, &message) {
        Ok(tag) => Ok(hex_encode(&tag)),
        Err(_) => Err(DisplayMuxError::AuthenticationFailed),
    }
}

/// A signed request.
#[derive(Clone, Debug, PartialEq, Eq)]
pub struct AgentRequest {
    pub timestamp_seconds: u64,
    pub nonce: String,
    pub action: AgentAction,
    pub signature: String,
}

/// Whether a request's time is close enough to this computer's.
pub open spec fn is_fresh(timestamp: u64, now: u64) -> bool {
    -MAX_CLOCK_SKEW_SECONDS <= now - timestamp <= MAX_CLOCK_SKEW_SECONDS
}

/// Whether a signature is the tag of what it covers.
pub open spec fn is_authentic(
    timestamp: u64,
    nonce: Seq<char>,
    action: AgentAction,
    signature: Seq<char>,
    key: Seq<u8>,
) -> bool {
    is_hex(signature) && hex_bytes(signature) == hmac_sha256(
        key,
        payload(timestamp, nonce, action),
    )
}

impl AgentRequest {
    /// Whether the request is signed with the key.
    pub open spec fn authentic(self, key: Seq<u8>) -> bool {
        is_authentic(self.timestamp_seconds, self.nonce@, self.action, self.signature@, key)
    }

    /// What checking the request at a given time comes to: its age is looked at
    /// before its signature.
    pub open spec fn verdict(self, key: Seq<u8>, now: u64) -> Result<(), DisplayMuxError> {
        if !is_fresh(self.timestamp_seconds, now) {
            Err(DisplayMuxError::StaleRequest)
        } else if self.authentic(key) {
            Ok(())
        } else {
            Err(DisplayMuxError::AuthenticationFailed)
        }
    }

    /// A request made and signed at `now`.
    pub fn signed_at(action: AgentAction, nonce: &str, shared_key: &[u8], now: u64) -> (result:
        Result<Self, DisplayMuxError>)
        ensures
            result is Ok,
            result->Ok_0.timestamp_seconds == now,
            result->Ok_0.nonce@ == nonce@,
            result->Ok_0.action == action,
            result->Ok_0.signature@ == signature_of(now, nonce@, action, shared_key@),
    {
        match sign(now, nonce, &action, shared_key) {
            Ok(signature) => Ok(
                AgentRequest { timestamp_seconds: now, nonce: nonce.to_owned(), action, signature },
            ),
            Err(error) => Err(error),
        }
    }

    /// A request made and signed now. Fails only where the clock cannot be
    /// read.
    pub fn signed(action: AgentAction, nonce: &str, shared_key: &[u8]) -> (result: Result<
        Self,
        DisplayMuxError,
    >)
        ensures
            match result {
                Ok(request) => {
                    &&& request.nonce@ == nonce@
                    &&& request.action == action
                    &&& request.signature@ == signature_of(
                        request.timestamp_seconds,
                        nonce@,
                        action,
                        shared_key@,
                    )
                },
                Err(error) => error is Backend,
            },
    {
        match unix_time() {
            Ok(now) => Self::signed_at(action, nonce, shared_key, now),
            Err(error) => Err(error),
        }
    }

    /// Checks the request's age and signature at `now`.
    pub fn verify_at(&self, shared_key: &[u8], now: u64) -> (result: Result<(), DisplayMuxError>)
        ensures
            result == self.verdict(shared_key@, now),
    {
        let skew: u64 = if now >= self.timestamp_seconds {
            now - self.timestamp_seconds
        } else {
            self.timestamp_seconds - now
        };
        if skew > MAX_CLOCK_SKEW_SECONDS {
            return Err(DisplayMuxError::StaleRequest);
        }
        let supplied = match hex_decode(&self.signature) {
            Ok(bytes) => bytes,
            Err(_) => return Err(DisplayMuxError::AuthenticationFailed),
        };
        let message = signing_payload(self.timestamp_seconds, &self.nonce, &self.action);
        match verifies(shared_key, &message, &supplied) {
            Ok(true) => Ok(()),
            _ => Err(DisplayMuxError::AuthenticationFailed),
        }
    }

    /// Checks the request's age and signature now.
    pub fn verify(&self, shared_key: &[u8]) -> (result: Result<(), DisplayMuxError>)
        ensures
            result is Ok ==> self.authentic(shared_key@),
            (result matches Err(error) && error is Backend) || exists|now: u64|
                result == #[trigger] self.verdict(shared_key@, now),
    {
        match unix_time() {
            Ok(now) => self.verify_at(shared_key, now),
            Err(error) => Err(error),
        }
    }
}

/// A signed request is accepted with the same key as long as the clocks agree
/// within the allowed skew, and is stale otherwise.
pub proof fn a_signed_request_is_accepted_while_fresh(
    request: AgentRequest,
    key: Seq<u8>,
    now: u64,
)
    requires
        request.signature@ == signature_of(
            request.timestamp_seconds,
            request.nonce@,
            request.action,
            key,
        ),
    ensures
        request.verdict(key, now) == if is_fresh(request.timestamp_seconds, now) {
            Ok::<(), DisplayMuxError>(())
        } else {
            Err(DisplayMuxError::StaleRequest)
        },
{
    hex_round_trip(
        hmac_sha256(key, payload(request.timestamp_seconds, request.nonce@, request.action)),
    );
}

/// A request whose time, nonce or action was changed after it was signed is a
/// different message. It is stale where its time is off, and fails the
/// authentication otherwise, unless the tags of the two messages coincide.
pub proof fn a_tampered_request_is_refused(
    signed: AgentRequest,
    tampered: AgentRequest,
    key: Seq<u8>,
    now: u64,
)
    requires
        signed.signature@ == signature_of(
            signed.timestamp_seconds,
            signed.nonce@,
            signed.action,
            key,
        ),
        tampered.signature@ == signed.signature@,
        tampered.timestamp_seconds != signed.timestamp_seconds || tampered.nonce@ != signed.nonce@
            || action_tree(tampered.action) != action_tree(signed.action),
    ensures
        payload(tampered.timestamp_seconds, tampered.nonce@, tampered.action) != payload(
            signed.timestamp_seconds,
            signed.nonce@,
            signed.action,
        ),
        tampered.verdict(key, now) == if !is_fresh(tampered.timestamp_seconds, now) {
            Err::<(), DisplayMuxError>(DisplayMuxError::StaleRequest)
        } else if hmac_sha256(
            key,
            payload(tampered.timestamp_seconds, tampered.nonce@, tampered.action),
        ) != hmac_sha256(key, payload(signed.timestamp_seconds, signed.nonce@, signed.action)) {
            Err(DisplayMuxError::AuthenticationFailed)
        } else {
            Ok(())
        },
{
    hex_round_trip(
        hmac_sha256(key, payload(signed.timestamp_seconds, signed.nonce@, signed.action)),
    );
    if payload(tampered.timestamp_seconds, tampered.nonce@, tampered.action) == payload(
        signed.timestamp_seconds,
        signed.nonce@,
        signed.action,
    ) {
        payloads_tell_requests_apart(
            tampered.timestamp_seconds,
            tampered.nonce@,
            tampered.action,
            signed.timestamp_seconds,
            signed.nonce@,
            signed.action,
        );
    }
}

/// Within the allowed skew a request is accepted as it was signed, and fails the
/// authentication with another action in its place, unless the tags of the two
/// messages coincide. Beyond the skew both are stale.
pub proof fn a_signature_is_for_one_action(
    signed: AgentRequest,
    other: AgentAction,
    key: Seq<u8>,
    now: u64,
)
    requires
        signed.signature@ == signature_of(
            signed.timestamp_seconds,
            signed.nonce@,
            signed.action,
            key,
        ),
        action_tree(other) != action_tree(signed.action),
    ensures
        ({
            let replaced = AgentRequest { action: other, ..signed };
            let coincide = hmac_sha256(
                key,
                payload(signed.timestamp_seconds, signed.nonce@, other),
            ) == hmac_sha256(key, payload(signed.timestamp_seconds, signed.nonce@, signed.action));
            if is_fresh(signed.timestamp_seconds, now) {
                &&& signed.verdict(key, now) == Ok::<(), DisplayMuxError>(())
                &&& !coincide ==> replaced.verdict(key, now) == Err::<(), DisplayMuxError>(
                    DisplayMuxError::AuthenticationFailed,
                )
            } else {
                &&& signed.verdict(key, now) == Err::<(), DisplayMuxError>(
                    DisplayMuxError::StaleRequest,
                )
                &&& replaced.verdict(key, now) == Err::<(), DisplayMuxError>(
                    DisplayMuxError::StaleRequest,
                )
            }
        }),
{
    a_signed_request_is_accepted_while_fresh(signed, key, now);
    a_tampered_request_is_refused(signed, AgentRequest { action: other, ..signed }, key, now);
}

/// Where a paired host knows the input of a display.
#[derive(Debug, PartialEq, Eq)]
pub struct AgentDisplayRoute {
    pub monitor: MonitorFingerprint,
    pub input: DisplayInput,
    /// Whether the sender read the input off the display, rather than being
    /// told.
    pub confirmed: bool,
}

impl Clone for AgentDisplayRoute {
    fn clone(&self) -> (copy: Self)
        ensures
            copy == *self,
    {
        AgentDisplayRoute {
            monitor: self.monitor.clone(),
            input: self.input,
            confirmed: self.confirmed,
        }
    }
}

/// The answer to a request.
#[derive(Clone, Debug, PartialEq, Eq)]
pub struct AgentResponse {
    pub ready: bool,
    pub message: String,
    /// Kept for clients that know only one shared monitor: the first of
    /// `display_routes`.
    pub display_route: Option<AgentDisplayRoute>,
    /// One entry per shared monitor the responder currently knows an input
    /// for. Absent from an old peer's response, which then has none.
    pub display_routes: Vec<AgentDisplayRoute>,
    /// The responder's `AGENT_PROTOCOL_VERSION`; 0 where the response names
    /// none. Any value less than `AGENT_PROTOCOL_VERSION` means "does not
    /// understand per-monitor switch requests".
    pub protocol_version: u32,
    pub host_order: Vec<String>,
    pub host_order_updated_at_ms: u64,
    pub host_aliases: Vec<HostAlias>,
    pub input_labels: Vec<InputLabel>,
    pub monitor_identity_links: Vec<MonitorIdentityLink>,
}

impl AgentResponse {
    /// Whether the response carries nothing but its verdict and message.
    pub open spec fn is_bare(self) -> bool {
        &&& self.display_route is None
        &&& self.display_routes@.len() == 0
        &&& self.host_order@.len() == 0
        &&& self.host_order_updated_at_ms == 0
        &&& self.host_aliases@.len() == 0
        &&& self.input_labels@.len() == 0
        &&& self.monitor_identity_links@.len() == 0
    }
}

impl Default for AgentResponse {
    fn default() -> (response: Self)
        ensures
            !response.ready,
            response.message@.len() == 0,
            response.protocol_version == 0,
            response.is_bare(),
    {
        AgentResponse {
            ready: false,
            message: String::new(),
            display_route: None,
            display_routes: Vec::new(),
            protocol_version: 0,
            host_order: Vec::new(),
            host_order_updated_at_ms: 0,
            host_aliases: Vec::new(),
            input_labels: Vec::new(),
            monitor_identity_links: Vec::new(),
        }
    }
}

/// A response with a verdict and a message only.
pub fn bare_response(ready: bool, message: String, protocol_version: u32) -> (response:
    AgentResponse)
    ensures
        response.ready == ready,
        response.message == message,
        response.protocol_version == protocol_version,
        response.is_bare(),
{
    let mut response = AgentResponse::default();
    response.ready = ready;
    response.message = message;
    response.protocol_version = protocol_version;
    response
}

/// What a refused host is told.
pub open spec fn rejection_message(error: DisplayMuxError) -> Seq<char> {
    if error is StaleRequest {
        "連線驗證失敗，請確認兩台主機的系統時間已同步後再試一次"@
    } else {
        "配對密碼不一致，請在兩台主機輸入完全相同的配對密碼並重新儲存"@
    }
}

/// Whether `response` is the answer to a request refused for `error`.
pub open spec fn is_rejection(response: AgentResponse, error: DisplayMuxError) -> bool {
    &&& !response.ready
    &&& response.message@ == rejection_message(error)
    &&& response.protocol_version == AGENT_PROTOCOL_VERSION
    &&& response.is_bare()
}

/// The answer to a request refused for `error`.
pub fn rejection_response(error: &DisplayMuxError) -> (response: AgentResponse)
    ensures
        is_rejection(response, *error),
{
    let message = match error {
        DisplayMuxError::StaleRequest => "連線驗證失敗，請確認兩台主機的系統時間已同步後再試一次",
        _ => "配對密碼不一致，請在兩台主機輸入完全相同的配對密碼並重新儲存",
    };
    bare_response(false, message.to_owned(), AGENT_PROTOCOL_VERSION)
}

/// The nonces of the requests that were answered, so that none is answered
/// twice.
#[derive(Debug)]
pub struct SeenNonces {
    pub nonces: Vec<String>,
}

/// The nonces after one more: once they are too many, all are forgotten.
pub open spec fn remembered(nonces: Seq<Seq<char>>, nonce: Seq<char>) -> Seq<Seq<char>> {
    if nonces.len() + 1 > MAX_SEEN_NONCES {
        Seq::empty()
    } else {
        nonces.push(nonce)
    }
}

impl SeenNonces {
    /// The nonces, as characters.
    pub open spec fn known(self) -> Seq<Seq<char>> {
        views(self.nonces@)
    }

    /// No nonce is there twice, and there are not too many.
    pub open spec fn well_formed(self) -> bool {
        self.known().no_duplicates() && self.known().len() <= MAX_SEEN_NONCES
    }

    pub fn new() -> (log: Self)
        ensures
            log.known() == Seq::<Seq<char>>::empty(),
            log.well_formed(),
    {
        let log = SeenNonces { nonces: Vec::new() };
        assert(log.known() =~= Seq::<Seq<char>>::empty());
        log
    }

    /// Takes note of a nonce; says whether it was new.
    pub fn insert(&mut self, nonce: &str) -> (new: bool)
        requires
            old(self).well_formed(),
        ensures
            new == !old(self).known().contains(nonce@),
            new ==> final(self).known() == remembered(old(self).known(), nonce@),
            !new ==> final(self).known() == old(self).known(),
            final(self).well_formed(),
    {
        if contains_text(&self.nonces, nonce) {
            return false;
        }
        let ghost before = views(self.nonces@);
        self.nonces.push(nonce.to_owned());
        assert(views(self.nonces@) =~= before.push(nonce@));
        if self.nonces.len() > MAX_SEEN_NONCES {
            self.nonces.clear();
            assert(views(self.nonces@) =~= Seq::empty());
        } else {
            assert(before.push(nonce@).no_duplicates());
        }
        true
    }
}

/// What becomes of a request.
pub enum Admission {
    /// The action is carried out and its response sent.
    Admitted(AgentAction),
    /// The response is sent and nothing is done.
    Refused(AgentResponse),
}

/// Why a request is refused, given whether it could be read, what checking it
/// came to, and the nonces answered before.
pub open spec fn refusal(
    request: Option<AgentRequest>,
    checked: Result<(), DisplayMuxError>,
    nonces: Seq<Seq<char>>,
) -> Option<DisplayMuxError> {
    match request {
        None => Some(DisplayMuxError::AuthenticationFailed),
        Some(found) => match checked {
            Err(error) => Some(error),
            Ok(_) => if nonces.contains(found.nonce@) {
                Some(DisplayMuxError::StaleRequest)
            } else {
                None
            },
        },
    }
}

/// Whether an admission, and the nonces after it, are what the refusal asks
/// for.
pub open spec fn is_admission(
    admission: Admission,
    request: Option<AgentRequest>,
    refused: Option<DisplayMuxError>,
    before: Seq<Seq<char>>,
    after: Seq<Seq<char>>,
) -> bool {
    match refused {
        Some(error) => {
            &&& admission matches Admission::Refused(response) && is_rejection(response, error)
            &&& after == before
        },
        None => {
            &&& request matches Some(found) && admission == Admission::Admitted(found.action)
                && after == remembered(before, found.nonce@)
        },
    }
}

/// Decides on a request that was checked: one that could not be read, did not
/// pass the check, or was answered before is refused, and only an admitted one
/// is remembered.
pub fn settle(
    request: Option<AgentRequest>,
    checked: Result<(), DisplayMuxError>,
    seen: &mut SeenNonces,
) -> (admission: Admission)
    requires
        old(seen).well_formed(),
    ensures
        is_admission(
            admission,
            request,
            refusal(request, checked, old(seen).known()),
            old(seen).known(),
            final(seen).known(),
        ),
        final(seen).well_formed(),
{
    match request {
        None => Admission::Refused(rejection_response(&DisplayMuxError::AuthenticationFailed)),
        Some(found) => match checked {
            Err(error) => Admission::Refused(rejection_response(&error)),
            Ok(_) => {
                if seen.insert(&found.nonce) {
                    Admission::Admitted(found.action)
                } else {
                    Admission::Refused(rejection_response(&DisplayMuxError::StaleRequest))
                }
            },
        },
    }
}

/// What checking a request at a given time comes to; one that could not be read
/// is not checked.
pub open spec fn checked_at(request: Option<AgentRequest>, key: Seq<u8>, now: u64) -> Result<
    (),
    DisplayMuxError,
> {
    match request {
        Some(found) => found.verdict(key, now),
        None => Ok(()),
    }
}

/// Decides on a request that arrives at `now`.
pub fn receive_at(
    request: Option<AgentRequest>,
    shared_key: &[u8],
    now: u64,
    seen: &mut SeenNonces,
) -> (admission: Admission)
    requires
        old(seen).well_formed(),
    ensures
        is_admission(
            admission,
            request,
            refusal(request, checked_at(request, shared_key@, now), old(seen).known()),
            old(seen).known(),
            final(seen).known(),
        ),
        final(seen).well_formed(),
{
    let checked = match &request {
        Some(found) => found.verify_at(shared_key, now),
        None => Ok(()),
    };
    settle(request, checked, seen)
}

/// Whether checking a request came to `checked`: at some time, or not at all
/// because the clock could not be read.
pub open spec fn was_checked(
    request: Option<AgentRequest>,
    key: Seq<u8>,
    checked: Result<(), DisplayMuxError>,
) -> bool {
    ||| exists|now: u64| checked == #[trigger] checked_at(request, key, now)
    ||| request is Some && (checked matches Err(error) && error is Backend)
}

proof fn lemma_was_checked(
    request: AgentRequest,
    key: Seq<u8>,
    checked: Result<(), DisplayMuxError>,
)
    requires
        (checked matches Err(error) && error is Backend) || exists|now: u64|
            checked == #[trigger] request.verdict(key, now),
    ensures
        was_checked(Some(request), key, checked),
{
    if !(checked matches Err(error) && error is Backend) {
        let now = choose|now: u64| checked == #[trigger] request.verdict(key, now);
        assert(checked == checked_at(Some(request), key, now));
    }
}

/// Decides on a request that arrives now.
pub fn receive(request: Option<AgentRequest>, shared_key: &[u8], seen: &mut SeenNonces) -> (admission:
    Admission)
    requires
        old(seen).well_formed(),
    ensures
        exists|checked: Result<(), DisplayMuxError>|
            {
                &&& #[trigger] was_checked(request, shared_key@, checked)
                &&& is_admission(
                    admission,
                    request,
                    refusal(request, checked, old(seen).known()),
                    old(seen).known(),
                    final(seen).known(),
                )
            },
        admission is Admitted ==> request is Some && request->0.authentic(shared_key@),
        final(seen).well_formed(),
{
    let checked = match &request {
        Some(found) => {
            let checked = found.verify(shared_key);
            proof {
                lemma_was_checked(*found, shared_key@, checked);
            }
            checked
        },
        None => {
            assert(checked_at(request, shared_key@, 0) == Ok::<(), DisplayMuxError>(()));
            Ok(())
        },
    };
    assert(was_checked(request, shared_key@, checked));
    settle(request, checked, seen)
}

/// An admitted request is refused when it arrives again, until the nonces are
/// forgotten.
pub proof fn a_replayed_request_is_refused(
    request: AgentRequest,
    key: Seq<u8>,
    first: u64,
    again: u64,
    before: Seq<Seq<char>>,
)
    requires
        refusal(Some(request), checked_at(Some(request), key, first), before) is None,
        before.len() < MAX_SEEN_NONCES,
    ensures
        refusal(
            Some(request),
            checked_at(Some(request), key, again),
            remembered(before, request.nonce@),
        ) == Some(DisplayMuxError::StaleRequest),
{
    assert(before.push(request.nonce@)[before.len() as int] == request.nonce@);
}

/// What an answer that is no JSON, or none at all, is taken for.
pub fn parse_agent_response(response: &str, parsed: Result<AgentResponse, String>) -> (result:
    Result<AgentResponse, DisplayMuxError>)
    ensures
        match result {
            Ok(answer) => trimmed(response@).len() > 0 && parsed == Ok::<AgentResponse, String>(
                answer,
            ),
            Err(error) => error matches DisplayMuxError::PeerUnavailable(text) && text@ == if trimmed(
                response@,
            ).len() == 0 {
                "另一台主機未回傳結果；請確認兩台主機皆已更新至最新版，並重新檢查配對密碼"@
            } else {
                "回應格式無效："@ + parsed->Err_0@
            } && (trimmed(response@).len() == 0 || parsed is Err),
        },
{
    let text = trim(response);
    if text.as_str().is_empty() {
        return Err(
            DisplayMuxError::PeerUnavailable(
                "另一台主機未回傳結果；請確認兩台主機皆已更新至最新版，並重新檢查配對密碼".to_owned(),
            ),
        );
    }
    match parsed {
        Ok(answer) => Ok(answer),
        Err(detail) => Err(DisplayMuxError::PeerUnavailable(join2("回應格式無效：", &detail))),
    }
}

} // verus!
