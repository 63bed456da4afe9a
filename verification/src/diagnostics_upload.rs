//! Sends a prepared diagnostic report to Sentry as one event with the report
//! attached.
//!
//! Written against Sentry's envelope endpoint directly instead of the Sentry
//! SDK: a report is sent at most a few times a day and only with consent, so
//! none of the SDK's automatic capture is wanted, and the HTTP client is
//! already in the build for the updater.
//!
//! Where reports go is fixed when the app is built, from `MUXSU_SENTRY_DSN`.
//! A build without it cannot send at all and offers saving the report instead.

use crate::json::{json_number, json_object, json_text, render, render_fields, with_field, Tree};
use crate::network::{bare_end, lemma_bare_end_is};
use crate::text::{
    begins_with, chars_of, cut, cut_at, join2, join3, join4, join5, strip_prefix,
    text_between, trim, trimmed,
};
use vstd::prelude::*;
use vstd::string::StrSliceExecFns;
use vstd::utf8::encode_utf8;

verus! {

/// What a report was made for.
#[derive(Debug, PartialEq, Eq)]
pub enum ReportTrigger {
    Manual,
    SwitchFailed { message: String },
}

/// A report that is ready to be sent.
#[derive(Debug, PartialEq, Eq)]
pub struct PreparedReport {
    pub report_id: String,
    pub trigger: ReportTrigger,
    pub json: String,
}

/// Where and as whom a report is sent.
#[derive(Debug, PartialEq, Eq)]
pub struct SentryTarget {
    pub envelope_url: String,
    pub public_key: String,
    pub dsn: String,
}

/// Where and as whom a report is sent, as characters.
pub struct TargetModel {
    pub envelope_url: Seq<char>,
    pub public_key: Seq<char>,
    pub dsn: Seq<char>,
}

impl View for SentryTarget {
    type V = TargetModel;

    open spec fn view(&self) -> TargetModel {
        TargetModel {
            envelope_url: self.envelope_url@,
            public_key: self.public_key@,
            dsn: self.dsn@,
        }
    }
}

/// The position behind the last `mark` in `text`, or 0.
pub open spec fn after_last(text: Seq<char>, mark: char) -> int
    decreases text.len(),
{
    if text.len() == 0 {
        0
    } else if text.last() == mark {
        text.len() as int
    } else {
        after_last(text.drop_last(), mark)
    }
}

/// Whether a text is one or more decimal digits.
pub open spec fn is_number(text: Seq<char>) -> bool {
    text.len() > 0 && forall|i: int| 0 <= i < text.len() ==> '0' <= #[trigger] text[i] <= '9'
}

/// Where the project stands in a path, and what stands before it: a self-hosted
/// service may have a path of its own.
pub open spec fn path_parts(path: Seq<char>) -> (Seq<char>, Seq<char>) {
    let bare = bare_end(path, '/');
    let n = after_last(bare, '/');
    if n > 0 {
        ("/"@ + bare.take(n - 1), bare.skip(n))
    } else {
        (seq![], bare)
    }
}

/// The target that a trimmed `https://PUBLIC_KEY@HOST[:PORT]/[PATH/]PROJECT_ID`
/// names. A report describes this computer and its displays, so it never leaves
/// unencrypted.
pub open spec fn target_of(dsn: Seq<char>) -> Option<TargetModel> {
    let (user, location) = cut(dsn.skip("https://"@.len() as int), '@');
    let (host, path) = cut(location->0, '/');
    let public_key = cut(user, ':').0;
    let (prefix, project) = path_parts(path->0);
    if begins_with(dsn, "https://"@) && location is Some && path is Some && public_key.len() > 0
        && host.len() > 0 && is_number(project) {
        Some(
            TargetModel {
                envelope_url: "https://"@ + host + prefix + "/api/"@ + project + "/envelope/"@,
                public_key,
                dsn,
            },
        )
    } else {
        None
    }
}

/// Whether `target` is the one that a build with this setting has.
pub open spec fn is_configured(
    dsn: Option<&str>,
    target: Option<SentryTarget>,
) -> bool {
    match target {
        Some(found) => dsn is Some && target_of(trimmed(dsn->0@)) == Some(found@),
        None => dsn is None || target_of(trimmed(dsn->0@)) is None,
    }
}

/// The target compiled into this build, if any.
pub fn configured_target(dsn: Option<&str>) -> (target: Option<SentryTarget>)
    ensures
        is_configured(dsn, target),
{
    match dsn {
        Some(text) => parse_dsn(text),
        None => None,
    }
}

pub(crate) proof fn lemma_after_last_is(text: Seq<char>, mark: char, n: int)
    requires
        0 <= n <= text.len(),
        n > 0 ==> text[n - 1] == mark,
        forall|j: int| n <= j < text.len() ==> #[trigger] text[j] != mark,
    ensures
        after_last(text, mark) == n,
    decreases text.len(),
{
    if n < text.len() {
        assert(text[text.len() - 1] != mark);
        lemma_after_last_is(text.drop_last(), mark, n);
    }
}

fn split_path(path: &str) -> (parts: (String, String))
    ensures
        parts.0@ == path_parts(path@).0,
        parts.1@ == path_parts(path@).1,
{
    let chars = chars_of(path);
    let mut end: usize = chars.len();
    while end > 0 && chars[end - 1] == '/'
        invariant
            end <= chars@.len(),
            forall|j: int| end <= j < chars@.len() ==> #[trigger] chars@[j] == '/',
        decreases end,
    {
        end -= 1;
    }
    proof {
        lemma_bare_end_is(chars@, '/', end as int);
    }
    let ghost bare = chars@.subrange(0, end as int);
    let mut n: usize = end;
    while n > 0 && chars[n - 1] != '/'
        invariant
            n <= end <= chars@.len(),
            bare == chars@.subrange(0, end as int),
            forall|j: int| n <= j < bare.len() ==> #[trigger] bare[j] != '/',
        decreases n,
    {
        n -= 1;
    }
    proof {
        lemma_after_last_is(bare, '/', n as int);
    }
    if n > 0 {
        let prefix = text_between(&chars, 0, n - 1);
        let project = text_between(&chars, n, end);
        proof {
            assert(chars@.subrange(0, n - 1) =~= bare.take(n - 1));
            assert(chars@.subrange(n as int, end as int) =~= bare.skip(n as int));
        }
        (join2("/", &prefix), project)
    } else {
        let prefix = String::new();
        assert(prefix@ =~= seq![]);
        (prefix, text_between(&chars, 0, end))
    }
}

fn is_project_number(text: &str) -> (yes: bool)
    ensures
        yes == is_number(text@),
{
    let chars = chars_of(text);
    if chars.len() == 0 {
        return false;
    }
    let mut i: usize = 0;
    while i < chars.len()
        invariant
            i <= chars@.len(),
            chars@ == text@,
            forall|j: int| 0 <= j < i ==> '0' <= #[trigger] text@[j] <= '9',
        decreases chars@.len() - i,
    {
        let c = chars[i];
        if !('0' <= c && c <= '9') {
            assert(!('0' <= text@[i as int] <= '9'));
            return false;
        }
        i += 1;
    }
    true
}

/// Reads `https://PUBLIC_KEY@HOST[:PORT]/[PATH/]PROJECT_ID`.
pub fn parse_dsn(dsn: &str) -> (target: Option<SentryTarget>)
    ensures
        match target {
            Some(found) => target_of(trimmed(dsn@)) == Some(found@),
            None => target_of(trimmed(dsn@)) is None,
        },
{
    let dsn = trim(dsn);
    let rest = match strip_prefix(&dsn, "https://") {
        Some(rest) => rest,
        None => return None,
    };
    let (user, location) = cut_at(&rest, '@');
    let location = match location {
        Some(location) => location,
        None => return None,
    };
    let public_key = cut_at(&user, ':').0;
    let (host, path) = cut_at(&location, '/');
    let path = match path {
        Some(path) => path,
        None => return None,
    };
    let (prefix, project) = split_path(&path);
    if public_key.as_str().is_empty() || host.as_str().is_empty() || !is_project_number(&project) {
        return None;
    }
    Some(
        SentryTarget {
            envelope_url: join2(
                &join5("https://", &host, &prefix, "/api/", &project),
                "/envelope/",
            ),
            public_key,
            dsn,
        },
    )
}

/// A report is only ever sent encrypted.
pub proof fn reports_are_only_sent_encrypted(dsn: Seq<char>)
    requires
        target_of(dsn) is Some,
    ensures
        begins_with(target_of(dsn)->0.envelope_url, "https://"@),
        begins_with(dsn, "https://"@),
        target_of(dsn)->0.public_key.len() > 0,
{
    let url = target_of(dsn)->0.envelope_url;
    assert(url.take("https://"@.len() as int) =~= "https://"@);
}

/// How an event is graded, what it says, and what it was sent for.
pub open spec fn event_words(trigger: ReportTrigger) -> (Seq<char>, Seq<char>, Seq<char>) {
    match trigger {
        ReportTrigger::Manual => ("info"@, "Diagnostic report"@, "manual"@),
        ReportTrigger::SwitchFailed { .. } => ("error"@, "Switch failed"@, "switchFailed"@),
    }
}

/// The fields of an event up to its time, in alphabetical order.
pub open spec fn event_fields(
    report: PreparedReport,
    os: Seq<char>,
    version: Seq<char>,
) -> Seq<(Seq<char>, Tree)> {
    let (level, message, trigger) = event_words(report.trigger);
    Seq::empty().push(("event_id"@, Tree::Text(report.report_id@))).push(
        ("level"@, Tree::Text(level)),
    ).push(("logger"@, Tree::Text("muxsu.diagnostics"@))).push(
        ("message"@, Tree::Object(Seq::empty().push(("formatted"@, Tree::Text(message))))),
    ).push(("platform"@, Tree::Text("native"@))).push(
        ("release"@, Tree::Text("muxsu@"@ + version)),
    ).push(
        (
            "tags"@,
            Tree::Object(
                Seq::empty().push(("os"@, Tree::Text(os))).push(("trigger"@, Tree::Text(trigger))),
            ),
        ),
    )
}

/// The user of an event: none at all, so nothing is inferred from the request.
pub open spec fn user_fields() -> Seq<(Seq<char>, Tree)> {
    Seq::empty().push(
        ("user"@, Tree::Object(Seq::empty().push(("ip_address"@, Tree::Null)))),
    )
}

/// The JSON text of an event; `timestamp` is its time as a JSON number.
pub open spec fn event_text_of(
    report: PreparedReport,
    timestamp: Seq<char>,
    os: Seq<char>,
    version: Seq<char>,
) -> Seq<char> {
    "{"@ + render_fields(event_fields(report, os, version)) + ",\"timestamp\":"@ + timestamp + ","@
        + render_fields(user_fields()) + "}"@
}

/// The header of an envelope.
pub open spec fn header_tree(target: TargetModel, report: PreparedReport) -> Tree {
    Tree::Object(
        Seq::empty().push(("dsn"@, Tree::Text(target.dsn))).push(
            ("event_id"@, Tree::Text(report.report_id@)),
        ),
    )
}

/// The header of the event in an envelope.
pub open spec fn event_item_tree(length: nat) -> Tree {
    Tree::Object(
        Seq::empty().push(("length"@, Tree::Number(length))).push(
            ("type"@, Tree::Text("event"@)),
        ),
    )
}

/// The header of the attached report in an envelope.
pub open spec fn attachment_item_tree(report: PreparedReport) -> Tree {
    Tree::Object(
        Seq::empty().push(("content_type"@, Tree::Text("application/json"@))).push(
            ("filename"@, Tree::Text("muxsu-report-"@ + report.report_id@ + ".json"@)),
        ).push(("length"@, Tree::Number(encode_utf8(report.json@).len()))).push(
            ("type"@, Tree::Text("attachment"@)),
        ),
    )
}

/// One envelope: a header, the event, and the report as a JSON attachment, each
/// on a line of its own behind the line that gives its length in bytes.
pub open spec fn envelope_text(
    target: TargetModel,
    report: PreparedReport,
    timestamp: Seq<char>,
    os: Seq<char>,
    version: Seq<char>,
) -> Seq<char> {
    let event = event_text_of(report, timestamp, os, version);
    render(header_tree(target, report)) + "\n"@ + render(event_item_tree(encode_utf8(event).len()))
        + "\n"@ + event + "\n"@ + render(attachment_item_tree(report)) + "\n"@ + report.json@
        + "\n"@
}

/// The fields of an object with one text field.
fn single_text_object(key: &str, value: &str) -> (text: String)
    ensures
        text@ == render(Tree::Object(Seq::empty().push((key@, Tree::Text(value@))))),
{
    let ghost f0 = Seq::<(Seq<char>, Tree)>::empty();
    let quoted = json_text(value);
    let fields = with_field(String::new(), key, &quoted, Ghost(f0), Ghost(Tree::Text(value@)));
    json_object(&fields, Ghost(f0.push((key@, Tree::Text(value@)))))
}

/// The fields `fields` with a text field behind them.
fn with_text_field(
    fields: String,
    key: &str,
    value: &str,
    Ghost(f): Ghost<Seq<(Seq<char>, Tree)>>,
) -> (result: String)
    requires
        fields@ == render_fields(f),
    ensures
        result@ == render_fields(f.push((key@, Tree::Text(value@)))),
{
    let quoted = json_text(value);
    with_field(fields, key, &quoted, Ghost(f), Ghost(Tree::Text(value@)))
}

/// The JSON text of an event. Its time is handed in as a JSON number.
fn event_text(report: &PreparedReport, timestamp: &str, os: &str, version: &str) -> (text: String)
    ensures
        text@ == event_text_of(*report, timestamp@, os@, version@),
{
    let (level, message, trigger) = match &report.trigger {
        ReportTrigger::Manual => ("info", "Diagnostic report", "manual"),
        ReportTrigger::SwitchFailed { .. } => ("error", "Switch failed", "switchFailed"),
    };
    let ghost f0 = Seq::<(Seq<char>, Tree)>::empty();
    let fields = with_text_field(String::new(), "event_id", &report.report_id, Ghost(f0));
    let ghost f1 = f0.push(("event_id"@, Tree::Text(report.report_id@)));
    let fields = with_text_field(fields, "level", level, Ghost(f1));
    let ghost f2 = f1.push(("level"@, Tree::Text(level@)));
    let fields = with_text_field(fields, "logger", "muxsu.diagnostics", Ghost(f2));
    let ghost f3 = f2.push(("logger"@, Tree::Text("muxsu.diagnostics"@)));
    let said = single_text_object("formatted", message);
    let ghost said_tree = Tree::Object(
        Seq::empty().push(("formatted"@, Tree::Text(message@))),
    );
    let fields = with_field(fields, "message", &said, Ghost(f3), Ghost(said_tree));
    let ghost f4 = f3.push(("message"@, said_tree));
    let fields = with_text_field(fields, "platform", "native", Ghost(f4));
    let ghost f5 = f4.push(("platform"@, Tree::Text("native"@)));
    let release = join2("muxsu@", version);
    let fields = with_text_field(fields, "release", &release, Ghost(f5));
    let ghost f6 = f5.push(("release"@, Tree::Text("muxsu@"@ + version@)));
    let tag_fields = with_text_field(String::new(), "os", os, Ghost(f0));
    let ghost t1 = f0.push(("os"@, Tree::Text(os@)));
    let tag_fields = with_text_field(tag_fields, "trigger", trigger, Ghost(t1));
    let ghost t2 = t1.push(("trigger"@, Tree::Text(trigger@)));
    let tags = json_object(&tag_fields, Ghost(t2));
    let fields = with_field(fields, "tags", &tags, Ghost(f6), Ghost(Tree::Object(t2)));
    assert(f6.push(("tags"@, Tree::Object(t2))) == event_fields(*report, os@, version@));
    let ghost u1 = f0.push(("ip_address"@, Tree::Null));
    let user = with_field(String::new(), "ip_address", "null", Ghost(f0), Ghost(Tree::Null));
    let user = json_object(&user, Ghost(u1));
    let user = with_field(String::new(), "user", &user, Ghost(f0), Ghost(Tree::Object(u1)));
    let start = join4("{", &fields, ",\"timestamp\":", timestamp);
    join4(&start, ",", &user, "}")
}

/// One envelope: a header, the event, and the report as a JSON attachment. The
/// time of sending is handed in as a JSON number of seconds.
pub fn envelope(
    target: &SentryTarget,
    report: &PreparedReport,
    timestamp: &str,
    os: &str,
    version: &str,
) -> (body: Vec<u8>)
    ensures
        body@ == encode_utf8(envelope_text(target@, *report, timestamp@, os@, version@)),
{
    let ghost f0 = Seq::<(Seq<char>, Tree)>::empty();
    let header = with_text_field(String::new(), "dsn", &target.dsn, Ghost(f0));
    let ghost h1 = f0.push(("dsn"@, Tree::Text(target@.dsn)));
    let header = with_text_field(header, "event_id", &report.report_id, Ghost(h1));
    let header = json_object(
        &header,
        Ghost(h1.push(("event_id"@, Tree::Text(report.report_id@)))),
    );
    let event = event_text(report, timestamp, os, version);
    let event_bytes = event.as_str().as_bytes();
    let event_length: usize = event_bytes.len();
    let length = json_number(event_length as u64);
    let ghost length_tree = Tree::Number(encode_utf8(event@).len());
    let item = with_field(String::new(), "length", &length, Ghost(f0), Ghost(length_tree));
    let ghost i1 = f0.push(("length"@, length_tree));
    let item = with_text_field(item, "type", "event", Ghost(i1));
    let item = json_object(&item, Ghost(i1.push(("type"@, Tree::Text("event"@)))));
    let attached = with_text_field(String::new(), "content_type", "application/json", Ghost(f0));
    let ghost a1 = f0.push(("content_type"@, Tree::Text("application/json"@)));
    let filename = join3("muxsu-report-", &report.report_id, ".json");
    let attached = with_text_field(attached, "filename", &filename, Ghost(a1));
    let ghost a2 = a1.push(("filename"@, Tree::Text(filename@)));
    let report_bytes = report.json.as_str().as_bytes();
    let report_length: usize = report_bytes.len();
    let size = json_number(report_length as u64);
    let ghost size_tree = Tree::Number(encode_utf8(report.json@).len());
    let attached = with_field(attached, "length", &size, Ghost(a2), Ghost(size_tree));
    let ghost a3 = a2.push(("length"@, size_tree));
    let attached = with_text_field(attached, "type", "attachment", Ghost(a3));
    let attached = json_object(&attached, Ghost(a3.push(("type"@, Tree::Text("attachment"@)))));
    let start = join4(&header, "\n", &item, "\n");
    let middle = join5(&start, &event, "\n", &attached, "\n");
    let whole = join3(&middle, &report.json, "\n");
    assert(whole@ == envelope_text(target@, *report, timestamp@, os@, version@));
    whole.as_str().as_bytes_vec()
}

/// How this client names itself to the service.
pub fn auth_header(target: &SentryTarget, version: &str) -> (header: String)
    ensures
        header@ == "Sentry sentry_version=7, sentry_key="@ + target.public_key@
            + ", sentry_client=muxsu/"@ + version@,
{
    join4(
        "Sentry sentry_version=7, sentry_key=",
        &target.public_key,
        ", sentry_client=muxsu/",
        version,
    )
}

} // verus!
