use displaymux::diagnostics_upload::{envelope, parse_dsn, PreparedReport, ReportTrigger};

#[test]
fn a_hosted_dsn_points_at_its_projects_envelope_endpoint() {
    let target = parse_dsn("https://abc123@o42.ingest.us.sentry.io/4507").expect("valid DSN");

    assert_eq!(
        target.envelope_url,
        "https://o42.ingest.us.sentry.io/api/4507/envelope/"
    );
    assert_eq!(target.public_key, "abc123");
}

#[test]
fn a_self_hosted_dsn_keeps_its_path_prefix() {
    let target = parse_dsn("https://key@sentry.example.com:9000/tools/7").expect("valid DSN");

    assert_eq!(
        target.envelope_url,
        "https://sentry.example.com:9000/tools/api/7/envelope/"
    );
}

#[test]
fn malformed_dsns_are_refused() {
    for dsn in [
        "",
        "not a dsn",
        "https://o42.ingest.sentry.io/4507",
        "https://key@host/",
        "https://key@host/project",
        "ftp://key@host/1",
        // A report is sent only encrypted, however the build was configured.
        "http://key@sentry.example.com/1",
    ] {
        assert_eq!(parse_dsn(dsn), None, "{dsn}");
    }
}

#[test]
fn the_envelope_carries_the_event_and_the_report_as_shown() {
    let target = parse_dsn("https://abc@sentry.example.com/1").unwrap();
    let report = PreparedReport {
        report_id: "0123456789abcdef0123456789abcdef".to_owned(),
        trigger: ReportTrigger::SwitchFailed {
            message: "ignored here".to_owned(),
        },
        json: "{\n  \"reportId\": \"x\"\n}".to_owned(),
    };

    let body = String::from_utf8(envelope(&target, &report, "1.0", "linux", "0.1.0")).unwrap();
    let lines = body.lines().collect::<Vec<_>>();
    let header: serde_json::Value = serde_json::from_str(lines[0]).unwrap();
    let event_item: serde_json::Value = serde_json::from_str(lines[1]).unwrap();
    let event: serde_json::Value = serde_json::from_str(lines[2]).unwrap();
    let attachment_item: serde_json::Value = serde_json::from_str(lines[3]).unwrap();

    assert_eq!(header["event_id"], report.report_id);
    assert_eq!(event_item["length"], lines[2].len());
    assert_eq!(event["level"], "error");
    assert_eq!(event["tags"]["trigger"], "switchFailed");
    assert_eq!(attachment_item["type"], "attachment");
    assert_eq!(attachment_item["length"], report.json.len());
    assert!(body.ends_with(&format!("{}\n", report.json)));
    assert!(
        !body.contains("ignored here"),
        "the message stays in the attachment"
    );
}
