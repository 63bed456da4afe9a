use displaymux::agent::{
    action_text, parse_agent_response, receive, receive_at, rejection_response, settle, Admission,
    AgentAction, AgentRequest, AgentResponse, SeenNonces, AGENT_PROTOCOL_VERSION, MAX_SEEN_NONCES,
};
use displaymux::clock::{unix_time, unix_time_ms};
use displaymux::domain::DisplayInput;
use displaymux::error::DisplayMuxError;
use hmac::{Hmac, Mac};

const KEY: &[u8] = b"a test key that is never persisted";
const STALE: &str = "連線驗證失敗，請確認兩台主機的系統時間已同步後再試一次";
const MISMATCH: &str = "配對密碼不一致，請在兩台主機輸入完全相同的配對密碼並重新儲存";

fn ping(nonce: &str, now: u64) -> AgentRequest {
    AgentRequest::signed_at(AgentAction::Ping, nonce, KEY, now).unwrap()
}

fn refusal(admission: Admission) -> AgentResponse {
    match admission {
        Admission::Refused(response) => response,
        Admission::Admitted(_) => panic!("expected a refusal"),
    }
}

#[test]
fn the_signature_is_the_tag_of_time_nonce_and_action() {
    let action = AgentAction::SwitchInput {
        monitor: None,
        input: DisplayInput::new(0x11).unwrap(),
    };
    let request = AgentRequest::signed_at(action, "n\"1", KEY, 1_700_000_000).unwrap();
    let payload = r#"[1700000000,"n\"1",{"type":"switch_input","input":17}]"#;
    let mut mac = Hmac::<sha2::Sha256>::new_from_slice(KEY).unwrap();
    mac.update(payload.as_bytes());
    assert_eq!(request.signature, hex::encode(mac.finalize().into_bytes()));
    assert_eq!(request.timestamp_seconds, 1_700_000_000);
    assert_eq!(request.nonce, "n\"1");
}

#[test]
fn a_signed_request_is_accepted_within_the_allowed_skew() {
    let request = ping("n", 1_000);
    for now in [970, 1_000, 1_030] {
        assert_eq!(request.verify_at(KEY, now), Ok(()));
    }
    for now in [0, 969, 1_031, u64::MAX] {
        assert_eq!(request.verify_at(KEY, now), Err(DisplayMuxError::StaleRequest));
    }
}

#[test]
fn any_change_to_a_signed_request_is_refused() {
    let signed = ping("n", 1_000);
    let mut time = signed.clone();
    time.timestamp_seconds = 1_001;
    let mut nonce = signed.clone();
    nonce.nonce = "m".to_owned();
    let mut signature = signed.clone();
    signature.signature = "00".repeat(32);
    let mut not_hex = signed.clone();
    not_hex.signature = "not hexadecimal".to_owned();
    let mut odd = signed.clone();
    odd.signature.pop();
    let mut truncated = signed.clone();
    truncated.signature.truncate(32);
    for request in [time, nonce, signature, not_hex, odd, truncated] {
        assert_eq!(
            request.verify_at(KEY, 1_000),
            Err(DisplayMuxError::AuthenticationFailed)
        );
    }
    assert_eq!(
        signed.verify_at(b"another key", 1_000),
        Err(DisplayMuxError::AuthenticationFailed)
    );
    let mut upper = signed.clone();
    upper.signature = upper.signature.to_uppercase();
    assert_eq!(upper.verify_at(KEY, 1_000), Ok(()));
}

#[test]
fn a_request_signed_now_is_accepted_now() {
    let request = AgentRequest::signed(AgentAction::Ping, "now", KEY).unwrap();
    assert_eq!(request.verify(KEY), Ok(()));
    assert!(unix_time().unwrap() >= request.timestamp_seconds);
    assert!(unix_time_ms() / 1_000 >= request.timestamp_seconds);
    let mut seen = SeenNonces::new();
    assert!(matches!(
        receive(Some(request.clone()), KEY, &mut seen),
        Admission::Admitted(AgentAction::Ping)
    ));
    assert_eq!(refusal(receive(Some(request), KEY, &mut seen)).message, STALE);
}

#[test]
fn a_replayed_request_is_refused_and_a_refused_one_is_not_remembered() {
    let mut seen = SeenNonces::new();
    let request = ping("once", 1_000);
    let mut forged = ping("forged", 1_000);
    forged.signature = "00".repeat(32);

    assert_eq!(refusal(receive_at(None, KEY, 1_000, &mut seen)).message, MISMATCH);
    assert_eq!(
        refusal(receive_at(Some(forged), KEY, 1_000, &mut seen)).message,
        MISMATCH
    );
    assert_eq!(
        refusal(receive_at(Some(request.clone()), KEY, 2_000, &mut seen)).message,
        STALE
    );
    assert!(seen.nonces.is_empty());
    assert!(matches!(
        receive_at(Some(request.clone()), KEY, 1_000, &mut seen),
        Admission::Admitted(AgentAction::Ping)
    ));
    let again = refusal(receive_at(Some(request), KEY, 1_001, &mut seen));
    assert_eq!(again.message, STALE);
    assert!(!again.ready);
    assert_eq!(again.protocol_version, AGENT_PROTOCOL_VERSION);
    assert!(again.display_routes.is_empty() && again.display_route.is_none());
}

#[test]
fn nonces_are_forgotten_together_once_they_are_too_many() {
    let mut seen = SeenNonces::new();
    for n in 0..MAX_SEEN_NONCES {
        assert!(seen.insert(&n.to_string()));
    }
    assert_eq!(seen.nonces.len(), MAX_SEEN_NONCES);
    assert!(!seen.insert("7"));
    assert!(seen.insert("one more"));
    assert!(seen.nonces.is_empty());
    assert!(seen.insert("7"));
}

#[test]
fn a_clock_that_cannot_be_read_refuses_the_request() {
    let mut seen = SeenNonces::new();
    let checked = Err(DisplayMuxError::Backend("clock".to_owned()));
    assert_eq!(
        refusal(settle(Some(ping("n", 1)), checked, &mut seen)).message,
        MISMATCH
    );
    assert_eq!(
        rejection_response(&DisplayMuxError::StaleRequest).message,
        STALE
    );
}

#[test]
fn answers_are_passed_on_or_explained() {
    let answer = AgentResponse {
        ready: true,
        ..AgentResponse::default()
    };
    assert_eq!(
        parse_agent_response("{}", Ok(answer.clone())),
        Ok(answer.clone())
    );
    assert_eq!(
        parse_agent_response("{", Err("unexpected end".to_owned())),
        Err(DisplayMuxError::PeerUnavailable(
            "回應格式無效：unexpected end".to_owned()
        ))
    );
    assert!(parse_agent_response(" \n", Ok(answer)).is_err());
    assert_eq!(action_text(&AgentAction::Ping), r#"{"type":"ping"}"#);
}
