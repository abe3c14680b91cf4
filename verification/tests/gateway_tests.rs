use codex_server::gateway::{
    check_auth, error_body, error_status, healthz_body, is_loopback_host, map_status, models_body,
    validate_bind, AppState, GatewayConfig, GatewayError, WireKind,
};
use codex_server::json::json_to_string;

fn state(allow_no_auth: bool, bearer: Option<&str>) -> AppState {
    AppState {
        cfg: GatewayConfig {
            model: "gpt-4o-mini".to_string(),
            wire_api: WireKind::Responses,
            base_instructions: None,
            responses_originator_header: "codex_cli_rs".to_string(),
        },
        bearer: bearer.map(|s| s.to_string()),
        allow_no_auth,
    }
}

#[test]
fn healthz_ok() {
    let body = json_to_string(&healthz_body());
    assert_eq!(body, "{\"status\":\"ok\"}");
}

#[test]
fn models_unauthorized_without_token() {
    let st = state(false, Some("secret"));
    assert!(!check_auth(None, &st));
    let body = json_to_string(&error_body("Unauthorized"));
    assert_eq!(body, "{\"error\":{\"message\":\"Unauthorized\"}}");
    assert_eq!(error_status(&GatewayError::Unauthorized), 401);
}

#[test]
fn models_authorized_with_bearer() {
    let st = state(false, Some("secret"));
    assert!(check_auth(Some("Bearer secret"), &st));
    let body = json_to_string(&models_body("gpt-4o-mini"));
    assert_eq!(
        body,
        "{\"object\":\"list\",\"data\":[{\"id\":\"gpt-4o-mini\",\"object\":\"model\"}]}"
    );
}

#[test]
fn responses_unauthorized_without_token() {
    // The Responses surface enforces the same gate before any translation.
    let st = state(false, Some("secret"));
    assert!(!check_auth(None, &st));
    assert!(!check_auth(Some("Bearer wrong"), &st));
}

#[test]
fn chat_completions_unauthorized_without_token() {
    let st = state(false, Some("secret"));
    assert!(!check_auth(None, &st));
}

#[test]
fn auth_gate_exact_match_only() {
    let st = state(false, Some("secret"));
    assert!(check_auth(Some("Bearer secret"), &st));
    assert!(!check_auth(Some("Bearer wrong"), &st));
    assert!(!check_auth(Some("Bearer secret2"), &st));
    assert!(!check_auth(Some("Bearer secre"), &st));
    assert!(!check_auth(Some("bearer secret"), &st));
    assert!(!check_auth(Some("secret"), &st));
    assert!(!check_auth(Some(""), &st));
}

#[test]
fn auth_gate_bypass_and_missing_token() {
    let st = state(true, None);
    assert!(check_auth(None, &st));
    let st2 = state(false, None);
    assert!(!check_auth(Some("Bearer anything"), &st2));
}

#[test]
fn bind_validation_refuses_public_no_auth() {
    assert!(is_loopback_host("127.0.0.1"));
    assert!(is_loopback_host("::1"));
    assert!(is_loopback_host("localhost"));
    assert!(!is_loopback_host("0.0.0.0"));
    assert!(validate_bind("127.0.0.1", true));
    assert!(!validate_bind("0.0.0.0", true));
    assert!(validate_bind("0.0.0.0", false));
}

#[test]
fn error_statuses() {
    assert_eq!(error_status(&GatewayError::InvalidRequest), 400);
    assert_eq!(error_status(&GatewayError::Unauthorized), 401);
    assert_eq!(error_status(&GatewayError::UnsupportedSurface), 501);
    assert_eq!(error_status(&GatewayError::UpstreamConfigError), 502);
    assert_eq!(error_status(&GatewayError::UpstreamTransportError), 502);
    assert_eq!(error_status(&GatewayError::UpstreamPayloadError), 502);
}

#[test]
fn status_mapping_clamps_to_bad_gateway() {
    assert_eq!(map_status(200), 200);
    assert_eq!(map_status(404), 404);
    assert_eq!(map_status(999), 999);
    assert_eq!(map_status(99), 502);
    assert_eq!(map_status(1000), 502);
}
