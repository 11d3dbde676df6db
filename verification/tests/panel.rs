use v2board_wireguard::config::PanelConfig;
use v2board_wireguard::panel::{
    is_success, panel_decode_error, panel_failure, panel_request_error, panel_response,
    redact_sensitive, PanelAction, PanelClient,
};

fn client() -> PanelClient {
    PanelClient {
        config: PanelConfig {
            base_url: "https://panel.example//".to_string(),
            token: "super-secret-token".to_string(),
            node_id: 42,
            node_type: "wireguard".to_string(),
            timeout_secs: 0,
        },
    }
}

#[test]
fn panel_error_body_redacts_reflected_tokens() {
    let redacted = redact_sensitive(
        r#"GET /api/v1/server/UniProxy/config?token=secret-token&node_id=1 {"server_token":"another-secret"}"#,
    );

    assert!(redacted.contains("token=[REDACTED]"));
    assert!(redacted.contains(r#""server_token":"[REDACTED]""#));
    assert!(!redacted.contains("secret-token"));
    assert!(!redacted.contains("another-secret"));
}

#[test]
fn redaction_knows_both_notations() {
    assert_eq!(redact_sensitive("nothing here"), "nothing here");
    assert_eq!(
        redact_sensitive("?TOKEN=a&x=1 Server_Token=b"),
        "?TOKEN=[REDACTED]&x=1 Server_Token=[REDACTED]"
    );
    assert_eq!(
        redact_sensitive("{'token' : 'a', \"token\":\"\"}"),
        "{'token' : '[REDACTED]', \"token\":\"[REDACTED]\"}"
    );
    assert_eq!(redact_sensitive("mytoken=a"), "mytoken=a");
}

#[test]
fn actions_are_found_below_the_base_address() {
    let client = client();
    assert_eq!(
        client.url(PanelAction::Config.name()),
        "https://panel.example/api/v1/server/UniProxy/config"
    );
    assert_eq!(
        client.url(PanelAction::User.name()),
        "https://panel.example/api/v1/server/UniProxy/user"
    );
    assert_eq!(
        client.url(PanelAction::TrafficCumulative.name()),
        "https://panel.example/api/v1/server/UniProxy/traffic-cumulative"
    );
    assert_eq!(
        client.url(PanelAction::Status.name()),
        "https://panel.example/api/v1/server/UniProxy/status"
    );
}

#[test]
fn requests_carry_the_standard_parameters() {
    let client = client();
    assert_eq!(
        client.query(),
        vec![
            ("token", "super-secret-token".to_string()),
            ("node_type", "wireguard".to_string()),
            ("node_id", "42".to_string()),
        ]
    );
    assert_eq!(client.config.request_timeout_secs(), 1);
}

#[test]
fn failed_requests_tell_no_more_than_the_reason() {
    let message = |t: bool, c: bool, b: bool| panel_request_error("user", t, c, b).message();
    assert_eq!(
        message(true, true, true),
        "failed to call v2board action user: request timed out"
    );
    assert_eq!(
        message(false, true, true),
        "failed to call v2board action user: connection failed"
    );
    assert_eq!(
        message(false, false, true),
        "failed to call v2board action user: request body failed"
    );
    assert_eq!(
        message(false, false, false),
        "failed to call v2board action user: request failed"
    );
    assert_eq!(
        panel_decode_error("user").message(),
        "failed to decode v2board action user"
    );
}

#[test]
fn refusals_tell_the_panels_words_without_tokens() {
    let refused = panel_response("config", 500, "panel unavailable\n").unwrap_err();
    assert_eq!(
        refused.message(),
        "v2board action config returned HTTP 500: panel unavailable"
    );
    let refused = panel_response("config", 403, " bad token=super-secret-token ").unwrap_err();
    assert_eq!(
        refused.message(),
        "v2board action config returned HTTP 403: bad token=[REDACTED]"
    );
    let refused = panel_response("config", 404, " \n").unwrap_err();
    assert_eq!(refused.message(), "v2board action config returned HTTP 404");
}

#[test]
fn successes_are_those_of_http() {
    assert!(panel_response("config", 200, "token=a").is_ok());
    assert!(panel_response("config", 299, "").is_ok());
    assert!(panel_response("config", 300, "").is_err());
    assert!(!is_success(199));
    assert!(is_success(204));
}

#[test]
fn long_refusals_are_cut() {
    let body = "x".repeat(2049);
    let refused = panel_failure("status", 502, &body);
    assert_eq!(
        refused.message(),
        format!(
            "v2board action status returned HTTP 502: {}...",
            "x".repeat(2048)
        )
    );
}

#[test]
fn refusals_differ_in_nothing_but_the_tokens() {
    let first = panel_response("user", 403, "?token=one&x=1").unwrap_err();
    let second = panel_response("user", 403, "?token=two&x=1\n").unwrap_err();
    assert_eq!(first.message(), second.message());
}
