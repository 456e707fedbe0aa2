use nxcli::api::ApiClient;
use nxcli::calendar::{CalendarComponents, Calendar};
use nxcli::config::NxCliConfig;
use nxcli::login::{poll_outcome, poll_wait_secs, server_url, PollOutcome};
use nxcli::text::{clean_text, has_prefix, same_text, trim_text};
use std::str::FromStr;

fn config() -> NxCliConfig {
    NxCliConfig::new("https://cloud.example".to_string(), "alice".to_string(), "secret".to_string())
}

#[test]
fn component_tokens_resolve_case_sensitively() {
    assert_eq!(CalendarComponents::from_token("VEVENT"), Some(CalendarComponents::Event));
    assert_eq!(CalendarComponents::from_token("VTODO"), Some(CalendarComponents::Todo));
    assert_eq!(CalendarComponents::from_token("vtodo"), None);
    assert_eq!(CalendarComponents::from_token("VJOURNAL"), None);
    assert_eq!(CalendarComponents::from_str("VTODO"), Ok(CalendarComponents::Todo));
    assert_eq!(CalendarComponents::from_str(""), Err(()));
    assert_eq!(CalendarComponents::from_str("VEVENT"), Ok(CalendarComponents::Event));
    assert_eq!(CalendarComponents::from_str("vtodo"), Err(()));
    assert_eq!(CalendarComponents::from_str("Vevent"), Err(()));
    assert_eq!(CalendarComponents::from_str("VJOURNAL"), Err(()));
    assert_eq!(CalendarComponents::from_str(" VTODO"), Err(()));
}

#[test]
fn default_calendar_is_empty() {
    let c = Calendar::default();
    assert_eq!(c.get_url(), "");
    assert!(!c.has_component(CalendarComponents::Event));
    assert_eq!(c.to_display_string(), " ()");
}

#[test]
fn text_helpers() {
    assert_eq!(trim_text(" \t a b \u{3000}"), "a b");
    assert_eq!(trim_text("   "), "");
    assert_eq!(clean_text(" \u{200B}x\u{200B}y "), "xy");
    assert_eq!(clean_text(""), "");
    assert!(same_text("DAV:", "DAV:"));
    assert!(!same_text("DAV:", "DAV"));
    assert!(has_prefix("https://x", "https://"));
    assert!(!has_prefix("http", "https://"));
}

#[test]
fn config_emptiness() {
    assert!(!config().is_empty());
    assert!(NxCliConfig::default().is_empty());
    assert!(NxCliConfig::new("s".to_string(), "u".to_string(), String::new()).is_empty());
}

#[test]
fn client_keeps_its_config() {
    let api = ApiClient::create(config());
    let c = api.get_config();
    assert_eq!(c.server, "https://cloud.example");
    assert_eq!(c.user, "alice");
    assert_eq!(c.app_password, "secret");
}

#[test]
fn url_template_fills_in_the_user() {
    let api = ApiClient::create(config());
    assert_eq!(
        api.build_url("/remote.php/dav/calendars/{user}/"),
        Some("https://cloud.example/remote.php/dav/calendars/alice/".to_string())
    );
    assert_eq!(api.build_url("/plain/"), Some("https://cloud.example/plain/".to_string()));
    assert_eq!(api.build_url("/{unknown}/"), None);
}

#[test]
fn auth_header_is_basic_base64_without_padding() {
    let api = ApiClient::create(NxCliConfig::new("s".to_string(), "user".to_string(), "pass".to_string()));
    assert_eq!(api.auth_header(), "Basic dXNlcjpwYXNz");
    let api = ApiClient::create(NxCliConfig::new("s".to_string(), "ab".to_string(), "c".to_string()));
    assert_eq!(api.auth_header(), "Basic YWI6Yw");
}

#[test]
fn server_url_gets_a_scheme() {
    assert_eq!(server_url("cloud.example"), "https://cloud.example");
    assert_eq!(server_url("http://cloud.example"), "http://cloud.example");
    assert_eq!(server_url("https://cloud.example"), "https://cloud.example");
}

#[test]
fn poll_schedule() {
    assert_eq!(poll_wait_secs(0), 10);
    assert_eq!(poll_wait_secs(1), 1);
    assert_eq!(poll_wait_secs(10), 1);
    assert_eq!(poll_wait_secs(11), 2);
    assert_eq!(poll_wait_secs(30), 2);
    assert_eq!(poll_wait_secs(31), 4);
    assert_eq!(poll_wait_secs(90), 4);
    assert_eq!(poll_wait_secs(91), 10);
    assert_eq!(poll_outcome(404), PollOutcome::Pending);
    assert_eq!(poll_outcome(200), PollOutcome::Granted);
    assert_eq!(poll_outcome(500), PollOutcome::Failed);
}
