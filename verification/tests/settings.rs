use dynatrace_problem_forwarder::config::settings::{
    default_log_format, default_log_level, default_method, default_verify_ssl, lookup_variable,
    placeholder_variable, resolve_headers, resolve_value, ConnectorConfig, DatabaseConfig,
    DynatraceConfig, HttpMethod, LoggingConfig, PollingConfig, Settings,
};
use dynatrace_problem_forwarder::error::ForwarderError;
use dynatrace_problem_forwarder::text::{starts_with, trim_trailing};

fn hook() -> ConnectorConfig {
    ConnectorConfig {
        name: "hook".to_string(),
        url: "https://example.test/hook".to_string(),
        method: default_method(),
        headers: Some(vec![
            ("Authorization".to_string(), "${HOOK_TOKEN}".to_string()),
            ("X-Source".to_string(), "relay".to_string()),
        ]),
        timeout_seconds: Some(5),
        retry_attempts: Some(2),
        verify_ssl: default_verify_ssl(),
        batch_mode: false,
    }
}

fn valid() -> Settings {
    Settings {
        dynatrace: DynatraceConfig {
            base_url: "https://dt.example.test/".to_string(),
            tenant: "abc123".to_string(),
            problem_selector: None,
            api_token: Some("secret".to_string()),
        },
        polling: PollingConfig { interval_seconds: 30, batch_size: Some(50) },
        database: DatabaseConfig { path: "state.db".to_string() },
        connectors: vec![hook()],
        logging: LoggingConfig { level: default_log_level(), format: default_log_format() },
    }
}

fn fault_of(settings: &Settings) -> String {
    match settings.validate() {
        Err(ForwarderError::Validation(m)) => m,
        Ok(()) => panic!("the settings were accepted"),
        Err(other) => panic!("another error came back: {}", other.to_string()),
    }
}

fn env() -> Vec<(String, String)> {
    vec![
        ("HOME".to_string(), "/root".to_string()),
        ("HOOK_TOKEN".to_string(), "Bearer abc".to_string()),
        ("HOOK_TOKEN".to_string(), "shadowed".to_string()),
    ]
}

#[test]
fn defaults_are_as_documented() {
    assert_eq!(default_method(), HttpMethod::Post);
    assert!(default_verify_ssl());
    assert_eq!(default_log_level(), "info");
    assert_eq!(default_log_format(), "pretty");
    let logging = LoggingConfig::default();
    assert_eq!(logging.level, "info");
    assert_eq!(logging.format, "pretty");
}

#[test]
fn valid_settings_pass() {
    assert_eq!(valid().validate(), Ok(()));
    let mut plain = valid();
    plain.connectors[0].url = "http://example.test".to_string();
    assert_eq!(plain.validate(), Ok(()));
}

#[test]
fn empty_base_url_is_rejected_first() {
    let mut s = valid();
    s.dynatrace.base_url = String::new();
    s.dynatrace.tenant = String::new();
    assert_eq!(fault_of(&s), "Dynatrace base_url cannot be empty");
}

#[test]
fn empty_tenant_is_rejected() {
    let mut s = valid();
    s.dynatrace.tenant = String::new();
    s.dynatrace.api_token = None;
    assert_eq!(fault_of(&s), "Dynatrace tenant cannot be empty");
}

#[test]
fn missing_token_is_rejected() {
    let mut s = valid();
    s.dynatrace.api_token = None;
    s.polling.interval_seconds = 0;
    assert_eq!(fault_of(&s), "DYNATRACE_API_TOKEN environment variable is required");
}

#[test]
fn zero_interval_is_rejected() {
    let mut s = valid();
    s.polling.interval_seconds = 0;
    s.connectors.clear();
    assert_eq!(fault_of(&s), "polling.interval_seconds must be greater than 0");
}

#[test]
fn settings_without_connectors_are_rejected() {
    let mut s = valid();
    s.connectors.clear();
    assert_eq!(fault_of(&s), "At least one connector must be configured");
}

#[test]
fn the_first_faulty_connector_is_named() {
    let mut s = valid();
    let mut no_url = hook();
    no_url.name = "second".to_string();
    no_url.url = String::new();
    let mut bad_scheme = hook();
    bad_scheme.name = "third".to_string();
    bad_scheme.url = "ftp://example.test".to_string();
    s.connectors = vec![hook(), no_url, bad_scheme.clone()];
    assert_eq!(fault_of(&s), "Connector 'second' URL cannot be empty");
    s.connectors = vec![hook(), bad_scheme];
    assert_eq!(fault_of(&s), "Connector 'third' URL must start with http:// or https://");
    let mut nameless = hook();
    nameless.name = String::new();
    nameless.url = String::new();
    s.connectors = vec![nameless];
    assert_eq!(fault_of(&s), "Connector name cannot be empty");
    let mut nearly = hook();
    nearly.url = "http:/example.test".to_string();
    assert_eq!(
        nearly.validate(),
        Err(ForwarderError::Validation(
            "Connector 'hook' URL must start with http:// or https://".to_string()
        ))
    );
}

#[test]
fn a_repeated_header_name_is_rejected_last() {
    let mut s = valid();
    s.connectors[0].headers = Some(vec![
        ("X-Key".to_string(), "1".to_string()),
        ("X-Key".to_string(), "2".to_string()),
    ]);
    assert_eq!(fault_of(&s), "Connector 'hook' repeats a header name");
    s.connectors[0].url = "ftp://example.test".to_string();
    assert_eq!(fault_of(&s), "Connector 'hook' URL must start with http:// or https://");
}

#[test]
fn problems_url_drops_trailing_slashes() {
    let mut s = valid();
    assert_eq!(s.get_problems_url(), "https://dt.example.test/e/abc123/api/v2/problems");
    s.dynatrace.base_url = "https://dt.example.test///".to_string();
    assert_eq!(s.get_problems_url(), "https://dt.example.test/e/abc123/api/v2/problems");
    s.dynatrace.base_url = "https://dt.example.test".to_string();
    assert_eq!(s.get_problems_url(), "https://dt.example.test/e/abc123/api/v2/problems");
}

#[test]
fn problems_url_carries_the_selector() {
    let mut s = valid();
    s.dynatrace.problem_selector = Some("status(\"open\")".to_string());
    assert_eq!(
        s.get_problems_url(),
        "https://dt.example.test/e/abc123/api/v2/problems?problemSelector=status(\"open\")&sort=-startTime"
    );
}

#[test]
fn text_helpers_work_on_characters() {
    assert!(starts_with("https://x", "https://"));
    assert!(starts_with("abc", ""));
    assert!(!starts_with("http", "http://"));
    assert!(!starts_with("xhttp://", "http://"));
    assert!(starts_with("äöü-rest", "äöü"));
    assert_eq!(trim_trailing("a/b//", '/'), "a/b");
    assert_eq!(trim_trailing("///", '/'), "");
    assert_eq!(trim_trailing("", '/'), "");
    assert_eq!(trim_trailing("é/", '/'), "é");
}

#[test]
fn placeholders_are_recognised() {
    assert_eq!(placeholder_variable("${TOKEN}"), Some("TOKEN".to_string()));
    assert_eq!(placeholder_variable("${}"), Some(String::new()));
    assert_eq!(placeholder_variable("${A}${B}"), Some("A}${B".to_string()));
    assert_eq!(placeholder_variable("${"), None);
    assert_eq!(placeholder_variable("$}"), None);
    assert_eq!(placeholder_variable("${TOKEN"), None);
    assert_eq!(placeholder_variable("x${TOKEN}"), None);
    assert_eq!(placeholder_variable("Bearer abc"), None);
    assert_eq!(placeholder_variable(""), None);
}

#[test]
fn placeholders_are_replaced_where_the_variable_is_set() {
    let env = env();
    assert_eq!(lookup_variable(&env, &"HOOK_TOKEN".to_string()), Some("Bearer abc".to_string()));
    assert_eq!(lookup_variable(&env, &"MISSING".to_string()), None);
    assert_eq!(resolve_value("${HOOK_TOKEN}".to_string(), &env), "Bearer abc");
    assert_eq!(resolve_value("${MISSING}".to_string(), &env), "${MISSING}");
    assert_eq!(resolve_value("plain".to_string(), &env), "plain");
    let headers = resolve_headers(hook().headers.unwrap(), &env);
    assert_eq!(
        headers,
        vec![
            ("Authorization".to_string(), "Bearer abc".to_string()),
            ("X-Source".to_string(), "relay".to_string()),
        ]
    );
}

#[test]
fn repeated_header_names_are_found() {
    assert!(hook().has_distinct_headers());
    let mut bare = hook();
    bare.headers = None;
    assert!(bare.has_distinct_headers());
    bare.headers = Some(vec![]);
    assert!(bare.has_distinct_headers());
    let mut twice = hook();
    twice.headers = Some(vec![
        ("A".to_string(), "1".to_string()),
        ("B".to_string(), "1".to_string()),
        ("A".to_string(), "2".to_string()),
    ]);
    assert!(!twice.has_distinct_headers());
    let resolved = hook().resolve_placeholders(&env());
    assert!(resolved.has_distinct_headers());
}

#[test]
fn settings_resolve_the_headers_of_every_connector() {
    let mut s = valid();
    let mut second = hook();
    second.name = "second".to_string();
    second.headers = Some(vec![("X-Home".to_string(), "${HOME}".to_string())]);
    let mut third = hook();
    third.headers = None;
    s.connectors = vec![hook(), second, third];
    let resolved = s.resolve_placeholders(&env());
    assert_eq!(resolved.connectors.len(), 3);
    assert_eq!(resolved.connectors[0].headers.as_ref().unwrap()[0].1, "Bearer abc");
    assert_eq!(resolved.connectors[0].headers.as_ref().unwrap()[1].1, "relay");
    assert_eq!(resolved.connectors[1].name, "second");
    assert_eq!(resolved.connectors[1].headers.as_ref().unwrap()[0].1, "/root");
    assert!(resolved.connectors[2].headers.is_none());
    assert_eq!(resolved.connectors[0].url, "https://example.test/hook");
    assert_eq!(resolved.dynatrace.tenant, "abc123");
    assert_eq!(resolved.polling.interval_seconds, 30);
}
