use dynatrace_problem_forwarder::config::settings::{ConnectorConfig, HttpMethod};
use dynatrace_problem_forwarder::dynatrace::models::ProblemStatus;
use dynatrace_problem_forwarder::error::ForwarderError;
use dynatrace_problem_forwarder::forwarder::connector::{
    Connector, HttpStatus, PayloadShape, Reply, DEFAULT_RETRY_ATTEMPTS, DEFAULT_TIMEOUT_SECONDS,
};
use dynatrace_problem_forwarder::forwarder::retry::RetryStep;

fn config() -> ConnectorConfig {
    ConnectorConfig {
        name: "pager".to_string(),
        url: "https://pager.example.test/in".to_string(),
        method: HttpMethod::Put,
        headers: Some(vec![("X-Key".to_string(), "k".to_string())]),
        timeout_seconds: None,
        retry_attempts: None,
        verify_ssl: true,
        batch_mode: false,
    }
}

fn response(code: u16, body: Option<&str>) -> Reply {
    Reply::Response {
        status: HttpStatus::from_u16(code).expect("a status code"),
        body: body.map(|b| b.to_string()),
    }
}

#[test]
fn status_codes_run_from_100_to_999() {
    assert!(HttpStatus::from_u16(99).is_none());
    assert!(HttpStatus::from_u16(1000).is_none());
    assert!(HttpStatus::from_u16(0).is_none());
    assert_eq!(HttpStatus::from_u16(100).unwrap().as_u16(), 100);
    assert_eq!(HttpStatus::from_u16(999).unwrap().as_u16(), 999);
}

#[test]
fn success_is_200_to_299() {
    for code in [200u16, 201, 204, 299] {
        assert!(HttpStatus::from_u16(code).unwrap().is_success());
    }
    for code in [100u16, 199, 300, 404, 500, 999] {
        assert!(!HttpStatus::from_u16(code).unwrap().is_success());
    }
}

#[test]
fn status_is_printed_with_its_reason() {
    assert_eq!(HttpStatus::from_u16(200).unwrap().to_string(), "200 OK");
    assert_eq!(HttpStatus::from_u16(404).unwrap().to_string(), "404 Not Found");
    assert_eq!(HttpStatus::from_u16(799).unwrap().to_string(), "799 <unknown status code>");
}

#[test]
fn connector_reports_its_descriptor() {
    let c = Connector::new(config());
    assert_eq!(c.name(), "pager");
    assert!(!c.is_batch_mode());
    assert_eq!(c.timeout_seconds(), DEFAULT_TIMEOUT_SECONDS);
    assert_eq!(c.timeout_seconds(), 30);
    assert_eq!(c.max_attempts(), DEFAULT_RETRY_ATTEMPTS);
    assert_eq!(c.max_attempts(), 3);
    assert_eq!(c.config().url, "https://pager.example.test/in");
    let mut tuned = config();
    tuned.timeout_seconds = Some(7);
    tuned.retry_attempts = Some(1);
    tuned.batch_mode = true;
    let c = Connector::new(tuned);
    assert_eq!(c.timeout_seconds(), 7);
    assert_eq!(c.max_attempts(), 1);
    assert!(c.is_batch_mode());
}

#[test]
fn unverified_tls_is_never_silent() {
    assert_eq!(Connector::new(config()).tls_warning(), None);
    let mut lax = config();
    lax.verify_ssl = false;
    assert_eq!(
        Connector::new(lax).tls_warning(),
        Some(
            "SSL verification disabled for connector 'pager'. This should only be used for testing!"
                .to_string()
        )
    );
}

#[test]
fn requests_carry_method_url_headers_and_shape() {
    let c = Connector::new(config());
    let single = c.forward_problem();
    assert_eq!(single.operation, "forward to pager");
    assert_eq!(single.request.method, HttpMethod::Put);
    assert_eq!(single.request.url, "https://pager.example.test/in");
    assert_eq!(single.request.headers, vec![("X-Key".to_string(), "k".to_string())]);
    assert_eq!(single.request.payload, PayloadShape::Object);
    assert_eq!(single.retry.attempts_made(), 0);
    assert_eq!(single.retry.max_attempts(), 3);
    let batch = c.forward_problems_batch();
    assert_eq!(batch.operation, "forward batch to pager");
    assert_eq!(batch.request.payload, PayloadShape::Array);
    let mut bare = config();
    bare.headers = None;
    assert!(Connector::new(bare).build_request(PayloadShape::Array).headers.is_empty());
}

#[test]
fn a_delivery_starts_whatever_the_attempt_limit_is() {
    for attempts in [0u32, 1, 65, 66, 1000, u32::MAX] {
        let mut tuned = config();
        tuned.retry_attempts = Some(attempts);
        let c = Connector::new(tuned);
        let delivery = c.forward_problems_batch();
        assert_eq!(delivery.retry.max_attempts(), attempts);
        assert_eq!(delivery.retry.attempts_made(), 0);
        match c.on_reply(delivery.retry, response(200, None)) {
            RetryStep::Done(Ok(status)) => assert_eq!(status.as_u16(), 200),
            _ => panic!("the first success ends the delivery"),
        }
        let (sent, test_delivery) = c.test();
        assert_eq!(sent.problem_id, "TEST-12345");
        assert_eq!(test_delivery.retry.max_attempts(), attempts);
    }
}

#[test]
fn a_success_response_delivers() {
    let c = Connector::new(config());
    let status = c.check_reply(response(204, None)).expect("204 delivers");
    assert_eq!(status.as_u16(), 204);
}

#[test]
fn a_failure_response_carries_status_and_body() {
    let c = Connector::new(config());
    let error = c.check_reply(response(404, Some("no such hook"))).unwrap_err();
    assert_eq!(
        error,
        ForwarderError::Connector {
            connector: "pager".to_string(),
            message: "Connector error: https://pager.example.test/in: HTTP 404 Not Found: no such hook"
                .to_string(),
        }
    );
    assert_eq!(
        error.to_string(),
        "Connector error: pager: Connector error: https://pager.example.test/in: HTTP 404 Not Found: no such hook"
    );
    let unread = c.check_reply(response(500, None)).unwrap_err();
    assert_eq!(
        unread,
        ForwarderError::Connector {
            connector: "pager".to_string(),
            message: "Connector error: https://pager.example.test/in: HTTP 500 Internal Server Error: Unknown error"
                .to_string(),
        }
    );
}

#[test]
fn a_transport_failure_is_a_delivery_failure() {
    let c = Connector::new(config());
    let error = c.check_reply(Reply::Transport("connection refused".to_string())).unwrap_err();
    assert_eq!(
        error,
        ForwarderError::Connector {
            connector: "pager".to_string(),
            message: "Transport error: connection refused".to_string(),
        }
    );
}

#[test]
fn a_delivery_retries_until_it_is_accepted() {
    let c = Connector::new(config());
    let delivery = c.forward_problem();
    let retry = match c.on_reply(delivery.retry, Reply::Transport("timeout".to_string())) {
        RetryStep::Retry { state, delay_secs } => {
            assert_eq!(delay_secs, 1);
            state
        }
        RetryStep::Done(_) => panic!("gave up after one attempt"),
    };
    let retry = match c.on_reply(retry, response(503, Some("busy"))) {
        RetryStep::Retry { state, delay_secs } => {
            assert_eq!(delay_secs, 2);
            assert_eq!(state.attempts_made(), 2);
            state
        }
        RetryStep::Done(_) => panic!("gave up after two attempts"),
    };
    match c.on_reply(retry, response(200, Some("ok"))) {
        RetryStep::Done(Ok(status)) => assert_eq!(status.as_u16(), 200),
        _ => panic!("the third attempt was accepted"),
    }
}

#[test]
fn a_delivery_gives_up_after_the_last_attempt() {
    let mut once = config();
    once.retry_attempts = Some(2);
    let c = Connector::new(once);
    let delivery = c.forward_problems_batch();
    let retry = match c.on_reply(delivery.retry, response(500, Some("first"))) {
        RetryStep::Retry { state, .. } => state,
        RetryStep::Done(_) => panic!("gave up after one attempt"),
    };
    match c.on_reply(retry, response(502, Some("second"))) {
        RetryStep::Done(Err(ForwarderError::Connector { connector, message })) => {
            assert_eq!(connector, "pager");
            assert_eq!(
                message,
                "Connector error: https://pager.example.test/in: HTTP 502 Bad Gateway: second"
            );
        }
        _ => panic!("the last failure ends the delivery"),
    }
}

#[test]
fn the_test_problem_is_open_and_marked() {
    let p = Connector::test_problem_at(1_700_000_000_123);
    assert_eq!(p.problem_id, "TEST-12345");
    assert_eq!(p.display_id, "P-TEST");
    assert_eq!(p.title, "Test problem from dynatrace-problem-forwarder");
    assert_eq!(p.impact_level, "INFRASTRUCTURE");
    assert_eq!(p.severity_level, "CUSTOM_ALERT");
    assert_eq!(p.status, ProblemStatus::Open);
    assert!(p.is_open());
    assert!(p.affected_entities.is_empty());
    assert!(p.root_cause_entity.is_none());
    assert_eq!(p.start_time, 1_700_000_000_123);
    assert_eq!(p.end_time, -1);
    let (sent, delivery) = Connector::new(config()).test();
    assert_eq!(sent.problem_id, "TEST-12345");
    assert!(sent.start_time > 1_600_000_000_000);
    assert_eq!(delivery.request.payload, PayloadShape::Object);
    assert_eq!(delivery.operation, "forward to pager");
}
