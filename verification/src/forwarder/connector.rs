//! One downstream target: how a request to it is made up and how its answer
//! is judged. Sending is left to the caller.

use crate::config::settings::{
    pairs_view, ConnectorConfig, ConnectorConfigView, HttpMethod,
};
use crate::dynatrace::models::{Problem, ProblemStatus};
use crate::error::ForwarderError;
use crate::forwarder::retry::{delay_seconds, RetryState, RetryStateView, RetryStep};
use crate::storage::clock::unix_millis;
use vstd::prelude::*;
use vstd::string::*;

verus! {

/// What `reqwest::StatusCode` prints for a status code: the number and the
/// canonical reason phrase.
pub uninterp spec fn status_line(code: u16) -> Seq<char>;

/// Asks `reqwest::StatusCode::is_success` whether the code stands for
/// success, which it does from 200 to 299. `StatusCode::from_u16` accepts
/// the codes from 100 to 999.
#[verifier::external_body]
fn status_is_success(code: u16) -> (yes: bool)
    requires
        100 <= code <= 999,
    ensures
        yes == (200 <= code <= 299),
{
    match reqwest::StatusCode::from_u16(code) {
        Ok(status) => status.is_success(),
        Err(_) => false,
    }
}

/// Prints a status code as `reqwest::StatusCode` displays it.
/// `StatusCode::from_u16` accepts the codes from 100 to 999.
#[verifier::external_body]
fn status_display(code: u16) -> (line: String)
    requires
        100 <= code <= 999,
    ensures
        line@ == status_line(code),
{
    match reqwest::StatusCode::from_u16(code) {
        Ok(status) => status.to_string(),
        Err(_) => String::new(),
    }
}

/// The status code of an HTTP response: a number from 100 to 999.
#[derive(Debug, Clone, Copy)]
pub struct HttpStatus {
    code: u16,
}

impl View for HttpStatus {
    type V = u16;

    closed spec fn view(&self) -> u16 {
        self.code
    }
}

impl HttpStatus {
    #[verifier::type_invariant]
    spec fn valid(self) -> bool {
        100 <= self.code <= 999
    }

    /// The status with this code, if the code is one.
    pub fn from_u16(code: u16) -> (status: Option<Self>)
        ensures
            match status {
                Some(s) => s@ == code && 100 <= code <= 999,
                None => !(100 <= code <= 999),
            },
    {
        if 100 <= code && code <= 999 {
            Some(HttpStatus { code })
        } else {
            None
        }
    }

    /// The code.
    pub fn as_u16(&self) -> (code: u16)
        ensures
            code == self@,
            100 <= code <= 999,
    {
        proof {
            use_type_invariant(self);
        }
        self.code
    }

    /// Whether the status stands for success: a code from 200 to 299.
    pub fn is_success(&self) -> (yes: bool)
        ensures
            yes == (200 <= self@ <= 299),
    {
        proof {
            use_type_invariant(self);
        }
        status_is_success(self.code)
    }

    /// The code followed by its canonical reason phrase.
    pub fn to_string(&self) -> (line: String)
        ensures
            line@ == status_line(self@),
    {
        proof {
            use_type_invariant(self);
        }
        status_display(self.code)
    }
}

/// Whether a request carries one problem or all problems of a cycle.
#[derive(Debug, Clone, Copy, PartialEq, Eq, Structural)]
pub enum PayloadShape {
    /// The body is one JSON object: a single problem.
    Object,
    /// The body is one JSON array: every problem of the cycle.
    Array,
}

/// A request as it is to be sent, without its body.
#[derive(Debug)]
pub struct OutboundRequest {
    pub method: HttpMethod,
    pub url: String,
    pub headers: Vec<(String, String)>,
    pub payload: PayloadShape,
}

/// A delivery that is about to start: the request to send on every attempt,
/// the name under which attempts are reported, and the retry state.
pub struct Delivery {
    pub operation: String,
    pub request: OutboundRequest,
    pub retry: RetryState,
}

/// What came back from one attempt to send a request.
pub enum Reply {
    /// A response arrived. `body` is its text where it could be read.
    Response { status: HttpStatus, body: Option<String> },
    /// No response arrived: a timeout, a refused connection, a TLS failure.
    /// The text is the diagnostic of the transport.
    Transport(String),
}

/// The text of a response body, or a stand-in where it could not be read.
pub open spec fn body_text(body: Option<String>) -> Seq<char> {
    match body {
        Some(b) => b@,
        None => "Unknown error"@,
    }
}

/// What an attempt failed with, before the connector's name is put in
/// front: for a response outside 200 to 299 the rendering of a connector
/// error under the target URL that carries the status line and the body;
/// for a transport failure the diagnostic of the transport, marked as such.
pub open spec fn failure_detail(url: Seq<char>, reply: Reply) -> Seq<char> {
    match reply {
        Reply::Response { status, body } => "Connector error: "@ + url + ": "@ + ("HTTP "@
            + status_line(status@) + ": "@ + body_text(body)),
        Reply::Transport(diagnostic) => "Transport error: "@ + diagnostic@,
    }
}

/// Whether an attempt with this reply delivered: a response with a code
/// from 200 to 299 arrived.
pub open spec fn delivered(reply: Reply) -> bool {
    reply matches Reply::Response { status, .. } && 200 <= status@ <= 299
}

/// The result of an attempt as a plain value: the status code of the
/// response that accepted the delivery, or the connector's name and the
/// detail of the failure.
pub open spec fn attempt_result(c: ConnectorConfigView, reply: Reply) -> Result<
    u16,
    (Seq<char>, Seq<char>),
> {
    if delivered(reply) {
        Ok(reply->status@)
    } else {
        Err((c.name, failure_detail(c.url, reply)))
    }
}

/// An attempt's result in the library's types as a plain value.
pub open spec fn outcome_view(r: Result<HttpStatus, ForwarderError>) -> Result<
    u16,
    (Seq<char>, Seq<char>),
> {
    match r {
        Ok(s) => Ok(s@),
        Err(ForwarderError::Connector { connector, message }) => Err((connector@, message@)),
        Err(e) => Err((Seq::empty(), e.text())),
    }
}

/// The number of seconds after which an attempt is given up where the
/// descriptor sets none.
pub const DEFAULT_TIMEOUT_SECONDS: u64 = 30;

/// The number of attempts where the descriptor sets none.
pub const DEFAULT_RETRY_ATTEMPTS: u32 = 3;

/// A downstream target.
pub struct Connector {
    config: ConnectorConfig,
}

impl View for Connector {
    type V = ConnectorConfigView;

    closed spec fn view(&self) -> ConnectorConfigView {
        self.config@
    }
}

impl ConnectorConfigView {
    /// The number of attempts a delivery may take.
    pub open spec fn attempts(self) -> u32 {
        match self.retry_attempts {
            Some(n) => n,
            None => DEFAULT_RETRY_ATTEMPTS,
        }
    }

    /// The headers that every request carries.
    pub open spec fn request_headers(self) -> Seq<(Seq<char>, Seq<char>)> {
        match self.headers {
            Some(h) => h,
            None => Seq::empty(),
        }
    }

    /// The name under which the attempts of a delivery are reported.
    pub open spec fn operation(self, payload: PayloadShape) -> Seq<char> {
        match payload {
            PayloadShape::Object => "forward to "@ + self.name,
            PayloadShape::Array => "forward batch to "@ + self.name,
        }
    }

    /// The text that warns of a connector that does not verify certificates.
    pub open spec fn tls_warning(self) -> Seq<char> {
        "SSL verification disabled for connector '"@ + self.name
            + "'. This should only be used for testing!"@
    }
}

/// Whether `d` is how a delivery to connector `c` with this shape of body
/// starts: with the configured method, URL and headers, the operation's
/// name, and a fresh retry state for the configured number of attempts.
pub open spec fn starts_delivery(c: ConnectorConfigView, payload: PayloadShape, d: Delivery) -> bool {
    &&& d.operation@ == c.operation(payload)
    &&& d.request.method == c.method
    &&& d.request.url@ == c.url
    &&& pairs_view(d.request.headers@) == c.request_headers()
    &&& d.request.payload == payload
    &&& d.retry@ == (RetryStateView { attempts_made: 0, max_attempts: c.attempts() as nat })
}

/// Whether `p` is the problem that a connector test sends.
pub open spec fn is_test_problem(p: Problem) -> bool {
    &&& p.problem_id@ == "TEST-12345"@
    &&& p.display_id@ == "P-TEST"@
    &&& p.title@ == "Test problem from dynatrace-problem-forwarder"@
    &&& p.impact_level@ == "INFRASTRUCTURE"@
    &&& p.severity_level@ == "CUSTOM_ALERT"@
    &&& p.status == ProblemStatus::Open
    &&& p.affected_entities@.len() == 0
    &&& p.impacted_entities@.len() == 0
    &&& p.root_cause_entity is None
    &&& p.management_zones@.len() == 0
    &&& p.entity_tags@.len() == 0
    &&& p.problem_filters@.len() == 0
    &&& p.end_time == -1
}

/// Whether `p` and `d` are how a test of connector `c` starts: with the
/// test problem and its delivery as a single problem.
pub open spec fn starts_test(c: ConnectorConfigView, p: Problem, d: Delivery) -> bool {
    is_test_problem(p) && starts_delivery(c, PayloadShape::Object, d)
}

impl Connector {
    /// The connector that `config` describes.
    pub fn new(config: ConnectorConfig) -> (c: Self)
        ensures
            c@ == config@,
    {
        Connector { config }
    }

    /// The descriptor.
    pub fn config(&self) -> (config: &ConnectorConfig)
        ensures
            config@ == self@,
    {
        &self.config
    }

    /// The connector's name.
    pub fn name(&self) -> (name: &str)
        ensures
            name@ == self@.name,
    {
        self.config.name.as_str()
    }

    /// Whether the connector takes all problems of a cycle in one request.
    pub fn is_batch_mode(&self) -> (batch: bool)
        ensures
            batch == self@.batch_mode,
    {
        self.config.batch_mode
    }

    /// After how many seconds an attempt is given up.
    pub fn timeout_seconds(&self) -> (secs: u64)
        ensures
            secs == match self@.timeout_seconds {
                Some(t) => t,
                None => DEFAULT_TIMEOUT_SECONDS,
            },
    {
        match self.config.timeout_seconds {
            Some(t) => t,
            None => DEFAULT_TIMEOUT_SECONDS,
        }
    }

    /// How many attempts a delivery may take.
    pub fn max_attempts(&self) -> (n: u32)
        ensures
            n == self@.attempts(),
    {
        match self.config.retry_attempts {
            Some(n) => n,
            None => DEFAULT_RETRY_ATTEMPTS,
        }
    }

    /// The warning that is owed at startup: present exactly if the
    /// connector does not verify certificates.
    pub fn tls_warning(&self) -> (warning: Option<String>)
        ensures
            match warning {
                Some(w) => !self@.verify_ssl && w@ == self@.tls_warning(),
                None => self@.verify_ssl,
            },
    {
        if self.config.verify_ssl {
            None
        } else {
            Some(
                String::from_str("SSL verification disabled for connector '").concat(
                    self.config.name.as_str(),
                ).concat("'. This should only be used for testing!"),
            )
        }
    }

    /// The request of a delivery: the configured method, URL and headers,
    /// and the shape of the body.
    pub fn build_request(&self, payload: PayloadShape) -> (request: OutboundRequest)
        ensures
            request.method == self@.method,
            request.url@ == self@.url,
            pairs_view(request.headers@) == self@.request_headers(),
            request.payload == payload,
    {
        let config = self.config.clone();
        assert(config@ == self@);
        let headers = match config.headers {
            Some(h) => h,
            None => {
                let h: Vec<(String, String)> = Vec::new();
                assert(pairs_view(h@) =~= Seq::empty());
                h
            },
        };
        OutboundRequest { method: config.method, url: config.url, headers, payload }
    }

    /// Starts a delivery with this shape of body.
    pub fn start_delivery(&self, payload: PayloadShape) -> (d: Delivery)
        ensures
            starts_delivery(self@, payload, d),
    {
        let operation = match payload {
            PayloadShape::Object => String::from_str("forward to ").concat(
                self.config.name.as_str(),
            ),
            PayloadShape::Array => String::from_str("forward batch to ").concat(
                self.config.name.as_str(),
            ),
        };
        Delivery {
            operation,
            request: self.build_request(payload),
            retry: RetryState::new(self.max_attempts()),
        }
    }

    /// Starts the delivery of one problem: a request whose body is that
    /// problem as one JSON object.
    pub fn forward_problem(&self) -> (d: Delivery)
        ensures
            starts_delivery(self@, PayloadShape::Object, d),
    {
        self.start_delivery(PayloadShape::Object)
    }

    /// Starts the delivery of all problems of a cycle in one request whose
    /// body is one JSON array.
    pub fn forward_problems_batch(&self) -> (d: Delivery)
        ensures
            starts_delivery(self@, PayloadShape::Array, d),
    {
        self.start_delivery(PayloadShape::Array)
    }

    /// Judges one attempt: a response with a code from 200 to 299 delivers;
    /// any other response and any transport failure is a failure of this
    /// connector that carries the detail.
    pub fn check_reply(&self, reply: Reply) -> (r: Result<HttpStatus, ForwarderError>)
        ensures
            outcome_view(r) == attempt_result(self@, reply),
            r matches Err(e) ==> e is Connector,
    {
        let message = match reply {
            Reply::Response { status, body } => {
                if status.is_success() {
                    return Ok(status);
                }
                let text = match body {
                    Some(b) => b,
                    None => String::from_str("Unknown error"),
                };
                let line = status.to_string();
                let rejected = ForwarderError::Connector {
                    connector: self.config.url.clone(),
                    message: String::from_str("HTTP ").concat(line.as_str()).concat(": ").concat(
                        text.as_str(),
                    ),
                };
                rejected.to_string()
            },
            Reply::Transport(diagnostic) => String::from_str("Transport error: ").concat(
                diagnostic.as_str(),
            ),
        };
        Err(ForwarderError::Connector { connector: self.config.name.clone(), message })
    }

    /// Takes the reply to the attempt that was just made and answers
    /// whether the delivery is over or is to be tried again, and after how
    /// many seconds.
    pub fn on_reply(&self, retry: RetryState, reply: Reply) -> (step: RetryStep<
        HttpStatus,
        ForwarderError,
    >)
        ensures
            match step {
                RetryStep::Done(r) => {
                    &&& outcome_view(r) == attempt_result(self@, reply)
                    &&& (delivered(reply) || retry@.attempts_made + 1 >= retry@.max_attempts)
                },
                RetryStep::Retry { state, delay_secs } => {
                    &&& !delivered(reply)
                    &&& retry@.attempts_made + 1 < retry@.max_attempts
                    &&& delay_secs == delay_seconds(retry@.attempts_made + 1)
                    &&& state@ == (RetryStateView {
                        attempts_made: retry@.attempts_made + 1,
                        max_attempts: retry@.max_attempts,
                    })
                },
            },
    {
        let outcome = self.check_reply(reply);
        retry.on_result(outcome)
    }

    /// The problem that a connector test sends: open, marked as a test, with
    /// no entities, started at `now_millis` and not ended.
    pub fn test_problem_at(now_millis: i64) -> (p: Problem)
        ensures
            is_test_problem(p),
            p.start_time == now_millis,
    {
        Problem {
            problem_id: String::from_str("TEST-12345"),
            display_id: String::from_str("P-TEST"),
            title: String::from_str("Test problem from dynatrace-problem-forwarder"),
            impact_level: String::from_str("INFRASTRUCTURE"),
            severity_level: String::from_str("CUSTOM_ALERT"),
            status: ProblemStatus::Open,
            affected_entities: Vec::new(),
            impacted_entities: Vec::new(),
            root_cause_entity: None,
            management_zones: Vec::new(),
            entity_tags: Vec::new(),
            problem_filters: Vec::new(),
            start_time: now_millis,
            end_time: -1,
        }
    }

    /// Starts a test of the connector: the problem to send, started now by
    /// the system clock, and its delivery as a single problem. The tracking
    /// store is not involved.
    pub fn test(&self) -> (started: (Problem, Delivery))
        ensures
            starts_test(self@, started.0, started.1),
    {
        let now = unix_millis();
        let problem = Connector::test_problem_at(now);
        (problem, self.forward_problem())
    }
}

} // verus!
