//! The settings, their defaults, their validation and the substitution of
//! environment placeholders in connector headers.

use crate::error::ForwarderError;
use crate::text::{starts_with, trim_trailing, without_trailing};
use vstd::prelude::*;
use vstd::string::*;

verus! {

#[derive(Debug, Clone)]
pub struct Settings {
    pub dynatrace: DynatraceConfig,
    pub polling: PollingConfig,
    pub database: DatabaseConfig,
    pub connectors: Vec<ConnectorConfig>,
    pub logging: LoggingConfig,
}

#[derive(Debug, Clone)]
pub struct DynatraceConfig {
    pub base_url: String,
    pub tenant: String,
    pub problem_selector: Option<String>,
    pub api_token: Option<String>,
}

#[derive(Debug, Clone)]
pub struct PollingConfig {
    pub interval_seconds: u64,
    pub batch_size: Option<usize>,
}

/// Where the durable copy of the tracking store lies. The path is held as
/// text.
#[derive(Debug, Clone)]
pub struct DatabaseConfig {
    pub path: String,
}

/// The HTTP method a connector is called with.
#[derive(Debug, Clone, Copy, PartialEq, Eq, Structural)]
pub enum HttpMethod {
    Get,
    Post,
    Put,
    Patch,
}

/// The descriptor of one downstream target. `headers` holds each header
/// name once in a descriptor that passes validation; `batch_mode` says
/// whether the connector takes all problems of a cycle in one request or
/// one request per problem.
#[derive(Debug)]
pub struct ConnectorConfig {
    pub name: String,
    pub url: String,
    pub method: HttpMethod,
    pub headers: Option<Vec<(String, String)>>,
    pub timeout_seconds: Option<u64>,
    pub retry_attempts: Option<u32>,
    pub verify_ssl: bool,
    pub batch_mode: bool,
}

#[derive(Debug, Clone)]
pub struct LoggingConfig {
    pub level: String,
    pub format: String,
}

/// A name and a value as plain text.
pub open spec fn pair_view(p: (String, String)) -> (Seq<char>, Seq<char>) {
    (p.0@, p.1@)
}

/// A list of names and values as plain text.
pub open spec fn pairs_view(ps: Seq<(String, String)>) -> Seq<(Seq<char>, Seq<char>)> {
    ps.map_values(|p: (String, String)| pair_view(p))
}

/// Optional headers as plain text.
pub open spec fn headers_view(h: Option<Vec<(String, String)>>) -> Option<
    Seq<(Seq<char>, Seq<char>)>,
> {
    match h {
        Some(v) => Some(pairs_view(v@)),
        None => None,
    }
}

/// Whether no name occurs twice in a list of names and values.
pub open spec fn names_distinct(ps: Seq<(Seq<char>, Seq<char>)>) -> bool {
    forall|i: int, j: int| 0 <= i < j < ps.len() ==> (#[trigger] ps[i]).0 != (#[trigger] ps[j]).0
}

/// A connector descriptor as a plain value.
pub struct ConnectorConfigView {
    pub name: Seq<char>,
    pub url: Seq<char>,
    pub method: HttpMethod,
    pub headers: Option<Seq<(Seq<char>, Seq<char>)>>,
    pub timeout_seconds: Option<u64>,
    pub retry_attempts: Option<u32>,
    pub verify_ssl: bool,
    pub batch_mode: bool,
}

impl View for ConnectorConfig {
    type V = ConnectorConfigView;

    open spec fn view(&self) -> ConnectorConfigView {
        ConnectorConfigView {
            name: self.name@,
            url: self.url@,
            method: self.method,
            headers: headers_view(self.headers),
            timeout_seconds: self.timeout_seconds,
            retry_attempts: self.retry_attempts,
            verify_ssl: self.verify_ssl,
            batch_mode: self.batch_mode,
        }
    }
}

/// Connector descriptors as plain values.
pub open spec fn connector_views(cs: Seq<ConnectorConfig>) -> Seq<ConnectorConfigView> {
    cs.map_values(|c: ConnectorConfig| c@)
}

/// The value that `name` has in `env`, where the first entry of a name counts.
pub open spec fn env_value(env: Seq<(Seq<char>, Seq<char>)>, name: Seq<char>) -> Option<Seq<char>>
    decreases env.len(),
{
    if env.len() == 0 {
        None
    } else if env[0].0 == name {
        Some(env[0].1)
    } else {
        env_value(env.skip(1), name)
    }
}

/// The variable that a header value stands for: the text between `${` and
/// a closing `}` that ends the value.
pub open spec fn placeholder_name(value: Seq<char>) -> Option<Seq<char>> {
    if value.len() >= 3 && value[0] == '$' && value[1] == '{' && value.last() == '}' {
        Some(value.subrange(2, value.len() - 1))
    } else {
        None
    }
}

/// A header value after substitution: the value of the variable it stands
/// for, where it stands for one that `env` holds; else the value itself.
pub open spec fn resolved_value(value: Seq<char>, env: Seq<(Seq<char>, Seq<char>)>) -> Seq<char> {
    match placeholder_name(value) {
        Some(name) => match env_value(env, name) {
            Some(v) => v,
            None => value,
        },
        None => value,
    }
}

/// Headers after substitution: every name stays, every value is resolved.
pub open spec fn resolved_pairs(
    ps: Seq<(Seq<char>, Seq<char>)>,
    env: Seq<(Seq<char>, Seq<char>)>,
) -> Seq<(Seq<char>, Seq<char>)> {
    ps.map_values(|p: (Seq<char>, Seq<char>)| (p.0, resolved_value(p.1, env)))
}

/// Substitution changes no header name: headers whose names are distinct
/// stay so.
pub proof fn lemma_resolved_keeps_names(
    ps: Seq<(Seq<char>, Seq<char>)>,
    env: Seq<(Seq<char>, Seq<char>)>,
)
    ensures
        resolved_pairs(ps, env).len() == ps.len(),
        forall|i: int| 0 <= i < ps.len() ==> (#[trigger] resolved_pairs(ps, env)[i]).0 == ps[i].0,
        names_distinct(ps) ==> names_distinct(resolved_pairs(ps, env)),
{
    if names_distinct(ps) {
        let r = resolved_pairs(ps, env);
        assert forall|i: int, j: int| 0 <= i < j < r.len() implies (#[trigger] r[i]).0 != (
        #[trigger] r[j]).0 by {
            assert(r[i].0 == ps[i].0);
            assert(r[j].0 == ps[j].0);
        }
    }
}

impl ConnectorConfigView {
    /// Whether no header name occurs twice.
    pub open spec fn headers_distinct(self) -> bool {
        self.headers matches Some(ps) ==> names_distinct(ps)
    }

    /// The descriptor after substitution in its headers.
    pub open spec fn resolved(self, env: Seq<(Seq<char>, Seq<char>)>) -> ConnectorConfigView {
        ConnectorConfigView {
            headers: match self.headers {
                Some(ps) => Some(resolved_pairs(ps, env)),
                None => None,
            },
            ..self
        }
    }

    /// The rule that the descriptor breaks, if it breaks one: the name and
    /// the URL must not be empty, the URL must start with `http://` or
    /// `https://`, and no header name may occur twice.
    pub open spec fn fault(self) -> Option<Seq<char>> {
        if self.name.len() == 0 {
            Some("Connector name cannot be empty"@)
        } else if self.url.len() == 0 {
            Some("Connector '"@ + self.name + "' URL cannot be empty"@)
        } else if !"http://"@.is_prefix_of(self.url) && !"https://"@.is_prefix_of(self.url) {
            Some("Connector '"@ + self.name + "' URL must start with http:// or https://"@)
        } else if !self.headers_distinct() {
            Some("Connector '"@ + self.name + "' repeats a header name"@)
        } else {
            None
        }
    }
}

/// The first rule that one of the descriptors breaks, in their order.
pub open spec fn first_connector_fault(cs: Seq<ConnectorConfigView>) -> Option<Seq<char>>
    decreases cs.len(),
{
    if cs.len() == 0 {
        None
    } else {
        match cs[0].fault() {
            Some(m) => Some(m),
            None => first_connector_fault(cs.skip(1)),
        }
    }
}

/// The address of the problems endpoint: the base URL without trailing
/// slashes, the tenant's path and, where a selector is set, the query that
/// carries it and asks for the newest problems first.
pub open spec fn problems_url(base_url: Seq<char>, tenant: Seq<char>, selector: Option<Seq<char>>) -> Seq<
    char,
> {
    let path = without_trailing(base_url, '/') + "/e/"@ + tenant + "/api/v2/problems"@;
    match selector {
        Some(s) => path + "?problemSelector="@ + s + "&sort=-startTime"@,
        None => path,
    }
}

/// The method a connector is called with where none is set.
pub fn default_method() -> (m: HttpMethod)
    ensures
        m == HttpMethod::Post,
{
    HttpMethod::Post
}

/// Whether certificates are verified where nothing is set: they are.
pub fn default_verify_ssl() -> (v: bool)
    ensures
        v,
{
    true
}

/// The log level where none is set.
pub fn default_log_level() -> (s: String)
    ensures
        s@ == "info"@,
{
    String::from_str("info")
}

/// The log format where none is set.
pub fn default_log_format() -> (s: String)
    ensures
        s@ == "pretty"@,
{
    String::from_str("pretty")
}

impl Default for LoggingConfig {
    fn default() -> (c: Self)
        ensures
            c.level@ == "info"@,
            c.format@ == "pretty"@,
    {
        LoggingConfig { level: default_log_level(), format: default_log_format() }
    }
}

fn clone_pairs(ps: &Vec<(String, String)>) -> (c: Vec<(String, String)>)
    ensures
        pairs_view(c@) == pairs_view(ps@),
{
    let mut c: Vec<(String, String)> = Vec::new();
    let mut i: usize = 0;
    while i < ps.len()
        invariant
            i <= ps.len(),
            c.len() == i,
            forall|j: int| 0 <= j < i ==> pair_view(c[j]) == pair_view(ps[j]),
        decreases ps.len() - i,
    {
        let name = ps[i].0.clone();
        let value = ps[i].1.clone();
        c.push((name, value));
        i += 1;
    }
    assert(pairs_view(c@) =~= pairs_view(ps@));
    c
}

impl Clone for ConnectorConfig {
    fn clone(&self) -> (c: Self)
        ensures
            c@ == self@,
    {
        ConnectorConfig {
            name: self.name.clone(),
            url: self.url.clone(),
            method: self.method,
            headers: match &self.headers {
                Some(ps) => Some(clone_pairs(ps)),
                None => None,
            },
            timeout_seconds: self.timeout_seconds,
            retry_attempts: self.retry_attempts,
            verify_ssl: self.verify_ssl,
            batch_mode: self.batch_mode,
        }
    }
}

/// The variable that a header value stands for, if it stands for one.
pub fn placeholder_variable(value: &str) -> (name: Option<String>)
    ensures
        match name {
            Some(n) => placeholder_name(value@) == Some(n@),
            None => placeholder_name(value@) is None,
        },
{
    let n = value.unicode_len();
    if n >= 3 && value.get_char(0) == '$' && value.get_char(1) == '{' && value.get_char(n - 1)
        == '}' {
        Some(value.substring_char(2, n - 1).to_owned())
    } else {
        None
    }
}

/// The value that `name` has in `env`, if it has one.
pub fn lookup_variable(env: &Vec<(String, String)>, name: &String) -> (value: Option<String>)
    ensures
        match value {
            Some(v) => env_value(pairs_view(env@), name@) == Some(v@),
            None => env_value(pairs_view(env@), name@) is None,
        },
{
    let ghost all = pairs_view(env@);
    let mut i: usize = 0;
    assert(all.skip(0) =~= all);
    while i < env.len()
        invariant
            i <= env.len(),
            all == pairs_view(env@),
            env_value(all, name@) == env_value(all.skip(i as int), name@),
        decreases env.len() - i,
    {
        proof {
            assert(all.skip(i as int)[0] == pair_view(env[i as int]));
            assert(all.skip(i as int).skip(1) =~= all.skip(i + 1));
        }
        if env[i].0 == *name {
            return Some(env[i].1.clone());
        }
        i += 1;
    }
    None
}

/// A header value after substitution.
pub fn resolve_value(value: String, env: &Vec<(String, String)>) -> (r: String)
    ensures
        r@ == resolved_value(value@, pairs_view(env@)),
{
    match placeholder_variable(value.as_str()) {
        Some(name) => match lookup_variable(env, &name) {
            Some(v) => v,
            None => value,
        },
        None => value,
    }
}

/// Headers after substitution.
pub fn resolve_headers(headers: Vec<(String, String)>, env: &Vec<(String, String)>) -> (r: Vec<
    (String, String),
>)
    ensures
        pairs_view(r@) == resolved_pairs(pairs_view(headers@), pairs_view(env@)),
{
    let ghost all = headers@;
    let mut r: Vec<(String, String)> = Vec::new();
    for h in it: headers
        invariant
            it.seq() == all,
            r.len() == it.index(),
            forall|j: int|
                0 <= j < it.index() ==> pair_view(#[trigger] r[j]) == (
                    all[j].0@,
                    resolved_value(all[j].1@, pairs_view(env@)),
                ),
    {
        let (name, value) = h;
        let value = resolve_value(value, env);
        r.push((name, value));
    }
    assert(pairs_view(r@) =~= resolved_pairs(pairs_view(all), pairs_view(env@)));
    r
}

impl ConnectorConfig {
    /// Whether no header name occurs twice.
    pub fn has_distinct_headers(&self) -> (yes: bool)
        ensures
            yes == self@.headers_distinct(),
    {
        let headers = match &self.headers {
            Some(headers) => headers,
            None => {
                return true;
            },
        };
        let ghost ps = pairs_view(headers@);
        assert(self@.headers == Some(ps));
        let mut j: usize = 0;
        while j < headers.len()
            invariant
                j <= headers.len(),
                ps == pairs_view(headers@),
                self@.headers == Some(ps),
                forall|a: int, b: int| 0 <= a < b < j ==> (#[trigger] ps[a]).0 != (#[trigger] ps[b]).0,
            decreases headers.len() - j,
        {
            let mut i: usize = 0;
            while i < j
                invariant
                    i <= j < headers.len(),
                    ps == pairs_view(headers@),
                    self@.headers == Some(ps),
                    forall|a: int| 0 <= a < i ==> (#[trigger] ps[a]).0 != ps[j as int].0,
                decreases j - i,
            {
                if headers[i].0 == headers[j].0 {
                    assert(ps[i as int].0 == ps[j as int].0);
                    assert(!names_distinct(ps));
                    return false;
                }
                i += 1;
            }
            j += 1;
        }
        true
    }

    /// The descriptor after substitution in its headers.
    pub fn resolve_placeholders(self, env: &Vec<(String, String)>) -> (r: Self)
        ensures
            r@ == self@.resolved(pairs_view(env@)),
    {
        ConnectorConfig {
            name: self.name,
            url: self.url,
            method: self.method,
            headers: match self.headers {
                Some(ps) => Some(resolve_headers(ps, env)),
                None => None,
            },
            timeout_seconds: self.timeout_seconds,
            retry_attempts: self.retry_attempts,
            verify_ssl: self.verify_ssl,
            batch_mode: self.batch_mode,
        }
    }

    /// Checks the descriptor against the rules for connectors.
    pub fn validate(&self) -> (r: Result<(), ForwarderError>)
        ensures
            match self@.fault() {
                Some(m) => r matches Err(ForwarderError::Validation(text)) && text@ == m,
                None => r is Ok,
            },
    {
        if self.name.as_str().is_empty() {
            return Err(
                ForwarderError::Validation(String::from_str("Connector name cannot be empty")),
            );
        }
        if self.url.as_str().is_empty() {
            return Err(
                ForwarderError::Validation(
                    String::from_str("Connector '").concat(self.name.as_str()).concat(
                        "' URL cannot be empty",
                    ),
                ),
            );
        }
        if !starts_with(self.url.as_str(), "http://") && !starts_with(
            self.url.as_str(),
            "https://",
        ) {
            return Err(
                ForwarderError::Validation(
                    String::from_str("Connector '").concat(self.name.as_str()).concat(
                        "' URL must start with http:// or https://",
                    ),
                ),
            );
        }
        if !self.has_distinct_headers() {
            return Err(
                ForwarderError::Validation(
                    String::from_str("Connector '").concat(self.name.as_str()).concat(
                        "' repeats a header name",
                    ),
                ),
            );
        }
        Ok(())
    }
}

impl Settings {
    /// The first rule that the settings break, if they break one: the base
    /// URL and the tenant must not be empty, the API token must be present,
    /// the polling interval must be positive, there must be a connector, and
    /// every connector must meet the rules for connectors.
    pub open spec fn fault(self) -> Option<Seq<char>> {
        if self.dynatrace.base_url@.len() == 0 {
            Some("Dynatrace base_url cannot be empty"@)
        } else if self.dynatrace.tenant@.len() == 0 {
            Some("Dynatrace tenant cannot be empty"@)
        } else if self.dynatrace.api_token is None {
            Some("DYNATRACE_API_TOKEN environment variable is required"@)
        } else if self.polling.interval_seconds == 0 {
            Some("polling.interval_seconds must be greater than 0"@)
        } else if self.connectors@.len() == 0 {
            Some("At least one connector must be configured"@)
        } else {
            first_connector_fault(connector_views(self.connectors@))
        }
    }

    /// Checks the settings and names the first rule they break.
    pub fn validate(&self) -> (r: Result<(), ForwarderError>)
        ensures
            match self.fault() {
                Some(m) => r matches Err(ForwarderError::Validation(text)) && text@ == m,
                None => r is Ok,
            },
    {
        if self.dynatrace.base_url.as_str().is_empty() {
            return Err(
                ForwarderError::Validation(String::from_str("Dynatrace base_url cannot be empty")),
            );
        }
        if self.dynatrace.tenant.as_str().is_empty() {
            return Err(
                ForwarderError::Validation(String::from_str("Dynatrace tenant cannot be empty")),
            );
        }
        if self.dynatrace.api_token.is_none() {
            return Err(
                ForwarderError::Validation(
                    String::from_str("DYNATRACE_API_TOKEN environment variable is required"),
                ),
            );
        }
        if self.polling.interval_seconds == 0 {
            return Err(
                ForwarderError::Validation(
                    String::from_str("polling.interval_seconds must be greater than 0"),
                ),
            );
        }
        if self.connectors.len() == 0 {
            return Err(
                ForwarderError::Validation(
                    String::from_str("At least one connector must be configured"),
                ),
            );
        }
        let ghost all = connector_views(self.connectors@);
        let mut i: usize = 0;
        assert(all.skip(0) =~= all);
        while i < self.connectors.len()
            invariant
                i <= self.connectors.len(),
                all == connector_views(self.connectors@),
                self.fault() == first_connector_fault(all),
                first_connector_fault(all) == first_connector_fault(all.skip(i as int)),
            decreases self.connectors.len() - i,
        {
            proof {
                assert(all.skip(i as int)[0] == self.connectors[i as int]@);
                assert(all.skip(i as int).skip(1) =~= all.skip(i + 1));
            }
            match self.connectors[i].validate() {
                Err(e) => {
                    assert(first_connector_fault(all.skip(i as int)) == self.connectors[i as int]@.fault());
                    return Err(e);
                },
                Ok(()) => {},
            }
            i += 1;
        }
        Ok(())
    }

    /// The address of the problems endpoint.
    pub fn get_problems_url(&self) -> (url: String)
        ensures
            url@ == problems_url(
                self.dynatrace.base_url@,
                self.dynatrace.tenant@,
                match self.dynatrace.problem_selector {
                    Some(s) => Some(s@),
                    None => None,
                },
            ),
    {
        let base = trim_trailing(self.dynatrace.base_url.as_str(), '/');
        let url = String::from_str(base).concat("/e/").concat(
            self.dynatrace.tenant.as_str(),
        ).concat("/api/v2/problems");
        match &self.dynatrace.problem_selector {
            Some(selector) => url.concat("?problemSelector=").concat(selector.as_str()).concat(
                "&sort=-startTime",
            ),
            None => url,
        }
    }

    /// The settings after substitution in the headers of every connector.
    pub fn resolve_placeholders(self, env: &Vec<(String, String)>) -> (r: Self)
        ensures
            r.dynatrace == self.dynatrace,
            r.polling == self.polling,
            r.database == self.database,
            r.logging == self.logging,
            connector_views(r.connectors@) == connector_views(self.connectors@).map_values(
                |c: ConnectorConfigView| c.resolved(pairs_view(env@)),
            ),
    {
        let ghost all = self.connectors@;
        let mut connectors: Vec<ConnectorConfig> = Vec::new();
        for c in it: self.connectors
            invariant
                it.seq() == all,
                connectors.len() == it.index(),
                forall|j: int|
                    0 <= j < it.index() ==> (#[trigger] connectors[j])@ == all[j]@.resolved(
                        pairs_view(env@),
                    ),
        {
            connectors.push(c.resolve_placeholders(env));
        }
        assert(connector_views(connectors@) =~= connector_views(all).map_values(
            |c: ConnectorConfigView| c.resolved(pairs_view(env@)),
        ));
        Settings {
            dynatrace: self.dynatrace,
            polling: self.polling,
            database: self.database,
            connectors,
            logging: self.logging,
        }
    }
}

} // verus!
