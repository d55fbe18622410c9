//! What the relay needs to know to query the monitoring API, and the
//! bookkeeping of a fetch that spans several pages. Sending the requests is
//! left to the caller.

use crate::config::settings::{problems_url, Settings};
use crate::dynatrace::models::{Problem, ProblemsResponse};
use crate::error::ForwarderError;
use crate::forwarder::connector::{body_text, status_line, Reply};
use crate::storage::models::text_view;
use vstd::prelude::*;
use vstd::string::*;

verus! {

/// The address of the page that follows the one that handed out `key`, or
/// of the first page where there is no key.
pub open spec fn page_address(problems_url: Seq<char>, key: Option<Seq<char>>) -> Seq<char> {
    match key {
        Some(k) => problems_url + "&nextPageKey="@ + k,
        None => problems_url,
    }
}

/// The detail of the fetch error that a query ends with where its reply is
/// not a success: for a response outside 200 to 299 the status line and the
/// body, for a transport failure the diagnostic of the transport.
pub open spec fn fetch_failure(reply: Reply) -> Option<Seq<char>> {
    match reply {
        Reply::Response { status, body } => if 200 <= status@ <= 299 {
            None
        } else {
            Some("HTTP "@ + status_line(status@) + ": "@ + body_text(body))
        },
        Reply::Transport(diagnostic) => Some(diagnostic@),
    }
}

/// The access data for the monitoring API.
pub struct DynatraceClient {
    api_token: String,
    problems_url: String,
}

/// The access data as plain values.
pub struct DynatraceClientView {
    pub api_token: Seq<char>,
    pub problems_url: Seq<char>,
}

impl View for DynatraceClient {
    type V = DynatraceClientView;

    closed spec fn view(&self) -> DynatraceClientView {
        DynatraceClientView { api_token: self.api_token@, problems_url: self.problems_url@ }
    }
}

impl DynatraceClient {
    /// The access data that the settings hold. Without an API token there
    /// is none.
    pub fn new(settings: &Settings) -> (r: Result<Self, ForwarderError>)
        ensures
            match settings.dynatrace.api_token {
                Some(token) => r matches Ok(c) && c@ == (DynatraceClientView {
                    api_token: token@,
                    problems_url: problems_url(
                        settings.dynatrace.base_url@,
                        settings.dynatrace.tenant@,
                        text_view(settings.dynatrace.problem_selector),
                    ),
                }),
                None => r matches Err(ForwarderError::Config(m)) && m@
                    == "Missing DYNATRACE_API_TOKEN"@,
            },
    {
        let api_token = match &settings.dynatrace.api_token {
            Some(token) => token.clone(),
            None => {
                return Err(ForwarderError::Config(String::from_str("Missing DYNATRACE_API_TOKEN")));
            },
        };
        Ok(DynatraceClient { api_token, problems_url: settings.get_problems_url() })
    }

    /// The address that problems are queried at.
    pub fn base_url(&self) -> (url: &str)
        ensures
            url@ == self@.problems_url,
    {
        self.problems_url.as_str()
    }

    /// The value of the authorization header of every query.
    pub fn authorization(&self) -> (value: String)
        ensures
            value@ == "Api-Token "@ + self@.api_token,
    {
        String::from_str("Api-Token ").concat(self.api_token.as_str())
    }

    /// The address of the next page to query.
    pub fn page_url(&self, next_page_key: &Option<String>) -> (url: String)
        ensures
            url@ == page_address(self@.problems_url, text_view(*next_page_key)),
    {
        match next_page_key {
            Some(key) => self.problems_url.clone().concat("&nextPageKey=").concat(key.as_str()),
            None => self.problems_url.clone(),
        }
    }

    /// Judges the reply to a query: a response with a code from 200 to 299
    /// is good; any other response and any transport failure ends the fetch
    /// with an error of the monitoring API. Such an error ends the cycle it
    /// occurs in and nothing else.
    pub fn check_reply(reply: Reply) -> (r: Result<(), ForwarderError>)
        ensures
            match fetch_failure(reply) {
                Some(detail) => r matches Err(ForwarderError::DynatraceApi(m)) && m@ == detail,
                None => r is Ok,
            },
    {
        match reply {
            Reply::Response { status, body } => {
                if status.is_success() {
                    return Ok(());
                }
                let text = match body {
                    Some(b) => b,
                    None => String::from_str("Unknown error"),
                };
                let line = status.to_string();
                Err(
                    ForwarderError::DynatraceApi(
                        String::from_str("HTTP ").concat(line.as_str()).concat(": ").concat(
                            text.as_str(),
                        ),
                    ),
                )
            },
            Reply::Transport(diagnostic) => Err(ForwarderError::DynatraceApi(diagnostic)),
        }
    }
}

/// A fetch in progress: the problems of the pages read so far, the total
/// that the last page reported, and the key of the page to read next.
pub struct PagedFetch {
    pub problems: Vec<Problem>,
    pub total_count: i32,
    pub next_page_key: Option<String>,
}

/// What a fetch does after a page.
pub enum FetchStep {
    /// There is another page: query it at the address that the fetch gives.
    More(PagedFetch),
    /// That was the last page: this is the flattened answer.
    Complete(ProblemsResponse),
}

impl PagedFetch {
    /// A fetch that has read no page yet.
    pub fn new() -> (f: Self)
        ensures
            f.problems@.len() == 0,
            f.total_count == 0,
            f.next_page_key is None,
    {
        PagedFetch { problems: Vec::new(), total_count: 0, next_page_key: None }
    }

    /// Takes a page in. The problems of the page follow those read before;
    /// the total is the one this page reports. Where the page names a next
    /// page the fetch goes on with its key; else it is complete, and the
    /// answer holds all problems as one page without a successor.
    pub fn absorb(self, page: ProblemsResponse) -> (step: FetchStep)
        ensures
            match step {
                FetchStep::More(f) => {
                    &&& page.next_page_key is Some
                    &&& f.problems@ == self.problems@ + page.problems@
                    &&& f.total_count == page.total_count
                    &&& f.next_page_key == page.next_page_key
                },
                FetchStep::Complete(all) => {
                    &&& page.next_page_key is None
                    &&& all.problems@ == self.problems@ + page.problems@
                    &&& all.total_count == page.total_count
                    &&& all.page_size == (self.problems@.len() + page.problems@.len()) as usize as i32
                    &&& all.next_page_key is None
                },
            },
    {
        let mut problems = self.problems;
        let mut page = page;
        problems.append(&mut page.problems);
        match page.next_page_key {
            Some(key) => FetchStep::More(
                PagedFetch { problems, total_count: page.total_count, next_page_key: Some(key) },
            ),
            None => {
                let page_size = #[verifier::truncate] (problems.len() as i32);
                FetchStep::Complete(
                    ProblemsResponse {
                        total_count: page.total_count,
                        page_size,
                        problems,
                        next_page_key: None,
                    },
                )
            },
        }
    }
}

} // verus!
