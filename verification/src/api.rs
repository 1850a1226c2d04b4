//! The API access layer: authenticated request building, interpretation
//! of REST and GraphQL responses into typed results or classified
//! failures, the rate-limit cost guard, and the adaptive slow-down flag.
//!
//! The HTTP transport itself lives outside this crate; callers hand the
//! already-decoded outcome of each attempt to the interpreters here.

use vstd::prelude::*;
use vstd::string::StringExecFns;
use crate::digits::{dec_digits, push_decimal};
use crate::errors::ApiFailure;
use crate::text::{contains_seq, contains_str, eq_str, starts_with, starts_with_str};

verus! {

/// A repository as the cursor-paginated REST listing returns it.
#[derive(Debug, Clone, PartialEq, Eq)]
pub struct RestRepository {
    pub id: usize,
    pub full_name: String,
    pub node_id: String,
    pub fork: bool,
}

/// The default-branch reference of a repository in the graph shape.
#[derive(Debug, Clone, PartialEq, Eq)]
pub struct GraphRef {
    pub name: String,
}

/// One language name attached to a repository in the graph shape.
#[derive(Debug, Clone, PartialEq, Eq)]
pub struct GraphLanguage {
    pub name: String,
}

/// The ordered language list of a repository in the graph shape.
#[derive(Debug, Clone, PartialEq, Eq)]
pub struct GraphLanguages {
    pub nodes: Vec<Option<GraphLanguage>>,
}

/// A repository as the batched GraphQL node lookup returns it.
#[derive(Debug, Clone, PartialEq, Eq)]
pub struct GraphRepository {
    pub id: String,
    pub name_with_owner: String,
    pub default_branch_ref: Option<GraphRef>,
    pub languages: GraphLanguages,
}

/// The tag carried by a structured GraphQL error.
#[derive(Debug, Clone, PartialEq, Eq)]
pub enum GitHubErrorType {
    NotFound,
    Other(String),
}

/// One structured error entry of a GraphQL response.
#[derive(Debug, Clone, PartialEq, Eq)]
pub struct GraphError {
    pub message: String,
    pub error_type: Option<String>,
}

/// The payload of the batched repository query: the looked-up nodes (one
/// slot per requested id, absent slots for unknown ids) and the reported
/// rate-limit cost of the query.
#[derive(Debug, Clone, PartialEq, Eq)]
pub struct GraphData {
    pub nodes: Vec<Option<GraphRepository>>,
    pub rate_limit_cost: u16,
}

/// The whole decoded body of a GraphQL response.
#[derive(Debug, Clone, PartialEq, Eq)]
pub struct GraphPayload {
    pub data: Option<GraphData>,
    pub errors: Option<Vec<GraphError>>,
    pub message: Option<String>,
}

/// Outcome of one attempt of the REST listing call, already decoded.
#[derive(Debug, Clone, PartialEq, Eq)]
pub enum RestEvent {
    /// HTTP 200 with a well-formed body.
    Repositories(Vec<Option<RestRepository>>),
    /// A non-200 status whose error payload could be decoded.
    ErrorPayload { status: u16, message: String },
    /// A body that could not be decoded as expected.
    Undecodable { status: u16, detail: String },
    Timeout,
    ConnectionReset,
    Transport(String),
}

/// Outcome of one attempt of the GraphQL call, already decoded.
#[derive(Debug, Clone, PartialEq, Eq)]
pub enum GraphEvent {
    /// A body that decoded into the GraphQL response shape.
    Payload(GraphPayload),
    /// A status on which the body was not read (a transient server error).
    Status(u16),
    /// A body that could not be decoded as expected.
    Undecodable(String),
    Timeout,
    ConnectionReset,
    Transport(String),
}

/// Outcome of one attempt of the raw-content probe: only the status
/// matters there.
#[derive(Debug, Clone, PartialEq, Eq)]
pub enum HttpEvent {
    Status(u16),
    Timeout,
    ConnectionReset,
    Transport(String),
}

/// The statuses that the response pre-check turns into retriable
/// failures before the body is even read.
pub open spec fn transient_status(s: u16) -> bool {
    s == 500 || s == 502 || s == 503 || s == 504
}

/// The response pre-check: a transient server error status becomes a
/// retriable failure before the body is read; any other status passes
/// through for interpretation.
pub fn handle_errors(status: u16) -> (r: Result<u16, ApiFailure>)
    ensures
        transient_status(status) ==> r == Result::<u16, ApiFailure>::Err(
            ApiFailure::Status(status),
        ),
        !transient_status(status) ==> r == Result::<u16, ApiFailure>::Ok(status),
{
    if status == 500 || status == 502 || status == 503 || status == 504 {
        Err(ApiFailure::Status(status))
    } else {
        Ok(status)
    }
}

/// The substring whose presence in an API error message marks an
/// abuse-detection throttle.
pub open spec fn abuse_marker() -> Seq<char> {
    "abuse"@
}

/// Whether an API error payload message reports an abuse-detection
/// throttle.
pub open spec fn is_abuse_message(m: Seq<char>) -> bool {
    contains_seq(m, abuse_marker())
}

/// The access layer's in-memory, per-instance shared state: the
/// credential, the adaptive slow-down flag and the in-flight counter.
pub struct GitHubApi {
    pub token: String,
    pub slow_down: bool,
    pub concurrent_requests: u64,
}

/// What reading the slow-down flag does: it returns the flag and clears
/// it in one step.
pub open spec fn spec_should_slow_down(api: GitHubApi) -> (bool, GitHubApi) {
    (api.slow_down, GitHubApi { slow_down: false, ..api })
}

impl GitHubApi {
    /// A fresh access layer: flag clear, no call in flight.
    pub fn new(token: String) -> (api: Self)
        ensures
            api.token == token,
            !api.slow_down,
            api.concurrent_requests == 0,
    {
        GitHubApi { token, slow_down: false, concurrent_requests: 0 }
    }

    /// Atomically read and clear the slow-down flag. This is the only
    /// channel by which retry observations reach the caller: it reports
    /// true at most once per observed retry burst.
    pub fn should_slow_down(&mut self) -> (r: bool)
        ensures
            (r, *final(self)) == spec_should_slow_down(*old(self)),
            r == old(self).slow_down,
            !final(self).slow_down,
            final(self).token == old(self).token,
            final(self).concurrent_requests == old(self).concurrent_requests,
    {
        let r = self.slow_down;
        self.slow_down = false;
        r
    }

    /// Note that one more API call is in flight.
    pub fn begin_attempt(&mut self)
        requires
            old(self).concurrent_requests < u64::MAX,
        ensures
            final(self).concurrent_requests == old(self).concurrent_requests + 1,
            final(self).slow_down == old(self).slow_down,
            final(self).token == old(self).token,
    {
        self.concurrent_requests = self.concurrent_requests + 1;
    }

    /// Note that one API call has finished.
    pub fn end_attempt(&mut self)
        requires
            old(self).concurrent_requests > 0,
        ensures
            final(self).concurrent_requests == old(self).concurrent_requests - 1,
            final(self).slow_down == old(self).slow_down,
            final(self).token == old(self).token,
    {
        self.concurrent_requests = self.concurrent_requests - 1;
    }

    /// The authorization header value carried by every request.
    pub fn auth_header(&self) -> (r: String)
        ensures
            r@ == "token "@ + self.token@,
    {
        let mut h = "token ".to_owned();
        h.append(self.token.as_str());
        h
    }

    /// Interpret one attempt of the cursor-paginated listing. A 200
    /// response yields the listed repositories; transient server errors
    /// and abuse throttles become retriable failures; everything else is
    /// fatal.
    pub fn scrape_repositories(&self, event: RestEvent) -> (r: Result<
        Vec<Option<RestRepository>>,
        ApiFailure,
    >)
        ensures
            match event {
                RestEvent::Repositories(repos) => r == Result::<
                    Vec<Option<RestRepository>>,
                    ApiFailure,
                >::Ok(repos),
                RestEvent::ErrorPayload { status, message } => r == Result::<
                    Vec<Option<RestRepository>>,
                    ApiFailure,
                >::Err(
                    if transient_status(status) {
                        ApiFailure::Status(status)
                    } else if is_abuse_message(message@) {
                        ApiFailure::AbuseDetected
                    } else {
                        ApiFailure::ApiMessage { status, message }
                    },
                ),
                RestEvent::Undecodable { status, detail } => r == Result::<
                    Vec<Option<RestRepository>>,
                    ApiFailure,
                >::Err(
                    if transient_status(status) {
                        ApiFailure::Status(status)
                    } else {
                        ApiFailure::Malformed { detail }
                    },
                ),
                RestEvent::Timeout => r == Result::<Vec<Option<RestRepository>>, ApiFailure>::Err(
                    ApiFailure::Timeout,
                ),
                RestEvent::ConnectionReset => r == Result::<
                    Vec<Option<RestRepository>>,
                    ApiFailure,
                >::Err(ApiFailure::ConnectionReset),
                RestEvent::Transport(detail) => r == Result::<
                    Vec<Option<RestRepository>>,
                    ApiFailure,
                >::Err(ApiFailure::Transport { detail }),
            },
    {
        match event {
            RestEvent::Repositories(repos) => Ok(repos),
            RestEvent::ErrorPayload { status, message } => {
                if status == 500 || status == 502 || status == 503 || status == 504 {
                    Err(ApiFailure::Status(status))
                } else if contains_str(message.as_str(), "abuse") {
                    Err(ApiFailure::AbuseDetected)
                } else {
                    Err(ApiFailure::ApiMessage { status, message })
                }
            },
            RestEvent::Undecodable { status, detail } => {
                if status == 500 || status == 502 || status == 503 || status == 504 {
                    Err(ApiFailure::Status(status))
                } else {
                    Err(ApiFailure::Malformed { detail })
                }
            },
            RestEvent::Timeout => Err(ApiFailure::Timeout),
            RestEvent::ConnectionReset => Err(ApiFailure::ConnectionReset),
            RestEvent::Transport(detail) => Err(ApiFailure::Transport { detail }),
        }
    }

    /// Interpret one attempt of the GraphQL call. When data is present
    /// the call succeeds, whatever structured errors accompany it (those
    /// are at worst per-node absences, reported inside the data). Without
    /// data, structured errors and abuse throttles are surfaced as
    /// failures.
    pub fn interpret_graph_response(&self, event: GraphEvent) -> (r: Result<GraphData, ApiFailure>)
        ensures
            match event {
                GraphEvent::Payload(p) => match p.data {
                    Some(d) => r == Result::<GraphData, ApiFailure>::Ok(d),
                    None => match p.errors {
                        Some(es) => r == Result::<GraphData, ApiFailure>::Err(
                            if es@.len() > 0 {
                                ApiFailure::GraphFailed {
                                    message: es@[es@.len() - 1].message,
                                }
                            } else {
                                ApiFailure::EmptyResponse
                            },
                        ),
                        None => match p.message {
                            Some(m) => r == Result::<GraphData, ApiFailure>::Err(
                                if is_abuse_message(m@) {
                                    ApiFailure::AbuseDetected
                                } else {
                                    ApiFailure::GraphFailed { message: m }
                                },
                            ),
                            None => r == Result::<GraphData, ApiFailure>::Err(
                                ApiFailure::EmptyResponse,
                            ),
                        },
                    },
                },
                GraphEvent::Status(s) => r == Result::<GraphData, ApiFailure>::Err(
                    ApiFailure::Status(s),
                ),
                GraphEvent::Undecodable(detail) => r == Result::<GraphData, ApiFailure>::Err(
                    ApiFailure::Malformed { detail },
                ),
                GraphEvent::Timeout => r == Result::<GraphData, ApiFailure>::Err(
                    ApiFailure::Timeout,
                ),
                GraphEvent::ConnectionReset => r == Result::<GraphData, ApiFailure>::Err(
                    ApiFailure::ConnectionReset,
                ),
                GraphEvent::Transport(detail) => r == Result::<GraphData, ApiFailure>::Err(
                    ApiFailure::Transport { detail },
                ),
            },
    {
        match event {
            GraphEvent::Payload(p) => {
                match p.data {
                    Some(d) => Ok(d),
                    None => {
                        match p.errors {
                            Some(mut es) => {
                                if es.len() > 0 {
                                    let last = es.remove(es.len() - 1);
                                    Err(ApiFailure::GraphFailed { message: last.message })
                                } else {
                                    Err(ApiFailure::EmptyResponse)
                                }
                            },
                            None => {
                                match p.message {
                                    Some(m) => {
                                        if contains_str(m.as_str(), "abuse") {
                                            Err(ApiFailure::AbuseDetected)
                                        } else {
                                            Err(ApiFailure::GraphFailed { message: m })
                                        }
                                    },
                                    None => Err(ApiFailure::EmptyResponse),
                                }
                            },
                        }
                    },
                }
            },
            GraphEvent::Status(s) => Err(ApiFailure::Status(s)),
            GraphEvent::Undecodable(detail) => Err(ApiFailure::Malformed { detail }),
            GraphEvent::Timeout => Err(ApiFailure::Timeout),
            GraphEvent::ConnectionReset => Err(ApiFailure::ConnectionReset),
            GraphEvent::Transport(detail) => Err(ApiFailure::Transport { detail }),
        }
    }

    /// The rate-limit cost guard of the batched node lookup: a query
    /// whose reported cost exceeds one unit must stop the crawl rather
    /// than silently burn quota, however valid its data looks.
    pub fn load_repositories(&self, data: GraphData) -> (r: Result<
        Vec<Option<GraphRepository>>,
        ApiFailure,
    >)
        ensures
            data.rate_limit_cost <= 1 ==> r == Result::<
                Vec<Option<GraphRepository>>,
                ApiFailure,
            >::Ok(data.nodes),
            data.rate_limit_cost > 1 ==> r == Result::<
                Vec<Option<GraphRepository>>,
                ApiFailure,
            >::Err(ApiFailure::CostTooHigh { cost: data.rate_limit_cost }),
    {
        if data.rate_limit_cost > 1 {
            Err(ApiFailure::CostTooHigh { cost: data.rate_limit_cost })
        } else {
            Ok(data.nodes)
        }
    }

    /// Interpret one attempt of the raw-content existence probe: 200
    /// means the file exists, 404 that it does not; transient server
    /// errors are retriable, any other status is fatal.
    pub fn file_exists(&self, event: HttpEvent) -> (r: Result<bool, ApiFailure>)
        ensures
            match event {
                HttpEvent::Status(s) => r == if s == 200 {
                    Result::<bool, ApiFailure>::Ok(true)
                } else if s == 404 {
                    Result::<bool, ApiFailure>::Ok(false)
                } else {
                    Result::<bool, ApiFailure>::Err(ApiFailure::Status(s))
                },
                HttpEvent::Timeout => r == Result::<bool, ApiFailure>::Err(ApiFailure::Timeout),
                HttpEvent::ConnectionReset => r == Result::<bool, ApiFailure>::Err(
                    ApiFailure::ConnectionReset,
                ),
                HttpEvent::Transport(detail) => r == Result::<bool, ApiFailure>::Err(
                    ApiFailure::Transport { detail },
                ),
            },
    {
        match event {
            HttpEvent::Status(s) => {
                if s == 200 {
                    Ok(true)
                } else if s == 404 {
                    Ok(false)
                } else {
                    Err(ApiFailure::Status(s))
                }
            },
            HttpEvent::Timeout => Err(ApiFailure::Timeout),
            HttpEvent::ConnectionReset => Err(ApiFailure::ConnectionReset),
            HttpEvent::Transport(detail) => Err(ApiFailure::Transport { detail }),
        }
    }
}

/// The product-identifying user agent carried by every request.
pub fn user_agent() -> (r: &'static str)
    ensures
        r@ == "rust-repos (https://github.com/rust-ops/rust-repos)"@,
{
    "rust-repos (https://github.com/rust-ops/rust-repos)"
}

/// The branch a probe targets: the repository's default branch, or the
/// conventional name when the metadata omits one.
pub open spec fn spec_branch(repo: GraphRepository) -> Seq<char> {
    match repo.default_branch_ref {
        Some(rf) => rf.name@,
        None => "master"@,
    }
}

/// The raw-content URL a probe fetches.
pub open spec fn spec_probe_url(repo: GraphRepository, path: Seq<char>) -> Seq<char> {
    "https://raw.githubusercontent.com/"@ + repo.name_with_owner@ + "/"@ + spec_branch(repo) + "/"@
        + path
}

/// Build the raw-content URL for probing `path` in `repo`.
pub fn file_probe_url(repo: &GraphRepository, path: &str) -> (r: String)
    ensures
        r@ == spec_probe_url(*repo, path@),
{
    let mut url = "https://raw.githubusercontent.com/".to_owned();
    url.append(repo.name_with_owner.as_str());
    url.append("/");
    match &repo.default_branch_ref {
        Some(rf) => url.append(rf.name.as_str()),
        None => url.append("master"),
    }
    url.append("/");
    url.append(path);
    proof {
        assert(url@ =~= spec_probe_url(*repo, path@));
    }
    url
}

/// Where a request actually goes: a fully qualified URL is used as it
/// stands, anything else is resolved against the fixed API base.
pub open spec fn spec_request_url(url: Seq<char>) -> Seq<char> {
    if starts_with(url, "https://"@) {
        url
    } else {
        "https://api.github.com/"@ + url
    }
}

/// Resolve a request target against the fixed API base URL.
pub fn request_url(url: &str) -> (r: String)
    ensures
        r@ == spec_request_url(url@),
{
    if starts_with_str(url, "https://") {
        url.to_owned()
    } else {
        let mut s = "https://api.github.com/".to_owned();
        s.append(url);
        s
    }
}

/// The listing path for one page of repositories after `since`.
pub open spec fn spec_list_path(since: u64) -> Seq<char> {
    "repositories?since="@ + dec_digits(since as nat)
}

/// Build the listing path for one page of repositories after `since`.
pub fn list_repositories_path(since: u64) -> (r: String)
    ensures
        r@ == spec_list_path(since),
{
    let mut s = "repositories?since=".to_owned();
    push_decimal(&mut s, since);
    s
}

/// Read a structured GraphQL error tag.
pub fn parse_error_type(tag: &str) -> (r: GitHubErrorType)
    ensures
        r == GitHubErrorType::NotFound <==> tag@ == "NOT_FOUND"@,
        r matches GitHubErrorType::Other(m) ==> m@ == tag@,
{
    if eq_str(tag, "NOT_FOUND") {
        GitHubErrorType::NotFound
    } else {
        GitHubErrorType::Other(tag.to_owned())
    }
}

} // verus!
