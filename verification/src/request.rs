//! The request that fetches a package's version page.

use vstd::prelude::*;

verus! {

/// The address of the versions view of `package` on the registry.
pub open spec fn versions_url_of(package: Seq<char>) -> Seq<char> {
    "https://www.npmjs.com/package/"@ + package + "?activeTab=versions"@
}

/// The value of the `User-Agent` header that every request carries.
pub open spec fn user_agent_text() -> Seq<char> {
    "github.com/toof-jp/npm-download-stats-otel-exporter"@
}

/// Why the page of a package could not be fetched.
#[derive(Debug, Clone, Copy, PartialEq, Eq, Structural)]
pub enum FetchError {
    /// The request did not get through, or the answer could not be read.
    Transport,
    /// The registry answered with this status, which is none of success.
    Status(u16),
}

/// Whether `status` is a status of success: one of the 2xx class.
pub open spec fn is_success(status: u16) -> bool {
    200 <= status <= 299
}

/// What a request has fetched: the body of the answer where the status is one of success,
/// else the error. `response` is `None` where the transport failed.
pub open spec fn fetched_page_of(response: Option<(u16, Seq<char>)>) -> Result<
    Seq<char>,
    FetchError,
> {
    match response {
        None => Err(FetchError::Transport),
        Some((status, body)) => if is_success(status) {
            Ok(body)
        } else {
            Err(FetchError::Status(status))
        },
    }
}

/// What a response says, as mathematical values.
pub open spec fn response_view(response: Option<(u16, String)>) -> Option<(u16, Seq<char>)> {
    match response {
        None => None,
        Some((status, body)) => Some((status, body@)),
    }
}

/// Decides what a request has fetched. `response` is `None` where the transport failed,
/// else the status of the answer and its body. The body is the page only where the status
/// is one of success.
pub fn page_of_response(response: Option<(u16, String)>) -> (result: Result<String, FetchError>)
    ensures
        match result {
            Ok(page) => fetched_page_of(response_view(response)) == Ok::<Seq<char>, FetchError>(
                page@,
            ),
            Err(error) => fetched_page_of(response_view(response)) == Err::<
                Seq<char>,
                FetchError,
            >(error),
        },
{
    match response {
        None => Err(FetchError::Transport),
        Some((status, body)) => if 200 <= status && status <= 299 {
            Ok(body)
        } else {
            Err(FetchError::Status(status))
        },
    }
}

/// The words that report `error`.
pub open spec fn fetch_error_text(error: FetchError) -> Seq<char> {
    match error {
        FetchError::Transport => "request to the registry failed"@,
        FetchError::Status(_) => "registry answered with a status other than success"@,
    }
}

impl FetchError {
    /// The error in words.
    pub fn message(&self) -> (text: &'static str)
        ensures
            text@ == fetch_error_text(*self),
    {
        match self {
            FetchError::Transport => "request to the registry failed",
            FetchError::Status(_) => "registry answered with a status other than success",
        }
    }
}

/// Builds the address of the versions view of `package`.
pub fn versions_url(package: &str) -> (url: String)
    ensures
        url@ == versions_url_of(package@),
{
    let mut url = String::from_str("https://www.npmjs.com/package/");
    url.append(package);
    url.append("?activeTab=versions");
    url
}

/// The name of the header that carries the client marker.
pub fn user_agent_header() -> (name: &'static str)
    ensures
        name@ == "User-Agent"@,
{
    "User-Agent"
}

/// The client marker sent with every request.
pub fn user_agent() -> (agent: &'static str)
    ensures
        agent@ == user_agent_text(),
{
    "github.com/toof-jp/npm-download-stats-otel-exporter"
}

} // verus!
