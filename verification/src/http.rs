//! Requests, responses and errors, and the capabilities that the client is
//! given: the transport that carries a request, and the hooks that watch it.

use crate::json::{get_string, parse, string_at, text_nodes};
use crate::retry::{classify_status, RetryKind, status_kind};
use crate::text::{contains_ignoring_case, occurs_ignoring_case, str_equal, concat, decimal, u64_to_decimal};
use vstd::prelude::*;
use vstd::string::*;

verus! {

/// The method of a request.
#[derive(Clone, Copy, Debug, PartialEq, Eq, Structural)]
pub enum Method {
    GET,
    HEAD,
    POST,
    PUT,
}

/// One header line: a name and a value.
#[derive(Debug)]
pub struct Header {
    pub name: String,
    pub value: String,
}

impl DeepView for Header {
    type V = (Seq<char>, Seq<char>);

    open spec fn deep_view(&self) -> (Seq<char>, Seq<char>) {
        (self.name@, self.value@)
    }
}

/// A request as the transport gets it.
#[derive(Debug)]
pub struct Request {
    /// The method.
    pub method: Method,
    /// The absolute URL.
    pub url: String,
    /// The header lines in order.
    pub headers: Vec<Header>,
    /// The body.
    pub body: Vec<u8>,
    /// The time the request may take, in milliseconds.
    pub timeout: u64,
    /// The pause to keep before the request is sent, in milliseconds.
    pub delay: u64,
}

/// A response as the transport hands it back.
#[derive(Debug)]
pub struct Response {
    /// The status code.
    pub status_code: u16,
    /// The header lines in order.
    pub headers: Vec<Header>,
    /// The body.
    pub body: Vec<u8>,
    /// The time the request took, in milliseconds.
    pub elapsed: u64,
}

/// The failure of the transport to get an answer.
#[derive(Debug)]
pub struct TransportError {
    /// What went wrong, in words.
    pub message: String,
    /// The time the attempt took, in milliseconds.
    pub elapsed: u64,
}

/// The capability to carry a request to the service and bring back its
/// answer. Nothing is assumed of what comes back.
pub trait HTTPCaller {
    /// Sends `request` after the pause it asks for.
    fn call(&self, request: &Request) -> Result<Response, TransportError>;
}

/// What went wrong with a request.
#[derive(Debug)]
pub enum HTTPErrorKind {
    /// The transport failed.
    TransportError(String),
    /// The service answered with a failure: the status code, and the
    /// message of the body.
    ResponseStatusCodeError(u16, String),
    /// The body of the answer is not the JSON that was asked for.
    JSONDecodeError,
    /// The answer does not look like one of the service.
    MaliciousResponse,
    /// A hook turned the answer down.
    UserCancelled,
    /// There was no host to send the request to.
    NoHostAvailable,
}

/// The mathematical value of an [`HTTPErrorKind`].
pub enum ErrorKindView {
    TransportError(Seq<char>),
    ResponseStatusCodeError(u16, Seq<char>),
    JSONDecodeError,
    MaliciousResponse,
    UserCancelled,
    NoHostAvailable,
}

impl DeepView for HTTPErrorKind {
    type V = ErrorKindView;

    open spec fn deep_view(&self) -> ErrorKindView {
        match self {
            HTTPErrorKind::TransportError(m) => ErrorKindView::TransportError(m@),
            HTTPErrorKind::ResponseStatusCodeError(code, m) => {
                ErrorKindView::ResponseStatusCodeError(*code, m@)
            },
            HTTPErrorKind::JSONDecodeError => ErrorKindView::JSONDecodeError,
            HTTPErrorKind::MaliciousResponse => ErrorKindView::MaliciousResponse,
            HTTPErrorKind::UserCancelled => ErrorKindView::UserCancelled,
            HTTPErrorKind::NoHostAvailable => ErrorKindView::NoHostAvailable,
        }
    }
}

/// What went wrong, in words.
pub open spec fn kind_words(kind: ErrorKindView) -> Seq<char> {
    match kind {
        ErrorKindView::TransportError(message) => "transport error: "@ + message,
        ErrorKindView::ResponseStatusCodeError(code, message) => "status code "@ + decimal(
            code as nat,
        ) + ": "@ + message,
        ErrorKindView::JSONDecodeError => "JSON decode error"@,
        ErrorKindView::MaliciousResponse => "malicious response"@,
        ErrorKindView::UserCancelled => "cancelled by user"@,
        ErrorKindView::NoHostAvailable => "no host available"@,
    }
}

impl HTTPErrorKind {
    /// Says what went wrong.
    pub fn to_string(&self) -> (r: String)
        ensures
            r@ == kind_words(self.deep_view()),
    {
        match self {
            HTTPErrorKind::TransportError(message) => concat(
                "transport error: ",
                message.as_str(),
            ),
            HTTPErrorKind::ResponseStatusCodeError(code, message) => {
                let mut text = "status code ".to_owned();
                text.append(u64_to_decimal(*code as u64).as_str());
                text.append(": ");
                text.append(message.as_str());
                text
            },
            HTTPErrorKind::JSONDecodeError => "JSON decode error".to_owned(),
            HTTPErrorKind::MaliciousResponse => "malicious response".to_owned(),
            HTTPErrorKind::UserCancelled => "cancelled by user".to_owned(),
            HTTPErrorKind::NoHostAvailable => "no host available".to_owned(),
        }
    }
}

/// A failed request: what went wrong, how it may be tried again, and what
/// is known of the attempt.
#[derive(Debug)]
pub struct HTTPError {
    /// How the request may be tried again.
    pub retry_kind: RetryKind,
    /// What went wrong.
    pub error_kind: HTTPErrorKind,
    /// The request id that the service gave, if it gave one.
    pub request_id: Option<String>,
    /// The URL of the host that was tried, if one was tried.
    pub host: Option<String>,
    /// The method of the request.
    pub method: Method,
    /// The URL of the request; empty when none was sent.
    pub url: String,
}

impl HTTPError {
    /// How the request may be tried again.
    pub fn retry_kind(&self) -> (r: RetryKind)
        ensures
            r == self.retry_kind,
    {
        self.retry_kind
    }

    /// What went wrong.
    pub fn error_kind(&self) -> (r: &HTTPErrorKind)
        ensures
            r == self.error_kind,
    {
        &self.error_kind
    }

    /// Says what went wrong.
    pub fn to_string(&self) -> (r: String)
        ensures
            r@ == kind_words(self.error_kind.deep_view()),
    {
        self.error_kind.to_string()
    }
}

/// Why a hook turns an answer down.
#[derive(Clone, Copy, Debug, PartialEq, Eq, Structural)]
pub enum Rejection {
    /// The answer does not look like one of the service; another host may
    /// give a better one.
    Malicious,
    /// The user wants the request given up.
    Cancelled,
}

/// The watchers of a request. Each is called once per physical attempt, in
/// the thread that makes the attempt.
pub trait Hooks {
    /// Called when the body of an attempt has been sent: `sent` of `total`
    /// bytes.
    fn on_uploading_progress(&mut self, sent: u64, total: u64);

    /// Called with every answer whose status is a success. An answer that
    /// is turned down counts as a failed attempt.
    fn on_response(&mut self, response: &Response) -> Option<Rejection>;

    /// Called with every failed attempt.
    fn on_error(&mut self, host: &str, error: &HTTPError);
}

/// Hooks that watch nothing and turn nothing down.
#[derive(Clone, Copy, Debug)]
pub struct NoHooks;

impl Hooks for NoHooks {
    fn on_uploading_progress(&mut self, sent: u64, total: u64) {
    }

    fn on_response(&mut self, response: &Response) -> (r: Option<Rejection>)
        ensures
            r is None,
    {
        None
    }

    fn on_error(&mut self, host: &str, error: &HTTPError) {
    }
}

/// The value of the first header named `name`, if there is one.
pub open spec fn header_of(headers: Seq<(Seq<char>, Seq<char>)>, name: Seq<char>) -> Option<
    Seq<char>,
>
    decreases headers.len(),
{
    if headers.len() == 0 {
        None
    } else if headers[0].0 == name {
        Some(headers[0].1)
    } else {
        header_of(headers.drop_first(), name)
    }
}

/// Finds the value of the first header named `name`.
pub fn find_header<'a>(headers: &'a Vec<Header>, name: &str) -> (r: Option<&'a str>)
    ensures
        r.deep_view() == header_of(headers.deep_view(), name@),
{
    let mut i: usize = 0;
    assert(headers.deep_view().skip(0) =~= headers.deep_view());
    while i < headers.len()
        invariant
            i <= headers.len(),
            header_of(headers.deep_view(), name@) == header_of(
                headers.deep_view().skip(i as int),
                name@,
            ),
        decreases headers.len() - i,
    {
        let ghost rest = headers.deep_view().skip(i as int);
        assert(rest[0] == headers[i as int].deep_view());
        assert(rest.drop_first() =~= headers.deep_view().skip(i + 1));
        if str_equal(headers[i].name.as_str(), name) {
            return Some(headers[i].value.as_str());
        }
        i += 1;
    }
    assert(headers.deep_view().skip(i as int).len() == 0);
    None
}

/// Whether a body speaks of an incorrect region or zone, in any case of
/// letters.
pub open spec fn speaks_of_incorrect_zone(body: Seq<u8>) -> bool {
    ||| occurs_ignoring_case(body, "incorrect region".spec_bytes())
    ||| occurs_ignoring_case(body, "incorrect zone".spec_bytes())
}

/// Looks for the words of an incorrect region or zone in a body.
pub fn mentions_incorrect_zone(body: &[u8]) -> (r: bool)
    ensures
        r == speaks_of_incorrect_zone(body@),
{
    contains_ignoring_case(body, "incorrect region".as_bytes()) || contains_ignoring_case(
        body,
        "incorrect zone".as_bytes(),
    )
}

/// The message of a failure body: the text of the member `error` where the
/// body is a JSON object that has one, nothing otherwise.
pub open spec fn error_message(body: Seq<u8>) -> Seq<char> {
    match text_nodes(body) {
        Some(nodes) => match string_at(nodes, "/error"@) {
            Some(message) => message,
            None => Seq::empty(),
        },
        None => Seq::empty(),
    }
}

/// Reads the message of a failure body.
pub fn read_error_message(body: &[u8]) -> (r: String)
    ensures
        r@ == error_message(body@),
{
    match parse(body) {
        Some(document) => match get_string(&document, "/error") {
            Some(message) => message,
            None => String::new(),
        },
        None => String::new(),
    }
}

/// How the status and the body of an answer are judged, before any hook
/// sees it.
pub open spec fn response_kind(response: Response) -> Option<RetryKind> {
    status_kind(response.status_code, speaks_of_incorrect_zone(response.body@))
}

/// Judges an answer by its status and body: `None` for a success.
pub fn judge(response: &Response) -> (r: Option<RetryKind>)
    ensures
        r == response_kind(*response),
{
    let incorrect_zone = response.status_code == 400 && mentions_incorrect_zone(
        response.body.as_slice(),
    );
    classify_status(response.status_code, incorrect_zone)
}

} // verus!
