//! Requests to a VMM over its control socket, and what its answers mean.
use vstd::prelude::*;
use crate::foreign::{lossy_text, utf8_lossy};
use crate::text::{cat2, cat4, opt_str};

verus! {

/// The method of a request.
#[derive(Clone, Copy, Debug, PartialEq, Eq, Structural)]
pub enum Method {
    Get,
    Put,
}

/// A request to a VMM.
#[derive(Debug)]
pub struct ApiRequest {
    /// The socket that the VMM listens on.
    pub socket: String,
    pub method: Method,
    pub endpoint: String,
    /// The JSON text that is sent along.
    pub body: Option<String>,
}

/// An [`ApiRequest`] by its contents.
pub struct RequestView {
    pub socket: Seq<char>,
    pub method: Method,
    pub endpoint: Seq<char>,
    pub body: Option<Seq<char>>,
}

impl View for ApiRequest {
    type V = RequestView;

    open spec fn view(&self) -> RequestView {
        RequestView {
            socket: self.socket@,
            method: self.method,
            endpoint: self.endpoint@,
            body: opt_str(self.body),
        }
    }
}

/// Why a request failed.
#[derive(Debug)]
pub enum ClientError {
    /// The request could not be made or answered.
    Http(String),
    /// The VMM refused. The status is its number and name.
    Api { status: String, body: String },
    /// A body could not be written or read.
    Json(String),
}

/// A [`ClientError`] by its contents.
pub enum ClientErrorView {
    Http(Seq<char>),
    Api { status: Seq<char>, body: Seq<char> },
    Json(Seq<char>),
}

impl View for ClientError {
    type V = ClientErrorView;

    open spec fn view(&self) -> ClientErrorView {
        match *self {
            ClientError::Http(e) => ClientErrorView::Http(e@),
            ClientError::Api { status, body } => ClientErrorView::Api {
                status: status@,
                body: body@,
            },
            ClientError::Json(e) => ClientErrorView::Json(e@),
        }
    }
}

/// The text of a client error.
pub open spec fn client_error_text(e: ClientErrorView) -> Seq<char> {
    match e {
        ClientErrorView::Http(t) => "HTTP error: "@ + t,
        ClientErrorView::Api { status, body } => "API error ("@ + status + "): "@ + body,
        ClientErrorView::Json(t) => "JSON error: "@ + t,
    }
}

impl ClientError {
    /// The text of the error.
    pub fn message(&self) -> (r: String)
        ensures
            r@ == client_error_text(self@),
    {
        match self {
            ClientError::Http(e) => cat2("HTTP error: ", e.as_str()),
            ClientError::Api { status, body } => {
                cat4("API error (", status.as_str(), "): ", body.as_str())
            },
            ClientError::Json(e) => cat2("JSON error: ", e.as_str()),
        }
    }
}

/// What an answer means: its body where the status says success, else an error
/// that carries both.
pub fn interpret_response(status: u16, status_text: &str, body: &[u8]) -> (r: Result<
    String,
    ClientError,
>)
    ensures
        r is Ok <==> 200 <= status < 300,
        r matches Ok(text) ==> text@ == lossy_text(body@),
        r matches Err(e) ==> e@ == (ClientErrorView::Api {
            status: status_text@,
            body: lossy_text(body@),
        }),
{
    let text = utf8_lossy(body);
    if 200 <= status && status < 300 {
        Ok(text)
    } else {
        Err(ClientError::Api { status: status_text.to_owned(), body: text })
    }
}

/// Build a request.
pub fn make_request(socket: &str, method: Method, endpoint: &str, body: Option<String>) -> (r:
    ApiRequest)
    ensures
        r@ == (RequestView {
            socket: socket@,
            method,
            endpoint: endpoint@,
            body: opt_str(body),
        }),
{
    ApiRequest { socket: socket.to_owned(), method, endpoint: endpoint.to_owned(), body }
}

/// An answer is a success exactly where the first of its three digits is a two, and
/// either way its body is handed on; a refusal carries the status too.
pub proof fn law_answer_is_judged_by_its_status(
    status: u16,
    text: &str,
    body: &[u8],
    r: Result<String, ClientError>,
)
    requires
        call_ensures(interpret_response, (status, text, body), r),
    ensures
        r is Ok <==> status / 100 == 2,
        r matches Ok(t) ==> t@ == lossy_text(body@),
        r matches Err(e) ==> e@ == (ClientErrorView::Api {
            status: text@,
            body: lossy_text(body@),
        }),
{
}

/// An error's text ends with the text of its cause and says which kind it is.
pub proof fn law_client_error_keeps_its_cause(e: &ClientError, r: String)
    requires
        call_ensures(ClientError::message, (e,), r),
    ensures
        *e matches ClientError::Http(t) ==> t@.is_suffix_of(r@) && "HTTP error: "@.is_prefix_of(r@),
        *e matches ClientError::Json(t) ==> t@.is_suffix_of(r@) && "JSON error: "@.is_prefix_of(r@),
        *e matches ClientError::Api { status, body } ==> body@.is_suffix_of(r@) && (
        "API error ("@ + status@).is_prefix_of(r@),
{
    match e {
        ClientError::Http(t) => {
            assert(r@.subrange(r@.len() - t@.len(), r@.len() as int) =~= t@);
            assert(r@.subrange(0, "HTTP error: "@.len() as int) =~= "HTTP error: "@);
        },
        ClientError::Json(t) => {
            assert(r@.subrange(r@.len() - t@.len(), r@.len() as int) =~= t@);
            assert(r@.subrange(0, "JSON error: "@.len() as int) =~= "JSON error: "@);
        },
        ClientError::Api { status, body } => {
            let head = "API error ("@ + status@;
            assert(r@.subrange(r@.len() - body@.len(), r@.len() as int) =~= body@);
            assert(r@.subrange(0, head.len() as int) =~= head);
        },
    }
}

} // verus!
