//! The request channel: one call contract for procedures, whether the call
//! is served in the same process or by a server over the wire.

use vstd::prelude::*;
use crate::rpc::{RpcError, rpc_message_of};
use crate::text::joined;

verus! {

/// Why a request failed.
#[derive(Clone, Debug, PartialEq, Eq)]
pub enum RequestError {
    /// The request could not be serialised.
    InvalidRequest(String),
    /// The response has not the shape that was expected.
    InvalidResponse(String),
    /// The server refused, or the transport failed; with what it said.
    Custom(String),
}

pub enum RequestErrorView {
    InvalidRequest(Seq<char>),
    InvalidResponse(Seq<char>),
    Custom(Seq<char>),
}

impl View for RequestError {
    type V = RequestErrorView;

    open spec fn view(&self) -> RequestErrorView {
        match self {
            RequestError::InvalidRequest(m) => RequestErrorView::InvalidRequest(m@),
            RequestError::InvalidResponse(m) => RequestErrorView::InvalidResponse(m@),
            RequestError::Custom(m) => RequestErrorView::Custom(m@),
        }
    }
}

/// A text as `Debug` writes it: in double quotes, with escapes.
pub uninterp spec fn debug_text_of(s: Seq<char>) -> Seq<char>;

/// Writes a string with `format!` as `Debug` does. Trusted: the result
/// depends on the characters alone.
#[verifier::external_body]
fn debug_text(s: &str) -> (r: String)
    ensures
        r@ == debug_text_of(s@),
{
    format!("{:?}", s)
}

/// An error as text: the kind, and in brackets what was said.
pub open spec fn request_error_text(e: RequestErrorView) -> Seq<char> {
    match e {
        RequestErrorView::InvalidRequest(m) => "InvalidRequest("@ + debug_text_of(m) + ")"@,
        RequestErrorView::InvalidResponse(m) => "InvalidResponse("@ + debug_text_of(m) + ")"@,
        RequestErrorView::Custom(m) => "Custom("@ + debug_text_of(m) + ")"@,
    }
}

impl RequestError {
    /// This error as text.
    pub fn to_string(&self) -> (r: String)
        ensures
            r@ == request_error_text(self@),
    {
        let (kind, message) = match self {
            RequestError::InvalidRequest(m) => ("InvalidRequest(", m),
            RequestError::InvalidResponse(m) => ("InvalidResponse(", m),
            RequestError::Custom(m) => ("Custom(", m),
        };
        let quoted = debug_text(message.as_str());
        let a = joined(kind, quoted.as_str());
        joined(a.as_str(), ")")
    }
}

/// How a channel delivers.
#[derive(Clone, Copy, Debug, PartialEq, Eq, Structural)]
pub enum Delivery {
    /// By a call of the procedure in this process: while a page is prerendered.
    InProcess,
    /// By a POST to the server: in the browser.
    Wire,
}

/// A handle on a way to call procedures. It holds no state and may be copied freely.
#[derive(Clone, Copy, Debug, PartialEq, Eq, Structural)]
pub struct RequestChannel {
    pub delivery: Delivery,
}

/// Where a request for the procedure at `path` is sent.
pub open spec fn delivery_path_of(delivery: Delivery, path: Seq<char>) -> Seq<char> {
    match delivery {
        Delivery::InProcess => path,
        Delivery::Wire => "/rpc"@ + path,
    }
}

/// What the answer of a server means: a status from 200 to 299 carries the
/// response, any other status an error with the body that came.
pub open spec fn wire_result_of(status: u16, body: Seq<char>) -> Result<
    Seq<char>,
    RequestErrorView,
> {
    if 200 <= status && status < 300 {
        Ok(body)
    } else {
        Err(RequestErrorView::Custom(body))
    }
}

impl RequestChannel {
    /// A channel that delivers in the given way.
    pub fn new(delivery: Delivery) -> (r: RequestChannel)
        ensures
            r.delivery == delivery,
    {
        RequestChannel { delivery }
    }

    /// Where a request for the procedure at `path` is sent.
    pub fn delivery_path(&self, path: &str) -> (r: String)
        ensures
            r@ == delivery_path_of(self.delivery, path@),
    {
        match self.delivery {
            Delivery::InProcess => path.to_owned(),
            Delivery::Wire => joined("/rpc", path),
        }
    }

    /// What the answer of a server means.
    pub fn wire_response(status: u16, body: String) -> (r: Result<String, RequestError>)
        ensures
            match r {
                Ok(b) => wire_result_of(status, body@) == Ok::<Seq<char>, RequestErrorView>(b@),
                Err(e) => wire_result_of(status, body@) == Err::<Seq<char>, RequestErrorView>(e@),
            },
    {
        if 200 <= status && status < 300 {
            Ok(body)
        } else {
            Err(RequestError::Custom(body))
        }
    }

    /// What the answer of a procedure in this process means: its error is
    /// handed on with its words.
    pub fn local_response(result: Result<String, RpcError>) -> (r: Result<String, RequestError>)
        ensures
            match (result, r) {
                (Ok(a), Ok(b)) => a@ == b@,
                (Err(e), Err(f)) => f@ == RequestErrorView::Custom(rpc_message_of(e@)),
                _ => false,
            },
    {
        match result {
            Ok(body) => Ok(body),
            Err(e) => Err(RequestError::Custom(e.to_string())),
        }
    }
}

/// The channel of the browser.
pub fn client_request_channel() -> (r: RequestChannel)
    ensures
        r.delivery == Delivery::Wire,
{
    RequestChannel::new(Delivery::Wire)
}

/// Where a request can fail.
#[derive(Clone, Copy, Debug, PartialEq, Eq, Structural)]
pub enum RequestStage {
    /// While the request is serialised.
    Serialize,
    /// While it is delivered and served.
    Deliver,
    /// While the response is read in the shape that was expected.
    Deserialize,
}

/// The error of a failure at a stage: a request that cannot be serialised
/// is an invalid request, a response of another shape an invalid response,
/// and what fails between the two is handed on with what was said.
pub open spec fn failure_of(stage: RequestStage, message: Seq<char>) -> RequestErrorView {
    match stage {
        RequestStage::Serialize => RequestErrorView::InvalidRequest(message),
        RequestStage::Deliver => RequestErrorView::Custom(message),
        RequestStage::Deserialize => RequestErrorView::InvalidResponse(message),
    }
}

/// The error of a failure at a stage.
pub fn request_failure(stage: RequestStage, message: String) -> (r: RequestError)
    ensures
        r@ == failure_of(stage, message@),
{
    match stage {
        RequestStage::Serialize => RequestError::InvalidRequest(message),
        RequestStage::Deliver => RequestError::Custom(message),
        RequestStage::Deserialize => RequestError::InvalidResponse(message),
    }
}

} // verus!
