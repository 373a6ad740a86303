//! One send, as two decisions around the network call: what to send, and
//! what to show for whatever came back. The caller performs the exchange in
//! between; both ends always leave a status label and a text to display.

use crate::decode::{decode_body, decoded_body};
use crate::headers::{lemma_last_write_wins, value_of, with_header, HeaderModel, Headers};
use vstd::prelude::*;
use vstd::string::*;

verus! {

/// Upper bound, in seconds, on the duration of one exchange. Whoever performs
/// the exchange gives it up after this long and reports a failure.
pub const EXCHANGE_TIMEOUT_SECS: u64 = 30;

/// The request methods that can be sent.
#[derive(Clone, Copy, Debug, PartialEq, Eq, Structural)]
pub enum Method {
    Get,
    Post,
    Put,
    Delete,
}

/// The method that a name stands for. Names are matched letter for letter.
pub open spec fn method_of(name: Seq<char>) -> Option<Method> {
    if name == "GET"@ {
        Some(Method::Get)
    } else if name == "POST"@ {
        Some(Method::Post)
    } else if name == "PUT"@ {
        Some(Method::Put)
    } else if name == "DELETE"@ {
        Some(Method::Delete)
    } else {
        None
    }
}

/// The name of a method.
pub open spec fn method_name(method: Method) -> Seq<char> {
    match method {
        Method::Get => "GET"@,
        Method::Post => "POST"@,
        Method::Put => "PUT"@,
        Method::Delete => "DELETE"@,
    }
}

/// Reading the name of a method gives the method back.
pub proof fn method_name_round_trip(method: Method)
    ensures
        method_of(method_name(method)) == Some(method),
{
    reveal_strlit("GET");
    reveal_strlit("POST");
    reveal_strlit("PUT");
    reveal_strlit("DELETE");
    assert("POST"@.len() != "GET"@.len());
    assert("PUT"@[0] != "GET"@[0]);
    assert("DELETE"@.len() != "GET"@.len());
    assert("PUT"@.len() != "POST"@.len());
    assert("DELETE"@.len() != "POST"@.len());
    assert("DELETE"@.len() != "PUT"@.len());
}

impl Method {
    /// Whether a request of this method carries a body.
    pub open spec fn sends_body(self) -> bool {
        self == Method::Post || self == Method::Put
    }

    /// Reads a method from its name.
    pub fn parse(name: &str) -> (method: Option<Method>)
        ensures
            method == method_of(name@),
    {
        let name = String::from_str(name);
        if name == String::from_str("GET") {
            Some(Method::Get)
        } else if name == String::from_str("POST") {
            Some(Method::Post)
        } else if name == String::from_str("PUT") {
            Some(Method::Put)
        } else if name == String::from_str("DELETE") {
            Some(Method::Delete)
        } else {
            None
        }
    }

    /// The name of the method.
    pub fn name(&self) -> (name: &'static str)
        ensures
            name@ == method_name(*self),
    {
        match self {
            Method::Get => "GET",
            Method::Post => "POST",
            Method::Put => "PUT",
            Method::Delete => "DELETE",
        }
    }

    /// Whether a request of this method carries a body.
    pub fn carries_body(&self) -> (carries: bool)
        ensures
            carries == self.sends_body(),
    {
        match self {
            Method::Get => false,
            Method::Post => true,
            Method::Put => true,
            Method::Delete => false,
        }
    }
}

/// Why a send gave no response.
pub enum DispatchError {
    /// The method is none of the four; found before anything is sent.
    InvalidMethod,
    /// The exchange failed below HTTP; the text says how.
    TransportFailure(String),
}

impl DispatchError {
    /// The words that describe the error.
    pub open spec fn description(self) -> Seq<char> {
        match self {
            DispatchError::InvalidMethod => "Método no válido"@,
            DispatchError::TransportFailure(reason) => reason@,
        }
    }

    /// The words that describe the error.
    pub fn message(&self) -> (text: String)
        ensures
            text@ == self.description(),
    {
        match self {
            DispatchError::InvalidMethod => String::from_str("Método no válido"),
            DispatchError::TransportFailure(reason) => reason.clone(),
        }
    }
}

/// What the user asked to send.
pub struct RequestSpec {
    pub method: String,
    pub url: String,
    pub headers: Headers,
    pub body: Option<String>,
    /// Bearer token. Whoever fills the request writes it into `headers`;
    /// planning reads the headers only.
    pub auth: Option<String>,
}

/// What goes on the wire.
pub struct OutboundRequest {
    pub method: Method,
    pub url: String,
    pub headers: Headers,
    pub body: Option<String>,
}

/// What is shown after a send: a status label and a text.
pub struct ResponseOutcome {
    pub status: String,
    pub body: String,
}

/// The first decision of a send.
pub enum Step {
    /// Perform this exchange, then hand the reply to `finish`.
    Send(OutboundRequest),
    /// Nothing is sent; this is the outcome.
    Done(ResponseOutcome),
}

/// What the exchange gave.
pub enum Reply {
    /// A response arrived. `payload` is its whole body, or the reason why the
    /// body could not be read.
    Answered { status: String, payload: Result<Vec<u8>, String> },
    /// No response arrived; the text says why.
    Failed(String),
}

/// The status label of a send that gave no response.
pub open spec fn error_label() -> Seq<char> {
    "Error"@
}

/// The text shown for a send that gave no response.
pub open spec fn failure_text(reason: Seq<char>) -> Seq<char> {
    "Error en la solicitud: "@ + reason
}

/// The text shown where a response arrived and its body could not be read.
pub open spec fn unread_body_text(reason: Seq<char>) -> Seq<char> {
    "Error al obtener el cuerpo de la respuesta: "@ + reason
}

/// The headers that are sent: those given, with `Accept` and `Content-Type`
/// written over them.
pub open spec fn forced_headers(pairs: Seq<HeaderModel>) -> Seq<HeaderModel> {
    with_header(
        with_header(pairs, "Accept"@, "application/json"@),
        "Content-Type"@,
        "application/json"@,
    )
}

/// Whatever the caller wrote under `Accept` and `Content-Type`, both are sent
/// as `application/json`; every other name is sent as the caller wrote it.
pub proof fn forced_headers_override(pairs: Seq<HeaderModel>, other: Seq<char>)
    ensures
        value_of(forced_headers(pairs), "Accept"@) == Some("application/json"@),
        value_of(forced_headers(pairs), "Content-Type"@) == Some("application/json"@),
        other != "Accept"@ && other != "Content-Type"@ ==> value_of(forced_headers(pairs), other)
            == value_of(pairs, other),
{
    reveal_strlit("Accept");
    reveal_strlit("Content-Type");
    assert("Accept"@.len() != "Content-Type"@.len());
    let first = with_header(pairs, "Accept"@, "application/json"@);
    lemma_last_write_wins(pairs, "Accept"@, "application/json"@, other);
    lemma_last_write_wins(first, "Content-Type"@, "application/json"@, "Accept"@);
    lemma_last_write_wins(first, "Content-Type"@, "application/json"@, other);
}

/// The body that is sent: the given one (empty where none is given) for a
/// method that carries a body, none for the others.
pub open spec fn outbound_body(method: Method, body: Option<String>) -> Option<Seq<char>> {
    if method.sends_body() {
        Some(
            match body {
                Some(text) => text@,
                None => Seq::empty(),
            },
        )
    } else {
        None
    }
}

/// `request` is what is sent for `spec` with the method `method`.
pub open spec fn is_plan_of(request: OutboundRequest, spec: RequestSpec, method: Method) -> bool {
    &&& request.method == method
    &&& request.url@ == spec.url@
    &&& request.headers.pairs() == forced_headers(spec.headers.pairs())
    &&& spec.headers.wf() ==> request.headers.wf()
    &&& match request.body {
        Some(text) => outbound_body(method, spec.body) == Some(text@),
        None => outbound_body(method, spec.body) is None,
    }
}

/// The outcome shown for a reply.
pub open spec fn is_outcome_of(outcome: ResponseOutcome, reply: Reply) -> bool {
    match reply {
        Reply::Answered { status, payload: Ok(bytes) } => {
            &&& outcome.status@ == status@
            &&& outcome.body@ == decoded_body(bytes@)
        },
        Reply::Answered { status, payload: Err(reason) } => {
            &&& outcome.status@ == status@
            &&& outcome.body@ == unread_body_text(reason@)
        },
        Reply::Failed(reason) => {
            &&& outcome.status@ == error_label()
            &&& outcome.body@ == failure_text(reason@)
        },
    }
}

/// The text of a failure is never empty, whatever the reason.
pub proof fn failure_text_is_not_empty(reason: Seq<char>)
    ensures
        failure_text(reason).len() > 0,
        unread_body_text(reason).len() > 0,
        error_label().len() > 0,
{
    reveal_strlit("Error en la solicitud: ");
    reveal_strlit("Error al obtener el cuerpo de la respuesta: ");
    reveal_strlit("Error");
}

impl ResponseOutcome {
    /// The outcome of a send that gave no response.
    pub fn failed(error: &DispatchError) -> (outcome: Self)
        ensures
            outcome.status@ == error_label(),
            outcome.body@ == failure_text(error.description()),
    {
        let reason = error.message();
        ResponseOutcome {
            status: String::from_str("Error"),
            body: String::from_str("Error en la solicitud: ").concat(reason.as_str()),
        }
    }
}

/// Assembles the request that goes on the wire, or refuses the method.
pub fn plan(spec: RequestSpec) -> (planned: Result<OutboundRequest, DispatchError>)
    ensures
        match method_of(spec.method@) {
            Some(method) => planned is Ok && is_plan_of(planned->Ok_0, spec, method),
            None => planned is Err && planned->Err_0 == DispatchError::InvalidMethod,
        },
{
    let RequestSpec { method, url, headers, body, auth: _ } = spec;
    match Method::parse(method.as_str()) {
        Some(method) => {
            let mut headers = headers;
            headers.insert(String::from_str("Accept"), String::from_str("application/json"));
            headers.insert(String::from_str("Content-Type"), String::from_str("application/json"));
            let body = if method.carries_body() {
                match body {
                    Some(text) => Some(text),
                    None => Some(String::new()),
                }
            } else {
                None
            };
            Ok(OutboundRequest { method, url, headers, body })
        },
        None => Err(DispatchError::InvalidMethod),
    }
}

/// The first decision of a send: the request to perform, or, where the method
/// is none of the four, the outcome at once, with nothing sent.
pub fn begin(spec: RequestSpec) -> (step: Step)
    ensures
        match method_of(spec.method@) {
            Some(method) => step is Send && is_plan_of(step->Send_0, spec, method),
            None => {
                &&& step is Done
                &&& step->Done_0.status@ == error_label()
                &&& step->Done_0.body@ == failure_text(DispatchError::InvalidMethod.description())
            },
        },
{
    match plan(spec) {
        Ok(request) => Step::Send(request),
        Err(error) => Step::Done(ResponseOutcome::failed(&error)),
    }
}

/// The second decision of a send: what to show for the reply. A response of
/// any status keeps its status line and has its body decoded; a failure shows
/// the error label and the reason.
pub fn finish(reply: Reply) -> (outcome: ResponseOutcome)
    ensures
        is_outcome_of(outcome, reply),
{
    match reply {
        Reply::Answered { status, payload } => match payload {
            Ok(bytes) => ResponseOutcome { status, body: decode_body(bytes) },
            Err(reason) => ResponseOutcome {
                status,
                body: String::from_str("Error al obtener el cuerpo de la respuesta: ").concat(
                    reason.as_str(),
                ),
            },
        },
        Reply::Failed(reason) => ResponseOutcome::failed(&DispatchError::TransportFailure(reason)),
    }
}

} // verus!
