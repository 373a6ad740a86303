//! The state of one session of the client: what the user has typed, and
//! what the last send gave.

use crate::dispatch::{
    begin, error_label, failure_text, finish, is_outcome_of, is_plan_of, method_of, DispatchError,
    OutboundRequest, Reply, RequestSpec, ResponseOutcome, Step,
};
use crate::headers::{with_header, HeaderModel, Headers};
use crate::params::{params_view, sync, synced_url, QueryParam};
use vstd::prelude::*;
use vstd::string::*;

verus! {

/// The tabs of the request editor.
#[derive(Clone, Copy, Debug, PartialEq, Eq, Structural)]
pub enum Tab {
    Params,
    Headers,
    Body,
    Authorization,
}

/// The title shown on a tab.
pub open spec fn tab_title(tab: Tab) -> Seq<char> {
    match tab {
        Tab::Params => "Params"@,
        Tab::Headers => "Headers"@,
        Tab::Body => "Body"@,
        Tab::Authorization => "Authorization"@,
    }
}

impl Tab {
    /// The title shown on the tab.
    pub fn title(&self) -> (title: &'static str)
        ensures
            title@ == tab_title(*self),
    {
        match self {
            Tab::Params => "Params",
            Tab::Headers => "Headers",
            Tab::Body => "Body",
            Tab::Authorization => "Authorization",
        }
    }

    /// The tabs in the order in which they are laid out.
    pub fn all() -> (tabs: Vec<Tab>)
        ensures
            tabs@ == seq![Tab::Params, Tab::Headers, Tab::Body, Tab::Authorization],
    {
        let mut tabs: Vec<Tab> = Vec::new();
        tabs.push(Tab::Params);
        tabs.push(Tab::Headers);
        tabs.push(Tab::Body);
        tabs.push(Tab::Authorization);
        assert(tabs@ =~= seq![Tab::Params, Tab::Headers, Tab::Body, Tab::Authorization]);
        tabs
    }
}

/// Which half of the body view is in front.
#[derive(Clone, Copy, Debug, PartialEq, Eq, Structural)]
pub enum BodyScreen {
    Request,
    Response,
}

impl Default for BodyScreen {
    fn default() -> (screen: Self)
        ensures
            screen == BodyScreen::Request,
    {
        BodyScreen::Request
    }
}

/// Number of parameter rows that a new session offers.
pub const PARAM_ROWS: usize = 4;

/// The headers that the header editor writes, in the order of writing.
pub open spec fn preset_headers(pairs: Seq<HeaderModel>) -> Seq<HeaderModel> {
    let a = with_header(pairs, "Content-Type"@, "application/json"@);
    let b = with_header(a, "Accept"@, "application/json"@);
    let c = with_header(b, "Authorization"@, "Bearer"@);
    let d = with_header(c, "User-Agent"@, "Mensajero v0.1"@);
    let e = with_header(d, "Host"@, "localhost:8080"@);
    let f = with_header(e, "Connection"@, "keep-alive"@);
    with_header(f, "Cache-Control"@, "no-cache"@)
}

/// A session of the client.
pub struct Mensajero {
    pub url: String,
    pub method: String,
    pub response: Option<String>,
    pub request_body: Option<String>,
    pub headers: Headers,
    pub status_code: String,
    pub authentication: Option<String>,
    pub params: Vec<QueryParam>,
    pub body_screen: BodyScreen,
}

impl Default for Mensajero {
    /// A new session: method `GET`, four empty parameter rows, nothing else.
    fn default() -> (session: Self)
        ensures
            session.url@ == Seq::<char>::empty(),
            session.method@ == "GET"@,
            session.response is None,
            session.request_body is None,
            session.headers.pairs() == Seq::<HeaderModel>::empty(),
            session.headers.wf(),
            session.status_code@ == Seq::<char>::empty(),
            session.authentication is None,
            params_view(session.params@) == Seq::new(
                PARAM_ROWS as nat,
                |i: int| (Seq::<char>::empty(), Seq::<char>::empty(), Seq::<char>::empty()),
            ),
            session.body_screen == BodyScreen::Request,
    {
        let mut params: Vec<QueryParam> = Vec::new();
        let mut i: usize = 0;
        while i < PARAM_ROWS
            invariant
                i <= PARAM_ROWS,
                params@.len() == i,
                forall|j: int|
                    0 <= j < i ==> params@[j].0@ == Seq::<char>::empty() && params@[j].1@
                        == Seq::<char>::empty() && params@[j].2@ == Seq::<char>::empty(),
            decreases PARAM_ROWS - i,
        {
            params.push((String::new(), String::new(), String::new()));
            i += 1;
        }
        assert(params_view(params@) =~= Seq::new(
            PARAM_ROWS as nat,
            |i: int| (Seq::<char>::empty(), Seq::<char>::empty(), Seq::<char>::empty()),
        ));
        Mensajero {
            url: String::new(),
            method: String::from_str("GET"),
            response: None,
            request_body: None,
            headers: Headers::new(),
            status_code: String::new(),
            authentication: None,
            params,
            body_screen: BodyScreen::Request,
        }
    }
}

impl Mensajero {
    /// The session with another URL and all else as it is.
    pub open spec fn with_url(self, url: String) -> Mensajero {
        Mensajero { url, ..self }
    }

    /// The session with another last outcome and all else as it is.
    pub open spec fn with_outcome(self, status_code: String, response: Option<String>) -> Mensajero {
        Mensajero { status_code, response, ..self }
    }

    /// The request that the session stands for. The token is carried beside
    /// the headers, not written into them.
    pub open spec fn request_model(self) -> RequestSpec {
        RequestSpec {
            method: self.method,
            url: self.url,
            headers: self.headers,
            body: self.request_body,
            auth: self.authentication,
        }
    }

    /// `spec` says what the session says: the same method, URL, headers,
    /// body and token.
    pub open spec fn is_spec_of(self, spec: RequestSpec) -> bool {
        &&& spec.method@ == self.method@
        &&& spec.url@ == self.url@
        &&& spec.headers.pairs() == self.headers.pairs()
        &&& match (spec.body, self.request_body) {
            (Some(a), Some(b)) => a@ == b@,
            (None, None) => true,
            _ => false,
        }
        &&& match (spec.auth, self.authentication) {
            (Some(a), Some(b)) => a@ == b@,
            (None, None) => true,
            _ => false,
        }
    }

    /// Rewrites the query string of the URL from the parameter rows.
    pub fn update_url_with_params(&mut self)
        ensures
            final(self).url@ == synced_url(old(self).url@, params_view(old(self).params@)),
            *final(self) == old(self).with_url(final(self).url),
    {
        let url = sync(self.url.as_str(), &self.params);
        self.url = url;
    }

    /// Writes the headers that the header editor always shows.
    pub fn write_preset_headers(&mut self)
        ensures
            final(self).headers.pairs() == preset_headers(old(self).headers.pairs()),
            old(self).headers.wf() ==> final(self).headers.wf(),
            *final(self) == (Mensajero { headers: final(self).headers, ..*old(self) }),
    {
        self.headers.insert(String::from_str("Content-Type"), String::from_str("application/json"));
        self.headers.insert(String::from_str("Accept"), String::from_str("application/json"));
        self.headers.insert(String::from_str("Authorization"), String::from_str("Bearer"));
        self.headers.insert(String::from_str("User-Agent"), String::from_str("Mensajero v0.1"));
        self.headers.insert(String::from_str("Host"), String::from_str("localhost:8080"));
        self.headers.insert(String::from_str("Connection"), String::from_str("keep-alive"));
        self.headers.insert(String::from_str("Cache-Control"), String::from_str("no-cache"));
    }

    /// The request that the session stands for, made anew.
    pub fn request_spec(&self) -> (spec: RequestSpec)
        ensures
            self.is_spec_of(spec),
            self.headers.wf() ==> spec.headers.wf(),
    {
        RequestSpec {
            method: self.method.clone(),
            url: self.url.clone(),
            headers: self.headers.copy(),
            body: match &self.request_body {
                Some(text) => Some(text.clone()),
                None => None,
            },
            auth: match &self.authentication {
                Some(token) => Some(token.clone()),
                None => None,
            },
        }
    }

    /// Starts a send. With one of the four methods it gives the request to
    /// perform and leaves the session as it is. With any other it sends
    /// nothing and stores the failure as the outcome.
    pub fn send_request(&mut self) -> (request: Option<OutboundRequest>)
        ensures
            match method_of(old(self).method@) {
                Some(method) => {
                    &&& *final(self) == *old(self)
                    &&& request is Some
                    &&& is_plan_of(request->0, old(self).request_model(), method)
                },
                None => {
                    &&& request is None
                    &&& final(self).status_code@ == error_label()
                    &&& final(self).response is Some
                    &&& final(self).response->0@ == failure_text(
                        DispatchError::InvalidMethod.description(),
                    )
                    &&& *final(self) == old(self).with_outcome(
                        final(self).status_code,
                        final(self).response,
                    )
                },
            },
    {
        let spec = self.request_spec();
        match begin(spec) {
            Step::Send(request) => Some(request),
            Step::Done(outcome) => {
                self.status_code = outcome.status;
                self.response = Some(outcome.body);
                None
            },
        }
    }

    /// Ends a send: the outcome of the reply takes the place of the last
    /// one.
    pub fn complete_request(&mut self, reply: Reply)
        ensures
            final(self).response is Some,
            is_outcome_of(
                (ResponseOutcome { status: final(self).status_code, body: final(self).response->0 }),
                reply,
            ),
            *final(self) == old(self).with_outcome(final(self).status_code, final(self).response),
    {
        let outcome = finish(reply);
        self.status_code = outcome.status;
        self.response = Some(outcome.body);
    }
}

} // verus!
