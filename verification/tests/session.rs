use mensajero::dispatch::{Method, Reply};
use mensajero::session::{BodyScreen, Mensajero, Tab, PARAM_ROWS};

fn s(text: &str) -> String {
    text.to_string()
}

#[test]
fn tabs_have_their_titles() {
    assert_eq!(Tab::Params.title(), "Params");
    assert_eq!(Tab::Headers.title(), "Headers");
    assert_eq!(Tab::Body.title(), "Body");
    assert_eq!(Tab::Authorization.title(), "Authorization");
    assert_eq!(Tab::all(), vec![Tab::Params, Tab::Headers, Tab::Body, Tab::Authorization]);
}

#[test]
fn body_screen_starts_on_the_request() {
    assert_eq!(BodyScreen::default(), BodyScreen::Request);
    assert_ne!(BodyScreen::default(), BodyScreen::Response);
}

#[test]
fn new_session_is_blank() {
    let session = Mensajero::default();
    assert_eq!(session.url, "");
    assert_eq!(session.method, "GET");
    assert_eq!(session.response, None);
    assert_eq!(session.request_body, None);
    assert_eq!(session.headers.len(), 0);
    assert_eq!(session.status_code, "");
    assert_eq!(session.authentication, None);
    assert_eq!(PARAM_ROWS, 4);
    assert_eq!(session.params, vec![(s(""), s(""), s("")); 4]);
    assert_eq!(session.body_screen, BodyScreen::Request);
}

#[test]
fn url_follows_the_parameter_rows() {
    let mut session = Mensajero::default();
    session.url = s("http://x?old=1");
    session.params[0] = (s("a"), s(""), s("d"));
    session.params[2] = (s("b"), s("2"), s("d"));
    session.update_url_with_params();
    assert_eq!(session.url, "http://x?a&b=2");
    session.update_url_with_params();
    assert_eq!(session.url, "http://x?a&b=2");
    assert_eq!(session.params.len(), 4);
    session.params[0].0.clear();
    session.params[2].0.clear();
    session.update_url_with_params();
    assert_eq!(session.url, "http://x");
}

#[test]
fn preset_headers_are_written_in_order() {
    let mut session = Mensajero::default();
    session.headers.insert(s("Host"), s("example.org"));
    session.write_preset_headers();
    let names: Vec<String> =
        (0..session.headers.len()).map(|i| session.headers.entry(i).0.clone()).collect();
    assert_eq!(
        names,
        vec![
            "Host",
            "Content-Type",
            "Accept",
            "Authorization",
            "User-Agent",
            "Connection",
            "Cache-Control"
        ]
    );
    assert_eq!(session.headers.get(&s("Host")), Some(&s("localhost:8080")));
    assert_eq!(session.headers.get(&s("User-Agent")), Some(&s("Mensajero v0.1")));
    assert_eq!(session.headers.get(&s("Authorization")), Some(&s("Bearer")));
    assert_eq!(session.headers.get(&s("Connection")), Some(&s("keep-alive")));
    assert_eq!(session.headers.get(&s("Cache-Control")), Some(&s("no-cache")));
    session.write_preset_headers();
    assert_eq!(session.headers.len(), 7);
}

#[test]
fn send_with_unknown_method_stores_the_failure() {
    let mut session = Mensajero::default();
    session.method = s("PATCH");
    session.url = s("http://x");
    assert!(session.send_request().is_none());
    assert_eq!(session.status_code, "Error");
    assert_eq!(session.response, Some(s("Error en la solicitud: Método no válido")));
    assert_eq!(session.url, "http://x");
}

#[test]
fn send_with_known_method_gives_the_request() {
    let mut session = Mensajero::default();
    session.method = s("POST");
    session.url = s("http://x/items");
    session.request_body = Some(s("{\"n\":1}"));
    let request = session.send_request().unwrap();
    assert_eq!(request.method, Method::Post);
    assert_eq!(request.url, "http://x/items");
    assert_eq!(request.body, Some(s("{\"n\":1}")));
    assert_eq!(request.headers.get(&s("Accept")), Some(&s("application/json")));
    assert_eq!(session.response, None);
    assert_eq!(session.status_code, "");
    assert_eq!(session.headers.len(), 0);
}

#[test]
fn each_reply_replaces_the_last_outcome() {
    let mut session = Mensajero::default();
    session.complete_request(Reply::Answered { status: s("200 OK"), payload: Ok(b"hello".to_vec()) });
    assert_eq!(session.status_code, "200 OK");
    assert_eq!(session.response, Some(s("hello")));
    session.complete_request(Reply::Failed(s("connection refused")));
    assert_eq!(session.status_code, "Error");
    assert_eq!(session.response, Some(s("Error en la solicitud: connection refused")));
}
