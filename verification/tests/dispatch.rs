use mensajero::dispatch::{
    begin, finish, plan, DispatchError, Method, Reply, RequestSpec, ResponseOutcome, Step,
    EXCHANGE_TIMEOUT_SECS,
};
use mensajero::headers::Headers;

fn s(text: &str) -> String {
    text.to_string()
}

fn spec(method: &str, body: Option<&str>) -> RequestSpec {
    RequestSpec {
        method: s(method),
        url: s("http://host/path?a=1"),
        headers: Headers::new(),
        body: body.map(s),
        auth: None,
    }
}

#[test]
fn unknown_method_ends_the_send_at_once() {
    match begin(spec("PATCH", Some("{}"))) {
        Step::Done(outcome) => {
            assert_eq!(outcome.status, "Error");
            assert_eq!(outcome.body, "Error en la solicitud: Método no válido");
        }
        Step::Send(_) => panic!("a request was planned for an unknown method"),
    }
}

#[test]
fn method_names_are_case_sensitive() {
    assert_eq!(Method::parse("GET"), Some(Method::Get));
    assert_eq!(Method::parse("POST"), Some(Method::Post));
    assert_eq!(Method::parse("PUT"), Some(Method::Put));
    assert_eq!(Method::parse("DELETE"), Some(Method::Delete));
    assert_eq!(Method::parse("get"), None);
    assert_eq!(Method::parse(""), None);
    assert_eq!(Method::parse("GET "), None);
    assert_eq!(Method::parse("PATCH"), None);
}

#[test]
fn method_name_reads_back() {
    for method in [Method::Get, Method::Post, Method::Put, Method::Delete] {
        assert_eq!(Method::parse(method.name()), Some(method));
    }
    assert_eq!(Method::Delete.name(), "DELETE");
}

#[test]
fn only_post_and_put_carry_a_body() {
    assert!(!Method::Get.carries_body());
    assert!(Method::Post.carries_body());
    assert!(Method::Put.carries_body());
    assert!(!Method::Delete.carries_body());
}

#[test]
fn plan_refuses_an_unknown_method() {
    assert!(matches!(plan(spec("HEAD", None)), Err(DispatchError::InvalidMethod)));
}

#[test]
fn get_and_delete_are_planned_without_body() {
    for name in ["GET", "DELETE"] {
        let request = plan(spec(name, Some("{\"x\":1}"))).ok().unwrap();
        assert_eq!(request.body, None);
        assert_eq!(request.url, "http://host/path?a=1");
        assert_eq!(Some(request.method), Method::parse(name));
    }
}

#[test]
fn post_and_put_are_planned_with_body() {
    let request = plan(spec("POST", Some("{\"x\":1}"))).ok().unwrap();
    assert_eq!(request.method, Method::Post);
    assert_eq!(request.body, Some(s("{\"x\":1}")));
    let request = plan(spec("PUT", None)).ok().unwrap();
    assert_eq!(request.method, Method::Put);
    assert_eq!(request.body, Some(String::new()));
}

#[test]
fn accept_and_content_type_are_always_json() {
    let request = plan(spec("GET", None)).ok().unwrap();
    assert_eq!(request.headers.len(), 2);
    assert_eq!(request.headers.entry(0), (&s("Accept"), &s("application/json")));
    assert_eq!(request.headers.entry(1), (&s("Content-Type"), &s("application/json")));
}

#[test]
fn given_headers_are_sent_and_the_two_are_overwritten() {
    let mut wanted = spec("POST", None);
    wanted.headers.insert(s("Content-Type"), s("text/xml"));
    wanted.headers.insert(s("X-Trace"), s("7"));
    wanted.auth = Some(s("token"));
    let request = plan(wanted).ok().unwrap();
    assert_eq!(request.headers.len(), 3);
    assert_eq!(request.headers.entry(0), (&s("Content-Type"), &s("application/json")));
    assert_eq!(request.headers.entry(1), (&s("X-Trace"), &s("7")));
    assert_eq!(request.headers.entry(2), (&s("Accept"), &s("application/json")));
    assert_eq!(request.headers.get(&s("Authorization")), None);
}

#[test]
fn begin_plans_a_known_method() {
    match begin(spec("DELETE", None)) {
        Step::Send(request) => {
            assert_eq!(request.method, Method::Delete);
            assert_eq!(request.body, None);
        }
        Step::Done(_) => panic!("nothing was planned for a known method"),
    }
}

#[test]
fn a_response_keeps_its_status_and_has_its_body_decoded() {
    let outcome = finish(Reply::Answered { status: s("200 OK"), payload: Ok(b"{\"a\":1}".to_vec()) });
    assert_eq!(outcome.status, "200 OK");
    assert_eq!(outcome.body, "{\n  \"a\": 1\n}");
}

#[test]
fn an_error_status_is_a_completed_exchange() {
    let outcome =
        finish(Reply::Answered { status: s("404 Not Found"), payload: Ok(b"hello".to_vec()) });
    assert_eq!(outcome.status, "404 Not Found");
    assert_eq!(outcome.body, "hello");
}

#[test]
fn an_unreadable_body_keeps_the_status() {
    let outcome =
        finish(Reply::Answered { status: s("200 OK"), payload: Err(s("connection reset")) });
    assert_eq!(outcome.status, "200 OK");
    assert_eq!(outcome.body, "Error al obtener el cuerpo de la respuesta: connection reset");
}

#[test]
fn a_transport_failure_shows_the_error_label() {
    let outcome = finish(Reply::Failed(s("dns error")));
    assert_eq!(outcome.status, "Error");
    assert_eq!(outcome.body, "Error en la solicitud: dns error");
    let outcome = finish(Reply::Failed(String::new()));
    assert_eq!(outcome.status, "Error");
    assert!(!outcome.body.is_empty());
}

#[test]
fn failed_outcome_describes_each_error() {
    let outcome = ResponseOutcome::failed(&DispatchError::InvalidMethod);
    assert_eq!(outcome.status, "Error");
    assert_eq!(outcome.body, "Error en la solicitud: Método no válido");
    let outcome = ResponseOutcome::failed(&DispatchError::TransportFailure(s("timed out")));
    assert_eq!(outcome.body, "Error en la solicitud: timed out");
    assert_eq!(DispatchError::TransportFailure(s("timed out")).message(), "timed out");
    assert_eq!(DispatchError::InvalidMethod.message(), "Método no válido");
}

#[test]
fn an_exchange_is_given_up_after_thirty_seconds() {
    assert_eq!(EXCHANGE_TIMEOUT_SECS, 30);
}
