use mensajero::decode::{body_text, decode_body, prettify, DecodeFailure};

#[test]
fn json_body_is_laid_out_over_lines() {
    let shown = decode_body(b"{\"a\":1}".to_vec());
    assert_eq!(shown, "{\n  \"a\": 1\n}");
    assert!(shown.contains('\n'));
    assert_ne!(shown, "{\"a\":1}");
}

#[test]
fn plain_text_body_is_shown_unchanged() {
    assert_eq!(decode_body(b"hello".to_vec()), "hello");
}

#[test]
fn empty_body_is_shown_empty() {
    assert_eq!(decode_body(Vec::new()), "");
}

#[test]
fn body_that_is_not_utf8_shows_the_reason() {
    let shown = decode_body(vec![0xff, 0xfe, b'a']);
    assert_eq!(
        shown,
        "Error al convertir bytes a texto: invalid utf-8 sequence of 1 bytes from index 0"
    );
}

#[test]
fn truncated_utf8_shows_the_reason() {
    let shown = decode_body(vec![b'o', b'k', 0xc3]);
    assert_eq!(
        shown,
        "Error al convertir bytes a texto: incomplete utf-8 byte sequence from index 2"
    );
}

#[test]
fn text_beyond_ascii_is_decoded() {
    assert_eq!(decode_body("añadir ü".as_bytes().to_vec()), "añadir ü");
}

#[test]
fn nested_json_is_indented_by_two_spaces() {
    let shown = decode_body(b"{\"b\":[1,{\"c\":null}],\"a\":\"x\"}".to_vec());
    assert_eq!(
        shown,
        "{\n  \"a\": \"x\",\n  \"b\": [\n    1,\n    {\n      \"c\": null\n    }\n  ]\n}"
    );
}

#[test]
fn json_scalars_are_json_too() {
    assert_eq!(decode_body(b" 12 ".to_vec()), "12");
    assert_eq!(decode_body(b"true".to_vec()), "true");
    assert_eq!(decode_body(b"[]".to_vec()), "[]");
}

#[test]
fn broken_json_falls_through() {
    assert_eq!(decode_body(b"{\"a\":".to_vec()), "{\"a\":");
    assert_eq!(decode_body(b"{\"a\":1} trailing".to_vec()), "{\"a\":1} trailing");
}

#[test]
fn prettify_tells_json_from_text() {
    assert_eq!(prettify("{\"a\":1}"), Some("{\n  \"a\": 1\n}".to_string()));
    assert_eq!(prettify("hello"), None);
    assert_eq!(prettify(""), None);
}

#[test]
fn body_text_prefers_the_laid_out_form() {
    let laid_out = body_text(Ok("[1]".to_string()), Some("[\n  1\n]".to_string()));
    assert_eq!(laid_out, "[\n  1\n]");
    assert_eq!(body_text(Ok("hello".to_string()), None), "hello");
    assert_eq!(
        body_text(Err(DecodeFailure { reason: "bad bytes".to_string() }), None),
        "Error al convertir bytes a texto: bad bytes"
    );
    assert_eq!(
        body_text(Err(DecodeFailure { reason: "bad bytes".to_string() }), Some("ignored".to_string())),
        "Error al convertir bytes a texto: bad bytes"
    );
}
