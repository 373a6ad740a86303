//! From the bytes of a response to the text that is shown: UTF-8 first, then
//! JSON laid out over several lines where the text is JSON. Each stage that
//! fails hands on what the stage before it had.

use vstd::prelude::*;
use vstd::string::*;
use vstd::utf8::*;

verus! {

/// `serde_json::Value`: a JSON document, carried from the parser to the
/// printer and never looked into.
#[verifier::external_type_specification]
#[verifier::external_body]
pub struct ExJsonValue(serde_json::Value);

/// Bytes that are no UTF-8 text. The reason is shown in place of the body;
/// a send never ends on it.
pub struct DecodeFailure {
    pub reason: String,
}

/// The document that `serde_json::from_str` reads from a text, or `None`
/// where it rejects the text.
pub uninterp spec fn parsed_json(text: Seq<char>) -> Option<serde_json::Value>;

/// The indented text that `serde_json::to_string_pretty` writes for a
/// document, or `None` where it gives an error.
pub uninterp spec fn pretty_json(doc: serde_json::Value) -> Option<Seq<char>>;

/// What the error of `String::from_utf8` displays for bytes that are not
/// UTF-8.
pub uninterp spec fn utf8_error_text(bytes: Seq<u8>) -> Seq<char>;

/// What stands before the reason when the bytes are not text.
pub open spec fn decode_error_prefix() -> Seq<char> {
    "Error al convertir bytes a texto: "@
}

/// The indented form of a text, where the text is JSON.
pub open spec fn pretty_form(text: Seq<char>) -> Option<Seq<char>> {
    match parsed_json(text) {
        Some(doc) => pretty_json(doc),
        None => None,
    }
}

/// The text shown, given what the UTF-8 stage and the JSON stage gave: the
/// indented form where there is one, else the text as it was decoded, else
/// the reason why the bytes are no text.
pub open spec fn body_display(
    decoded: Result<Seq<char>, Seq<char>>,
    pretty: Option<Seq<char>>,
) -> Seq<char> {
    match decoded {
        Ok(text) => match pretty {
            Some(laid_out) => laid_out,
            None => text,
        },
        Err(reason) => decode_error_prefix() + reason,
    }
}

/// The text shown for the bytes of a response.
pub open spec fn decoded_body(bytes: Seq<u8>) -> Seq<char> {
    if valid_utf8(bytes) {
        body_display(Ok(decode_utf8(bytes)), pretty_form(decode_utf8(bytes)))
    } else {
        body_display(Err(utf8_error_text(bytes)), None)
    }
}

/// `String::from_utf8`, with the error kept as the text it displays.
/// Trusted: bytes that are UTF-8 give the characters they encode; other bytes
/// give the error's text, which depends on the bytes alone.
#[verifier::external_body]
fn text_from_utf8(bytes: Vec<u8>) -> (decoded: Result<String, DecodeFailure>)
    ensures
        valid_utf8(bytes@) ==> decoded is Ok && decoded->Ok_0@ == decode_utf8(bytes@),
        !valid_utf8(bytes@) ==> decoded is Err && decoded->Err_0.reason@ == utf8_error_text(
            bytes@,
        ),
{
    match String::from_utf8(bytes) {
        Ok(text) => Ok(text),
        Err(e) => Err(DecodeFailure { reason: format!("{}", e) }),
    }
}

/// `serde_json::from_str` at the type `serde_json::Value`, the error dropped.
/// Trusted: the outcome depends on the text alone.
#[verifier::external_body]
fn parse_json(text: &str) -> (doc: Option<serde_json::Value>)
    ensures
        doc == parsed_json(text@),
{
    serde_json::from_str::<serde_json::Value>(text).ok()
}

/// `serde_json::to_string_pretty` on a document, the error dropped.
/// Trusted: the outcome depends on the document alone.
#[verifier::external_body]
fn pretty_print(doc: &serde_json::Value) -> (laid_out: Option<String>)
    ensures
        laid_out is Some == pretty_json(*doc) is Some,
        laid_out is Some ==> laid_out->0@ == pretty_json(*doc)->0,
{
    serde_json::to_string_pretty(doc).ok()
}

/// The indented form of `text` where it is JSON, `None` where it is not.
pub fn prettify(text: &str) -> (laid_out: Option<String>)
    ensures
        laid_out is Some == pretty_form(text@) is Some,
        laid_out is Some ==> laid_out->0@ == pretty_form(text@)->0,
{
    match parse_json(text) {
        Some(doc) => pretty_print(&doc),
        None => None,
    }
}

/// Chooses the text shown from what the two stages gave.
pub fn body_text(decoded: Result<String, DecodeFailure>, pretty: Option<String>) -> (shown:
    String)
    ensures
        shown@ == body_display(
            match decoded {
                Ok(text) => Ok(text@),
                Err(failure) => Err(failure.reason@),
            },
            match pretty {
                Some(laid_out) => Some(laid_out@),
                None => None,
            },
        ),
{
    match decoded {
        Ok(text) => match pretty {
            Some(laid_out) => laid_out,
            None => text,
        },
        Err(failure) => String::from_str("Error al convertir bytes a texto: ").concat(
            failure.reason.as_str(),
        ),
    }
}

/// Decodes the bytes of a response into the text shown. Every input gives a
/// text.
pub fn decode_body(bytes: Vec<u8>) -> (shown: String)
    ensures
        shown@ == decoded_body(bytes@),
{
    let decoded = text_from_utf8(bytes);
    let pretty = match &decoded {
        Ok(text) => prettify(text.as_str()),
        Err(_) => None,
    };
    body_text(decoded, pretty)
}

} // verus!
