use hexdec::convert::ParseError;
use hexdec::response::{
    api_fallback, decify_response, hello_name, hello_world, hexify_response, html_escape,
};

#[test]
fn parse_error_maps_to_400_with_template() {
    let (status, body) = ParseError::InvalidDigit.into_response();
    assert_eq!(status, 400);
    assert_eq!(body, "Something went wrong: invalid digit found in string");
}

#[test]
fn empty_input_error_text() {
    let (status, body) = ParseError::Empty.into_response();
    assert_eq!(status, 400);
    assert_eq!(body, "Something went wrong: cannot parse integer from empty string");
}

#[test]
fn overflow_error_texts() {
    assert_eq!(
        ParseError::PosOverflow.into_response().1,
        "Something went wrong: number too large to fit in target type"
    );
    assert_eq!(
        ParseError::NegOverflow.into_response().1,
        "Something went wrong: number too small to fit in target type"
    );
}

#[test]
fn hexify_endpoint_success() {
    assert_eq!(hexify_response("255"), (200, String::from("FF")));
}

#[test]
fn hexify_endpoint_bad_input_is_400() {
    let (status, body) = hexify_response("abc");
    assert_eq!(status, 400);
    assert_eq!(body, "Something went wrong: invalid digit found in string");
}

#[test]
fn decify_endpoint_success() {
    assert_eq!(decify_response("FF"), (200, String::from("255")));
}

#[test]
fn decify_endpoint_bad_input_is_400() {
    let (status, body) = decify_response("zz");
    assert_eq!(status, 400);
    assert_eq!(body, "Something went wrong: invalid digit found in string");
}

#[test]
fn api_fallback_is_404_json() {
    let (status, body) = api_fallback();
    assert_eq!(status, 404);
    assert_eq!(body, "{\"error\":\"notFound\"}");
}

#[test]
fn greeting_contains_name() {
    let page = hello_name("Alice");
    assert!(page.contains("Alice"));
    assert_eq!(page, "<h1>Hello, Alice!</h1>");
}

#[test]
fn index_greets_world() {
    let page = hello_world();
    assert!(page.contains("world"));
    assert_eq!(page, "<h1>Hello, world!</h1>");
}

#[test]
fn greeting_escapes_script_tag() {
    let page = hello_name("<script>");
    assert!(!page.contains("<script>"));
    assert!(page.contains("&lt;script&gt;"));
}

#[test]
fn escape_replaces_each_special_character() {
    assert_eq!(html_escape("&"), "&amp;");
    assert_eq!(html_escape("<"), "&lt;");
    assert_eq!(html_escape(">"), "&gt;");
    assert_eq!(html_escape("\""), "&quot;");
    assert_eq!(html_escape("'"), "&#39;");
}

#[test]
fn escape_keeps_plain_text() {
    assert_eq!(html_escape("abc 123"), "abc 123");
}
