use hexdec::router::{content_type, route, Method, Route};

#[test]
fn root_serves_index() {
    assert_eq!(route(Method::Get, "/"), Route::Index);
}

#[test]
fn index_html_serves_index() {
    assert_eq!(route(Method::Get, "/index.html"), Route::Index);
}

#[test]
fn name_segment_greets() {
    assert_eq!(route(Method::Get, "/Alice"), Route::Greet(String::from("Alice")));
}

#[test]
fn hexify_route() {
    assert_eq!(route(Method::Post, "/api/hexify"), Route::ApiHexify);
}

#[test]
fn decify_route() {
    assert_eq!(route(Method::Post, "/api/decify"), Route::ApiDecify);
}

#[test]
fn unmatched_api_path_falls_back() {
    assert_eq!(
        route(Method::Get, "/api/nonexistent-api-path"),
        Route::ApiNotFound
    );
}

#[test]
fn api_fallback_any_method() {
    assert_eq!(route(Method::Post, "/api/other"), Route::ApiNotFound);
    assert_eq!(route(Method::Get, "/api"), Route::ApiNotFound);
    assert_eq!(route(Method::Get, "/api/"), Route::ApiNotFound);
}

#[test]
fn get_on_conversion_route_is_unmatched_api() {
    assert_eq!(route(Method::Get, "/api/hexify"), Route::ApiNotFound);
}

#[test]
fn static_assets() {
    assert_eq!(route(Method::Get, "/static/css/styles.css"), Route::StaticCss);
    assert_eq!(route(Method::Get, "/static/js/htmx.min.js"), Route::StaticJs);
}

#[test]
fn unknown_static_asset_not_found() {
    assert_eq!(route(Method::Get, "/static/other"), Route::NotFound);
    assert_eq!(route(Method::Get, "/static"), Route::NotFound);
}

#[test]
fn two_segments_not_found() {
    assert_eq!(route(Method::Get, "/a/b"), Route::NotFound);
}

#[test]
fn post_to_root_not_found() {
    assert_eq!(route(Method::Post, "/"), Route::NotFound);
}

#[test]
fn greet_captures_any_single_segment() {
    assert_eq!(
        route(Method::Get, "/staticx"),
        Route::Greet(String::from("staticx"))
    );
    assert_eq!(
        route(Method::Get, "/<script>"),
        Route::Greet(String::from("<script>"))
    );
}

#[test]
fn content_types_of_static_assets() {
    assert_eq!(content_type(&Route::StaticCss), Some("text/css"));
    assert_eq!(content_type(&Route::StaticJs), Some("text/javascript"));
    assert_eq!(content_type(&Route::Index), None);
}
