//! Route dispatch: which handler serves a request, decided from the
//! method and the path alone. The HTTP surface is a greeting page at
//! the root, an `/api` namespace with the two conversion endpoints and
//! a JSON not-found fallback, and a `/static` namespace with two fixed
//! assets.

use vstd::prelude::*;

verus! {

/// The request methods that the route table distinguishes.
#[derive(Clone, Copy, Debug, PartialEq, Eq, Structural)]
pub enum Method {
    Get,
    Post,
}

/// The dispatch decision for a request.
#[derive(Clone, Debug, PartialEq, Eq)]
pub enum Route {
    /// `GET /` or `GET /index.html`: the greeting for the name `world`.
    Index,
    /// `GET /{name}`: the greeting for the carried path segment.
    Greet(String),
    /// `POST /api/hexify`: decimal-to-hexadecimal conversion.
    ApiHexify,
    /// `POST /api/decify`: hexadecimal-to-decimal conversion.
    ApiDecify,
    /// Any other request under `/api`: the JSON not-found response.
    ApiNotFound,
    /// `GET /static/css/styles.css`.
    StaticCss,
    /// `GET /static/js/htmx.min.js`.
    StaticJs,
    /// Anything else: plain not found.
    NotFound,
}

/// The dispatch decision, over the path as a character sequence.
pub enum SpecRoute {
    Index,
    Greet(Seq<char>),
    ApiHexify,
    ApiDecify,
    ApiNotFound,
    StaticCss,
    StaticJs,
    NotFound,
}

impl View for Route {
    type V = SpecRoute;

    open spec fn view(&self) -> SpecRoute {
        match self {
            Route::Index => SpecRoute::Index,
            Route::Greet(name) => SpecRoute::Greet(name@),
            Route::ApiHexify => SpecRoute::ApiHexify,
            Route::ApiDecify => SpecRoute::ApiDecify,
            Route::ApiNotFound => SpecRoute::ApiNotFound,
            Route::StaticCss => SpecRoute::StaticCss,
            Route::StaticJs => SpecRoute::StaticJs,
            Route::NotFound => SpecRoute::NotFound,
        }
    }
}

/// `pre` is a prefix of `s`.
pub open spec fn has_prefix(s: Seq<char>, pre: Seq<char>) -> bool {
    pre.len() <= s.len() && forall|j: int| 0 <= j < pre.len() ==> s[j] == pre[j]
}

/// The route table. Exact routes and the two namespaces take precedence
/// over the single-segment name capture; a request that matches no row,
/// in path or in method, is not found — inside the `/api` namespace with
/// the JSON body, elsewhere with the plain response.
pub open spec fn spec_route(m: Method, p: Seq<char>) -> SpecRoute {
    if has_prefix(p, "/static"@) && (p.len() == 7 || p[7] == '/') {
        if m == Method::Get && p == "/static/css/styles.css"@ {
            SpecRoute::StaticCss
        } else if m == Method::Get && p == "/static/js/htmx.min.js"@ {
            SpecRoute::StaticJs
        } else {
            SpecRoute::NotFound
        }
    } else if has_prefix(p, "/api"@) && (p.len() == 4 || p[4] == '/') {
        if m == Method::Post && p == "/api/hexify"@ {
            SpecRoute::ApiHexify
        } else if m == Method::Post && p == "/api/decify"@ {
            SpecRoute::ApiDecify
        } else {
            SpecRoute::ApiNotFound
        }
    } else if m == Method::Get && (p == "/"@ || p == "/index.html"@) {
        SpecRoute::Index
    } else if m == Method::Get && p.len() >= 2 && p[0] == '/' && (forall|j: int|
        1 <= j < p.len() ==> p[j] != '/') {
        SpecRoute::Greet(p.skip(1))
    } else {
        SpecRoute::NotFound
    }
}

/// The two strings are equal, character for character.
fn str_eq(a: &str, b: &str) -> (r: bool)
    ensures
        r == (a@ == b@),
{
    let la: usize = a.unicode_len();
    let lb: usize = b.unicode_len();
    if la != lb {
        return false;
    }
    let mut i: usize = 0;
    while i < la
        invariant
            i <= la,
            la == a@.len(),
            la == b@.len(),
            forall|j: int| 0 <= j < i ==> a@[j] == b@[j],
        decreases la - i,
    {
        if a.get_char(i) != b.get_char(i) {
            return false;
        }
        i += 1;
    }
    proof {
        assert(a@ =~= b@);
    }
    true
}

/// The second string is a prefix of the first.
fn starts_with_str(s: &str, pre: &str) -> (r: bool)
    ensures
        r == has_prefix(s@, pre@),
{
    let ls: usize = s.unicode_len();
    let lp: usize = pre.unicode_len();
    if ls < lp {
        return false;
    }
    let mut i: usize = 0;
    while i < lp
        invariant
            i <= lp,
            lp <= ls,
            ls == s@.len(),
            lp == pre@.len(),
            forall|j: int| 0 <= j < i ==> s@[j] == pre@[j],
        decreases lp - i,
    {
        if s.get_char(i) != pre.get_char(i) {
            return false;
        }
        i += 1;
    }
    true
}

/// No `/` occurs after the leading one: the path is a single segment.
fn tail_has_no_slash(path: &str) -> (r: bool)
    requires
        path@.len() >= 1,
    ensures
        r == (forall|j: int| 1 <= j < path@.len() ==> path@[j] != '/'),
{
    let len: usize = path.unicode_len();
    let mut i: usize = 1;
    while i < len
        invariant
            1 <= i <= len,
            len == path@.len(),
            forall|j: int| 1 <= j < i ==> path@[j] != '/',
        decreases len - i,
    {
        if path.get_char(i) == '/' {
            return false;
        }
        i += 1;
    }
    true
}

/// Dispatches a request to the handler the route table assigns it.
pub fn route(m: Method, path: &str) -> (r: Route)
    ensures
        r@ == spec_route(m, path@),
{
    let len: usize = path.unicode_len();
    let in_static: bool = if !starts_with_str(path, "/static") {
        false
    } else if len == 7 {
        true
    } else {
        proof {
            reveal_strlit("/static");
        }
        path.get_char(7) == '/'
    };
    proof {
        reveal_strlit("/static");
    }
    if in_static {
        if m == Method::Get && str_eq(path, "/static/css/styles.css") {
            return Route::StaticCss;
        }
        if m == Method::Get && str_eq(path, "/static/js/htmx.min.js") {
            return Route::StaticJs;
        }
        return Route::NotFound;
    }
    let in_api: bool = if !starts_with_str(path, "/api") {
        false
    } else if len == 4 {
        true
    } else {
        proof {
            reveal_strlit("/api");
        }
        path.get_char(4) == '/'
    };
    proof {
        reveal_strlit("/api");
    }
    if in_api {
        if m == Method::Post && str_eq(path, "/api/hexify") {
            return Route::ApiHexify;
        }
        if m == Method::Post && str_eq(path, "/api/decify") {
            return Route::ApiDecify;
        }
        return Route::ApiNotFound;
    }
    if m == Method::Get && (str_eq(path, "/") || str_eq(path, "/index.html")) {
        return Route::Index;
    }
    if m == Method::Get && len >= 2 {
        let first_is_slash: bool = path.get_char(0) == '/';
        if first_is_slash && tail_has_no_slash(path) {
            let name = path.substring_char(1, len);
            proof {
                assert(name@ =~= path@.skip(1));
            }
            return Route::Greet(String::from_str(name));
        }
    }
    Route::NotFound
}

/// The content type a static asset is served under: the style sheet as
/// CSS, the script as JavaScript, nothing for the other routes.
pub fn content_type(r: &Route) -> (t: Option<&'static str>)
    ensures
        (match r {
            Route::StaticCss => t matches Some(s) && s@ == "text/css"@,
            Route::StaticJs => t matches Some(s) && s@ == "text/javascript"@,
            _ => t is None,
        }),
{
    match r {
        Route::StaticCss => Some("text/css"),
        Route::StaticJs => Some("text/javascript"),
        _ => None,
    }
}

} // verus!
