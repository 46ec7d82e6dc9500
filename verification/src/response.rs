//! Response bodies: the greeting page with HTML escaping, the error
//! text for a failed conversion, and the not-found payload of the API
//! namespace.

use vstd::prelude::*;
use crate::convert::ParseError;

verus! {

/// Relies on `String::push`: appends the given character at the end.
#[verifier::external_body]
fn push_char(s: &mut String, c: char)
    ensures
        final(s)@ == old(s)@.push(c),
{
    s.push(c);
}

/// The HTML entity that stands for `c` in escaped text; every other
/// character stands for itself.
pub open spec fn escape_char(c: char) -> Seq<char> {
    if c == '&' {
        seq!['&', 'a', 'm', 'p', ';']
    } else if c == '<' {
        seq!['&', 'l', 't', ';']
    } else if c == '>' {
        seq!['&', 'g', 't', ';']
    } else if c == '"' {
        seq!['&', 'q', 'u', 'o', 't', ';']
    } else if c == '\'' {
        seq!['&', '#', '3', '9', ';']
    } else {
        seq![c]
    }
}

/// The text with every markup-significant character replaced by its
/// HTML entity.
pub open spec fn spec_escape(s: Seq<char>) -> Seq<char>
    decreases s.len(),
{
    if s.len() == 0 {
        seq![]
    } else {
        spec_escape(s.drop_last()) + escape_char(s.last())
    }
}

/// Escapes `&`, `<`, `>`, `"` and `'` for safe embedding in HTML.
pub fn html_escape(s: &str) -> (r: String)
    ensures
        r@ == spec_escape(s@),
{
    let len: usize = s.unicode_len();
    let mut out = String::new();
    let mut i: usize = 0;
    while i < len
        invariant
            i <= len,
            len == s@.len(),
            out@ == spec_escape(s@.take(i as int)),
        decreases len - i,
    {
        let c = s.get_char(i);
        if c == '&' {
            out.append("&amp;");
            proof {
                reveal_strlit("&amp;");
                assert("&amp;"@ =~= escape_char(c));
            }
        } else if c == '<' {
            out.append("&lt;");
            proof {
                reveal_strlit("&lt;");
                assert("&lt;"@ =~= escape_char(c));
            }
        } else if c == '>' {
            out.append("&gt;");
            proof {
                reveal_strlit("&gt;");
                assert("&gt;"@ =~= escape_char(c));
            }
        } else if c == '"' {
            out.append("&quot;");
            proof {
                reveal_strlit("&quot;");
                assert("&quot;"@ =~= escape_char(c));
            }
        } else if c == '\'' {
            out.append("&#39;");
            proof {
                reveal_strlit("&#39;");
                assert("&#39;"@ =~= escape_char(c));
            }
        } else {
            push_char(&mut out, c);
            proof {
                assert(out@ =~= spec_escape(s@.take(i as int)) + escape_char(c));
            }
        }
        proof {
            assert(s@.take(i + 1).drop_last() =~= s@.take(i as int));
            assert(s@.take(i + 1).last() == s@[i as int]);
        }
        i += 1;
    }
    proof {
        assert(s@.take(len as int) =~= s@);
    }
    out
}

/// Escaped text never contains a markup-significant character other
/// than the `&` that begins an entity: no raw `<`, `>`, `"` or `'`
/// survives escaping.
pub proof fn lemma_escape_no_markup(s: Seq<char>)
    ensures
        forall|i: int|
            0 <= i < spec_escape(s).len() ==> spec_escape(s)[i] != '<'
                && spec_escape(s)[i] != '>' && spec_escape(s)[i] != '"' && spec_escape(s)[i]
                != '\'',
    decreases s.len(),
{
    if s.len() > 0 {
        lemma_escape_no_markup(s.drop_last());
        let a = spec_escape(s.drop_last());
        let b = escape_char(s.last());
        assert forall|i: int| 0 <= i < spec_escape(s).len() implies spec_escape(s)[i] != '<'
            && spec_escape(s)[i] != '>' && spec_escape(s)[i] != '"' && spec_escape(s)[i]
            != '\'' by {
            if i < a.len() {
                assert(spec_escape(s)[i] == a[i]);
            } else {
                assert(spec_escape(s)[i] == b[i - a.len()]);
            }
        }
    }
}

/// The greeting page for a name: an HTML fragment with the name escaped.
pub open spec fn spec_greeting(name: Seq<char>) -> Seq<char> {
    "<h1>Hello, "@ + spec_escape(name) + "!</h1>"@
}

/// Renders the greeting for the path's name segment, escaping the name.
pub fn hello_name(name: &str) -> (r: String)
    ensures
        r@ == spec_greeting(name@),
{
    let mut out = String::from_str("<h1>Hello, ");
    out.append(html_escape(name).as_str());
    out.append("!</h1>");
    out
}

/// Renders the greeting of the index page, for the name `world`.
pub fn hello_world() -> (r: String)
    ensures
        r@ == spec_greeting("world"@),
{
    hello_name("world")
}

/// The short text naming the parse failure, as the conversion error
/// reports it.
pub open spec fn spec_error_detail(e: ParseError) -> Seq<char> {
    match e {
        ParseError::Empty => "cannot parse integer from empty string"@,
        ParseError::InvalidDigit => "invalid digit found in string"@,
        ParseError::PosOverflow => "number too large to fit in target type"@,
        ParseError::NegOverflow => "number too small to fit in target type"@,
    }
}

/// The body of a failed conversion's response.
pub open spec fn spec_error_message(e: ParseError) -> Seq<char> {
    "Something went wrong: "@ + spec_error_detail(e)
}

impl ParseError {
    /// The short text naming this parse failure.
    pub fn message(&self) -> (r: &'static str)
        ensures
            r@ == spec_error_detail(*self),
    {
        match self {
            ParseError::Empty => "cannot parse integer from empty string",
            ParseError::InvalidDigit => "invalid digit found in string",
            ParseError::PosOverflow => "number too large to fit in target type",
            ParseError::NegOverflow => "number too small to fit in target type",
        }
    }

    /// The HTTP response for this error: status 400 with the fixed
    /// message template around the failure text.
    pub fn into_response(self) -> (r: (u16, String))
        ensures
            r.0 == 400,
            r.1@ == spec_error_message(self),
    {
        let mut body = String::from_str("Something went wrong: ");
        body.append(self.message());
        (400, body)
    }
}

/// The HTTP response of the decimal-to-hexadecimal endpoint for an
/// extracted `dec_value`: status 200 with the hex string on success,
/// status 400 with the error template on a parse failure.
pub fn hexify_response(dec_value: &str) -> (r: (u16, String))
    ensures
        (match crate::convert::spec_decimal_to_hex(dec_value@) {
            Ok(h) => r.0 == 200 && r.1@ == h,
            Err(e) => r.0 == 400 && r.1@ == spec_error_message(e),
        }),
{
    match crate::convert::decimal_to_hex(dec_value) {
        Ok(h) => (200, h),
        Err(e) => e.into_response(),
    }
}

/// The HTTP response of the hexadecimal-to-decimal endpoint for an
/// extracted `hex_value`: status 200 with the decimal string on
/// success, status 400 with the error template on a parse failure.
pub fn decify_response(hex_value: &str) -> (r: (u16, String))
    ensures
        (match crate::convert::spec_hex_to_decimal(hex_value@) {
            Ok(d) => r.0 == 200 && r.1@ == d,
            Err(e) => r.0 == 400 && r.1@ == spec_error_message(e),
        }),
{
    match crate::convert::hex_to_decimal(hex_value) {
        Ok(d) => (200, d),
        Err(e) => e.into_response(),
    }
}

/// The HTTP response for a request under the API namespace that matches
/// no route: status 404 with a fixed JSON body.
pub fn api_fallback() -> (r: (u16, String))
    ensures
        r.0 == 404,
        r.1@ == "{\"error\":\"notFound\"}"@,
{
    (404, String::from_str("{\"error\":\"notFound\"}"))
}

} // verus!
