//! The decisions the publish listener takes about an incoming request.
//! Sockets, bodies, and responses are handled outside the library; it only
//! ever judges plain values.

use vstd::prelude::*;

verus! {

use crate::text;

/// What to do with a request, judged from its URL and method alone.
#[derive(Clone, Copy, PartialEq, Eq, Structural, Debug)]
pub enum RequestDecision {
    /// Not the publish endpoint: reject.
    WrongEndpoint,
    /// The publish endpoint, but not a POST: reject.
    WrongMethod,
    /// A POST to the publish endpoint: read the body and publish.
    Proceed,
}

/// Judge a request: only a POST to the publish endpoint proceeds.
pub fn classify_request(url: &str, method: &str) -> (r: RequestDecision)
    ensures
        url@ != "/publish_codeless"@ ==> r == RequestDecision::WrongEndpoint,
        url@ == "/publish_codeless"@ && method@ != "POST"@ ==> r == RequestDecision::WrongMethod,
        url@ == "/publish_codeless"@ && method@ == "POST"@ ==> r == RequestDecision::Proceed,
{
    let uc = text::chars_of(url);
    if !text::chars_eq_str(&uc, "/publish_codeless") {
        return RequestDecision::WrongEndpoint;
    }
    let mc = text::chars_of(method);
    if !text::chars_eq_str(&mc, "POST") {
        return RequestDecision::WrongMethod;
    }
    RequestDecision::Proceed
}

/// The URL as the server log shows it: censored to one mask character per
/// character when hiding is on, verbatim otherwise.
pub fn gist_url_display(url: &str, hide: bool) -> (r: String)
    ensures
        hide ==> r@ == text::repeated('*', url@.len()),
        !hide ==> r@ == url@,
{
    if hide {
        let n = vstd::string::StrSliceExecFns::unicode_len(url);
        text::repeat_char('*', n)
    } else {
        url.to_owned()
    }
}

} // verus!
