//! Trusted boundary to the HTTP client.

use vstd::prelude::*;

verus! {

/// Relies on reqwest::blocking: one HTTP GET of the URL with the given
/// user-agent header; the response body text, or the error's display text —
/// a client that cannot be built is reported the same way, never unwrapped.
/// The outcome depends on the network, so nothing is assumed of it: every
/// caller states what holds whatever comes back.
///
/// The blocking client refuses to run on a thread of an async runtime (it
/// panics there, by its documentation): the surrounding application must
/// call the fetch paths from plain threads only.
#[verifier::external_body]
pub(crate) fn http_get_text(url: &Vec<u8>, user_agent: &Vec<u8>) -> (r: Result<String, String>) {
    let url_s = String::from_utf8_lossy(url).into_owned();
    let ua_s = String::from_utf8_lossy(user_agent).into_owned();
    let client = match reqwest::blocking::Client::builder().build() {
        Ok(c) => c,
        Err(e) => return Err(e.to_string()),
    };
    match client.get(url_s).header(reqwest::header::USER_AGENT, ua_s).send() {
        Ok(resp) => match resp.text() {
            Ok(t) => Ok(t),
            Err(e) => Err(e.to_string()),
        },
        Err(e) => Err(e.to_string()),
    }
}

} // verus!
