//! The shape of an HTTP response handed back to the host's passthrough
//! request channel.

use vstd::prelude::*;
use std::collections::HashMap;

verus! {

/// A response: status code, derived success flag, headers and body.
#[derive(Debug)]
pub struct HttpResponse {
    pub status: u16,
    pub ok: bool,
    pub headers: HashMap<String, String>,
    pub body: String,
}

impl HttpResponse {
    /// Assembles a response, deriving the success flag from the status
    /// code: the 2xx range means success.
    pub fn from_parts(status: u16, headers: HashMap<String, String>, body: String) -> (r:
        HttpResponse)
        ensures
            r.status == status,
            r.ok == (200 <= status < 300),
            r.body@ == body@,
            r.headers == headers,
    {
        let ok = 200 <= status && status < 300;
        HttpResponse { status, ok, headers, body }
    }
}

} // verus!
