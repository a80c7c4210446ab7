use vstd::prelude::*;

use crate::text::{concat, concat3, trim_end_char, trim_end_matching};

verus! {

/// The address of a remote episode service: episodes are posted to the base URL and read,
/// replaced and deleted at `<base>/<id>`.
#[derive(Debug)]
pub struct HttpEndpoint {
    base: String,
}

impl View for HttpEndpoint {
    type V = Seq<char>;

    closed spec fn view(&self) -> Seq<char> {
        self.base@
    }
}

impl HttpEndpoint {
    /// The service at `endpoint_url`, without trailing `/`.
    pub fn new(endpoint_url: &str) -> (r: Self)
        ensures
            r@ == trim_end_char(endpoint_url@, '/'),
    {
        HttpEndpoint { base: trim_end_matching(endpoint_url, '/') }
    }

    /// The URL episodes are created at.
    pub fn collection_url(&self) -> (r: String)
        ensures
            r@ == self@,
    {
        self.base.clone()
    }

    /// The URL of episode `id`.
    pub fn episode_url(&self, id: &str) -> (r: String)
        ensures
            r@ == self@ + "/"@ + id@,
    {
        concat3(self.base.as_str(), "/", id)
    }
}

/// The error text for a non-success answer with status `status` (as rendered by the HTTP
/// client) and body `body`.
pub fn http_status_error(status: &str, body: &str) -> (r: String)
    ensures
        r@ == "HTTP error "@ + status@ + ": "@ + body@,
{
    let head = concat3("HTTP error ", status, ": ");
    concat(head.as_str(), body)
}

} // verus!
