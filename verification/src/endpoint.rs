//! The fixed remote endpoint: the collector URL and the authorization header
//! value, resolved once from host, source tag, sourcetype tag and token, and
//! read-only for the lifetime of a run.

use vstd::prelude::*;
use vstd::string::StringExecFns;

verus! {

/// The target URL for the given host and tags.
pub open spec fn url_of(host: Seq<char>, source: Seq<char>, sourcetype: Seq<char>) -> Seq<char> {
    "https://"@ + host + "/services/collector/raw?source="@ + source + "&sourcetype="@ + sourcetype
}

/// The authorization header value for the given token.
pub open spec fn auth_of(token: Seq<char>) -> Seq<char> {
    "Splunk "@ + token
}

/// The resolved endpoint configuration.
pub struct EndpointConfig {
    url: String,
    auth: String,
}

impl EndpointConfig {
    /// The resolved URL.
    pub closed spec fn url_spec(&self) -> Seq<char> {
        self.url@
    }

    /// The resolved authorization header value.
    pub closed spec fn auth_spec(&self) -> Seq<char> {
        self.auth@
    }

    /// Resolve host, tags and token into the URL and header value used for
    /// every request of the run.
    pub fn new(host: &str, source: &str, sourcetype: &str, token: &str) -> (r: EndpointConfig)
        ensures
            r.url_spec() == url_of(host@, source@, sourcetype@),
            r.auth_spec() == auth_of(token@),
    {
        let mut url = String::from_str("https://");
        url.append(host);
        url.append("/services/collector/raw?source=");
        url.append(source);
        url.append("&sourcetype=");
        url.append(sourcetype);
        let mut auth = String::from_str("Splunk ");
        auth.append(token);
        EndpointConfig { url, auth }
    }

    /// The URL each batch is posted to.
    pub fn url(&self) -> (r: &String)
        ensures
            r@ == self.url_spec(),
    {
        &self.url
    }

    /// The `Authorization` header value sent with each batch.
    pub fn auth_header(&self) -> (r: &String)
        ensures
            r@ == self.auth_spec(),
    {
        &self.auth
    }
}

} // verus!
