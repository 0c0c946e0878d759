use vstd::prelude::*;
use vstd::string::StringExecFns;
use crate::request::{Request, RequestView};

verus! {

/// Credentials sent under a caller-chosen header name. The key itself is
/// stored opaquely and never shown by `describe`.
pub struct HeaderAuth {
    header: String,
    api_key: String,
}

impl HeaderAuth {
    /// The header name under which the key is sent (not secret).
    pub closed spec fn header_name(&self) -> Seq<char> {
        self.header@
    }

    /// The stored secret.
    pub closed spec fn secret(&self) -> Seq<char> {
        self.api_key@
    }

    pub fn new(header: String, api_key: String) -> (r: Self)
        ensures
            r.header_name() == header@,
            r.secret() == api_key@,
    {
        HeaderAuth { header, api_key }
    }
}

/// A bearer token, sent as `authorization: Bearer <token>`.
pub struct BearerAuth {
    token: String,
}

impl BearerAuth {
    /// The stored secret.
    pub closed spec fn secret(&self) -> Seq<char> {
        self.token@
    }

    pub fn new(token: String) -> (r: Self)
        ensures
            r.secret() == token@,
    {
        BearerAuth { token }
    }
}

/// An API key sent under the fixed `x-api-key` header.
pub struct ApiKeyAuth {
    api_key: String,
}

impl ApiKeyAuth {
    /// The stored secret.
    pub closed spec fn secret(&self) -> Seq<char> {
        self.api_key@
    }

    pub fn new(api_key: String) -> (r: Self)
        ensures
            r.secret() == api_key@,
    {
        ApiKeyAuth { api_key }
    }
}

/// The closed set of ways a request can carry credentials. Applying a
/// strategy appends exactly one header; it cannot fail.
pub enum AuthStrategy {
    Header(HeaderAuth),
    Bearer(BearerAuth),
    ApiKey(ApiKeyAuth),
}

impl AuthStrategy {
    /// The single header (name, value) this strategy adds to a request.
    pub open spec fn auth_header(&self) -> (Seq<char>, Seq<char>) {
        match self {
            AuthStrategy::Header(h) => (h.header_name(), h.secret()),
            AuthStrategy::Bearer(b) => ("authorization"@, "Bearer "@ + b.secret()),
            AuthStrategy::ApiKey(k) => ("x-api-key"@, k.secret()),
        }
    }

    /// The redacted rendering: it shows the variant and, for `Header`, the
    /// header name, and masks every secret with a fixed placeholder.
    pub open spec fn describe_spec(&self) -> Seq<char> {
        match self {
            AuthStrategy::Header(h) => "HeaderAuth { "@ + h.header_name() + ": \"***\" }"@,
            AuthStrategy::Bearer(_) => "BearerAuth { token: \"***\" }"@,
            AuthStrategy::ApiKey(_) => "ApiKeyAuth { api_key: \"***\" }"@,
        }
    }

    /// Builds the header pair that `apply_auth` appends.
    pub fn header_pair(&self) -> (r: (String, String))
        ensures
            (r.0@, r.1@) == self.auth_header(),
    {
        match self {
            AuthStrategy::Header(h) => (h.header.clone(), h.api_key.clone()),
            AuthStrategy::Bearer(b) => (
                String::from_str("authorization"),
                String::from_str("Bearer ").concat(b.token.as_str()),
            ),
            AuthStrategy::ApiKey(k) => (String::from_str("x-api-key"), k.api_key.clone()),
        }
    }

    /// Adds this strategy's credentials to an outgoing request: a pure
    /// transformation that appends one header and changes nothing else.
    pub fn apply_auth(&self, request: Request) -> (r: Request)
        ensures
            r@ == (RequestView { headers: request@.headers.push(self.auth_header()), ..request@ }),
    {
        let (name, value) = self.header_pair();
        let mut req = request;
        let ghost orig = req@;
        req.headers.push((name, value));
        proof {
            assert(req@.headers =~= orig.headers.push(self.auth_header()));
        }
        req
    }

    /// The redacted string rendering of this strategy (never the secret).
    pub fn describe(&self) -> (r: String)
        ensures
            r@ == self.describe_spec(),
    {
        match self {
            AuthStrategy::Header(h) => String::from_str("HeaderAuth { ").concat(
                h.header.as_str(),
            ).concat(": \"***\" }"),
            AuthStrategy::Bearer(_) => String::from_str("BearerAuth { token: \"***\" }"),
            AuthStrategy::ApiKey(_) => String::from_str("ApiKeyAuth { api_key: \"***\" }"),
        }
    }
}

/// Law: the redacted rendering does not depend on the stored secret.
/// Two strategies of the same variant (and, for `Header`, the same header
/// name) render identically, whatever secrets they hold; so the rendering
/// can never reveal a secret that is not already part of the fixed text or
/// the header name.
pub proof fn lemma_describe_independent_of_secret(a: AuthStrategy, b: AuthStrategy)
    requires
        match (a, b) {
            (AuthStrategy::Header(h1), AuthStrategy::Header(h2)) => h1.header_name()
                == h2.header_name(),
            (AuthStrategy::Bearer(_), AuthStrategy::Bearer(_)) => true,
            (AuthStrategy::ApiKey(_), AuthStrategy::ApiKey(_)) => true,
            _ => false,
        },
    ensures
        a.describe_spec() == b.describe_spec(),
{
}

} // verus!
