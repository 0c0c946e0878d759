use vstd::prelude::*;
use vstd::string::StringExecFns;
use crate::auth::AuthStrategy;
use crate::error::ApiClientError;
use crate::json::{json_doc, json_text, parse_json_text, render_json_text, JsonValue};
use crate::request::{Method, Request, RequestView};
use crate::shape::{check_shape, matches_shape, mismatch, render_path, rendered_path, Shape};
use crate::text::{
    lemma_trim_leading_properties, lemma_trim_trailing_properties, trim_end_slashes,
    trim_leading_slashes, trim_start_slashes, trim_trailing_slashes,
};

verus! {

/// The outcome of one logical call.
pub type ApiResult<T> = Result<T, ApiClientError>;

/// How many transport attempts one logical call may spend before the
/// retry budget for rate-limited replies is exhausted.
pub const MAX_ATTEMPTS: u8 = 3;

/// One completed transport attempt, as the retry machinery consumes it:
/// a transport-level failure, or a reply with its status and body text
/// (`None` body when reading it failed).
pub enum RawResponse {
    Failure(String),
    Reply { status: u16, body: Option<String> },
}

/// The body text a reply is handled with: what was read, or the fixed
/// placeholder when reading failed (best-effort diagnostic, never a hard
/// error).
pub open spec fn effective_body(body: Option<String>) -> Seq<char> {
    match body {
        Some(s) => s@,
        None => "Failed to read response body"@,
    }
}

/// The HTTP success range.
pub open spec fn is_success_status(status: u16) -> bool {
    200 <= status < 300
}

/// The one reply kind that triggers the retry loop: exactly HTTP 429.
pub open spec fn is_rate_limited(resp: RawResponse) -> bool {
    match resp {
        RawResponse::Reply { status, .. } => status == 429,
        _ => false,
    }
}

/// How a classified reply relates (status, body text) to the returned
/// outcome: a success status parses the body as JSON (JsonParse when that
/// fails), 429 is RateLimit with the raw body, everything else ApiError
/// with status and raw body. Pins everything except the wording of the
/// parse diagnostic.
pub open spec fn handled(status: u16, body: Seq<char>, r: Result<JsonValue, ApiClientError>) -> bool {
    if is_success_status(status) {
        match json_doc(body) {
            Some(v) => r == Ok::<JsonValue, ApiClientError>(v),
            None => r matches Err(ApiClientError::JsonParse(_)),
        }
    } else if status == 429 {
        r matches Err(ApiClientError::RateLimit(m)) && m@ == body
    } else {
        r matches Err(ApiClientError::ApiError { status: st, body: b }) && st == status && b@
            == body
    }
}

/// What one decisive (non-rate-limited) attempt returns: a transport
/// failure surfaces as Network, a reply as its classification.
pub open spec fn decided(resp: RawResponse, r: Result<JsonValue, ApiClientError>) -> bool {
    match resp {
        RawResponse::Failure(m) => r matches Err(ApiClientError::Network(msg)) && msg@ == m@,
        RawResponse::Reply { status, body } => handled(status, effective_body(body), r),
    }
}

/// The length of the leading run of rate-limited replies.
pub open spec fn lead_rate_limited(rs: Seq<RawResponse>) -> int
    decreases rs.len(),
{
    if rs.len() > 0 && is_rate_limited(rs.first()) {
        1 + lead_rate_limited(rs.drop_first())
    } else {
        0
    }
}

proof fn lemma_lead_rate_limited_nonneg(rs: Seq<RawResponse>)
    ensures
        lead_rate_limited(rs) >= 0,
    decreases rs.len(),
{
    if rs.len() > 0 && is_rate_limited(rs.first()) {
        lemma_lead_rate_limited_nonneg(rs.drop_first());
    }
}

proof fn lemma_lead_rate_limited(rs: Seq<RawResponse>, i: int)
    requires
        0 <= i <= rs.len(),
        forall|j: int| 0 <= j < i ==> is_rate_limited(rs[j]),
    ensures
        lead_rate_limited(rs) >= i,
        i < rs.len() && !is_rate_limited(rs[i]) ==> lead_rate_limited(rs) == i,
    decreases i,
{
    if i > 0 {
        assert(is_rate_limited(rs.first()));
        assert forall|j: int| 0 <= j < i - 1 implies is_rate_limited(rs.drop_first()[j]) by {
            assert(rs.drop_first()[j] == rs[j + 1]);
        }
        lemma_lead_rate_limited(rs.drop_first(), i - 1);
        assert(lead_rate_limited(rs) == 1 + lead_rate_limited(rs.drop_first()));
        if i < rs.len() {
            assert(rs.drop_first()[i - 1] == rs[i]);
        }
    } else {
        lemma_lead_rate_limited_nonneg(rs);
    }
}

/// The scalar rendering of a field value, if it has one: strings keep
/// their text, booleans render as true/false, numbers keep their decimal
/// rendering; arrays, nested objects and null have none and are dropped.
pub open spec fn scalar_string(v: JsonValue) -> Option<Seq<char>> {
    match v {
        JsonValue::Str(s) => Some(s@),
        JsonValue::Bool(b) => Some(if b {
            "true"@
        } else {
            "false"@
        }),
        JsonValue::Num(n) => Some(n@),
        _ => None,
    }
}

/// An object's scalar fields flattened to string pairs, in field order.
pub open spec fn scalar_pairs(fields: Seq<(String, JsonValue)>) -> Seq<(Seq<char>, Seq<char>)>
    decreases fields.len(),
{
    if fields.len() == 0 {
        Seq::empty()
    } else {
        (match scalar_string(fields.first().1) {
            Some(s) => seq![(fields.first().0@, s)],
            None => Seq::<(Seq<char>, Seq<char>)>::empty(),
        }) + scalar_pairs(fields.drop_first())
    }
}

proof fn lemma_scalar_pairs_snoc(fields: Seq<(String, JsonValue)>, x: (String, JsonValue))
    ensures
        scalar_pairs(fields.push(x)) == scalar_pairs(fields) + (match scalar_string(x.1) {
            Some(s) => seq![(x.0@, s)],
            None => Seq::<(Seq<char>, Seq<char>)>::empty(),
        }),
    decreases fields.len(),
{
    let tail = (match scalar_string(x.1) {
        Some(s) => seq![(x.0@, s)],
        None => Seq::<(Seq<char>, Seq<char>)>::empty(),
    });
    if fields.len() == 0 {
        assert(fields.push(x).first() == x);
        assert(fields.push(x).drop_first() =~= fields);
        assert(scalar_pairs(fields.push(x)) == tail + scalar_pairs(fields));
        assert(scalar_pairs(fields.push(x)) =~= scalar_pairs(fields) + tail);
    } else {
        assert(fields.push(x).first() == fields.first());
        assert(fields.push(x).drop_first() =~= fields.drop_first().push(x));
        lemma_scalar_pairs_snoc(fields.drop_first(), x);
        let head = (match scalar_string(fields.first().1) {
            Some(s) => seq![(fields.first().0@, s)],
            None => Seq::<(Seq<char>, Seq<char>)>::empty(),
        });
        assert(scalar_pairs(fields.push(x)) == head + (scalar_pairs(fields.drop_first()) + tail));
        assert(head + (scalar_pairs(fields.drop_first()) + tail) =~= (head + scalar_pairs(
            fields.drop_first(),
        )) + tail);
        assert(scalar_pairs(fields.push(x)) =~= scalar_pairs(fields) + tail);
    }
}

fn clone_pairs(p: &Vec<(String, String)>) -> (r: Vec<(String, String)>)
    ensures
        r.deep_view() == p.deep_view(),
{
    let mut r: Vec<(String, String)> = Vec::new();
    let mut i: usize = 0;
    while i < p.len()
        invariant
            0 <= i <= p.len(),
            r@.len() == i,
            forall|j: int| 0 <= j < i ==> r@[j] == p@[j],
        decreases p.len() - i,
    {
        let pair = (p[i].0.clone(), p[i].1.clone());
        proof {
            assert(pair == p@[i as int]);
        }
        r.push(pair);
        i = i + 1;
    }
    proof {
        assert(r.deep_view().len() == r@.len());
        assert(p.deep_view().len() == p@.len());
        assert forall|j: int|
            0 <= j < r.deep_view().len() implies r.deep_view()[j] == p.deep_view()[j] by {
            assert(r.deep_view()[j] == r@[j].deep_view());
            assert(p.deep_view()[j] == p@[j].deep_view());
        }
        assert(r.deep_view() =~= p.deep_view());
    }
    r
}

/// Attempts-remaining state of one logical call's retry loop. It lives on
/// the call, never on the client, so concurrent calls are independent.
pub struct RetryState {
    remaining: u8,
}

impl RetryState {
    /// Attempts this call may still spend.
    pub closed spec fn remaining_spec(&self) -> u8 {
        self.remaining
    }

    /// A fresh call's full budget.
    pub fn new() -> (r: Self)
        ensures
            r.remaining_spec() == MAX_ATTEMPTS,
    {
        RetryState { remaining: MAX_ATTEMPTS }
    }

    /// True when the budget is spent and the call must give up with
    /// MaxRetriesReached.
    pub fn exhausted(&self) -> (r: bool)
        ensures
            r == (self.remaining_spec() == 0),
    {
        self.remaining == 0
    }
}

/// What the retry loop does after one completed attempt.
pub enum RetryStep {
    /// The call is decided: return this outcome, no retry.
    Finish(Result<JsonValue, ApiClientError>),
    /// The reply was rate-limited and budget remains: sleep the fixed
    /// backoff, then resend with this state.
    SleepAndRetry(RetryState),
}

/// The public facade: owns the base URL (stored with trailing slashes
/// stripped) and an optional auth strategy. Immutable after construction
/// and safely shared by concurrent calls: every retry counter lives on the
/// call itself.
pub struct ApiClient {
    base_url: String,
    auth_strategy: Option<AuthStrategy>,
}

impl ApiClient {
    /// The stored base URL.
    pub closed spec fn base(&self) -> Seq<char> {
        self.base_url@
    }

    /// The configured auth strategy.
    pub closed spec fn auth(&self) -> Option<AuthStrategy> {
        self.auth_strategy
    }

    /// The headers every request built by this client carries.
    pub open spec fn auth_headers(&self) -> Seq<(Seq<char>, Seq<char>)> {
        match self.auth() {
            Some(a) => seq![a.auth_header()],
            None => Seq::empty(),
        }
    }

    /// The absolute URL for an endpoint: the stored base, exactly one '/',
    /// and the endpoint with its leading slashes stripped (see
    /// `lemma_url_single_seam`).
    pub open spec fn joined_url(&self, endpoint: Seq<char>) -> Seq<char> {
        self.base() + seq!['/'] + trim_leading_slashes(endpoint)
    }

    pub fn new(base_url: &str, auth_strategy: Option<AuthStrategy>) -> (r: Self)
        ensures
            r.base() == trim_trailing_slashes(base_url@),
            r.auth() == auth_strategy,
    {
        ApiClient { base_url: trim_end_slashes(base_url), auth_strategy }
    }

    /// Applies the configured strategy, if any: appends its one header and
    /// changes nothing else.
    fn apply_auth(&self, request: Request) -> (r: Request)
        ensures
            r@ == (RequestView { headers: request@.headers + self.auth_headers(), ..request@ }),
    {
        match &self.auth_strategy {
            Some(a) => {
                let r = a.apply_auth(request);
                proof {
                    assert(request@.headers.push(a.auth_header()) =~= request@.headers
                        + self.auth_headers());
                }
                r
            },
            None => {
                proof {
                    assert(request@.headers + self.auth_headers() =~= request@.headers);
                }
                request
            },
        }
    }

    fn build_url(&self, endpoint: &str) -> (r: String)
        ensures
            r@ == self.joined_url(endpoint@),
    {
        let mut url = self.base_url.clone();
        url.append("/");
        let trimmed = trim_start_slashes(endpoint);
        url.append(trimmed.as_str());
        proof {
            reveal_strlit("/");
            assert("/"@ =~= seq!['/']);
            assert(url@ =~= self.joined_url(endpoint@));
        }
        url
    }

    /// Builds the prepared GET request: joined URL, auth applied, query
    /// pairs attached, no body. The transport sends it and hands each
    /// completed attempt back to `step` (or the whole script of attempts
    /// to `execute_request`).
    pub fn get(&self, endpoint: &str, params: Option<&Vec<(String, String)>>) -> (r: Request)
        ensures
            r@.method == Method::Get,
            r@.url == self.joined_url(endpoint@),
            r@.headers == self.auth_headers(),
            r@.query == (match params {
                Some(p) => p.deep_view(),
                None => Seq::<(Seq<char>, Seq<char>)>::empty(),
            }),
            r@.body is None,
    {
        let query: Vec<(String, String)> = match params {
            Some(p) => clone_pairs(p),
            None => Vec::new(),
        };
        let request = Request {
            method: Method::Get,
            url: self.build_url(endpoint),
            headers: Vec::new(),
            query,
            body: None,
        };
        proof {
            assert(request@.headers =~= Seq::<(Seq<char>, Seq<char>)>::empty());
        }
        let r = self.apply_auth(request);
        proof {
            assert(Seq::<(Seq<char>, Seq<char>)>::empty() + self.auth_headers()
                =~= self.auth_headers());
        }
        r
    }

    /// Builds the prepared POST request, encoding the body as JSON text;
    /// an encoding failure is fatal for the call (DeserializeError) and is
    /// never retried.
    pub fn post(&self, endpoint: &str, body: Option<&JsonValue>) -> (r: ApiResult<Request>)
        ensures
            body is None ==> (r matches Ok(req) && req@ == (RequestView {
                method: Method::Post,
                url: self.joined_url(endpoint@),
                headers: self.auth_headers(),
                query: Seq::empty(),
                body: None,
            })),
            body matches Some(b) ==> match r {
                Ok(req) => req@ == (RequestView {
                    method: Method::Post,
                    url: self.joined_url(endpoint@),
                    headers: self.auth_headers(),
                    query: Seq::empty(),
                    body: Some(json_text(*b)),
                }),
                Err(e) => e is DeserializeError,
            },
    {
        let body_text: Option<String> = match body {
            Some(b) => match render_json_text(b) {
                Ok(s) => Some(s),
                Err(m) => {
                    return Err(ApiClientError::DeserializeError(m));
                },
            },
            None => None,
        };
        let request = Request {
            method: Method::Post,
            url: self.build_url(endpoint),
            headers: Vec::new(),
            query: Vec::new(),
            body: body_text,
        };
        proof {
            assert(request@.headers =~= Seq::<(Seq<char>, Seq<char>)>::empty());
            assert(request@.query =~= Seq::<(Seq<char>, Seq<char>)>::empty());
        }
        let r = self.apply_auth(request);
        proof {
            assert(Seq::<(Seq<char>, Seq<char>)>::empty() + self.auth_headers()
                =~= self.auth_headers());
        }
        Ok(r)
    }

    /// Classifies one completed reply and parses a success body. A body
    /// that could not be read degrades to a fixed placeholder text rather
    /// than failing the call.
    pub fn handle_response(&self, status: u16, body: Option<String>) -> (r: ApiResult<
        JsonValue,
    >)
        ensures
            handled(status, effective_body(body), r),
            r matches Err(e) ==> (e is RateLimit <==> status == 429),
    {
        let text: String = match body {
            Some(s) => s,
            None => String::from_str("Failed to read response body"),
        };
        if 200 <= status && status < 300 {
            match parse_json_text(text.as_str()) {
                Ok(v) => Ok(v),
                Err(m) => Err(ApiClientError::JsonParse(m)),
            }
        } else if status == 429 {
            Err(ApiClientError::RateLimit(text))
        } else {
            Err(ApiClientError::ApiError { status, body: text })
        }
    }

    /// One transition of the retry state machine: a transport failure or a
    /// decisive reply finishes the call at once; a rate-limited reply
    /// consumes one attempt and asks the driver to sleep the fixed backoff
    /// and resend the same prepared request.
    pub fn step(&self, state: RetryState, response: RawResponse) -> (r: RetryStep)
        requires
            state.remaining_spec() > 0,
        ensures
            match response {
                RawResponse::Failure(m) => r matches RetryStep::Finish(
                    Err(ApiClientError::Network(msg)),
                ) && msg@ == m@,
                RawResponse::Reply { status, body } => if status == 429 {
                    r matches RetryStep::SleepAndRetry(s) && s.remaining_spec()
                        == state.remaining_spec() - 1
                } else {
                    r matches RetryStep::Finish(res) && handled(
                        status,
                        effective_body(body),
                        res,
                    )
                },
            },
    {
        match response {
            RawResponse::Failure(m) => RetryStep::Finish(Err(ApiClientError::Network(m))),
            RawResponse::Reply { status, body } => {
                let outcome = self.handle_response(status, body);
                match outcome {
                    Err(ApiClientError::RateLimit(_)) => RetryStep::SleepAndRetry(
                        RetryState { remaining: state.remaining - 1 },
                    ),
                    other => RetryStep::Finish(other),
                }
            },
        }
    }

    /// Runs one logical call against a script of completed transport
    /// attempts, one entry per attempt in order: the observable model of
    /// the retry loop (the async driver performs the sends and the fixed
    /// sleeps, then feeds the replies through the same classification).
    /// The first decisive attempt within the budget decides the call; a
    /// full budget of rate-limited replies yields MaxRetriesReached.
    pub fn execute_request(&self, responses: &Vec<RawResponse>) -> (r: ApiResult<
        JsonValue,
    >)
        requires
            responses.len() >= MAX_ATTEMPTS,
        ensures
            ({
                let k = lead_rate_limited(responses@);
                &&& k >= MAX_ATTEMPTS ==> (r matches Err(ApiClientError::MaxRetriesReached))
                &&& k < MAX_ATTEMPTS ==> decided(responses@[k], r)
            }),
    {
        let mut retries: u8 = MAX_ATTEMPTS;
        let mut i: usize = 0;
        while retries > 0
            invariant
                i + retries == MAX_ATTEMPTS,
                responses.len() >= MAX_ATTEMPTS,
                forall|j: int| 0 <= j < i ==> is_rate_limited(responses@[j]),
            decreases retries,
        {
            let outcome: Result<JsonValue, ApiClientError> = match &responses[i] {
                RawResponse::Failure(m) => Err(ApiClientError::Network(m.clone())),
                RawResponse::Reply { status, body } => {
                    let b: Option<String> = match body {
                        Some(s) => Some(s.clone()),
                        None => None,
                    };
                    self.handle_response(*status, b)
                },
            };
            match outcome {
                Ok(v) => {
                    proof {
                        assert(!is_rate_limited(responses@[i as int]));
                        lemma_lead_rate_limited(responses@, i as int);
                    }
                    return Ok(v);
                },
                Err(e) => {
                    if e.is_rate_limit() {
                        proof {
                            assert(is_rate_limited(responses@[i as int]));
                        }
                        retries = retries - 1;
                        i = i + 1;
                    } else {
                        proof {
                            assert(!is_rate_limited(responses@[i as int]));
                            lemma_lead_rate_limited(responses@, i as int);
                        }
                        return Err(e);
                    }
                },
            }
        }
        proof {
            lemma_lead_rate_limited(responses@, MAX_ATTEMPTS as int);
        }
        Err(ApiClientError::MaxRetriesReached)
    }

    /// Flattens a parameter object into ordered query pairs: `None` stays
    /// `None`; an object gives its scalar fields, in field order; any
    /// other document gives no pairs. Non-scalar fields (arrays, nested
    /// objects, null) are silently dropped, faithfully to the engine's
    /// documented behaviour. Total: never fails.
    pub fn serialize_params(&self, params: Option<&JsonValue>) -> (r: ApiResult<
        Option<Vec<(String, String)>>,
    >)
        ensures
            params is None ==> (r matches Ok(o) && o is None),
            params matches Some(p) ==> (r matches Ok(Some(pairs)) && pairs.deep_view() == (
            match *p {
                JsonValue::Obj(fields) => scalar_pairs(fields@),
                _ => Seq::<(Seq<char>, Seq<char>)>::empty(),
            })),
    {
        match params {
            None => Ok(None),
            Some(p) => match p {
                JsonValue::Obj(fields) => {
                    let mut pairs: Vec<(String, String)> = Vec::new();
                    let mut i: usize = 0;
                    proof {
                        assert(fields@.take(0) =~= Seq::<(String, JsonValue)>::empty());
                        assert(pairs.deep_view() =~= scalar_pairs(fields@.take(0)));
                    }
                    while i < fields.len()
                        invariant
                            0 <= i <= fields.len(),
                            pairs.deep_view() == scalar_pairs(fields@.take(i as int)),
                        decreases fields.len() - i,
                    {
                        let ghost pre = fields@.take(i as int);
                        match &fields[i].1 {
                            JsonValue::Str(s) => pairs.push((fields[i].0.clone(), s.clone())),
                            JsonValue::Bool(b) => pairs.push(
                                (
                                    fields[i].0.clone(),
                                    if *b {
                                        String::from_str("true")
                                    } else {
                                        String::from_str("false")
                                    },
                                ),
                            ),
                            JsonValue::Num(n) => pairs.push((fields[i].0.clone(), n.clone())),
                            _ => {},
                        }
                        proof {
                            lemma_scalar_pairs_snoc(pre, fields@[i as int]);
                            assert(fields@.take(i as int + 1) =~= pre.push(fields@[i as int]));
                            assert(pairs.deep_view() =~= scalar_pairs(fields@.take(i as int + 1)));
                        }
                        i = i + 1;
                    }
                    proof {
                        assert(fields@.take(fields.len() as int) =~= fields@);
                    }
                    Ok(Some(pairs))
                },
                _ => {
                    let empty: Vec<(String, String)> = Vec::new();
                    proof {
                        assert(empty.deep_view() =~= Seq::<(Seq<char>, Seq<char>)>::empty());
                    }
                    Ok(Some(empty))
                },
            },
        }
    }

    /// Path-aware decoding of an already-parsed document against an
    /// expected shape: a match returns the document unchanged; a mismatch
    /// is a DeserializeError whose message is the rendered path of the
    /// first mismatching field.
    pub fn deserialize_response(&self, response: JsonValue, shape: &Shape) -> (r: ApiResult<
        JsonValue,
    >)
        ensures
            matches_shape(response, *shape) ==> r == Ok::<JsonValue, ApiClientError>(response),
            !matches_shape(response, *shape) ==> (r matches Err(
                ApiClientError::DeserializeError(m),
            ) && mismatch(response, *shape) matches Some(path) && m@ == rendered_path(path)),
    {
        match check_shape(&response, shape) {
            Ok(()) => Ok(response),
            Err(p) => {
                let msg = render_path(&p);
                Err(ApiClientError::DeserializeError(msg))
            },
        }
    }
}

/// Law: joining any base URL and endpoint puts exactly one '/' at the
/// seam. The stored base (trailing slashes stripped) never ends in '/',
/// the endpoint part (leading slashes stripped) never starts with one, and
/// the joined URL is exactly base, one '/', endpoint.
pub proof fn lemma_url_single_seam(base: Seq<char>, endpoint: Seq<char>)
    ensures
        ({
            let b = trim_trailing_slashes(base);
            let e = trim_leading_slashes(endpoint);
            let url = b + seq!['/'] + e;
            &&& b.len() > 0 ==> b.last() != '/'
            &&& e.len() > 0 ==> e.first() != '/'
            &&& url.len() == b.len() + 1 + e.len()
            &&& url[b.len() as int] == '/'
            &&& url.take(b.len() as int) == b
            &&& url.skip(b.len() as int + 1) == e
        }),
{
    lemma_trim_trailing_properties(base);
    lemma_trim_leading_properties(endpoint);
    let b = trim_trailing_slashes(base);
    let e = trim_leading_slashes(endpoint);
    let url = b + seq!['/'] + e;
    assert(url.take(b.len() as int) =~= b);
    assert(url.skip(b.len() as int + 1) =~= e);
}

/// Law: whatever surrounding slashes the inputs carried, a client built on
/// `base` joins any endpoint with exactly one '/' at the seam.
pub proof fn lemma_client_url_single_seam(client: ApiClient, base: Seq<char>, endpoint: Seq<char>)
    requires
        client.base() == trim_trailing_slashes(base),
    ensures
        ({
            let b = trim_trailing_slashes(base);
            let e = trim_leading_slashes(endpoint);
            &&& client.joined_url(endpoint) == b + seq!['/'] + e
            &&& b.len() > 0 ==> b.last() != '/'
            &&& e.len() > 0 ==> e.first() != '/'
            &&& client.joined_url(endpoint)[b.len() as int] == '/'
        }),
{
    lemma_url_single_seam(base, endpoint);
}

} // verus!
