//! The session/authentication lifecycle and the four requests of the API:
//! each request is computed here as plain data (method, URL, bearer header,
//! JSON body); the surrounding binary only puts it on the wire.

use vstd::prelude::*;

use crate::json::{ser_str, append_json_string};
use crate::model::{ApiError, TokenResponse};
use crate::time::{timestamp_chars, DateTimeParts, format_timestamp};
use crate::TimeularApi;

verus! {

/// The HTTP method of a request.
pub enum HttpMethod {
    Get,
    Post,
}

/// One API request, fully computed: what to send, where, and with what
/// `Authorization` header.
pub struct ApiRequest {
    pub method: HttpMethod,
    pub url: String,
    pub auth_header: Option<String>,
    pub body: Option<String>,
}

/// The service's fixed base URL, versioned API path included.
pub open spec fn api_base_chars() -> Seq<char> {
    "https://api.timeular.com/api/v3/"@
}

/// The sign-in request's JSON body.
pub open spec fn sign_in_body_chars(key: Seq<char>, secret: Seq<char>) -> Seq<char> {
    "{\"apiKey\":"@ + ser_str(key) + ",\"apiSecret\":"@ + ser_str(secret) + "}"@
}

/// The start-tracking request's JSON body, around a timestamp captured at
/// call time.
pub open spec fn start_body_chars(ts: Seq<char>) -> Seq<char> {
    "{\"startedAt\":\""@ + ts + "\"}"@
}

/// The `Authorization` header value a session attaches to its calls.
pub open spec fn bearer_chars(token: Seq<char>) -> Seq<char> {
    "Bearer "@ + token
}

fn base_url() -> (r: String)
    ensures
        r@ == api_base_chars(),
{
    String::from_str("https://api.timeular.com/api/v3/")
}

/// The sign-in request: POST to `developer/sign-in`, unauthenticated, with
/// the credentials as its JSON body.
pub fn sign_in_request(key: &str, secret: &str) -> (r: ApiRequest)
    ensures
        r.method is Post,
        r.url@ == api_base_chars() + "developer/sign-in"@,
        r.auth_header is None,
        r.body matches Some(b) && b@ == sign_in_body_chars(key@, secret@),
{
    let mut url = base_url();
    url.append("developer/sign-in");
    let mut body = String::new();
    body.append("{\"apiKey\":");
    append_json_string(&mut body, key);
    body.append(",\"apiSecret\":");
    append_json_string(&mut body, secret);
    body.append("}");
    proof {
        assert(body@ =~= sign_in_body_chars(key@, secret@));
    }
    ApiRequest { method: HttpMethod::Post, url, auth_header: None, body: Some(body) }
}

/// Choose the credentials before any request is made: each of key and
/// secret is taken from its flag when given, from the environment
/// otherwise; when either is supplied by neither, the outcome is
/// `MissingCredentials` and nothing else.
pub fn resolve_credentials(
    flag_key: &Option<String>,
    flag_secret: &Option<String>,
    env_key: &Option<String>,
    env_secret: &Option<String>,
) -> (r: Result<(String, String), ApiError>)
    ensures
        match r {
            Ok(ks) => {
                &&& (match flag_key {
                    Some(k) => ks.0@ == k@,
                    None => env_key matches Some(k) && ks.0@ == k@,
                })
                &&& (match flag_secret {
                    Some(s) => ks.1@ == s@,
                    None => env_secret matches Some(s) && ks.1@ == s@,
                })
            },
            Err(e) => {
                &&& e is MissingCredentials
                &&& ((flag_key is None && env_key is None) || (flag_secret is None
                    && env_secret is None))
            },
        },
{
    let key = match flag_key {
        Some(k) => k.clone(),
        None => match env_key {
            Some(k) => k.clone(),
            None => {
                return Err(ApiError::MissingCredentials);
            },
        },
    };
    let secret = match flag_secret {
        Some(s) => s.clone(),
        None => match env_secret {
            Some(s) => s.clone(),
            None => {
                return Err(ApiError::MissingCredentials);
            },
        },
    };
    Ok((key, secret))
}

/// Decide the outcome of a sign-in exchange: a response with a token yields
/// a session holding exactly that token; one without a token is an
/// authentication failure carrying the service's message (empty if the
/// service sent none). No other outcome exists.
pub fn session_from_token_response(resp: &TokenResponse) -> (r: Result<TimeularApi, ApiError>)
    ensures
        match resp.token {
            Some(t) => r matches Ok(api) && api.token@ == t@,
            None => r matches Err(e) && (e matches ApiError::Auth { message } && message@ == (
            match resp.message {
                Some(m) => m@,
                None => Seq::<char>::empty(),
            })),
        },
{
    match &resp.token {
        Some(t) => Ok(TimeularApi { token: t.clone() }),
        None => Err(
            ApiError::Auth {
                message: match &resp.message {
                    Some(m) => m.clone(),
                    None => String::new(),
                },
            },
        ),
    }
}

impl TimeularApi {
    /// The `Authorization: Bearer <token>` header value for this session.
    pub fn auth_header(&self) -> (r: String)
        ensures
            r@ == bearer_chars(self.token@),
    {
        let mut h = String::from_str("Bearer ");
        h.append(self.token.as_str());
        h
    }

    /// The request that asks what is currently tracked: GET `tracking`,
    /// with this session's bearer header.
    pub fn tracking_request(&self) -> (r: ApiRequest)
        ensures
            r.method is Get,
            r.url@ == api_base_chars() + "tracking"@,
            r.auth_header matches Some(h) && h@ == bearer_chars(self.token@),
            r.body is None,
    {
        let mut url = base_url();
        url.append("tracking");
        ApiRequest {
            method: HttpMethod::Get,
            url,
            auth_header: Some(self.auth_header()),
            body: None,
        }
    }

    /// The request that lists the activities: GET `activities`, with this
    /// session's bearer header.
    pub fn activities_request(&self) -> (r: ApiRequest)
        ensures
            r.method is Get,
            r.url@ == api_base_chars() + "activities"@,
            r.auth_header matches Some(h) && h@ == bearer_chars(self.token@),
            r.body is None,
    {
        let mut url = base_url();
        url.append("activities");
        ApiRequest {
            method: HttpMethod::Get,
            url,
            auth_header: Some(self.auth_header()),
            body: None,
        }
    }

    /// The request that starts tracking an activity: POST to
    /// `tracking/{activityId}/start`, with this session's bearer header and
    /// the given capture of the clock as its body.
    pub fn start_tracking_request(&self, activity_id: &str, at_time: &DateTimeParts) -> (r: ApiRequest)
        requires
            at_time.wf(),
        ensures
            r.method is Post,
            r.url@ == api_base_chars() + "tracking/"@ + activity_id@ + "/start"@,
            r.auth_header matches Some(h) && h@ == bearer_chars(self.token@),
            r.body matches Some(b) && b@ == start_body_chars(timestamp_chars(*at_time)),
    {
        let mut url = base_url();
        url.append("tracking/");
        url.append(activity_id);
        url.append("/start");
        let mut body = String::from_str("{\"startedAt\":\"");
        let ts = format_timestamp(at_time);
        body.append(ts.as_str());
        body.append("\"}");
        proof {
            assert(url@ =~= api_base_chars() + "tracking/"@ + activity_id@ + "/start"@);
            assert(body@ =~= start_body_chars(timestamp_chars(*at_time)));
        }
        ApiRequest {
            method: HttpMethod::Post,
            url,
            auth_header: Some(self.auth_header()),
            body: Some(body),
        }
    }
}

} // verus!
