use timeular_cli::model::{ApiError, TokenResponse};
use timeular_cli::session::{resolve_credentials, sign_in_request, session_from_token_response, HttpMethod};
use timeular_cli::time::{epoch_secs_of, format_timestamp, normalize_parts, now_parts,
    now_unix_secs, DateTimeParts};
use timeular_cli::TimeularApi;

#[test]
fn token_response_with_token_yields_session() {
    let resp = TokenResponse { token: Some("abc".to_string()), message: None };
    let api = session_from_token_response(&resp).unwrap();
    assert_eq!(api.token, "abc");
}

#[test]
fn session_attaches_bearer_header() {
    let resp = TokenResponse { token: Some("abc".to_string()), message: None };
    let api = session_from_token_response(&resp).unwrap();
    assert_eq!(api.auth_header(), "Bearer abc");
    let req = api.tracking_request();
    assert_eq!(req.auth_header.unwrap(), "Bearer abc");
}

#[test]
fn token_response_with_message_yields_auth_error() {
    let resp = TokenResponse { token: None, message: Some("invalid credentials".to_string()) };
    match session_from_token_response(&resp) {
        Err(ApiError::Auth { message }) => assert_eq!(message, "invalid credentials"),
        _ => panic!("expected an authentication error"),
    }
}

#[test]
fn new_from_token_wraps_token_unchanged() {
    let api = TimeularApi::new_from_token(&"tok".to_string());
    assert_eq!(api.token, "tok");
}

#[test]
fn sign_in_request_posts_credentials() {
    let req = sign_in_request("my-key", "my-secret");
    assert!(matches!(req.method, HttpMethod::Post));
    assert_eq!(req.url, "https://api.timeular.com/api/v3/developer/sign-in");
    assert!(req.auth_header.is_none());
    assert_eq!(
        req.body.unwrap(),
        "{\"apiKey\":\"my-key\",\"apiSecret\":\"my-secret\"}"
    );
}

#[test]
fn tracking_and_activities_requests_target_their_endpoints() {
    let api = TimeularApi::new_from_token(&"t".to_string());
    let tr = api.tracking_request();
    assert!(matches!(tr.method, HttpMethod::Get));
    assert_eq!(tr.url, "https://api.timeular.com/api/v3/tracking");
    assert!(tr.body.is_none());
    let ar = api.activities_request();
    assert!(matches!(ar.method, HttpMethod::Get));
    assert_eq!(ar.url, "https://api.timeular.com/api/v3/activities");
    assert!(ar.body.is_none());
}

#[test]
fn start_tracking_request_carries_timestamp_body() {
    let api = TimeularApi::new_from_token(&"t".to_string());
    let at = DateTimeParts {
        year: 2023,
        month: 4,
        day: 7,
        hour: 9,
        minute: 5,
        second: 30,
        milli: 12,
    };
    let req = api.start_tracking_request("A9", &at);
    assert!(matches!(req.method, HttpMethod::Post));
    assert_eq!(req.url, "https://api.timeular.com/api/v3/tracking/A9/start");
    assert_eq!(req.auth_header.unwrap(), "Bearer t");
    assert_eq!(
        req.body.unwrap(),
        "{\"startedAt\":\"2023-04-07T09:05:30.012\"}"
    );
}

#[test]
fn format_timestamp_zero_pads_every_field() {
    let at = DateTimeParts { year: 987, month: 12, day: 31, hour: 23, minute: 59, second: 59, milli: 999 };
    assert_eq!(format_timestamp(&at), "0987-12-31T23:59:59.999");
}

#[test]
fn clock_reading_formats_to_the_expected_shape() {
    let p = now_parts().unwrap();
    let s = format_timestamp(&p);
    assert_eq!(s.len(), 23);
    let b = s.as_bytes();
    assert_eq!(b[4], b'-');
    assert_eq!(b[7], b'-');
    assert_eq!(b[10], b'T');
    assert_eq!(b[13], b':');
    assert_eq!(b[16], b':');
    assert_eq!(b[19], b'.');
    assert!(now_unix_secs() > 0);
}

#[test]
fn normalize_clamps_a_leap_second_millisecond_count() {
    let p = DateTimeParts {
        year: 2016,
        month: 12,
        day: 31,
        hour: 23,
        minute: 59,
        second: 59,
        milli: 1999,
    };
    let q = normalize_parts(p).unwrap();
    assert_eq!(q.milli, 999);
    assert_eq!(q.year, 2016);
    assert_eq!(q.second, 59);
}

#[test]
fn normalize_keeps_an_in_range_reading_unchanged() {
    let p = DateTimeParts { year: 0, month: 1, day: 1, hour: 0, minute: 0, second: 0, milli: 7 };
    let q = normalize_parts(p).unwrap();
    assert_eq!(q.milli, 7);
    assert_eq!(q.year, 0);
}

#[test]
fn normalize_refuses_a_year_outside_the_notation() {
    let p = DateTimeParts { year: 10000, month: 1, day: 1, hour: 0, minute: 0, second: 0, milli: 0 };
    assert!(normalize_parts(p).is_none());
    let p = DateTimeParts { year: -1, month: 1, day: 1, hour: 0, minute: 0, second: 0, milli: 0 };
    assert!(normalize_parts(p).is_none());
}

#[test]
fn epoch_seconds_collapse_negative_readings_to_zero() {
    assert_eq!(epoch_secs_of(-5), 0);
    assert_eq!(epoch_secs_of(0), 0);
    assert_eq!(epoch_secs_of(1_234_567), 1_234_567);
}

#[test]
fn credentials_prefer_flags_over_environment() {
    let r = resolve_credentials(
        &Some("fk".to_string()),
        &None,
        &Some("ek".to_string()),
        &Some("es".to_string()),
    )
    .unwrap();
    assert_eq!(r.0, "fk");
    assert_eq!(r.1, "es");
}

#[test]
fn absent_credentials_are_reported_before_any_request() {
    let r = resolve_credentials(&None, &Some("fs".to_string()), &None, &Some("es".to_string()));
    assert!(matches!(r, Err(ApiError::MissingCredentials)));
    let r = resolve_credentials(&Some("fk".to_string()), &None, &Some("ek".to_string()), &None);
    assert!(matches!(r, Err(ApiError::MissingCredentials)));
}
