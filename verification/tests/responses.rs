use wilayah_worker::auth::check_auth;
use wilayah_worker::cors::{cache_control, cors_headers, with_cors, with_cors_and_cache};
use wilayah_worker::error::{error_response, reject, Rejection};
use wilayah_worker::models::ErrorResponse;

fn pairs(items: &[(&str, &str)]) -> Vec<(String, String)> {
    items.iter().map(|(k, v)| (k.to_string(), v.to_string())).collect()
}

fn cors() -> Vec<(String, String)> {
    pairs(&[
        ("Access-Control-Allow-Origin", "*"),
        ("Access-Control-Allow-Methods", "GET, PUT, OPTIONS"),
        ("Access-Control-Allow-Headers", "*"),
    ])
}

#[test]
fn cors_headers_are_the_three() {
    assert_eq!(cors_headers(), cors());
}

#[test]
fn with_cors_keeps_the_response() {
    let r: Result<(u32, Vec<(String, String)>), String> = with_cors(Ok(7u32));
    assert_eq!(r, Ok((7, cors())));
    let e: Result<(u32, Vec<(String, String)>), String> = with_cors(Err("boom".to_string()));
    assert_eq!(e, Err("boom".to_string()));
}

#[test]
fn cacheable_responses_add_cache_control() {
    let r: Result<(&str, Vec<(String, String)>), ()> = with_cors_and_cache(Ok("body"), 30);
    let mut expected = cors();
    expected.push(("Cache-Control".to_string(), "public, max-age=30".to_string()));
    assert_eq!(r, Ok(("body", expected)));
    assert_eq!(cache_control(3600), "public, max-age=3600");
    assert_eq!(cache_control(0), "public, max-age=0");
    let e: Result<(&str, Vec<(String, String)>), u8> = with_cors_and_cache(Err(3), 60);
    assert_eq!(e, Err(3));
}

#[test]
fn cache_headers_extend_cors_headers() {
    for age in [0u32, 30, 60, 3600, u32::MAX] {
        let (_, cached) = with_cors_and_cache::<(), ()>(Ok(()), age).unwrap();
        let (_, plain) = with_cors::<(), ()>(Ok(())).unwrap();
        assert_eq!(cached.len(), plain.len() + 1);
        assert_eq!(&cached[..plain.len()], &plain[..]);
        assert_eq!(cached[plain.len()], ("Cache-Control".to_string(), format!("public, max-age={}", age)));
    }
}

#[test]
fn error_body_is_json_with_the_message() {
    let (reply, headers) = error_response("Unauthorized", 401);
    assert_eq!(reply.status, 401);
    assert_eq!(reply.body, "{\"error\":\"Unauthorized\"}");
    assert_eq!(headers, cors());
    assert_eq!(error_response("x", 404).0.status, 404);
}

#[test]
fn error_body_escapes_the_message() {
    let (reply, _) = error_response("say \"hi\"\\ now\n\ttab\u{1}/é", 400);
    assert_eq!(reply.body, "{\"error\":\"say \\\"hi\\\"\\\\ now\\n\\ttab\\u0001/é\"}");
    let body = ErrorResponse { error: "\u{8}\u{c}\r\u{1f}\u{7f}".to_string() }.to_json();
    assert_eq!(body, "{\"error\":\"\\b\\f\\r\\u001f\u{7f}\"}");
}

#[test]
fn rejections_have_their_status_and_message() {
    let cases = [
        (Rejection::Unauthorized, 401, "Unauthorized"),
        (Rejection::InvalidJson, 400, "Invalid JSON body"),
        (Rejection::NoVillages, 400, "No villages provided"),
        (Rejection::TooManyVillages, 400, "Max 500 villages per request"),
        (Rejection::NoMetadata, 400, "No metadata provided"),
        (Rejection::MissingSearchQuery, 400, "Query parameter 'q' is required"),
        (Rejection::InvalidLat, 400, "Invalid or missing 'lat' parameter"),
        (Rejection::InvalidLon, 400, "Invalid or missing 'lon' parameter"),
        (Rejection::MissingCodeQuery, 400, "Provide either 'q' (exact code) or 'prefix' (code prefix)"),
    ];
    for (r, status, msg) in cases {
        assert_eq!(r.status(), status);
        assert_eq!(r.message(), msg);
        let (reply, headers) = reject(r);
        assert_eq!(reply.status, status);
        assert_eq!(reply.body, format!("{{\"error\":\"{}\"}}", msg));
        assert_eq!(headers, cors());
    }
}

#[test]
fn auth_needs_the_exact_bearer_token() {
    assert_eq!(check_auth(Some("Bearer s3cret"), "s3cret"), Ok(()));
    assert_eq!(check_auth(Some("bearer s3cret"), "s3cret"), Err(Rejection::Unauthorized));
    assert_eq!(check_auth(Some("Bearer s3cret "), "s3cret"), Err(Rejection::Unauthorized));
    assert_eq!(check_auth(Some("Bearer other"), "s3cret"), Err(Rejection::Unauthorized));
    assert_eq!(check_auth(None, "s3cret"), Err(Rejection::Unauthorized));
    assert_eq!(check_auth(None, ""), Err(Rejection::Unauthorized));
    assert_eq!(check_auth(Some("Bearer "), ""), Ok(()));
}
