use cos_client::Auth;
use cos_client::CosError;
use cos_client::ParamMap;

fn sample_headers() -> ParamMap {
    let mut headers = ParamMap::new();
    headers.insert("host".to_string(), "example.com".to_string());
    headers.insert("content-type".to_string(), "application/json".to_string());
    headers
}

fn sample_params() -> ParamMap {
    let mut params = ParamMap::new();
    params.insert("param1".to_string(), "value1".to_string());
    params
}

#[test]
fn test_auth_sign() {
    let auth = Auth::new("test_secret_id".to_string(), "test_secret_key".to_string());
    let headers = sample_headers();
    let params = sample_params();

    let start_time: i64 = 1234567890;
    let end_time: i64 = 1234567890 + 3600;

    let result = auth.sign("GET", "/test", &headers, &params, start_time, end_time);
    assert!(result.is_ok());
}

#[test]
fn test_build_params_string() {
    let auth = Auth::new("id".to_string(), "key".to_string());
    let mut params = ParamMap::new();
    params.insert("b".to_string(), "value2".to_string());
    params.insert("a".to_string(), "value1".to_string());

    let result = auth.build_params_string(&params);
    assert_eq!(result, "a=value1&b=value2");
}

#[test]
fn test_sign_round_trip_vector() {
    let auth = Auth::new("test_secret_id".to_string(), "test_secret_key".to_string());
    let headers = sample_headers();
    let params = sample_params();

    let first = auth
        .sign("GET", "/test", &headers, &params, 1234567890, 1234571490)
        .unwrap();
    assert!(!first.is_empty());
    assert!(first.contains("q-sign-algorithm=sha1"));
    assert!(first.contains("q-ak=test_secret_id"));
    assert_eq!(first.matches("q-signature=").count(), 1);

    let second = auth
        .sign("GET", "/test", &headers, &params, 1234567890, 1234571490)
        .unwrap();
    assert_eq!(first, second);
}

#[test]
fn test_sign_key_recasing_leaves_output_unchanged() {
    let auth = Auth::new("id".to_string(), "key".to_string());

    let mut upper = ParamMap::new();
    upper.insert("Host".to_string(), "Example.COM".to_string());
    upper.insert("Content-Type".to_string(), "JSON".to_string());

    let mut lower = ParamMap::new();
    lower.insert("host".to_string(), "Example.COM".to_string());
    lower.insert("content-type".to_string(), "JSON".to_string());

    assert_eq!(
        auth.build_headers_string(&upper),
        auth.build_headers_string(&lower)
    );
    assert_eq!(
        auth.build_headers_string(&upper),
        "content-type=JSON&host=Example.COM"
    );
    assert_eq!(auth.build_header_list(&upper), auth.build_header_list(&lower));
    assert_eq!(auth.build_header_list(&upper), "content-type;host");

    let empty = ParamMap::new();
    let a = auth
        .sign("PUT", "/x", &upper, &empty, 1000, 2000)
        .unwrap();
    let b = auth
        .sign("PUT", "/x", &lower, &empty, 1000, 2000)
        .unwrap();
    assert_eq!(a, b);
}

#[test]
fn test_build_http_string_vector() {
    let auth = Auth::new("id".to_string(), "key".to_string());
    let mut headers = ParamMap::new();
    headers.insert("host".to_string(), "example.com".to_string());
    let params = sample_params();

    let http_string = auth
        .build_http_string("GET", "/test", &headers, &params)
        .unwrap();
    assert_eq!(http_string, "get\n/test\nparam1=value1\nhost=example.com\n");
}

#[test]
fn test_sign_empty_maps_boundary() {
    let auth = Auth::new("id".to_string(), "key".to_string());
    let empty_headers = ParamMap::new();
    let empty_params = ParamMap::new();

    let http_string = auth
        .build_http_string("GET", "/", &empty_headers, &empty_params)
        .unwrap();
    assert_eq!(http_string, "get\n/\n\n\n");

    let authorization = auth
        .sign("GET", "/", &empty_headers, &empty_params, 0, 1)
        .unwrap();
    assert!(!authorization.is_empty());
    assert!(authorization.contains("q-sign-algorithm=sha1"));
    assert!(authorization.contains("q-sign-time=0;1"));
    assert!(authorization.contains("q-header-list=&"));
    assert!(authorization.contains("q-url-param-list=&"));
    assert_eq!(authorization.matches("q-signature=").count(), 1);
}

#[test]
fn test_signature_is_lowercase_hex() {
    let auth = Auth::new("id".to_string(), "secret".to_string());
    let headers = sample_headers();
    let params = sample_params();

    let authorization = auth
        .sign("GET", "/test", &headers, &params, 1234567890, 1234571490)
        .unwrap();
    let signature = authorization.split("q-signature=").nth(1).unwrap();
    assert_eq!(signature.len(), 40);
    assert!(signature
        .chars()
        .all(|c| c.is_ascii_digit() || ('a'..='f').contains(&c)));
}

#[test]
fn test_sha1_known_vector() {
    let auth = Auth::new("id".to_string(), "key".to_string());
    assert_eq!(auth.sha1("abc"), "a9993e364706816aba3e25717850c26c9cd0d89d");
    assert_eq!(auth.sha1(""), "da39a3ee5e6b4b0d3255bfef95601890afd80709");
}

#[test]
fn test_hmac_depends_on_key_and_message() {
    let auth = Auth::new("id".to_string(), "key".to_string());
    let one = auth.hmac_sha1_with_key("data", "key-one");
    let two = auth.hmac_sha1_with_key("data", "key-two");
    let three = auth.hmac_sha1_with_key("other data", "key-one");
    assert_eq!(one.len(), 40);
    assert_ne!(one, two);
    assert_ne!(one, three);
    assert_eq!(one, auth.hmac_sha1_with_key("data", "key-one"));
    assert_ne!(one, "data");
}

#[test]
fn test_sign_rejects_malformed_path() {
    let auth = Auth::new("id".to_string(), "key".to_string());
    let empty = ParamMap::new();
    let result = auth.sign("GET", ":not a port", &empty, &empty, 0, 1);
    assert!(matches!(result, Err(CosError::MalformedUri { .. })));
}

#[test]
fn test_percent_encoding_in_params_string() {
    let auth = Auth::new("id".to_string(), "key".to_string());
    let mut params = ParamMap::new();
    params.insert("q".to_string(), "a&b=c d".to_string());
    assert_eq!(auth.build_params_string(&params), "q=a%26b%3Dc+d");
}
