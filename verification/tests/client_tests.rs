use cos_client::Config;
use cos_client::CosError;
use cos_client::ParamMap;
use cos_client::client::build_headers;
use cos_client::client::build_url;
use cos_client::client::get_host;
use cos_client::client::user_agent;
use cos_client::error::exists_outcome;

fn test_config() -> Config {
    Config::new(
        "test_id".to_string(),
        "test_key".to_string(),
        "ap-beijing".to_string(),
        "test-bucket-123".to_string(),
    )
}

#[test]
fn test_build_url() {
    let config = test_config();
    let mut params = ParamMap::new();
    params.insert("key".to_string(), "value".to_string());

    let url = build_url(&config, "/test", &params);
    assert!(url.contains("test-bucket-123.cos.ap-beijing.myqcloud.com"));
    assert!(url.contains("key=value"));
    assert_eq!(
        url,
        "https://test-bucket-123.cos.ap-beijing.myqcloud.com/test?key=value"
    );
}

#[test]
fn test_build_url_without_params() {
    let config = test_config();
    let params = ParamMap::new();
    assert_eq!(
        build_url(&config, "/obj.txt", &params),
        "https://test-bucket-123.cos.ap-beijing.myqcloud.com/obj.txt"
    );
}

#[test]
fn test_build_url_service_endpoint() {
    let config = test_config();
    let params = ParamMap::new();
    assert_eq!(
        build_url(&config, "", &params),
        "https://cos.ap-beijing.myqcloud.com"
    );
}

#[test]
fn test_get_host() {
    let config = test_config();
    assert_eq!(
        get_host(&config, "/x"),
        "test-bucket-123.cos.ap-beijing.myqcloud.com"
    );
    assert_eq!(get_host(&config, ""), "cos.ap-beijing.myqcloud.com");

    let custom = test_config().with_domain("cdn.example.com".to_string());
    assert_eq!(get_host(&custom, "/x"), "cdn.example.com");
}

#[test]
fn test_build_headers_signs_request() {
    let config = test_config();
    let params = ParamMap::new();
    let headers = build_headers(&config, "GET", "/test", &params, 1234567890, 1234571490)
        .unwrap();
    assert_eq!(headers.len(), 3);
    assert_eq!(
        headers.get("Host").unwrap(),
        "test-bucket-123.cos.ap-beijing.myqcloud.com"
    );
    assert_eq!(headers.get("User-Agent").unwrap(), &user_agent());
    let authorization = headers.get("Authorization").unwrap();
    assert!(authorization.contains("q-ak=test_id"));
    assert!(authorization.contains("q-sign-time=1234567890;1234571490"));
}

#[test]
fn test_exists_outcome() {
    let ok: Result<u32, CosError> = Ok(7);
    assert_eq!(exists_outcome(ok).unwrap(), true);

    let missing: Result<u32, CosError> = Err(CosError::server(
        "404".to_string(),
        "not found".to_string(),
    ));
    assert_eq!(exists_outcome(missing).unwrap(), false);

    let broken: Result<u32, CosError> = Err(CosError::other("boom".to_string()));
    assert!(matches!(
        exists_outcome(broken),
        Err(CosError::Other { .. })
    ));
}

#[test]
fn test_error_constructors() {
    assert!(matches!(
        CosError::auth("m".to_string()),
        CosError::Auth { .. }
    ));
    assert!(matches!(
        CosError::client("400".to_string(), "bad".to_string()),
        CosError::Client { .. }
    ));
    assert!(matches!(
        CosError::config("m".to_string()),
        CosError::Config { .. }
    ));
    assert!(matches!(
        CosError::malformed_uri("u".to_string()),
        CosError::MalformedUri { .. }
    ));
    let server = CosError::server("500".to_string(), "oops".to_string());
    assert!(server.is_server_error());
    assert!(!CosError::other("m".to_string()).is_server_error());
}
