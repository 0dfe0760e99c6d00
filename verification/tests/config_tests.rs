use cos_client::Config;
use cos_client::CosError;
use cos_client::extract_app_id;

#[test]
fn test_extract_app_id() {
    assert_eq!(extract_app_id("mybucket-1234567890"), Some("1234567890".to_string()));
    assert_eq!(extract_app_id("test-bucket-1234567890"), Some("1234567890".to_string()));
    assert_eq!(extract_app_id("mybucket"), None);
    assert_eq!(extract_app_id("mybucket-abc"), None);
}

#[test]
fn test_extract_app_id_empty_suffix() {
    assert_eq!(extract_app_id("bucket-"), None);
    assert_eq!(extract_app_id(""), None);
}

#[test]
fn test_config_validation() {
    let config = Config::new(
        "id".to_string(),
        "key".to_string(),
        "region".to_string(),
        "bucket-123".to_string(),
    );
    assert!(config.validate().is_ok());

    let config = Config::new(
        "".to_string(),
        "key".to_string(),
        "region".to_string(),
        "bucket-123".to_string(),
    );
    assert!(config.validate().is_err());
}

#[test]
fn test_config_validation_error_variant() {
    let config = Config::new(
        "id".to_string(),
        "".to_string(),
        "region".to_string(),
        "bucket".to_string(),
    );
    match config.validate() {
        Err(CosError::Config { message }) => {
            assert_eq!(message, "SecretKey cannot be empty");
        }
        other => panic!("expected a configuration error, got {:?}", other.is_ok()),
    }
}

#[test]
fn test_config_defaults_and_app_id() {
    let config = Config::new(
        "id".to_string(),
        "key".to_string(),
        "ap-beijing".to_string(),
        "buck-123".to_string(),
    );
    assert_eq!(config.timeout_secs, 30);
    assert!(config.use_https);
    assert!(config.domain.is_none());
    assert_eq!(config.app_id, Some("123".to_string()));
}

#[test]
fn test_bucket_and_service_urls() {
    let config = Config::new(
        "id".to_string(),
        "key".to_string(),
        "ap-beijing".to_string(),
        "buck-123".to_string(),
    );
    assert_eq!(
        config.bucket_url().unwrap(),
        "https://buck-123.cos.ap-beijing.myqcloud.com"
    );
    assert_eq!(config.service_url(), "https://cos.ap-beijing.myqcloud.com");

    let http = Config::new(
        "id".to_string(),
        "key".to_string(),
        "ap-beijing".to_string(),
        "buck-123".to_string(),
    )
    .with_https(false);
    assert_eq!(
        http.bucket_url().unwrap(),
        "http://buck-123.cos.ap-beijing.myqcloud.com"
    );

    let custom = Config::new(
        "id".to_string(),
        "key".to_string(),
        "ap-beijing".to_string(),
        "buck-123".to_string(),
    )
    .with_domain("cdn.example.com".to_string());
    assert_eq!(custom.bucket_url().unwrap(), "https://cdn.example.com");
}

#[test]
fn test_config_with_timeout() {
    let config = Config::new(
        "id".to_string(),
        "key".to_string(),
        "r".to_string(),
        "b".to_string(),
    )
    .with_timeout(60);
    assert_eq!(config.timeout_secs, 60);
}
