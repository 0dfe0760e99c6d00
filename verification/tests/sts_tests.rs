use cos_client::Auth;
use cos_client::GetCredentialsRequest;
use cos_client::ParamMap;
use cos_client::Policy;
use cos_client::Statement;
use cos_client::StsClient;

#[test]
fn test_policy_creation() {
    let policy = Policy::allow_put_object("test-bucket-1234567890", Some("uploads/"));
    assert_eq!(policy.version, "2.0");
    assert_eq!(policy.statement.len(), 1);
    assert_eq!(policy.statement[0].effect, "allow");
    assert!(policy.statement[0].action.contains(&"cos:PutObject".to_string()));
}

#[test]
fn test_policy_serialization() {
    let policy = Policy::allow_read_write("test-bucket", None);
    let json = policy.to_json();
    assert!(json.contains("version"));
    assert!(json.contains("statement"));
}

#[test]
fn test_policy_default() {
    let policy = Policy::default();
    assert_eq!(policy.version, "2.0");
    assert!(policy.statement.is_empty());
}

#[test]
fn test_policy_resource_derivation() {
    let policy = Policy::allow_put_object("test-bucket-1234567890", Some("uploads/"));
    let resource = &policy.statement[0].resource[0];
    assert!(resource.contains("uid/1234567890"));
    assert!(resource.contains("test-bucket"));
    assert!(resource.ends_with("uploads/*"));
    assert_eq!(
        resource,
        "qcs::cos:*:uid/1234567890:prefix//1234567890/test-bucket/uploads/*"
    );

    let wildcard = Policy::allow_get_object("databucket", None);
    assert_eq!(
        wildcard.statement[0].resource[0],
        "qcs::cos:*:uid/*:prefix//*/databucket/*"
    );

    let non_numeric = Policy::allow_delete_object("my-bucket-abc", None);
    assert!(non_numeric.statement[0].resource[0].contains("uid/*"));
}

#[test]
fn test_policy_json_vector() {
    let policy = Policy::allow_delete_object("b-1", None);
    assert_eq!(
        policy.to_json(),
        "{\"version\":\"2.0\",\"statement\":[{\"effect\":\"allow\",\
         \"action\":[\"cos:DeleteObject\"],\
         \"resource\":[\"qcs::cos:*:uid/1:prefix//1/b/*\"]}]}"
    );
}

#[test]
fn test_policy_json_escapes_strings() {
    let statement = Statement {
        effect: "allow".to_string(),
        action: vec!["a\"b".to_string()],
        resource: vec!["r\\s".to_string()],
        condition: None,
    };
    let policy = Policy::new().add_statement(statement);
    let json = policy.to_json();
    assert!(json.contains("a\\\"b"));
    assert!(json.contains("r\\\\s"));
}

#[test]
fn test_policy_json_condition() {
    let statement = Statement {
        effect: "deny".to_string(),
        action: vec!["cos:GetObject".to_string()],
        resource: vec!["*".to_string()],
        condition: Some(vec![(
            "ip_equal".to_string(),
            vec![("qcs:ip".to_string(), "10.0.0.1".to_string())],
        )]),
    };
    let policy = Policy::new().add_statement(statement);
    let json = policy.to_json();
    assert!(json.contains(
        ",\"condition\":{\"ip_equal\":{\"qcs:ip\":\"10.0.0.1\"}}"
    ));
}

#[test]
fn test_policy_json_parses_as_json() {
    let statement = Statement {
        effect: "allow".to_string(),
        action: vec!["a\"b\\c".to_string(), "line1\nline2\u{1}".to_string()],
        resource: vec!["r/*".to_string()],
        condition: Some(vec![(
            "k".to_string(),
            vec![("op".to_string(), "v".to_string())],
        )]),
    };
    let policy = Policy::new().add_statement(statement);
    let value: serde_json::Value = serde_json::from_str(&policy.to_json()).unwrap();
    assert_eq!(value["version"], "2.0");
    assert_eq!(value["statement"][0]["effect"], "allow");
    assert_eq!(value["statement"][0]["action"][0], "a\"b\\c");
    assert_eq!(value["statement"][0]["action"][1], "line1\nline2\u{1}");
    assert_eq!(value["statement"][0]["resource"][0], "r/*");
    assert_eq!(value["statement"][0]["condition"]["k"]["op"], "v");
}

#[test]
fn test_canonical_query_divergence_between_planes() {
    let mut params = ParamMap::new();
    params.insert("q".to_string(), "a&b=c d".to_string());

    let sts = StsClient::new("id".to_string(), "key".to_string(), "ap-x".to_string());
    let control = sts.canonical_query_string(&params);
    assert_eq!(control, "q=a&b=c d");

    let auth = Auth::new("id".to_string(), "key".to_string());
    let data = auth.build_params_string(&params);
    assert_eq!(data, "q=a%26b%3Dc+d");
}

#[test]
fn test_canonical_query_sorts_and_drops_signature() {
    let mut params = ParamMap::new();
    params.insert("Zebra".to_string(), "1".to_string());
    params.insert("Signature".to_string(), "old".to_string());
    params.insert("Apple".to_string(), "2".to_string());

    let sts = StsClient::new("id".to_string(), "key".to_string(), "ap-x".to_string());
    assert_eq!(sts.canonical_query_string(&params), "Apple=2&Zebra=1");
}

#[test]
fn test_control_plane_signature_is_base64() {
    let sts = StsClient::new(
        "test_secret_id".to_string(),
        "test_secret_key".to_string(),
        "ap-beijing".to_string(),
    );
    let mut params = ParamMap::new();
    params.insert("Action".to_string(), "GetFederationToken".to_string());
    params.insert("Nonce".to_string(), "42".to_string());

    let signature = sts.generate_signature(&params);
    assert!(!signature.is_empty());
    let decoded = base64::decode(&signature).unwrap();
    assert_eq!(decoded.len(), 20);

    let again = sts.generate_signature(&params);
    assert_eq!(signature, again);
}

#[test]
fn test_build_credentials_params_defaults() {
    let sts = StsClient::new("id".to_string(), "key".to_string(), "ap-beijing".to_string());
    let request = GetCredentialsRequest {
        policy: Policy::allow_read_write("bucket-1", None),
        duration_seconds: None,
        name: None,
    };
    let params = sts.build_credentials_params(&request, 1700000000, 42);
    assert_eq!(params.get("Action").unwrap(), "GetFederationToken");
    assert_eq!(params.get("Version").unwrap(), "2018-08-13");
    assert_eq!(params.get("Region").unwrap(), "ap-beijing");
    assert_eq!(params.get("SecretId").unwrap(), "id");
    assert_eq!(params.get("Timestamp").unwrap(), "1700000000");
    assert_eq!(params.get("Nonce").unwrap(), "42");
    assert_eq!(params.get("Name").unwrap(), "temp-user");
    assert_eq!(params.get("DurationSeconds").unwrap(), "1800");
    assert_eq!(
        params.get("Policy").unwrap(),
        &request.policy.to_json()
    );
}

#[test]
fn test_build_credentials_params_explicit_values() {
    let sts = StsClient::new("id".to_string(), "key".to_string(), "ap-x".to_string());
    let request = GetCredentialsRequest {
        policy: Policy::new(),
        duration_seconds: Some(7200),
        name: Some("session-a".to_string()),
    };
    let params = sts.build_credentials_params(&request, 1, 2);
    assert_eq!(params.get("DurationSeconds").unwrap(), "7200");
    assert_eq!(params.get("Name").unwrap(), "session-a");
}

#[test]
fn test_credentials_request_url() {
    let sts = StsClient::new("id".to_string(), "key".to_string(), "ap-x".to_string());
    let request = GetCredentialsRequest {
        policy: Policy::allow_put_object("bucket-9", Some("img/")),
        duration_seconds: Some(900),
        name: Some("uploader".to_string()),
    };
    let url = sts.credentials_request_url(&request, 1700000000, 7);
    assert!(url.starts_with("https://sts.tencentcloudapi.com/?"));
    assert!(url.contains("Action=GetFederationToken"));
    assert!(url.contains("Signature="));
    // the policy value is percent-encoded at transport time
    assert!(url.contains("Policy=%7B%22version%22%3A%222.0%22"));

    let again = sts.credentials_request_url(&request, 1700000000, 7);
    assert_eq!(url, again);
}
