use cos_client::BucketAcl;
use cos_client::ListObjectsOptions;
use cos_client::ListObjectsV2Options;
use cos_client::ParamMap;
use cos_client::bucket::list_objects_params;
use cos_client::bucket::list_objects_v2_params;
use cos_client::i64_to_string;
use cos_client::object::content_type_for_extension;
use cos_client::object::delete_objects_xml;
use cos_client::object::object_path;
use cos_client::object::put_object_headers;
use cos_client::u64_to_string;

#[test]
fn test_content_type_for_extension() {
    assert_eq!(
        content_type_for_extension("txt"),
        Some("text/plain".to_string())
    );
    assert_eq!(
        content_type_for_extension("JPG"),
        Some("image/jpeg".to_string())
    );
    assert_eq!(
        content_type_for_extension("m2ts"),
        Some("video/mp2t".to_string())
    );
    assert_eq!(
        content_type_for_extension("docx"),
        Some(
            "application/vnd.openxmlformats-officedocument.wordprocessingml.document"
                .to_string()
        )
    );
    assert_eq!(content_type_for_extension("unknown"), None);
    assert_eq!(content_type_for_extension(""), None);
}

#[test]
fn test_delete_objects_xml() {
    let keys = vec!["a.txt".to_string(), "b&c<d>.txt".to_string()];
    assert_eq!(
        delete_objects_xml(&keys),
        "<Delete><Object><Key>a.txt</Key></Object>\
         <Object><Key>b&amp;c&lt;d&gt;.txt</Key></Object>\
         <Quiet>false</Quiet></Delete>"
    );

    let empty: Vec<String> = Vec::new();
    assert_eq!(
        delete_objects_xml(&empty),
        "<Delete><Quiet>false</Quiet></Delete>"
    );
}

#[test]
fn test_object_path_and_put_headers() {
    assert_eq!(object_path("dir/file.bin"), "/dir/file.bin");

    let headers = put_object_headers(Some("text/plain"), 11);
    assert_eq!(headers.get("Content-Type").unwrap(), "text/plain");
    assert_eq!(headers.get("Content-Length").unwrap(), "11");

    let bare = put_object_headers(None, 0);
    assert!(bare.get("Content-Type").is_none());
    assert_eq!(bare.get("Content-Length").unwrap(), "0");
}

#[test]
fn test_bucket_acl_header_values() {
    assert_eq!(BucketAcl::Private.header_value(), "private");
    assert_eq!(BucketAcl::PublicRead.header_value(), "public-read");
    assert_eq!(BucketAcl::PublicReadWrite.header_value(), "public-read-write");
    assert_eq!(
        BucketAcl::AuthenticatedRead.header_value(),
        "authenticated-read"
    );
}

#[test]
fn test_list_objects_params() {
    let params = list_objects_params(Some(ListObjectsOptions {
        prefix: Some("photos/".to_string()),
        delimiter: Some("/".to_string()),
        marker: None,
        max_keys: Some(100),
    }));
    assert_eq!(params.get("prefix").unwrap(), "photos/");
    assert_eq!(params.get("delimiter").unwrap(), "/");
    assert!(params.get("marker").is_none());
    assert_eq!(params.get("max-keys").unwrap(), "100");
    assert_eq!(params.len(), 3);

    let none = list_objects_params(None);
    assert!(none.is_empty());
}

#[test]
fn test_list_objects_v2_params() {
    let params = list_objects_v2_params(Some(ListObjectsV2Options {
        prefix: None,
        delimiter: None,
        continuation_token: Some("token".to_string()),
        max_keys: Some(5),
        start_after: Some("k".to_string()),
    }));
    assert_eq!(params.get("list-type").unwrap(), "2");
    assert_eq!(params.get("continuation-token").unwrap(), "token");
    assert_eq!(params.get("max-keys").unwrap(), "5");
    assert_eq!(params.get("start-after").unwrap(), "k");
    assert_eq!(params.len(), 4);

    let bare = list_objects_v2_params(None);
    assert_eq!(bare.len(), 1);
    assert_eq!(bare.get("list-type").unwrap(), "2");
}

#[test]
fn test_decimal_rendering() {
    assert_eq!(u64_to_string(0), "0");
    assert_eq!(u64_to_string(1234567890), "1234567890");
    assert_eq!(u64_to_string(u64::MAX), "18446744073709551615");
    assert_eq!(i64_to_string(-42), "-42");
    assert_eq!(i64_to_string(0), "0");
    assert_eq!(i64_to_string(i64::MIN), "-9223372036854775808");
}

#[test]
fn test_param_map_insert_and_get() {
    let mut map = ParamMap::new();
    assert!(map.is_empty());
    map.insert("k".to_string(), "v1".to_string());
    map.insert("k".to_string(), "v2".to_string());
    assert_eq!(map.len(), 1);
    assert_eq!(map.get("k").unwrap(), "v2");
    map.insert("other".to_string(), "x".to_string());
    assert_eq!(map.len(), 2);
    assert!(map.get("absent").is_none());
}
