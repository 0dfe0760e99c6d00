//! Plain data of the bucket operations, and the parameter sets their
//! listing requests are built from.
use vstd::prelude::*;

verus! {

use vstd::string::StringExecFns;
use crate::params::ParamMap;
use crate::strings::dec_digits;
use crate::strings::u64_to_string;

/// A bucket's canned access-control setting.
#[derive(Clone, Copy, Debug)]
pub enum BucketAcl {
    Private,
    PublicRead,
    PublicReadWrite,
    AuthenticatedRead,
}

/// The wire value of each setting.
pub open spec fn acl_value_spec(a: BucketAcl) -> Seq<char> {
    match a {
        BucketAcl::Private => "private"@,
        BucketAcl::PublicRead => "public-read"@,
        BucketAcl::PublicReadWrite => "public-read-write"@,
        BucketAcl::AuthenticatedRead => "authenticated-read"@,
    }
}

impl BucketAcl {
    /// The value this setting takes in the ACL request header.
    pub fn header_value(&self) -> (r: String)
        ensures
            r@ == acl_value_spec(*self),
    {
        match self {
            BucketAcl::Private => "private".to_owned(),
            BucketAcl::PublicRead => "public-read".to_owned(),
            BucketAcl::PublicReadWrite => "public-read-write".to_owned(),
            BucketAcl::AuthenticatedRead => "authenticated-read".to_owned(),
        }
    }
}

/// Options of an object listing.
#[derive(Debug, Default)]
pub struct ListObjectsOptions {
    pub prefix: Option<String>,
    pub delimiter: Option<String>,
    pub marker: Option<String>,
    pub max_keys: Option<u32>,
}

/// Options of a second-version object listing.
#[derive(Debug, Default)]
pub struct ListObjectsV2Options {
    pub prefix: Option<String>,
    pub delimiter: Option<String>,
    pub continuation_token: Option<String>,
    pub max_keys: Option<u32>,
    pub start_after: Option<String>,
}

pub open spec fn opt_string_entry(key: Seq<char>, v: Option<String>) -> Seq<(Seq<char>, Seq<char>)> {
    match v {
        Some(s) => seq![(key, s@)],
        None => Seq::empty(),
    }
}

pub open spec fn opt_u32_entry(key: Seq<char>, v: Option<u32>) -> Seq<(Seq<char>, Seq<char>)> {
    match v {
        Some(n) => seq![(key, dec_digits(n as nat))],
        None => Seq::empty(),
    }
}

/// The query parameters of an object listing, in the order they are set.
pub open spec fn list_objects_params_spec(o: Option<ListObjectsOptions>) -> Seq<
    (Seq<char>, Seq<char>),
> {
    match o {
        None => Seq::empty(),
        Some(opts) => opt_string_entry("prefix"@, opts.prefix) + opt_string_entry(
            "delimiter"@,
            opts.delimiter,
        ) + opt_string_entry("marker"@, opts.marker) + opt_u32_entry("max-keys"@, opts.max_keys),
    }
}

/// The query parameters of a second-version listing: the listing type
/// first, then the options that are set.
pub open spec fn list_objects_v2_params_spec(o: Option<ListObjectsV2Options>) -> Seq<
    (Seq<char>, Seq<char>),
> {
    seq![("list-type"@, "2"@)] + (match o {
        None => Seq::empty(),
        Some(opts) => opt_string_entry("prefix"@, opts.prefix) + opt_string_entry(
            "delimiter"@,
            opts.delimiter,
        ) + opt_string_entry("continuation-token"@, opts.continuation_token) + opt_u32_entry(
            "max-keys"@,
            opts.max_keys,
        ) + opt_string_entry("start-after"@, opts.start_after),
    })
}

/// Builds the parameter map of an object listing.
pub fn list_objects_params(options: Option<ListObjectsOptions>) -> (r: ParamMap)
    ensures
        r@ == list_objects_params_spec(options),
{
    let ghost opts_spec = options;
    let mut entries: Vec<(String, String)> = Vec::new();
    match options {
        None => {},
        Some(opts) => {
            match opts.prefix {
                Some(p) => entries.push(("prefix".to_owned(), p)),
                None => {},
            }
            match opts.delimiter {
                Some(d) => entries.push(("delimiter".to_owned(), d)),
                None => {},
            }
            match opts.marker {
                Some(m) => entries.push(("marker".to_owned(), m)),
                None => {},
            }
            match opts.max_keys {
                Some(n) => entries.push(("max-keys".to_owned(), u64_to_string(n as u64))),
                None => {},
            }
        },
    }
    let r = ParamMap::from_entries(entries);
    proof {
        assert(r@ =~= list_objects_params_spec(opts_spec));
    }
    r
}

/// Builds the parameter map of a second-version listing.
pub fn list_objects_v2_params(options: Option<ListObjectsV2Options>) -> (r: ParamMap)
    ensures
        r@ == list_objects_v2_params_spec(options),
{
    let ghost opts_spec = options;
    let mut entries: Vec<(String, String)> = Vec::new();
    entries.push(("list-type".to_owned(), "2".to_owned()));
    match options {
        None => {},
        Some(opts) => {
            match opts.prefix {
                Some(p) => entries.push(("prefix".to_owned(), p)),
                None => {},
            }
            match opts.delimiter {
                Some(d) => entries.push(("delimiter".to_owned(), d)),
                None => {},
            }
            match opts.continuation_token {
                Some(t) => entries.push(("continuation-token".to_owned(), t)),
                None => {},
            }
            match opts.max_keys {
                Some(n) => entries.push(("max-keys".to_owned(), u64_to_string(n as u64))),
                None => {},
            }
            match opts.start_after {
                Some(s) => entries.push(("start-after".to_owned(), s)),
                None => {},
            }
        },
    }
    let r = ParamMap::from_entries(entries);
    proof {
        assert(r@ =~= list_objects_v2_params_spec(opts_spec));
    }
    r
}

/// What an object listing returns.
#[derive(Debug)]
pub struct ListObjectsResponse {
    pub name: String,
    pub prefix: String,
    pub marker: String,
    pub max_keys: u32,
    pub is_truncated: bool,
    pub contents: Vec<ObjectInfo>,
    pub common_prefixes: Vec<CommonPrefix>,
}

/// What a second-version listing returns.
#[derive(Debug)]
pub struct ListObjectsV2Response {
    pub name: String,
    pub prefix: String,
    pub key_count: u32,
    pub max_keys: u32,
    pub is_truncated: bool,
    pub continuation_token: String,
    pub next_continuation_token: String,
    pub contents: Vec<ObjectInfo>,
    pub common_prefixes: Vec<CommonPrefix>,
}

/// One listed object.
#[derive(Debug)]
pub struct ObjectInfo {
    pub key: String,
    pub last_modified: String,
    pub etag: String,
    pub size: u64,
    pub storage_class: String,
}

/// One shared prefix of a delimited listing.
#[derive(Debug)]
pub struct CommonPrefix {
    pub prefix: String,
}

/// A bucket's access-control policy.
#[derive(Debug)]
pub struct BucketAclResponse {
    pub owner: Owner,
    pub access_control_list: AccessControlList,
}

/// The bucket's owner.
#[derive(Debug)]
pub struct Owner {
    pub id: String,
    pub display_name: String,
}

/// The grants of an access-control policy.
#[derive(Debug)]
pub struct AccessControlList {
    pub grants: Vec<Grant>,
}

/// One grant: who, and what they may do.
#[derive(Debug)]
pub struct Grant {
    pub grantee: Grantee,
    pub permission: String,
}

/// Who a grant applies to.
#[derive(Debug)]
pub struct Grantee {
    pub grantee_type: String,
    pub id: String,
    pub display_name: String,
    pub uri: String,
}

/// A bucket's versioning state.
#[derive(Debug)]
pub struct VersioningResponse {
    pub status: String,
}

} // verus!
