//! The compute side of the request layer: the full request URL, the host,
//! and the signed header set of a data-plane request. The transport itself
//! — sending, status handling, response bodies — stays with the caller.
use vstd::prelude::*;

verus! {

use vstd::string::StrSliceExecFns;
use vstd::string::StringExecFns;
use crate::auth::Auth;
use crate::auth::authorization_spec;
use crate::config::Config;
use crate::config::bucket_url_spec;
use crate::config::service_url_spec;
use crate::encoding::url_path_of;
use crate::error::CosError;
use crate::params::ParamMap;
use crate::params::encode_entry_values;
use crate::params::join_entries;
use crate::params::lemma_entries_insert_missing;
use crate::params::pairs_view;
use crate::params::value_encoded_query;

/// A path that starts with `/` addresses the bucket endpoint; anything
/// else addresses the service endpoint.
pub open spec fn is_bucket_path(path: Seq<char>) -> bool {
    path.len() > 0 && path[0] == '/'
}

/// The endpoint a request goes to, by its path.
pub open spec fn base_url_spec(c: &Config, path: Seq<char>) -> Seq<char> {
    if is_bucket_path(path) {
        bucket_url_spec(c)
    } else {
        service_url_spec(c)
    }
}

/// The complete request URL: endpoint, path, and — when there are any
/// parameters — a query string with every value percent-encoded.
pub open spec fn request_url_spec(
    c: &Config,
    path: Seq<char>,
    params: Seq<(Seq<char>, Seq<char>)>,
) -> Seq<char> {
    base_url_spec(c, path) + path + (if params.len() == 0 {
        Seq::<char>::empty()
    } else {
        "?"@ + value_encoded_query(params)
    })
}

/// The host a request is addressed to, by its path.
pub open spec fn host_spec(c: &Config, path: Seq<char>) -> Seq<char> {
    if is_bucket_path(path) {
        match c.domain {
            Some(d) => d@,
            None => c.bucket@ + ".cos."@ + c.region@ + ".myqcloud.com"@,
        }
    } else {
        "cos."@ + c.region@ + ".myqcloud.com"@
    }
}

/// The identification string this client sends with every request.
pub open spec fn user_agent_spec() -> Seq<char> {
    "cos-rust-sdk/0.1.0"@
}

/// The headers every request starts from, before it is signed.
pub open spec fn base_headers_spec(c: &Config, path: Seq<char>) -> Seq<(Seq<char>, Seq<char>)> {
    seq![("User-Agent"@, user_agent_spec()), ("Host"@, host_spec(c, path))]
}

/// The full header set of a signed request: the base headers and the
/// authorization value computed over exactly those headers.
pub open spec fn signed_headers_spec(
    c: &Config,
    method: Seq<char>,
    path: Seq<char>,
    encoded_path: Seq<char>,
    params: Seq<(Seq<char>, Seq<char>)>,
    t0: int,
    t1: int,
) -> Seq<(Seq<char>, Seq<char>)> {
    let base = base_headers_spec(c, path);
    base.push(
        (
            "Authorization"@,
            authorization_spec(
                c.secret_id@,
                c.secret_key@,
                method,
                encoded_path,
                base,
                params,
                t0,
                t1,
            ),
        ),
    )
}

/// The identification string this client sends with every request.
pub fn user_agent() -> (r: String)
    ensures
        r@ == user_agent_spec(),
{
    "cos-rust-sdk/0.1.0".to_owned()
}

fn path_is_bucket(path: &str) -> (r: bool)
    ensures
        r == is_bucket_path(path@),
{
    path.unicode_len() > 0 && path.get_char(0) == '/'
}

/// The complete URL of a request with the given path and parameters.
pub fn build_url(config: &Config, path: &str, params: &ParamMap) -> (r: String)
    ensures
        r@ == request_url_spec(config, path@, params@),
{
    let mut out = if path_is_bucket(path) {
        match config.bucket_url() {
            Ok(u) => u,
            Err(_) => String::new(),
        }
    } else {
        config.service_url()
    };
    out.append(path);
    if !params.is_empty() {
        out.append("?");
        let encoded = encode_entry_values(params);
        let query = join_entries(&encoded, "&");
        out.append(query.as_str());
    }
    proof {
        assert(out@ =~= request_url_spec(config, path@, params@));
    }
    out
}

/// The host of a request with the given path.
pub fn get_host(config: &Config, path: &str) -> (r: String)
    ensures
        r@ == host_spec(config, path@),
{
    let mut out = String::new();
    if path_is_bucket(path) {
        match &config.domain {
            Some(d) => {
                out.append(d.as_str());
            },
            None => {
                out.append(config.bucket.as_str());
                out.append(".cos.");
                out.append(config.region.as_str());
                out.append(".myqcloud.com");
            },
        }
    } else {
        out.append("cos.");
        out.append(config.region.as_str());
        out.append(".myqcloud.com");
    }
    proof {
        assert(out@ =~= host_spec(config, path@));
    }
    out
}

/// Builds the signed header set of a request: the user agent and host,
/// and the authorization value computed over them, for the given signing
/// time window. Fails exactly when the path cannot be canonicalized.
pub fn build_headers(
    config: &Config,
    method: &str,
    path: &str,
    params: &ParamMap,
    start_time: i64,
    end_time: i64,
) -> (r: Result<ParamMap, CosError>)
    ensures
        r is Ok <==> url_path_of(path@) is Some,
        r matches Ok(h) ==> url_path_of(path@) matches Some(p) && h@ == signed_headers_spec(
            config,
            method@,
            path@,
            p,
            params@,
            start_time as int,
            end_time as int,
        ),
        r matches Err(e) ==> e matches CosError::MalformedUri { message } && message@ == path@,
    {
    let mut entries: Vec<(String, String)> = Vec::new();
    entries.push(("User-Agent".to_owned(), user_agent()));
    entries.push(("Host".to_owned(), get_host(config, path)));
    let mut headers = ParamMap::from_entries(entries);
    proof {
        assert(headers@ =~= base_headers_spec(config, path@));
    }
    let auth = Auth::new(config.secret_id.clone(), config.secret_key.clone());
    let authorization = match auth.sign(method, path, &headers, params, start_time, end_time) {
        Ok(a) => a,
        Err(e) => {
            return Err(e);
        },
    };
    let ghost base = headers@;
    let ghost auth_value = authorization@;
    headers.insert("Authorization".to_owned(), authorization);
    proof {
        reveal_strlit("User-Agent");
        reveal_strlit("Host");
        reveal_strlit("Authorization");
        assert("User-Agent"@.len() == 10);
        assert("Host"@.len() == 4);
        assert("Authorization"@.len() == 13);
        assert forall|j: int| 0 <= j < base.len() implies #[trigger] base[j].0
            != "Authorization"@ by {
            if j == 0 {
                assert(base[j].0 == "User-Agent"@);
                assert(base[j].0 != "Authorization"@);
            } else {
                assert(base[j].0 == "Host"@);
                assert(base[j].0 != "Authorization"@);
            }
        }
        lemma_entries_insert_missing(base, "Authorization"@, auth_value);
        assert(headers@ == signed_headers_spec(
            config,
            method@,
            path@,
            url_path_of(path@)->Some_0,
            params@,
            start_time as int,
            end_time as int,
        ));
    }
    Ok(headers)
}

} // verus!
