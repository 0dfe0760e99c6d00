//! The data-plane signer.
//!
//! A request is canonicalized into a four-line string — lowercased method,
//! re-encoded path, sorted and encoded query parameters, sorted and encoded
//! headers — and signed with a key derived by HMAC-SHA1 over the signing
//! time window. Every step is a pure function of the inputs, pinned down by
//! the spec functions below.
use vstd::prelude::*;

verus! {

use vstd::string::StrSliceExecFns;
use vstd::string::StringExecFns;
use vstd::utf8::encode_utf8;
use crate::digest::hmac_sha1;
use crate::digest::hmac_sha1_of;
use crate::digest::sha1_digest;
use crate::digest::sha1_of;
use crate::encoding::form_urlencode;
use crate::encoding::form_urlencoded_of;
use crate::encoding::hex_encode;
use crate::encoding::hex_of;
use crate::encoding::lower_of;
use crate::encoding::lowercase;
use crate::encoding::parse_url_path;
use crate::encoding::url_path_of;
use crate::error::CosError;
use crate::params::ParamMap;
use crate::params::join_entries;
use crate::params::join_entry_keys;
use crate::params::keys_of;
use crate::params::pairs_view;
use crate::params::sort_entries;
use crate::params::stable_sorted;
use crate::strings::dec_i64;
use crate::strings::i64_to_string;
use crate::strings::join_pairs;
use crate::strings::join_strs;

/// Each entry with its key case-folded and its value percent-encoded: the
/// only form in which the data plane ever looks at an entry.
pub open spec fn dp_lowered(s: Seq<(Seq<char>, Seq<char>)>) -> Seq<(Seq<char>, Seq<char>)> {
    s.map_values(
        |p: (Seq<char>, Seq<char>)| (lower_of(p.0), form_urlencoded_of(encode_utf8(p.1))),
    )
}

/// The canonical `key=value&…` string of a map: entries case-folded,
/// percent-encoded, stably sorted by folded key, and joined.
pub open spec fn canonical_kv_string(s: Seq<(Seq<char>, Seq<char>)>) -> Seq<char> {
    join_pairs(stable_sorted(dp_lowered(s)), "&"@)
}

/// The `key;key;…` list of the same sorted entries.
pub open spec fn canonical_key_list(s: Seq<(Seq<char>, Seq<char>)>) -> Seq<char> {
    join_strs(keys_of(stable_sorted(dp_lowered(s))), ";"@)
}

/// The signing time window rendered as `start;end`.
pub open spec fn key_time_spec(t0: int, t1: int) -> Seq<char> {
    dec_i64(t0) + ";"@ + dec_i64(t1)
}

/// The four-line canonical request, every line newline-terminated.
pub open spec fn http_string_spec(
    method: Seq<char>,
    path: Seq<char>,
    params: Seq<(Seq<char>, Seq<char>)>,
    headers: Seq<(Seq<char>, Seq<char>)>,
) -> Seq<char> {
    lower_of(method) + "\n"@ + path + "\n"@ + canonical_kv_string(params) + "\n"@
        + canonical_kv_string(headers) + "\n"@
}

/// HMAC-SHA1 over the UTF-8 bytes of key and message, hex-encoded.
pub open spec fn hmac_sha1_hex(key: Seq<char>, msg: Seq<char>) -> Seq<char> {
    hex_of(hmac_sha1_of(encode_utf8(key), encode_utf8(msg)))
}

/// The string that is signed: algorithm tag, time window, and the SHA-1
/// digest of the canonical request, each line newline-terminated.
pub open spec fn string_to_sign_spec(key_time: Seq<char>, http_string: Seq<char>) -> Seq<char> {
    "sha1\n"@ + key_time + "\n"@ + hex_of(sha1_of(encode_utf8(http_string))) + "\n"@
}

/// The final signature: the derived hex signing key, used as literal text,
/// keys a second HMAC-SHA1 pass over the string to sign.
pub open spec fn signature_spec(
    secret_key: Seq<char>,
    key_time: Seq<char>,
    http_string: Seq<char>,
) -> Seq<char> {
    hmac_sha1_hex(hmac_sha1_hex(secret_key, key_time), string_to_sign_spec(key_time, http_string))
}

/// The complete authorization value attached to a request.
pub open spec fn authorization_spec(
    secret_id: Seq<char>,
    secret_key: Seq<char>,
    method: Seq<char>,
    path: Seq<char>,
    headers: Seq<(Seq<char>, Seq<char>)>,
    params: Seq<(Seq<char>, Seq<char>)>,
    t0: int,
    t1: int,
) -> Seq<char> {
    let kt = key_time_spec(t0, t1);
    "q-sign-algorithm=sha1&q-ak="@ + secret_id + "&q-sign-time="@ + kt + "&q-key-time="@ + kt
        + "&q-header-list="@ + canonical_key_list(headers) + "&q-url-param-list="@
        + canonical_key_list(params) + "&q-signature="@ + signature_spec(
        secret_key,
        kt,
        http_string_spec(method, path, params, headers),
    )
}

/// Identity used to sign data-plane requests.
#[derive(Debug, Clone)]
pub struct Auth {
    pub secret_id: String,
    pub secret_key: String,
}

fn lowered_entries(m: &ParamMap) -> (r: Vec<(String, String)>)
    ensures
        pairs_view(r@) == dp_lowered(m@),
{
    let entries = m.raw_entries();
    let mut out: Vec<(String, String)> = Vec::new();
    let mut i: usize = 0;
    proof {
        assert(pairs_view(out@) =~= dp_lowered(m@).take(0));
    }
    while i < entries.len()
        invariant
            i <= entries.len(),
            pairs_view(entries@) == m@,
            pairs_view(out@) == dp_lowered(m@).take(i as int),
        decreases entries.len() - i,
    {
        let lk = lowercase(entries[i].0.as_str());
        let ev = form_urlencode(entries[i].1.as_str());
        let ghost prev = pairs_view(out@);
        out.push((lk, ev));
        proof {
            assert(m@[i as int] == (entries@[i as int].0@, entries@[i as int].1@));
            assert(pairs_view(out@) =~= prev.push((lk@, ev@)));
            assert(dp_lowered(m@)[i as int] == (
                lower_of(m@[i as int].0),
                form_urlencoded_of(encode_utf8(m@[i as int].1)),
            ));
            assert(lk@ == lower_of(m@[i as int].0));
            assert(ev@ == form_urlencoded_of(encode_utf8(m@[i as int].1)));
            assert(dp_lowered(m@).take(i as int + 1) =~= dp_lowered(m@).take(i as int).push(
                dp_lowered(m@)[i as int],
            ));
            assert(pairs_view(out@) == dp_lowered(m@).take(i as int + 1));
        }
        i = i + 1;
    }
    proof {
        assert(dp_lowered(m@).take(m@.len() as int) =~= dp_lowered(m@));
    }
    out
}

fn build_key_time(start_time: i64, end_time: i64) -> (r: String)
    ensures
        r@ == key_time_spec(start_time as int, end_time as int),
{
    let mut out = i64_to_string(start_time);
    out.append(";");
    let tail = i64_to_string(end_time);
    out.append(tail.as_str());
    proof {
        assert(out@ =~= key_time_spec(start_time as int, end_time as int));
    }
    out
}

impl Auth {
    /// Builds a signing identity from an access-key id and its secret.
    pub fn new(secret_id: String, secret_key: String) -> (r: Auth)
        ensures
            r.secret_id@ == secret_id@,
            r.secret_key@ == secret_key@,
    {
        Auth { secret_id, secret_key }
    }

    /// The canonical string of the query parameters.
    pub fn build_params_string(&self, params: &ParamMap) -> (r: String)
        ensures
            r@ == canonical_kv_string(params@),
    {
        let lowered = lowered_entries(params);
        let sorted = sort_entries(lowered);
        join_entries(&sorted, "&")
    }

    /// The canonical string of the headers: the same rule as for the query
    /// parameters.
    pub fn build_headers_string(&self, headers: &ParamMap) -> (r: String)
        ensures
            r@ == canonical_kv_string(headers@),
    {
        let lowered = lowered_entries(headers);
        let sorted = sort_entries(lowered);
        join_entries(&sorted, "&")
    }

    /// The sorted, semicolon-joined list of folded header keys.
    pub fn build_header_list(&self, headers: &ParamMap) -> (r: String)
        ensures
            r@ == canonical_key_list(headers@),
    {
        let lowered = lowered_entries(headers);
        let sorted = sort_entries(lowered);
        join_entry_keys(&sorted, ";")
    }

    /// The sorted, semicolon-joined list of folded parameter keys.
    pub fn build_param_list(&self, params: &ParamMap) -> (r: String)
        ensures
            r@ == canonical_key_list(params@),
    {
        let lowered = lowered_entries(params);
        let sorted = sort_entries(lowered);
        join_entry_keys(&sorted, ";")
    }

    /// The four-line canonical request; fails exactly when the path cannot
    /// be parsed as a URI component.
    pub fn build_http_string(
        &self,
        method: &str,
        uri: &str,
        headers: &ParamMap,
        params: &ParamMap,
    ) -> (r: Result<String, CosError>)
        ensures
            r is Ok <==> url_path_of(uri@) is Some,
            r matches Ok(s) ==> url_path_of(uri@) matches Some(p) && s@ == http_string_spec(
                method@,
                p,
                params@,
                headers@,
            ),
            r matches Err(e) ==> e matches CosError::MalformedUri { message } && message@ == uri@,
    {
        let path = match parse_url_path(uri) {
            Some(p) => p,
            None => {
                return Err(CosError::malformed_uri(uri.to_owned()));
            },
        };
        let lowered_method = lowercase(method);
        let params_string = self.build_params_string(params);
        let headers_string = self.build_headers_string(headers);
        let mut out = lowered_method;
        out.append("\n");
        out.append(path.as_str());
        out.append("\n");
        out.append(params_string.as_str());
        out.append("\n");
        out.append(headers_string.as_str());
        out.append("\n");
        proof {
            assert(out@ =~= http_string_spec(
                method@,
                url_path_of(uri@)->Some_0,
                params@,
                headers@,
            ));
        }
        Ok(out)
    }

    /// HMAC-SHA1 of `data` under the given key, hex-encoded.
    pub fn hmac_sha1_with_key(&self, data: &str, key: &str) -> (r: String)
        ensures
            r@ == hmac_sha1_hex(key@, data@),
    {
        let digest = hmac_sha1(key.as_bytes(), data.as_bytes());
        hex_encode(digest.as_slice())
    }

    /// HMAC-SHA1 of `data` under the identity's secret, hex-encoded.
    pub fn hmac_sha1(&self, data: &str) -> (r: String)
        ensures
            r@ == hmac_sha1_hex(self.secret_key@, data@),
    {
        self.hmac_sha1_with_key(data, self.secret_key.as_str())
    }

    /// SHA-1 of `data`, hex-encoded.
    pub fn sha1(&self, data: &str) -> (r: String)
        ensures
            r@ == hex_of(sha1_of(encode_utf8(data@))),
    {
        let digest = sha1_digest(data.as_bytes());
        hex_encode(digest.as_slice())
    }

    /// Signs a request: derives the time-windowed signing key, digests the
    /// canonical request, and assembles the authorization value. The output
    /// is a pure function of the inputs; the only failure is a path that
    /// cannot be canonicalized.
    pub fn sign(
        &self,
        method: &str,
        uri: &str,
        headers: &ParamMap,
        params: &ParamMap,
        start_time: i64,
        end_time: i64,
    ) -> (r: Result<String, CosError>)
        ensures
            r is Ok <==> url_path_of(uri@) is Some,
            r matches Ok(a) ==> url_path_of(uri@) matches Some(p) && a@ == authorization_spec(
                self.secret_id@,
                self.secret_key@,
                method@,
                p,
                headers@,
                params@,
                start_time as int,
                end_time as int,
            ),
            r matches Err(e) ==> e matches CosError::MalformedUri { message } && message@ == uri@,
    {
        let key_time = build_key_time(start_time, end_time);
        let sign_key = self.hmac_sha1(key_time.as_str());
        let http_string = match self.build_http_string(method, uri, headers, params) {
            Ok(h) => h,
            Err(e) => {
                return Err(e);
            },
        };
        let digest_hex = self.sha1(http_string.as_str());
        let mut string_to_sign = String::new();
        string_to_sign.append("sha1\n");
        string_to_sign.append(key_time.as_str());
        string_to_sign.append("\n");
        string_to_sign.append(digest_hex.as_str());
        string_to_sign.append("\n");
        proof {
            assert(string_to_sign@ =~= string_to_sign_spec(key_time@, http_string@));
        }
        let signature = self.hmac_sha1_with_key(string_to_sign.as_str(), sign_key.as_str());
        let header_list = self.build_header_list(headers);
        let param_list = self.build_param_list(params);
        let mut out = String::new();
        out.append("q-sign-algorithm=sha1&q-ak=");
        out.append(self.secret_id.as_str());
        out.append("&q-sign-time=");
        out.append(key_time.as_str());
        out.append("&q-key-time=");
        out.append(key_time.as_str());
        out.append("&q-header-list=");
        out.append(header_list.as_str());
        out.append("&q-url-param-list=");
        out.append(param_list.as_str());
        out.append("&q-signature=");
        out.append(signature.as_str());
        proof {
            assert(out@ =~= authorization_spec(
                self.secret_id@,
                self.secret_key@,
                method@,
                url_path_of(uri@)->Some_0,
                headers@,
                params@,
                start_time as int,
                end_time as int,
            ));
        }
        Ok(out)
    }
}

/// Determinism of the data-plane signer: the authorization value is a pure
/// function of identity, method, path, entries and time window, so two
/// results computed from the same inputs are the same string.
pub proof fn lemma_sign_deterministic(
    secret_id: Seq<char>,
    secret_key: Seq<char>,
    method: Seq<char>,
    path: Seq<char>,
    headers: Seq<(Seq<char>, Seq<char>)>,
    params: Seq<(Seq<char>, Seq<char>)>,
    t0: int,
    t1: int,
    first: Seq<char>,
    second: Seq<char>,
)
    requires
        first == authorization_spec(secret_id, secret_key, method, path, headers, params, t0, t1),
        second == authorization_spec(secret_id, secret_key, method, path, headers, params, t0, t1),
    ensures
        first == second,
{
}

/// Case-insensitivity of key ordering: canonicalization reads an entry only
/// through its case-folded key and its value, so re-casing keys without
/// changing what they fold to leaves the canonical string and the key list
/// unchanged.
pub proof fn lemma_canonicalization_case_insensitive(
    a: Seq<(Seq<char>, Seq<char>)>,
    b: Seq<(Seq<char>, Seq<char>)>,
)
    requires
        a.len() == b.len(),
        forall|i: int|
            0 <= i < a.len() ==> #[trigger] lower_of(a[i].0) == lower_of(b[i].0) && a[i].1
                == b[i].1,
    ensures
        canonical_kv_string(a) == canonical_kv_string(b),
        canonical_key_list(a) == canonical_key_list(b),
{
    assert(dp_lowered(a) =~= dp_lowered(b));
}

/// The same, lifted to the whole authorization value: re-casing header and
/// parameter keys leaves the signer's output unchanged.
pub proof fn lemma_sign_case_insensitive(
    secret_id: Seq<char>,
    secret_key: Seq<char>,
    method: Seq<char>,
    path: Seq<char>,
    headers_a: Seq<(Seq<char>, Seq<char>)>,
    headers_b: Seq<(Seq<char>, Seq<char>)>,
    params_a: Seq<(Seq<char>, Seq<char>)>,
    params_b: Seq<(Seq<char>, Seq<char>)>,
    t0: int,
    t1: int,
)
    requires
        headers_a.len() == headers_b.len(),
        forall|i: int|
            0 <= i < headers_a.len() ==> #[trigger] lower_of(headers_a[i].0) == lower_of(
                headers_b[i].0,
            ) && headers_a[i].1 == headers_b[i].1,
        params_a.len() == params_b.len(),
        forall|i: int|
            0 <= i < params_a.len() ==> #[trigger] lower_of(params_a[i].0) == lower_of(
                params_b[i].0,
            ) && params_a[i].1 == params_b[i].1,
    ensures
        authorization_spec(secret_id, secret_key, method, path, headers_a, params_a, t0, t1)
            == authorization_spec(secret_id, secret_key, method, path, headers_b, params_b, t0, t1),
{
    lemma_canonicalization_case_insensitive(headers_a, headers_b);
    lemma_canonicalization_case_insensitive(params_a, params_b);
}

} // verus!
