//! Client configuration: credentials, region, bucket, and the derived
//! endpoint URLs.
use vstd::prelude::*;

verus! {

use vstd::string::StrSliceExecFns;
use vstd::string::StringExecFns;
use crate::error::CosError;

/// Index of the last `-` in `s`, or -1 when there is none.
pub open spec fn rfind_dash(s: Seq<char>) -> int
    decreases s.len(),
{
    if s.len() == 0 {
        -1
    } else if s.last() == '-' {
        s.len() - 1
    } else {
        rfind_dash(s.drop_last())
    }
}

pub open spec fn all_ascii_digits(s: Seq<char>) -> bool {
    forall|i: int| 0 <= i < s.len() ==> '0' <= #[trigger] s[i] && s[i] <= '9'
}

/// The numeric application id at the end of a bucket name of the form
/// `name-digits`, if there is one.
pub open spec fn app_id_of(s: Seq<char>) -> Option<Seq<char>> {
    let p = rfind_dash(s);
    if p >= 0 && p + 1 < s.len() && all_ascii_digits(s.skip(p + 1)) {
        Some(s.skip(p + 1))
    } else {
        None
    }
}

/// Index of the first character of a nonempty numeric suffix that follows
/// the last `-` of `s`, if `s` has that form.
pub(crate) fn numeric_suffix_start(s: &str) -> (r: Option<usize>)
    ensures
        match r {
            Some(i) => 0 < i < s@.len() && rfind_dash(s@) == i - 1 && all_ascii_digits(
                s@.skip(i as int),
            ),
            None => app_id_of(s@) is None,
        },
{
    let len = s.unicode_len();
    let mut i: usize = len;
    proof {
        assert(s@.take(len as int) =~= s@);
    }
    while i > 0
        invariant
            i <= len,
            len == s@.len(),
            rfind_dash(s@) == rfind_dash(s@.take(i as int)),
        decreases i,
    {
        let c = s.get_char(i - 1);
        proof {
            assert(s@.take(i as int).last() == s@[i - 1]);
            assert(s@.take(i as int).drop_last() =~= s@.take(i - 1));
        }
        if c == '-' {
            // the suffix must be nonempty and numeric
            if i == len {
                return None;
            }
            proof {
                assert(rfind_dash(s@) == i - 1);
            }
            let mut j: usize = i;
            while j < len
                invariant
                    0 < i <= j <= len,
                    len == s@.len(),
                    rfind_dash(s@) == i - 1,
                    i < len,
                    forall|k: int| i <= k < j ==> '0' <= #[trigger] s@[k] && s@[k] <= '9',
                decreases len - j,
            {
                let d = s.get_char(j);
                if d < '0' || d > '9' {
                    proof {
                        assert(s@.skip(i as int)[j - i] == s@[j as int]);
                        assert(!all_ascii_digits(s@.skip(i as int)));
                    }
                    return None;
                }
                j = j + 1;
            }
            proof {
                assert forall|k: int| 0 <= k < s@.skip(i as int).len() implies '0' <= #[trigger] s@.skip(
                    i as int,
                )[k] && s@.skip(i as int)[k] <= '9' by {
                    assert(s@.skip(i as int)[k] == s@[k + i]);
                }
            }
            return Some(i);
        }
        i = i - 1;
    }
    proof {
        assert(s@.take(0).len() == 0);
    }
    None
}

/// Extracts the trailing numeric application id from a bucket name of the
/// form `name-digits`.
pub fn extract_app_id(bucket_name: &str) -> (r: Option<String>)
    ensures
        match r {
            Some(a) => app_id_of(bucket_name@) == Some(a@),
            None => app_id_of(bucket_name@) is None,
        },
{
    match numeric_suffix_start(bucket_name) {
        Some(i) => {
            let suffix = bucket_name.substring_char(i, bucket_name.unicode_len());
            proof {
                assert(suffix@ =~= bucket_name@.skip(i as int));
            }
            Some(suffix.to_owned())
        },
        None => None,
    }
}

/// Client configuration. The timeout is in seconds; transport concerns
/// beyond these values stay with the request layer.
#[derive(Debug, Clone)]
pub struct Config {
    pub secret_id: String,
    pub secret_key: String,
    pub region: String,
    pub bucket: String,
    pub timeout_secs: u64,
    pub use_https: bool,
    pub domain: Option<String>,
    pub app_id: Option<String>,
}

pub open spec fn scheme_spec(use_https: bool) -> Seq<char> {
    if use_https {
        "https"@
    } else {
        "http"@
    }
}

/// The bucket endpoint: the custom domain when one is set, otherwise the
/// bucket- and region-derived host.
pub open spec fn bucket_url_spec(c: &Config) -> Seq<char> {
    match c.domain {
        Some(d) => scheme_spec(c.use_https) + "://"@ + d@,
        None => scheme_spec(c.use_https) + "://"@ + c.bucket@ + ".cos."@ + c.region@
            + ".myqcloud.com"@,
    }
}

/// The service endpoint used for bucket-level listings.
pub open spec fn service_url_spec(c: &Config) -> Seq<char> {
    scheme_spec(c.use_https) + "://cos."@ + c.region@ + ".myqcloud.com"@
}

/// The message of the first validation failure, in field order.
pub open spec fn validate_error_message(c: &Config) -> Seq<char> {
    if c.secret_id@.len() == 0 {
        "SecretId cannot be empty"@
    } else if c.secret_key@.len() == 0 {
        "SecretKey cannot be empty"@
    } else if c.region@.len() == 0 {
        "Region cannot be empty"@
    } else {
        "Bucket cannot be empty"@
    }
}

impl Config {
    /// Builds a configuration with the default transport choices: HTTPS, a
    /// 30-second timeout, no custom domain, and the application id taken
    /// from the bucket name's numeric suffix.
    pub fn new(secret_id: String, secret_key: String, region: String, bucket: String) -> (r:
        Config)
        ensures
            r.secret_id@ == secret_id@,
            r.secret_key@ == secret_key@,
            r.region@ == region@,
            r.bucket@ == bucket@,
            r.timeout_secs == 30,
            r.use_https == true,
            r.domain is None,
            match r.app_id {
                Some(a) => app_id_of(bucket@) == Some(a@),
                None => app_id_of(bucket@) is None,
            },
    {
        let app_id = extract_app_id(bucket.as_str());
        Config {
            secret_id,
            secret_key,
            region,
            bucket,
            timeout_secs: 30,
            use_https: true,
            domain: None,
            app_id,
        }
    }

    /// Sets the request timeout, in seconds.
    pub fn with_timeout(self, timeout_secs: u64) -> (r: Config)
        ensures
            r == (Config { timeout_secs, ..self }),
    {
        Config { timeout_secs, ..self }
    }

    /// Chooses between HTTPS and HTTP.
    pub fn with_https(self, use_https: bool) -> (r: Config)
        ensures
            r == (Config { use_https, ..self }),
    {
        Config { use_https, ..self }
    }

    /// Sets a custom domain that replaces the derived bucket host.
    pub fn with_domain(self, domain: String) -> (r: Config)
        ensures
            r == (Config { domain: Some(domain), ..self }),
    {
        Config { domain: Some(domain), ..self }
    }

    /// The bucket endpoint URL.
    pub fn bucket_url(&self) -> (r: Result<String, CosError>)
        ensures
            r matches Ok(u) && u@ == bucket_url_spec(self),
    {
        let mut out = String::new();
        if self.use_https {
            out.append("https");
        } else {
            out.append("http");
        }
        out.append("://");
        match &self.domain {
            Some(d) => {
                out.append(d.as_str());
            },
            None => {
                out.append(self.bucket.as_str());
                out.append(".cos.");
                out.append(self.region.as_str());
                out.append(".myqcloud.com");
            },
        }
        proof {
            assert(out@ =~= bucket_url_spec(self));
        }
        Ok(out)
    }

    /// The service endpoint URL.
    pub fn service_url(&self) -> (r: String)
        ensures
            r@ == service_url_spec(self),
    {
        let mut out = String::new();
        if self.use_https {
            out.append("https");
        } else {
            out.append("http");
        }
        out.append("://cos.");
        out.append(self.region.as_str());
        out.append(".myqcloud.com");
        proof {
            assert(out@ =~= service_url_spec(self));
        }
        out
    }

    /// Checks that the credentials, region and bucket are all nonempty;
    /// reports the first missing one.
    pub fn validate(&self) -> (r: Result<(), CosError>)
        ensures
            r is Ok <==> (self.secret_id@.len() > 0 && self.secret_key@.len() > 0
                && self.region@.len() > 0 && self.bucket@.len() > 0),
            r matches Err(e) ==> e matches CosError::Config { message } && message@
                == validate_error_message(self),
    {
        if self.secret_id.as_str().is_empty() {
            return Err(CosError::config("SecretId cannot be empty".to_owned()));
        }
        if self.secret_key.as_str().is_empty() {
            return Err(CosError::config("SecretKey cannot be empty".to_owned()));
        }
        if self.region.as_str().is_empty() {
            return Err(CosError::config("Region cannot be empty".to_owned()));
        }
        if self.bucket.as_str().is_empty() {
            return Err(CosError::config("Bucket cannot be empty".to_owned()));
        }
        Ok(())
    }
}

} // verus!
