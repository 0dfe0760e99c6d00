//! The control-plane signer and the permission-policy model.
//!
//! Temporary credentials are requested from the control-plane API with a
//! flat query-parameter set. The signer sorts the parameters by key —
//! case-sensitively, and over the raw, unencoded values — embeds them in a
//! fixed `{METHOD}{host}/?{query}` template, and signs the template with
//! HMAC-SHA1, base64-encoded. Values are percent-encoded only afterwards,
//! when the request URL is assembled, never during signature computation.
use vstd::prelude::*;

verus! {

use vstd::string::StringExecFns;
use vstd::utf8::encode_utf8;
use crate::digest::hmac_sha1;
use crate::digest::hmac_sha1_of;
use crate::encoding::base64_encode;
use crate::encoding::base64_of;
use crate::encoding::form_urlencoded_of;
use crate::params::ParamMap;
use crate::params::encode_entry_values;
use crate::params::join_entries;
use crate::params::value_encoded_query;
use crate::params::pairs_view;
use crate::params::opt_str_view;
use crate::params::strs_view;
use crate::params::entry_insert_sorted;
use crate::params::sort_entries;
use crate::params::stable_sorted;
use crate::config::all_ascii_digits;
use crate::config::numeric_suffix_start;
use crate::config::rfind_dash;
use crate::encoding::json_escape;
use crate::encoding::json_escaped;
use crate::params::lemma_entries_insert_missing;
use crate::strings::dec_digits;
use crate::strings::join_pairs;
use crate::strings::join_strs;
use crate::strings::lemma_join_strs_step;
use crate::strings::str_eq;
use crate::strings::u64_to_string;
use vstd::string::StrSliceExecFns;

/// The entries with any `Signature` entry removed, order kept.
pub open spec fn without_signature(s: Seq<(Seq<char>, Seq<char>)>) -> Seq<(Seq<char>, Seq<char>)>
    decreases s.len(),
{
    if s.len() == 0 {
        Seq::empty()
    } else if s.last().0 == "Signature"@ {
        without_signature(s.drop_last())
    } else {
        without_signature(s.drop_last()).push(s.last())
    }
}

/// The canonical query string of the control plane: any prior signature
/// excluded, entries stably sorted by raw key, values joined unencoded.
pub open spec fn cp_canonical_query(s: Seq<(Seq<char>, Seq<char>)>) -> Seq<char> {
    join_pairs(stable_sorted(without_signature(s)), "&"@)
}

/// The fixed template that is signed: upper-case method, the control-plane
/// host, a literal `/?`, then the canonical query string.
pub open spec fn cp_string_to_sign(s: Seq<(Seq<char>, Seq<char>)>) -> Seq<char> {
    "GET"@ + "sts.tencentcloudapi.com"@ + "/?"@ + cp_canonical_query(s)
}

/// The control-plane signature: HMAC-SHA1 under the secret, base64-encoded.
pub open spec fn cp_signature(secret_key: Seq<char>, s: Seq<(Seq<char>, Seq<char>)>) -> Seq<char> {
    base64_of(hmac_sha1_of(encode_utf8(secret_key), encode_utf8(cp_string_to_sign(s))))
}

/// Client for the control-plane credentials API; the HTTP transport stays
/// with the caller.
#[derive(Debug, Clone)]
pub struct StsClient {
    pub secret_id: String,
    pub secret_key: String,
    pub region: String,
}

fn entries_without_signature(m: &ParamMap) -> (r: Vec<(String, String)>)
    ensures
        pairs_view(r@) == without_signature(m@),
{
    let entries = m.raw_entries();
    let mut out: Vec<(String, String)> = Vec::new();
    let mut i: usize = 0;
    proof {
        assert(m@.take(0).len() == 0);
        assert(pairs_view(out@) =~= without_signature(m@.take(0)));
    }
    while i < entries.len()
        invariant
            i <= entries.len(),
            pairs_view(entries@) == m@,
            pairs_view(out@) == without_signature(m@.take(i as int)),
        decreases entries.len() - i,
    {
        proof {
            assert(m@.take(i as int + 1).drop_last() =~= m@.take(i as int));
            assert(m@.take(i as int + 1).last() == m@[i as int]);
            assert(m@[i as int] == (entries@[i as int].0@, entries@[i as int].1@));
        }
        if !str_eq(entries[i].0.as_str(), "Signature") {
            let ghost prev = pairs_view(out@);
            let key = entries[i].0.clone();
            let value = entries[i].1.clone();
            out.push((key, value));
            proof {
                assert(pairs_view(out@) =~= prev.push(m@[i as int]));
            }
        }
        i = i + 1;
    }
    proof {
        assert(m@.take(m@.len() as int) =~= m@);
    }
    out
}

impl StsClient {
    /// Builds a control-plane client from credentials and a region.
    pub fn new(secret_id: String, secret_key: String, region: String) -> (r: StsClient)
        ensures
            r.secret_id@ == secret_id@,
            r.secret_key@ == secret_key@,
            r.region@ == region@,
    {
        StsClient { secret_id, secret_key, region }
    }

    /// Signs a parameter set: sorts it by raw key with any prior signature
    /// excluded, joins it unencoded into the fixed template, and signs with
    /// HMAC-SHA1 plus base64.
    pub fn generate_signature(&self, params: &ParamMap) -> (r: String)
        ensures
            r@ == cp_signature(self.secret_key@, params@),
    {
        let kept = entries_without_signature(params);
        let sorted = sort_entries(kept);
        let query = join_entries(&sorted, "&");
        let mut string_to_sign = String::new();
        string_to_sign.append("GET");
        string_to_sign.append("sts.tencentcloudapi.com");
        string_to_sign.append("/?");
        string_to_sign.append(query.as_str());
        proof {
            assert(string_to_sign@ =~= cp_string_to_sign(params@));
        }
        let tag = hmac_sha1(self.secret_key.as_str().as_bytes(), string_to_sign.as_str().as_bytes());
        base64_encode(tag.as_slice())
    }

    /// The canonical query string a parameter set is signed over: any
    /// prior signature excluded, entries sorted by raw key, values verbatim.
    pub fn canonical_query_string(&self, params: &ParamMap) -> (r: String)
        ensures
            r@ == cp_canonical_query(params@),
    {
        let kept = entries_without_signature(params);
        let sorted = sort_entries(kept);
        join_entries(&sorted, "&")
    }

    /// The percent-encoded query string of the final request, entries in
    /// map order: encoding happens here, at transport time only.
    pub fn build_request_query(&self, params: &ParamMap) -> (r: String)
        ensures
            r@ == value_encoded_query(params@),
    {
        let encoded = encode_entry_values(params);
        join_entries(&encoded, "&")
    }
}

/// A temporary-credentials triple issued by the control plane, with its
/// optional expiry timestamp.
#[derive(Debug, Clone)]
pub struct TemporaryCredentials {
    pub tmp_secret_id: String,
    pub tmp_secret_key: String,
    pub token: String,
    pub expired_time: Option<u64>,
}

/// One permission statement: an effect, the actions it covers, the
/// resources it applies to, and an optional condition map from condition
/// keys to operator/value pairs.
#[derive(Debug, Clone)]
pub struct Statement {
    pub effect: String,
    pub action: Vec<String>,
    pub resource: Vec<String>,
    pub condition: Option<Vec<(String, Vec<(String, String)>)>>,
}

/// A versioned permission policy: the document the control-plane caller
/// sends, serialized to JSON, as an opaque parameter value.
#[derive(Debug, Clone)]
pub struct Policy {
    pub version: String,
    pub statement: Vec<Statement>,
}

/// The parameters of a temporary-credentials request.
#[derive(Debug, Clone)]
pub struct GetCredentialsRequest {
    pub policy: Policy,
    pub duration_seconds: Option<u32>,
    pub name: Option<String>,
}

/// A JSON string literal: the escaped text between quotes.
pub open spec fn json_string(s: Seq<char>) -> Seq<char> {
    "\""@ + json_escaped(s) + "\""@
}

/// A JSON array of string literals.
pub open spec fn json_string_array(v: Seq<Seq<char>>) -> Seq<char> {
    "["@ + join_strs(v.map_values(|x: Seq<char>| json_string(x)), ","@) + "]"@
}

pub open spec fn condition_view(
    c: Seq<(String, Vec<(String, String)>)>,
) -> Seq<(Seq<char>, Seq<(Seq<char>, Seq<char>)>)> {
    c.map_values(|p: (String, Vec<(String, String)>)| (p.0@, pairs_view(p.1@)))
}

/// The JSON object of one condition key's operator/value pairs.
pub open spec fn condition_ops_json(ops: Seq<(Seq<char>, Seq<char>)>) -> Seq<char> {
    "{"@ + join_strs(
        ops.map_values(|p: (Seq<char>, Seq<char>)| json_string(p.0) + ":"@ + json_string(p.1)),
        ","@,
    ) + "}"@
}

/// The JSON object of a whole condition map.
pub open spec fn condition_json(c: Seq<(Seq<char>, Seq<(Seq<char>, Seq<char>)>)>) -> Seq<char> {
    "{"@ + join_strs(
        c.map_values(
            |p: (Seq<char>, Seq<(Seq<char>, Seq<char>)>)| json_string(p.0) + ":"@
                + condition_ops_json(p.1),
        ),
        ","@,
    ) + "}"@
}

/// The JSON rendering of one statement, fields in declaration order, the
/// condition omitted when absent.
pub open spec fn statement_json(st: Statement) -> Seq<char> {
    "{\"effect\":"@ + json_string(st.effect@) + ",\"action\":"@ + json_string_array(
        strs_view(st.action@),
    ) + ",\"resource\":"@ + json_string_array(strs_view(st.resource@)) + (match st.condition {
        Some(c) => ",\"condition\":"@ + condition_json(condition_view(c@)),
        None => Seq::<char>::empty(),
    }) + "}"@
}

/// The JSON rendering of a policy.
pub open spec fn policy_json(p: Policy) -> Seq<char> {
    "{\"version\":"@ + json_string(p.version@) + ",\"statement\":["@ + join_strs(
        p.statement@.map_values(|st: Statement| statement_json(st)),
        ","@,
    ) + "]}"@
}

fn json_quoted(s: &str) -> (r: String)
    ensures
        r@ == json_string(s@),
{
    let mut out = String::new();
    out.append("\"");
    let escaped = json_escape(s);
    out.append(escaped.as_str());
    out.append("\"");
    proof {
        assert(out@ =~= json_string(s@));
    }
    out
}

fn json_quoted_vec(v: &Vec<String>) -> (r: String)
    ensures
        r@ == json_string_array(strs_view(v@)),
{
    let ghost items = strs_view(v@).map_values(|x: Seq<char>| json_string(x));
    let mut out = String::new();
    out.append("[");
    let mut i: usize = 0;
    proof {
        assert(items.take(0) =~= Seq::<Seq<char>>::empty());
    }
    while i < v.len()
        invariant
            i <= v.len(),
            items == strs_view(v@).map_values(|x: Seq<char>| json_string(x)),
            items.len() == v@.len(),
            out@ == "["@ + join_strs(items.take(i as int), ","@),
        decreases v.len() - i,
    {
        if i > 0 {
            out.append(",");
        }
        let q = json_quoted(v[i].as_str());
        out.append(q.as_str());
        proof {
            lemma_join_strs_step(items, ","@, i as int);
            assert(items[i as int] == json_string(v@[i as int]@));
            assert(out@ =~= "["@ + join_strs(items.take(i as int + 1), ","@));
        }
        i = i + 1;
    }
    out.append("]");
    proof {
        assert(items.take(items.len() as int) =~= items);
        assert(out@ =~= json_string_array(strs_view(v@)));
    }
    out
}

fn condition_ops_to_json(ops: &Vec<(String, String)>) -> (r: String)
    ensures
        r@ == condition_ops_json(pairs_view(ops@)),
{
    let ghost items = pairs_view(ops@).map_values(
        |p: (Seq<char>, Seq<char>)| json_string(p.0) + ":"@ + json_string(p.1),
    );
    let mut out = String::new();
    out.append("{");
    let mut i: usize = 0;
    proof {
        assert(items.take(0) =~= Seq::<Seq<char>>::empty());
    }
    while i < ops.len()
        invariant
            i <= ops.len(),
            items == pairs_view(ops@).map_values(
                |p: (Seq<char>, Seq<char>)| json_string(p.0) + ":"@ + json_string(p.1),
            ),
            items.len() == ops@.len(),
            out@ == "{"@ + join_strs(items.take(i as int), ","@),
        decreases ops.len() - i,
    {
        if i > 0 {
            out.append(",");
        }
        let k = json_quoted(ops[i].0.as_str());
        out.append(k.as_str());
        out.append(":");
        let val = json_quoted(ops[i].1.as_str());
        out.append(val.as_str());
        proof {
            lemma_join_strs_step(items, ","@, i as int);
            assert(pairs_view(ops@)[i as int] == (ops@[i as int].0@, ops@[i as int].1@));
            assert(items[i as int] == json_string(ops@[i as int].0@) + ":"@ + json_string(
                ops@[i as int].1@,
            ));
            assert(out@ =~= "{"@ + join_strs(items.take(i as int + 1), ","@));
        }
        i = i + 1;
    }
    out.append("}");
    proof {
        assert(items.take(items.len() as int) =~= items);
        assert(out@ =~= condition_ops_json(pairs_view(ops@)));
    }
    out
}

fn condition_to_json(c: &Vec<(String, Vec<(String, String)>)>) -> (r: String)
    ensures
        r@ == condition_json(condition_view(c@)),
{
    let ghost items = condition_view(c@).map_values(
        |p: (Seq<char>, Seq<(Seq<char>, Seq<char>)>)| json_string(p.0) + ":"@ + condition_ops_json(
            p.1,
        ),
    );
    let mut out = String::new();
    out.append("{");
    let mut i: usize = 0;
    proof {
        assert(items.take(0) =~= Seq::<Seq<char>>::empty());
    }
    while i < c.len()
        invariant
            i <= c.len(),
            items == condition_view(c@).map_values(
                |p: (Seq<char>, Seq<(Seq<char>, Seq<char>)>)| json_string(p.0) + ":"@
                    + condition_ops_json(p.1),
            ),
            items.len() == c@.len(),
            out@ == "{"@ + join_strs(items.take(i as int), ","@),
        decreases c.len() - i,
    {
        if i > 0 {
            out.append(",");
        }
        let k = json_quoted(c[i].0.as_str());
        out.append(k.as_str());
        out.append(":");
        let ops = condition_ops_to_json(&c[i].1);
        out.append(ops.as_str());
        proof {
            lemma_join_strs_step(items, ","@, i as int);
            assert(condition_view(c@)[i as int] == (c@[i as int].0@, pairs_view(c@[i as int].1@)));
            assert(items[i as int] == json_string(c@[i as int].0@) + ":"@ + condition_ops_json(
                pairs_view(c@[i as int].1@),
            ));
            assert(out@ =~= "{"@ + join_strs(items.take(i as int + 1), ","@));
        }
        i = i + 1;
    }
    out.append("}");
    proof {
        assert(items.take(items.len() as int) =~= items);
        assert(out@ =~= condition_json(condition_view(c@)));
    }
    out
}

fn statement_to_json(st: &Statement) -> (r: String)
    ensures
        r@ == statement_json(*st),
{
    let mut out = String::new();
    out.append("{\"effect\":");
    let effect = json_quoted(st.effect.as_str());
    out.append(effect.as_str());
    out.append(",\"action\":");
    let action = json_quoted_vec(&st.action);
    out.append(action.as_str());
    out.append(",\"resource\":");
    let resource = json_quoted_vec(&st.resource);
    out.append(resource.as_str());
    match &st.condition {
        Some(c) => {
            out.append(",\"condition\":");
            let cond = condition_to_json(c);
            out.append(cond.as_str());
        },
        None => {},
    }
    out.append("}");
    proof {
        assert(out@ =~= statement_json(*st));
    }
    out
}

impl Policy {
    /// An empty policy at the fixed document version.
    pub fn new() -> (r: Policy)
        ensures
            r.version@ == "2.0"@,
            r.statement@ == Seq::<Statement>::empty(),
    {
        let r = Policy { version: "2.0".to_owned(), statement: Vec::new() };
        proof {
            assert(r.statement@ =~= Seq::<Statement>::empty());
        }
        r
    }

    /// Appends one statement.
    pub fn add_statement(self, statement: Statement) -> (r: Policy)
        ensures
            r.version == self.version,
            r.statement@ == self.statement@.push(statement),
    {
        let mut statements = self.statement;
        statements.push(statement);
        Policy { version: self.version, statement: statements }
    }

    /// Serializes the policy to its JSON document, the exact text the
    /// control-plane request carries as the policy parameter.
    pub fn to_json(&self) -> (r: String)
        ensures
            r@ == policy_json(*self),
    {
        let ghost items = self.statement@.map_values(|st: Statement| statement_json(st));
        let mut out = String::new();
        out.append("{\"version\":");
        let version = json_quoted(self.version.as_str());
        out.append(version.as_str());
        out.append(",\"statement\":[");
        let ghost head = out@;
        let mut i: usize = 0;
        proof {
            assert(items.take(0) =~= Seq::<Seq<char>>::empty());
        }
        while i < self.statement.len()
            invariant
                i <= self.statement.len(),
                items == self.statement@.map_values(|st: Statement| statement_json(st)),
                items.len() == self.statement@.len(),
                head == "{\"version\":"@ + json_string(self.version@) + ",\"statement\":["@,
                out@ == head + join_strs(items.take(i as int), ","@),
            decreases self.statement.len() - i,
        {
            if i > 0 {
                out.append(",");
            }
            let st = statement_to_json(&self.statement[i]);
            out.append(st.as_str());
            proof {
                lemma_join_strs_step(items, ","@, i as int);
                assert(items[i as int] == statement_json(self.statement@[i as int]));
                assert(out@ =~= head + join_strs(items.take(i as int + 1), ","@));
            }
            i = i + 1;
        }
        out.append("]}");
        proof {
            assert(items.take(items.len() as int) =~= items);
            assert(out@ =~= policy_json(*self));
        }
        out
    }
}

/// Splits a bucket identifier on its last `-` into a base name and a
/// trailing numeric account id; without a numeric suffix the whole name is
/// the base and the account id is a wildcard.
pub open spec fn bucket_split(bucket: Seq<char>) -> (Seq<char>, Seq<char>) {
    let p = rfind_dash(bucket);
    if p >= 0 && p + 1 < bucket.len() && all_ascii_digits(bucket.skip(p + 1)) {
        (bucket.take(p), bucket.skip(p + 1))
    } else {
        (bucket, "*"@)
    }
}

/// The resource string a policy statement is scoped to, following the
/// fixed resource-name grammar; the optional key prefix narrows it, and a
/// trailing `*` keeps it a prefix match.
pub open spec fn resource_spec(bucket: Seq<char>, prefix: Option<Seq<char>>) -> Seq<char> {
    let name = bucket_split(bucket).0;
    let appid = bucket_split(bucket).1;
    "qcs::cos:*:uid/"@ + appid + ":prefix//"@ + appid + "/"@ + name + "/"@ + (match prefix {
        Some(p) => p + "*"@,
        None => "*"@,
    })
}

fn split_bucket_name(bucket: &str) -> (r: (String, String))
    ensures
        r.0@ == bucket_split(bucket@).0,
        r.1@ == bucket_split(bucket@).1,
{
    match numeric_suffix_start(bucket) {
        Some(i) => {
            let name = bucket.substring_char(0, i - 1);
            let appid = bucket.substring_char(i, bucket.unicode_len());
            proof {
                assert(name@ =~= bucket@.take(i - 1));
                assert(appid@ =~= bucket@.skip(i as int));
            }
            (name.to_owned(), appid.to_owned())
        },
        None => (bucket.to_owned(), "*".to_owned()),
    }
}

fn build_resource(bucket: &str, prefix: Option<&str>) -> (r: String)
    ensures
        r@ == resource_spec(bucket@, opt_str_view(prefix)),
{
    let parts = split_bucket_name(bucket);
    let mut out = String::new();
    out.append("qcs::cos:*:uid/");
    out.append(parts.1.as_str());
    out.append(":prefix//");
    out.append(parts.1.as_str());
    out.append("/");
    out.append(parts.0.as_str());
    out.append("/");
    match prefix {
        Some(p) => {
            out.append(p);
            out.append("*");
        },
        None => {
            out.append("*");
        },
    }
    proof {
        assert(out@ =~= resource_spec(bucket@, opt_str_view(prefix)));
    }
    out
}

/// The action identifiers of the upload family.
pub open spec fn put_object_actions() -> Seq<Seq<char>> {
    seq![
        "cos:PutObject"@,
        "cos:PostObject"@,
        "cos:InitiateMultipartUpload"@,
        "cos:ListMultipartUploads"@,
        "cos:ListParts"@,
        "cos:UploadPart"@,
        "cos:CompleteMultipartUpload"@,
    ]
}

/// The action identifiers of the download family.
pub open spec fn get_object_actions() -> Seq<Seq<char>> {
    seq!["cos:GetObject"@, "cos:HeadObject"@]
}

/// The action identifier of deletion.
pub open spec fn delete_object_actions() -> Seq<Seq<char>> {
    seq!["cos:DeleteObject"@]
}

/// The union used by the read-write policy.
pub open spec fn read_write_actions() -> Seq<Seq<char>> {
    seq![
        "cos:PutObject"@,
        "cos:PostObject"@,
        "cos:GetObject"@,
        "cos:HeadObject"@,
        "cos:DeleteObject"@,
        "cos:InitiateMultipartUpload"@,
        "cos:ListMultipartUploads"@,
        "cos:ListParts"@,
        "cos:UploadPart"@,
        "cos:CompleteMultipartUpload"@,
    ]
}

/// What every convenience builder returns: a single allow statement over
/// the given actions, scoped to the derived resource, with no condition.
pub open spec fn single_allow_policy(
    p: Policy,
    actions: Seq<Seq<char>>,
    bucket: Seq<char>,
    prefix: Option<Seq<char>>,
) -> bool {
    &&& p.version@ == "2.0"@
    &&& p.statement@.len() == 1
    &&& p.statement@[0].effect@ == "allow"@
    &&& strs_view(p.statement@[0].action@) == actions
    &&& strs_view(p.statement@[0].resource@) == seq![resource_spec(bucket, prefix)]
    &&& p.statement@[0].condition is None
}

fn single_allow(actions: Vec<String>, bucket: &str, prefix: Option<&str>) -> (r: Policy)
    ensures
        single_allow_policy(r, strs_view(actions@), bucket@, opt_str_view(prefix)),
{
    let resource = build_resource(bucket, prefix);
    let mut resources: Vec<String> = Vec::new();
    resources.push(resource);
    let statement = Statement {
        effect: "allow".to_owned(),
        action: actions,
        resource: resources,
        condition: None,
    };
    let r = Policy::new().add_statement(statement);
    proof {
        assert(strs_view(r.statement@[0].resource@) =~= seq![
            resource_spec(bucket@, opt_str_view(prefix)),
        ]);
        assert(r.statement@[0].effect@ == "allow"@);
    }
    r
}

impl Policy {
    /// A policy allowing the upload family of actions on the bucket,
    /// narrowed to the key prefix when one is given.
    pub fn allow_put_object(bucket: &str, prefix: Option<&str>) -> (r: Policy)
        ensures
            single_allow_policy(r, put_object_actions(), bucket@, opt_str_view(prefix)),
    {
        let mut actions: Vec<String> = Vec::new();
        actions.push("cos:PutObject".to_owned());
        actions.push("cos:PostObject".to_owned());
        actions.push("cos:InitiateMultipartUpload".to_owned());
        actions.push("cos:ListMultipartUploads".to_owned());
        actions.push("cos:ListParts".to_owned());
        actions.push("cos:UploadPart".to_owned());
        actions.push("cos:CompleteMultipartUpload".to_owned());
        proof {
            assert(strs_view(actions@) =~= put_object_actions());
        }
        single_allow(actions, bucket, prefix)
    }

    /// A policy allowing the download family of actions.
    pub fn allow_get_object(bucket: &str, prefix: Option<&str>) -> (r: Policy)
        ensures
            single_allow_policy(r, get_object_actions(), bucket@, opt_str_view(prefix)),
    {
        let mut actions: Vec<String> = Vec::new();
        actions.push("cos:GetObject".to_owned());
        actions.push("cos:HeadObject".to_owned());
        proof {
            assert(strs_view(actions@) =~= get_object_actions());
        }
        single_allow(actions, bucket, prefix)
    }

    /// A policy allowing deletion.
    pub fn allow_delete_object(bucket: &str, prefix: Option<&str>) -> (r: Policy)
        ensures
            single_allow_policy(r, delete_object_actions(), bucket@, opt_str_view(prefix)),
    {
        let mut actions: Vec<String> = Vec::new();
        actions.push("cos:DeleteObject".to_owned());
        proof {
            assert(strs_view(actions@) =~= delete_object_actions());
        }
        single_allow(actions, bucket, prefix)
    }

    /// A policy allowing the union of upload, download and deletion.
    pub fn allow_read_write(bucket: &str, prefix: Option<&str>) -> (r: Policy)
        ensures
            single_allow_policy(r, read_write_actions(), bucket@, opt_str_view(prefix)),
    {
        let mut actions: Vec<String> = Vec::new();
        actions.push("cos:PutObject".to_owned());
        actions.push("cos:PostObject".to_owned());
        actions.push("cos:GetObject".to_owned());
        actions.push("cos:HeadObject".to_owned());
        actions.push("cos:DeleteObject".to_owned());
        actions.push("cos:InitiateMultipartUpload".to_owned());
        actions.push("cos:ListMultipartUploads".to_owned());
        actions.push("cos:ListParts".to_owned());
        actions.push("cos:UploadPart".to_owned());
        actions.push("cos:CompleteMultipartUpload".to_owned());
        proof {
            assert(strs_view(actions@) =~= read_write_actions());
        }
        single_allow(actions, bucket, prefix)
    }
}

impl Default for Policy {
    fn default() -> (r: Policy)
        ensures
            r.version@ == "2.0"@,
            r.statement@ == Seq::<Statement>::empty(),
    {
        Policy::new()
    }
}

/// The session name a credentials request runs under.
pub open spec fn request_name_view(r: &GetCredentialsRequest) -> Seq<char> {
    match r.name {
        Some(n) => n@,
        None => "temp-user"@,
    }
}

/// The requested validity, defaulting to half an hour.
pub open spec fn request_duration(r: &GetCredentialsRequest) -> nat {
    match r.duration_seconds {
        Some(d) => d as nat,
        None => 1800,
    }
}

/// The parameter set of a credentials request, in the order it is built.
pub open spec fn credentials_params_spec(
    c: &StsClient,
    r: &GetCredentialsRequest,
    timestamp: nat,
    nonce: nat,
) -> Seq<(Seq<char>, Seq<char>)> {
    seq![
        ("Action"@, "GetFederationToken"@),
        ("Version"@, "2018-08-13"@),
        ("Region"@, c.region@),
        ("SecretId"@, c.secret_id@),
        ("Timestamp"@, dec_digits(timestamp)),
        ("Nonce"@, dec_digits(nonce)),
        ("Name"@, request_name_view(r)),
        ("Policy"@, policy_json(r.policy)),
        ("DurationSeconds"@, dec_digits(request_duration(r))),
    ]
}

/// The same parameters with the computed signature appended.
pub open spec fn signed_params_spec(
    c: &StsClient,
    r: &GetCredentialsRequest,
    timestamp: nat,
    nonce: nat,
) -> Seq<(Seq<char>, Seq<char>)> {
    let base = credentials_params_spec(c, r, timestamp, nonce);
    base.push(("Signature"@, cp_signature(c.secret_key@, base)))
}

/// The complete GET URL of a credentials request: every parameter,
/// signature included, percent-encoded at this final step.
pub open spec fn credentials_url_spec(
    c: &StsClient,
    r: &GetCredentialsRequest,
    timestamp: nat,
    nonce: nat,
) -> Seq<char> {
    "https://sts.tencentcloudapi.com/?"@ + value_encoded_query(
        signed_params_spec(c, r, timestamp, nonce),
    )
}

impl StsClient {
    /// Builds the parameter set of a credentials request: the fixed action
    /// and API version, the client's region and key id, the caller's
    /// timestamp and nonce, the session name, the policy as JSON, and the
    /// validity in seconds. The policy travels as an opaque value; nothing
    /// is percent-encoded here.
    pub fn build_credentials_params(
        &self,
        request: &GetCredentialsRequest,
        timestamp: u64,
        nonce: u64,
    ) -> (r: ParamMap)
        ensures
            r@ == credentials_params_spec(self, request, timestamp as nat, nonce as nat),
    {
        let duration: u32 = match request.duration_seconds {
            Some(d) => d,
            None => 1800,
        };
        let name: String = match &request.name {
            Some(n) => n.clone(),
            None => "temp-user".to_owned(),
        };
        let policy_text = request.policy.to_json();
        let mut entries: Vec<(String, String)> = Vec::new();
        entries.push(("Action".to_owned(), "GetFederationToken".to_owned()));
        entries.push(("Version".to_owned(), "2018-08-13".to_owned()));
        entries.push(("Region".to_owned(), self.region.clone()));
        entries.push(("SecretId".to_owned(), self.secret_id.clone()));
        entries.push(("Timestamp".to_owned(), u64_to_string(timestamp)));
        entries.push(("Nonce".to_owned(), u64_to_string(nonce)));
        entries.push(("Name".to_owned(), name));
        entries.push(("Policy".to_owned(), policy_text));
        entries.push(("DurationSeconds".to_owned(), u64_to_string(duration as u64)));
        let r = ParamMap::from_entries(entries);
        proof {
            assert(r@ =~= credentials_params_spec(self, request, timestamp as nat, nonce as nat));
        }
        r
    }

    /// The complete GET URL of a credentials request: builds the parameter
    /// set, signs it, appends the signature, and percent-encodes everything
    /// for transport.
    pub fn credentials_request_url(
        &self,
        request: &GetCredentialsRequest,
        timestamp: u64,
        nonce: u64,
    ) -> (r: String)
        ensures
            r@ == credentials_url_spec(self, request, timestamp as nat, nonce as nat),
    {
        let mut params = self.build_credentials_params(request, timestamp, nonce);
        let signature = self.generate_signature(&params);
        let ghost base = params@;
        let ghost sig = signature@;
        params.insert("Signature".to_owned(), signature);
        proof {
            reveal_strlit("Signature");
            reveal_strlit("Action");
            reveal_strlit("Version");
            reveal_strlit("Region");
            reveal_strlit("SecretId");
            reveal_strlit("Timestamp");
            reveal_strlit("Nonce");
            reveal_strlit("Name");
            reveal_strlit("Policy");
            reveal_strlit("DurationSeconds");
            assert(base.len() == 9);
            assert("Timestamp"@[0] == 'T');
            assert("Signature"@[0] == 'S');
            assert("Action"@ != "Signature"@);
            assert("Timestamp"@ != "Signature"@);
            assert forall|j: int| 0 <= j < base.len() implies #[trigger] base[j].0
                != "Signature"@ by {
                if j == 0 {
                    assert(base[j].0 == "Action"@);
                    assert(base[j].0 != "Signature"@);
                } else if j == 1 {
                    assert(base[j].0 == "Version"@);
                    assert(base[j].0 != "Signature"@);
                } else if j == 2 {
                    assert(base[j].0 == "Region"@);
                    assert(base[j].0 != "Signature"@);
                } else if j == 3 {
                    assert(base[j].0 == "SecretId"@);
                    assert(base[j].0 != "Signature"@);
                } else if j == 4 {
                    assert(base[j].0 == "Timestamp"@);
                    assert(base[j].0 != "Signature"@);
                } else if j == 5 {
                    assert(base[j].0 == "Nonce"@);
                    assert(base[j].0 != "Signature"@);
                } else if j == 6 {
                    assert(base[j].0 == "Name"@);
                    assert(base[j].0 != "Signature"@);
                } else if j == 7 {
                    assert(base[j].0 == "Policy"@);
                    assert(base[j].0 != "Signature"@);
                } else {
                    assert(base[j].0 == "DurationSeconds"@);
                    assert(base[j].0 != "Signature"@);
                }
            }
            lemma_entries_insert_missing(base, "Signature"@, sig);
            assert(params@ == signed_params_spec(self, request, timestamp as nat, nonce as nat));
        }
        let query = self.build_request_query(&params);
        let mut out = String::new();
        out.append("https://sts.tencentcloudapi.com/?");
        out.append(query.as_str());
        proof {
            assert(out@ =~= credentials_url_spec(self, request, timestamp as nat, nonce as nat));
        }
        out
    }
}

proof fn lemma_without_signature_identity(s: Seq<(Seq<char>, Seq<char>)>)
    requires
        forall|i: int| 0 <= i < s.len() ==> #[trigger] s[i].0 != "Signature"@,
    ensures
        without_signature(s) == s,
    decreases s.len(),
{
    if s.len() == 0 {
        assert(without_signature(s) =~= s);
    } else {
        assert(s.last().0 != "Signature"@);
        lemma_without_signature_identity(s.drop_last());
        assert(without_signature(s.drop_last()).push(s.last()) =~= s);
    }
}

/// Non-encoding divergence of the two planes, in general: on a parameter
/// set whose keys are unchanged by case folding and name no signature,
/// both planes canonicalize the same stably sorted entry sequence — the
/// control plane joins its values verbatim, the data plane percent-encodes
/// them first, and that is the only difference.
pub proof fn lemma_plane_divergence(s: Seq<(Seq<char>, Seq<char>)>)
    requires
        forall|i: int| 0 <= i < s.len() ==> crate::encoding::lower_of(#[trigger] s[i].0) == s[i].0,
        forall|i: int| 0 <= i < s.len() ==> #[trigger] s[i].0 != "Signature"@,
    ensures
        cp_canonical_query(s) == join_pairs(stable_sorted(s), "&"@),
        crate::auth::canonical_kv_string(s) == join_pairs(
            crate::params::value_encoded_entries(stable_sorted(s)),
            "&"@,
        ),
{
    lemma_without_signature_identity(s);
    assert(crate::auth::dp_lowered(s) =~= crate::params::value_encoded_entries(s));
    crate::params::lemma_sort_encodes_values(s);
}

/// Non-encoding divergence of the two planes, on a single entry: the
/// control-plane canonical string carries the key and value verbatim, while
/// the data-plane string folds the key and percent-encodes the value.
pub proof fn lemma_plane_encoding_divergence(k: Seq<char>, v: Seq<char>)
    requires
        k != "Signature"@,
    ensures
        cp_canonical_query(seq![(k, v)]) == k + seq!['='] + v,
        crate::auth::canonical_kv_string(seq![(k, v)]) == crate::encoding::lower_of(k)
            + seq!['='] + form_urlencoded_of(encode_utf8(v)),
{
    let s = seq![(k, v)];
    assert(s.len() == 1);
    assert(s.last() == (k, v));
    assert(s.drop_last() =~= Seq::<(Seq<char>, Seq<char>)>::empty());
    assert(without_signature(s.drop_last()).len() == 0);
    assert(without_signature(s) =~= s);
    assert(stable_sorted(s.drop_last()).len() == 0);
    assert(stable_sorted(s) == entry_insert_sorted(stable_sorted(s.drop_last()), (k, v)));
    assert(stable_sorted(s) =~= s);
    assert(without_signature(s) == s && stable_sorted(s) == s);
    assert(stable_sorted(without_signature(s)) == s);
    let lowered = crate::auth::dp_lowered(s);
    assert(lowered =~= seq![
        (crate::encoding::lower_of(k), form_urlencoded_of(encode_utf8(v))),
    ]);
    assert(lowered.len() == 1);
    assert(lowered.drop_last() =~= Seq::<(Seq<char>, Seq<char>)>::empty());
    assert(stable_sorted(lowered.drop_last()).len() == 0);
    assert(stable_sorted(lowered) == entry_insert_sorted(
        stable_sorted(lowered.drop_last()),
        lowered.last(),
    ));
    assert(stable_sorted(lowered) =~= lowered);
}

} // verus!
