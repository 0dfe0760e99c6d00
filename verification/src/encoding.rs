//! Text encodings used by the two signing schemes: lowercase hex, standard
//! base64 with padding, the form-urlencoded percent encoding, Unicode case
//! folding, and JSON string escaping.
use vstd::prelude::*;

verus! {

use vstd::string::StrSliceExecFns;
use vstd::string::StringExecFns;
use vstd::string::StringSliceAdditionalSpecFns;
use crate::strings::digit_char;

pub open spec fn hex_lower_char(d: nat) -> char {
    if d < 10 {
        digit_char(d)
    } else {
        ((97 + (d - 10)) as u8) as char
    }
}

pub open spec fn hex_upper_char(d: nat) -> char {
    if d < 10 {
        digit_char(d)
    } else {
        ((65 + (d - 10)) as u8) as char
    }
}

/// Two lowercase hex digits for each byte, in order.
pub open spec fn hex_of(bytes: Seq<u8>) -> Seq<char>
    decreases bytes.len(),
{
    if bytes.len() == 0 {
        Seq::empty()
    } else {
        hex_of(bytes.drop_last()) + seq![
            hex_lower_char((bytes.last() / 16) as nat),
            hex_lower_char((bytes.last() % 16) as nat),
        ]
    }
}

/// Relies on hex::encode: the result is two lowercase hex digits for each
/// input byte, most significant digit first, in input order.
#[verifier::external_body]
pub(crate) fn hex_encode(data: &[u8]) -> (r: String)
    ensures
        r@ == hex_of(data@),
{
    hex::encode(data)
}

pub open spec fn base64_char(d: nat) -> char {
    if d < 26 {
        ((65 + d) as u8) as char
    } else if d < 52 {
        ((97 + (d - 26)) as u8) as char
    } else if d < 62 {
        ((48 + (d - 52)) as u8) as char
    } else if d == 62 {
        '+'
    } else {
        '/'
    }
}

/// Standard base64 with `=` padding: each 3-byte group becomes 4 characters
/// of the `A-Za-z0-9+/` alphabet; a trailing group of 1 or 2 bytes is padded.
pub open spec fn base64_of(bytes: Seq<u8>) -> Seq<char>
    decreases bytes.len(),
{
    if bytes.len() == 0 {
        Seq::empty()
    } else if bytes.len() == 1 {
        seq![
            base64_char((bytes[0] / 4) as nat),
            base64_char(((bytes[0] % 4) * 16) as nat),
            '=',
            '=',
        ]
    } else if bytes.len() == 2 {
        seq![
            base64_char((bytes[0] / 4) as nat),
            base64_char(((bytes[0] % 4) * 16 + bytes[1] / 16) as nat),
            base64_char(((bytes[1] % 16) * 4) as nat),
            '=',
        ]
    } else {
        seq![
            base64_char((bytes[0] / 4) as nat),
            base64_char(((bytes[0] % 4) * 16 + bytes[1] / 16) as nat),
            base64_char(((bytes[1] % 16) * 4 + bytes[2] / 64) as nat),
            base64_char((bytes[2] % 64) as nat),
        ] + base64_of(bytes.skip(3))
    }
}

/// Relies on base64::encode: the standard alphabet with `=` padding, 6 bits
/// per output character, big-endian within each 3-byte group.
#[verifier::external_body]
pub(crate) fn base64_encode(data: &[u8]) -> (r: String)
    ensures
        r@ == base64_of(data@),
{
    base64::encode(data)
}

/// Bytes the form-urlencoded serializer passes through unchanged:
/// ASCII alphanumerics and `*`, `-`, `.`, `_`.
pub open spec fn percent_unchanged(b: u8) -> bool {
    b == 42 || b == 45 || b == 46 || (48 <= b && b <= 57) || (65 <= b && b <= 90) || b == 95 || (
    97 <= b && b <= 122)
}

pub open spec fn percent_byte(b: u8) -> Seq<char> {
    if percent_unchanged(b) {
        seq![b as char]
    } else if b == 32 {
        seq!['+']
    } else {
        seq!['%', hex_upper_char((b / 16) as nat), hex_upper_char((b % 16) as nat)]
    }
}

/// The form-urlencoded serialization of a byte string: safe bytes unchanged,
/// space as `+`, every other byte as `%` and two uppercase hex digits.
pub open spec fn form_urlencoded_of(bytes: Seq<u8>) -> Seq<char>
    decreases bytes.len(),
{
    if bytes.len() == 0 {
        Seq::empty()
    } else {
        percent_byte(bytes[0]) + form_urlencoded_of(bytes.drop_first())
    }
}

/// Relies on url::form_urlencoded::byte_serialize: ASCII alphanumerics and
/// `*-._` are kept, a space becomes `+`, and every other byte of the UTF-8
/// input becomes `%` followed by two uppercase hex digits.
#[verifier::external_body]
pub(crate) fn form_urlencode(s: &str) -> (r: String)
    ensures
        r@ == form_urlencoded_of(s.spec_bytes()),
{
    url::form_urlencoded::byte_serialize(s.as_bytes()).collect()
}

pub uninterp spec fn lower_of(s: Seq<char>) -> Seq<char>;

/// Relies on str::to_lowercase: the result depends on the input characters
/// alone, so it is named rather than spelled out.
#[verifier::external_body]
pub(crate) fn lowercase(s: &str) -> (r: String)
    ensures
        r@ == lower_of(s@),
{
    s.to_lowercase()
}

pub uninterp spec fn url_path_of(s: Seq<char>) -> Option<Seq<char>>;

/// Relies on url::Url::parse: resolving the input against a fixed dummy
/// authority yields the percent-re-encoded path component, a function of the
/// input alone; `None` exactly when the input cannot be parsed.
#[verifier::external_body]
pub(crate) fn parse_url_path(uri: &str) -> (r: Option<String>)
    ensures
        match r {
            Some(p) => url_path_of(uri@) == Some(p@),
            None => url_path_of(uri@) is None,
        },
{
    match url::Url::parse(&format!("http://example.com{}", uri)) {
        Ok(u) => Some(u.path().to_string()),
        Err(_) => None,
    }
}

/// The JSON escape of one character: quote and backslash get a backslash,
/// the named control characters get their short form, other control
/// characters become `\u00` and two lowercase hex digits.
pub open spec fn json_escaped_char(c: char) -> Seq<char> {
    if c == '"' {
        seq!['\\', '"']
    } else if c == '\\' {
        seq!['\\', '\\']
    } else if c == '\u{8}' {
        seq!['\\', 'b']
    } else if c == '\t' {
        seq!['\\', 't']
    } else if c == '\n' {
        seq!['\\', 'n']
    } else if c == '\u{c}' {
        seq!['\\', 'f']
    } else if c == '\r' {
        seq!['\\', 'r']
    } else if (c as u32) < 32 {
        seq!['\\', 'u', '0', '0', hex_lower_char(((c as u32) / 16) as nat), hex_lower_char(
            ((c as u32) % 16) as nat,
        )]
    } else {
        seq![c]
    }
}

pub open spec fn json_escaped(s: Seq<char>) -> Seq<char>
    decreases s.len(),
{
    if s.len() == 0 {
        Seq::empty()
    } else {
        json_escaped(s.drop_last()) + json_escaped_char(s.last())
    }
}

pub open spec fn json_clean_char(c: char) -> bool {
    c != '"' && c != '\\' && (c as u32) >= 32
}

proof fn lemma_json_escaped_step(s: Seq<char>, i: int)
    requires
        0 <= i < s.len(),
    ensures
        json_escaped(s.take(i + 1)) == json_escaped(s.take(i)) + json_escaped_char(s[i]),
{
    assert(s.take(i + 1).drop_last() =~= s.take(i));
    assert(s.take(i + 1).last() == s[i]);
}

proof fn lemma_json_clean_run(s: Seq<char>, start: int, end: int)
    requires
        0 <= start <= end <= s.len(),
        forall|j: int| start <= j < end ==> json_clean_char(#[trigger] s[j]),
    ensures
        json_escaped(s.take(end)) == json_escaped(s.take(start)) + s.subrange(start, end),
    decreases end - start,
{
    if end == start {
        assert(json_escaped(s.take(end)) =~= json_escaped(s.take(start)) + s.subrange(
            start,
            end,
        ));
    } else {
        lemma_json_clean_run(s, start, end - 1);
        lemma_json_escaped_step(s, end - 1);
        assert(json_escaped_char(s[end - 1]) == seq![s[end - 1]]);
        assert(json_escaped(s.take(start)) + s.subrange(start, end - 1) + seq![s[end - 1]]
            =~= json_escaped(s.take(start)) + s.subrange(start, end));
    }
}

fn hex_lower_str(d: u8) -> (r: &'static str)
    requires
        d < 16,
    ensures
        r@ == seq![hex_lower_char(d as nat)],
{
    proof {
        reveal_strlit("0");
        reveal_strlit("1");
        reveal_strlit("2");
        reveal_strlit("3");
        reveal_strlit("4");
        reveal_strlit("5");
        reveal_strlit("6");
        reveal_strlit("7");
        reveal_strlit("8");
        reveal_strlit("9");
        reveal_strlit("a");
        reveal_strlit("b");
        reveal_strlit("c");
        reveal_strlit("d");
        reveal_strlit("e");
        reveal_strlit("f");
    }
    let r = match d {
        0 => "0",
        1 => "1",
        2 => "2",
        3 => "3",
        4 => "4",
        5 => "5",
        6 => "6",
        7 => "7",
        8 => "8",
        9 => "9",
        10 => "a",
        11 => "b",
        12 => "c",
        13 => "d",
        14 => "e",
        _ => "f",
    };
    proof {
        assert(r@ =~= seq![hex_lower_char(d as nat)]);
    }
    r
}

fn append_json_escape(c: char, out: &mut String)
    requires
        !json_clean_char(c),
    ensures
        final(out)@ == old(out)@ + json_escaped_char(c),
{
    proof {
        reveal_strlit("\\\"");
        reveal_strlit("\\\\");
        reveal_strlit("\\b");
        reveal_strlit("\\t");
        reveal_strlit("\\n");
        reveal_strlit("\\f");
        reveal_strlit("\\r");
        reveal_strlit("\\u00");
    }
    if c == '"' {
        out.append("\\\"");
    } else if c == '\\' {
        out.append("\\\\");
    } else if c == '\u{8}' {
        out.append("\\b");
    } else if c == '\t' {
        out.append("\\t");
    } else if c == '\n' {
        out.append("\\n");
    } else if c == '\u{c}' {
        out.append("\\f");
    } else if c == '\r' {
        out.append("\\r");
    } else {
        out.append("\\u00");
        let code = c as u32;
        out.append(hex_lower_str((code / 16) as u8));
        out.append(hex_lower_str((code % 16) as u8));
    }
    proof {
        assert(out@ =~= old(out)@ + json_escaped_char(c));
    }
}

pub open spec fn is_lower_hex_char(c: char) -> bool {
    ('0' <= c && c <= '9') || ('a' <= c && c <= 'f')
}

/// The shape of every hex encoding: exactly two characters per byte, all
/// of them lowercase hex digits. With a 20-byte digest as input this is
/// the 40-character lowercase form a data-plane signature takes.
pub proof fn lemma_hex_shape(bytes: Seq<u8>)
    ensures
        hex_of(bytes).len() == 2 * bytes.len(),
        forall|i: int| 0 <= i < hex_of(bytes).len() ==> is_lower_hex_char(#[trigger] hex_of(bytes)[i]),
    decreases bytes.len(),
{
    if bytes.len() > 0 {
        lemma_hex_shape(bytes.drop_last());
        let prefix = hex_of(bytes.drop_last());
        assert(is_lower_hex_char(hex_lower_char((bytes.last() / 16) as nat)));
        assert(is_lower_hex_char(hex_lower_char((bytes.last() % 16) as nat)));
        assert forall|i: int| 0 <= i < hex_of(bytes).len() implies is_lower_hex_char(
            #[trigger] hex_of(bytes)[i],
        ) by {
            if i < prefix.len() {
                assert(hex_of(bytes)[i] == prefix[i]);
            }
        }
    }
}

pub open spec fn is_base64_char(c: char) -> bool {
    ('A' <= c && c <= 'Z') || ('a' <= c && c <= 'z') || ('0' <= c && c <= '9') || c == '+' || c
        == '/'
}

proof fn lemma_base64_char_in_alphabet(d: nat)
    requires
        d < 64,
    ensures
        is_base64_char(base64_char(d)),
{
}

/// The shape of every base64 encoding: four characters per three-byte
/// group, each from the standard alphabet or the `=` pad. This is the form
/// a control-plane signature takes.
pub proof fn lemma_base64_shape(bytes: Seq<u8>)
    ensures
        base64_of(bytes).len() == 4 * ((bytes.len() + 2) / 3),
        forall|i: int|
            0 <= i < base64_of(bytes).len() ==> is_base64_char(#[trigger] base64_of(bytes)[i])
                || base64_of(bytes)[i] == '=',
    decreases bytes.len(),
{
    let r = base64_of(bytes);
    if bytes.len() == 0 {
    } else if bytes.len() == 1 {
        lemma_base64_char_in_alphabet((bytes[0] / 4) as nat);
        lemma_base64_char_in_alphabet(((bytes[0] % 4) * 16) as nat);
    } else if bytes.len() == 2 {
        lemma_base64_char_in_alphabet((bytes[0] / 4) as nat);
        lemma_base64_char_in_alphabet(((bytes[0] % 4) * 16 + bytes[1] / 16) as nat);
        lemma_base64_char_in_alphabet(((bytes[1] % 16) * 4) as nat);
    } else {
        lemma_base64_shape(bytes.skip(3));
        lemma_base64_char_in_alphabet((bytes[0] / 4) as nat);
        lemma_base64_char_in_alphabet(((bytes[0] % 4) * 16 + bytes[1] / 16) as nat);
        lemma_base64_char_in_alphabet(((bytes[1] % 16) * 4 + bytes[2] / 64) as nat);
        lemma_base64_char_in_alphabet((bytes[2] % 64) as nat);
        let tail = base64_of(bytes.skip(3));
        assert(r.len() == 4 + tail.len());
        assert forall|i: int| 0 <= i < r.len() implies is_base64_char(#[trigger] r[i]) || r[i]
            == '=' by {
            if i >= 4 {
                assert(r[i] == tail[i - 4]);
            }
        }
    }
}

/// The XML text escape of one character: the three markup characters get
/// their entity, everything else stands as it is.
pub open spec fn xml_escaped_char(c: char) -> Seq<char> {
    if c == '<' {
        "&lt;"@
    } else if c == '>' {
        "&gt;"@
    } else if c == '&' {
        "&amp;"@
    } else {
        seq![c]
    }
}

pub open spec fn xml_escaped(s: Seq<char>) -> Seq<char>
    decreases s.len(),
{
    if s.len() == 0 {
        Seq::empty()
    } else {
        xml_escaped(s.drop_last()) + xml_escaped_char(s.last())
    }
}

pub open spec fn xml_clean_char(c: char) -> bool {
    c != '<' && c != '>' && c != '&'
}

proof fn lemma_xml_escaped_step(s: Seq<char>, i: int)
    requires
        0 <= i < s.len(),
    ensures
        xml_escaped(s.take(i + 1)) == xml_escaped(s.take(i)) + xml_escaped_char(s[i]),
{
    assert(s.take(i + 1).drop_last() =~= s.take(i));
    assert(s.take(i + 1).last() == s[i]);
}

proof fn lemma_xml_clean_run(s: Seq<char>, start: int, end: int)
    requires
        0 <= start <= end <= s.len(),
        forall|j: int| start <= j < end ==> xml_clean_char(#[trigger] s[j]),
    ensures
        xml_escaped(s.take(end)) == xml_escaped(s.take(start)) + s.subrange(start, end),
    decreases end - start,
{
    if end == start {
        assert(xml_escaped(s.take(end)) =~= xml_escaped(s.take(start)) + s.subrange(start, end));
    } else {
        lemma_xml_clean_run(s, start, end - 1);
        lemma_xml_escaped_step(s, end - 1);
        assert(xml_escaped_char(s[end - 1]) == seq![s[end - 1]]);
        assert(xml_escaped(s.take(start)) + s.subrange(start, end - 1) + seq![s[end - 1]]
            =~= xml_escaped(s.take(start)) + s.subrange(start, end));
    }
}

/// Escapes a string for an XML text node, exactly as the XML serializer of
/// the transport layer does: only the three markup characters are replaced.
pub fn xml_escape(s: &str) -> (r: String)
    ensures
        r@ == xml_escaped(s@),
{
    let len = s.unicode_len();
    let mut out = String::new();
    let mut start: usize = 0;
    let mut i: usize = 0;
    while i < len
        invariant
            start <= i <= len,
            len == s@.len(),
            out@ == xml_escaped(s@.take(start as int)),
            forall|j: int| start <= j < i ==> xml_clean_char(#[trigger] s@[j]),
        decreases len - i,
    {
        let c = s.get_char(i);
        if c == '<' || c == '>' || c == '&' {
            out.append(s.substring_char(start, i));
            proof {
                lemma_xml_clean_run(s@, start as int, i as int);
            }
            if c == '<' {
                out.append("&lt;");
            } else if c == '>' {
                out.append("&gt;");
            } else {
                out.append("&amp;");
            }
            proof {
                lemma_xml_escaped_step(s@, i as int);
                assert(out@ =~= xml_escaped(s@.take(i as int + 1)));
            }
            start = i + 1;
        }
        i = i + 1;
    }
    out.append(s.substring_char(start, len));
    proof {
        lemma_xml_clean_run(s@, start as int, len as int);
        assert(s@.take(len as int) =~= s@);
    }
    out
}

/// Escapes a string for embedding between quotes in a JSON document, exactly
/// as the reference JSON serializer does.
pub fn json_escape(s: &str) -> (r: String)
    ensures
        r@ == json_escaped(s@),
{
    let len = s.unicode_len();
    let mut out = String::new();
    let mut start: usize = 0;
    let mut i: usize = 0;
    while i < len
        invariant
            start <= i <= len,
            len == s@.len(),
            out@ == json_escaped(s@.take(start as int)),
            forall|j: int| start <= j < i ==> json_clean_char(#[trigger] s@[j]),
        decreases len - i,
    {
        let c = s.get_char(i);
        if c == '"' || c == '\\' || (c as u32) < 32 {
            out.append(s.substring_char(start, i));
            proof {
                lemma_json_clean_run(s@, start as int, i as int);
            }
            append_json_escape(c, &mut out);
            proof {
                lemma_json_escaped_step(s@, i as int);
            }
            start = i + 1;
        }
        i = i + 1;
    }
    out.append(s.substring_char(start, len));
    proof {
        lemma_json_clean_run(s@, start as int, len as int);
        assert(s@.take(len as int) =~= s@);
    }
    out
}

} // verus!
