//! Posting scan payloads on X: percent-encoding, payload rewriting, OAuth 1.0a
//! request signing, and the daily posting budget.
use vstd::prelude::*;
use vstd::string::*;
use vstd::utf8::*;
use crate::action::Action;
use crate::text::{
    contains_seq, decimal, hex_lower, lower_digit, occurs_at, push_char, push_decimal, push_hex_lower,
    replace_all, replace_str, str_contains, upper_digit, upper_digit_char,
};
use base64::Engine;
use hmac::Mac;

verus! {

/// Bytes that RFC 3986 leaves unreserved: `A-Z a-z 0-9 - . _ ~`.
pub open spec fn is_unreserved(b: u8) -> bool {
    // 'A'..='Z', 'a'..='z', '0'..='9', '-', '.', '_', '~'
    (65 <= b <= 90) || (97 <= b <= 122) || (48 <= b <= 57) || b == 45 || b == 46 || b == 95
        || b == 126
}

/// Percent-encoding of one byte: unreserved bytes stand for themselves, any
/// other byte becomes `%` and two upper-case hexadecimal digits.
pub open spec fn pct_byte(b: u8) -> Seq<char> {
    if is_unreserved(b) {
        seq![b as char]
    } else {
        seq!['%', upper_digit((b / 16) as int), upper_digit((b % 16) as int)]
    }
}

/// Percent-encoding of a byte string, byte by byte.
pub open spec fn pct_bytes(bs: Seq<u8>) -> Seq<char>
    decreases bs.len(),
{
    if bs.len() == 0 {
        Seq::empty()
    } else {
        pct_bytes(bs.drop_last()) + pct_byte(bs.last())
    }
}

/// Percent-encoding of the UTF-8 encoding of a character string.
pub open spec fn pct_encode(s: Seq<char>) -> Seq<char> {
    pct_bytes(encode_utf8(s))
}

/// Percent-encodes `s` for OAuth 1.0a (RFC 5849, section 3.6).
pub fn pct(s: &str) -> (out: String)
    ensures
        out@ == pct_encode(s@),
{
    let bytes = s.as_bytes();
    let n = bytes.len();
    let mut out = String::new();
    let mut i: usize = 0;
    assert(bytes@.take(0) =~= Seq::<u8>::empty());
    while i < n
        invariant
            n == bytes@.len(),
            bytes@ == encode_utf8(s@),
            i <= n,
            out@ == pct_bytes(bytes@.take(i as int)),
        decreases n - i,
    {
        let b = bytes[i];
        let ghost before = out@;
        if (65 <= b && b <= 90) || (97 <= b && b <= 122) || (48 <= b && b <= 57) || b == 45
            || b == 46 || b == 95 || b == 126 {
            push_char(&mut out, b as char);
        } else {
            push_char(&mut out, '%');
            let hi = upper_digit_char(b / 16);
            push_char(&mut out, hi);
            let lo = upper_digit_char(b % 16);
            push_char(&mut out, lo);
        }
        assert(bytes@.take(i + 1).drop_last() =~= bytes@.take(i as int));
        i += 1;
        assert(out@ =~= before + pct_byte(b));
    }
    assert(bytes@.take(n as int) =~= bytes@);
    out
}

/// A character that percent-encoding leaves as it is.
pub open spec fn is_unreserved_char(c: char) -> bool {
    ('A' <= c <= 'Z') || ('a' <= c <= 'z') || ('0' <= c <= '9') || c == '-' || c == '.' || c == '_'
        || c == '~'
}

/// Percent-encoding leaves a text of unreserved characters unchanged.
pub proof fn lemma_pct_unreserved_identity(s: Seq<char>)
    requires
        forall|i: int| 0 <= i < s.len() ==> is_unreserved_char(#[trigger] s[i]),
    ensures
        pct_encode(s) == s,
{
    assert(is_ascii_chars(s)) by {
        assert forall|i| 0 <= i < s.len() implies '\0' <= #[trigger] s[i] <= '\u{7f}' by {
            assert(is_unreserved_char(s[i]));
        }
    }
    is_ascii_chars_encode_utf8(s);
    let bytes = encode_utf8(s);
    lemma_pct_prefix(s, bytes, bytes.len() as int);
    assert(bytes.take(bytes.len() as int) =~= bytes);
    assert(s.take(s.len() as int) =~= s);
}

proof fn lemma_pct_prefix(s: Seq<char>, bytes: Seq<u8>, n: int)
    requires
        bytes.len() == s.len(),
        0 <= n <= s.len(),
        forall|i: int| 0 <= i < s.len() ==> is_unreserved_char(#[trigger] s[i]),
        forall|i: int| 0 <= i < s.len() ==> s[i] as u8 == #[trigger] bytes[i],
    ensures
        pct_bytes(bytes.take(n)) == s.take(n),
    decreases n,
{
    if n == 0 {
        assert(s.take(0) =~= Seq::<char>::empty());
    } else {
        lemma_pct_prefix(s, bytes, n - 1);
        assert(bytes.take(n).drop_last() =~= bytes.take(n - 1));
        let b = bytes[n - 1];
        let c = s[n - 1];
        assert(is_unreserved_char(c));
        assert(c as int == b as int);
        assert(is_unreserved(b));
        assert((b as char) == c);
        assert(s.take(n) =~= s.take(n - 1) + seq![c]);
    }
}

/// The value of a hexadecimal digit as percent-encoding writes it (`0-9`, `A-F`).
pub open spec fn hex_value(c: char) -> int {
    if '0' <= c <= '9' {
        c as int - '0' as int
    } else {
        c as int - 'A' as int + 10
    }
}

/// Percent-decoding: each `%XY` becomes the byte `0xXY`, every other
/// character stands for its own (ASCII) byte.
pub open spec fn pct_decode(s: Seq<char>) -> Seq<u8>
    decreases s.len(),
{
    if s.len() == 0 {
        Seq::empty()
    } else if s[0] == '%' && s.len() >= 3 {
        seq![(hex_value(s[1]) * 16 + hex_value(s[2])) as u8] + pct_decode(s.skip(3))
    } else {
        seq![s[0] as u8] + pct_decode(s.skip(1))
    }
}

proof fn lemma_pct_bytes_concat(a: Seq<u8>, b: Seq<u8>)
    ensures
        pct_bytes(a + b) == pct_bytes(a) + pct_bytes(b),
    decreases b.len(),
{
    if b.len() == 0 {
        assert(a + b =~= a);
        assert(pct_bytes(a) + Seq::<char>::empty() =~= pct_bytes(a));
    } else {
        assert((a + b).drop_last() =~= a + b.drop_last());
        assert((a + b).last() == b.last());
        lemma_pct_bytes_concat(a, b.drop_last());
        assert(pct_bytes(a + b) =~= pct_bytes(a) + pct_bytes(b));
    }
}

proof fn lemma_pct_decode_byte(b: u8, rest: Seq<char>)
    ensures
        pct_decode(pct_byte(b) + rest) == seq![b] + pct_decode(rest),
{
    let s = pct_byte(b) + rest;
    if is_unreserved(b) {
        assert(s[0] == b as char);
        assert((b as char) as int == b as int);
        assert(s.skip(1) =~= rest);
    } else {
        let hi = (b / 16) as int;
        let lo = (b % 16) as int;
        assert(s[0] == '%');
        assert(s[1] == upper_digit(hi));
        assert(s[2] == upper_digit(lo));
        assert(hex_value(upper_digit(hi)) == hi);
        assert(hex_value(upper_digit(lo)) == lo);
        assert(s.skip(3) =~= rest);
    }
}

/// Percent-decoding gives back the bytes that were encoded.
pub proof fn lemma_pct_decode_bytes(bs: Seq<u8>)
    ensures
        pct_decode(pct_bytes(bs)) == bs,
    decreases bs.len(),
{
    if bs.len() > 0 {
        let rest = bs.drop_first();
        assert(bs =~= seq![bs[0]] + rest);
        lemma_pct_bytes_concat(seq![bs[0]], rest);
        assert(seq![bs[0]].drop_last() =~= Seq::<u8>::empty());
        assert(seq![bs[0]].last() == bs[0]);
        assert(pct_bytes(Seq::<u8>::empty()) == Seq::<char>::empty());
        assert(pct_bytes(seq![bs[0]]) =~= Seq::<char>::empty() + pct_byte(bs[0]));
        lemma_pct_decode_byte(bs[0], pct_bytes(rest));
        lemma_pct_decode_bytes(rest);
    }
}

/// Percent-encoding loses nothing: decoding `pct(s)` gives the UTF-8 bytes
/// of `s`, so different texts never encode alike.
pub proof fn lemma_pct_round_trip(s: Seq<char>, t: Seq<char>)
    ensures
        pct_decode(pct_encode(s)) == encode_utf8(s),
        pct_encode(s) == pct_encode(t) ==> s == t,
{
    lemma_pct_decode_bytes(encode_utf8(s));
    lemma_pct_decode_bytes(encode_utf8(t));
    encode_utf8_decode_utf8(s);
    encode_utf8_decode_utf8(t);
}

/// The rewriting that keeps a payload from being billed as a link:
/// `https://` and `http://` are removed, then every `.` becomes ` dot `.
pub open spec fn cheapened(payload: Seq<char>) -> Seq<char> {
    replace_all(
        replace_all(replace_all(payload, "https://"@, Seq::empty()), "http://"@, Seq::empty()),
        seq!['.'],
        " dot "@,
    )
}

/// Replacing every `c` by a text without `c` leaves no `c`.
pub proof fn lemma_replace_char_gone(s: Seq<char>, c: char, rep: Seq<char>)
    requires
        forall|j: int| 0 <= j < rep.len() ==> rep[j] != c,
    ensures
        forall|i: int| 0 <= i < replace_all(s, seq![c], rep).len() ==> #[trigger] replace_all(s, seq![c], rep)[i] != c,
    decreases s.len(),
{
    if s.len() > 0 {
        assert(s.subrange(0, 1) =~= seq![s[0]]);
        let rest = replace_all(s.skip(1), seq![c], rep);
        lemma_replace_char_gone(s.skip(1), c, rep);
        let head = if s[0] == c { rep } else { seq![s[0]] };
        if s[0] == c {
            assert(occurs_at(s, seq![c], 0));
        } else {
            assert(!occurs_at(s, seq![c], 0)) by {
                if occurs_at(s, seq![c], 0) {
                    assert(s.subrange(0, 1)[0] == seq![c][0]);
                }
            }
        }
        assert(replace_all(s, seq![c], rep) == head + rest);
        assert forall|i: int| 0 <= i < (head + rest).len() implies #[trigger] (head + rest)[i] != c by {
            if i < head.len() {
                assert((head + rest)[i] == head[i]);
            } else {
                assert((head + rest)[i] == rest[i - head.len()]);
            }
        }
    }
}

/// A rewritten payload holds no `.` at all, so nothing in it reads as a
/// domain name.
pub proof fn lemma_cheapened_has_no_dot(payload: Seq<char>)
    ensures
        forall|i: int| 0 <= i < cheapened(payload).len() ==> #[trigger] cheapened(payload)[i] != '.',
{
    reveal_strlit(" dot ");
    lemma_replace_char_gone(
        replace_all(replace_all(payload, "https://"@, Seq::empty()), "http://"@, Seq::empty()),
        '.',
        " dot "@,
    );
}

/// "https://qrstud.io/qrmnky" -> "qrstud dot io/qrmnky": URL-looking text in a
/// post is billed at a higher rate, so the payload is defanged first.
pub fn cheapen(payload: &str) -> (out: String)
    ensures
        out@ == cheapened(payload@),
{
    proof {
        reveal_strlit("https://");
        reveal_strlit("http://");
        reveal_strlit(".");
        reveal_strlit("");
    }
    let a = replace_str(payload, "https://", "");
    let b = replace_str(a.as_str(), "http://", "");
    let c = replace_str(b.as_str(), ".", " dot ");
    assert(""@ =~= Seq::<char>::empty());
    assert("."@ =~= seq!['.']);
    c
}

/// Names the HMAC-SHA1 tag (RFC 2104 over SHA-1) of `msg` under `key`.
pub uninterp spec fn hmac_sha1(key: Seq<u8>, msg: Seq<u8>) -> Seq<u8>;

/// The base64 digit of a six-bit value (RFC 4648, table 1): `A`-`Z`, `a`-`z`,
/// `0`-`9`, `+`, `/`.
pub open spec fn base64_digit(v: int) -> char {
    if v < 26 {
        (65 + v) as char
    } else if v < 52 {
        (97 + (v - 26)) as char
    } else if v < 62 {
        (48 + (v - 52)) as char
    } else if v == 62 {
        '+'
    } else {
        '/'
    }
}

/// The standard base64 encoding (RFC 4648, section 4): each group of three
/// bytes, read as a 24-bit number, becomes four digits of six bits each; a last
/// group of one or two bytes becomes two or three digits, padded with `=` to four.
pub open spec fn base64_standard(bytes: Seq<u8>) -> Seq<char>
    decreases bytes.len(),
{
    if bytes.len() == 0 {
        Seq::empty()
    } else if bytes.len() == 1 {
        let n = bytes[0] as int;
        seq![base64_digit(n / 4), base64_digit((n % 4) * 16), '=', '=']
    } else if bytes.len() == 2 {
        let n = bytes[0] * 256 + bytes[1];
        seq![base64_digit(n / 1024), base64_digit((n / 16) % 64), base64_digit((n % 16) * 4), '=']
    } else {
        let n = bytes[0] * 65536 + bytes[1] * 256 + bytes[2];
        seq![base64_digit(n / 262144), base64_digit((n / 4096) % 64), base64_digit((n / 64) % 64), base64_digit(n % 64)]
            + base64_standard(bytes.skip(3))
    }
}

/// Base64 takes four characters per started group of three bytes.
proof fn lemma_base64_len(bytes: Seq<u8>)
    ensures
        base64_standard(bytes).len() == 4 * ((bytes.len() + 2) / 3),
    decreases bytes.len(),
{
    if bytes.len() >= 3 {
        lemma_base64_len(bytes.skip(3));
    }
}

/// Computes an HMAC-SHA1 tag in one go.
///
/// Trusted: one HMAC computation through the hmac crate's `Mac` interface:
/// `Hmac::<Sha1>::new_from_slice` (hmac 0.12, which accepts
/// keys of any length, so the `unwrap` never fails), `Mac::update` and
/// `Mac::finalize`. The contract claims that the tag is the named value for
/// the two inputs and that it is 20 bytes long (the SHA-1 output size); the
/// value itself is not stated.
#[verifier::external_body]
fn hmac_sha1_tag(key: &[u8], msg: &[u8]) -> (tag: Vec<u8>)
    ensures
        tag@ == hmac_sha1(key@, msg@),
        tag@.len() == 20,
{
    let mut mac = hmac::Hmac::<sha1::Sha1>::new_from_slice(key).unwrap();
    mac.update(msg);
    mac.finalize().into_bytes().to_vec()
}

/// Encodes bytes in standard, padded base64.
///
/// Trusted: calls `Engine::encode` on `base64::engine::general_purpose::STANDARD`
/// (base64 0.22), the RFC 4648 alphabet with `=` padding. The contract claims
/// that the text is `base64_standard` of the input. The length bound keeps the
/// crate's computation of the encoded length from overflowing, where it panics.
#[verifier::external_body]
fn base64_encode(bytes: &[u8]) -> (text: String)
    requires
        bytes@.len() <= u32::MAX,
    ensures
        text@ == base64_standard(bytes@),
{
    base64::engine::general_purpose::STANDARD.encode(bytes)
}

/// How a character is written inside a JSON string: `"` and `\` behind a
/// backslash; backspace, tab, line feed, form feed and carriage return as
/// `\b`, `\t`, `\n`, `\f`, `\r`; the other characters below U+0020 as `\u00`
/// and two lower-case hexadecimal digits; every other character as it is.
pub open spec fn json_escaped(c: char) -> Seq<char> {
    if c == '"' {
        seq!['\\', '"']
    } else if c == '\\' {
        seq!['\\', '\\']
    } else if c == '\u{8}' {
        seq!['\\', 'b']
    } else if c == '\t' {
        seq!['\\', 't']
    } else if c == '\n' {
        seq!['\\', 'n']
    } else if c == '\u{c}' {
        seq!['\\', 'f']
    } else if c == '\r' {
        seq!['\\', 'r']
    } else if (c as int) < 0x20 {
        seq!['\\', 'u', '0', '0', lower_digit((c as int) / 16), lower_digit((c as int) % 16)]
    } else {
        seq![c]
    }
}

/// The characters of a text, each as it is written inside a JSON string.
pub open spec fn json_escaped_text(s: Seq<char>) -> Seq<char>
    decreases s.len(),
{
    if s.len() == 0 {
        Seq::empty()
    } else {
        json_escaped_text(s.drop_last()) + json_escaped(s.last())
    }
}

/// A text as a JSON string literal.
pub open spec fn json_string(s: Seq<char>) -> Seq<char> {
    seq!['"'] + json_escaped_text(s) + seq!['"']
}

/// Writes a text as a JSON string literal.
///
/// Trusted: calls `serde_json::to_string` (serde_json 1.0) on the `str`, which
/// writes it through `format_escaped_str` and the escape table of its `ser.rs`.
/// The contract claims that the result is `json_string` of the input. Writing
/// a `str` into memory does not fail, so the error arm is never taken.
#[verifier::external_body]
fn json_quote(s: &str) -> (quoted: String)
    ensures
        quoted@ == json_string(s@),
{
    serde_json::to_string(s).unwrap_or_default()
}

/// The OAuth 1.0a credentials of the posting account.
pub struct Creds {
    pub consumer_key: String,
    pub consumer_secret: String,
    pub token: String,
    pub token_secret: String,
}

/// The nonce: the sub-second nanoseconds of the clock and the process id, both
/// in lower-case hexadecimal, one after the other.
pub fn oauth_nonce(subsec_nanos: u32, pid: u32) -> (nonce: String)
    ensures
        nonce@ == hex_lower(subsec_nanos as nat) + hex_lower(pid as nat),
{
    let mut s = String::new();
    push_hex_lower(&mut s, subsec_nanos as u64);
    push_hex_lower(&mut s, pid as u64);
    assert(Seq::<char>::empty() + hex_lower(subsec_nanos as nat) =~= hex_lower(subsec_nanos as nat));
    s
}

/// The normalized request parameters, `key=value` joined by `&`, keys in
/// ascending byte order (RFC 5849, section 3.4.1.3.2). No body parameters take
/// part: the requests carry JSON or multipart bodies.
pub open spec fn param_string(
    consumer_key: Seq<char>,
    nonce: Seq<char>,
    timestamp: nat,
    token: Seq<char>,
) -> Seq<char> {
    "oauth_consumer_key="@ + pct_encode(consumer_key) + "&oauth_nonce="@ + pct_encode(nonce)
        + "&oauth_signature_method=HMAC-SHA1&oauth_timestamp="@ + decimal(timestamp)
        + "&oauth_token="@ + pct_encode(token) + "&oauth_version=1.0"@
}

/// The signature base string: method, encoded URL and encoded parameters.
pub open spec fn signature_base(method: Seq<char>, url: Seq<char>, params: Seq<char>) -> Seq<char> {
    method + "&"@ + pct_encode(url) + "&"@ + pct_encode(params)
}

/// The HMAC-SHA1 signing key: encoded consumer secret `&` encoded token secret.
pub open spec fn signing_key(consumer_secret: Seq<char>, token_secret: Seq<char>) -> Seq<char> {
    pct_encode(consumer_secret) + "&"@ + pct_encode(token_secret)
}

/// The request signature: base64 of the HMAC-SHA1 of the base string.
pub open spec fn oauth_signature(
    c: &Creds,
    method: Seq<char>,
    url: Seq<char>,
    timestamp: nat,
    nonce: Seq<char>,
) -> Seq<char> {
    base64_standard(
        hmac_sha1(
            encode_utf8(signing_key(c.consumer_secret@, c.token_secret@)),
            encode_utf8(
                signature_base(method, url, param_string(c.consumer_key@, nonce, timestamp, c.token@)),
            ),
        ),
    )
}

/// The `Authorization` header value that carries a given signature.
pub open spec fn authorization_with(c: &Creds, timestamp: nat, nonce: Seq<char>, signature: Seq<char>) -> Seq<char> {
    "OAuth oauth_consumer_key=\""@ + pct_encode(c.consumer_key@) + "\", oauth_nonce=\""@
        + pct_encode(nonce) + "\", oauth_signature=\""@ + pct_encode(signature)
        + "\", oauth_signature_method=\"HMAC-SHA1\", oauth_timestamp=\""@ + decimal(timestamp)
        + "\", oauth_token=\""@ + pct_encode(c.token@) + "\", oauth_version=\"1.0\""@
}

/// The `Authorization` header value of a signed request.
pub open spec fn authorization(
    c: &Creds,
    method: Seq<char>,
    url: Seq<char>,
    timestamp: nat,
    nonce: Seq<char>,
) -> Seq<char> {
    authorization_with(c, timestamp, nonce, oauth_signature(c, method, url, timestamp, nonce))
}

/// The signature base string of a request (RFC 5849, section 3.4.1).
pub fn oauth_base_string(c: &Creds, method: &str, url: &str, timestamp: u64, nonce: &str) -> (base: String)
    ensures
        base@ == signature_base(method@, url@, param_string(c.consumer_key@, nonce@, timestamp as nat, c.token@)),
{
    let key_enc = pct(c.consumer_key.as_str());
    let nonce_enc = pct(nonce);
    let token_enc = pct(c.token.as_str());
    let mut params = String::new();
    params.append("oauth_consumer_key=");
    params.append(key_enc.as_str());
    params.append("&oauth_nonce=");
    params.append(nonce_enc.as_str());
    params.append("&oauth_signature_method=HMAC-SHA1&oauth_timestamp=");
    push_decimal(&mut params, timestamp);
    params.append("&oauth_token=");
    params.append(token_enc.as_str());
    params.append("&oauth_version=1.0");
    assert(params@ =~= param_string(c.consumer_key@, nonce@, timestamp as nat, c.token@));

    let url_enc = pct(url);
    let params_enc = pct(params.as_str());
    let mut base = String::from_str(method);
    base.append("&");
    base.append(url_enc.as_str());
    base.append("&");
    base.append(params_enc.as_str());
    assert(base@ =~= signature_base(method@, url@, params@));
    base
}

/// The HMAC-SHA1 signing key of the credentials (RFC 5849, section 3.4.2).
pub fn oauth_signing_key(c: &Creds) -> (key: String)
    ensures
        key@ == signing_key(c.consumer_secret@, c.token_secret@),
{
    let secret_enc = pct(c.consumer_secret.as_str());
    let token_secret_enc = pct(c.token_secret.as_str());
    let mut key = String::new();
    key.append(secret_enc.as_str());
    key.append("&");
    key.append(token_secret_enc.as_str());
    assert(key@ =~= signing_key(c.consumer_secret@, c.token_secret@));
    key
}

/// The base64 HMAC-SHA1 signature of a request.
pub fn oauth_signature_value(c: &Creds, method: &str, url: &str, timestamp: u64, nonce: &str) -> (sig: String)
    ensures
        sig@ == oauth_signature(c, method@, url@, timestamp as nat, nonce@),
        sig@.len() == 28,
{
    let key = oauth_signing_key(c);
    let base = oauth_base_string(c, method, url, timestamp, nonce);
    let tag = hmac_sha1_tag(key.as_str().as_bytes(), base.as_str().as_bytes());
    proof {
        lemma_base64_len(tag@);
    }
    base64_encode(tag.as_slice())
}

/// The `Authorization` header value that carries `signature`.
pub fn authorization_header(c: &Creds, timestamp: u64, nonce: &str, signature: &str) -> (header: String)
    ensures
        header@ == authorization_with(c, timestamp as nat, nonce@, signature@),
{
    let key_enc = pct(c.consumer_key.as_str());
    let nonce_enc = pct(nonce);
    let token_enc = pct(c.token.as_str());
    let sig_enc = pct(signature);
    let mut h = String::new();
    h.append("OAuth oauth_consumer_key=\"");
    h.append(key_enc.as_str());
    h.append("\", oauth_nonce=\"");
    h.append(nonce_enc.as_str());
    h.append("\", oauth_signature=\"");
    h.append(sig_enc.as_str());
    h.append("\", oauth_signature_method=\"HMAC-SHA1\", oauth_timestamp=\"");
    push_decimal(&mut h, timestamp);
    h.append("\", oauth_token=\"");
    h.append(token_enc.as_str());
    h.append("\", oauth_version=\"1.0\"");
    assert(h@ =~= authorization_with(c, timestamp as nat, nonce@, signature@));
    h
}

/// OAuth 1.0a `Authorization` header for a request, signed with HMAC-SHA1 at
/// the given Unix time with the given nonce; body parameters are excluded, as
/// the requests carry JSON and multipart bodies.
pub fn oauth_header(c: &Creds, method: &str, url: &str, timestamp: u64, nonce: &str) -> (header: String)
    ensures
        header@ == authorization(c, method@, url@, timestamp as nat, nonce@),
{
    let sig = oauth_signature_value(c, method, url, timestamp, nonce);
    authorization_header(c, timestamp, nonce, sig.as_str())
}

/// Posts allowed per calendar day (UTC); more would exceed the spending ceiling.
pub const MAX_POSTS_PER_DAY: u32 = 300;

/// Seconds per day, to turn Unix time into a day number.
pub const SECS_PER_DAY: u64 = 86400;

/// Pause after every post attempt, in seconds.
pub const MIN_INTERVAL_SECS: u64 = 3;

/// Extra pause after the service answers 429 (rate limited), in seconds.
pub const RATE_LIMIT_PAUSE_SECS: u64 = 60;

/// Wait before looking for credentials again when they are missing, in seconds.
pub const CREDS_RETRY_SECS: u64 = 60;

/// HTTP status of a rate-limited request.
pub const STATUS_TOO_MANY_REQUESTS: u16 = 429;

/// Whether posts carry the animated picture.
pub const GIF_ENABLED: bool = true;

/// The text of the post for a scanned payload.
pub open spec fn tweet_text(payload: Seq<char>) -> Seq<char> {
    "Pocket Scan!\nI just scanned this QR code at DefCon, it also sent over meshtastic:\n\n"@
        + cheapened(payload)
}

/// Builds the text of the post for a scanned payload.
pub fn compose_tweet(payload: &str) -> (text: String)
    ensures
        text@ == tweet_text(payload@),
{
    let mut text = String::from_str(
        "Pocket Scan!\nI just scanned this QR code at DefCon, it also sent over meshtastic:\n\n",
    );
    let tail = cheapen(payload);
    text.append(tail.as_str());
    text
}

/// The header signs the request it is made for: its signature is the base64
/// HMAC-SHA1, under the encoded consumer and token secrets, of the base string
/// built from the method and the URL passed in, with the parameters of this
/// timestamp and nonce.
pub proof fn lemma_header_signs_own_request(c: &Creds, method: Seq<char>, url: Seq<char>, timestamp: nat, nonce: Seq<char>)
    ensures
        authorization(c, method, url, timestamp, nonce) == authorization_with(
            c,
            timestamp,
            nonce,
            base64_standard(
                hmac_sha1(
                    encode_utf8(pct_encode(c.consumer_secret@) + "&"@ + pct_encode(c.token_secret@)),
                    encode_utf8(
                        method + "&"@ + pct_encode(url) + "&"@ + pct_encode(
                            param_string(c.consumer_key@, nonce, timestamp, c.token@),
                        ),
                    ),
                ),
            ),
        ),
{
}

/// Requests to different URLs have different base strings, so a base string
/// (and the signature over it) belongs to one URL only.
pub proof fn lemma_signature_base_tells_urls_apart(method: Seq<char>, u1: Seq<char>, u2: Seq<char>, params: Seq<char>)
    requires
        signature_base(method, u1, params) == signature_base(method, u2, params),
    ensures
        u1 == u2,
{
    let head = method + "&"@;
    let tail = "&"@ + pct_encode(params);
    let b1 = signature_base(method, u1, params);
    let b2 = signature_base(method, u2, params);
    assert(b1 =~= head + pct_encode(u1) + tail);
    assert(b2 =~= head + pct_encode(u2) + tail);
    assert(pct_encode(u1).len() == pct_encode(u2).len());
    let lo = head.len() as int;
    let hi = lo + pct_encode(u1).len();
    assert(pct_encode(u1) =~= b1.subrange(lo, hi));
    assert(pct_encode(u2) =~= b2.subrange(lo, hi));
    lemma_pct_round_trip(u1, u2);
}

/// Replacing a pattern that does not occur leaves the text as it is.
proof fn lemma_replace_absent(s: Seq<char>, pat: Seq<char>, rep: Seq<char>)
    requires
        pat.len() > 0,
        !contains_seq(s, pat),
    ensures
        replace_all(s, pat, rep) == s,
    decreases s.len(),
{
    if s.len() > 0 {
        assert(!occurs_at(s, pat, 0));
        assert(!contains_seq(s.skip(1), pat)) by {
            if contains_seq(s.skip(1), pat) {
                let i = choose|i: int| occurs_at(s.skip(1), pat, i);
                assert(s.subrange(i + 1, i + 1 + pat.len()) =~= s.skip(1).subrange(i, i + pat.len()));
                assert(occurs_at(s, pat, i + 1));
            }
        }
        lemma_replace_absent(s.skip(1), pat, rep);
        assert(seq![s[0]] + s.skip(1) =~= s);
    }
}

/// The post text of any payload is the fixed greeting followed by the
/// rewritten payload, and it holds no `.` anywhere: no domain in it reads as a
/// link. A payload with no `.` and no `http://` or `https://` goes into the
/// post as it is.
pub proof fn lemma_post_text(payload: Seq<char>)
    ensures
        forall|i: int| 0 <= i < tweet_text(payload).len() ==> #[trigger] tweet_text(payload)[i] != '.',
        tweet_text(payload).len() >= "Pocket Scan!\nI just scanned this QR code at DefCon, it also sent over meshtastic:\n\n"@.len(),
        tweet_text(payload).take("Pocket Scan!\nI just scanned this QR code at DefCon, it also sent over meshtastic:\n\n"@.len() as int)
            == "Pocket Scan!\nI just scanned this QR code at DefCon, it also sent over meshtastic:\n\n"@,
        !contains_seq(payload, "."@) && !contains_seq(payload, "http://"@) && !contains_seq(payload, "https://"@)
            ==> tweet_text(payload) == "Pocket Scan!\nI just scanned this QR code at DefCon, it also sent over meshtastic:\n\n"@
            + payload,
{
    let head = "Pocket Scan!\nI just scanned this QR code at DefCon, it also sent over meshtastic:\n\n"@;
    reveal_strlit("Pocket Scan!\nI just scanned this QR code at DefCon, it also sent over meshtastic:\n\n");
    lemma_cheapened_has_no_dot(payload);
    let t = tweet_text(payload);
    let c = cheapened(payload);
    assert forall|i: int| 0 <= i < t.len() implies #[trigger] t[i] != '.' by {
        if i < head.len() {
            assert(t[i] == head[i]);
        } else {
            assert(t[i] == c[i - head.len()]);
        }
    }
    assert(t.take(head.len() as int) =~= head);
    if !contains_seq(payload, "."@) && !contains_seq(payload, "http://"@) && !contains_seq(payload, "https://"@) {
        reveal_strlit(".");
        reveal_strlit("http://");
        reveal_strlit("https://");
        assert("."@ =~= seq!['.']);
        lemma_replace_absent(payload, "https://"@, Seq::empty());
        lemma_replace_absent(payload, "http://"@, Seq::empty());
        lemma_replace_absent(payload, seq!['.'], " dot "@);
    }
}

/// How the service answered a post request.
pub enum PostOutcome {
    /// A success status.
    Posted,
    /// Another status; `status_text` is how the status reads (e.g.
    /// `429 Too Many Requests`), `body` the response body.
    Rejected { status: u16, status_text: String, body: String },
    /// No answer (connection or protocol error).
    RequestFailed,
}

/// What to report after a post attempt, and how long to wait before the next.
pub struct PostReply {
    pub action: Action,
    pub pause_secs: u64,
}

/// The posting budget and the uploaded picture of the running session.
pub struct Poster {
    /// Posts made on the current day.
    pub posts_today: u32,
    /// Current day number (Unix time / seconds per day).
    pub day: u64,
    /// Media id of the uploaded picture, attached to every post.
    pub media_id: Option<String>,
}

/// The body of a rejection says the attached media id is no longer valid.
pub open spec fn media_went_stale(body: Seq<char>) -> bool {
    contains_seq(body, "media"@) && contains_seq(body, "invalid"@)
}

/// The pause after a rejection with the given status.
pub open spec fn rejection_pause(status: u16) -> u64 {
    if status == STATUS_TOO_MANY_REQUESTS {
        (MIN_INTERVAL_SECS + RATE_LIMIT_PAUSE_SECS) as u64
    } else {
        MIN_INTERVAL_SECS
    }
}

/// The posting state as values.
pub struct PosterModel {
    pub posts_today: u32,
    pub day: u64,
    pub media_id: Option<Seq<char>>,
}

/// How the service answered, as values.
pub enum OutcomeModel {
    Posted,
    Rejected { status: u16, body: Seq<char> },
    RequestFailed,
}

impl View for PostOutcome {
    type V = OutcomeModel;

    open spec fn view(&self) -> OutcomeModel {
        match self {
            PostOutcome::Posted => OutcomeModel::Posted,
            PostOutcome::Rejected { status, body, .. } => OutcomeModel::Rejected { status: *status, body: body@ },
            PostOutcome::RequestFailed => OutcomeModel::RequestFailed,
        }
    }
}

impl View for Poster {
    type V = PosterModel;

    open spec fn view(&self) -> PosterModel {
        PosterModel {
            posts_today: self.posts_today,
            day: self.day,
            media_id: match self.media_id {
                Some(id) => Some(id@),
                None => None,
            },
        }
    }
}

/// The wait after a post attempt, before the next one: the rejection pause
/// after a rejection, the minimal interval otherwise.
pub open spec fn pause_after(outcome: OutcomeModel) -> u64 {
    match outcome {
        OutcomeModel::Rejected { status, .. } => rejection_pause(status),
        _ => MIN_INTERVAL_SECS,
    }
}

/// Posts are spaced: every attempt is followed by at least
/// `MIN_INTERVAL_SECS`, and by `RATE_LIMIT_PAUSE_SECS` more exactly when the
/// service answered 429.
pub proof fn lemma_pause_after(outcome: OutcomeModel)
    ensures
        MIN_INTERVAL_SECS <= pause_after(outcome),
        pause_after(outcome) == MIN_INTERVAL_SECS + RATE_LIMIT_PAUSE_SECS <==> (outcome matches OutcomeModel::Rejected {
            status,
            ..
        } && status == STATUS_TOO_MANY_REQUESTS),
        pause_after(outcome) == MIN_INTERVAL_SECS || pause_after(outcome) == MIN_INTERVAL_SECS + RATE_LIMIT_PAUSE_SECS,
{
}

/// Moving to the day of Unix time `secs`: a new day starts the count again.
pub open spec fn rolled(p: PosterModel, secs: u64) -> PosterModel {
    if secs / SECS_PER_DAY != p.day {
        PosterModel { posts_today: 0, day: secs / SECS_PER_DAY, media_id: p.media_id }
    } else {
        p
    }
}

/// Recording how the service answered a post.
pub open spec fn recorded(p: PosterModel, outcome: OutcomeModel) -> PosterModel {
    match outcome {
        OutcomeModel::Posted => PosterModel { posts_today: (p.posts_today + 1) as u32, ..p },
        OutcomeModel::Rejected { body, .. } => if media_went_stale(body) {
            PosterModel { media_id: None, ..p }
        } else {
            p
        },
        OutcomeModel::RequestFailed => p,
    }
}

/// One payload handled by the posting loop at Unix time `secs`: move to that
/// day (on a new day the picture is uploaded again, and `upload` is the id
/// that upload gave, if it succeeded); then drop the payload when the day's
/// budget is spent, or post it and record `outcome`. The second component
/// says whether the payload was dropped.
pub open spec fn round(p: PosterModel, secs: u64, upload: Option<Seq<char>>, outcome: OutcomeModel) -> (PosterModel, bool) {
    let q = rolled(p, secs);
    let q = if secs / SECS_PER_DAY != p.day && GIF_ENABLED && upload is Some {
        PosterModel { media_id: upload, ..q }
    } else {
        q
    };
    if q.posts_today >= MAX_POSTS_PER_DAY {
        (q, true)
    } else {
        (recorded(q, outcome), false)
    }
}

/// A round of the posting loop: time, upload result and answer.
pub type Round = (u64, Option<Seq<char>>, OutcomeModel);

/// The state after the rounds, in order.
pub open spec fn run_rounds(p: PosterModel, rs: Seq<Round>) -> PosterModel
    decreases rs.len(),
{
    if rs.len() == 0 {
        p
    } else {
        let r = rs.last();
        round(run_rounds(p, rs.drop_last()), r.0, r.1, r.2).0
    }
}

/// How many rounds posted a payload that the service accepted.
pub open spec fn accepted(p: PosterModel, rs: Seq<Round>) -> nat
    decreases rs.len(),
{
    if rs.len() == 0 {
        0
    } else {
        let r = rs.last();
        let before = run_rounds(p, rs.drop_last());
        accepted(p, rs.drop_last()) + if !round(before, r.0, r.1, r.2).1 && r.2 is Posted { 1nat } else { 0 }
    }
}

/// All rounds happen on the day `d`.
pub open spec fn within_day(rs: Seq<Round>, d: u64) -> bool {
    forall|i: int| 0 <= i < rs.len() ==> #[trigger] rs[i].0 / SECS_PER_DAY == d
}

/// The daily cap: within one day, the posts the service accepted add to the
/// day's count, which never passes `MAX_POSTS_PER_DAY`; once it is reached,
/// every further payload of the day is dropped without a request.
pub proof fn lemma_daily_cap(p: PosterModel, rs: Seq<Round>)
    requires
        p.posts_today <= MAX_POSTS_PER_DAY,
        within_day(rs, p.day),
    ensures
        run_rounds(p, rs).posts_today == p.posts_today + accepted(p, rs),
        run_rounds(p, rs).posts_today <= MAX_POSTS_PER_DAY,
        run_rounds(p, rs).day == p.day,
        forall|i: int| 0 <= i < rs.len() && run_rounds(p, rs.take(i)).posts_today >= MAX_POSTS_PER_DAY
            ==> #[trigger] round(run_rounds(p, rs.take(i)), rs[i].0, rs[i].1, rs[i].2).1,
    decreases rs.len(),
{
    if rs.len() > 0 {
        let prev = rs.drop_last();
        assert(within_day(prev, p.day)) by {
            assert forall|i: int| 0 <= i < prev.len() implies #[trigger] prev[i].0 / SECS_PER_DAY == p.day by {
                assert(prev[i] == rs[i]);
            }
        }
        lemma_daily_cap(p, prev);
        assert(rs[rs.len() - 1].0 / SECS_PER_DAY == p.day);
        assert forall|i: int| 0 <= i < rs.len() && run_rounds(p, rs.take(i)).posts_today >= MAX_POSTS_PER_DAY
            implies #[trigger] round(run_rounds(p, rs.take(i)), rs[i].0, rs[i].1, rs[i].2).1 by {
            if i < prev.len() {
                assert(rs.take(i) =~= prev.take(i));
                assert(rs[i] == prev[i]);
            } else {
                assert(rs.take(i) =~= prev);
            }
        }
    }
}

/// A new day starts from an empty count, and a successful upload on that day
/// attaches the new picture.
pub proof fn lemma_new_day(p: PosterModel, secs: u64, upload: Option<Seq<char>>, outcome: OutcomeModel)
    requires
        secs / SECS_PER_DAY != p.day,
    ensures
        round(p, secs, upload, outcome).0.day == secs / SECS_PER_DAY,
        !round(p, secs, upload, outcome).1,
        round(p, secs, upload, outcome).0.posts_today == if outcome is Posted { 1u32 } else { 0u32 },
        upload is Some && !(outcome matches OutcomeModel::Rejected { body, .. } && media_went_stale(body))
            ==> round(p, secs, upload, outcome).0.media_id == upload,
{
}

/// A stale picture stays dropped for the rest of the day: within one day no
/// round attaches a picture again.
pub proof fn lemma_stale_media_stays_dropped(p: PosterModel, rs: Seq<Round>)
    requires
        p.media_id is None,
        within_day(rs, p.day),
    ensures
        run_rounds(p, rs).media_id is None,
        run_rounds(p, rs).day == p.day,
    decreases rs.len(),
{
    if rs.len() > 0 {
        let prev = rs.drop_last();
        assert(within_day(prev, p.day)) by {
            assert forall|i: int| 0 <= i < prev.len() implies #[trigger] prev[i].0 / SECS_PER_DAY == p.day by {
                assert(prev[i] == rs[i]);
            }
        }
        lemma_stale_media_stays_dropped(p, prev);
        assert(rs[rs.len() - 1].0 / SECS_PER_DAY == p.day);
    }
}

/// The JSON body of a post: the text, and the picture's media id when there
/// is one.
pub open spec fn tweet_json(text: Seq<char>, media_id: Option<Seq<char>>) -> Seq<char> {
    "{\"text\":"@ + json_string(text) + match media_id {
        Some(id) => ",\"media\":{\"media_ids\":["@ + json_string(id) + "]}}"@,
        None => "}"@,
    }
}

/// Once the picture is dropped, the posts of the rest of the day go out
/// without one: their bodies hold the text alone.
pub proof fn lemma_stale_media_bodies(p: PosterModel, rs: Seq<Round>, text: Seq<char>)
    requires
        p.media_id is None,
        within_day(rs, p.day),
    ensures
        tweet_json(text, run_rounds(p, rs).media_id) == "{\"text\":"@ + json_string(text) + "}"@,
{
    lemma_stale_media_stays_dropped(p, rs);
}

impl Poster {
    /// The daily budget is never exceeded.
    pub open spec fn wf(&self) -> bool {
        self.posts_today <= MAX_POSTS_PER_DAY
    }

    /// A fresh session at Unix time `unix_secs`: nothing posted, no picture yet.
    pub fn new(unix_secs: u64) -> (p: Poster)
        ensures
            p.wf(),
            p@ == (PosterModel { posts_today: 0, day: unix_secs / SECS_PER_DAY, media_id: None }),
            p.posts_today == 0,
            p.day == unix_secs / SECS_PER_DAY,
            p.media_id is None,
    {
        Poster { posts_today: 0, day: unix_secs / SECS_PER_DAY, media_id: None }
    }

    /// The picture was uploaded when the session started: keep its id and
    /// report the upload.
    pub fn record_initial_upload(&mut self, id: String) -> (a: Action)
        ensures
            final(self)@ == (PosterModel { media_id: Some(id@), ..old(self)@ }),
            final(self).media_id == Some(id),
            final(self).posts_today == old(self).posts_today,
            final(self).day == old(self).day,
            a matches Action::XTx { ok, text } && ok && text@ == "gif uploaded"@,
    {
        self.media_id = Some(id);
        Action::XTx { ok: true, text: String::from_str("gif uploaded") }
    }

    /// A later upload of the picture succeeded: keep its id.
    pub fn record_upload(&mut self, id: String)
        ensures
            final(self)@ == (PosterModel { media_id: Some(id@), ..old(self)@ }),
            final(self).media_id == Some(id),
            final(self).posts_today == old(self).posts_today,
            final(self).day == old(self).day,
    {
        self.media_id = Some(id);
    }

    /// Moves to the day of Unix time `unix_secs`. On a new day the count
    /// starts again from zero and the result asks for a fresh upload of the
    /// picture; on the same day nothing changes.
    pub fn roll_day(&mut self, unix_secs: u64) -> (reupload: bool)
        requires
            old(self).wf(),
        ensures
            final(self)@ == rolled(old(self)@, unix_secs),
            final(self).wf(),
            final(self).media_id == old(self).media_id,
            final(self).day == unix_secs / SECS_PER_DAY,
            unix_secs / SECS_PER_DAY != old(self).day ==> final(self).posts_today == 0 && reupload == GIF_ENABLED,
            unix_secs / SECS_PER_DAY == old(self).day ==> final(self).posts_today == old(self).posts_today && !reupload,
    {
        let today = unix_secs / SECS_PER_DAY;
        if today != self.day {
            self.day = today;
            self.posts_today = 0;
            GIF_ENABLED
        } else {
            false
        }
    }

    /// The text to post for `payload`, or, once the day's budget is spent,
    /// the report that the payload was dropped.
    pub fn prepare(&self, payload: &str) -> (r: Result<String, Action>)
        ensures
            r is Err <==> self.posts_today >= MAX_POSTS_PER_DAY,
            r matches Ok(text) ==> text@ == tweet_text(payload@),
            r matches Err(a) ==> (a matches Action::XTx { ok, text } && !ok && text@ == "daily cap — dropped"@),
    {
        if self.posts_today >= MAX_POSTS_PER_DAY {
            Err(Action::XTx { ok: false, text: String::from_str("daily cap — dropped") })
        } else {
            Ok(compose_tweet(payload))
        }
    }

    /// The JSON body that posts `text`, with the current picture attached
    /// when there is one.
    pub fn tweet_body(&self, text: &str) -> (body: String)
        ensures
            body@ == tweet_json(text@, self@.media_id),
    {
        let mut body = String::from_str("{\"text\":");
        let quoted = json_quote(text);
        body.append(quoted.as_str());
        match &self.media_id {
            Some(id) => {
                let quoted_id = json_quote(id.as_str());
                body.append(",\"media\":{\"media_ids\":[");
                body.append(quoted_id.as_str());
                body.append("]}}");
            },
            None => {
                body.append("}");
            },
        }
        body
    }

    /// Records how the service answered the post of `text`: a success counts
    /// against the budget; a rejection whose body says the media is invalid
    /// drops the picture so that it is uploaded again; a 429 adds the
    /// rate-limit pause.
    pub fn record_response(&mut self, text: String, outcome: PostOutcome) -> (reply: PostReply)
        requires
            old(self).wf(),
            outcome is Posted ==> old(self).posts_today < MAX_POSTS_PER_DAY,
        ensures
            final(self)@ == recorded(old(self)@, outcome@),
            final(self).wf(),
            final(self).day == old(self).day,
            reply.pause_secs == pause_after(outcome@),
            match outcome {
                PostOutcome::Posted => {
                    &&& final(self).posts_today == old(self).posts_today + 1
                    &&& final(self).media_id == old(self).media_id
                    &&& reply.action matches Action::XTx { ok, text: t } && ok && t@ == text@
                    &&& reply.pause_secs == MIN_INTERVAL_SECS
                },
                PostOutcome::Rejected { status, status_text, body } => {
                    &&& final(self).posts_today == old(self).posts_today
                    &&& final(self).media_id == (if media_went_stale(body@) { None } else { old(self).media_id })
                    &&& reply.action matches Action::XTx { ok, text: t } && !ok && t@ == "HTTP "@ + status_text@
                    &&& reply.pause_secs == rejection_pause(status)
                },
                PostOutcome::RequestFailed => {
                    &&& final(self).posts_today == old(self).posts_today
                    &&& final(self).media_id == old(self).media_id
                    &&& reply.action matches Action::XTx { ok, text: t } && !ok && t@ == "request error"@
                    &&& reply.pause_secs == MIN_INTERVAL_SECS
                },
            },
    {
        match outcome {
            PostOutcome::Posted => {
                self.posts_today = self.posts_today + 1;
                PostReply { action: Action::XTx { ok: true, text }, pause_secs: MIN_INTERVAL_SECS }
            },
            PostOutcome::Rejected { status, status_text, body } => {
                if str_contains(body.as_str(), "media") && str_contains(body.as_str(), "invalid") {
                    self.media_id = None;
                }
                let mut t = String::from_str("HTTP ");
                t.append(status_text.as_str());
                let pause = if status == STATUS_TOO_MANY_REQUESTS {
                    MIN_INTERVAL_SECS + RATE_LIMIT_PAUSE_SECS
                } else {
                    MIN_INTERVAL_SECS
                };
                PostReply { action: Action::XTx { ok: false, text: t }, pause_secs: pause }
            },
            PostOutcome::RequestFailed => {
                PostReply {
                    action: Action::XTx { ok: false, text: String::from_str("request error") },
                    pause_secs: MIN_INTERVAL_SECS,
                }
            },
        }
    }
}

} // verus!
