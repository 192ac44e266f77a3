//! Shaping payloads for the Meshtastic radio and reading what it receives.
use vstd::prelude::*;
use vstd::string::*;
use vstd::utf8::*;
use crate::action::Action;
use crate::text::{hex_lower_fixed, push_char, push_hex_lower_fixed};

verus! {

/// Channel index the payloads go out on (0 = DEFCONnect, 1 = HackerComms, 2 = NodeChat).
pub const MESH_CHANNEL: u32 = 0;

/// Wait before trying the radio again after it went away, in seconds.
pub const RECONNECT_DELAY_SECS: u64 = 5;

/// LoRa text payloads top out around 230 bytes; stay well under.
pub const MAX_PAYLOAD_BYTES: usize = 200;

/// Meshtastic port number of plain text messages (`PortNum::TextMessageApp`).
pub const TEXT_MESSAGE_APP: i32 = 1;

/// The largest character boundary of `bytes` that is at most `k` (0 when `k <= 0`).
pub open spec fn boundary_at_most(bytes: Seq<u8>, k: int) -> int
    decreases k,
{
    if k <= 0 {
        0
    } else if is_char_boundary(bytes, k) {
        k
    } else {
        boundary_at_most(bytes, k - 1)
    }
}

/// A payload as it is sent: unchanged when its UTF-8 form fits in
/// `MAX_PAYLOAD_BYTES`, otherwise its longest prefix of whole characters that
/// fits, followed by an ellipsis.
pub open spec fn truncated(s: Seq<char>) -> Seq<char> {
    let bytes = encode_utf8(s);
    if bytes.len() <= MAX_PAYLOAD_BYTES {
        s
    } else {
        decode_utf8(bytes.take(boundary_at_most(bytes, MAX_PAYLOAD_BYTES as int))).push('…')
    }
}

/// Cuts a payload to the radio's size, on a character boundary.
pub fn truncate_payload(s: &str) -> (out: String)
    ensures
        out@ == truncated(s@),
{
    proof {
        encode_utf8_valid_utf8(s@);
    }
    let nbytes = s.as_bytes().len();
    if nbytes <= MAX_PAYLOAD_BYTES {
        return String::from_str(s);
    }
    let ghost bytes = s.spec_bytes();
    let mut end = MAX_PAYLOAD_BYTES;
    while !s.is_char_boundary(end)
        invariant
            bytes == s.spec_bytes(),
            valid_utf8(bytes),
            0 <= end <= MAX_PAYLOAD_BYTES,
            MAX_PAYLOAD_BYTES < bytes.len(),
            boundary_at_most(bytes, end as int) == boundary_at_most(bytes, MAX_PAYLOAD_BYTES as int),
        decreases end,
    {
        assert(end != 0);
        end -= 1;
    }
    assert(boundary_at_most(bytes, end as int) == end);
    let (head, _) = s.split_at(end);
    proof {
        encode_utf8_decode_utf8(head@);
        assert(bytes.take(end as int) =~= bytes.subrange(0, end as int));
    }
    let mut out = String::from_str(head);
    push_char(&mut out, '…');
    out
}

/// The UTF-8 encoding of a concatenation is the concatenation of the encodings.
proof fn lemma_encode_utf8_concat(a: Seq<char>, b: Seq<char>)
    ensures
        encode_utf8(a + b) == encode_utf8(a) + encode_utf8(b),
    decreases a.len(),
{
    if a.len() == 0 {
        assert(a + b =~= b);
        assert(Seq::<u8>::empty() + encode_utf8(b) =~= encode_utf8(b));
    } else {
        assert((a + b).drop_first() =~= a.drop_first() + b);
        assert((a + b)[0] == a[0]);
        lemma_encode_utf8_concat(a.drop_first(), b);
        assert(encode_utf8(a + b) =~= encode_utf8(a) + encode_utf8(b));
    }
}

/// The cut point is a character boundary no later than `k`.
proof fn lemma_boundary_at_most(bytes: Seq<u8>, k: int)
    requires
        valid_utf8(bytes),
        k <= bytes.len(),
    ensures
        0 <= boundary_at_most(bytes, k),
        k >= 0 ==> boundary_at_most(bytes, k) <= k,
        is_char_boundary(bytes, boundary_at_most(bytes, k)),
    decreases k,
{
    if k <= 0 {
        is_char_boundary_start_end_of_seq(bytes);
    } else if !is_char_boundary(bytes, k) {
        lemma_boundary_at_most(bytes, k - 1);
    }
}

/// In valid UTF-8, a character boundary lies at most three bytes before any
/// position: a character takes at most four bytes.
proof fn lemma_boundary_within_three(bytes: Seq<u8>, index: int) -> (j: int)
    requires
        valid_utf8(bytes),
        0 <= index <= bytes.len(),
    ensures
        0 <= j <= index,
        index - 3 <= j,
        is_char_boundary(bytes, j),
    decreases bytes.len(),
{
    if index <= 3 {
        0
    } else {
        let l = length_of_first_scalar(bytes);
        let tail = pop_first_scalar(bytes);
        assert(1 <= l <= 4 && l <= bytes.len());
        assert(tail.len() == bytes.len() - l);
        let j2 = lemma_boundary_within_three(tail, index - l);
        assert(is_char_boundary(bytes, j2 + l) == is_char_boundary(tail, j2));
        j2 + l
    }
}

/// The largest boundary at most `k` is no earlier than any boundary at most `k`.
proof fn lemma_boundary_at_most_maximal(bytes: Seq<u8>, k: int, j: int)
    requires
        valid_utf8(bytes),
        0 <= j <= k,
        is_char_boundary(bytes, j),
    ensures
        j <= boundary_at_most(bytes, k),
    decreases k,
{
    if k > 0 && !is_char_boundary(bytes, k) {
        lemma_boundary_at_most_maximal(bytes, k - 1, j);
    }
}

/// The ellipsis takes the three bytes E2 80 A6 in UTF-8.
proof fn lemma_ellipsis_utf8()
    ensures
        encode_utf8(seq!['…']) == seq![0xE2u8, 0x80u8, 0xA6u8],
{
    assert(('…' as u32) == 0x2026u32);
    assert(!has_width_1_encoding(0x2026u32) && !has_width_2_encoding(0x2026u32) && has_width_3_encoding(0x2026u32));
    assert(leading_byte_width_3(0x2026u32) == 0xE2u8) by (bit_vector);
    assert(second_last_continuation_byte(0x2026u32) == 0x80u8) by (bit_vector);
    assert(last_continuation_byte(0x2026u32) == 0xA6u8) by (bit_vector);
    assert(seq!['…'].drop_first() =~= Seq::<char>::empty());
    assert(encode_utf8(seq!['…']) =~= encode_scalar(0x2026u32) + encode_utf8(Seq::<char>::empty()));
    assert(encode_utf8(seq!['…']) =~= seq![0xE2u8, 0x80u8, 0xA6u8]);
}

/// What a cut does: it keeps the first `e` bytes, 197 <= e <= 200, which are
/// whole characters of the payload, and adds the ellipsis.
proof fn lemma_cut(s: Seq<char>)
    requires
        encode_utf8(s).len() > MAX_PAYLOAD_BYTES,
    ensures
        ({
            let bytes = encode_utf8(s);
            let e = boundary_at_most(bytes, MAX_PAYLOAD_BYTES as int);
            let p = decode_utf8(bytes.take(e));
            &&& MAX_PAYLOAD_BYTES - 3 <= e <= MAX_PAYLOAD_BYTES
            &&& encode_utf8(p) == bytes.take(e)
            &&& p == s.take(p.len() as int)
            &&& truncated(s) == p.push('…')
            &&& encode_utf8(truncated(s)) == bytes.take(e) + seq![0xE2u8, 0x80u8, 0xA6u8]
        }),
{
    let bytes = encode_utf8(s);
    encode_utf8_valid_utf8(s);
    let m = MAX_PAYLOAD_BYTES as int;
    let e = boundary_at_most(bytes, m);
    lemma_boundary_at_most(bytes, m);
    let j = lemma_boundary_within_three(bytes, m);
    lemma_boundary_at_most_maximal(bytes, m, j);
    let head = bytes.subrange(0, e);
    assert(bytes.take(e) =~= head);
    valid_utf8_split(bytes, e);
    let p = decode_utf8(head);
    decode_utf8_encode_utf8(head);
    let t = p.push('…');
    assert(t =~= p + seq!['…']);
    lemma_encode_utf8_concat(p, seq!['…']);
    lemma_ellipsis_utf8();
    decode_utf8_split(bytes, e);
    encode_utf8_decode_utf8(s);
    assert(s =~= p + decode_utf8(bytes.subrange(e, bytes.len() as int)));
    assert(p =~= s.take(p.len() as int));
}

/// A payload as sent fits the radio: its UTF-8 form is at most
/// `MAX_PAYLOAD_BYTES` bytes plus the three bytes of the ellipsis, well under
/// the ~230-byte limit of LoRa text. A cut payload is a prefix of the original
/// followed by the ellipsis, and the prefix keeps all but at most three of the
/// `MAX_PAYLOAD_BYTES` bytes.
pub proof fn lemma_truncated_fits(s: Seq<char>)
    ensures
        encode_utf8(truncated(s)).len() <= MAX_PAYLOAD_BYTES + 3,
        encode_utf8(s).len() <= MAX_PAYLOAD_BYTES ==> truncated(s) == s,
        encode_utf8(s).len() > MAX_PAYLOAD_BYTES ==> {
            let t = truncated(s);
            &&& t.len() >= 1
            &&& t.last() == '…'
            &&& t.drop_last() == s.take(t.len() - 1)
            &&& MAX_PAYLOAD_BYTES - 3 <= encode_utf8(t.drop_last()).len() <= MAX_PAYLOAD_BYTES
        },
{
    if encode_utf8(s).len() > MAX_PAYLOAD_BYTES {
        lemma_cut(s);
        let bytes = encode_utf8(s);
        let e = boundary_at_most(bytes, MAX_PAYLOAD_BYTES as int);
        let p = decode_utf8(bytes.take(e));
        assert(truncated(s).drop_last() =~= p);
    }
}

/// Cutting a payload twice cuts it once: a payload as sent goes out unchanged
/// when it is cut again.
pub proof fn lemma_truncate_idempotent(s: Seq<char>)
    ensures
        truncated(truncated(s)) == truncated(s),
{
    if encode_utf8(s).len() > MAX_PAYLOAD_BYTES {
        lemma_cut(s);
        let bytes = encode_utf8(s);
        let m = MAX_PAYLOAD_BYTES as int;
        let e = boundary_at_most(bytes, m);
        let p = decode_utf8(bytes.take(e));
        let t = truncated(s);
        let tb = encode_utf8(t);
        if tb.len() > MAX_PAYLOAD_BYTES {
            encode_utf8_valid_utf8(t);
            assert(tb.len() == e + 3);
            assert(tb[e] == 0xE2u8 && tb[e + 1] == 0x80u8 && tb[e + 2] == 0xA6u8);
            is_char_boundary_iff_not_is_continuation_byte(tb, e);
            is_char_boundary_iff_not_is_continuation_byte(tb, e + 1);
            is_char_boundary_iff_not_is_continuation_byte(tb, e + 2);
            assert(boundary_at_most(tb, e) == e);
            if e + 1 <= m {
                assert(boundary_at_most(tb, e + 1) == e);
            }
            if e + 2 <= m {
                assert(boundary_at_most(tb, e + 2) == e);
            }
            assert(boundary_at_most(tb, m) == e);
            assert(tb.take(e) =~= bytes.take(e));
        }
    }
}

/// How a node id reads: `!` and eight lower-case hexadecimal digits.
pub open spec fn node_label_text(num: u32) -> Seq<char> {
    seq!['!'] + hex_lower_fixed(num as nat, 8)
}

/// The label of node `num`, as `format!("!{:08x}", num)` writes it.
pub fn node_label(num: u32) -> (label: String)
    ensures
        label@ == node_label_text(num),
{
    let mut s = String::new();
    push_char(&mut s, '!');
    push_hex_lower_fixed(&mut s, num as u64, 8);
    s
}

/// Names the text that lossy UTF-8 decoding gives for `bytes`.
pub uninterp spec fn utf8_lossy(bytes: Seq<u8>) -> Seq<char>;

/// Decodes bytes as UTF-8, replacing invalid sequences.
///
/// Trusted: calls `String::from_utf8_lossy` from std. The contract claims that
/// the text is the named decoding of the input and, as std documents, that
/// valid UTF-8 is decoded as it is; how invalid sequences are replaced is not
/// stated.
#[verifier::external_body]
fn lossy_text(bytes: &[u8]) -> (text: String)
    ensures
        text@ == utf8_lossy(bytes@),
        valid_utf8(bytes@) ==> text@ == decode_utf8(bytes@),
{
    String::from_utf8_lossy(bytes).to_string()
}

/// The report of a packet received from the mesh: text messages become a
/// `MeshRx` with the sender's label and the decoded text; packets of other
/// ports are ignored.
pub fn inbound_text(from: u32, portnum: i32, payload: &[u8]) -> (a: Option<Action>)
    ensures
        a is Some <==> portnum == TEXT_MESSAGE_APP,
        a matches Some(act) ==> (act matches Action::MeshRx { from: f, text: t }
            && f@ == node_label_text(from) && t@ == utf8_lossy(payload@)
            && (valid_utf8(payload@) ==> t@ == decode_utf8(payload@))),
{
    if portnum == TEXT_MESSAGE_APP {
        let label = node_label(from);
        let text = lossy_text(payload);
        Some(Action::MeshRx { from: label, text })
    } else {
        None
    }
}

} // verus!
