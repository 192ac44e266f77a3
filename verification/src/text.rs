//! Character-level string building blocks with exact specifications.
use vstd::prelude::*;
use vstd::string::*;

verus! {

/// Appends one character to a `String`.
///
/// Trusted: calls `String::push` from std, which appends `c` at the end of
/// the string; the contract claims exactly that of the character view.
#[verifier::external_body]
pub(crate) fn push_char(s: &mut String, c: char)
    ensures
        final(s)@ == old(s)@.push(c),
{
    s.push(c);
}

/// The character of a digit `d < 16`, lower-case for `a`..`f`.
pub open spec fn lower_digit(d: int) -> char {
    if d == 0 { '0' } else if d == 1 { '1' } else if d == 2 { '2' } else if d == 3 { '3' }
    else if d == 4 { '4' } else if d == 5 { '5' } else if d == 6 { '6' } else if d == 7 { '7' }
    else if d == 8 { '8' } else if d == 9 { '9' } else if d == 10 { 'a' } else if d == 11 { 'b' }
    else if d == 12 { 'c' } else if d == 13 { 'd' } else if d == 14 { 'e' } else { 'f' }
}

/// The character of a digit `d < 16`, upper-case for `A`..`F`.
pub open spec fn upper_digit(d: int) -> char {
    if d < 10 { lower_digit(d) } else if d == 10 { 'A' } else if d == 11 { 'B' }
    else if d == 12 { 'C' } else if d == 13 { 'D' } else if d == 14 { 'E' } else { 'F' }
}

pub fn lower_digit_char(d: u64) -> (c: char)
    requires
        d < 16,
    ensures
        c == lower_digit(d as int),
{
    match d {
        0 => '0', 1 => '1', 2 => '2', 3 => '3', 4 => '4', 5 => '5', 6 => '6', 7 => '7',
        8 => '8', 9 => '9', 10 => 'a', 11 => 'b', 12 => 'c', 13 => 'd', 14 => 'e', _ => 'f',
    }
}

pub fn upper_digit_char(d: u8) -> (c: char)
    requires
        d < 16,
    ensures
        c == upper_digit(d as int),
{
    match d {
        0 => '0', 1 => '1', 2 => '2', 3 => '3', 4 => '4', 5 => '5', 6 => '6', 7 => '7',
        8 => '8', 9 => '9', 10 => 'A', 11 => 'B', 12 => 'C', 13 => 'D', 14 => 'E', _ => 'F',
    }
}

/// Decimal notation of `n`, without leading zeros (`"0"` for zero).
pub open spec fn decimal(n: nat) -> Seq<char>
    decreases n,
{
    if n < 10 {
        seq![lower_digit(n as int)]
    } else {
        decimal(n / 10).push(lower_digit((n % 10) as int))
    }
}

/// Lower-case hexadecimal notation of `n`, without leading zeros.
pub open spec fn hex_lower(n: nat) -> Seq<char>
    decreases n,
{
    if n < 16 {
        seq![lower_digit(n as int)]
    } else {
        hex_lower(n / 16).push(lower_digit((n % 16) as int))
    }
}

/// The last `width` lower-case hexadecimal digits of `n`, zero-padded.
pub open spec fn hex_lower_fixed(n: nat, width: nat) -> Seq<char>
    decreases width,
{
    if width == 0 {
        Seq::empty()
    } else {
        hex_lower_fixed(n / 16, (width - 1) as nat).push(lower_digit((n % 16) as int))
    }
}

/// Appends the decimal notation of `n`.
pub fn push_decimal(s: &mut String, n: u64)
    ensures
        final(s)@ == old(s)@ + decimal(n as nat),
    decreases n,
{
    if n >= 10 {
        push_decimal(s, n / 10);
    }
    let d = lower_digit_char(n % 10);
    push_char(s, d);
    proof {
        assert(n < 10 ==> n % 10 == n);
    }
}

/// Appends the lower-case hexadecimal notation of `n`.
pub fn push_hex_lower(s: &mut String, n: u64)
    ensures
        final(s)@ == old(s)@ + hex_lower(n as nat),
    decreases n,
{
    if n >= 16 {
        push_hex_lower(s, n / 16);
    }
    let d = lower_digit_char(n % 16);
    push_char(s, d);
    proof {
        assert(n < 16 ==> n % 16 == n);
    }
}

/// Appends the last `width` lower-case hexadecimal digits of `n`.
pub fn push_hex_lower_fixed(s: &mut String, n: u64, width: u32)
    ensures
        final(s)@ == old(s)@ + hex_lower_fixed(n as nat, width as nat),
    decreases width,
{
    if width > 0 {
        push_hex_lower_fixed(s, n / 16, width - 1);
        let d = lower_digit_char(n % 16);
        push_char(s, d);
    } else {
        assert(old(s)@ + Seq::<char>::empty() =~= old(s)@);
    }
}

/// `p` occurs in `s` starting at position `i`.
pub open spec fn occurs_at(s: Seq<char>, p: Seq<char>, i: int) -> bool {
    0 <= i && i + p.len() <= s.len() && s.subrange(i, i + p.len()) == p
}

/// `p` occurs somewhere in `s` as a contiguous block (the empty `p` always does).
pub open spec fn contains_seq(s: Seq<char>, p: Seq<char>) -> bool {
    exists|i: int| occurs_at(s, p, i)
}

/// The first `n` characters of `t`, or all of `t` when it is shorter.
pub open spec fn first_chars(t: Seq<char>, n: nat) -> Seq<char> {
    if t.len() <= n { t } else { t.take(n as int) }
}

/// Leftmost, non-overlapping replacement of every occurrence of `pat` by `rep`.
pub open spec fn replace_all(s: Seq<char>, pat: Seq<char>, rep: Seq<char>) -> Seq<char>
    decreases s.len(),
{
    if s.len() == 0 {
        Seq::empty()
    } else if pat.len() > 0 && occurs_at(s, pat, 0) {
        rep + replace_all(s.skip(pat.len() as int), pat, rep)
    } else {
        seq![s[0]] + replace_all(s.skip(1), pat, rep)
    }
}

/// Whether `p` occurs in `s` at character position `i`.
fn occurs_at_exec(s: &str, slen: usize, p: &str, plen: usize, i: usize) -> (res: bool)
    requires
        slen == s@.len(),
        plen == p@.len(),
    ensures
        res == occurs_at(s@, p@, i as int),
{
    if i > slen || plen > slen - i {
        return false;
    }
    let mut k: usize = 0;
    while k < plen
        invariant
            slen == s@.len(),
            plen == p@.len(),
            i + plen <= slen,
            k <= plen,
            forall|j: int| 0 <= j < k ==> s@[i + j] == p@[j],
        decreases plen - k,
    {
        if s.get_char(i + k) != p.get_char(k) {
            assert(s@.subrange(i as int, i + plen)[k as int] != p@[k as int]);
            return false;
        }
        k += 1;
    }
    assert(s@.subrange(i as int, i + plen) =~= p@);
    true
}

/// Whether `p` occurs in `s` (as `str::contains` with a string pattern).
pub fn str_contains(s: &str, p: &str) -> (res: bool)
    ensures
        res == contains_seq(s@, p@),
{
    let slen = s.unicode_len();
    let plen = p.unicode_len();
    if plen > slen {
        assert forall|i: int| !occurs_at(s@, p@, i) by {}
        return false;
    }
    let mut i: usize = 0;
    loop
        invariant
            slen == s@.len(),
            plen == p@.len(),
            plen <= slen,
            i <= slen - plen,
            forall|j: int| 0 <= j < i ==> !occurs_at(s@, p@, j),
        ensures
            forall|j: int| 0 <= j <= slen - plen ==> !occurs_at(s@, p@, j),
        decreases slen - plen - i,
    {
        if occurs_at_exec(s, slen, p, plen, i) {
            return true;
        }
        if i == slen - plen {
            break;
        }
        i += 1;
    }
    assert forall|j: int| !occurs_at(s@, p@, j) by {
        if 0 <= j && j + plen <= slen {
            assert(j <= slen - plen);
        }
    }
    false
}

/// The first `n` characters of `s` as a new string (as `s.chars().take(n).collect()`).
pub fn take_chars(s: &str, n: usize) -> (res: String)
    ensures
        res@ == first_chars(s@, n as nat),
{
    let len = s.unicode_len();
    let end = if len <= n { len } else { n };
    let part = s.substring_char(0, end);
    assert(s@.subrange(0, len as int) =~= s@);
    String::from_str(part)
}

/// `s` with every occurrence of `pat` replaced by `rep` (as `str::replace`).
pub fn replace_str(s: &str, pat: &str, rep: &str) -> (res: String)
    requires
        pat@.len() > 0,
    ensures
        res@ == replace_all(s@, pat@, rep@),
{
    let slen = s.unicode_len();
    let plen = pat.unicode_len();
    let mut out = String::new();
    let mut i: usize = 0;
    assert(s@.skip(0) =~= s@);
    assert(Seq::<char>::empty() + s@ =~= s@);
    while i < slen
        invariant
            slen == s@.len(),
            plen == pat@.len(),
            plen > 0,
            i <= slen,
            out@ + replace_all(s@.skip(i as int), pat@, rep@) == replace_all(s@, pat@, rep@),
        decreases slen - i,
    {
        let ghost rest = s@.skip(i as int);
        if occurs_at_exec(s, slen, pat, plen, i) {
            assert(rest.subrange(0, plen as int) =~= s@.subrange(i as int, i + plen));
            assert(rest.skip(plen as int) =~= s@.skip(i + plen));
            out.append(rep);
            i += plen;
            assert(out@ + replace_all(s@.skip(i as int), pat@, rep@)
                =~= (out@.subrange(0, out@.len() - rep@.len()) + rep@) + replace_all(rest.skip(plen as int), pat@, rep@));
        } else {
            assert(!occurs_at(rest, pat@, 0)) by {
                if occurs_at(rest, pat@, 0) {
                    assert(rest.subrange(0, plen as int) =~= s@.subrange(i as int, i + plen));
                }
            }
            let c = s.get_char(i);
            let ghost before = out@;
            push_char(&mut out, c);
            assert(rest.skip(1) =~= s@.skip(i + 1));
            assert(rest[0] == c);
            i += 1;
            assert(before + (seq![c] + replace_all(rest.skip(1), pat@, rep@)) =~= out@ + replace_all(s@.skip(i as int), pat@, rep@));
        }
    }
    assert(s@.skip(slen as int) =~= Seq::<char>::empty());
    assert(out@ + Seq::<char>::empty() =~= out@);
    out
}

} // verus!
