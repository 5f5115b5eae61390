//! Verified string utilities: decimal formatting and parsing, bearer
//! authorization headers, and push-token validation.

use vstd::prelude::*;
use vstd::string::*;

verus! {

/// The character for a single decimal digit.
pub open spec fn digit_char(d: int) -> char
    recommends
        0 <= d < 10,
{
    ((d + 48) as u8) as char
}

pub open spec fn is_digit_char(c: char) -> bool {
    48 <= c as u32 <= 57
}

/// Decimal digits of `v`, zero-padded on the left to exactly `width` digits
/// (truncating high digits if `v` does not fit).
pub open spec fn dec_padded(v: nat, width: nat) -> Seq<char>
    decreases width,
{
    if width == 0 {
        Seq::empty()
    } else {
        dec_padded(v / 10, (width - 1) as nat).push(digit_char((v % 10) as int))
    }
}

/// Decimal digits of `v` without padding (just "0" for zero).
pub open spec fn dec_str(v: nat) -> Seq<char>
    decreases v,
{
    if v < 10 {
        seq![digit_char(v as int)]
    } else {
        dec_str(v / 10).push(digit_char((v % 10) as int))
    }
}

/// Appends the single decimal digit `d` to `s`.
pub fn append_digit(s: &mut String, d: u8)
    requires
        d < 10,
    ensures
        final(s)@ == old(s)@.push(digit_char(d as int)),
{
    let lit: &str = match d {
        0 => "0",
        1 => "1",
        2 => "2",
        3 => "3",
        4 => "4",
        5 => "5",
        6 => "6",
        7 => "7",
        8 => "8",
        _ => "9",
    };
    proof {
        reveal_strlit("0");
        reveal_strlit("1");
        reveal_strlit("2");
        reveal_strlit("3");
        reveal_strlit("4");
        reveal_strlit("5");
        reveal_strlit("6");
        reveal_strlit("7");
        reveal_strlit("8");
        reveal_strlit("9");
    }
    s.append(lit);
    proof {
        assert(final(s)@ =~= old(s)@.push(digit_char(d as int)));
    }
}

/// Appends `v` to `s` as exactly `width` decimal digits, zero-padded.
pub fn append_dec_padded(s: &mut String, v: u64, width: u8)
    ensures
        final(s)@ == old(s)@ + dec_padded(v as nat, width as nat),
    decreases width,
{
    if width == 0 {
        proof {
            assert(final(s)@ =~= old(s)@ + dec_padded(v as nat, 0));
        }
    } else {
        append_dec_padded(s, v / 10, width - 1);
        append_digit(s, (v % 10) as u8);
        proof {
            assert(final(s)@ =~= old(s)@ + dec_padded(v as nat, width as nat));
        }
    }
}

/// Appends `v` to `s` in decimal without padding.
pub fn append_dec(s: &mut String, v: u64)
    ensures
        final(s)@ == old(s)@ + dec_str(v as nat),
    decreases v,
{
    if v < 10 {
        append_digit(s, v as u8);
        proof {
            assert(final(s)@ =~= old(s)@ + dec_str(v as nat));
        }
    } else {
        append_dec(s, v / 10);
        append_digit(s, (v % 10) as u8);
        proof {
            assert(final(s)@ =~= old(s)@ + dec_str(v as nat));
        }
    }
}

/// `v` rendered in decimal without padding.
pub fn dec_string(v: u64) -> (r: String)
    ensures
        r@ == dec_str(v as nat),
{
    let mut s = String::new();
    append_dec(&mut s, v);
    proof {
        assert(s@ =~= dec_str(v as nat));
    }
    s
}

/// The numeric value of a sequence of decimal digits.
pub open spec fn digits_val(s: Seq<char>) -> nat
    decreases s.len(),
{
    if s.len() == 0 {
        0
    } else {
        digits_val(s.drop_last()) * 10 + (s.last() as u32 - 48) as nat
    }
}

pub open spec fn all_digits(s: Seq<char>) -> bool {
    forall|i: int| 0 <= i < s.len() ==> is_digit_char(#[trigger] s[i])
}

/// What a well-formed six-digit pairing code string denotes, if anything.
pub open spec fn spec_parse_code(s: Seq<char>) -> Option<u32> {
    if s.len() == 6 && all_digits(s) {
        Some(digits_val(s) as u32)
    } else {
        None
    }
}

/// Parses a pairing code: exactly six decimal digits.
pub fn parse_code(s: &str) -> (r: Option<u32>)
    ensures
        r == spec_parse_code(s@),
{
    let n = s.unicode_len();
    if n != 6 {
        return None;
    }
    let mut acc: u32 = 0;
    let mut i: usize = 0;
    while i < 6
        invariant
            0 <= i <= 6,
            s@.len() == 6,
            all_digits(s@.subrange(0, i as int)),
            acc == digits_val(s@.subrange(0, i as int)),
            acc < pow10(i as nat),
        decreases 6 - i,
    {
        let c = s.get_char(i);
        let v = c as u32;
        if v < 48 || v > 57 {
            return None;
        }
        proof {
            assert(s@.subrange(0, i + 1 as int).drop_last() =~= s@.subrange(0, i as int));
            assert(s@.subrange(0, i + 1 as int).last() == s@[i as int]);
            reveal_with_fuel(pow10, 7);
        }
        acc = acc * 10 + (v - 48);
        i = i + 1;
    }
    proof {
        assert(s@.subrange(0, 6) =~= s@);
        reveal_with_fuel(pow10, 7);
    }
    Some(acc)
}

/// Renders a pairing code as its canonical six-digit string.
pub fn format_code(code: u32) -> (r: String)
    requires
        code < 1000000,
    ensures
        r@ == dec_padded(code as nat, 6),
        spec_parse_code(r@) == Some(code),
{
    let mut s = String::new();
    append_dec_padded(&mut s, code as u64, 6);
    proof {
        assert(s@ =~= dec_padded(code as nat, 6));
        lemma_dec_padded_digits(code as nat, 6);
        lemma_dec_padded_val(code as nat, 6);
        reveal_with_fuel(pow10, 7);
        assert(pow10(6) == 1000000);
        assert(s@.len() == 6);
        assert(all_digits(s@));
        assert(digits_val(s@) == code as nat % 1000000);
        assert(code as nat % 1000000 == code as nat);
        assert(spec_parse_code(s@) == Some(code));
    }
    s
}

pub open spec fn pow10(w: nat) -> nat
    decreases w,
{
    if w == 0 {
        1
    } else {
        10 * pow10((w - 1) as nat)
    }
}

/// Zero-padded rendering produces only digits, of the requested width.
pub proof fn lemma_dec_padded_digits(v: nat, width: nat)
    ensures
        dec_padded(v, width).len() == width,
        all_digits(dec_padded(v, width)),
    decreases width,
{
    if width > 0 {
        lemma_dec_padded_digits(v / 10, (width - 1) as nat);
    }
}

/// Parsing a zero-padded rendering recovers the value modulo `10^width`.
pub proof fn lemma_dec_padded_val(v: nat, width: nat)
    ensures
        digits_val(dec_padded(v, width)) == v % pow10(width),
    decreases width,
{
    if width == 0 {
        assert(v % 1 == 0) by (nonlinear_arith);
    } else {
        lemma_dec_padded_val(v / 10, (width - 1) as nat);
        lemma_pow10_positive((width - 1) as nat);
        let s = dec_padded(v, width);
        assert(s.drop_last() =~= dec_padded(v / 10, (width - 1) as nat));
        assert(digits_val(s) == (v / 10) % pow10((width - 1) as nat) * 10 + v % 10);
        lemma_div_mod_decompose(v, pow10((width - 1) as nat));
    }
}

proof fn lemma_div_mod_decompose(v: nat, p: nat)
    requires
        p > 0,
    ensures
        (v / 10) % p * 10 + v % 10 == v % (10 * p),
{
    let q = v as int / 10;
    let r0 = v as int % 10;
    vstd::arithmetic::div_mod::lemma_fundamental_div_mod(v as int, 10);
    vstd::arithmetic::div_mod::lemma_fundamental_div_mod(q, p as int);
    let a = q / (p as int);
    let b = q % (p as int);
    vstd::arithmetic::div_mod::lemma_mod_pos_bound(v as int, 10);
    vstd::arithmetic::div_mod::lemma_mod_pos_bound(q, p as int);
    let d = 10 * (p as int);
    let rr = 10 * b + r0;
    assert(0 <= b < p && 0 <= r0 < 10);
    assert(0 <= rr < d);
    assert(v as int == a * d + rr) by (nonlinear_arith)
        requires
            v as int == 10 * q + r0 && q == (p as int) * a + b && d == 10 * (p as int) && rr == 10
                * b + r0,
    ;
    vstd::arithmetic::div_mod::lemma_fundamental_div_mod_converse(v as int, d, a, rr);
    assert(v % (10 * p) == (v as int) % d);
}

pub proof fn lemma_pow10_positive(w: nat)
    ensures
        pow10(w) > 0,
    decreases w,
{
    if w > 0 {
        lemma_pow10_positive((w - 1) as nat);
    }
}

/// A valid push token for the relay: exactly 64 lowercase hexadecimal
/// characters.
pub open spec fn is_lower_hex_char(c: char) -> bool {
    is_digit_char(c) || (97 <= c as u32 <= 102)
}

pub open spec fn spec_valid_device_token(s: Seq<char>) -> bool {
    s.len() == 64 && forall|i: int| 0 <= i < s.len() ==> is_lower_hex_char(#[trigger] s[i])
}

pub fn is_valid_device_token(token: &str) -> (r: bool)
    ensures
        r == spec_valid_device_token(token@),
{
    let n = token.unicode_len();
    if n != 64 {
        return false;
    }
    let mut i: usize = 0;
    while i < 64
        invariant
            0 <= i <= 64,
            token@.len() == 64,
            forall|j: int| 0 <= j < i ==> is_lower_hex_char(#[trigger] token@[j]),
        decreases 64 - i,
    {
        let c = token.get_char(i);
        let v = c as u32;
        if !(48 <= v && v <= 57 || 97 <= v && v <= 102) {
            return false;
        }
        i = i + 1;
    }
    true
}

/// An authorization header accepted by the API: exactly `Bearer ` followed by
/// the server API key.
pub open spec fn spec_bearer_ok(header: Seq<char>, key: Seq<char>) -> bool {
    header.len() >= 7 && header.subrange(0, 7) == "Bearer "@ && header.skip(7) == key
}

pub fn check_bearer(header: &str, key: &String) -> (r: bool)
    ensures
        r == spec_bearer_ok(header@, key@),
{
    proof {
        reveal_strlit("Bearer ");
    }
    let n = header.unicode_len();
    if n < 7 {
        return false;
    }
    if !(header.get_char(0) == 'B' && header.get_char(1) == 'e' && header.get_char(2) == 'a'
        && header.get_char(3) == 'r' && header.get_char(4) == 'e' && header.get_char(5) == 'r'
        && header.get_char(6) == ' ') {
        proof {
            assert(header@.subrange(0, 7) == "Bearer "@ ==> header@.subrange(0, 7)[0] == 'B'
                && header@.subrange(0, 7)[1] == 'e' && header@.subrange(0, 7)[2] == 'a'
                && header@.subrange(0, 7)[3] == 'r' && header@.subrange(0, 7)[4] == 'e'
                && header@.subrange(0, 7)[5] == 'r' && header@.subrange(0, 7)[6] == ' ');
        }
        return false;
    }
    let rest = header.substring_char(7, n);
    let rest_string = String::from_str(rest);
    let r = rest_string == *key;
    proof {
        assert(header@.subrange(0, 7) =~= "Bearer "@);
        assert(header@.skip(7) =~= header@.subrange(7, header@.len() as int));
    }
    r
}

/// Character-wise string equality.
pub fn str_eq(a: &str, b: &str) -> (r: bool)
    ensures
        r == (a@ == b@),
{
    let sa = String::from_str(a);
    let sb = String::from_str(b);
    sa == sb
}

/// What a boolean setting's text denotes: exactly `true` or `false`.
pub open spec fn spec_parse_bool(s: Seq<char>) -> Option<bool> {
    if s == "true"@ {
        Some(true)
    } else if s == "false"@ {
        Some(false)
    } else {
        None
    }
}

pub fn parse_bool(s: &str) -> (r: Option<bool>)
    ensures
        r == spec_parse_bool(s@),
{
    if str_eq(s, "true") {
        Some(true)
    } else if str_eq(s, "false") {
        Some(false)
    } else {
        None
    }
}

/// What a port setting's text denotes: an optional plus sign, then decimal
/// digits, of value at most 65535 (as the standard integer parse reads it).
pub open spec fn spec_parse_u16(s: Seq<char>) -> Option<u16> {
    let digits = if s.len() >= 1 && s[0] == '+' {
        s.skip(1)
    } else {
        s
    };
    if digits.len() == 0 || !all_digits(digits) {
        None
    } else if digits_val(digits) > 65535 {
        None
    } else {
        Some(digits_val(digits) as u16)
    }
}

pub fn parse_u16(s: &str) -> (r: Option<u16>)
    ensures
        r == spec_parse_u16(s@),
{
    let n = s.unicode_len();
    let start: usize = if n >= 1 && s.get_char(0) == '+' {
        1
    } else {
        0
    };
    let ghost digits = if start == 1 {
        s@.skip(1)
    } else {
        s@
    };
    if n == start {
        return None;
    }
    let mut acc: u32 = 0;
    let mut over: bool = false;
    let mut i: usize = start;
    while i < n
        invariant
            start <= i <= n,
            n == s@.len(),
            start == 1 ==> 1 <= n && s@[0] == '+',
            start == 0 ==> !(s@.len() >= 1 && s@[0] == '+'),
            start == 0 || start == 1,
            digits == (if start == 1 {
                s@.skip(1)
            } else {
                s@
            }),
            all_digits(digits.subrange(0, i - start)),
            !over ==> acc == digits_val(digits.subrange(0, i - start)) && acc <= 65535,
            over ==> digits_val(digits.subrange(0, i - start)) > 65535,
        decreases n - i,
    {
        let c = s.get_char(i);
        let v = c as u32;
        proof {
            let k = i - start as int;
            assert(digits[k] == s@[i as int]);
        }
        if v < 48 || v > 57 {
            return None;
        }
        proof {
            let k = i - start as int;
            assert(digits.subrange(0, k + 1).drop_last() =~= digits.subrange(0, k));
            assert(digits.subrange(0, k + 1).last() == digits[k]);
        }
        if !over {
            let next = acc * 10 + (v - 48);
            if next > 65535 {
                over = true;
            } else {
                acc = next;
            }
        }
        i = i + 1;
    }
    proof {
        assert(digits.subrange(0, n - start) =~= digits);
    }
    if over {
        None
    } else {
        Some(acc as u16)
    }
}

/// The header value the client sends: `Bearer ` followed by the API key.
pub fn bearer_header_value(key: &String) -> (r: String)
    ensures
        r@ == "Bearer "@ + key@,
        spec_bearer_ok(r@, key@),
{
    let mut s = String::from_str("Bearer ");
    s.append(key.as_str());
    proof {
        reveal_strlit("Bearer ");
        assert(s@.subrange(0, 7) =~= "Bearer "@);
        assert(s@.skip(7) =~= key@);
    }
    s
}

} // verus!
