//! Lower-case hexadecimal text of bytes, and its decoding.

use vstd::prelude::*;
use vstd::string::StringSliceAdditionalSpecFns;

verus! {

/// The ASCII code of the lower-case hex digit for `n` (below 16).
pub open spec fn hex_digit(n: int) -> u8 {
    if n < 10 { (48 + n) as u8 } else { (87 + n) as u8 }
}

/// The lower-case hex text of `bytes`, as ASCII codes: two digits per byte, high digit first.
pub open spec fn hex_bytes(bytes: Seq<u8>) -> Seq<u8>
    decreases bytes.len(),
{
    if bytes.len() == 0 {
        Seq::empty()
    } else {
        hex_bytes(bytes.drop_last()).push(hex_digit(bytes.last() as int / 16)).push(hex_digit(bytes.last() as int % 16))
    }
}

/// The same text as characters.
pub open spec fn hex_text(bytes: Seq<u8>) -> Seq<char> {
    hex_bytes(bytes).map_values(|b: u8| b as char)
}

/// The value of a hex digit, either case.
pub open spec fn nibble_value(c: u8) -> Option<u8> {
    if 48 <= c <= 57 {
        Some((c - 48) as u8)
    } else if 97 <= c <= 102 {
        Some((c - 87) as u8)
    } else if 65 <= c <= 70 {
        Some((c - 55) as u8)
    } else {
        None
    }
}

/// The bytes a hex text stands for: none when its length is odd or a character is no hex digit.
pub open spec fn decode_hex_spec(s: Seq<u8>) -> Option<Seq<u8>>
    decreases s.len(),
{
    if s.len() % 2 == 1 {
        None
    } else if s.len() == 0 {
        Some(Seq::empty())
    } else {
        match (nibble_value(s[s.len() - 2]), nibble_value(s[s.len() - 1]), decode_hex_spec(s.take(s.len() - 2))) {
            (Some(h), Some(l), Some(rest)) => Some(rest.push((h * 16 + l) as u8)),
            _ => None,
        }
    }
}

fn hex_digit_exec(n: u8) -> (r: u8)
    requires
        n < 16,
    ensures
        r == hex_digit(n as int),
{
    if n < 10 { 48 + n } else { 87 + n }
}

/// Lower-case hex text of `bytes`.
pub fn hex_encode(bytes: &[u8]) -> (r: String)
    ensures
        r@ == hex_text(bytes@),
{
    let mut out: Vec<char> = Vec::new();
    let ghost mut codes: Seq<u8> = Seq::empty();
    let mut i: usize = 0;
    while i < bytes.len()
        invariant
            i <= bytes@.len(),
            codes == hex_bytes(bytes@.take(i as int)),
            out@ == codes.map_values(|b: u8| b as char),
        decreases bytes@.len() - i,
    {
        let b = bytes[i];
        let hi = hex_digit_exec(b / 16);
        let lo = hex_digit_exec(b % 16);
        out.push(hi as char);
        out.push(lo as char);
        proof {
            assert(bytes@.take(i + 1).drop_last() =~= bytes@.take(i as int));
            assert(bytes@.take(i + 1).last() == b);
            codes = codes.push(hi).push(lo);
            assert(out@ =~= codes.map_values(|b: u8| b as char));
        }
        i = i + 1;
    }
    assert(bytes@.take(bytes@.len() as int) =~= bytes@);
    crate::chars::string_from_chars(out.as_slice())
}

/// The value of one hex digit, either case.
pub fn decode_hex_nibble(value: u8) -> (r: Option<u8>)
    ensures
        r == nibble_value(value),
{
    if 48 <= value && value <= 57 {
        Some(value - 48)
    } else if 97 <= value && value <= 102 {
        Some(value - 87)
    } else if 65 <= value && value <= 70 {
        Some(value - 55)
    } else {
        None
    }
}

proof fn lemma_decode_prefix(s: Seq<u8>, n: int)
    requires
        0 <= n <= s.len(),
        n % 2 == 0,
        decode_hex_spec(s) is Some,
    ensures
        decode_hex_spec(s.take(n)) is Some,
        decode_hex_spec(s.take(n)).unwrap() == decode_hex_spec(s).unwrap().take(n / 2),
    decreases s.len(),
{
    if n == s.len() {
        assert(s.take(n) =~= s);
        lemma_decoded_len(s);
        assert(decode_hex_spec(s).unwrap().take(n / 2) =~= decode_hex_spec(s).unwrap());
    } else {
        let t = s.take(s.len() - 2);
        lemma_decode_prefix(t, n);
        assert(t.take(n) =~= s.take(n));
        lemma_decoded_len(t);
        assert(decode_hex_spec(s).unwrap().take(n / 2) =~= decode_hex_spec(t).unwrap().take(n / 2));
    }
}

proof fn lemma_decoded_len(s: Seq<u8>)
    requires
        decode_hex_spec(s) is Some,
    ensures
        decode_hex_spec(s).unwrap().len() == s.len() / 2,
    decreases s.len(),
{
    if s.len() > 0 {
        lemma_decoded_len(s.take(s.len() - 2));
    }
}

/// The bytes a hex text stands for; refused when its length is odd or a character is no hex digit.
pub fn decode_hex(value: &str) -> (r: Result<Vec<u8>, &'static str>)
    ensures
        match decode_hex_spec(value.spec_bytes()) {
            Some(b) => r matches Ok(v) && v@ == b,
            None => r matches Err(m) && m@ == "invalid signature format"@,
        },
{
    let s = value.as_bytes();
    if s.len() % 2 == 1 {
        return Err("invalid signature format");
    }
    let mut out: Vec<u8> = Vec::new();
    let mut i: usize = 0;
    while i < s.len()
        invariant
            s@ == value.spec_bytes(),
            s@.len() % 2 == 0,
            i <= s@.len(),
            i % 2 == 0,
            decode_hex_spec(s@.take(i as int)) == Some(out@),
        decreases s@.len() - i,
    {
        let high = match decode_hex_nibble(s[i]) {
            Some(h) => h,
            None => {
                proof { lemma_decode_fails_later(s@, i as int + 2); }
                return Err("invalid signature format");
            },
        };
        let low = match decode_hex_nibble(s[i + 1]) {
            Some(l) => l,
            None => {
                proof { lemma_decode_fails_later(s@, i as int + 2); }
                return Err("invalid signature format");
            },
        };
        out.push(high * 16 + low);
        proof {
            let t = s@.take(i + 2);
            assert(t.take(t.len() - 2) =~= s@.take(i as int));
            assert(t[t.len() - 2] == s@[i as int] && t[t.len() - 1] == s@[i + 1]);
        }
        i = i + 2;
    }
    assert(s@.take(s@.len() as int) =~= s@);
    Ok(out)
}

proof fn lemma_decode_fails_later(s: Seq<u8>, n: int)
    requires
        2 <= n <= s.len(),
        n % 2 == 0,
        s.len() % 2 == 0,
        nibble_value(s[n - 2]) is None || nibble_value(s[n - 1]) is None,
    ensures
        decode_hex_spec(s) is None,
{
    if decode_hex_spec(s) is Some {
        lemma_decode_prefix(s, n);
        let t = s.take(n);
        assert(t[t.len() - 2] == s[n - 2] && t[t.len() - 1] == s[n - 1]);
    }
}

/// Decoding the hex text of some bytes gives those bytes back.
pub proof fn lemma_hex_round_trip(bytes: Seq<u8>)
    ensures
        decode_hex_spec(hex_bytes(bytes)) == Some(bytes),
    decreases bytes.len(),
{
    if bytes.len() > 0 {
        let d = bytes.drop_last();
        lemma_hex_round_trip(d);
        lemma_hex_len(d);
        let h = hex_bytes(bytes);
        assert(h.take(h.len() - 2) =~= hex_bytes(d));
        let b = bytes.last();
        assert(nibble_value(hex_digit(b as int / 16)) == Some((b / 16) as u8));
        assert(nibble_value(hex_digit(b as int % 16)) == Some((b % 16) as u8));
        assert(d.push(b) =~= bytes);
    }
}

pub proof fn lemma_hex_len(bytes: Seq<u8>)
    ensures
        hex_bytes(bytes).len() == 2 * bytes.len(),
    decreases bytes.len(),
{
    if bytes.len() > 0 {
        lemma_hex_len(bytes.drop_last());
    }
}

} // verus!
