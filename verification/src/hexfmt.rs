//! Hexadecimal text: reading hex digit strings as byte sequences.
use vstd::prelude::*;

verus! {

pub open spec fn is_hex_digit(c: char) -> bool {
    ('0' <= c && c <= '9') || ('a' <= c && c <= 'f') || ('A' <= c && c <= 'F')
}

pub open spec fn hex_val(c: char) -> nat {
    if '0' <= c && c <= '9' {
        (c as nat - '0' as nat) as nat
    } else if 'a' <= c && c <= 'f' {
        (c as nat - 'a' as nat + 10) as nat
    } else {
        (c as nat - 'A' as nat + 10) as nat
    }
}

/// A sequence of hex digit pairs.
pub open spec fn is_hex_seq(s: Seq<char>) -> bool {
    s.len() % 2 == 0 && forall|i: int| 0 <= i < s.len() ==> is_hex_digit(s[i])
}

/// The bytes denoted by a sequence of hex digit pairs, high digit first.
pub open spec fn hex_bytes(s: Seq<char>) -> Seq<u8> {
    Seq::new((s.len() / 2) as nat, |i: int| (hex_val(s[2 * i]) * 16 + hex_val(s[2 * i + 1])) as u8)
}

fn hex_digit_val(c: char) -> (r: Option<u8>)
    ensures
        match r {
            Some(d) => is_hex_digit(c) && d as nat == hex_val(c),
            None => !is_hex_digit(c),
        },
{
    if c >= '0' && c <= '9' {
        Some((c as u32 as u8) - 48)
    } else if c >= 'a' && c <= 'f' {
        Some((c as u32 - 97) as u8 + 10)
    } else if c >= 'A' && c <= 'F' {
        Some((c as u32 - 65) as u8 + 10)
    } else {
        None
    }
}

/// Read a hex digit string as bytes; `None` exactly when the text has odd length
/// or holds a character that is no hex digit.
pub fn decode_hex(s: &str) -> (r: Option<Vec<u8>>)
    ensures
        match r {
            Some(v) => is_hex_seq(s@) && v@ == hex_bytes(s@),
            None => !is_hex_seq(s@),
        },
{
    let v = crate::text::chars_vec(s);
    if v.len() % 2 != 0 {
        return None;
    }
    let mut out: Vec<u8> = Vec::new();
    let mut i: usize = 0;
    while i < v.len()
        invariant
            v@ == s@,
            v@.len() % 2 == 0,
            i % 2 == 0,
            0 <= i <= v@.len(),
            out@.len() == i / 2,
            forall|j: int| 0 <= j < i ==> is_hex_digit(v@[j]),
            forall|k: int|
                0 <= k < out@.len() ==> out@[k] as nat == hex_val(v@[2 * k]) * 16 + hex_val(
                    v@[2 * k + 1],
                ),
        decreases v@.len() - i,
    {
        let hi = match hex_digit_val(v[i]) {
            Some(d) => d,
            None => {
                return None;
            },
        };
        let lo = match hex_digit_val(v[i + 1]) {
            Some(d) => d,
            None => {
                return None;
            },
        };
        out.push(hi * 16 + lo);
        i = i + 2;
    }
    proof {
        assert(out@ =~= hex_bytes(s@));
    }
    Some(out)
}

} // verus!
