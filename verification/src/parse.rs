//! Parsing the raw request body into a raw envelope: a purpose-built JSON
//! reader for the fields this system uses. Unknown fields are skipped as
//! balanced JSON values; required fields that are missing, repeated, or of the
//! wrong type make the whole body malformed.
use vstd::prelude::*;

use crate::envelope::{
    spec_envelope_of_raw, wf_envelope, DecodeError, EnvelopeModel, InteractionEnvelope, RawData,
    RawEnvelope, RawOption, RawValue,
};
use crate::text::{str_eq, utf8_to_string};

verus! {

fn hex_nibble(b: u8) -> (r: Option<u8>)
    ensures
        r matches Option::Some(d) ==> d < 16,
{
    if b >= 48 && b <= 57 {
        Some(b - 48)
    } else if b >= 97 && b <= 102 {
        Some(b - 97 + 10)
    } else if b >= 65 && b <= 70 {
        Some(b - 65 + 10)
    } else {
        None
    }
}

/// A JSON whitespace byte: space, tab, line feed, carriage return.
pub(crate) open spec fn is_ws_byte(b: u8) -> bool {
    b == 32 || b == 9 || b == 10 || b == 13
}

fn skip_ws(s: &[u8], i: usize) -> (j: usize)
    requires
        i <= s@.len(),
    ensures
        i <= j <= s@.len(),
        forall|k: int| i <= k < j ==> is_ws_byte(s@[k]),
        j < s@.len() ==> !is_ws_byte(s@[j as int]),
{
    let mut j = i;
    while j < s.len() && (s[j] == 32 || s[j] == 9 || s[j] == 10 || s[j] == 13)
        invariant
            i <= j <= s@.len(),
            forall|k: int| i <= k < j ==> is_ws_byte(s@[k]),
        decreases s@.len() - j,
    {
        j = j + 1;
    }
    j
}

/// A plain string literal: a quoted run of printable ASCII bytes with no
/// escape and no inner quote, closing at `e`.
pub(crate) open spec fn plain_str_at(s: Seq<u8>, i: int, e: int) -> bool {
    &&& 0 <= i < e < s.len()
    &&& s[i] == 34
    &&& s[e] == 34
    &&& forall|k: int| i < k < e ==> 32 <= #[trigger] s[k] < 127 && s[k] != 34 && s[k] != 92
}

/// The characters that a run of ASCII bytes spells.
pub(crate) open spec fn ascii_chars(b: Seq<u8>) -> Seq<char> {
    b.map_values(|x: u8| x as char)
}

/// Read a JSON string literal starting at `i`, returning its decoded content
/// and the position after the closing quote. A plain ASCII literal reads to
/// exactly its bytes' characters.
fn parse_string_at(s: &[u8], i: usize) -> (r: Option<(String, usize)>)
    requires
        i <= s@.len(),
    ensures
        r matches Option::Some(p) ==> i < p.1 <= s@.len(),
        forall|e: int|
            #[trigger] plain_str_at(s@, i as int, e) ==> (r matches Option::Some(p) && p.0@
                == ascii_chars(s@.subrange(i as int + 1, e)) && p.1 == e + 1),
{
    if i >= s.len() || s[i] != 34 {
        proof {
            assert forall|e: int| plain_str_at(s@, i as int, e) implies false by {
                assert(i < e < s@.len() && s@[i as int] == 34);
            }
        }
        return None;
    }
    let mut out: Vec<u8> = Vec::new();
    let mut j = i + 1;
    while j < s.len()
        invariant
            i < j <= s@.len(),
            s@[i as int] == 34,
            forall|e: int|
                #[trigger] plain_str_at(s@, i as int, e) ==> j <= e && out@ == s@.subrange(
                    i as int + 1,
                    j as int,
                ),
        decreases s@.len() - j,
    {
        let c = s[j];
        if c == 34 {
            proof {
                assert forall|e: int| plain_str_at(s@, i as int, e) implies j == e by {
                    if j < e {
                        assert(s@[j as int] != 34);
                    }
                }
                if exists|e: int| plain_str_at(s@, i as int, e) {
                    let e = choose|e: int| plain_str_at(s@, i as int, e);
                    let bytes = s@.subrange(i as int + 1, e);
                    let chars = ascii_chars(bytes);
                    assert(vstd::utf8::is_ascii_chars(chars)) by {
                        assert forall|t: int| 0 <= t < chars.len() implies '\0' <= #[trigger] chars[t]
                            <= '\u{7f}' by {
                            assert(32 <= bytes[t] < 127);
                        }
                    }
                    vstd::utf8::is_ascii_chars_encode_utf8(chars);
                    assert(vstd::utf8::encode_utf8(chars) =~= out@);
                    vstd::utf8::encode_utf8_valid_utf8(chars);
                    vstd::utf8::encode_utf8_decode_utf8(chars);
                    assert(vstd::utf8::valid_utf8(out@));
                    assert(vstd::utf8::decode_utf8(out@) == chars);
                }
            }
            return match utf8_to_string(&out) {
                Some(st) => Some((st, j + 1)),
                None => None,
            };
        }
        if c == 92 {
            proof {
                assert forall|e: int| plain_str_at(s@, i as int, e) implies false by {
                    if j < e {
                        assert(32 <= s@[j as int] < 127 && s@[j as int] != 34 && s@[j as int]
                            != 92);
                    } else {
                        assert(s@[e] == 34);
                    }
                }
            }
            if j + 1 >= s.len() {
                return None;
            }
            let e = s[j + 1];
            if e == 34 || e == 92 || e == 47 {
                out.push(e);
                j = j + 2;
            } else if e == 110 {
                out.push(10);
                j = j + 2;
            } else if e == 114 {
                out.push(13);
                j = j + 2;
            } else if e == 116 {
                out.push(9);
                j = j + 2;
            } else if e == 98 {
                out.push(8);
                j = j + 2;
            } else if e == 102 {
                out.push(12);
                j = j + 2;
            } else if e == 117 {
                if s.len() - j < 6 {
                    return None;
                }
                let d1 = match hex_nibble(s[j + 2]) {
                    Some(d) => d,
                    None => {
                        return None;
                    },
                };
                let d2 = match hex_nibble(s[j + 3]) {
                    Some(d) => d,
                    None => {
                        return None;
                    },
                };
                let d3 = match hex_nibble(s[j + 4]) {
                    Some(d) => d,
                    None => {
                        return None;
                    },
                };
                let d4 = match hex_nibble(s[j + 5]) {
                    Some(d) => d,
                    None => {
                        return None;
                    },
                };
                let v: u32 = ((d1 as u32) << 12) | ((d2 as u32) << 8) | ((d3 as u32) << 4) | (
                d4 as u32);
                if v >= 0xD800 && v < 0xE000 {
                    return None;
                }
                if v < 0x80 {
                    out.push(#[verifier::truncate] (v as u8));
                } else if v < 0x800 {
                    out.push(0xC0u8 | (#[verifier::truncate] ((v >> 6) as u8)));
                    out.push(0x80u8 | ((#[verifier::truncate] (v as u8)) & 0x3F));
                } else {
                    out.push(0xE0u8 | (#[verifier::truncate] ((v >> 12) as u8)));
                    out.push(0x80u8 | ((#[verifier::truncate] ((v >> 6) as u8)) & 0x3F));
                    out.push(0x80u8 | ((#[verifier::truncate] (v as u8)) & 0x3F));
                }
                j = j + 6;
            } else {
                return None;
            }
        } else {
            out.push(c);
            j = j + 1;
            proof {
                assert forall|e: int| plain_str_at(s@, i as int, e) implies j <= e && out@
                    == s@.subrange(i as int + 1, j as int) by {
                    assert(s@[e] == 34);
                    assert(out@ =~= s@.subrange(i as int + 1, j as int));
                }
            }
        }
    }
    proof {
        assert forall|e: int| plain_str_at(s@, i as int, e) implies false by {
            assert(j <= e && e < s@.len());
        }
    }
    None
}

/// Skip a JSON string literal lexically, without decoding it.
fn skip_string_at(s: &[u8], i: usize) -> (r: Option<usize>)
    requires
        i <= s@.len(),
    ensures
        r matches Option::Some(j) ==> i < j <= s@.len(),
{
    if i >= s.len() || s[i] != 34 {
        return None;
    }
    let mut j = i + 1;
    while j < s.len()
        invariant
            i < j <= s@.len(),
        decreases s@.len() - j,
    {
        let c = s[j];
        if c == 34 {
            return Some(j + 1);
        }
        if c == 92 {
            if j + 1 >= s.len() {
                return None;
            }
            j = j + 2;
        } else {
            j = j + 1;
        }
    }
    None
}

/// A byte that can stand in a JSON number token: digit, sign, point, exponent.
pub(crate) open spec fn is_num_byte(b: u8) -> bool {
    (48 <= b && b <= 57) || b == 45 || b == 43 || b == 46 || b == 101 || b == 69
}

fn is_number_byte(b: u8) -> (r: bool)
    ensures
        r == is_num_byte(b),
{
    (b >= 48 && b <= 57) || b == 45 || b == 43 || b == 46 || b == 101 || b == 69
}

/// Skip a JSON number token: the maximal run of number bytes from `i`.
fn skip_number_at(s: &[u8], i: usize) -> (r: Option<usize>)
    requires
        i <= s@.len(),
    ensures
        match r {
            Option::Some(j) => {
                &&& i < j <= s@.len()
                &&& forall|k: int| i <= k < j ==> is_num_byte(s@[k])
                &&& j == s@.len() || !is_num_byte(s@[j as int])
            },
            Option::None => i == s@.len() || !is_num_byte(s@[i as int]),
        },
{
    if i >= s.len() || !is_number_byte(s[i]) {
        return None;
    }
    let mut j = i + 1;
    while j < s.len() && is_number_byte(s[j])
        invariant
            i < j <= s@.len(),
            forall|k: int| i <= k < j ==> is_num_byte(s@[k]),
        decreases s@.len() - j,
    {
        j = j + 1;
    }
    Some(j)
}

fn expect_lit(s: &[u8], i: usize, w: &[u8]) -> (r: Option<usize>)
    requires
        i <= s@.len(),
        w@.len() > 0,
    ensures
        match r {
            Option::Some(j) => i < j <= s@.len() && j == i + w@.len() && s@.subrange(
                i as int,
                j as int,
            ) == w@,
            Option::None => !(i + w@.len() <= s@.len() && s@.subrange(
                i as int,
                i + w@.len(),
            ) == w@),
        },
{
    let n = s.len();
    let mut k: usize = 0;
    while k < w.len()
        invariant
            0 <= k <= w@.len(),
            n == s@.len(),
            i + k <= n,
            forall|t: int| 0 <= t < k ==> s@[i + t] == w@[t],
        decreases w@.len() - k,
    {
        if i + k >= n || s[i + k] != w[k] {
            proof {
                if i + w@.len() <= s@.len() && s@.subrange(i as int, i + w@.len()) == w@ {
                    assert(s@.subrange(i as int, i + w@.len())[k as int] == w@[k as int]);
                }
            }
            return None;
        }
        k = k + 1;
    }
    proof {
        assert(s@.subrange(i as int, i + w@.len()) =~= w@);
    }
    Some(i + k)
}

/// Skip one JSON value of any shape. Objects and arrays are consumed as
/// balanced brackets, with string content passed over lexically.
fn skip_value_at(s: &[u8], i: usize) -> (r: Option<usize>)
    requires
        i <= s@.len(),
    ensures
        r matches Option::Some(j) ==> i < j <= s@.len(),
{
    if i >= s.len() {
        return None;
    }
    let c = s[i];
    if c == 34 {
        return skip_string_at(s, i);
    }
    if c == 116 {
        return expect_lit(s, i, &[116, 114, 117, 101]);
    }
    if c == 102 {
        return expect_lit(s, i, &[102, 97, 108, 115, 101]);
    }
    if c == 110 {
        return expect_lit(s, i, &[110, 117, 108, 108]);
    }
    if is_number_byte(c) {
        return skip_number_at(s, i);
    }
    if c != 123 && c != 91 {
        return None;
    }
    let mut j = i;
    let mut depth: usize = 0;
    let mut in_str = false;
    while j < s.len()
        invariant
            i <= j <= s@.len(),
        decreases s@.len() - j,
    {
        let b = s[j];
        if in_str {
            if b == 92 {
                if j + 1 >= s.len() {
                    return None;
                }
                j = j + 2;
            } else {
                if b == 34 {
                    in_str = false;
                }
                j = j + 1;
            }
        } else {
            if b == 123 || b == 91 {
                if depth == usize::MAX {
                    return None;
                }
                depth = depth + 1;
                j = j + 1;
            } else if b == 125 || b == 93 {
                if depth <= 1 {
                    return Some(j + 1);
                }
                depth = depth - 1;
                j = j + 1;
            } else if b == 34 {
                in_str = true;
                j = j + 1;
            } else {
                j = j + 1;
            }
        }
    }
    None
}

/// A maximal run of digit bytes from `i` to `e`.
pub(crate) open spec fn digit_run_at(s: Seq<u8>, i: int, e: int) -> bool {
    &&& 0 <= i < e <= s.len()
    &&& forall|k: int| i <= k < e ==> 48 <= #[trigger] s[k] <= 57
    &&& e == s.len() || !is_num_byte(s[e])
}

/// Read a JSON value that must be an unsigned integer, as for the `type`
/// field; anything else is a mismatch. On success the value is exactly the
/// decimal reading of the maximal digit run from `i`, and every digit run
/// whose value fits is read successfully.
#[verifier::loop_isolation(false)]
fn parse_u64_at(s: &[u8], i: usize) -> (r: Option<(u64, usize)>)
    requires
        i <= s@.len(),
    ensures
        r matches Option::Some(p) ==> {
            &&& i < p.1 <= s@.len()
            &&& forall|k: int| i <= k < p.1 ==> 48 <= #[trigger] s@[k] <= 57
            &&& p.1 == s@.len() || !is_num_byte(s@[p.1 as int])
            &&& p.0 as nat == crate::numfmt::dec_val(
                ascii_chars(s@.subrange(i as int, p.1 as int)),
            )
        },
        forall|e: int|
            #[trigger] digit_run_at(s@, i as int, e) && crate::numfmt::dec_val(
                ascii_chars(s@.subrange(i as int, e)),
            ) <= u64::MAX ==> (r matches Option::Some(p) && p.1 == e),
{
    let j = match skip_number_at(s, i) {
        Some(j) => j,
        None => {
            proof {
                assert forall|e: int| digit_run_at(s@, i as int, e) implies false by {
                    assert(is_num_byte(s@[i as int]));
                }
            }
            return None;
        },
    };
    proof {
        assert forall|e: int| digit_run_at(s@, i as int, e) implies j == e by {
            if j < e {
                assert(is_num_byte(s@[j as int]));
            }
            if e < j {
                assert(is_num_byte(s@[e]));
            }
        }
    }
    let mut digits: Vec<char> = Vec::new();
    let mut k = i;
    while k < j
        invariant
            i <= k <= j <= s@.len(),
            digits@.len() == k - i,
            forall|t: int| i <= t < k ==> 48 <= #[trigger] s@[t] <= 57,
            forall|t: int| 0 <= t < k - i ==> digits@[t] == s@[i + t] as char,
        decreases j - k,
    {
        let b = s[k];
        if b < 48 || b > 57 {
            proof {
                assert forall|e: int| digit_run_at(s@, i as int, e) implies false by {
                    assert(j == e);
                    assert(48 <= s@[k as int] <= 57);
                }
            }
            return None;
        }
        digits.push(b as char);
        k = k + 1;
    }
    proof {
        let mapped = ascii_chars(s@.subrange(i as int, j as int));
        assert forall|t: int| 0 <= t < mapped.len() implies digits@[t] == mapped[t] by {
            assert(mapped[t] == s@.subrange(i as int, j as int)[t] as char);
        }
        assert(digits@ =~= mapped);
    }
    match crate::numfmt::parse_u64_digits(&digits) {
        Some(n) => Some((n, j)),
        None => {
            proof {
                assert forall|e: int|
                    digit_run_at(s@, i as int, e) && crate::numfmt::dec_val(
                        ascii_chars(s@.subrange(i as int, e)),
                    ) <= u64::MAX implies false by {
                    assert(j == e);
                    assert forall|t: int| 0 <= t < digits@.len() implies crate::numfmt::is_digit(
                        #[trigger] digits@[t],
                    ) by {
                        assert(48 <= s@[i + t] <= 57);
                        assert(digits@[t] == s@[i + t] as char);
                    }
                    assert(crate::numfmt::is_dec_seq(digits@));
                }
            }
            None
        },
    }
}

/// The word `w` stands in `s` at position `i`.
pub(crate) open spec fn lit_at(s: Seq<u8>, i: int, w: Seq<u8>) -> bool {
    i + w.len() <= s.len() && s.subrange(i, i + w.len()) == w
}

/// The bytes of the JSON word `true`.
pub(crate) open spec fn lit_true() -> Seq<u8> {
    seq![116u8, 114u8, 117u8, 101u8]
}

/// The bytes of the JSON word `false`.
pub(crate) open spec fn lit_false() -> Seq<u8> {
    seq![102u8, 97u8, 108u8, 115u8, 101u8]
}

/// Read a JSON true or false; exactly those two words are accepted.
fn parse_bool_at(s: &[u8], i: usize) -> (r: Option<(bool, usize)>)
    requires
        i <= s@.len(),
    ensures
        match r {
            Option::Some(p) => {
                &&& i < p.1 <= s@.len()
                &&& p.0 ==> lit_at(s@, i as int, lit_true()) && p.1 == i + 4
                &&& !p.0 ==> lit_at(s@, i as int, lit_false()) && p.1 == i + 5
            },
            Option::None => !lit_at(s@, i as int, lit_true()) && !lit_at(
                s@,
                i as int,
                lit_false(),
            ),
        },
{
    proof {
        if lit_at(s@, i as int, lit_true()) {
            assert(s@.subrange(i as int, i + 4)[0] == 116u8);
        }
        if lit_at(s@, i as int, lit_false()) {
            assert(s@.subrange(i as int, i + 5)[0] == 102u8);
        }
    }
    if i < s.len() && s[i] == 116 {
        let w: [u8; 4] = [116, 114, 117, 101];
        proof {
            assert(w@ =~= lit_true());
        }
        match expect_lit(s, i, &w) {
            Some(j) => Some((true, j)),
            None => None,
        }
    } else if i < s.len() && s[i] == 102 {
        let w: [u8; 5] = [102, 97, 108, 115, 101];
        proof {
            assert(w@ =~= lit_false());
        }
        match expect_lit(s, i, &w) {
            Some(j) => Some((false, j)),
            None => None,
        }
    } else {
        None
    }
}

/// Read one member of the options array.
fn parse_option_at(s: &[u8], i: usize) -> (r: Option<(RawOption, usize)>)
    requires
        i <= s@.len(),
    ensures
        r matches Option::Some(p) ==> i < p.1 <= s@.len(),
{
    if i >= s.len() || s[i] != 123 {
        return None;
    }
    let mut opt = RawOption { name: None, focused: None, value: RawValue::RMissing };
    let mut seen_value = false;
    let mut j = skip_ws(s, i + 1);
    if j < s.len() && s[j] == 125 {
        return Some((opt, j + 1));
    }
    while j < s.len()
        invariant
            i < j <= s@.len(),
        decreases s@.len() - j,
    {
        let (key, j2) = match parse_string_at(s, j) {
            Some(p) => p,
            None => {
                return None;
            },
        };
        let mut j3 = skip_ws(s, j2);
        if j3 >= s.len() || s[j3] != 58 {
            return None;
        }
        j3 = skip_ws(s, j3 + 1);
        if str_eq(key.as_str(), "name") {
            if opt.name.is_some() {
                return None;
            }
            let (v, j4) = match parse_string_at(s, j3) {
                Some(p) => p,
                None => {
                    return None;
                },
            };
            opt.name = Some(v);
            j3 = j4;
        } else if str_eq(key.as_str(), "focused") {
            if opt.focused.is_some() {
                return None;
            }
            let (v, j4) = match parse_bool_at(s, j3) {
                Some(p) => p,
                None => {
                    return None;
                },
            };
            opt.focused = Some(v);
            j3 = j4;
        } else if str_eq(key.as_str(), "value") {
            if seen_value {
                return None;
            }
            seen_value = true;
            if j3 < s.len() && s[j3] == 34 {
                let (v, j4) = match parse_string_at(s, j3) {
                    Some(p) => p,
                    None => {
                        return None;
                    },
                };
                opt.value = RawValue::RText(v);
                j3 = j4;
            } else {
                match parse_bool_at(s, j3) {
                    Some((v, j4)) => {
                        opt.value = RawValue::RFlag(v);
                        j3 = j4;
                    },
                    None => {
                        let j4 = match skip_value_at(s, j3) {
                            Some(j4) => j4,
                            None => {
                                return None;
                            },
                        };
                        opt.value = RawValue::ROther;
                        j3 = j4;
                    },
                }
            }
        } else {
            let j4 = match skip_value_at(s, j3) {
                Some(j4) => j4,
                None => {
                    return None;
                },
            };
            j3 = j4;
        }
        let j5 = skip_ws(s, j3);
        if j5 < s.len() && s[j5] == 44 {
            j = skip_ws(s, j5 + 1);
        } else if j5 < s.len() && s[j5] == 125 {
            return Some((opt, j5 + 1));
        } else {
            return None;
        }
    }
    None
}

/// Read the options array.
fn parse_options_at(s: &[u8], i: usize) -> (r: Option<(Vec<RawOption>, usize)>)
    requires
        i <= s@.len(),
    ensures
        r matches Option::Some(p) ==> i < p.1 <= s@.len(),
{
    if i >= s.len() || s[i] != 91 {
        return None;
    }
    let mut out: Vec<RawOption> = Vec::new();
    let mut j = skip_ws(s, i + 1);
    if j < s.len() && s[j] == 93 {
        return Some((out, j + 1));
    }
    while j < s.len()
        invariant
            i < j <= s@.len(),
        decreases s@.len() - j,
    {
        let (o, j2) = match parse_option_at(s, j) {
            Some(p) => p,
            None => {
                return None;
            },
        };
        out.push(o);
        let j3 = skip_ws(s, j2);
        if j3 < s.len() && s[j3] == 44 {
            j = skip_ws(s, j3 + 1);
        } else if j3 < s.len() && s[j3] == 93 {
            return Some((out, j3 + 1));
        } else {
            return None;
        }
    }
    None
}

/// Read the data object: its name and options; other members are skipped.
fn parse_data_at(s: &[u8], i: usize) -> (r: Option<(RawData, usize)>)
    requires
        i <= s@.len(),
    ensures
        r matches Option::Some(p) ==> i < p.1 <= s@.len(),
{
    if i >= s.len() || s[i] != 123 {
        return None;
    }
    let mut data = RawData { name: None, options: None };
    let mut j = skip_ws(s, i + 1);
    if j < s.len() && s[j] == 125 {
        return Some((data, j + 1));
    }
    while j < s.len()
        invariant
            i < j <= s@.len(),
        decreases s@.len() - j,
    {
        let (key, j2) = match parse_string_at(s, j) {
            Some(p) => p,
            None => {
                return None;
            },
        };
        let mut j3 = skip_ws(s, j2);
        if j3 >= s.len() || s[j3] != 58 {
            return None;
        }
        j3 = skip_ws(s, j3 + 1);
        if str_eq(key.as_str(), "name") {
            if data.name.is_some() {
                return None;
            }
            let (v, j4) = match parse_string_at(s, j3) {
                Some(p) => p,
                None => {
                    return None;
                },
            };
            data.name = Some(v);
            j3 = j4;
        } else if str_eq(key.as_str(), "options") {
            if data.options.is_some() {
                return None;
            }
            let (v, j4) = match parse_options_at(s, j3) {
                Some(p) => p,
                None => {
                    return None;
                },
            };
            data.options = Some(v);
            j3 = j4;
        } else {
            let j4 = match skip_value_at(s, j3) {
                Some(j4) => j4,
                None => {
                    return None;
                },
            };
            j3 = j4;
        }
        let j5 = skip_ws(s, j3);
        if j5 < s.len() && s[j5] == 44 {
            j = skip_ws(s, j5 + 1);
        } else if j5 < s.len() && s[j5] == 125 {
            return Some((data, j5 + 1));
        } else {
            return None;
        }
    }
    None
}

/// The canonical wire text of an envelope that carries no data object — a
/// ping, or an envelope of a kind outside the known set.
pub open spec fn nodata_canonical(s: Seq<u8>, m: EnvelopeModel) -> bool {
    &&& (m matches EnvelopeModel::Ping || m matches EnvelopeModel::Other(_))
    &&& wf_envelope(m)
    &&& s == vstd::utf8::encode_utf8(crate::envelope::spec_encode_envelope(m))
}

/// The kind number an envelope model carries.
pub open spec fn kind_num(m: EnvelopeModel) -> u64 {
    match m {
        EnvelopeModel::Ping => crate::envelope::KIND_PING,
        EnvelopeModel::Command(_) => crate::envelope::KIND_COMMAND,
        EnvelopeModel::Autocomplete(_) => crate::envelope::KIND_AUTOCOMPLETE,
        EnvelopeModel::Other(k) => k,
    }
}

/// The byte layout of a canonical data-less envelope: one object whose only
/// member is the kind number under the key `type`.
proof fn lemma_nodata_canonical_bytes(s: Seq<u8>, m: EnvelopeModel)
    requires
        nodata_canonical(s, m),
    ensures
        ({
            let l = crate::numfmt::dec_digits(kind_num(m) as nat).len() as int;
            &&& s.len() == 9 + l
            &&& s[0] == 123
            &&& !is_ws_byte(s[0])
            &&& plain_str_at(s, 1, 6)
            &&& !is_ws_byte(s[1])
            &&& ascii_chars(s.subrange(2, 6)) == "type"@
            &&& s[7] == 58
            &&& !is_ws_byte(s[7])
            &&& !is_ws_byte(s[8])
            &&& digit_run_at(s, 8, 8 + l)
            &&& crate::numfmt::dec_val(ascii_chars(s.subrange(8, 8 + l))) == kind_num(m) as nat
            &&& s[8 + l] == 125
            &&& !is_ws_byte(s[8 + l])
        }),
{
    let k = kind_num(m) as nat;
    let d = crate::numfmt::dec_digits(k);
    let l = d.len() as int;
    let text = crate::envelope::spec_encode_envelope(m);
    reveal_strlit("type");
    assert("type"@.len() == 4);
    assert forall|t: int|
        0 <= t < 4 implies 32 <= (#[trigger] "type"@[t]) as u32 && ("type"@[t] as u32) < 127
        && "type"@[t] != '"' && "type"@[t] != '\\' by {
        if t == 0 {
            assert("type"@[0] == 't');
        } else if t == 1 {
            assert("type"@[1] == 'y');
        } else if t == 2 {
            assert("type"@[2] == 'p');
        } else {
            assert("type"@[3] == 'e');
        }
    }
    crate::jsontext::lemma_escape_plain("type"@);
    crate::numfmt::lemma_dec_digits_are_digits(k);
    let mem = crate::response::member("type"@, d);
    assert(crate::response::join_comma(seq![mem]) == mem);
    assert(text == crate::response::spec_obj(seq![mem]));
    let layout = seq!['{', '"'] + "type"@ + seq!['"', ':'] + d + seq!['}'];
    assert(text =~= layout);
    assert(d.len() >= 1);
    assert(text.len() == 9 + l);
    assert forall|t: int| 0 <= t < text.len() implies '\0' <= #[trigger] text[t]
        <= '\u{7f}' by {
        if 8 <= t < 8 + l {
            assert(crate::numfmt::is_digit(d[t - 8]));
        } else if 2 <= t < 6 {
            assert(32 <= (text[t] as u32) < 127);
        }
    }
    assert(vstd::utf8::is_ascii_chars(text));
    vstd::utf8::is_ascii_chars_encode_utf8(text);
    assert(s.len() == text.len());
    assert(s[0] == '{' as u8);
    assert(s[1] == '"' as u8);
    assert(s[6] == '"' as u8);
    assert(s[7] == ':' as u8);
    assert(s[8 + l] == '}' as u8);
    assert forall|kk: int| 1 < kk < 6 implies 32 <= #[trigger] s[kk] < 127 && s[kk] != 34 && s[kk]
        != 92 by {
        assert(s[kk] == text[kk] as u8);
        assert(32 <= (text[kk] as u32) < 127 && text[kk] != '"' && text[kk] != '\\');
    }
    assert(plain_str_at(s, 1, 6));
    assert forall|t: int| 0 <= t < 4 implies ascii_chars(s.subrange(2, 6))[t] == "type"@[t] by {
        assert(s.subrange(2, 6)[t] == s[2 + t]);
        assert(s[2 + t] == text[2 + t] as u8);
    }
    assert(ascii_chars(s.subrange(2, 6)) =~= "type"@);
    assert forall|t: int| 8 <= t < 8 + l implies 48 <= #[trigger] s[t] <= 57 by {
        assert(s[t] == text[t] as u8);
        assert(text[t] == d[t - 8]);
        assert(crate::numfmt::is_digit(d[t - 8]));
    }
    assert(!is_num_byte(s[8 + l]));
    assert(digit_run_at(s, 8, 8 + l));
    assert forall|t: int| 0 <= t < l implies ascii_chars(s.subrange(8, 8 + l))[t] == d[t] by {
        assert(s.subrange(8, 8 + l)[t] == s[8 + t]);
        assert(s[8 + t] == text[8 + t] as u8);
        assert(text[8 + t] == d[t]);
        assert(crate::numfmt::is_digit(d[t]));
    }
    assert(ascii_chars(s.subrange(8, 8 + l)) =~= d);
    crate::numfmt::lemma_dec_val_of_digits(k);
}

/// Read a whole request body as an envelope's raw form: one top-level object
/// whose `type` and `data` members are kept and whose other members are
/// skipped; trailing content is rejected. The canonical text of a data-less
/// envelope always parses, to fields that read back to that envelope.
#[verifier::loop_isolation(false)]
pub(crate) fn parse_envelope(s: &[u8]) -> (r: Option<RawEnvelope>)
    ensures
        forall|m: EnvelopeModel|
            #[trigger] nodata_canonical(s@, m) ==> (r matches Option::Some(raw)
                && spec_envelope_of_raw(raw) == Result::<EnvelopeModel, DecodeError>::Ok(m)),
{
    proof {
        reveal_strlit("type");
        reveal_strlit("data");
        assert("type"@[0] != "data"@[0]);
        assert forall|m: EnvelopeModel| #[trigger] nodata_canonical(s@, m) implies s@.len() >= 10
            && s@[0] == 123 && !is_ws_byte(s@[0]) && s@[1] == 34 && !is_ws_byte(s@[1]) by {
            lemma_nodata_canonical_bytes(s@, m);
        }
    }
    let mut env = RawEnvelope { kind: None, data: None };
    let mut j = skip_ws(s, 0);
    if j >= s.len() || s[j] != 123 {
        return None;
    }
    j = skip_ws(s, j + 1);
    if j < s.len() && s[j] == 125 {
        let j2 = skip_ws(s, j + 1);
        if j2 == s.len() {
            return Some(env);
        }
        return None;
    }
    proof {
        assert forall|m: EnvelopeModel| #[trigger] nodata_canonical(s@, m) implies j == 1
            && env.kind is None && env.data is None by {
            lemma_nodata_canonical_bytes(s@, m);
        }
    }
    while j < s.len()
        invariant
            0 < j <= s@.len(),
            forall|m: EnvelopeModel|
                #[trigger] nodata_canonical(s@, m) ==> j == 1 && env.kind is None
                    && env.data is None,
        decreases s@.len() - j,
    {
        let (key, j2) = match parse_string_at(s, j) {
            Some(p) => p,
            None => {
                proof {
                    assert forall|m: EnvelopeModel| #[trigger] nodata_canonical(
                        s@,
                        m,
                    ) implies false by {
                        lemma_nodata_canonical_bytes(s@, m);
                    }
                }
                return None;
            },
        };
        proof {
            assert forall|m: EnvelopeModel| #[trigger] nodata_canonical(s@, m) implies key@
                == "type"@ && j2 == 7 by {
                lemma_nodata_canonical_bytes(s@, m);
            }
        }
        let mut j3 = skip_ws(s, j2);
        if j3 >= s.len() || s[j3] != 58 {
            proof {
                assert forall|m: EnvelopeModel| #[trigger] nodata_canonical(s@, m) implies false by {
                    lemma_nodata_canonical_bytes(s@, m);
                }
            }
            return None;
        }
        j3 = skip_ws(s, j3 + 1);
        proof {
            assert forall|m: EnvelopeModel| #[trigger] nodata_canonical(s@, m) implies j3 == 8 by {
                lemma_nodata_canonical_bytes(s@, m);
            }
        }
        if str_eq(key.as_str(), "type") {
            if env.kind.is_some() {
                return None;
            }
            let (v, j4) = match parse_u64_at(s, j3) {
                Some(p) => p,
                None => {
                    proof {
                        assert forall|m: EnvelopeModel| #[trigger] nodata_canonical(
                            s@,
                            m,
                        ) implies false by {
                            lemma_nodata_canonical_bytes(s@, m);
                        }
                    }
                    return None;
                },
            };
            env.kind = Some(v);
            j3 = j4;
            proof {
                assert forall|m: EnvelopeModel| #[trigger] nodata_canonical(s@, m) implies v
                    == kind_num(m) && j3 == 8 + crate::numfmt::dec_digits(
                    kind_num(m) as nat,
                ).len() by {
                    lemma_nodata_canonical_bytes(s@, m);
                    assert(v as nat == kind_num(m) as nat);
                }
            }
        } else if str_eq(key.as_str(), "data") {
            if env.data.is_some() {
                return None;
            }
            let (v, j4) = match parse_data_at(s, j3) {
                Some(p) => p,
                None => {
                    return None;
                },
            };
            env.data = Some(v);
            j3 = j4;
        } else {
            let j4 = match skip_value_at(s, j3) {
                Some(j4) => j4,
                None => {
                    return None;
                },
            };
            j3 = j4;
        }
        let j5 = skip_ws(s, j3);
        proof {
            assert forall|m: EnvelopeModel| #[trigger] nodata_canonical(s@, m) implies j5 == 8
                + crate::numfmt::dec_digits(kind_num(m) as nat).len() && s@[j5 as int] == 125
                && env.kind == Option::Some(kind_num(m)) && env.data is None by {
                lemma_nodata_canonical_bytes(s@, m);
            }
        }
        if j5 < s.len() && s[j5] == 44 {
            j = skip_ws(s, j5 + 1);
            proof {
                assert forall|m: EnvelopeModel| #[trigger] nodata_canonical(s@, m) implies false by {
                    lemma_nodata_canonical_bytes(s@, m);
                }
            }
        } else if j5 < s.len() && s[j5] == 125 {
            let j6 = skip_ws(s, j5 + 1);
            if j6 == s.len() {
                proof {
                    assert forall|m: EnvelopeModel| #[trigger] nodata_canonical(
                        s@,
                        m,
                    ) implies spec_envelope_of_raw(env) == Result::<
                        EnvelopeModel,
                        DecodeError,
                    >::Ok(m) by {
                        lemma_nodata_canonical_bytes(s@, m);
                        assert(env.kind == Option::Some(kind_num(m)));
                        match m {
                            EnvelopeModel::Ping => {},
                            EnvelopeModel::Other(k) => {},
                            _ => {},
                        }
                    }
                }
                return Some(env);
            }
            proof {
                assert forall|m: EnvelopeModel| #[trigger] nodata_canonical(s@, m) implies false by {
                    lemma_nodata_canonical_bytes(s@, m);
                }
            }
            return None;
        } else {
            proof {
                assert forall|m: EnvelopeModel| #[trigger] nodata_canonical(s@, m) implies false by {
                    lemma_nodata_canonical_bytes(s@, m);
                }
            }
            return None;
        }
    }
    None
}

/// Decode a raw request body into a typed envelope. Every structural fault —
/// text that is not one JSON object, a missing or repeated required field, a
/// wrong field type, an empty command name, a repeated option name — yields
/// `DecodeError::Malformed`; the result of a successful decode is well formed,
/// and is exactly the reading that `spec_envelope_of_raw` gives the parsed
/// raw fields. The canonical text of a data-less envelope — a ping, or an
/// envelope of an unknown kind — always decodes back to that very envelope.
pub fn decode(body: &[u8]) -> (r: Result<InteractionEnvelope, DecodeError>)
    ensures
        r matches Result::Ok(e) ==> wf_envelope(e@),
        forall|m: EnvelopeModel|
            #[trigger] nodata_canonical(body@, m) ==> (r matches Result::Ok(e) && e@ == m),
{
    let raw = match parse_envelope(body) {
        Some(raw) => raw,
        None => {
            return Result::Err(DecodeError::Malformed);
        },
    };
    let ghost g = raw;
    let r = crate::envelope::envelope_of_raw(raw);
    proof {
        if spec_envelope_of_raw(g) is Ok {
            let m = spec_envelope_of_raw(g)->Ok_0;
            assert(wf_envelope(m));
        }
    }
    r
}

} // verus!
