//! Decimal text: formatting integers as digit strings and reading them back.
use vstd::prelude::*;

use crate::text::push_char;

verus! {

/// The character for one decimal digit value.
pub open spec fn digit_char(d: nat) -> char {
    if d == 0 {
        '0'
    } else if d == 1 {
        '1'
    } else if d == 2 {
        '2'
    } else if d == 3 {
        '3'
    } else if d == 4 {
        '4'
    } else if d == 5 {
        '5'
    } else if d == 6 {
        '6'
    } else if d == 7 {
        '7'
    } else if d == 8 {
        '8'
    } else {
        '9'
    }
}

/// The usual decimal rendering of a natural number, most significant digit first,
/// with no leading zeros (except for zero itself).
pub open spec fn dec_digits(n: nat) -> Seq<char>
    decreases n,
{
    if n < 10 {
        seq![digit_char(n)]
    } else {
        dec_digits(n / 10) + seq![digit_char(n % 10)]
    }
}

/// The decimal rendering of a signed number: a minus sign for negatives.
pub open spec fn dec_digits_signed(n: int) -> Seq<char> {
    if n < 0 {
        seq!['-'] + dec_digits((-n) as nat)
    } else {
        dec_digits(n as nat)
    }
}

pub open spec fn is_digit(c: char) -> bool {
    '0' <= c && c <= '9'
}

pub open spec fn digit_val(c: char) -> nat {
    (c as nat - '0' as nat) as nat
}

/// A non-empty sequence of decimal digits.
pub open spec fn is_dec_seq(s: Seq<char>) -> bool {
    s.len() > 0 && forall|i: int| 0 <= i < s.len() ==> is_digit(s[i])
}

/// The value denoted by a digit sequence (leading zeros allowed).
pub open spec fn dec_val(s: Seq<char>) -> nat
    decreases s.len(),
{
    if s.len() == 0 {
        0
    } else {
        dec_val(s.drop_last()) * 10 + digit_val(s.last())
    }
}

fn digit_to_char(d: u64) -> (r: char)
    requires
        d < 10,
    ensures
        r == digit_char(d as nat),
{
    if d == 0 {
        '0'
    } else if d == 1 {
        '1'
    } else if d == 2 {
        '2'
    } else if d == 3 {
        '3'
    } else if d == 4 {
        '4'
    } else if d == 5 {
        '5'
    } else if d == 6 {
        '6'
    } else if d == 7 {
        '7'
    } else if d == 8 {
        '8'
    } else {
        '9'
    }
}

/// Append the decimal digits of `n` to `s`.
pub fn push_dec_u64(s: &mut String, n: u64)
    ensures
        final(s)@ == old(s)@ + dec_digits(n as nat),
    decreases n,
{
    if n >= 10 {
        push_dec_u64(s, n / 10);
        let d = digit_to_char(n % 10);
        push_char(s, d);
        proof {
            assert(final(s)@ =~= old(s)@ + dec_digits(n as nat));
        }
    } else {
        let d = digit_to_char(n);
        push_char(s, d);
        proof {
            assert(final(s)@ =~= old(s)@ + dec_digits(n as nat));
        }
    }
}

/// The decimal rendering of an unsigned number.
pub fn u64_to_dec(n: u64) -> (r: String)
    ensures
        r@ == dec_digits(n as nat),
{
    let mut s = String::new();
    push_dec_u64(&mut s, n);
    proof {
        assert(s@ =~= dec_digits(n as nat));
    }
    s
}

/// The decimal rendering of a signed number.
pub fn i64_to_dec(n: i64) -> (r: String)
    ensures
        r@ == dec_digits_signed(n as int),
{
    if n < 0 {
        let mut s = String::new();
        push_char(&mut s, '-');
        let wide: i128 = n as i128;
        let mag: u64 = (-wide) as u64;
        push_dec_u64(&mut s, mag);
        proof {
            assert(s@ =~= dec_digits_signed(n as int));
        }
        s
    } else {
        let r = u64_to_dec(n as u64);
        r
    }
}

/// A decimal rendering consists of digits alone.
pub proof fn lemma_dec_digits_are_digits(n: nat)
    ensures
        is_dec_seq(dec_digits(n)),
    decreases n,
{
    if n < 10 {
        assert(is_digit(dec_digits(n)[0]));
    } else {
        lemma_dec_digits_are_digits(n / 10);
        let d = dec_digits(n);
        let p = dec_digits(n / 10);
        assert forall|i: int| 0 <= i < d.len() implies is_digit(d[i]) by {
            if i < p.len() {
                assert(d[i] == p[i]);
            } else {
                assert(d[i] == digit_char(n % 10));
            }
        }
    }
}

/// Reading a decimal rendering back gives the number it renders.
pub proof fn lemma_dec_val_of_digits(n: nat)
    ensures
        dec_val(dec_digits(n)) == n,
    decreases n,
{
    if n < 10 {
        assert(dec_digits(n).drop_last() =~= Seq::<char>::empty());
        assert(dec_val(Seq::<char>::empty()) == 0);
        assert(dec_val(dec_digits(n)) == 0 * 10 + digit_val(dec_digits(n).last()));
        assert(digit_val(digit_char(n)) == n);
    } else {
        lemma_dec_val_of_digits(n / 10);
        assert(dec_digits(n).drop_last() =~= dec_digits(n / 10));
        assert(dec_digits(n).last() == digit_char(n % 10));
        assert(digit_val(digit_char(n % 10)) == n % 10);
        assert((n / 10) * 10 + n % 10 == n) by (nonlinear_arith);
    }
}

proof fn lemma_dec_val_prefix(s: Seq<char>, i: int)
    requires
        0 <= i <= s.len(),
    ensures
        dec_val(s) >= dec_val(s.subrange(0, i)),
    decreases s.len() - i,
{
    if i < s.len() {
        lemma_dec_val_prefix(s, i + 1);
        let a = s.subrange(0, i);
        let b = s.subrange(0, i + 1);
        assert(b.drop_last() =~= a);
        assert(dec_val(b) == dec_val(a) * 10 + digit_val(b.last()));
        assert(dec_val(a) * 10 >= dec_val(a)) by (nonlinear_arith);
    } else {
        assert(s.subrange(0, i) =~= s);
    }
}

/// Read an unsigned decimal number from a digit sequence; `None` exactly when the
/// text is not all digits, is empty, or denotes a value above `u64::MAX`.
pub fn parse_u64_digits(v: &Vec<char>) -> (r: Option<u64>)
    ensures
        match r {
            Some(n) => is_dec_seq(v@) && n as nat == dec_val(v@),
            None => !is_dec_seq(v@) || dec_val(v@) > u64::MAX,
        },
{
    if v.len() == 0 {
        return None;
    }
    let mut acc: u64 = 0;
    let mut i: usize = 0;
    while i < v.len()
        invariant
            0 <= i <= v@.len(),
            forall|j: int| 0 <= j < i ==> is_digit(v@[j]),
            acc as nat == dec_val(v@.subrange(0, i as int)),
        decreases v@.len() - i,
    {
        let c = v[i];
        if c < '0' || c > '9' {
            return None;
        }
        let d: u64 = (c as u32 as u64) - 48;
        proof {
            assert(is_digit(v@[i as int]));
            assert(d == digit_val(v@[i as int]));
        }
        if acc > (u64::MAX - d) / 10 {
            proof {
                let p = v@.subrange(0, i as int + 1);
                assert(p.drop_last() =~= v@.subrange(0, i as int));
                assert(dec_val(p) == acc * 10 + d);
                assert(acc * 10 + d > u64::MAX) by (nonlinear_arith)
                    requires
                        acc > (u64::MAX - d) / 10,
                        d < 10,
                ;
                lemma_dec_val_prefix(v@, i as int + 1);
            }
            return None;
        }
        proof {
            assert(acc * 10 + d <= u64::MAX) by (nonlinear_arith)
                requires
                    acc <= (u64::MAX - d) / 10,
                    d < 10,
            ;
        }
        let next: u64 = acc * 10 + d;
        proof {
            let p = v@.subrange(0, i as int + 1);
            assert(p.drop_last() =~= v@.subrange(0, i as int));
            assert(dec_val(p) == acc * 10 + d);
        }
        acc = next;
        i = i + 1;
    }
    proof {
        assert(v@.subrange(0, v@.len() as int) =~= v@);
    }
    Some(acc)
}

} // verus!
