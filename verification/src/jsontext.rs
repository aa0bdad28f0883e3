//! Building JSON text: string escaping and quoted literals.
use vstd::prelude::*;
use vstd::string::StringExecFns;

use crate::text::{chars_vec, push_char};

verus! {

/// The lowercase hex digit for one nibble value.
pub open spec fn hex_digit_char(d: nat) -> char {
    if d == 0 {
        '0'
    } else if d == 1 {
        '1'
    } else if d == 2 {
        '2'
    } else if d == 3 {
        '3'
    } else if d == 4 {
        '4'
    } else if d == 5 {
        '5'
    } else if d == 6 {
        '6'
    } else if d == 7 {
        '7'
    } else if d == 8 {
        '8'
    } else if d == 9 {
        '9'
    } else if d == 10 {
        'a'
    } else if d == 11 {
        'b'
    } else if d == 12 {
        'c'
    } else if d == 13 {
        'd'
    } else if d == 14 {
        'e'
    } else {
        'f'
    }
}

/// How one character appears inside a JSON string literal: quote, backslash
/// and the named control characters get their short escapes, every other
/// control character a four-digit escape, anything else stands as itself.
pub open spec fn escape_char(c: char) -> Seq<char> {
    if c == '"' {
        seq!['\\', '"']
    } else if c == '\\' {
        seq!['\\', '\\']
    } else if c == '\n' {
        seq!['\\', 'n']
    } else if c == '\r' {
        seq!['\\', 'r']
    } else if c == '\t' {
        seq!['\\', 't']
    } else if (c as u32) < 32 {
        seq!['\\', 'u', '0', '0', hex_digit_char((c as u32 / 16) as nat), hex_digit_char(
            (c as u32 % 16) as nat,
        )]
    } else {
        seq![c]
    }
}

/// How a character sequence appears inside a JSON string literal.
pub open spec fn escape(s: Seq<char>) -> Seq<char>
    decreases s.len(),
{
    if s.len() == 0 {
        Seq::empty()
    } else {
        escape(s.drop_last()) + escape_char(s.last())
    }
}

/// A JSON string literal: quotes around the escaped characters.
pub open spec fn quoted(s: Seq<char>) -> Seq<char> {
    seq!['"'] + escape(s) + seq!['"']
}

/// Plain printable text needs no escaping at all.
pub proof fn lemma_escape_plain(s: Seq<char>)
    requires
        forall|i: int|
            0 <= i < s.len() ==> 32 <= (#[trigger] s[i]) as u32 && (s[i] as u32) < 127 && s[i]
                != '"' && s[i] != '\\',
    ensures
        escape(s) == s,
    decreases s.len(),
{
    if s.len() == 0 {
        assert(escape(s) =~= s);
    } else {
        lemma_escape_plain(s.drop_last());
        assert(escape_char(s.last()) =~= seq![s.last()]);
        assert(escape(s) =~= s);
    }
}

fn hex_nibble_char(d: u32) -> (r: char)
    requires
        d < 16,
    ensures
        r == hex_digit_char(d as nat),
{
    if d == 0 {
        '0'
    } else if d == 1 {
        '1'
    } else if d == 2 {
        '2'
    } else if d == 3 {
        '3'
    } else if d == 4 {
        '4'
    } else if d == 5 {
        '5'
    } else if d == 6 {
        '6'
    } else if d == 7 {
        '7'
    } else if d == 8 {
        '8'
    } else if d == 9 {
        '9'
    } else if d == 10 {
        'a'
    } else if d == 11 {
        'b'
    } else if d == 12 {
        'c'
    } else if d == 13 {
        'd'
    } else if d == 14 {
        'e'
    } else {
        'f'
    }
}

/// Append the JSON string literal for `s`.
pub fn push_quoted(out: &mut String, s: &str)
    ensures
        final(out)@ == old(out)@ + quoted(s@),
{
    let ghost start = out@;
    push_char(out, '"');
    let v = chars_vec(s);
    let mut i: usize = 0;
    while i < v.len()
        invariant
            0 <= i <= v@.len(),
            v@ == s@,
            out@ == start + seq!['"'] + escape(v@.subrange(0, i as int)),
        decreases v@.len() - i,
    {
        let c = v[i];
        if c == '"' {
            push_char(out, '\\');
            push_char(out, '"');
        } else if c == '\\' {
            push_char(out, '\\');
            push_char(out, '\\');
        } else if c == '\n' {
            push_char(out, '\\');
            push_char(out, 'n');
        } else if c == '\r' {
            push_char(out, '\\');
            push_char(out, 'r');
        } else if c == '\t' {
            push_char(out, '\\');
            push_char(out, 't');
        } else if (c as u32) < 32 {
            push_char(out, '\\');
            push_char(out, 'u');
            push_char(out, '0');
            push_char(out, '0');
            let n = c as u32;
            push_char(out, hex_nibble_char(n / 16));
            push_char(out, hex_nibble_char(n % 16));
        } else {
            push_char(out, c);
        }
        i = i + 1;
        proof {
            let p = v@.subrange(0, i as int);
            assert(p.drop_last() =~= v@.subrange(0, i as int - 1));
            assert(out@ =~= start + seq!['"'] + escape(p));
        }
    }
    push_char(out, '"');
    proof {
        assert(v@.subrange(0, v@.len() as int) =~= v@);
        assert(out@ =~= start + quoted(s@));
    }
}

} // verus!
