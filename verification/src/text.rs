//! Character-level helpers: moving between `String`, `&str` and `Vec<char>`,
//! and comparing strings by their character sequences.
use vstd::prelude::*;
use vstd::std_specs::iter::IteratorSpec;

verus! {

/// Relies on String::push from std: it appends exactly the given character.
#[verifier::external_body]
pub fn push_char(s: &mut String, c: char)
    ensures
        final(s)@ == old(s)@.push(c),
{
    s.push(c);
}

/// Collect the characters of a string slice into a vector.
pub fn chars_vec(s: &str) -> (r: Vec<char>)
    ensures
        r@ == s@,
{
    broadcast use vstd::string::axiom_spec_iter, vstd::string::next_postcondition;

    let mut it = s.chars();
    let mut out: Vec<char> = Vec::new();
    proof {
        assert(out@ + it.remaining() =~= s@);
    }
    loop
        invariant
            it.obeys_prophetic_iter_laws(),
            it.decrease() is Some,
            out@ + it.remaining() == s@,
        decreases it.decrease()->0,
    {
        let ghost prev = it.remaining();
        match it.next() {
            Some(c) => {
                out.push(c);
                proof {
                    assert(out@ + it.remaining() =~= s@);
                }
            },
            None => {
                proof {
                    assert(prev.len() == 0);
                    assert(out@ =~= s@);
                }
                return out;
            },
        }
    }
}

/// Build a `String` from a vector of characters.
pub fn string_from_chars(v: &Vec<char>) -> (r: String)
    ensures
        r@ == v@,
{
    let mut s = String::new();
    let mut i: usize = 0;
    while i < v.len()
        invariant
            0 <= i <= v@.len(),
            s@ == v@.subrange(0, i as int),
        decreases v@.len() - i,
    {
        push_char(&mut s, v[i]);
        i = i + 1;
        proof {
            assert(s@ =~= v@.subrange(0, i as int));
        }
    }
    proof {
        assert(v@.subrange(0, v@.len() as int) =~= v@);
    }
    s
}

/// Relies on str::from_utf8 from std: it succeeds exactly on valid UTF-8 input,
/// and the resulting text consists of the characters those bytes encode.
#[verifier::external_body]
pub fn utf8_to_string(v: &Vec<u8>) -> (r: Option<String>)
    ensures
        match r {
            Option::Some(s) => vstd::utf8::valid_utf8(v@) && s@ == vstd::utf8::decode_utf8(v@),
            Option::None => !vstd::utf8::valid_utf8(v@),
        },
{
    match std::str::from_utf8(v.as_slice()) {
        Ok(s) => Some(s.to_string()),
        Err(_) => None,
    }
}

/// Whether two string slices hold the same characters.
pub fn str_eq(a: &str, b: &str) -> (r: bool)
    ensures
        r == (a@ == b@),
{
    let sa = a.to_owned();
    let sb = b.to_owned();
    sa == sb
}

/// Whether `p@` is a prefix of `s@`.
pub fn has_prefix(s: &str, p: &str) -> (r: bool)
    ensures
        r == (s@.len() >= p@.len() && s@.subrange(0, p@.len() as int) == p@),
{
    let sv = chars_vec(s);
    let pv = chars_vec(p);
    if sv.len() < pv.len() {
        return false;
    }
    let mut i: usize = 0;
    while i < pv.len()
        invariant
            0 <= i <= pv@.len() <= sv@.len(),
            sv@ == s@,
            pv@ == p@,
            forall|j: int| 0 <= j < i ==> sv@[j] == pv@[j],
        decreases pv@.len() - i,
    {
        if sv[i] != pv[i] {
            proof {
                assert(s@.subrange(0, p@.len() as int)[i as int] != p@[i as int]);
            }
            return false;
        }
        i = i + 1;
    }
    proof {
        assert(s@.subrange(0, p@.len() as int) =~= p@);
    }
    true
}

} // verus!
