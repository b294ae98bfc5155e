//! Kind names of enveloped types: a type's name in snake_case.
use vstd::prelude::*;
use crate::text::{chars_of, push_char};

verus! {

/// Whether a character has Unicode's Uppercase property (`char::is_uppercase`).
pub uninterp spec fn unicode_is_uppercase(c: char) -> bool;

/// The first character of a character's Unicode lowercase mapping
/// (`char::to_lowercase`).
pub uninterp spec fn unicode_lowercase_first(c: char) -> char;

/// `char::is_uppercase`. On ASCII the Uppercase property holds exactly for
/// `A`..`Z`; beyond ASCII the answer is left to the name.
#[verifier::external_body]
fn is_uppercase(c: char) -> (r: bool)
    ensures
        r == unicode_is_uppercase(c),
        (c as u32) < 0x80 ==> (r <==> ('A' <= c && c <= 'Z')),
{
    c.is_uppercase()
}

/// `char::to_lowercase`, first character of the mapping (which always has at
/// least one). On ASCII it maps `A`..`Z` to `a`..`z` and keeps the rest.
#[verifier::external_body]
fn lowercase_first(c: char) -> (r: char)
    ensures
        r == unicode_lowercase_first(c),
        ('A' <= c && c <= 'Z') ==> r as u32 == c as u32 + 32,
        ((c as u32) < 0x80 && !('A' <= c && c <= 'Z')) ==> r == c,
{
    c.to_lowercase().next().unwrap_or(c)
}

/// A type name in snake_case: every uppercase character becomes its lowercase
/// form, preceded by `_` unless it is the first character.
pub open spec fn snake_case(name: Seq<char>) -> Seq<char>
    decreases name.len(),
{
    if name.len() == 0 {
        Seq::empty()
    } else {
        let prev = snake_case(name.drop_last());
        let c = name.last();
        if unicode_is_uppercase(c) {
            if name.len() > 1 {
                prev.push('_').push(unicode_lowercase_first(c))
            } else {
                prev.push(unicode_lowercase_first(c))
            }
        } else {
            prev.push(c)
        }
    }
}

/// Whether every character is ASCII.
pub open spec fn all_ascii(s: Seq<char>) -> bool {
    forall|i: int| 0 <= i < s.len() ==> (#[trigger] s[i] as u32) < 0x80
}

/// An ASCII letter `A`..`Z` as its lowercase letter.
pub open spec fn ascii_lower_letter(c: char) -> char {
    ((c as u32) + 32) as char
}

/// snake_case of an ASCII name: each of `A`..`Z` becomes its lowercase
/// letter, preceded by `_` unless it is the first character; every other
/// character stays.
pub open spec fn ascii_snake_case(name: Seq<char>) -> Seq<char>
    decreases name.len(),
{
    if name.len() == 0 {
        Seq::empty()
    } else {
        let prev = ascii_snake_case(name.drop_last());
        let c = name.last();
        if 'A' <= c && c <= 'Z' {
            if name.len() > 1 {
                prev.push('_').push(ascii_lower_letter(c))
            } else {
                prev.push(ascii_lower_letter(c))
            }
        } else {
            prev.push(c)
        }
    }
}

/// Converts a type name to snake_case: `TunnelInfo` becomes `tunnel_info`.
pub fn to_snake_case(name: &str) -> (r: String)
    ensures
        r@ == snake_case(name@),
        all_ascii(name@) ==> r@ == ascii_snake_case(name@),
{
    let cs = chars_of(name);
    let mut out = String::new();
    let mut i: usize = 0;
    proof {
        assert(name@.subrange(0, 0) =~= Seq::<char>::empty());
    }
    while i < cs.len()
        invariant
            cs@ == name@,
            0 <= i <= cs@.len(),
            out@ == snake_case(name@.subrange(0, i as int)),
            all_ascii(name@) ==> out@ == ascii_snake_case(name@.subrange(0, i as int)),
        decreases cs@.len() - i,
    {
        let ch = cs[i];
        proof {
            if all_ascii(name@) {
                assert((name@[i as int] as u32) < 0x80);
            }
        }
        if is_uppercase(ch) {
            if i > 0 {
                push_char(&mut out, '_');
            }
            let low = lowercase_first(ch);
            proof {
                if all_ascii(name@) {
                    assert(low == ascii_lower_letter(ch));
                }
            }
            push_char(&mut out, low);
        } else {
            push_char(&mut out, ch);
        }
        i = i + 1;
        proof {
            assert(name@.subrange(0, i as int).drop_last() =~= name@.subrange(0, i - 1));
        }
    }
    proof {
        assert(name@.subrange(0, cs@.len() as int) =~= name@);
    }
    out
}

} // verus!
