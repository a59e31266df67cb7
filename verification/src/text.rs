//! Character-level helpers shared by the library: the canonical (ASCII
//! lower-case) form of an email address, and the alphabet of the random
//! credentials (session tokens and invite codes).

use vstd::prelude::*;
use vstd::string::*;

verus! {

/// `c` is one of the 62 ASCII letters and digits that random credentials
/// are drawn from.
pub open spec fn is_alnum_char(c: char) -> bool {
    ||| 97 <= c as u32 && c as u32 <= 122
    ||| 65 <= c as u32 && c as u32 <= 90
    ||| 48 <= c as u32 && c as u32 <= 57
}

/// The ASCII lower-case image of one character; everything outside `A`..`Z`
/// is left as it is.
pub open spec fn lower_char(c: char) -> char {
    if 65 <= c as u32 && c as u32 <= 90 {
        ((c as u32 + 32) as u8) as char
    } else {
        c
    }
}

/// The canonical form of an email address: every ASCII upper-case letter
/// replaced by its lower-case counterpart.
pub open spec fn to_lower(s: Seq<char>) -> Seq<char> {
    s.map_values(|c: char| lower_char(c))
}

/// Relies on `str`'s `PartialEq`: two slices are equal exactly when their
/// character sequences are.
#[verifier::external_body]
pub(crate) fn str_eq(a: &str, b: &str) -> (r: bool)
    ensures
        r == (a@ == b@),
{
    a == b
}

/// Relies on `String::push`: appends exactly the given character.
#[verifier::external_body]
pub(crate) fn push_char(s: &mut String, c: char)
    ensures
        final(s)@ == old(s)@.push(c),
{
    s.push(c);
}

/// The ASCII lower-case image of one character, executably.
fn lower_char_exec(c: char) -> (r: char)
    ensures
        r == lower_char(c),
{
    let u = c as u32;
    if 65 <= u && u <= 90 {
        ((u + 32) as u8) as char
    } else {
        c
    }
}

/// The canonical form of an email address, executably.
pub fn ascii_lowercase(s: &str) -> (r: String)
    ensures
        r@ == to_lower(s@),
{
    let n = s.unicode_len();
    let mut out = String::new();
    let mut i: usize = 0;
    while i < n
        invariant
            i <= n,
            n == s@.len(),
            out@ =~= to_lower(s@.take(i as int)),
        decreases n - i,
    {
        let c = s.get_char(i);
        push_char(&mut out, lower_char_exec(c));
        i = i + 1;
        assert(s@.take(i as int) =~= s@.take(i as int - 1).push(s@[i as int - 1]));
        assert(out@ =~= to_lower(s@.take(i as int)));
    }
    assert(s@.take(n as int) =~= s@);
    out
}

} // verus!
