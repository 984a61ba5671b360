use vstd::prelude::*;

verus! {

/// Number of codepoints in the Unicode codespace, `0..=0x10FFFF`.
pub const CODEPOINT_COUNT: u32 = 0x11_0000;

/// Whether `u` is a Unicode scalar value: in the codespace and not a surrogate.
pub open spec fn valid_scalar(u: u32) -> bool {
    u < CODEPOINT_COUNT && !(0xD800 <= u && u <= 0xDFFF)
}

/// Unicode's `Alphabetic` or `Numeric` property of `c`.
pub uninterp spec fn alphanumeric(c: char) -> bool;

/// Relies on `char::from_u32`: `Some` exactly for scalar values, holding that codepoint.
#[verifier::external_body]
pub(crate) fn scalar_char(u: u32) -> (r: Option<char>)
    ensures
        r is Some <==> valid_scalar(u),
        r matches Some(c) ==> c as u32 == u,
{
    char::from_u32(u)
}

/// Relies on `char::is_alphanumeric`, which reads the character alone.
#[verifier::external_body]
pub(crate) fn is_alphanumeric(c: char) -> (r: bool)
    ensures
        r == alphanumeric(c),
{
    c.is_alphanumeric()
}

proof fn lemma_char_code_injective(a: char, b: char)
    requires
        a as u32 == b as u32,
    ensures
        a == b,
{
}

/// `u` is a scalar value and its character is alphanumeric.
pub open spec fn alphanumeric_scalar(u: u32) -> bool {
    valid_scalar(u) && exists|c: char| c as u32 == u && alphanumeric(c)
}

/// Whether `u` is a scalar value whose character is alphanumeric.
pub fn classify(u: u32) -> (r: bool)
    ensures
        r == alphanumeric_scalar(u),
{
    match scalar_char(u) {
        Some(c) => {
            let r = is_alphanumeric(c);
            assert forall|d: char| d as u32 == u implies alphanumeric(d) == r by {
                lemma_char_code_injective(d, c);
            }
            r
        },
        None => false,
    }
}

} // verus!
