//! Trusted wrappers around outside code.
//!
//! Each function here is `external_body`: its body makes exactly one call
//! into code that Verus does not read, and its contract states only what
//! that code's documentation promises.

use vstd::prelude::*;

verus! {

/// Relies on String::push: appends the given character to the end of the string.
#[verifier::external_body]
pub(crate) fn push_char(s: &mut String, c: char)
    ensures
        final(s)@ == old(s)@.push(c),
{
    s.push(c);
}

/// Relies on str::to_lowercase: the Unicode lowercase mapping of a
/// string depends on its characters alone, so the result carries the
/// name `lower_of`; the identity keys of the whole pipeline are built
/// from it.
#[verifier::external_body]
pub(crate) fn lowercase(s: &str) -> (r: String)
    ensures
        r@ == crate::text::lower_of(s@),
{
    s.to_lowercase()
}

/// Relies on uuid::Uuid::new_v4 and uuid::Uuid::to_string: a freshly drawn
/// random version-4 UUID, rendered in the hyphenated form, which is always
/// 36 characters long.  Nothing else can be promised of a random value.
#[verifier::external_body]
pub(crate) fn fresh_id() -> (r: String)
    ensures
        r@.len() == 36,
{
    uuid::Uuid::new_v4().to_string()
}

} // verus!
