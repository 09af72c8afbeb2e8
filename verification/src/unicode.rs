//! Character classification for the scanner.
//!
//! Which characters may begin or continue an identifier, and which count as
//! whitespace, is decided by Unicode character properties. The classifiers
//! here are named spec functions of the character alone, together with the
//! executable tests the scanner calls.

use vstd::prelude::*;

verus! {

/// Whether `c` has the Unicode `XID_Start` property: the characters that may
/// begin an identifier.
pub uninterp spec fn xid_start(c: char) -> bool;

/// Whether `c` has the Unicode `XID_Continue` property: the characters that
/// may continue an identifier after its first character.
pub uninterp spec fn xid_continue(c: char) -> bool;

/// Whether `c` has the Unicode `White_Space` property.
pub uninterp spec fn white_space(c: char) -> bool;

/// Relies on unicode_ident::is_xid_start: whether `c` has the Unicode
/// XID_Start property, a total function of the character alone.
#[verifier::external_body]
pub(crate) fn is_identifier_start(c: char) -> (r: bool)
    ensures
        r == xid_start(c),
{
    unicode_ident::is_xid_start(c)
}

/// Relies on unicode_ident::is_xid_continue: whether `c` has the Unicode
/// XID_Continue property, a total function of the character alone.
#[verifier::external_body]
pub(crate) fn is_identifier_continue(c: char) -> (r: bool)
    ensures
        r == xid_continue(c),
{
    unicode_ident::is_xid_continue(c)
}

/// Relies on char::is_whitespace: whether `c` has the Unicode White_Space
/// property, a total function of the character alone.
#[verifier::external_body]
pub(crate) fn is_whitespace_char(c: char) -> (r: bool)
    ensures
        r == white_space(c),
{
    c.is_whitespace()
}

} // verus!
