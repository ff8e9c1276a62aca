//! Which characters make up an identifier.

use vstd::prelude::*;
use unicode_xid::UnicodeXID;
use crate::grammar::{ident_continue, ident_start, xid_continue, xid_start};

verus! {

/// `UnicodeXID::is_xid_start` for `char`: among the ASCII characters exactly
/// the letters; beyond ASCII, the `XID_Start` property.
#[verifier::external_body]
pub(crate) fn is_ident_start(c: char) -> (r: bool)
    ensures
        r == ident_start(c),
        c > '\x7f' ==> r == xid_start(c),
{
    UnicodeXID::is_xid_start(c)
}

/// `UnicodeXID::is_xid_continue` for `char`: among the ASCII characters
/// exactly the letters, the digits and `_`; beyond ASCII, the `XID_Continue`
/// property.
#[verifier::external_body]
pub(crate) fn is_ident_continue(c: char) -> (r: bool)
    ensures
        r == ident_continue(c),
        c > '\x7f' ==> r == xid_continue(c),
{
    UnicodeXID::is_xid_continue(c)
}

} // verus!
