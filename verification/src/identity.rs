//! The identity under which a participant is enrolled.

use vstd::prelude::*;
use anchor_lang::prelude::Pubkey;

verus! {

/// `Pubkey` of `anchor_lang`: the address of a ledger account, by which a
/// participant is known. It is declared without its contents. The game stores
/// addresses, compares them and hands them back, and no contract says what
/// one holds.
#[verifier::external_type_specification]
#[verifier::external_body]
pub struct ExPubkey(anchor_lang::prelude::Pubkey);

/// Tells whether two addresses are the same.
///
/// This calls `==` of `Pubkey`, which the type derives: it compares the
/// thirty-two bytes that an address consists of. The contract claims that the
/// answer is `true` exactly for equal addresses, an address being nothing but
/// those bytes.
#[verifier::external_body]
pub(crate) fn same_identity(a: &Pubkey, b: &Pubkey) -> (same: bool)
    ensures
        same == (*a == *b),
{
    a == b
}

} // verus!
