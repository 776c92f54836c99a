//! Ledger addresses and their textual form.

use vstd::prelude::*;

verus! {

/// The address of an account or a program: 32 bytes.
#[derive(Clone, Copy, Debug, PartialEq, Eq)]
pub struct Address {
    pub bytes: [u8; 32],
}

impl View for Address {
    type V = Seq<u8>;

    open spec fn view(&self) -> Seq<u8> {
        self.bytes@
    }
}

/// The base-58 text under which the ledger shows the 32 address bytes `bytes`.
pub uninterp spec fn base58_text(bytes: Seq<u8>) -> Seq<char>;

/// `solana_sdk::pubkey::Pubkey::new_from_array` followed by the key's
/// `to_string`: the result is the key's `Display` form, which depends on the
/// 32 bytes alone. Nothing is claimed of how that text is made up.
#[verifier::external_body]
fn pubkey_text(bytes: &[u8; 32]) -> (text: String)
    ensures
        text@ == base58_text(bytes@),
{
    solana_sdk::pubkey::Pubkey::new_from_array(*bytes).to_string()
}

impl Address {
    /// The address made of `bytes`.
    pub fn new(bytes: [u8; 32]) -> (address: Address)
        ensures
            address@ == bytes@,
            address.bytes == bytes,
    {
        Address { bytes }
    }

    /// Whether two addresses are the same 32 bytes.
    pub fn same_as(&self, other: &Address) -> (same: bool)
        ensures
            same == (self@ == other@),
    {
        let mut i: usize = 0;
        while i < 32
            invariant
                i <= 32,
                forall|j: int| 0 <= j < i ==> self@[j] == other@[j],
            decreases 32 - i,
        {
            if self.bytes[i] != other.bytes[i] {
                return false;
            }
            i = i + 1;
        }
        assert(self@ =~= other@);
        true
    }

    /// The address as the ledger shows it.
    pub fn to_text(&self) -> (text: String)
        ensures
            text@ == base58_text(self@),
    {
        pubkey_text(&self.bytes)
    }
}

/// The addresses of a list, each as its 32 bytes.
pub open spec fn address_views(addresses: Seq<Address>) -> Seq<Seq<u8>> {
    Seq::new(addresses.len(), |i: int| addresses[i]@)
}

} // verus!
