//! The keypair archiver: under which name each signer's keypair is kept.

use crate::layout::{keypair_file_name, keypair_file_name_text};
use vstd::prelude::*;

verus! {

/// Names the keypair file of each signer: as many names as signers, the
/// name at each place for the signer at that place, numbered from 1 in the
/// order in which the signers are given.
pub fn save_keypairs<S>(signers: &[S]) -> (names: Vec<String>)
    ensures
        names@.len() == signers@.len(),
        forall|i: int|
            0 <= i < names@.len() ==> (#[trigger] names@[i])@ == keypair_file_name((i + 1) as nat),
{
    let mut names: Vec<String> = Vec::new();
    let mut i: usize = 0;
    while i < signers.len()
        invariant
            i <= signers.len(),
            names@.len() == i,
            forall|j: int|
                0 <= j < i ==> (#[trigger] names@[j])@ == keypair_file_name((j + 1) as nat),
        decreases signers.len() - i,
    {
        let number: u64 = (i + 1) as u64;
        names.push(keypair_file_name_text(number));
        i = i + 1;
    }
    names
}

} // verus!
