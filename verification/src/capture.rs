//! A whole capture at once, with both snapshot oracles held in memory.

use crate::account::{base64_bytes, base64_text};
use crate::accounts::save_accounts;
use crate::archiver::{file_views, AccountFile};
use crate::error::CaptureError;
use crate::keypairs::save_keypairs;
use crate::layout::{directory_name, directory_name_text, keypair_file_name};
use crate::ledger::Ledger;
use crate::selection::archive;
use crate::transaction::{payer_error, save_transaction, transaction_record, Transaction};
use vstd::prelude::*;

verus! {

/// All that a capture puts on disk: the name of its directory, the names of
/// the keypair files, one for each signer in order, the account files, and
/// the text of the transaction file.
#[derive(Debug, PartialEq, Eq)]
pub struct Capture {
    pub directory: String,
    pub keypairs: Vec<String>,
    pub accounts: Vec<AccountFile>,
    pub transaction: String,
}

/// Captures the input of `transaction` into the slot `slot`: `client` is
/// the primary oracle, `baseline` the oracle of a fresh environment, and
/// `signers` are the signers whose keypairs go along. The capture is
/// refused where the transaction has no valid payer, and only there.
pub fn save_input<S>(
    client: &Ledger,
    transaction: &Transaction,
    signers: &[S],
    baseline: &Ledger,
    slot: u64,
) -> (saved: Result<Capture, CaptureError>)
    ensures
        match saved {
            Ok(capture) => {
                &&& payer_error(transaction@) is None
                &&& capture.directory@ == directory_name(slot as nat)
                &&& capture.keypairs@.len() == signers@.len()
                &&& forall|i: int|
                    0 <= i < capture.keypairs@.len() ==> (#[trigger] capture.keypairs@[i])@
                        == keypair_file_name((i + 1) as nat)
                &&& file_views(capture.accounts@) == archive(transaction@, client@, baseline@)
                &&& forall|k: int|
                    0 <= k < capture.accounts@.len() ==> base64_bytes(
                        base64_text(client@[(#[trigger] capture.accounts@[k]).address@].data),
                    ) == Some(client@[capture.accounts@[k].address@].data)
                &&& capture.transaction@ == transaction_record(transaction@)
            },
            Err(error) => payer_error(transaction@) == Some(error),
        },
{
    let directory = directory_name_text(slot);
    let keypairs = save_keypairs(signers);
    let accounts = save_accounts(client, transaction, baseline);
    match save_transaction(transaction) {
        Ok(text) => Ok(Capture { directory, keypairs, accounts, transaction: text }),
        Err(error) => Err(error),
    }
}

} // verus!
