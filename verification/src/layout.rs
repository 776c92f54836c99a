//! The names under which a capture is laid out on disk:
//!
//! ```text
//! debug_input/
//!   program_input_<N>/
//!     keypairs/
//!       keypair_1  keypair_2  ...
//!     accounts/
//!       account_1.json  account_2.json  ...
//!     transaction.json
//! ```

use crate::text::{decimal, decimal_text, lemma_decimal_is_injective, lemma_framed_texts_differ};
use vstd::prelude::*;
use vstd::string::*;

verus! {

/// The name of the capture directory in slot `slot`.
pub open spec fn directory_name(slot: nat) -> Seq<char> {
    "program_input_"@ + decimal(slot)
}

/// The name of the file that holds the keypair of the signer with number
/// `number`, counted from 1.
pub open spec fn keypair_file_name(number: nat) -> Seq<char> {
    "keypair_"@ + decimal(number)
}

/// The name of the file that holds the kept account with number `number`,
/// counted from 1.
pub open spec fn account_file_name(number: nat) -> Seq<char> {
    "account_"@ + decimal(number) + ".json"@
}

/// The directory under which all captures live.
pub fn base_directory() -> (name: &'static str)
    ensures
        name@ == "debug_input"@,
{
    "debug_input"
}

/// The directory of a capture that holds the keypair files.
pub fn keypairs_directory() -> (name: &'static str)
    ensures
        name@ == "keypairs"@,
{
    "keypairs"
}

/// The directory of a capture that holds the account files.
pub fn accounts_directory() -> (name: &'static str)
    ensures
        name@ == "accounts"@,
{
    "accounts"
}

/// The file of a capture that holds the transaction.
pub fn transaction_file() -> (name: &'static str)
    ensures
        name@ == "transaction.json"@,
{
    "transaction.json"
}

/// Names the capture directory in slot `slot`.
pub fn directory_name_text(slot: u64) -> (name: String)
    ensures
        name@ == directory_name(slot as nat),
{
    let mut name: String = String::from_str("program_input_");
    name.append(decimal_text(slot).as_str());
    name
}

/// Names the keypair file with number `number`.
pub fn keypair_file_name_text(number: u64) -> (name: String)
    ensures
        name@ == keypair_file_name(number as nat),
{
    let mut name: String = String::from_str("keypair_");
    name.append(decimal_text(number).as_str());
    name
}

/// Names the account file with number `number`.
pub fn account_file_name_text(number: u64) -> (name: String)
    ensures
        name@ == account_file_name(number as nat),
{
    let mut name: String = String::from_str("account_");
    name.append(decimal_text(number).as_str());
    name.append(".json");
    name
}

/// Different slots have directories of different names, and different
/// numbers name different keypair files and different account files.
pub proof fn lemma_names_differ(a: nat, b: nat)
    requires
        a != b,
    ensures
        directory_name(a) != directory_name(b),
        keypair_file_name(a) != keypair_file_name(b),
        account_file_name(a) != account_file_name(b),
{
    if decimal(a) == decimal(b) {
        lemma_decimal_is_injective(a, b);
    }
    let none = Seq::<char>::empty();
    lemma_framed_texts_differ("program_input_"@, decimal(a), decimal(b), none);
    assert("program_input_"@ + decimal(a) + none =~= directory_name(a));
    assert("program_input_"@ + decimal(b) + none =~= directory_name(b));
    lemma_framed_texts_differ("keypair_"@, decimal(a), decimal(b), none);
    assert("keypair_"@ + decimal(a) + none =~= keypair_file_name(a));
    assert("keypair_"@ + decimal(b) + none =~= keypair_file_name(b));
    lemma_framed_texts_differ("account_"@, decimal(a), decimal(b), ".json"@);
}

} // verus!
