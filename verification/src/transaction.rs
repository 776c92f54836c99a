//! The transaction as the capture reads it, its payer, and the text of the
//! transaction file.

use crate::address::{address_views, base58_text, Address};
use crate::error::CaptureError;
use crate::text::{
    boolean, boolean_text, byte_list, byte_list_text, contents, join, joined,
};
use vstd::prelude::*;
use vstd::string::*;

verus! {

/// How many of the leading addresses of the account table sign, and how many
/// of the signing and of the other addresses are read-only.
#[derive(Clone, Copy, Debug, PartialEq, Eq, Structural)]
pub struct Header {
    pub num_required_signatures: u8,
    pub num_readonly_signed_accounts: u8,
    pub num_readonly_unsigned_accounts: u8,
}

/// One operation of a transaction: a program and the accounts it works on,
/// both as indices into the account table, and an opaque payload.
#[derive(Debug, PartialEq, Eq)]
pub struct Instruction {
    pub program_id_index: u8,
    pub accounts: Vec<u8>,
    pub data: Vec<u8>,
}

/// An instruction as mathematical values.
#[verifier::ext_equal]
pub struct InstructionView {
    pub program_id_index: u8,
    pub accounts: Seq<u8>,
    pub data: Seq<u8>,
}

impl InstructionView {
    /// Whether every index of the instruction lies in a table of `table`
    /// addresses.
    pub open spec fn fits(self, table: nat) -> bool {
        &&& self.program_id_index < table
        &&& forall|j: int| 0 <= j < self.accounts.len() ==> self.accounts[j] < table
    }
}

impl View for Instruction {
    type V = InstructionView;

    open spec fn view(&self) -> InstructionView {
        InstructionView {
            program_id_index: self.program_id_index,
            accounts: self.accounts@,
            data: self.data@,
        }
    }
}

/// The instructions of a list, each as mathematical values.
pub open spec fn instruction_views(instructions: Seq<Instruction>) -> Seq<InstructionView> {
    Seq::new(instructions.len(), |i: int| instructions[i]@)
}

/// A transaction as mathematical values.
#[verifier::ext_equal]
pub struct TransactionView {
    pub header: Header,
    pub account_keys: Seq<Seq<u8>>,
    pub instructions: Seq<InstructionView>,
}

impl TransactionView {
    /// Whether every instruction refers into the account table.
    pub open spec fn well_formed(self) -> bool {
        forall|i: int|
            0 <= i < self.instructions.len() ==> (#[trigger] self.instructions[i]).fits(
                self.account_keys.len(),
            )
    }

    /// Whether the address at `index` of the account table signs: the
    /// signers are the leading addresses of the table.
    pub open spec fn is_signer(self, index: int) -> bool {
        index < self.header.num_required_signatures
    }

    /// The program address of the instruction at `index`.
    pub open spec fn program(self, index: int) -> Seq<u8> {
        self.account_keys[self.instructions[index].program_id_index as int]
    }
}

/// A transaction: a header, the table of all addresses it touches, and its
/// instructions in order. Every instruction refers into the table. The
/// signatures are no part of it, since nothing reads them.
#[derive(Debug, PartialEq, Eq)]
pub struct Transaction {
    header: Header,
    account_keys: Vec<Address>,
    instructions: Vec<Instruction>,
}

impl View for Transaction {
    type V = TransactionView;

    closed spec fn view(&self) -> TransactionView {
        TransactionView {
            header: self.header,
            account_keys: address_views(self.account_keys@),
            instructions: instruction_views(self.instructions@),
        }
    }
}

/// An address as one instruction uses it.
#[derive(Clone, Copy, Debug, PartialEq, Eq)]
pub struct AccountMeta {
    pub pubkey: Address,
    pub is_signer: bool,
    pub is_writable: bool,
}

/// Whether the ledger's message type calls the address at `index` of the
/// account table writable when it is asked with `is_writable`.
pub uninterp spec fn message_writable(message: TransactionView, index: int) -> bool;

/// Whether the ledger's message type calls the address at `index` of the
/// account table writable when it is asked with `is_maybe_writable` and no
/// set of reserved addresses.
pub uninterp spec fn message_maybe_writable(message: TransactionView, index: int) -> bool;

/// `solana_sdk::message::Message::is_writable`, on a message built from the
/// header, the account table and the instructions, with the default recent
/// blockhash, which the method does not read. The method indexes the table
/// at `index`, so `requires` keeps `index` inside it. The answer depends on
/// the message and the index alone.
#[allow(deprecated)]
#[verifier::external_body]
fn message_is_writable(transaction: &Transaction, index: usize) -> (writable: bool)
    requires
        index < transaction@.account_keys.len(),
    ensures
        writable == message_writable(transaction@, index as int),
{
    let header = solana_sdk::message::MessageHeader {
        num_required_signatures: transaction.header.num_required_signatures,
        num_readonly_signed_accounts: transaction.header.num_readonly_signed_accounts,
        num_readonly_unsigned_accounts: transaction.header.num_readonly_unsigned_accounts,
    };
    let account_keys = transaction.account_keys.iter().map(
        |key| solana_sdk::pubkey::Pubkey::new_from_array(key.bytes),
    ).collect();
    let instructions = transaction.instructions.iter().map(
        |ix| solana_sdk::instruction::CompiledInstruction::new_from_raw_parts(ix.program_id_index, ix.data.clone(), ix.accounts.clone()),
    ).collect();
    let recent_blockhash = Default::default();
    solana_sdk::message::Message { header, account_keys, recent_blockhash, instructions }.is_writable(index)
}

/// `solana_sdk::message::Message::is_maybe_writable` with `None` for the
/// reserved addresses, on a message built as for `message_is_writable`. The
/// method takes any index. The answer depends on the message and the index
/// alone.
#[allow(deprecated)]
#[verifier::external_body]
fn message_is_maybe_writable(transaction: &Transaction, index: usize) -> (writable: bool)
    ensures
        writable == message_maybe_writable(transaction@, index as int),
{
    let header = solana_sdk::message::MessageHeader {
        num_required_signatures: transaction.header.num_required_signatures,
        num_readonly_signed_accounts: transaction.header.num_readonly_signed_accounts,
        num_readonly_unsigned_accounts: transaction.header.num_readonly_unsigned_accounts,
    };
    let account_keys = transaction.account_keys.iter().map(
        |key| solana_sdk::pubkey::Pubkey::new_from_array(key.bytes),
    ).collect();
    let instructions = transaction.instructions.iter().map(
        |ix| solana_sdk::instruction::CompiledInstruction::new_from_raw_parts(ix.program_id_index, ix.data.clone(), ix.accounts.clone()),
    ).collect();
    let recent_blockhash = Default::default();
    solana_sdk::message::Message { header, account_keys, recent_blockhash, instructions }.is_maybe_writable(index, None)
}

fn instruction_fits(instruction: &Instruction, table: usize) -> (fits: bool)
    ensures
        fits == instruction@.fits(table as nat),
{
    if instruction.program_id_index as usize >= table {
        return false;
    }
    let mut j: usize = 0;
    while j < instruction.accounts.len()
        invariant
            j <= instruction.accounts.len(),
            forall|k: int| 0 <= k < j ==> instruction.accounts@[k] < table,
        decreases instruction.accounts.len() - j,
    {
        if instruction.accounts[j] as usize >= table {
            assert(!(instruction@.accounts[j as int] < table));
            return false;
        }
        j = j + 1;
    }
    true
}

impl Transaction {
    #[verifier::type_invariant]
    spec fn refers_into_table(self) -> bool {
        self@.well_formed()
    }

    /// The transaction made of these parts, or `None` where an instruction
    /// refers outside the account table.
    pub fn new(header: Header, account_keys: Vec<Address>, instructions: Vec<Instruction>) -> (made:
        Option<Transaction>)
        ensures
            made is Some <==> (TransactionView {
                header,
                account_keys: address_views(account_keys@),
                instructions: instruction_views(instructions@),
            }).well_formed(),
            made matches Some(transaction) ==> transaction@ == (TransactionView {
                header,
                account_keys: address_views(account_keys@),
                instructions: instruction_views(instructions@),
            }),
    {
        let ghost wanted = TransactionView {
            header,
            account_keys: address_views(account_keys@),
            instructions: instruction_views(instructions@),
        };
        let mut i: usize = 0;
        while i < instructions.len()
            invariant
                i <= instructions.len(),
                wanted == (TransactionView {
                    header,
                    account_keys: address_views(account_keys@),
                    instructions: instruction_views(instructions@),
                }),
                forall|k: int|
                    0 <= k < i ==> (#[trigger] wanted.instructions[k]).fits(
                        account_keys.len() as nat,
                    ),
            decreases instructions.len() - i,
        {
            if !instruction_fits(&instructions[i], account_keys.len()) {
                assert(wanted.instructions[i as int] == instructions@[i as int]@);
                assert(!wanted.instructions[i as int].fits(wanted.account_keys.len()));
                assert(!wanted.well_formed());
                return None;
            }
            assert(wanted.instructions[i as int] == instructions@[i as int]@);
            i = i + 1;
        }
        Some(Transaction { header, account_keys, instructions })
    }

    /// The header.
    pub fn header(&self) -> (header: Header)
        ensures
            header == self@.header,
    {
        self.header
    }

    /// The account table: every address the transaction touches, in order.
    pub fn account_keys(&self) -> (keys: &Vec<Address>)
        ensures
            address_views(keys@) == self@.account_keys,
            keys@.len() == self@.account_keys.len(),
            self@.well_formed(),
    {
        proof {
            use_type_invariant(self);
        }
        &self.account_keys
    }

    /// The instructions in order.
    pub fn instructions(&self) -> (instructions: &Vec<Instruction>)
        ensures
            instruction_views(instructions@) == self@.instructions,
            instructions@.len() == self@.instructions.len(),
            self@.well_formed(),
    {
        proof {
            use_type_invariant(self);
        }
        &self.instructions
    }

    /// Whether the address at `index` of the account table signs.
    pub fn is_signer(&self, index: usize) -> (signer: bool)
        ensures
            signer == self@.is_signer(index as int),
    {
        index < self.header.num_required_signatures as usize
    }

    /// The address at `index` of the account table as an instruction uses
    /// it: whether it signs, and whether it is writable there, which the
    /// ledger's message type decides.
    pub fn account_meta(&self, index: usize) -> (meta: AccountMeta)
        requires
            index < self@.account_keys.len(),
        ensures
            meta.pubkey@ == self@.account_keys[index as int],
            meta.is_signer == self@.is_signer(index as int),
            meta.is_writable == message_maybe_writable(self@, index as int),
    {
        AccountMeta {
            pubkey: self.account_keys[index],
            is_signer: self.is_signer(index),
            is_writable: message_is_maybe_writable(self, index),
        }
    }
}

/// What stands in the way of the address at index 0 being the payer, given
/// whether it signs and whether it is writable; `None` where nothing does.
pub open spec fn payer_fault(table: nat, signer: bool, writable: bool) -> Option<CaptureError> {
    if table == 0 {
        Some(CaptureError::MissingPayer)
    } else if !signer {
        Some(CaptureError::PayerNotSigner)
    } else if !writable {
        Some(CaptureError::PayerNotWritable)
    } else {
        None
    }
}

/// What stands in the way of the transaction having a payer.
pub open spec fn payer_error(transaction: TransactionView) -> Option<CaptureError> {
    payer_fault(
        transaction.account_keys.len(),
        transaction.is_signer(0),
        message_writable(transaction, 0),
    )
}

/// The payer: the address at index 0 of the account table, where it signs
/// and is writable.
pub open spec fn payer(transaction: TransactionView) -> Option<Seq<u8>> {
    if payer_error(transaction) is None {
        Some(transaction.account_keys[0])
    } else {
        None
    }
}

/// The payer among `account_keys`, given whether the address at index 0 signs
/// and whether it is writable.
pub fn check_payer(account_keys: &Vec<Address>, signer: bool, writable: bool) -> (found: Result<
    Address,
    CaptureError,
>)
    ensures
        match found {
            Ok(address) => payer_fault(account_keys@.len(), signer, writable) is None
                && address@ == account_keys@[0]@,
            Err(error) => payer_fault(account_keys@.len(), signer, writable) == Some(error),
        },
{
    if account_keys.len() == 0 {
        Err(CaptureError::MissingPayer)
    } else if !signer {
        Err(CaptureError::PayerNotSigner)
    } else if !writable {
        Err(CaptureError::PayerNotWritable)
    } else {
        Ok(account_keys[0])
    }
}

/// The payer of the transaction, or what stands in its way.
pub fn find_payer(transaction: &Transaction) -> (found: Result<Address, CaptureError>)
    ensures
        match found {
            Ok(address) => payer(transaction@) == Some(address@),
            Err(error) => payer_error(transaction@) == Some(error),
        },
{
    let keys = transaction.account_keys();
    if keys.len() == 0 {
        check_payer(keys, false, false)
    } else {
        let signer = transaction.is_signer(0);
        let writable = message_is_writable(transaction, 0);
        let found = check_payer(keys, signer, writable);
        proof {
            assert(address_views(keys@)[0] == keys@[0]@);
        }
        found
    }
}

/// The payer of the transaction, if it has one.
pub fn get_payer(transaction: &Transaction) -> (found: Option<Address>)
    ensures
        match found {
            Some(address) => payer(transaction@) == Some(address@),
            None => payer(transaction@) is None,
        },
{
    match find_payer(transaction) {
        Ok(address) => Some(address),
        Err(_) => None,
    }
}

/// One account-access record of an instruction.
pub open spec fn meta_json(pubkey: Seq<char>, is_signer: bool, is_writable: bool) -> Seq<char> {
    "{\"pubkey\": \""@ + pubkey + "\", \"is_signer\": "@ + boolean(is_signer)
        + ", \"is_writable\": "@ + boolean(is_writable) + "}"@
}

/// One instruction: its program, its account-access records in order and its
/// payload as a list of byte values.
pub open spec fn instruction_json(program_id: Seq<char>, metas: Seq<Seq<char>>, data: Seq<u8>) -> Seq<
    char,
> {
    "        {\n            \"program_id\": \""@ + program_id
        + "\",\n            \"accounts\": [\n                "@ + joined(
        metas,
        ",\n                "@,
    ) + "\n            ],\n            \"data\": "@ + byte_list(data) + "\n        }"@
}

/// The transaction file: the payer and the instructions in order.
pub open spec fn transaction_json(payer: Seq<char>, instructions: Seq<Seq<char>>) -> Seq<char> {
    "{\n    \"payer\": \""@ + payer + "\",\n    \"instructions\": [\n"@ + joined(
        instructions,
        ", \n"@,
    ) + "\n    ]\n}"@
}

/// The record of the address at `index` of the account table, as an
/// instruction of `transaction` uses it.
pub open spec fn meta_record(transaction: TransactionView, index: int) -> Seq<char> {
    meta_json(
        base58_text(transaction.account_keys[index]),
        transaction.is_signer(index),
        message_maybe_writable(transaction, index),
    )
}

/// The records of the accounts of `instruction`, in its own order.
pub open spec fn meta_records(transaction: TransactionView, instruction: InstructionView) -> Seq<
    Seq<char>,
> {
    Seq::new(
        instruction.accounts.len(),
        |j: int| meta_record(transaction, instruction.accounts[j] as int),
    )
}

/// The record of one instruction of `transaction`.
pub open spec fn instruction_record(
    transaction: TransactionView,
    instruction: InstructionView,
) -> Seq<char> {
    instruction_json(
        base58_text(transaction.account_keys[instruction.program_id_index as int]),
        meta_records(transaction, instruction),
        instruction.data,
    )
}

/// The records of all instructions of `transaction`, in order.
pub open spec fn instruction_records(transaction: TransactionView) -> Seq<Seq<char>> {
    Seq::new(
        transaction.instructions.len(),
        |i: int| instruction_record(transaction, transaction.instructions[i]),
    )
}

/// The text of the transaction file of `transaction`.
pub open spec fn transaction_record(transaction: TransactionView) -> Seq<char> {
    transaction_json(base58_text(transaction.account_keys[0]), instruction_records(transaction))
}

/// Lays out one account-access record.
pub fn meta_json_text(pubkey: &str, is_signer: bool, is_writable: bool) -> (text: String)
    ensures
        text@ == meta_json(pubkey@, is_signer, is_writable),
{
    let mut text: String = String::from_str("{\"pubkey\": \"");
    text.append(pubkey);
    text.append("\", \"is_signer\": ");
    text.append(boolean_text(is_signer));
    text.append(", \"is_writable\": ");
    text.append(boolean_text(is_writable));
    text.append("}");
    text
}

/// Lays out one instruction from the text of its program address and of its
/// account-access records.
pub fn instruction_json_text(program_id: &str, metas: &Vec<String>, data: &Vec<u8>) -> (text:
    String)
    ensures
        text@ == instruction_json(program_id@, contents(metas@), data@),
{
    let mut text: String = String::from_str("        {\n            \"program_id\": \"");
    text.append(program_id);
    text.append("\",\n            \"accounts\": [\n                ");
    text.append(join(metas, ",\n                ").as_str());
    text.append("\n            ],\n            \"data\": ");
    text.append(byte_list_text(data).as_str());
    text.append("\n        }");
    text
}

/// Lays out the transaction file from the text of the payer's address and of
/// the instructions.
pub fn transaction_json_text(payer: &str, instructions: &Vec<String>) -> (text: String)
    ensures
        text@ == transaction_json(payer@, contents(instructions@)),
{
    let mut text: String = String::from_str("{\n    \"payer\": \"");
    text.append(payer);
    text.append("\",\n    \"instructions\": [\n");
    text.append(join(instructions, ", \n").as_str());
    text.append("\n    ]\n}");
    text
}

/// Writes down the instruction at `index` of the transaction.
pub fn render_instruction(transaction: &Transaction, index: usize) -> (text: String)
    requires
        index < transaction@.instructions.len(),
    ensures
        text@ == instruction_record(transaction@, transaction@.instructions[index as int]),
{
    let keys = transaction.account_keys();
    let instruction = &transaction.instructions()[index];
    let ghost view = transaction@;
    assert(view.instructions[index as int] == instruction@);
    assert(instruction@.fits(keys@.len() as nat));
    let mut metas: Vec<String> = Vec::new();
    let mut j: usize = 0;
    while j < instruction.accounts.len()
        invariant
            j <= instruction.accounts.len(),
            metas.len() == j,
            view == transaction@,
            keys@.len() == view.account_keys.len(),
            instruction@.fits(keys@.len() as nat),
            contents(metas@) == meta_records(view, instruction@).take(j as int),
        decreases instruction.accounts.len() - j,
    {
        let account: usize = instruction.accounts[j] as usize;
        assert(instruction@.accounts[j as int] < keys@.len());
        let meta = transaction.account_meta(account);
        let pubkey: String = meta.pubkey.to_text();
        let item: String = meta_json_text(pubkey.as_str(), meta.is_signer, meta.is_writable);
        proof {
            let grown = contents(metas@.push(item));
            let wanted = meta_records(view, instruction@).take(j + 1);
            assert forall|k: int| 0 <= k < j + 1 implies grown[k] == wanted[k] by {
                if k < j {
                    assert(contents(metas@)[k] == meta_records(view, instruction@).take(
                        j as int,
                    )[k]);
                }
            }
            assert(grown =~= wanted);
        }
        metas.push(item);
        j = j + 1;
    }
    proof {
        let all = meta_records(view, instruction@);
        assert(all.take(instruction.accounts.len() as int) =~= all);
        assert(address_views(keys@)[instruction.program_id_index as int]
            == keys@[instruction.program_id_index as int]@);
    }
    let program: String = keys[instruction.program_id_index as usize].to_text();
    instruction_json_text(program.as_str(), &metas, &instruction.data)
}

/// Writes down the transaction: the text of its file, or why it has no
/// valid payer. The instructions and, in each, the accounts keep their
/// order.
pub fn save_transaction(transaction: &Transaction) -> (saved: Result<String, CaptureError>)
    ensures
        match saved {
            Ok(text) => payer_error(transaction@) is None && text@ == transaction_record(
                transaction@,
            ),
            Err(error) => payer_error(transaction@) == Some(error),
        },
{
    let payer = match find_payer(transaction) {
        Ok(address) => address,
        Err(error) => {
            return Err(error);
        },
    };
    let ghost view = transaction@;
    let count: usize = transaction.instructions().len();
    let mut records: Vec<String> = Vec::new();
    let mut i: usize = 0;
    while i < count
        invariant
            i <= count,
            records.len() == i,
            view == transaction@,
            count == view.instructions.len(),
            contents(records@) == instruction_records(view).take(i as int),
        decreases count - i,
    {
        let item: String = render_instruction(transaction, i);
        proof {
            let grown = contents(records@.push(item));
            let wanted = instruction_records(view).take(i + 1);
            assert forall|k: int| 0 <= k < i + 1 implies grown[k] == wanted[k] by {
                if k < i {
                    assert(contents(records@)[k] == instruction_records(view).take(i as int)[k]);
                }
            }
            assert(grown =~= wanted);
        }
        records.push(item);
        i = i + 1;
    }
    proof {
        let all = instruction_records(view);
        assert(all.take(count as int) =~= all);
    }
    let payer_text: String = payer.to_text();
    Ok(transaction_json_text(payer_text.as_str(), &records))
}

} // verus!
