use input_capture::address::Address;
use input_capture::error::CaptureError;
use input_capture::transaction::{
    check_payer, find_payer, get_payer, instruction_json_text, meta_json_text,
    render_instruction, save_transaction, transaction_json_text, Header, Instruction,
    Transaction,
};
use solana_sdk::pubkey::Pubkey;

const PAYER_TEXT: &str = "4vJ9JU1bJJE96FWSJKvHsmmFADCg4gpZQff4P3bkLKi";
const SYSTEM_TEXT: &str = "11111111111111111111111111111111";

fn header(signatures: u8, readonly_signed: u8, readonly_unsigned: u8) -> Header {
    Header {
        num_required_signatures: signatures,
        num_readonly_signed_accounts: readonly_signed,
        num_readonly_unsigned_accounts: readonly_unsigned,
    }
}

fn key(byte: u8) -> Address {
    Address::new([byte; 32])
}

fn instruction(program_id_index: u8, accounts: Vec<u8>, data: Vec<u8>) -> Instruction {
    Instruction { program_id_index, accounts, data }
}

#[allow(deprecated)]
fn ledger_message(transaction: &Transaction) -> solana_sdk::message::Message {
    let head = transaction.header();
    solana_sdk::message::Message {
        header: solana_sdk::message::MessageHeader {
            num_required_signatures: head.num_required_signatures,
            num_readonly_signed_accounts: head.num_readonly_signed_accounts,
            num_readonly_unsigned_accounts: head.num_readonly_unsigned_accounts,
        },
        account_keys: transaction
            .account_keys()
            .iter()
            .map(|address| Pubkey::new_from_array(address.bytes))
            .collect(),
        recent_blockhash: Default::default(),
        instructions: transaction
            .instructions()
            .iter()
            .map(|ix| {
                solana_sdk::instruction::CompiledInstruction::new_from_raw_parts(
                    ix.program_id_index,
                    ix.data.clone(),
                    ix.accounts.clone(),
                )
            })
            .collect(),
    }
}

#[test]
fn transaction_gives_back_what_it_was_made_of() {
    let keys = vec![key(1), key(0)];
    let transaction = Transaction::new(
        header(1, 0, 1),
        keys.clone(),
        vec![instruction(1, vec![0, 0], vec![9])],
    )
    .unwrap();
    assert_eq!(transaction.header(), header(1, 0, 1));
    assert_eq!(transaction.account_keys(), &keys);
    assert_eq!(transaction.instructions(), &vec![instruction(1, vec![0, 0], vec![9])]);
}

#[test]
fn transaction_refuses_an_index_outside_the_table() {
    let keys = vec![key(1), key(0)];
    assert!(Transaction::new(header(1, 0, 1), keys.clone(), vec![instruction(2, vec![], vec![])])
        .is_none());
    assert!(Transaction::new(header(1, 0, 1), keys.clone(), vec![instruction(1, vec![0, 2], vec![])])
        .is_none());
    assert!(Transaction::new(
        header(1, 0, 1),
        keys.clone(),
        vec![instruction(1, vec![0], vec![]), instruction(0, vec![1, 5], vec![])]
    )
    .is_none());
    assert!(Transaction::new(header(1, 0, 1), Vec::new(), vec![instruction(0, vec![], vec![])])
        .is_none());
    assert!(Transaction::new(header(1, 0, 1), keys, vec![instruction(1, vec![0, 1], vec![])])
        .is_some());
    assert!(Transaction::new(header(0, 0, 0), Vec::new(), Vec::new()).is_some());
}

#[test]
fn signers_are_the_leading_addresses() {
    let transaction =
        Transaction::new(header(2, 0, 0), vec![key(1), key(2), key(3)], Vec::new()).unwrap();
    assert!(transaction.is_signer(0));
    assert!(transaction.is_signer(1));
    assert!(!transaction.is_signer(2));
    assert!(!transaction.is_signer(700));
    let message = ledger_message(&transaction);
    for index in 0..5 {
        assert_eq!(transaction.is_signer(index), message.is_signer(index));
    }
}

#[test]
fn check_payer_names_what_is_wrong() {
    let keys = vec![key(1), key(2)];
    assert_eq!(check_payer(&keys, true, true), Ok(key(1)));
    assert_eq!(check_payer(&keys, false, true), Err(CaptureError::PayerNotSigner));
    assert_eq!(check_payer(&keys, false, false), Err(CaptureError::PayerNotSigner));
    assert_eq!(check_payer(&keys, true, false), Err(CaptureError::PayerNotWritable));
    assert_eq!(check_payer(&Vec::new(), true, true), Err(CaptureError::MissingPayer));
    assert_eq!(check_payer(&Vec::new(), false, false), Err(CaptureError::MissingPayer));
}

#[test]
fn payer_is_the_first_address_when_it_signs_and_is_writable() {
    let transaction = Transaction::new(
        header(1, 0, 1),
        vec![key(1), key(0)],
        vec![instruction(1, vec![0], vec![])],
    )
    .unwrap();
    assert_eq!(find_payer(&transaction), Ok(key(1)));
    assert_eq!(get_payer(&transaction), Some(key(1)));
}

#[test]
fn payer_missing_in_an_empty_table() {
    let transaction = Transaction::new(header(1, 0, 0), Vec::new(), Vec::new()).unwrap();
    assert_eq!(find_payer(&transaction), Err(CaptureError::MissingPayer));
    assert_eq!(get_payer(&transaction), None);
    assert_eq!(save_transaction(&transaction), Err(CaptureError::MissingPayer));
}

#[test]
fn payer_that_does_not_sign_is_refused() {
    let transaction = Transaction::new(
        header(0, 0, 1),
        vec![key(1), key(0)],
        vec![instruction(1, vec![0], vec![1])],
    )
    .unwrap();
    assert_eq!(find_payer(&transaction), Err(CaptureError::PayerNotSigner));
    assert_eq!(get_payer(&transaction), None);
    assert_eq!(save_transaction(&transaction), Err(CaptureError::PayerNotSigner));
}

#[test]
fn payer_that_is_read_only_is_refused() {
    let transaction = Transaction::new(
        header(1, 1, 1),
        vec![key(1), key(0)],
        vec![instruction(1, vec![0], vec![1])],
    )
    .unwrap();
    assert_eq!(find_payer(&transaction), Err(CaptureError::PayerNotWritable));
    assert_eq!(get_payer(&transaction), None);
    assert_eq!(save_transaction(&transaction), Err(CaptureError::PayerNotWritable));
}

#[test]
fn payer_that_is_a_built_in_program_is_refused() {
    let transaction =
        Transaction::new(header(1, 0, 0), vec![key(0), key(1)], Vec::new()).unwrap();
    assert_eq!(find_payer(&transaction), Err(CaptureError::PayerNotWritable));
}

#[test]
#[allow(deprecated)]
fn payer_follows_the_ledgers_message_type() {
    let tables = vec![
        (header(1, 0, 1), vec![key(1), key(0)], vec![instruction(1, vec![0], vec![])]),
        (header(1, 1, 0), vec![key(1), key(2)], vec![]),
        (header(2, 1, 0), vec![key(0), key(2)], vec![]),
        (header(1, 0, 0), vec![key(3), key(2)], vec![instruction(0, vec![1], vec![])]),
        (header(0, 0, 0), vec![key(3)], vec![]),
    ];
    for (head, keys, instructions) in tables {
        let transaction = Transaction::new(head, keys.clone(), instructions).unwrap();
        let message = ledger_message(&transaction);
        let expected = if message.is_signer(0) && message.is_writable(0) {
            Some(keys[0])
        } else {
            None
        };
        assert_eq!(get_payer(&transaction), expected);
    }
}

#[test]
fn account_meta_follows_the_ledgers_message_type() {
    let transaction = Transaction::new(
        header(2, 1, 1),
        vec![key(1), key(2), key(3), key(4), key(0)],
        vec![instruction(3, vec![0, 1, 2, 4], vec![1]), instruction(4, vec![2, 3], vec![])],
    )
    .unwrap();
    let message = ledger_message(&transaction);
    for index in 0..5 {
        let meta = transaction.account_meta(index);
        assert_eq!(meta.pubkey, transaction.account_keys()[index]);
        assert_eq!(meta.is_signer, message.is_signer(index));
        assert_eq!(meta.is_writable, message.is_maybe_writable(index, None));
    }
    assert!(transaction.account_meta(0).is_writable);
    assert!(!transaction.account_meta(1).is_writable);
    assert!(transaction.account_meta(2).is_writable);
    assert!(!transaction.account_meta(4).is_writable);
}

#[test]
fn writable_address_is_read_only_where_it_is_called_as_a_program() {
    let transaction = Transaction::new(
        header(1, 0, 0),
        vec![key(1), key(2), key(3)],
        vec![instruction(2, vec![0, 1, 2], vec![])],
    )
    .unwrap();
    assert!(transaction.account_meta(1).is_writable);
    assert!(!transaction.account_meta(2).is_writable);
    let text = render_instruction(&transaction, 0);
    assert!(text.contains(&format!(
        "{{\"pubkey\": \"{}\", \"is_signer\": false, \"is_writable\": true}}",
        key(2).to_text()
    )));
    assert!(text.contains(&format!(
        "{{\"pubkey\": \"{}\", \"is_signer\": false, \"is_writable\": false}}",
        key(3).to_text()
    )));
}

#[test]
fn meta_json_text_lays_out_one_record() {
    assert_eq!(
        meta_json_text("Key", true, false),
        "{\"pubkey\": \"Key\", \"is_signer\": true, \"is_writable\": false}"
    );
    assert_eq!(
        meta_json_text("", false, true),
        "{\"pubkey\": \"\", \"is_signer\": false, \"is_writable\": true}"
    );
}

#[test]
fn instruction_json_text_lays_out_one_instruction() {
    let metas = vec!["{A}".to_string(), "{B}".to_string()];
    let expected = "        {
            \"program_id\": \"Prog\",
            \"accounts\": [
                {A},
                {B}
            ],
            \"data\": [7, 8]
        }";
    assert_eq!(instruction_json_text("Prog", &metas, &vec![7, 8]), expected);
    let bare = "        {
            \"program_id\": \"Prog\",
            \"accounts\": [
                
            ],
            \"data\": []
        }";
    assert_eq!(instruction_json_text("Prog", &Vec::new(), &Vec::new()), bare);
}

#[test]
fn transaction_json_text_lays_out_the_file() {
    let instructions = vec!["        {one}".to_string(), "        {two}".to_string()];
    let expected = "{
    \"payer\": \"Payer\",
    \"instructions\": [
        {one}, 
        {two}
    ]
}";
    assert_eq!(transaction_json_text("Payer", &instructions), expected);
    let bare = "{\n    \"payer\": \"Payer\",\n    \"instructions\": [\n\n    ]\n}";
    assert_eq!(transaction_json_text("Payer", &Vec::new()), bare);
}

#[test]
fn save_transaction_writes_the_whole_file() {
    let transaction = Transaction::new(
        header(1, 0, 1),
        vec![key(1), key(0)],
        vec![instruction(1, vec![0, 1], vec![2, 0, 0, 0]), instruction(1, vec![0], vec![])],
    )
    .unwrap();
    let expected = format!(
        "{{
    \"payer\": \"{payer}\",
    \"instructions\": [
        {{
            \"program_id\": \"{system}\",
            \"accounts\": [
                {{\"pubkey\": \"{payer}\", \"is_signer\": true, \"is_writable\": true}},
                {{\"pubkey\": \"{system}\", \"is_signer\": false, \"is_writable\": false}}
            ],
            \"data\": [2, 0, 0, 0]
        }}, 
        {{
            \"program_id\": \"{system}\",
            \"accounts\": [
                {{\"pubkey\": \"{payer}\", \"is_signer\": true, \"is_writable\": true}}
            ],
            \"data\": []
        }}
    ]
}}",
        payer = PAYER_TEXT,
        system = SYSTEM_TEXT
    );
    assert_eq!(save_transaction(&transaction), Ok(expected));
}

#[test]
fn save_transaction_keeps_the_order_of_instructions_and_accounts() {
    let transaction = Transaction::new(
        header(1, 0, 0),
        vec![key(1), key(2), key(3), key(4)],
        vec![instruction(3, vec![2, 0, 1, 2], vec![1]), instruction(2, vec![1, 0], vec![2])],
    )
    .unwrap();
    let text = save_transaction(&transaction).unwrap();
    let mut places = Vec::new();
    let mut from = 0;
    for wanted in [key(4), key(3), key(1), key(2), key(3), key(3), key(2), key(1)] {
        let needle = format!("\"{}\"", wanted.to_text());
        let at = from + text[from..].find(&needle).unwrap();
        places.push(at);
        from = at + needle.len();
    }
    assert_eq!(text.matches("\"pubkey\"").count(), 6);
    assert_eq!(text.matches("\"program_id\"").count(), 2);
    assert!(text.find("\"data\": [1]").unwrap() < text.find("\"data\": [2]").unwrap());
}

#[test]
fn error_messages_say_what_is_wrong() {
    assert_eq!(
        CaptureError::MissingPayer.message(),
        "the transaction has no payer: its account table is empty"
    );
    assert_eq!(
        CaptureError::PayerNotSigner.message(),
        "the payer at index 0 does not sign the transaction"
    );
    assert_eq!(CaptureError::PayerNotWritable.message(), "the payer at index 0 is not writable");
}
