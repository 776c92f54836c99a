use input_capture::account::{decode_payload, render_account, AccountSnapshot};
use input_capture::accounts::{get_debugee_id, save_accounts};
use input_capture::address::Address;
use input_capture::archiver::{AccountArchiver, AccountFile, Query, Source};
use input_capture::ledger::Ledger;
use input_capture::transaction::{Header, Instruction, Transaction};

fn key(byte: u8) -> Address {
    Address::new([byte; 32])
}

fn snapshot(lamports: u64, data: Vec<u8>) -> AccountSnapshot {
    AccountSnapshot::new(lamports, data, key(0), false, 0).unwrap()
}

fn transaction(keys: Vec<Address>, instructions: Vec<(u8, Vec<u8>)>) -> Transaction {
    let header = Header {
        num_required_signatures: 1,
        num_readonly_signed_accounts: 0,
        num_readonly_unsigned_accounts: 0,
    };
    let instructions = instructions
        .into_iter()
        .map(|(program_id_index, accounts)| Instruction { program_id_index, accounts, data: vec![] })
        .collect();
    Transaction::new(header, keys, instructions).unwrap()
}

fn ledger(entries: Vec<(Address, AccountSnapshot)>) -> Ledger {
    let mut ledger = Ledger::new();
    for (address, snapshot) in entries {
        ledger.insert(address, snapshot);
    }
    ledger
}

fn drive(
    transaction: &Transaction,
    primary: &Ledger,
    baseline: &Ledger,
) -> (Vec<AccountFile>, Vec<Query>, Option<Address>) {
    let mut files = Vec::new();
    let mut asked = Vec::new();
    let mut step = AccountArchiver::start(transaction);
    assert!(step.file.is_none());
    while let Some(query) = step.query {
        assert!(!step.archiver.is_done());
        assert_eq!(step.archiver.query(), Some(query));
        asked.push(query);
        let found = match query.source {
            Source::Primary => primary.fetch(&query.address),
            Source::Baseline => baseline.fetch(&query.address),
        };
        step = step.archiver.step(found.map(|snapshot| snapshot.duplicate()));
        if let Some(file) = step.file.take() {
            assert_eq!(step.archiver.written(), file.number);
            files.push(file);
        }
    }
    assert!(step.archiver.is_done());
    assert_eq!(step.archiver.written(), files.len() as u64);
    (files, asked, step.archiver.debugee())
}

const PAYER: u8 = 1;
const SYSTEM: u8 = 0;
const USER: u8 = 9;

fn three_accounts() -> (Transaction, Ledger, Ledger) {
    let tx = transaction(vec![key(PAYER), key(SYSTEM), key(USER)], vec![(2, vec![0])]);
    let primary = ledger(vec![
        (key(PAYER), snapshot(500, vec![])),
        (key(SYSTEM), snapshot(1, vec![7, 7])),
        (key(USER), snapshot(1, vec![1, 2, 3])),
    ]);
    let baseline = ledger(vec![(key(SYSTEM), snapshot(1, vec![7, 7]))]);
    (tx, primary, baseline)
}

#[test]
fn debugee_is_the_program_that_the_baseline_lacks() {
    let (tx, _, baseline) = three_accounts();
    assert_eq!(get_debugee_id(&baseline, &tx), Some(key(USER)));
}

#[test]
fn debugee_is_the_first_such_program() {
    let tx = transaction(
        vec![key(1), key(2), key(3), key(4)],
        vec![(1, vec![]), (3, vec![]), (2, vec![])],
    );
    let baseline = ledger(vec![(key(2), snapshot(1, vec![]))]);
    assert_eq!(get_debugee_id(&baseline, &tx), Some(key(4)));
    assert_eq!(get_debugee_id(&Ledger::new(), &tx), Some(key(2)));
}

#[test]
fn no_debugee_where_the_baseline_holds_every_program() {
    let tx = transaction(vec![key(1), key(2), key(3)], vec![(1, vec![0]), (2, vec![0])]);
    let baseline = ledger(vec![(key(2), snapshot(1, vec![])), (key(3), snapshot(1, vec![]))]);
    assert_eq!(get_debugee_id(&baseline, &tx), None);
    let bare = transaction(vec![key(1)], vec![]);
    assert_eq!(get_debugee_id(&Ledger::new(), &bare), None);
}

#[test]
fn only_the_payer_is_kept_of_payer_system_and_user_program() {
    let (tx, primary, baseline) = three_accounts();
    let files = save_accounts(&primary, &tx, &baseline);
    assert_eq!(files.len(), 1);
    assert_eq!(files[0].number, 1);
    assert_eq!(files[0].key_index, 0);
    assert_eq!(files[0].address, key(PAYER));
    assert_eq!(files[0].name, "account_1.json");
    assert_eq!(files[0].contents, render_account(&key(PAYER), &snapshot(500, vec![])));
    assert!(files.iter().all(|file| file.address != key(USER)));
    assert!(files.iter().all(|file| file.address != key(SYSTEM)));
}

#[test]
fn archiver_asks_as_little_as_the_rules_need() {
    let (tx, primary, baseline) = three_accounts();
    let (files, asked, debugee) = drive(&tx, &primary, &baseline);
    assert_eq!(debugee, Some(key(USER)));
    assert_eq!(
        asked,
        vec![
            Query { source: Source::Baseline, address: key(USER) },
            Query { source: Source::Primary, address: key(PAYER) },
            Query { source: Source::Baseline, address: key(PAYER) },
            Query { source: Source::Primary, address: key(SYSTEM) },
            Query { source: Source::Baseline, address: key(SYSTEM) },
        ]
    );
    assert_eq!(files, save_accounts(&primary, &tx, &baseline));
}

#[test]
fn archiver_and_whole_run_agree() {
    let keys: Vec<Address> = (1..=6).map(key).collect();
    let tx = transaction(keys, vec![(4, vec![0, 1]), (5, vec![2, 3])]);
    let primary = ledger(vec![
        (key(1), snapshot(10, vec![1])),
        (key(2), snapshot(20, vec![2])),
        (key(4), snapshot(40, vec![4])),
        (key(5), snapshot(50, vec![5])),
        (key(6), snapshot(60, vec![6])),
    ]);
    let baseline = ledger(vec![
        (key(2), snapshot(20, vec![2])),
        (key(4), snapshot(41, vec![4])),
        (key(5), snapshot(50, vec![5])),
    ]);
    let (files, _, debugee) = drive(&tx, &primary, &baseline);
    assert_eq!(debugee, Some(key(6)));
    assert_eq!(files, save_accounts(&primary, &tx, &baseline));
    let kept: Vec<Address> = files.iter().map(|file| file.address).collect();
    assert_eq!(kept, vec![key(1), key(4)]);
}

#[test]
fn accounts_that_the_primary_oracle_lacks_are_not_written() {
    let tx = transaction(vec![key(1), key(2), key(3)], vec![]);
    let primary = ledger(vec![(key(2), snapshot(5, vec![1]))]);
    let files = save_accounts(&primary, &tx, &Ledger::new());
    assert_eq!(files.len(), 1);
    assert_eq!(files[0].address, key(2));
    assert!(save_accounts(&Ledger::new(), &tx, &Ledger::new()).is_empty());
}

#[test]
fn accounts_that_equal_the_baseline_are_not_written() {
    let tx = transaction(vec![key(1), key(2), key(3), key(4), key(5), key(6)], vec![]);
    let owner = key(7);
    let primary = ledger(vec![
        (key(1), AccountSnapshot::new(5, vec![1], owner, false, 3).unwrap()),
        (key(2), AccountSnapshot::new(5, vec![1], owner, false, 3).unwrap()),
        (key(3), AccountSnapshot::new(5, vec![1], owner, false, 3).unwrap()),
        (key(4), AccountSnapshot::new(5, vec![1], owner, false, 3).unwrap()),
        (key(5), AccountSnapshot::new(5, vec![1], owner, false, 3).unwrap()),
        (key(6), AccountSnapshot::new(5, vec![1], owner, false, 3).unwrap()),
    ]);
    let baseline = ledger(vec![
        (key(1), AccountSnapshot::new(5, vec![1], owner, false, 3).unwrap()),
        (key(2), AccountSnapshot::new(6, vec![1], owner, false, 3).unwrap()),
        (key(3), AccountSnapshot::new(5, vec![2], owner, false, 3).unwrap()),
        (key(4), AccountSnapshot::new(5, vec![1], key(8), false, 3).unwrap()),
        (key(5), AccountSnapshot::new(5, vec![1], owner, true, 3).unwrap()),
        (key(6), AccountSnapshot::new(5, vec![1], owner, false, 4).unwrap()),
    ]);
    let files = save_accounts(&primary, &tx, &baseline);
    let kept: Vec<Address> = files.iter().map(|file| file.address).collect();
    assert_eq!(kept, vec![key(2), key(3), key(4), key(5), key(6)]);
}

#[test]
fn debugee_is_not_written_even_where_it_differs_from_the_baseline() {
    let tx = transaction(vec![key(1), key(2), key(3)], vec![(1, vec![0, 2])]);
    let primary = ledger(vec![
        (key(1), snapshot(1, vec![])),
        (key(2), snapshot(2, vec![9, 9])),
        (key(3), snapshot(3, vec![])),
    ]);
    let files = save_accounts(&primary, &tx, &Ledger::new());
    let kept: Vec<Address> = files.iter().map(|file| file.address).collect();
    assert_eq!(kept, vec![key(1), key(3)]);
    let (_, asked, _) = drive(&tx, &primary, &Ledger::new());
    assert!(!asked.contains(&Query { source: Source::Primary, address: key(2) }));
}

#[test]
fn without_a_debugee_the_capture_goes_on() {
    let tx = transaction(vec![key(1), key(2)], vec![(1, vec![0])]);
    let primary = ledger(vec![(key(1), snapshot(1, vec![])), (key(2), snapshot(2, vec![1]))]);
    let baseline = ledger(vec![(key(2), snapshot(2, vec![0]))]);
    let (files, _, debugee) = drive(&tx, &primary, &baseline);
    assert_eq!(debugee, None);
    let kept: Vec<Address> = files.iter().map(|file| file.address).collect();
    assert_eq!(kept, vec![key(1), key(2)]);
}

#[test]
fn files_are_numbered_from_one_without_a_gap() {
    let keys: Vec<Address> = (1..=12).map(key).collect();
    let tx = transaction(keys, vec![(11, vec![0])]);
    let mut primary = Ledger::new();
    let mut baseline = Ledger::new();
    for byte in 1..=12u8 {
        if byte % 3 != 0 {
            primary.insert(key(byte), snapshot(byte as u64, vec![byte]));
        }
        if byte % 4 == 0 {
            baseline.insert(key(byte), snapshot(byte as u64, vec![byte]));
        }
    }
    let files = save_accounts(&primary, &tx, &baseline);
    let kept: Vec<Address> = files.iter().map(|file| file.address).collect();
    assert_eq!(kept, vec![key(1), key(2), key(5), key(7), key(10), key(11)]);
    for (place, file) in files.iter().enumerate() {
        assert_eq!(file.number, place as u64 + 1);
        assert_eq!(file.name, format!("account_{}.json", place + 1));
        assert_eq!(file.address, tx.account_keys()[file.key_index]);
    }
    for pair in files.windows(2) {
        assert!(pair[0].key_index < pair[1].key_index);
    }
}

#[test]
fn an_address_that_stands_twice_in_the_table_is_written_twice() {
    let tx = transaction(vec![key(1), key(2), key(1)], vec![]);
    let primary = ledger(vec![(key(1), snapshot(1, vec![]))]);
    let files = save_accounts(&primary, &tx, &Ledger::new());
    assert_eq!(files.len(), 2);
    assert_eq!((files[0].key_index, files[0].number), (0, 1));
    assert_eq!((files[1].key_index, files[1].number), (2, 2));
}

#[test]
fn an_empty_table_gives_no_file_and_no_question() {
    let tx = transaction(Vec::new(), vec![]);
    let (files, asked, debugee) = drive(&tx, &Ledger::new(), &Ledger::new());
    assert!(files.is_empty());
    assert!(asked.is_empty());
    assert_eq!(debugee, None);
}

#[test]
fn a_finished_archiver_stays_finished() {
    let tx = transaction(vec![key(1)], vec![]);
    let start = AccountArchiver::start(&tx);
    let done = start.archiver.step(None);
    assert!(done.archiver.is_done());
    assert!(done.query.is_none());
    let again = done.archiver.step(Some(snapshot(1, vec![])));
    assert!(again.archiver.is_done());
    assert!(again.file.is_none());
    assert!(again.query.is_none());
    assert_eq!(again.archiver.written(), 0);
}

#[test]
fn written_payloads_decode_to_what_the_primary_oracle_holds() {
    let tx = transaction(vec![key(1), key(2), key(3)], vec![]);
    let primary = ledger(vec![
        (key(1), snapshot(1, vec![0, 1, 2, 3, 4])),
        (key(2), snapshot(1, (0..200).collect())),
        (key(3), snapshot(1, vec![])),
    ]);
    let files = save_accounts(&primary, &tx, &Ledger::new());
    assert_eq!(files.len(), 3);
    for file in files {
        let marker = "\"data\": [\n      \"";
        let start = file.contents.find(marker).unwrap() + marker.len();
        let end = start + file.contents[start..].find('"').unwrap();
        let payload = decode_payload(&file.contents[start..end]).unwrap();
        assert_eq!(&payload, primary.fetch(&file.address).unwrap().data());
    }
}
