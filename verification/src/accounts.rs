//! The account archiver run to its end against two ledgers held in memory,
//! and the proof that the archiver, fed true answers, gives out exactly the
//! files of the kept accounts.

use crate::account::{base64_bytes, base64_text, AccountSnapshot, SnapshotView};
use crate::address::{address_views, Address};
use crate::archiver::{
    address_option, emitted, fetch_from, file_views, initial, next, next_candidate, query_of,
    query_option, snapshot_option, valid, AccountArchiver, AccountFile, ArchiverView, Phase,
    Query, QueryView, Source, lemma_next_candidate,
};
use crate::ledger::Ledger;
use crate::selection::{
    archive, archive_prefix, debugee, debugee_from, interesting, AccountFileView,
    lemma_archive_prefix,
};
use crate::transaction::{Transaction, TransactionView};
use vstd::prelude::*;

verus! {

/// What the oracle that `query` is put to answers: the snapshot at the
/// address, or `None` where it holds none.
pub open spec fn answer(
    primary: Map<Seq<u8>, SnapshotView>,
    baseline: Map<Seq<u8>, SnapshotView>,
    query: QueryView,
) -> Option<SnapshotView> {
    let ledger = if query.source == Source::Primary {
        primary
    } else {
        baseline
    };
    if ledger.contains_key(query.address) {
        Some(ledger[query.address])
    } else {
        None
    }
}

/// Whether `state` and the files given out so far are what true answers
/// lead to: the search has met no program that the baseline lacks, or the
/// program under test is settled and the files are those for the addresses
/// before the cursor.
pub open spec fn coherent(
    transaction: TransactionView,
    state: ArchiverView,
    primary: Map<Seq<u8>, SnapshotView>,
    baseline: Map<Seq<u8>, SnapshotView>,
    files: Seq<AccountFileView>,
) -> bool {
    let keys = transaction.account_keys;
    match state.phase {
        Phase::Identify => {
            &&& files.len() == 0
            &&& debugee_from(transaction, baseline, state.cursor as int) == debugee(
                transaction,
                baseline,
            )
        },
        Phase::Fetch => {
            &&& state.debugee == debugee(transaction, baseline)
            &&& files == archive_prefix(
                keys,
                state.debugee,
                primary,
                baseline,
                state.cursor as int,
            )
            &&& state.written == files.len()
        },
        Phase::Compare => {
            &&& state.debugee == debugee(transaction, baseline)
            &&& files == archive_prefix(
                keys,
                state.debugee,
                primary,
                baseline,
                state.cursor as int,
            )
            &&& state.written == files.len()
            &&& primary.contains_key(keys[state.cursor as int])
            &&& state.pending == Some(primary[keys[state.cursor as int]])
        },
        Phase::Done => {
            &&& state.debugee == debugee(transaction, baseline)
            &&& files == archive(transaction, primary, baseline)
            &&& state.written == files.len()
        },
    }
}

/// An upper bound on the answers that `state` still takes.
pub open spec fn remaining(transaction: TransactionView, state: ArchiverView) -> nat {
    match state.phase {
        Phase::Identify => (transaction.instructions.len() - state.cursor + 2
            * transaction.account_keys.len() + 1) as nat,
        Phase::Fetch => (2 * (transaction.account_keys.len() - state.cursor)) as nat,
        Phase::Compare => (2 * (transaction.account_keys.len() - state.cursor) - 1) as nat,
        Phase::Done => 0,
    }
}

proof fn lemma_skipped_are_not_kept(
    keys: Seq<Seq<u8>>,
    program: Option<Seq<u8>>,
    primary: Map<Seq<u8>, SnapshotView>,
    baseline: Map<Seq<u8>, SnapshotView>,
    from: int,
    to: int,
)
    requires
        0 <= from <= to <= keys.len(),
        forall|i: int| from <= i < to ==> program == Some(#[trigger] keys[i]),
    ensures
        archive_prefix(keys, program, primary, baseline, to) == archive_prefix(
            keys,
            program,
            primary,
            baseline,
            from,
        ),
    decreases to - from,
{
    if from < to {
        lemma_skipped_are_not_kept(keys, program, primary, baseline, from, to - 1);
        assert(program == Some(keys[to - 1]));
    }
}

proof fn lemma_fetch_from(
    transaction: TransactionView,
    primary: Map<Seq<u8>, SnapshotView>,
    baseline: Map<Seq<u8>, SnapshotView>,
    files: Seq<AccountFileView>,
    from: int,
)
    requires
        transaction.well_formed(),
        0 <= from <= transaction.account_keys.len(),
        files == archive_prefix(
            transaction.account_keys,
            debugee(transaction, baseline),
            primary,
            baseline,
            from,
        ),
    ensures
        valid(
            transaction,
            fetch_from(transaction, debugee(transaction, baseline), files.len(), from),
        ),
        coherent(
            transaction,
            fetch_from(transaction, debugee(transaction, baseline), files.len(), from),
            primary,
            baseline,
            files,
        ),
        remaining(
            transaction,
            fetch_from(transaction, debugee(transaction, baseline), files.len(), from),
        ) <= 2 * (transaction.account_keys.len() - from),
{
    let keys = transaction.account_keys;
    let program = debugee(transaction, baseline);
    let at = next_candidate(keys, program, from);
    lemma_next_candidate(keys, program, from);
    lemma_skipped_are_not_kept(keys, program, primary, baseline, from, at);
    lemma_archive_prefix(keys, program, primary, baseline, from);
}

/// Before any answer the archiver is in a state that true answers lead to,
/// with no file given out.
pub proof fn lemma_initial_is_coherent(
    transaction: TransactionView,
    primary: Map<Seq<u8>, SnapshotView>,
    baseline: Map<Seq<u8>, SnapshotView>,
)
    requires
        transaction.well_formed(),
    ensures
        valid(transaction, initial(transaction)),
        coherent(transaction, initial(transaction), primary, baseline, Seq::empty()),
{
    if transaction.instructions.len() == 0 {
        lemma_fetch_from(transaction, primary, baseline, Seq::empty(), 0);
    }
}

/// A true answer leads from a state that true answers lead to, to another
/// such state, with the file it gives out added to the files; and fewer
/// answers are left to take.
pub proof fn lemma_step_is_coherent(
    transaction: TransactionView,
    state: ArchiverView,
    primary: Map<Seq<u8>, SnapshotView>,
    baseline: Map<Seq<u8>, SnapshotView>,
    files: Seq<AccountFileView>,
)
    requires
        valid(transaction, state),
        coherent(transaction, state, primary, baseline, files),
        state.phase != Phase::Done,
    ensures
        ({
            let given = answer(primary, baseline, query_of(transaction, state)->0);
            let after = next(transaction, state, given);
            let files_after = match emitted(transaction, state, given) {
                Some(file) => files.push(file),
                None => files,
            };
            &&& valid(transaction, after)
            &&& coherent(transaction, after, primary, baseline, files_after)
            &&& remaining(transaction, after) < remaining(transaction, state)
        }),
{
    let keys = transaction.account_keys;
    let program = debugee(transaction, baseline);
    let given = answer(primary, baseline, query_of(transaction, state)->0);
    let cursor = state.cursor as int;
    match state.phase {
        Phase::Identify => {
            assert(files =~= Seq::empty());
            if given is None {
                assert(program == Some(transaction.program(cursor)));
                lemma_fetch_from(transaction, primary, baseline, files, 0);
            } else if cursor + 1 < transaction.instructions.len() {
            } else {
                assert(debugee_from(transaction, baseline, cursor) == debugee_from(
                    transaction,
                    baseline,
                    cursor + 1,
                ));
                assert(debugee_from(transaction, baseline, cursor + 1) is None);
                assert(program is None);
                lemma_fetch_from(transaction, primary, baseline, files, 0);
            }
        },
        Phase::Fetch => {
            if given is None {
                assert(!interesting(keys[cursor], program, primary, baseline));
                lemma_fetch_from(transaction, primary, baseline, files, cursor + 1);
            }
        },
        Phase::Compare => {
            let kept = emitted(transaction, state, given) is Some;
            assert(kept == interesting(keys[cursor], program, primary, baseline));
            let files_after = match emitted(transaction, state, given) {
                Some(file) => files.push(file),
                None => files,
            };
            assert(files_after == archive_prefix(keys, program, primary, baseline, cursor + 1));
            lemma_fetch_from(transaction, primary, baseline, files_after, cursor + 1);
        },
        Phase::Done => {},
    }
}

/// The program under test of a transaction, with the baseline held in
/// memory: the program of the first instruction that the baseline does not
/// hold.
pub fn get_debugee_id(baseline: &Ledger, transaction: &Transaction) -> (found: Option<Address>)
    ensures
        address_option(found) == debugee(transaction@, baseline@),
{
    let keys = transaction.account_keys();
    let instructions = transaction.instructions();
    let mut i: usize = 0;
    while i < instructions.len()
        invariant
            i <= instructions.len(),
            instructions@.len() == transaction@.instructions.len(),
            address_views(keys@) == transaction@.account_keys,
            crate::transaction::instruction_views(instructions@) == transaction@.instructions,
            transaction@.well_formed(),
            debugee_from(transaction@, baseline@, i as int) == debugee(transaction@, baseline@),
        decreases instructions.len() - i,
    {
        let instruction = &instructions[i];
        assert(transaction@.instructions[i as int] == instruction@);
        assert(instruction@.fits(keys@.len() as nat));
        let program = keys[instruction.program_id_index as usize];
        assert(program@ == transaction@.program(i as int));
        if baseline.fetch(&program).is_none() {
            return Some(program);
        }
        i = i + 1;
    }
    None
}

/// Archives the accounts of a transaction with both oracles held in memory:
/// `client` is the primary one. The files are those of the kept accounts,
/// in the order of the account table and numbered from 1 without a gap;
/// decoding the payload field of each gives the payload that `client` holds
/// at the file's address.
pub fn save_accounts(client: &Ledger, transaction: &Transaction, baseline: &Ledger) -> (files: Vec<
    AccountFile,
>)
    ensures
        file_views(files@) == archive(transaction@, client@, baseline@),
        forall|k: int|
            0 <= k < files@.len() ==> base64_bytes(
                base64_text(client@[(#[trigger] files@[k]).address@].data),
            ) == Some(client@[files@[k].address@].data),
{
    let mut files: Vec<AccountFile> = Vec::new();
    let first = AccountArchiver::start(transaction);
    let mut archiver = first.archiver;
    let mut query = first.query;
    proof {
        lemma_initial_is_coherent(transaction@, client@, baseline@);
        assert(file_views(files@) =~= Seq::empty());
    }
    while query.is_some()
        invariant
            archiver.transaction() == transaction@,
            valid(transaction@, archiver@),
            coherent(transaction@, archiver@, client@, baseline@, file_views(files@)),
            query_option(query) == query_of(transaction@, archiver@),
            forall|k: int|
                0 <= k < files@.len() ==> base64_bytes(
                    base64_text(client@[(#[trigger] files@[k]).address@].data),
                ) == Some(client@[files@[k].address@].data),
        decreases remaining(transaction@, archiver@),
    {
        let asked: Query = query.unwrap();
        let found = match asked.source {
            Source::Primary => client.fetch(&asked.address),
            Source::Baseline => baseline.fetch(&asked.address),
        };
        let given: Option<AccountSnapshot> = match found {
            Some(snapshot) => Some(snapshot.duplicate()),
            None => None,
        };
        let ghost before = archiver@;
        let ghost files_before = file_views(files@);
        proof {
            assert(snapshot_option(given) == answer(client@, baseline@, asked@));
            lemma_step_is_coherent(transaction@, before, client@, baseline@, files_before);
        }
        let step = archiver.step(given);
        archiver = step.archiver;
        query = step.query;
        match step.file {
            Some(file) => {
                proof {
                    assert(file_views(files@.push(file)) =~= files_before.push(file@));
                    assert(file@.address == transaction@.account_keys[before.cursor as int]);
                    assert(before.pending == Some(client@[file@.address]));
                }
                files.push(file);
            },
            None => {},
        }
    }
    files
}

} // verus!
