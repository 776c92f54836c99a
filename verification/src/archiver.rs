//! The account archiver as a machine that is fed oracle answers one at a
//! time. It says which oracle to ask about which address next and which
//! file to write; whoever drives it asks and writes.

use crate::account::{base64_bytes, base64_text, render_account, AccountSnapshot, SnapshotView};
use crate::address::{address_views, Address};
use crate::layout::account_file_name_text;
use crate::selection::{account_file, AccountFileView};
use crate::transaction::{Transaction, TransactionView};
use vstd::prelude::*;

verus! {

/// One of the two snapshot oracles.
#[derive(Clone, Copy, Debug, PartialEq, Eq, Structural)]
pub enum Source {
    /// The oracle that holds the state the transaction runs against.
    Primary,
    /// The oracle that holds what every fresh environment holds.
    Baseline,
}

/// A question to an oracle: what stands at `address`?
#[derive(Clone, Copy, Debug, PartialEq, Eq)]
pub struct Query {
    pub source: Source,
    pub address: Address,
}

/// A question as mathematical values.
pub struct QueryView {
    pub source: Source,
    pub address: Seq<u8>,
}

impl View for Query {
    type V = QueryView;

    open spec fn view(&self) -> QueryView {
        QueryView { source: self.source, address: self.address@ }
    }
}

/// An account file to be written: its number, counted from 1, the place and
/// the address of the account in the table, the file's name and its text.
#[derive(Debug, PartialEq, Eq)]
pub struct AccountFile {
    pub number: u64,
    pub key_index: usize,
    pub address: Address,
    pub name: String,
    pub contents: String,
}

impl View for AccountFile {
    type V = AccountFileView;

    open spec fn view(&self) -> AccountFileView {
        AccountFileView {
            number: self.number as nat,
            key_index: self.key_index as nat,
            address: self.address@,
            name: self.name@,
            contents: self.contents@,
        }
    }
}

/// The files of a list, each as mathematical values.
pub open spec fn file_views(files: Seq<AccountFile>) -> Seq<AccountFileView> {
    Seq::new(files.len(), |i: int| files[i]@)
}

/// What the archiver waits for.
#[derive(Clone, Copy, Debug, PartialEq, Eq, Structural)]
pub enum Phase {
    /// For the baseline's answer about the program of the instruction at the
    /// cursor: the search for the program under test.
    Identify,
    /// For the primary oracle's answer about the address at the cursor.
    Fetch,
    /// For the baseline's answer about the address at the cursor, which the
    /// primary oracle holds.
    Compare,
    /// For nothing: every address of the table was dealt with.
    Done,
}

/// The archiver's state as mathematical values.
#[verifier::ext_equal]
pub struct ArchiverView {
    pub phase: Phase,
    pub cursor: nat,
    pub debugee: Option<Seq<u8>>,
    pub pending: Option<SnapshotView>,
    pub written: nat,
}

/// An optional address as mathematical values.
pub open spec fn address_option(address: Option<Address>) -> Option<Seq<u8>> {
    match address {
        Some(address) => Some(address@),
        None => None,
    }
}

/// An optional snapshot as mathematical values.
pub open spec fn snapshot_option(snapshot: Option<AccountSnapshot>) -> Option<SnapshotView> {
    match snapshot {
        Some(snapshot) => Some(snapshot@),
        None => None,
    }
}

/// An optional question as mathematical values.
pub open spec fn query_option(query: Option<Query>) -> Option<QueryView> {
    match query {
        Some(query) => Some(query@),
        None => None,
    }
}

/// An optional file as mathematical values.
pub open spec fn file_option(file: Option<AccountFile>) -> Option<AccountFileView> {
    match file {
        Some(file) => Some(file@),
        None => None,
    }
}

/// The place of the first address of `keys`, from `from` on, that is not
/// the program under test; the length of `keys` where there is none.
pub open spec fn next_candidate(keys: Seq<Seq<u8>>, debugee: Option<Seq<u8>>, from: int) -> int
    decreases keys.len() - from,
{
    if from < 0 || from >= keys.len() {
        keys.len() as int
    } else if debugee == Some(keys[from]) {
        next_candidate(keys, debugee, from + 1)
    } else {
        from
    }
}

/// The state in which the addresses before `from` are dealt with: it waits
/// for the primary oracle's answer about the next address that is not the
/// program under test, or for nothing.
pub open spec fn fetch_from(
    transaction: TransactionView,
    debugee: Option<Seq<u8>>,
    written: nat,
    from: int,
) -> ArchiverView {
    let at = next_candidate(transaction.account_keys, debugee, from);
    ArchiverView {
        phase: if at < transaction.account_keys.len() {
            Phase::Fetch
        } else {
            Phase::Done
        },
        cursor: at as nat,
        debugee,
        pending: None,
        written,
    }
}

/// The state before any answer: the search for the program under test
/// starts at the first instruction; without instructions there is no such
/// program.
pub open spec fn initial(transaction: TransactionView) -> ArchiverView {
    if transaction.instructions.len() > 0 {
        ArchiverView {
            phase: Phase::Identify,
            cursor: 0,
            debugee: None,
            pending: None,
            written: 0,
        }
    } else {
        fetch_from(transaction, None, 0, 0)
    }
}

/// The question that the state waits on.
pub open spec fn query_of(transaction: TransactionView, state: ArchiverView) -> Option<QueryView> {
    match state.phase {
        Phase::Identify => Some(
            QueryView {
                source: Source::Baseline,
                address: transaction.program(state.cursor as int),
            },
        ),
        Phase::Fetch => Some(
            QueryView {
                source: Source::Primary,
                address: transaction.account_keys[state.cursor as int],
            },
        ),
        Phase::Compare => Some(
            QueryView {
                source: Source::Baseline,
                address: transaction.account_keys[state.cursor as int],
            },
        ),
        Phase::Done => None,
    }
}

/// The file that the answer `answer` makes the state give out: one for the
/// address at the cursor where the baseline's answer is not the very
/// snapshot that the primary oracle gave.
pub open spec fn emitted(
    transaction: TransactionView,
    state: ArchiverView,
    answer: Option<SnapshotView>,
) -> Option<AccountFileView> {
    if state.phase == Phase::Compare && state.pending is Some && answer != state.pending {
        Some(
            account_file(
                state.written + 1,
                state.cursor,
                transaction.account_keys[state.cursor as int],
                state.pending->0,
            ),
        )
    } else {
        None
    }
}

/// The state after the answer `answer`.
pub open spec fn next(
    transaction: TransactionView,
    state: ArchiverView,
    answer: Option<SnapshotView>,
) -> ArchiverView {
    match state.phase {
        Phase::Identify => if answer is None {
            fetch_from(transaction, Some(transaction.program(state.cursor as int)), 0, 0)
        } else if state.cursor + 1 < transaction.instructions.len() {
            ArchiverView {
                phase: Phase::Identify,
                cursor: state.cursor + 1,
                debugee: None,
                pending: None,
                written: 0,
            }
        } else {
            fetch_from(transaction, None, 0, 0)
        },
        Phase::Fetch => match answer {
            None => fetch_from(transaction, state.debugee, state.written, state.cursor as int + 1),
            Some(snapshot) => ArchiverView {
                phase: Phase::Compare,
                cursor: state.cursor,
                debugee: state.debugee,
                pending: Some(snapshot),
                written: state.written,
            },
        },
        Phase::Compare => fetch_from(
            transaction,
            state.debugee,
            if emitted(transaction, state, answer) is Some {
                state.written + 1
            } else {
                state.written
            },
            state.cursor as int + 1,
        ),
        Phase::Done => state,
    }
}

/// Whether the state can arise for the transaction: the cursor stands inside
/// what it runs over, never on the program under test, and no more files
/// were given out than addresses were dealt with.
pub open spec fn valid(transaction: TransactionView, state: ArchiverView) -> bool {
    &&& transaction.well_formed()
    &&& match state.phase {
        Phase::Identify => {
            &&& state.cursor < transaction.instructions.len()
            &&& state.debugee is None
            &&& state.pending is None
            &&& state.written == 0
        },
        Phase::Fetch => {
            &&& state.cursor < transaction.account_keys.len()
            &&& state.debugee != Some(transaction.account_keys[state.cursor as int])
            &&& state.pending is None
            &&& state.written <= state.cursor
        },
        Phase::Compare => {
            &&& state.cursor < transaction.account_keys.len()
            &&& state.debugee != Some(transaction.account_keys[state.cursor as int])
            &&& state.pending is Some
            &&& state.written <= state.cursor
        },
        Phase::Done => {
            &&& state.cursor == transaction.account_keys.len()
            &&& state.pending is None
            &&& state.written <= state.cursor
        },
    }
}

/// Skipping the program under test ends on an address that is not it, or
/// behind the table.
pub proof fn lemma_next_candidate(keys: Seq<Seq<u8>>, debugee: Option<Seq<u8>>, from: int)
    requires
        0 <= from <= keys.len(),
    ensures
        from <= next_candidate(keys, debugee, from) <= keys.len(),
        next_candidate(keys, debugee, from) < keys.len() ==> debugee != Some(
            keys[next_candidate(keys, debugee, from)],
        ),
        forall|i: int|
            from <= i < next_candidate(keys, debugee, from) ==> debugee == Some(#[trigger] keys[i]),
    decreases keys.len() - from,
{
    if from < keys.len() && debugee == Some(keys[from]) {
        lemma_next_candidate(keys, debugee, from + 1);
    }
}

/// Whatever the oracles answer: a file is given out only on the baseline's
/// answer about an address that the primary oracle held, that is not the
/// program under test, and of which the baseline does not hold the very same
/// snapshot. The file is numbered one more than the files before it, the
/// count goes up with it and only with it, and the cursor then moves on, so
/// that later files stand for later places of the table.
pub proof fn lemma_step_gives_out_only_kept_accounts(
    transaction: TransactionView,
    state: ArchiverView,
    answer: Option<SnapshotView>,
)
    requires
        valid(transaction, state),
    ensures
        valid(transaction, next(transaction, state, answer)),
        state.phase != Phase::Identify ==> next(transaction, state, answer).debugee
            == state.debugee,
        match emitted(transaction, state, answer) {
            Some(file) => {
                &&& state.phase == Phase::Compare
                &&& state.pending is Some
                &&& answer != state.pending
                &&& state.debugee != Some(file.address)
                &&& file == account_file(
                    state.written + 1,
                    state.cursor,
                    transaction.account_keys[state.cursor as int],
                    state.pending->0,
                )
                &&& next(transaction, state, answer).written == state.written + 1
                &&& next(transaction, state, answer).cursor > state.cursor
            },
            None => next(transaction, state, answer).written == state.written,
        },
        state.phase == Phase::Fetch && answer is None ==> next(transaction, state, answer).cursor
            > state.cursor,
{
    let keys = transaction.account_keys;
    match state.phase {
        Phase::Identify => {
            lemma_next_candidate(keys, Some(transaction.program(state.cursor as int)), 0);
            lemma_next_candidate(keys, None, 0);
        },
        Phase::Fetch => {
            lemma_next_candidate(keys, state.debugee, state.cursor as int + 1);
        },
        Phase::Compare => {
            lemma_next_candidate(keys, state.debugee, state.cursor as int + 1);
        },
        Phase::Done => {},
    }
}

/// The archiver: where it stands in the transaction, which program is under
/// test, and how many files it has given out.
pub struct AccountArchiver<'a> {
    transaction: &'a Transaction,
    phase: Phase,
    cursor: usize,
    debugee: Option<Address>,
    pending: Option<AccountSnapshot>,
    written: u64,
}

impl<'a> View for AccountArchiver<'a> {
    type V = ArchiverView;

    closed spec fn view(&self) -> ArchiverView {
        ArchiverView {
            phase: self.phase,
            cursor: self.cursor as nat,
            debugee: address_option(self.debugee),
            pending: snapshot_option(self.pending),
            written: self.written as nat,
        }
    }
}

/// An archiver after an answer: the file to write now, if any, and the
/// question to put next, if any is left.
pub struct Step<'a> {
    pub archiver: AccountArchiver<'a>,
    pub file: Option<AccountFile>,
    pub query: Option<Query>,
}

fn is_debugee(debugee: &Option<Address>, address: &Address) -> (same: bool)
    ensures
        same == (address_option(*debugee) == Some(address@)),
{
    match debugee {
        Some(program) => program.same_as(address),
        None => false,
    }
}

impl<'a> AccountArchiver<'a> {
    #[verifier::type_invariant]
    spec fn can_arise(self) -> bool {
        valid(self.transaction@, self@)
    }

    /// The transaction that the archiver works on.
    pub closed spec fn transaction(&self) -> TransactionView {
        self.transaction@
    }

    fn fetching(
        transaction: &'a Transaction,
        debugee: Option<Address>,
        written: u64,
        from: usize,
    ) -> (archiver: AccountArchiver<'a>)
        requires
            from <= transaction@.account_keys.len(),
            written <= from,
        ensures
            archiver.transaction() == transaction@,
            archiver@ == fetch_from(
                transaction@,
                address_option(debugee),
                written as nat,
                from as int,
            ),
    {
        let keys = transaction.account_keys();
        let ghost table = transaction@.account_keys;
        let ghost program = address_option(debugee);
        let mut at: usize = from;
        while at < keys.len()
            invariant
                from <= at <= keys.len(),
                table == transaction@.account_keys,
                table == address_views(keys@),
                program == address_option(debugee),
                transaction@.well_formed(),
                written <= from,
                next_candidate(table, program, at as int) == next_candidate(
                    table,
                    program,
                    from as int,
                ),
            decreases keys.len() - at,
        {
            assert(table[at as int] == keys@[at as int]@);
            if !is_debugee(&debugee, &keys[at]) {
                let archiver = AccountArchiver {
                    transaction,
                    phase: Phase::Fetch,
                    cursor: at,
                    debugee,
                    pending: None,
                    written,
                };
                assert(archiver@ =~= fetch_from(
                    transaction@,
                    program,
                    written as nat,
                    from as int,
                ));
                return archiver;
            }
            at = at + 1;
        }
        let archiver = AccountArchiver {
            transaction,
            phase: Phase::Done,
            cursor: at,
            debugee,
            pending: None,
            written,
        };
        assert(archiver@ =~= fetch_from(transaction@, program, written as nat, from as int));
        archiver
    }

    /// The question that the archiver waits on; `None` once it is done.
    pub fn query(&self) -> (query: Option<Query>)
        ensures
            query_option(query) == query_of(self.transaction(), self@),
    {
        proof {
            use_type_invariant(self);
        }
        let keys = self.transaction.account_keys();
        match self.phase {
            Phase::Identify => {
                let instructions = self.transaction.instructions();
                let instruction = &instructions[self.cursor];
                assert(self.transaction@.instructions[self.cursor as int] == instruction@);
                assert(instruction@.fits(keys@.len() as nat));
                let address = keys[instruction.program_id_index as usize];
                assert(address@ == self.transaction@.program(self.cursor as int));
                Some(Query { source: Source::Baseline, address })
            },
            Phase::Fetch => {
                let address = keys[self.cursor];
                assert(address@ == self.transaction@.account_keys[self.cursor as int]);
                Some(Query { source: Source::Primary, address })
            },
            Phase::Compare => {
                let address = keys[self.cursor];
                assert(address@ == self.transaction@.account_keys[self.cursor as int]);
                Some(Query { source: Source::Baseline, address })
            },
            Phase::Done => None,
        }
    }

    /// The program under test as far as it is known: `None` until the search
    /// has found one, and for good where there is none.
    pub fn debugee(&self) -> (debugee: Option<Address>)
        ensures
            address_option(debugee) == self@.debugee,
    {
        self.debugee
    }

    /// Whether every address of the table was dealt with.
    pub fn is_done(&self) -> (done: bool)
        ensures
            done == (self@.phase == Phase::Done),
    {
        match self.phase {
            Phase::Done => true,
            _ => false,
        }
    }

    /// How many files the archiver has given out.
    pub fn written(&self) -> (written: u64)
        ensures
            written == self@.written,
    {
        self.written
    }

    /// The archiver for `transaction` before any answer, with its first
    /// question.
    pub fn start(transaction: &'a Transaction) -> (step: Step<'a>)
        ensures
            step.archiver.transaction() == transaction@,
            step.archiver@ == initial(transaction@),
            step.file is None,
            query_option(step.query) == query_of(transaction@, step.archiver@),
            valid(transaction@, step.archiver@),
    {
        let archiver = if transaction.instructions().len() > 0 {
            AccountArchiver {
                transaction,
                phase: Phase::Identify,
                cursor: 0,
                debugee: None,
                pending: None,
                written: 0,
            }
        } else {
            AccountArchiver::fetching(transaction, None, 0, 0)
        };
        proof {
            use_type_invariant(&archiver);
        }
        let query = archiver.query();
        Step { archiver, file: None, query }
    }

    /// Takes the answer to the question that the archiver waits on: the
    /// snapshot at the address asked about, or `None` where the oracle holds
    /// none. Gives the archiver after the answer, the file to write if the
    /// answer settles that an account is kept, and the next question. Once
    /// done, the archiver stays as it is.
    pub fn step(self, answer: Option<AccountSnapshot>) -> (step: Step<'a>)
        ensures
            step.archiver.transaction() == self.transaction(),
            step.archiver@ == next(self.transaction(), self@, snapshot_option(answer)),
            file_option(step.file) == emitted(self.transaction(), self@, snapshot_option(answer)),
            query_option(step.query) == query_of(self.transaction(), step.archiver@),
            valid(self.transaction(), self@),
            valid(self.transaction(), step.archiver@),
            step.file is Some ==> base64_bytes(base64_text(self@.pending->0.data)) == Some(
                self@.pending->0.data,
            ),
    {
        proof {
            use_type_invariant(&self);
        }
        let ghost before = self@;
        let ghost view = self.transaction@;
        let ghost answered = snapshot_option(answer);
        let AccountArchiver { transaction, phase, cursor, debugee, pending, written } = self;
        assert(transaction@ == view && phase == before.phase && cursor == before.cursor);
        assert(written == before.written);
        let keys = transaction.account_keys();
        let instructions = transaction.instructions();
        let mut file: Option<AccountFile> = None;
        let archiver = match phase {
            Phase::Identify => {
                assert(cursor < instructions.len());
                if answer.is_none() {
                    let instruction = &instructions[cursor];
                    assert(view.instructions[cursor as int] == instruction@);
                    assert(instruction@.fits(keys@.len() as nat));
                    let program = keys[instruction.program_id_index as usize];
                    assert(program@ == view.program(cursor as int));
                    AccountArchiver::fetching(transaction, Some(program), 0, 0)
                } else if cursor + 1 < instructions.len() {
                    AccountArchiver {
                        transaction,
                        phase: Phase::Identify,
                        cursor: cursor + 1,
                        debugee: None,
                        pending: None,
                        written: 0,
                    }
                } else {
                    AccountArchiver::fetching(transaction, None, 0, 0)
                }
            },
            Phase::Fetch => {
                assert(cursor < keys.len());
                match answer {
                    None => AccountArchiver::fetching(transaction, debugee, written, cursor + 1),
                    Some(snapshot) => AccountArchiver {
                        transaction,
                        phase: Phase::Compare,
                        cursor,
                        debugee,
                        pending: Some(snapshot),
                        written,
                    },
                }
            },
            Phase::Compare => {
                assert(cursor < keys.len());
                assert(written <= cursor);
                match pending {
                    Some(primary) => {
                        let same = match &answer {
                            Some(baseline) => baseline.same_as(&primary),
                            None => false,
                        };
                        assert(same == (answered == before.pending));
                        if same {
                            AccountArchiver::fetching(transaction, debugee, written, cursor + 1)
                        } else {
                            let number: u64 = written + 1;
                            let address = keys[cursor];
                            assert(address@ == view.account_keys[cursor as int]);
                            let made = AccountFile {
                                number,
                                key_index: cursor,
                                address,
                                name: account_file_name_text(number),
                                contents: render_account(&address, &primary),
                            };
                            assert(made@ =~= account_file(
                                before.written + 1,
                                before.cursor,
                                view.account_keys[cursor as int],
                                before.pending->0,
                            ));
                            file = Some(made);
                            AccountArchiver::fetching(transaction, debugee, number, cursor + 1)
                        }
                    },
                    None => AccountArchiver {
                        transaction,
                        phase: Phase::Done,
                        cursor,
                        debugee,
                        pending: None,
                        written,
                    },
                }
            },
            Phase::Done => AccountArchiver {
                transaction,
                phase: Phase::Done,
                cursor,
                debugee,
                pending: None,
                written,
            },
        };
        proof {
            use_type_invariant(&archiver);
            assert(archiver@ =~= next(view, before, answered));
        }
        let query = archiver.query();
        Step { archiver, file, query }
    }
}

} // verus!
