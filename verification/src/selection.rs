//! Which accounts of a transaction are worth keeping, stated over two
//! snapshot oracles as mathematical maps: the primary one, which holds the
//! state the transaction runs against, and the baseline, which holds what
//! every fresh environment holds.

use crate::account::{account_record, SnapshotView};
use crate::layout::account_file_name;
use crate::transaction::TransactionView;
use vstd::prelude::*;

verus! {

/// The program address of the first instruction, from the instruction at
/// `from` on, that the baseline does not hold; `None` where it holds them
/// all.
pub open spec fn debugee_from(
    transaction: TransactionView,
    baseline: Map<Seq<u8>, SnapshotView>,
    from: int,
) -> Option<Seq<u8>>
    decreases transaction.instructions.len() - from,
{
    if from < 0 || from >= transaction.instructions.len() {
        None
    } else if !baseline.contains_key(transaction.program(from)) {
        Some(transaction.program(from))
    } else {
        debugee_from(transaction, baseline, from + 1)
    }
}

/// The program under test: the program address of the first instruction
/// that the baseline does not hold.
pub open spec fn debugee(transaction: TransactionView, baseline: Map<Seq<u8>, SnapshotView>) -> Option<
    Seq<u8>,
> {
    debugee_from(transaction, baseline, 0)
}

/// Whether the account at `address` is kept: it is not the program under
/// test, the primary oracle holds it, and the baseline does not hold the
/// very same contents.
pub open spec fn interesting(
    address: Seq<u8>,
    debugee: Option<Seq<u8>>,
    primary: Map<Seq<u8>, SnapshotView>,
    baseline: Map<Seq<u8>, SnapshotView>,
) -> bool {
    &&& debugee != Some(address)
    &&& primary.contains_key(address)
    &&& !(baseline.contains_key(address) && baseline[address] == primary[address])
}

/// An account file as mathematical values.
#[verifier::ext_equal]
pub struct AccountFileView {
    pub number: nat,
    pub key_index: nat,
    pub address: Seq<u8>,
    pub name: Seq<char>,
    pub contents: Seq<char>,
}

/// The file with number `number` for the snapshot found at `address`, which
/// stands at `key_index` in the account table.
pub open spec fn account_file(
    number: nat,
    key_index: nat,
    address: Seq<u8>,
    snapshot: SnapshotView,
) -> AccountFileView {
    AccountFileView {
        number,
        key_index,
        address,
        name: account_file_name(number),
        contents: account_record(address, snapshot),
    }
}

/// The files for the first `count` addresses of the account table `keys`:
/// one for each kept address, in the table's order, numbered from 1 without
/// a gap.
pub open spec fn archive_prefix(
    keys: Seq<Seq<u8>>,
    debugee: Option<Seq<u8>>,
    primary: Map<Seq<u8>, SnapshotView>,
    baseline: Map<Seq<u8>, SnapshotView>,
    count: int,
) -> Seq<AccountFileView>
    decreases count,
{
    if count <= 0 {
        Seq::empty()
    } else {
        let before = archive_prefix(keys, debugee, primary, baseline, count - 1);
        let address = keys[count - 1];
        if interesting(address, debugee, primary, baseline) {
            before.push(
                account_file(before.len() + 1, (count - 1) as nat, address, primary[address]),
            )
        } else {
            before
        }
    }
}

/// The account files of a capture of `transaction`.
pub open spec fn archive(
    transaction: TransactionView,
    primary: Map<Seq<u8>, SnapshotView>,
    baseline: Map<Seq<u8>, SnapshotView>,
) -> Seq<AccountFileView> {
    archive_prefix(
        transaction.account_keys,
        debugee(transaction, baseline),
        primary,
        baseline,
        transaction.account_keys.len() as int,
    )
}

/// The program under test, where there is one, is the program of an
/// instruction that the baseline does not hold, and the baseline holds the
/// program of every instruction before it. Where there is none, the
/// baseline holds the program of every instruction.
pub proof fn lemma_debugee_is_first_absent_program(
    transaction: TransactionView,
    baseline: Map<Seq<u8>, SnapshotView>,
)
    ensures
        match debugee(transaction, baseline) {
            Some(address) => exists|i: int|
                0 <= i < transaction.instructions.len() && #[trigger] transaction.program(i)
                    == address && !baseline.contains_key(address) && forall|j: int|
                    0 <= j < i ==> baseline.contains_key(#[trigger] transaction.program(j)),
            None => forall|i: int|
                0 <= i < transaction.instructions.len() ==> baseline.contains_key(
                    #[trigger] transaction.program(i),
                ),
        },
{
    lemma_debugee_from(transaction, baseline, 0);
}

proof fn lemma_debugee_from(
    transaction: TransactionView,
    baseline: Map<Seq<u8>, SnapshotView>,
    from: int,
)
    requires
        0 <= from,
    ensures
        match debugee_from(transaction, baseline, from) {
            Some(address) => exists|i: int|
                from <= i < transaction.instructions.len() && #[trigger] transaction.program(i)
                    == address && !baseline.contains_key(address) && forall|j: int|
                    from <= j < i ==> baseline.contains_key(#[trigger] transaction.program(j)),
            None => forall|i: int|
                from <= i < transaction.instructions.len() ==> baseline.contains_key(
                    #[trigger] transaction.program(i),
                ),
        },
    decreases transaction.instructions.len() - from,
{
    if from >= transaction.instructions.len() {
    } else if !baseline.contains_key(transaction.program(from)) {
        assert(transaction.program(from) == transaction.program(from));
    } else {
        lemma_debugee_from(transaction, baseline, from + 1);
        match debugee_from(transaction, baseline, from + 1) {
            Some(address) => {
                let i = choose|i: int|
                    from + 1 <= i < transaction.instructions.len() && #[trigger] transaction.program(
                        i,
                    ) == address && !baseline.contains_key(address) && forall|j: int|
                        from + 1 <= j < i ==> baseline.contains_key(
                            #[trigger] transaction.program(j),
                        );
                assert forall|j: int| from <= j < i implies baseline.contains_key(
                    #[trigger] transaction.program(j),
                ) by {
                    if j > from {
                    }
                }
                assert(transaction.program(i) == address);
            },
            None => {
                assert forall|i: int|
                    from <= i < transaction.instructions.len() implies baseline.contains_key(
                    #[trigger] transaction.program(i),
                ) by {
                    if i > from {
                    }
                }
            },
        }
    }
}

/// What holds of every file among those for the first `count` addresses:
/// its number is its place counted from 1, it stands for a kept address of
/// the table, and the files follow the table's order.
pub proof fn lemma_archive_prefix(
    keys: Seq<Seq<u8>>,
    debugee: Option<Seq<u8>>,
    primary: Map<Seq<u8>, SnapshotView>,
    baseline: Map<Seq<u8>, SnapshotView>,
    count: int,
)
    requires
        0 <= count <= keys.len(),
    ensures
        archive_prefix(keys, debugee, primary, baseline, count).len() <= count,
        forall|k: int|
            0 <= k < archive_prefix(keys, debugee, primary, baseline, count).len() ==> {
                let file = #[trigger] archive_prefix(keys, debugee, primary, baseline, count)[k];
                &&& file.number == k + 1
                &&& file.key_index < count
                &&& file.address == keys[file.key_index as int]
                &&& interesting(file.address, debugee, primary, baseline)
                &&& file == account_file(
                    (k + 1) as nat,
                    file.key_index,
                    file.address,
                    primary[file.address],
                )
            },
        forall|a: int, b: int|
            0 <= a < b < archive_prefix(keys, debugee, primary, baseline, count).len()
                ==> (#[trigger] archive_prefix(keys, debugee, primary, baseline, count)[a]).key_index
                < (#[trigger] archive_prefix(keys, debugee, primary, baseline, count)[b]).key_index,
        forall|i: int|
            0 <= i < count && interesting(#[trigger] keys[i], debugee, primary, baseline)
                ==> exists|k: int|
                0 <= k < archive_prefix(keys, debugee, primary, baseline, count).len()
                    && (#[trigger] archive_prefix(keys, debugee, primary, baseline, count)[k]).key_index
                    == i,
    decreases count,
{
    if count > 0 {
        lemma_archive_prefix(keys, debugee, primary, baseline, count - 1);
        let before = archive_prefix(keys, debugee, primary, baseline, count - 1);
        let now = archive_prefix(keys, debugee, primary, baseline, count);
        let address = keys[count - 1];
        assert forall|i: int|
            0 <= i < count && interesting(#[trigger] keys[i], debugee, primary, baseline) implies exists|
            k: int,
        | 0 <= k < now.len() && (#[trigger] now[k]).key_index == i by {
            if i < count - 1 {
                let k = choose|k: int|
                    0 <= k < before.len() && (#[trigger] before[k]).key_index == i;
                assert(now[k] == before[k]);
            } else {
                assert(now[now.len() - 1].key_index == i);
            }
        }
    }
}

/// No file is written for an address that the primary oracle does not hold.
pub proof fn lemma_absent_accounts_are_not_written(
    transaction: TransactionView,
    primary: Map<Seq<u8>, SnapshotView>,
    baseline: Map<Seq<u8>, SnapshotView>,
    address: Seq<u8>,
)
    requires
        !primary.contains_key(address),
    ensures
        forall|k: int|
            0 <= k < archive(transaction, primary, baseline).len() ==> (#[trigger] archive(
                transaction,
                primary,
                baseline,
            )[k]).address != address,
{
    lemma_archive_prefix(
        transaction.account_keys,
        debugee(transaction, baseline),
        primary,
        baseline,
        transaction.account_keys.len() as int,
    );
}

/// No file is written for an address at which both oracles hold the same
/// contents, field for field.
pub proof fn lemma_baseline_accounts_are_not_written(
    transaction: TransactionView,
    primary: Map<Seq<u8>, SnapshotView>,
    baseline: Map<Seq<u8>, SnapshotView>,
    address: Seq<u8>,
)
    requires
        primary.contains_key(address),
        baseline.contains_key(address),
        primary[address] == baseline[address],
    ensures
        forall|k: int|
            0 <= k < archive(transaction, primary, baseline).len() ==> (#[trigger] archive(
                transaction,
                primary,
                baseline,
            )[k]).address != address,
{
    lemma_archive_prefix(
        transaction.account_keys,
        debugee(transaction, baseline),
        primary,
        baseline,
        transaction.account_keys.len() as int,
    );
}

/// No file is written for the address of the program under test.
pub proof fn lemma_debugee_is_not_written(
    transaction: TransactionView,
    primary: Map<Seq<u8>, SnapshotView>,
    baseline: Map<Seq<u8>, SnapshotView>,
)
    ensures
        forall|k: int|
            0 <= k < archive(transaction, primary, baseline).len() ==> debugee(
                transaction,
                baseline,
            ) != Some(
                (#[trigger] archive(transaction, primary, baseline)[k]).address,
            ),
{
    lemma_archive_prefix(
        transaction.account_keys,
        debugee(transaction, baseline),
        primary,
        baseline,
        transaction.account_keys.len() as int,
    );
}

/// The files are numbered 1, 2, 3 and so on in the order in which they are
/// written, whatever was left out in between; each is named by its number
/// and stands for an address of the account table; and they follow the
/// order of the table.
pub proof fn lemma_files_are_numbered_in_table_order(
    transaction: TransactionView,
    primary: Map<Seq<u8>, SnapshotView>,
    baseline: Map<Seq<u8>, SnapshotView>,
)
    ensures
        archive(transaction, primary, baseline).len() <= transaction.account_keys.len(),
        forall|k: int|
            0 <= k < archive(transaction, primary, baseline).len() ==> {
                let file = #[trigger] archive(transaction, primary, baseline)[k];
                &&& file.number == k + 1
                &&& file.name == account_file_name((k + 1) as nat)
                &&& file.key_index < transaction.account_keys.len()
                &&& file.address == transaction.account_keys[file.key_index as int]
            },
        forall|a: int, b: int|
            0 <= a < b < archive(transaction, primary, baseline).len() ==> (#[trigger] archive(
                transaction,
                primary,
                baseline,
            )[a]).key_index < (#[trigger] archive(transaction, primary, baseline)[b]).key_index,
{
    lemma_archive_prefix(
        transaction.account_keys,
        debugee(transaction, baseline),
        primary,
        baseline,
        transaction.account_keys.len() as int,
    );
}

/// Every kept address of the account table gets a file, and the file holds
/// the text of the snapshot that the primary oracle holds there.
pub proof fn lemma_interesting_accounts_are_written(
    transaction: TransactionView,
    primary: Map<Seq<u8>, SnapshotView>,
    baseline: Map<Seq<u8>, SnapshotView>,
    index: int,
)
    requires
        0 <= index < transaction.account_keys.len(),
        interesting(
            transaction.account_keys[index],
            debugee(transaction, baseline),
            primary,
            baseline,
        ),
    ensures
        exists|k: int|
            0 <= k < archive(transaction, primary, baseline).len() && (#[trigger] archive(
                transaction,
                primary,
                baseline,
            )[k]).key_index == index && archive(transaction, primary, baseline)[k].contents
                == account_record(
                transaction.account_keys[index],
                primary[transaction.account_keys[index]],
            ),
{
    let keys = transaction.account_keys;
    let program = debugee(transaction, baseline);
    lemma_archive_prefix(keys, program, primary, baseline, keys.len() as int);
    assert(interesting(keys[index], program, primary, baseline));
    let files = archive(transaction, primary, baseline);
    let k = choose|k: int| 0 <= k < files.len() && (#[trigger] files[k]).key_index == index;
    assert(files[k].address == keys[index]);
}

} // verus!
