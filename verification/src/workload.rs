//! Synthetic workloads: batches of reads and writes, built before any clock
//! starts.

use crate::decimal::{decimal, decimal_string, lemma_decimal_round_trip};
use crate::decision::{valid_percentage, with_percentage_true};
use vstd::prelude::*;
use vstd::string::*;

verus! {

/// One operation on a key/value store. Keys are text, values are integers.
#[derive(Debug)]
pub enum Operation {
    /// Read the value stored under a key.
    Get(String),
    /// Store a value under a key.
    Put(String, usize),
}

/// What an operation is, with its key as a sequence of characters.
pub enum OperationModel {
    Get(Seq<char>),
    Put(Seq<char>, usize),
}

impl View for Operation {
    type V = OperationModel;

    open spec fn view(&self) -> OperationModel {
        match self {
            Operation::Get(key) => OperationModel::Get(key@),
            Operation::Put(key, value) => OperationModel::Put(key@, *value),
        }
    }
}

/// The models of a sequence of operations, in the same order.
pub open spec fn models(operations: Seq<Operation>) -> Seq<OperationModel> {
    Seq::new(operations.len(), |i: int| operations[i]@)
}

/// The key that a write in slot `slot` of transaction `transaction` stores
/// to: the two indices in decimal, one after the other.
pub open spec fn write_key(transaction: nat, slot: nat) -> Seq<char> {
    decimal(transaction) + decimal(slot)
}

/// The key of the baseline entry with the given index.
pub open spec fn baseline_key(index: nat) -> Seq<char> {
    "first "@ + decimal(index)
}

/// The operation that fills a slot. A write stores the slot index under the
/// slot's own key. A read fetches the next baseline entry that no earlier
/// read of the workload has fetched.
pub open spec fn slot_operation(
    is_write: bool,
    transaction: nat,
    slot: nat,
    earlier_reads: nat,
) -> OperationModel {
    if is_write {
        OperationModel::Put(write_key(transaction, slot), slot as usize)
    } else {
        OperationModel::Get(baseline_key(earlier_reads))
    }
}

/// How many of the operations are reads.
pub open spec fn reads_in(operations: Seq<OperationModel>) -> nat
    decreases operations.len(),
{
    if operations.len() == 0 {
        0
    } else {
        reads_in(operations.drop_last()) + if operations.last() is Get {
            1nat
        } else {
            0nat
        }
    }
}

/// How many operations of all the transactions together are reads.
pub open spec fn reads_in_all(transactions: Seq<Seq<OperationModel>>) -> nat
    decreases transactions.len(),
{
    if transactions.len() == 0 {
        0
    } else {
        reads_in_all(transactions.drop_last()) + reads_in(transactions.last())
    }
}

/// How many operations all the transactions hold together.
pub open spec fn operation_count(transactions: Seq<Seq<OperationModel>>) -> nat
    decreases transactions.len(),
{
    if transactions.len() == 0 {
        0
    } else {
        operation_count(transactions.drop_last()) + transactions.last().len()
    }
}

/// True when the given slot of a transaction holds the operation that
/// `slot_operation` gives for it, the reads of the transaction numbered
/// onward from `earlier_reads`.
pub open spec fn slot_follows_plan(
    operations: Seq<OperationModel>,
    transaction: nat,
    earlier_reads: nat,
    slot: int,
) -> bool {
    operations[slot] == slot_operation(
        operations[slot] is Put,
        transaction,
        slot as nat,
        earlier_reads + reads_in(operations.take(slot)),
    )
}

/// True when transaction number `transaction` has `size` slots and each of
/// them follows the plan.
pub open spec fn transaction_follows_plan(
    operations: Seq<OperationModel>,
    transaction: nat,
    size: nat,
    earlier_reads: nat,
) -> bool {
    &&& operations.len() == size
    &&& forall|j: int|
        0 <= j < size ==> #[trigger] slot_follows_plan(operations, transaction, earlier_reads, j)
}

/// True when the transaction at position `index` of a workload follows the
/// plan, its reads numbered onward from those of the transactions before
/// it.
pub open spec fn transaction_in_place(
    transactions: Seq<Seq<OperationModel>>,
    size: nat,
    index: int,
) -> bool {
    transaction_follows_plan(
        transactions[index],
        index as nat,
        size,
        reads_in_all(transactions.take(index)),
    )
}

/// True when the workload has `count` transactions and each of them follows
/// the plan, the reads numbered through the whole workload in order.
pub open spec fn follows_plan(
    transactions: Seq<Seq<OperationModel>>,
    size: nat,
    count: nat,
) -> bool {
    &&& transactions.len() == count
    &&& forall|i: int| 0 <= i < count ==> #[trigger] transaction_in_place(transactions, size, i)
}

/// True when every operation is a read.
pub open spec fn all_reads(transactions: Seq<Seq<OperationModel>>) -> bool {
    forall|i: int, j: int|
        0 <= i < transactions.len() && 0 <= j < transactions[i].len()
            ==> #[trigger] transactions[i][j] is Get
}

/// True when every operation is a write.
pub open spec fn all_writes(transactions: Seq<Seq<OperationModel>>) -> bool {
    forall|i: int, j: int|
        0 <= i < transactions.len() && 0 <= j < transactions[i].len()
            ==> #[trigger] transactions[i][j] is Put
}

/// An ordered batch of operations that a backend executes as one unit.
#[derive(Debug)]
pub struct Transaction {
    operations: Vec<Operation>,
}

impl View for Transaction {
    type V = Seq<OperationModel>;

    closed spec fn view(&self) -> Seq<OperationModel> {
        models(self.operations@)
    }
}

impl Transaction {
    /// An empty transaction.
    pub fn new() -> (transaction: Transaction)
        ensures
            transaction@ == Seq::<OperationModel>::empty(),
    {
        let transaction = Transaction { operations: Vec::new() };
        assert(transaction@ =~= Seq::<OperationModel>::empty());
        transaction
    }

    /// Appends a write of `value` under `key`.
    pub fn set(&mut self, key: String, value: usize)
        ensures
            final(self)@ == old(self)@.push(OperationModel::Put(key@, value)),
    {
        self.operations.push(Operation::Put(key, value));
        assert(self@ =~= old(self)@.push(OperationModel::Put(key@, value)));
    }

    /// Appends a read of `key`.
    pub fn get(&mut self, key: String)
        ensures
            final(self)@ == old(self)@.push(OperationModel::Get(key@)),
    {
        self.operations.push(Operation::Get(key));
        assert(self@ =~= old(self)@.push(OperationModel::Get(key@)));
    }

    /// The number of operations.
    pub fn len(&self) -> (length: usize)
        ensures
            length == self@.len(),
    {
        self.operations.len()
    }

    /// The operation in slot `slot`.
    pub fn operation(&self, slot: usize) -> (operation: &Operation)
        requires
            slot < self@.len(),
        ensures
            operation@ == self@[slot as int],
    {
        &self.operations[slot]
    }

    /// The operations in order, for a backend to execute.
    pub fn operations(&self) -> (operations: &Vec<Operation>)
        ensures
            models(operations@) == self@,
    {
        &self.operations
    }
}

/// The text of `write_key`.
pub fn write_key_string(transaction: usize, slot: usize) -> (key: String)
    ensures
        key@ == write_key(transaction as nat, slot as nat),
{
    let mut key = decimal_string(transaction as u128);
    let tail = decimal_string(slot as u128);
    key.append(tail.as_str());
    key
}

/// The text of `baseline_key`.
pub fn baseline_key_string(index: usize) -> (key: String)
    ensures
        key@ == baseline_key(index as nat),
{
    let mut key = String::from_str("first ");
    let tail = decimal_string(index as u128);
    key.append(tail.as_str());
    key
}

/// Builds the operation for one slot once it is decided whether the slot is
/// a write.
pub fn operation_for(
    is_write: bool,
    transaction: usize,
    slot: usize,
    earlier_reads: usize,
) -> (operation: Operation)
    ensures
        operation@ == slot_operation(
            is_write,
            transaction as nat,
            slot as nat,
            earlier_reads as nat,
        ),
{
    if is_write {
        Operation::Put(write_key_string(transaction, slot), slot)
    } else {
        Operation::Get(baseline_key_string(earlier_reads))
    }
}

/// The transaction that stores the baseline entries: entry `i` holds the
/// value `i` under `baseline_key(i)`, for every `i` below `entries`.
pub fn baseline_transaction(entries: usize) -> (transaction: Transaction)
    ensures
        transaction@.len() == entries,
        forall|i: int|
            0 <= i < entries ==> #[trigger] transaction@[i] == OperationModel::Put(
                baseline_key(i as nat),
                i as usize,
            ),
{
    let mut transaction = Transaction::new();
    let mut index: usize = 0;
    while index < entries
        invariant
            index <= entries,
            transaction@.len() == index,
            forall|i: int|
                0 <= i < index ==> #[trigger] transaction@[i] == OperationModel::Put(
                    baseline_key(i as nat),
                    i as usize,
                ),
        decreases entries - index,
    {
        transaction.set(baseline_key_string(index), index);
        index = index + 1;
    }
    transaction
}

/// A sequence of transactions, complete in memory before it is run.
#[derive(Debug)]
pub struct Workload {
    transactions: Vec<Transaction>,
    reads: usize,
}

impl View for Workload {
    type V = Seq<Seq<OperationModel>>;

    closed spec fn view(&self) -> Seq<Seq<OperationModel>> {
        Seq::new(self.transactions@.len(), |i: int| self.transactions@[i]@)
    }
}

impl Workload {
    /// The invariant of a workload: the stored number of reads is the number
    /// of reads among its operations.
    pub closed spec fn well_formed(&self) -> bool {
        self.reads == reads_in_all(self@)
    }

    /// The number of transactions.
    pub fn len(&self) -> (length: usize)
        ensures
            length == self@.len(),
    {
        self.transactions.len()
    }

    /// The transaction at position `index`.
    pub fn transaction(&self, index: usize) -> (transaction: &Transaction)
        requires
            index < self@.len(),
        ensures
            transaction@ == self@[index as int],
    {
        &self.transactions[index]
    }

    /// How many operations of the workload are reads. This is also the
    /// number of baseline entries that the reads fetch.
    pub fn reads(&self) -> (reads: usize)
        requires
            self.well_formed(),
        ensures
            reads == reads_in_all(self@),
    {
        self.reads
    }
}

/// Builds the transaction with index `transaction`: `transaction_size`
/// operations, each a write with a probability of `write_percentage`
/// percent and a read otherwise. Returns it with the number of reads in the
/// workload once it is added.
fn build_transaction(
    write_percentage: i32,
    transaction: usize,
    transaction_size: usize,
    earlier_reads: usize,
) -> (built: (Transaction, usize))
    requires
        valid_percentage(write_percentage as int),
        earlier_reads + transaction_size <= usize::MAX,
    ensures
        transaction_follows_plan(
            built.0@,
            transaction as nat,
            transaction_size as nat,
            earlier_reads as nat,
        ),
        built.1 == earlier_reads + reads_in(built.0@),
        write_percentage == 0 ==> forall|j: int|
            0 <= j < transaction_size ==> #[trigger] built.0@[j] is Get,
        write_percentage == 100 ==> forall|j: int|
            0 <= j < transaction_size ==> #[trigger] built.0@[j] is Put,
{
    let mut modify = Transaction::new();
    let mut reads: usize = earlier_reads;
    let mut slot: usize = 0;
    proof {
        assert(reads_in(modify@) == 0);
    }
    while slot < transaction_size
        invariant
            valid_percentage(write_percentage as int),
            earlier_reads + transaction_size <= usize::MAX,
            slot <= transaction_size,
            modify@.len() == slot,
            reads == earlier_reads + reads_in(modify@),
            reads_in(modify@) <= slot,
            forall|j: int|
                0 <= j < slot ==> #[trigger] slot_follows_plan(
                    modify@,
                    transaction as nat,
                    earlier_reads as nat,
                    j,
                ),
            write_percentage == 0 ==> forall|j: int| 0 <= j < slot ==> #[trigger] modify@[j] is Get,
            write_percentage == 100 ==> forall|j: int|
                0 <= j < slot ==> #[trigger] modify@[j] is Put,
        decreases transaction_size - slot,
    {
        let ghost before = modify@;
        let is_write = with_percentage_true(write_percentage);
        let operation = operation_for(is_write, transaction, slot, reads);
        match operation {
            Operation::Put(key, value) => {
                modify.set(key, value);
            },
            Operation::Get(key) => {
                modify.get(key);
                reads = reads + 1;
            },
        }
        proof {
            let after = modify@;
            assert(after.drop_last() =~= before);
            assert(after.take(slot as int) =~= before);
            assert forall|j: int| 0 <= j < slot + 1 implies #[trigger] slot_follows_plan(
                after,
                transaction as nat,
                earlier_reads as nat,
                j,
            ) by {
                if j < slot {
                    assert(slot_follows_plan(before, transaction as nat, earlier_reads as nat, j));
                    assert(after.take(j) =~= before.take(j));
                    assert(after[j] == before[j]);
                }
            }
        }
        slot = slot + 1;
    }
    (modify, reads)
}

/// Builds a workload of `transaction_count` transactions with
/// `transaction_size` operations each. Every slot is a write with a
/// probability of `write_percentage` percent and a read otherwise. A write
/// stores the slot index under `write_key`; the reads fetch the baseline
/// entries in order, each entry once.
///
/// Which slots are writes is decided by chance. Given those, every key and
/// value is fixed: the result follows the plan. With 0 percent every
/// operation is a read, with 100 percent every operation is a write.
pub fn build_workload(
    write_percentage: i32,
    transaction_size: usize,
    transaction_count: usize,
) -> (workload: Workload)
    requires
        valid_percentage(write_percentage as int),
        transaction_size * transaction_count <= usize::MAX,
    ensures
        workload.well_formed(),
        follows_plan(workload@, transaction_size as nat, transaction_count as nat),
        write_percentage == 0 ==> all_reads(workload@),
        write_percentage == 100 ==> all_writes(workload@),
{
    let mut transactions: Vec<Transaction> = Vec::new();
    let mut reads: usize = 0;
    let mut index: usize = 0;
    let ghost mut built: Seq<Seq<OperationModel>> = Seq::empty();
    while index < transaction_count
        invariant
            valid_percentage(write_percentage as int),
            transaction_size * transaction_count <= usize::MAX,
            index <= transaction_count,
            transactions@.len() == index,
            built.len() == index,
            forall|i: int| 0 <= i < index ==> #[trigger] built[i] == transactions@[i]@,
            reads == reads_in_all(built),
            reads <= index * transaction_size,
            forall|i: int|
                0 <= i < index ==> #[trigger] transaction_in_place(
                    built,
                    transaction_size as nat,
                    i,
                ),
            write_percentage == 0 ==> all_reads(built),
            write_percentage == 100 ==> all_writes(built),
        decreases transaction_count - index,
    {
        proof {
            lemma_room_for_one_more(
                index as int,
                transaction_count as int,
                transaction_size as int,
            );
        }
        let (modify, reads_after) = build_transaction(
            write_percentage,
            index,
            transaction_size,
            reads,
        );
        proof {
            let before = built;
            built = built.push(modify@);
            assert(built.drop_last() =~= before);
            assert(built.take(index as int) =~= before);
            lemma_reads_bounded(modify@);
            assert forall|i: int| 0 <= i < index + 1 implies #[trigger] transaction_in_place(
                built,
                transaction_size as nat,
                i,
            ) by {
                if i < index {
                    assert(transaction_in_place(before, transaction_size as nat, i));
                    assert(built.take(i) =~= before.take(i));
                    assert(built[i] == before[i]);
                }
            }
            assert((index + 1) * transaction_size == index * transaction_size + transaction_size)
                by (nonlinear_arith);
        }
        transactions.push(modify);
        reads = reads_after;
        index = index + 1;
    }
    let workload = Workload { transactions, reads };
    assert(workload@ =~= built);
    workload
}

/// A transaction has at most as many reads as operations.
pub proof fn lemma_reads_bounded(operations: Seq<OperationModel>)
    ensures
        reads_in(operations) <= operations.len(),
    decreases operations.len(),
{
    if operations.len() > 0 {
        lemma_reads_bounded(operations.drop_last());
    }
}

/// While transactions are still missing, the operations built so far leave
/// room for one more transaction within the total.
proof fn lemma_room_for_one_more(index: int, count: int, size: int)
    requires
        0 <= index < count,
        0 <= size,
    ensures
        index * size + size <= size * count,
{
    assert(index * size + size <= size * count) by (nonlinear_arith)
        requires
            0 <= index < count,
            0 <= size,
    ;
}

/// A longer prefix of a transaction has at least as many reads as a
/// shorter one.
proof fn lemma_reads_grow(operations: Seq<OperationModel>, shorter: int, longer: int)
    requires
        0 <= shorter <= longer <= operations.len(),
    ensures
        reads_in(operations.take(shorter)) <= reads_in(operations.take(longer)),
    decreases longer - shorter,
{
    if shorter < longer {
        lemma_reads_grow(operations, shorter, longer - 1);
        assert(operations.take(longer).drop_last() =~= operations.take(longer - 1));
    }
}

/// A longer prefix of a workload has at least as many reads as a shorter
/// one.
proof fn lemma_reads_in_all_grow(
    transactions: Seq<Seq<OperationModel>>,
    shorter: int,
    longer: int,
)
    requires
        0 <= shorter <= longer <= transactions.len(),
    ensures
        reads_in_all(transactions.take(shorter)) <= reads_in_all(transactions.take(longer)),
    decreases longer - shorter,
{
    if shorter < longer {
        lemma_reads_in_all_grow(transactions, shorter, longer - 1);
        assert(transactions.take(longer).drop_last() =~= transactions.take(longer - 1));
    }
}

/// A workload that follows the plan for `size` and `count` holds `size`
/// times `count` operations.
pub proof fn lemma_operation_total(transactions: Seq<Seq<OperationModel>>, size: nat, count: nat)
    requires
        follows_plan(transactions, size, count),
    ensures
        operation_count(transactions) == size * count,
{
    assert forall|i: int| 0 <= i < transactions.len() implies (#[trigger] transactions[i]).len()
        == size by {
        assert(transaction_in_place(transactions, size, i));
    }
    lemma_operation_count_uniform(transactions, size);
}

/// Transactions of one length hold that length times their number of
/// operations.
proof fn lemma_operation_count_uniform(transactions: Seq<Seq<OperationModel>>, size: nat)
    requires
        forall|i: int| 0 <= i < transactions.len() ==> (#[trigger] transactions[i]).len() == size,
    ensures
        operation_count(transactions) == size * transactions.len(),
    decreases transactions.len(),
{
    if transactions.len() > 0 {
        let front = transactions.drop_last();
        assert forall|i: int| 0 <= i < front.len() implies (#[trigger] front[i]).len() == size by {
            assert(front[i] == transactions[i]);
        }
        lemma_operation_count_uniform(front, size);
        assert(size * transactions.len() == size * front.len() + size) by (nonlinear_arith)
            requires
                transactions.len() == front.len() + 1,
        ;
    } else {
        assert(size * transactions.len() == 0) by (nonlinear_arith)
            requires
                transactions.len() == 0,
        ;
    }
}

/// In a workload that follows the plan, every read fetches a baseline entry
/// whose index lies below the number of reads of the workload: the entries
/// that `baseline_transaction` stores for that number cover every read.
pub proof fn lemma_reads_fetch_baseline(
    transactions: Seq<Seq<OperationModel>>,
    size: nat,
    count: nat,
    transaction: int,
    slot: int,
)
    requires
        follows_plan(transactions, size, count),
        0 <= transaction < count,
        0 <= slot < size,
        transactions[transaction][slot] is Get,
    ensures
        exists|index: nat|
            index < reads_in_all(transactions) && transactions[transaction][slot]
                == OperationModel::Get(#[trigger] baseline_key(index)),
{
    let operations = transactions[transaction];
    let earlier = reads_in_all(transactions.take(transaction));
    let index = earlier + reads_in(operations.take(slot));
    assert(transaction_in_place(transactions, size, transaction));
    assert(slot_follows_plan(operations, transaction as nat, earlier, slot));
    assert(operations[slot] == OperationModel::Get(baseline_key(index)));
    assert(reads_in(operations.take(slot)) < reads_in(operations)) by {
        assert(operations.take(slot + 1).drop_last() =~= operations.take(slot));
        lemma_reads_grow(operations, slot + 1, operations.len() as int);
        assert(operations.take(operations.len() as int) =~= operations);
    }
    assert(earlier + reads_in(operations) <= reads_in_all(transactions)) by {
        assert(transactions.take(transaction + 1).drop_last() =~= transactions.take(transaction));
        lemma_reads_in_all_grow(transactions, transaction + 1, transactions.len() as int);
        assert(transactions.take(transactions.len() as int) =~= transactions);
    }
}

/// The index of the baseline entry that a read in the given slot fetches:
/// the number of reads that come before it in the workload.
pub open spec fn read_index(
    transactions: Seq<Seq<OperationModel>>,
    transaction: int,
    slot: int,
) -> nat {
    reads_in_all(transactions.take(transaction)) + reads_in(transactions[transaction].take(slot))
}

/// Of two reads, the one that comes later in the workload has the larger
/// index.
proof fn lemma_later_read_has_larger_index(
    transactions: Seq<Seq<OperationModel>>,
    earlier: (int, int),
    later: (int, int),
)
    requires
        0 <= earlier.0 < transactions.len(),
        0 <= later.0 < transactions.len(),
        0 <= earlier.1 < transactions[earlier.0].len(),
        0 <= later.1 < transactions[later.0].len(),
        earlier.0 < later.0 || (earlier.0 == later.0 && earlier.1 < later.1),
        transactions[earlier.0][earlier.1] is Get,
    ensures
        read_index(transactions, earlier.0, earlier.1) < read_index(
            transactions,
            later.0,
            later.1,
        ),
{
    let operations = transactions[earlier.0];
    assert(reads_in(operations.take(earlier.1)) < reads_in(operations.take(earlier.1 + 1))) by {
        assert(operations.take(earlier.1 + 1).drop_last() =~= operations.take(earlier.1));
    }
    if earlier.0 == later.0 {
        lemma_reads_grow(operations, earlier.1 + 1, later.1);
    } else {
        lemma_reads_grow(operations, earlier.1 + 1, operations.len() as int);
        assert(operations.take(operations.len() as int) =~= operations);
        assert(transactions.take(earlier.0 + 1).drop_last() =~= transactions.take(earlier.0));
        lemma_reads_in_all_grow(transactions, earlier.0 + 1, later.0);
    }
}

/// Baseline entries with different indices have different keys.
pub proof fn lemma_baseline_keys_differ(left: nat, right: nat)
    requires
        left != right,
    ensures
        baseline_key(left) != baseline_key(right),
{
    let prefix = "first "@;
    if baseline_key(left) == baseline_key(right) {
        assert(baseline_key(left).subrange(prefix.len() as int, baseline_key(left).len() as int)
            =~= decimal(left));
        assert(baseline_key(right).subrange(
            prefix.len() as int,
            baseline_key(right).len() as int,
        ) =~= decimal(right));
        lemma_decimal_round_trip(left);
        lemma_decimal_round_trip(right);
    }
}

/// In a workload that follows the plan, a read fetches the baseline entry
/// with its read index.
proof fn lemma_read_fetches_its_index(
    transactions: Seq<Seq<OperationModel>>,
    size: nat,
    count: nat,
    transaction: int,
    slot: int,
)
    requires
        follows_plan(transactions, size, count),
        0 <= transaction < count,
        0 <= slot < size,
        transactions[transaction][slot] is Get,
    ensures
        transactions[transaction][slot] == OperationModel::Get(
            baseline_key(read_index(transactions, transaction, slot)),
        ),
{
    let operations = transactions[transaction];
    assert(transaction_in_place(transactions, size, transaction));
    assert(slot_follows_plan(
        operations,
        transaction as nat,
        reads_in_all(transactions.take(transaction)),
        slot,
    ));
}

/// Reads of baseline entries with different indices are different
/// operations.
proof fn lemma_reads_differ(left: nat, right: nat)
    requires
        left != right,
    ensures
        OperationModel::Get(baseline_key(left)) != OperationModel::Get(baseline_key(right)),
{
    lemma_baseline_keys_differ(left, right);
}

/// In a workload that follows the plan, no baseline entry is fetched twice:
/// reads in different slots have different keys.
pub proof fn lemma_reads_fetch_distinct_entries(
    transactions: Seq<Seq<OperationModel>>,
    size: nat,
    count: nat,
    one: (int, int),
    other: (int, int),
)
    requires
        follows_plan(transactions, size, count),
        0 <= one.0 < count,
        0 <= one.1 < size,
        0 <= other.0 < count,
        0 <= other.1 < size,
        one != other,
        transactions[one.0][one.1] is Get,
        transactions[other.0][other.1] is Get,
    ensures
        transactions[one.0][one.1] != transactions[other.0][other.1],
{
    lemma_read_fetches_its_index(transactions, size, count, one.0, one.1);
    lemma_read_fetches_its_index(transactions, size, count, other.0, other.1);
    let one_index = read_index(transactions, one.0, one.1);
    let other_index = read_index(transactions, other.0, other.1);
    assert(transaction_in_place(transactions, size, one.0));
    assert(transaction_in_place(transactions, size, other.0));
    if one.0 < other.0 || (one.0 == other.0 && one.1 < other.1) {
        lemma_later_read_has_larger_index(transactions, one, other);
    } else {
        lemma_later_read_has_larger_index(transactions, other, one);
    }
    lemma_reads_differ(one_index, other_index);
}

/// A workload of writes alone has no reads, and a workload of reads alone
/// has as many reads as operations.
pub proof fn lemma_reads_at_extremes(transactions: Seq<Seq<OperationModel>>)
    ensures
        all_writes(transactions) ==> reads_in_all(transactions) == 0,
        all_reads(transactions) ==> reads_in_all(transactions) == operation_count(transactions),
    decreases transactions.len(),
{
    if transactions.len() > 0 {
        let front = transactions.drop_last();
        let last = transactions.last();
        lemma_reads_at_extremes(front);
        if all_writes(transactions) {
            assert forall|i: int, j: int| 0 <= i < front.len() && 0 <= j < front[i].len()
                implies #[trigger] front[i][j] is Put by {
                assert(transactions[i][j] is Put);
            }
            lemma_transaction_reads_at_extremes(last);
            assert forall|j: int| 0 <= j < last.len() implies #[trigger] last[j] is Put by {
                assert(transactions[transactions.len() - 1][j] is Put);
            }
        }
        if all_reads(transactions) {
            assert forall|i: int, j: int| 0 <= i < front.len() && 0 <= j < front[i].len()
                implies #[trigger] front[i][j] is Get by {
                assert(transactions[i][j] is Get);
            }
            lemma_transaction_reads_at_extremes(last);
            assert forall|j: int| 0 <= j < last.len() implies #[trigger] last[j] is Get by {
                assert(transactions[transactions.len() - 1][j] is Get);
            }
        }
    }
}

/// A transaction of writes alone has no reads, and a transaction of reads
/// alone has as many reads as operations.
proof fn lemma_transaction_reads_at_extremes(operations: Seq<OperationModel>)
    ensures
        (forall|j: int| 0 <= j < operations.len() ==> #[trigger] operations[j] is Put)
            ==> reads_in(operations) == 0,
        (forall|j: int| 0 <= j < operations.len() ==> #[trigger] operations[j] is Get)
            ==> reads_in(operations) == operations.len(),
    decreases operations.len(),
{
    if operations.len() > 0 {
        let front = operations.drop_last();
        lemma_transaction_reads_at_extremes(front);
        if forall|j: int| 0 <= j < operations.len() ==> #[trigger] operations[j] is Put {
            assert forall|j: int| 0 <= j < front.len() implies #[trigger] front[j] is Put by {
                assert(operations[j] is Put);
            }
            assert(operations[operations.len() - 1] is Put);
        }
        if forall|j: int| 0 <= j < operations.len() ==> #[trigger] operations[j] is Get {
            assert forall|j: int| 0 <= j < front.len() implies #[trigger] front[j] is Get by {
                assert(operations[j] is Get);
            }
            assert(operations[operations.len() - 1] is Get);
        }
    }
}

} // verus!
