//! The parameters of benchmark runs, their results, and the points of each
//! kind of sweep.

use crate::decision::{is_valid_percentage, valid_percentage};
use vstd::prelude::*;

verus! {

/// The parameters of one benchmark run.
#[derive(Clone, Copy, Debug, PartialEq, Eq, Structural)]
pub struct SweepPoint {
    /// The share of writes among the operations, in percent.
    pub write_percentage: i32,
    /// The number of operations in each transaction.
    pub transaction_size: usize,
    /// The number of transactions.
    pub transaction_count: usize,
}

/// What one benchmark run measured.
#[derive(Clone, Copy, Debug, PartialEq, Eq, Structural)]
pub struct BenchmarkResult {
    /// The time the transactions took, in whole milliseconds.
    pub duration_ms: u128,
    /// The share of writes among the operations, in percent.
    pub write_percentage: i32,
    /// The number of operations in each transaction.
    pub transaction_size: usize,
    /// The number of transactions.
    pub transaction_count: usize,
}

impl BenchmarkResult {
    /// The parameters that the result was measured for.
    pub open spec fn point(self) -> SweepPoint {
        SweepPoint {
            write_percentage: self.write_percentage,
            transaction_size: self.transaction_size,
            transaction_count: self.transaction_count,
        }
    }
}

/// Ten to the power of `exponent`.
pub open spec fn ten_to(exponent: nat) -> nat
    decreases exponent,
{
    if exponent == 0 {
        1
    } else {
        10 * ten_to((exponent - 1) as nat)
    }
}

/// Point `index` of a percentage sweep: the write percentage is ten times
/// the index, the transaction shape is fixed.
pub open spec fn percentage_point(index: int, transaction_size: usize, transaction_count: usize)
    -> SweepPoint {
    SweepPoint { write_percentage: (10 * index) as i32, transaction_size, transaction_count }
}

/// Point `index` of a transaction-shape sweep: transactions of
/// `10^(smallest + index)` operations, and as many of them as make
/// `10^power` operations in all.
pub open spec fn shape_point(write_percentage: i32, power: nat, smallest: nat, index: nat)
    -> SweepPoint {
    SweepPoint {
        write_percentage,
        transaction_size: ten_to(smallest + index) as usize,
        transaction_count: ten_to((power - smallest - index) as nat) as usize,
    }
}

/// Point `index` of a transaction-size sweep: transactions of
/// `10^(smallest + index)` operations, their number fixed.
pub open spec fn size_point(
    write_percentage: i32,
    smallest: nat,
    transaction_count: usize,
    index: nat,
) -> SweepPoint {
    SweepPoint {
        write_percentage,
        transaction_size: ten_to(smallest + index) as usize,
        transaction_count,
    }
}

/// Powers of ten grow with the exponent.
pub proof fn lemma_ten_to_grows(smaller: nat, larger: nat)
    requires
        smaller <= larger,
    ensures
        1 <= ten_to(smaller) <= ten_to(larger),
    decreases larger,
{
    if smaller < larger {
        lemma_ten_to_grows(smaller, (larger - 1) as nat);
    } else if larger > 0 {
        lemma_ten_to_grows((smaller - 1) as nat, (larger - 1) as nat);
    }
}

/// The product of two powers of ten is the power of the sum of the
/// exponents.
pub proof fn lemma_ten_to_adds(left: nat, right: nat)
    ensures
        ten_to(left) * ten_to(right) == ten_to(left + right),
    decreases left,
{
    if left == 0 {
        assert(1 * ten_to(right) == ten_to(right)) by (nonlinear_arith);
    } else {
        lemma_ten_to_adds((left - 1) as nat, right);
        let a = ten_to((left - 1) as nat);
        let b = ten_to(right);
        assert((10 * a) * b == 10 * (a * b)) by (nonlinear_arith);
        assert(ten_to(left + right) == 10 * ten_to((left + right - 1) as nat));
    }
}

/// Computes a power of ten.
pub fn power_of_ten(exponent: u32) -> (value: usize)
    requires
        ten_to(exponent as nat) <= usize::MAX,
    ensures
        value == ten_to(exponent as nat),
{
    let mut value: usize = 1;
    let mut done: u32 = 0;
    while done < exponent
        invariant
            done <= exponent,
            value == ten_to(done as nat),
            ten_to(exponent as nat) <= usize::MAX,
        decreases exponent - done,
    {
        proof {
            lemma_ten_to_grows((done + 1) as nat, exponent as nat);
        }
        value = value * 10;
        done = done + 1;
    }
    value
}

/// The points of a percentage sweep: write percentages 0, 10, 20 and so on
/// up to 90, each with the given transaction shape.
pub fn percentage_points(transaction_size: usize, transaction_count: usize) -> (points: Vec<
    SweepPoint,
>)
    ensures
        points@.len() == 10,
        forall|k: int|
            0 <= k < 10 ==> #[trigger] points@[k] == percentage_point(
                k,
                transaction_size,
                transaction_count,
            ),
{
    let mut points: Vec<SweepPoint> = Vec::new();
    let mut write_percentage: i32 = 0;
    while write_percentage < 100
        invariant
            0 <= write_percentage <= 100,
            write_percentage % 10 == 0,
            points@.len() * 10 == write_percentage,
            forall|k: int|
                0 <= k < points@.len() ==> #[trigger] points@[k] == percentage_point(
                    k,
                    transaction_size,
                    transaction_count,
                ),
        decreases 100 - write_percentage,
    {
        points.push(SweepPoint { write_percentage, transaction_size, transaction_count });
        write_percentage = write_percentage + 10;
    }
    points
}

/// The points of a transaction-shape sweep. The exponent of the transaction
/// size runs from `smallest` to `largest`, both included; the transaction
/// count is the power of ten that keeps the number of operations at
/// `10^power`.
pub fn transaction_shape_points(
    write_percentage: i32,
    power: u32,
    smallest: u32,
    largest: u32,
) -> (points: Vec<SweepPoint>)
    requires
        smallest <= largest <= power,
        ten_to(power as nat) <= usize::MAX,
    ensures
        points@.len() == largest - smallest + 1,
        forall|k: int|
            0 <= k < points@.len() ==> #[trigger] points@[k] == shape_point(
                write_percentage,
                power as nat,
                smallest as nat,
                k as nat,
            ),
{
    let mut points: Vec<SweepPoint> = Vec::new();
    let mut exponent: u32 = smallest;
    loop
        invariant_except_break
            smallest <= exponent <= largest,
            points@.len() == exponent - smallest,
        invariant
            smallest <= largest <= power,
            ten_to(power as nat) <= usize::MAX,
            forall|k: int|
                0 <= k < points@.len() ==> #[trigger] points@[k] == shape_point(
                    write_percentage,
                    power as nat,
                    smallest as nat,
                    k as nat,
                ),
        ensures
            points@.len() == largest - smallest + 1,
        decreases largest - exponent,
    {
        proof {
            lemma_ten_to_grows(exponent as nat, power as nat);
            lemma_ten_to_grows((power - exponent) as nat, power as nat);
        }
        let transaction_size = power_of_ten(exponent);
        let transaction_count = power_of_ten(power - exponent);
        points.push(SweepPoint { write_percentage, transaction_size, transaction_count });
        if exponent == largest {
            break ;
        }
        exponent = exponent + 1;
    }
    points
}

/// The points of a transaction-size sweep. The exponent of the transaction
/// size runs from `smallest` to `largest`, both included; the transaction
/// count stays the same.
pub fn transaction_size_points(
    write_percentage: i32,
    smallest: u32,
    largest: u32,
    transaction_count: usize,
) -> (points: Vec<SweepPoint>)
    requires
        smallest <= largest,
        ten_to(largest as nat) <= usize::MAX,
    ensures
        points@.len() == largest - smallest + 1,
        forall|k: int|
            0 <= k < points@.len() ==> #[trigger] points@[k] == size_point(
                write_percentage,
                smallest as nat,
                transaction_count,
                k as nat,
            ),
{
    let mut points: Vec<SweepPoint> = Vec::new();
    let mut exponent: u32 = smallest;
    loop
        invariant_except_break
            smallest <= exponent <= largest,
            points@.len() == exponent - smallest,
        invariant
            smallest <= largest,
            ten_to(largest as nat) <= usize::MAX,
            forall|k: int|
                0 <= k < points@.len() ==> #[trigger] points@[k] == size_point(
                    write_percentage,
                    smallest as nat,
                    transaction_count,
                    k as nat,
                ),
        ensures
            points@.len() == largest - smallest + 1,
        decreases largest - exponent,
    {
        proof {
            lemma_ten_to_grows(exponent as nat, largest as nat);
        }
        let transaction_size = power_of_ten(exponent);
        points.push(SweepPoint { write_percentage, transaction_size, transaction_count });
        if exponent == largest {
            break ;
        }
        exponent = exponent + 1;
    }
    points
}

/// The result of a run at `point` that took `duration_ms` milliseconds.
pub open spec fn result_at(point: SweepPoint, duration_ms: u128) -> BenchmarkResult {
    BenchmarkResult {
        duration_ms,
        write_percentage: point.write_percentage,
        transaction_size: point.transaction_size,
        transaction_count: point.transaction_count,
    }
}

/// The transaction size of the standard percentage sweep.
pub const PERCENTAGE_SWEEP_SIZE: usize = 100000;

/// The transaction count of the standard percentage sweep and of the
/// standard transaction-size sweep.
pub const STANDARD_COUNT: usize = 100;

/// The write percentage of the sweeps that vary the transaction shape or
/// size.
pub const STANDARD_WRITE_PERCENTAGE: i32 = 10;

/// The standard transaction-shape sweep keeps `10^7` operations in all.
pub const SHAPE_SWEEP_POWER: u32 = 7;

/// The standard transaction-size sweep ends with transactions of `10^7`
/// operations.
pub const SIZE_SWEEP_LARGEST: u32 = 7;

/// The powers of ten that the standard sweeps use, and that the largest of
/// them fits in a `usize`.
pub proof fn lemma_standard_powers()
    ensures
        ten_to(1) == 10,
        ten_to(2) == 100,
        ten_to(3) == 1000,
        ten_to(4) == 10000,
        ten_to(5) == 100000,
        ten_to(6) == 1000000,
        ten_to(7) == 10000000,
        ten_to(7) <= usize::MAX,
{
    reveal_with_fuel(ten_to, 8);
}

/// Every point of a transaction-shape sweep holds the same number of
/// operations: transaction size times transaction count is `10^power`.
pub proof fn lemma_shape_sweep_keeps_total(
    write_percentage: i32,
    power: nat,
    smallest: nat,
    index: nat,
)
    requires
        smallest + index <= power,
        ten_to(power) <= usize::MAX,
    ensures
        ({
            let point = shape_point(write_percentage, power, smallest, index);
            &&& point.transaction_size == ten_to(smallest + index)
            &&& point.transaction_count == ten_to((power - smallest - index) as nat)
            &&& point.transaction_size * point.transaction_count == ten_to(power)
        }),
{
    lemma_ten_to_grows(smallest + index, power);
    lemma_ten_to_grows((power - smallest - index) as nat, power);
    lemma_ten_to_adds(smallest + index, (power - smallest - index) as nat);
}

/// In a percentage sweep the write percentage starts at 0, rises by 10 from
/// each point to the next and ends at 90, and every point has the same
/// transaction shape.
pub proof fn lemma_percentage_sweep_steps(
    index: int,
    transaction_size: usize,
    transaction_count: usize,
)
    requires
        0 <= index < 10,
    ensures
        ({
            let point = percentage_point(index, transaction_size, transaction_count);
            &&& point.write_percentage == 10 * index
            &&& 0 <= point.write_percentage <= 90
            &&& point.transaction_size == transaction_size
            &&& point.transaction_count == transaction_count
        }),
{
}

/// True of parameters that a benchmark can be run with: the write
/// percentage lies between 0 and 100, and the operations of all
/// transactions together can be counted in a `usize`.
pub open spec fn is_runnable(point: SweepPoint) -> bool {
    &&& valid_percentage(point.write_percentage as int)
    &&& point.transaction_size * point.transaction_count <= usize::MAX
}

/// Tests whether a benchmark can be run with the given parameters.
pub fn can_run(point: &SweepPoint) -> (answer: bool)
    ensures
        answer == is_runnable(*point),
{
    is_valid_percentage(point.write_percentage) && point.transaction_size.checked_mul(
        point.transaction_count,
    ).is_some()
}

/// Every point of the standard sweeps is runnable: the percentage sweep,
/// the transaction-shape sweep from exponent 2 to 6, the transaction-size
/// sweep from exponent 4 to 7, and the single run.
pub proof fn lemma_standard_points_are_runnable(index: nat)
    ensures
        index < 10 ==> is_runnable(
            percentage_point(index as int, PERCENTAGE_SWEEP_SIZE, STANDARD_COUNT),
        ),
        index < 5 ==> is_runnable(
            shape_point(STANDARD_WRITE_PERCENTAGE, SHAPE_SWEEP_POWER as nat, 2, index),
        ),
        index < 4 ==> is_runnable(
            size_point(STANDARD_WRITE_PERCENTAGE, 4, STANDARD_COUNT, index),
        ),
        is_runnable(
            SweepPoint {
                write_percentage: STANDARD_WRITE_PERCENTAGE,
                transaction_size: 100000,
                transaction_count: 100,
            },
        ),
{
    lemma_standard_powers();
    if index < 5 {
        lemma_shape_sweep_keeps_total(
            STANDARD_WRITE_PERCENTAGE,
            SHAPE_SWEEP_POWER as nat,
            2,
            index,
        );
    }
}

} // verus!
