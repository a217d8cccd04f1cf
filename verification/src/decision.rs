//! The weighted coin that makes an operation a write or a read.

use rand::Rng;
use vstd::prelude::*;

verus! {

/// True when `percentage` is a valid weight: between 0 and 100, both
/// included.
pub open spec fn valid_percentage(percentage: int) -> bool {
    0 <= percentage <= 100
}

/// Tests whether `percentage` is a valid weight.
pub fn is_valid_percentage(percentage: i32) -> (answer: bool)
    ensures
        answer == valid_percentage(percentage as int),
{
    0 <= percentage && percentage <= 100
}

/// The outcome for a given draw: true exactly when the draw lies strictly
/// below the percentage.
pub open spec fn decision(percentage: int, draw: int) -> bool {
    draw < percentage
}

/// Draws an integer from `rand`'s thread-local generator with
/// `Rng::gen_range(0..100)`. The generator picks the value; all that is
/// claimed is the range that `gen_range` documents for a half-open interval:
/// the draw is at least 0 and below 100.
#[verifier::external_body]
fn draw_percent() -> (draw: u32)
    ensures
        draw < 100,
{
    rand::thread_rng().gen_range(0..100u32)
}

/// Decides for a draw that was already made.
pub fn decide(percentage: i32, draw: u32) -> (outcome: bool)
    requires
        valid_percentage(percentage as int),
        draw < 100,
    ensures
        outcome == decision(percentage as int, draw as int),
{
    (draw as i64) < (percentage as i64)
}

/// Returns true with a probability of `x` percent: one value is drawn
/// uniformly from 0 up to, but not including, 100, and the answer is whether
/// it lies strictly below `x`.
///
/// A percentage outside 0 to 100 is a mistake of the caller and is not
/// accepted. With 0 the answer is always false, with 100 always true; in
/// between it is `decision` applied to some draw below 100.
pub fn with_percentage_true(x: i32) -> (outcome: bool)
    requires
        valid_percentage(x as int),
    ensures
        x == 0 ==> !outcome,
        x == 100 ==> outcome,
        exists|draw: int| 0 <= draw < 100 && outcome == #[trigger] decision(x as int, draw),
{
    let draw = draw_percent();
    let outcome = decide(x, draw);
    assert(outcome == decision(x as int, draw as int));
    outcome
}

/// At 0 percent no draw gives true, and at 100 percent every draw does.
pub proof fn lemma_decision_extremes(draw: int)
    requires
        0 <= draw < 100,
    ensures
        !decision(0, draw),
        decision(100, draw),
{
}

/// A larger percentage never turns a true outcome into a false one.
pub proof fn lemma_decision_monotonic(low: int, high: int, draw: int)
    requires
        low <= high,
        decision(low, draw),
    ensures
        decision(high, draw),
{
}

} // verus!
