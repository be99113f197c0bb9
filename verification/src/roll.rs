//! The roll engine: uniform die draws through the `rand` crate, the
//! standard aggregate roll, and the advantage/disadvantage contest roll.

use vstd::prelude::*;

use crate::dice::{DiceSpec, RollOutcome};

verus! {

#[verifier::external_type_specification]
#[verifier::external_body]
pub struct ExThreadRng(rand::rngs::ThreadRng);

/// Relies on `rand::RngExt::random_range` over the inclusive range
/// `1..=sides`: the sample always lies within the range, and the call
/// panics only on an empty range, which `sides >= 1` rules out. Nothing
/// more is claimed of the value: each draw is an unpredictable sample.
#[verifier::external_body]
fn draw_die(rng: &mut rand::rngs::ThreadRng, sides: u32) -> (r: u32)
    requires
        1 <= sides,
    ensures
        1 <= r <= sides,
{
    rand::RngExt::random_range(rng, 1..=sides)
}

/// The sum of a sequence of rolls.
pub open spec fn sum_of(s: Seq<u32>) -> int
    decreases s.len(),
{
    if s.len() == 0 {
        0
    } else {
        sum_of(s.drop_last()) + s.last()
    }
}

/// A product of bounded non-negative factors is bounded by the product
/// of the bounds.
proof fn lemma_mul_le(a: int, b: int, c: int, d: int)
    by (nonlinear_arith)
    requires
        0 <= a <= b,
        0 <= c <= d,
    ensures
        a * c <= b * d,
{
}

/// Draws `num` values uniformly from `[1, sides]`, in draw order, and
/// totals them. The total is exact: as a `u64` it cannot overflow, since
/// both factors fit in a `u32`.
pub fn roll_and_sum(num: u32, sides: u32, rng: &mut rand::rngs::ThreadRng) -> (r: (Vec<u32>, u64))
    requires
        1 <= sides,
    ensures
        r.0@.len() == num as int,
        forall|i: int| 0 <= i < r.0@.len() ==> 1 <= #[trigger] r.0@[i] <= sides,
        r.1 == sum_of(r.0@),
{
    let mut rolls: Vec<u32> = Vec::new();
    let mut total: u64 = 0;
    let mut k: u32 = 0;
    while k < num
        invariant
            k <= num,
            1 <= sides,
            rolls@.len() == k as int,
            forall|i: int| 0 <= i < rolls@.len() ==> 1 <= #[trigger] rolls@[i] <= sides,
            total == sum_of(rolls@),
            total <= (k as int) * (sides as int),
        decreases num - k,
    {
        let d = draw_die(rng, sides);
        proof {
            assert((k as int + 1) * (sides as int) == (k as int) * (sides as int) + (
            sides as int)) by (nonlinear_arith);
            lemma_mul_le(k as int + 1, num as int, sides as int, sides as int);
            lemma_mul_le(num as int, u32::MAX as int, sides as int, u32::MAX as int);
        }
        total = total + (d as u64);
        let ghost prev = rolls@;
        rolls.push(d);
        proof {
            assert(rolls@.drop_last() =~= prev);
        }
        k = k + 1;
    }
    (rolls, total)
}

/// Performs the roll a validated configuration asks for. In contest mode
/// (advantage or disadvantage) it draws exactly two dice and keeps the
/// maximum under advantage and the minimum under disadvantage; the kept
/// value always lies between the two rolls. Otherwise it draws `count`
/// dice and totals them.
pub fn perform_roll(
    dice: &DiceSpec,
    advantage: bool,
    disadvantage: bool,
    rng: &mut rand::rngs::ThreadRng,
) -> (r: RollOutcome)
    requires
        dice.wf(),
        !(advantage && disadvantage),
        advantage || disadvantage ==> dice.count == 2,
    ensures
        (advantage || disadvantage) ==> (r matches RollOutcome::Contest { roll1, roll2, chosen }
            && 1 <= roll1 <= dice.sides && 1 <= roll2 <= dice.sides && (advantage ==> chosen == (
        if roll1 >= roll2 {
            roll1
        } else {
            roll2
        })) && (disadvantage ==> chosen == (if roll1 <= roll2 {
            roll1
        } else {
            roll2
        })) && (if roll1 <= roll2 {
            roll1
        } else {
            roll2
        }) <= chosen && chosen <= (if roll1 >= roll2 {
            roll1
        } else {
            roll2
        })),
        !(advantage || disadvantage) ==> (r matches RollOutcome::Aggregate { rolls, total }
            && rolls@.len() == dice.count as int && (forall|i: int|
            0 <= i < rolls@.len() ==> 1 <= #[trigger] rolls@[i] <= dice.sides) && total == sum_of(
            rolls@,
        )),
{
    if advantage || disadvantage {
        let roll1 = draw_die(rng, dice.sides);
        let roll2 = draw_die(rng, dice.sides);
        let chosen = if advantage {
            if roll1 >= roll2 {
                roll1
            } else {
                roll2
            }
        } else {
            if roll1 <= roll2 {
                roll1
            } else {
                roll2
            }
        };
        RollOutcome::Contest { roll1, roll2, chosen }
    } else {
        let (rolls, total) = roll_and_sum(dice.count, dice.sides, rng);
        RollOutcome::Aggregate { rolls, total }
    }
}

} // verus!
