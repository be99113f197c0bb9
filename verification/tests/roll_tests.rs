use dice_roller::dice::{DiceSpec, RollOutcome};
use dice_roller::roll::{perform_roll, roll_and_sum};

#[test]
fn standard_roll_totals_count_dice_in_range() {
    let mut rng = rand::rng();
    for _ in 0..20 {
        let (rolls, total) = roll_and_sum(4, 6, &mut rng);
        assert_eq!(rolls.len(), 4);
        for &r in &rolls {
            assert!((1..=6).contains(&r));
        }
        assert_eq!(total, rolls.iter().map(|&r| r as u64).sum::<u64>());
        assert!((4..=24).contains(&total));
    }
}

#[test]
fn one_sided_dice_are_deterministic() {
    let mut rng = rand::rng();
    let (rolls, total) = roll_and_sum(10, 1, &mut rng);
    assert_eq!(rolls, vec![1; 10]);
    assert_eq!(total, 10);
}

#[test]
fn zero_dice_total_zero() {
    let mut rng = rand::rng();
    let (rolls, total) = roll_and_sum(0, 6, &mut rng);
    assert!(rolls.is_empty());
    assert_eq!(total, 0);
}

#[test]
fn advantage_keeps_the_maximum() {
    let mut rng = rand::rng();
    let dice = DiceSpec { count: 2, sides: 20 };
    for _ in 0..20 {
        match perform_roll(&dice, true, false, &mut rng) {
            RollOutcome::Contest { roll1, roll2, chosen } => {
                assert!((1..=20).contains(&roll1));
                assert!((1..=20).contains(&roll2));
                assert_eq!(chosen, roll1.max(roll2));
                assert!(roll1.min(roll2) <= chosen && chosen <= roll1.max(roll2));
            }
            RollOutcome::Aggregate { .. } => panic!("advantage must yield a contest"),
        }
    }
}

#[test]
fn disadvantage_keeps_the_minimum() {
    let mut rng = rand::rng();
    let dice = DiceSpec { count: 2, sides: 20 };
    for _ in 0..20 {
        match perform_roll(&dice, false, true, &mut rng) {
            RollOutcome::Contest { roll1, roll2, chosen } => {
                assert_eq!(chosen, roll1.min(roll2));
            }
            RollOutcome::Aggregate { .. } => panic!("disadvantage must yield a contest"),
        }
    }
}

#[test]
fn standard_mode_yields_aggregate() {
    let mut rng = rand::rng();
    let dice = DiceSpec { count: 2, sides: 6 };
    match perform_roll(&dice, false, false, &mut rng) {
        RollOutcome::Aggregate { rolls, total } => {
            assert_eq!(rolls.len(), 2);
            assert!((2..=12).contains(&total));
        }
        RollOutcome::Contest { .. } => panic!("standard mode must yield an aggregate"),
    }
}
