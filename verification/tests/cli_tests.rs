use dice_roller::args::{interpret_args, validate_config, Config};
use dice_roller::dice::{CliError, DiceSpec, RollOutcome};
use dice_roller::render::render_outcome;

fn strings(tokens: &[&str]) -> Vec<String> {
    tokens.iter().map(|t| t.to_string()).collect()
}

#[test]
fn flags_are_recognized_in_any_order() {
    let c = interpret_args(&strings(&["-v", "2d6"]));
    assert!(c.verbose && !c.advantage && !c.disadvantage);
    assert_eq!(c.notation.as_deref(), Some("2d6"));

    let c = interpret_args(&strings(&["2d6", "--verbose"]));
    assert!(c.verbose);
    assert_eq!(c.notation.as_deref(), Some("2d6"));

    let c = interpret_args(&strings(&["--adv", "2d20"]));
    assert!(c.advantage && !c.verbose && !c.disadvantage);

    let c = interpret_args(&strings(&["2d20", "-d"]));
    assert!(c.disadvantage && !c.advantage);

    let c = interpret_args(&strings(&["-a", "--dis", "2d20"]));
    assert!(c.advantage && c.disadvantage);
}

#[test]
fn first_non_flag_token_is_the_notation() {
    let c = interpret_args(&strings(&["-v", "2d6", "3d8"]));
    assert_eq!(c.notation.as_deref(), Some("2d6"));

    let c = interpret_args(&strings(&["-v", "-a"]));
    assert!(c.notation.is_none());

    let c = interpret_args(&strings(&[]));
    assert!(c.notation.is_none() && !c.verbose && !c.advantage && !c.disadvantage);
}

#[test]
fn conflict_is_reported_before_anything_else() {
    let c = interpret_args(&strings(&["-a", "-d"]));
    assert_eq!(validate_config(&c), Err(CliError::Conflict));
    assert_eq!(
        CliError::Conflict.message("roller").as_str(),
        "Thats not a thing."
    );
}

#[test]
fn missing_notation_is_a_usage_error() {
    let c = interpret_args(&strings(&["-v"]));
    assert_eq!(validate_config(&c), Err(CliError::Usage));
    assert_eq!(
        CliError::Usage.message("roller").as_str(),
        "Usage: roller <NdM> [-v]"
    );
}

#[test]
fn bad_notation_is_a_format_error() {
    let c = interpret_args(&strings(&["abc"]));
    assert_eq!(validate_config(&c), Err(CliError::Format));
    assert_eq!(
        CliError::Format.message("roller").as_str(),
        "Invalid dice format. Use {n}d{s}, e.g., 2d6 or 1d20."
    );
}

#[test]
fn contest_requires_exactly_two_dice() {
    let c = interpret_args(&strings(&["3d6", "-a"]));
    assert_eq!(validate_config(&c), Err(CliError::ContestArity));
    assert_eq!(
        CliError::ContestArity.message("roller").as_str(),
        "Incorrect syntax! Roll 2d20 for advantage/disadvantage."
    );

    let c = interpret_args(&strings(&["2d20", "-a"]));
    assert_eq!(
        validate_config(&c),
        Ok(DiceSpec { count: 2, sides: 20 })
    );
}

#[test]
fn valid_configuration_yields_the_parsed_spec() {
    let c = interpret_args(&strings(&["2d6"]));
    assert_eq!(validate_config(&c), Ok(DiceSpec { count: 2, sides: 6 }));

    let c = Config {
        verbose: false,
        advantage: false,
        disadvantage: false,
        notation: Some("1D20".to_string()),
    };
    assert_eq!(validate_config(&c), Ok(DiceSpec { count: 1, sides: 20 }));
}

#[test]
fn plain_total_is_blue() {
    let out = RollOutcome::Aggregate { rolls: vec![3, 4], total: 7 };
    assert_eq!(render_outcome(&out, false, false), "\x1b[34m7\x1b[0m");
}

#[test]
fn verbose_total_lists_the_rolls() {
    let out = RollOutcome::Aggregate { rolls: vec![1, 2, 3], total: 6 };
    assert_eq!(render_outcome(&out, true, false), "[1, 2, 3] = \x1b[34m6\x1b[0m");

    let single = RollOutcome::Aggregate { rolls: vec![17], total: 17 };
    assert_eq!(render_outcome(&single, true, false), "[17] = \x1b[34m17\x1b[0m");
}

#[test]
fn advantage_result_is_green() {
    let out = RollOutcome::Contest { roll1: 12, roll2: 18, chosen: 18 };
    assert_eq!(render_outcome(&out, false, true), "[12, 18] = \x1b[32m18\x1b[0m");
}

#[test]
fn disadvantage_result_is_red() {
    let out = RollOutcome::Contest { roll1: 12, roll2: 18, chosen: 12 };
    assert_eq!(render_outcome(&out, false, false), "[12, 18] = \x1b[31m12\x1b[0m");
}

#[test]
fn large_totals_render_in_full() {
    let out = RollOutcome::Aggregate { rolls: vec![], total: 18446744065119617025 };
    assert_eq!(
        render_outcome(&out, false, false),
        "\x1b[34m18446744065119617025\x1b[0m"
    );
}
