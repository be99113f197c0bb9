use dice_roller::notation::parse_dice_arg;

#[test]
fn parses_lowercase_notation() {
    assert_eq!(parse_dice_arg("2d6"), Some((2, 6)));
    assert_eq!(parse_dice_arg("1d20"), Some((1, 20)));
    assert_eq!(parse_dice_arg("10d100"), Some((10, 100)));
}

#[test]
fn parses_uppercase_separator() {
    assert_eq!(parse_dice_arg("2D6"), Some((2, 6)));
    assert_eq!(parse_dice_arg("1D20"), Some((1, 20)));
    assert_eq!(parse_dice_arg("1D20"), parse_dice_arg("1d20"));
}

#[test]
fn parses_leading_zeros_and_signs() {
    assert_eq!(parse_dice_arg("02d06"), Some((2, 6)));
    assert_eq!(parse_dice_arg("+2d+6"), Some((2, 6)));
    assert_eq!(parse_dice_arg("++2d6"), None);
}

#[test]
fn rejects_non_numeric() {
    assert_eq!(parse_dice_arg("abc"), None);
    assert_eq!(parse_dice_arg(""), None);
    assert_eq!(parse_dice_arg("xdy"), None);
    assert_eq!(parse_dice_arg("2d6!"), None);
    assert_eq!(parse_dice_arg("2.5d6"), None);
    assert_eq!(parse_dice_arg("-2d6"), None);
}

#[test]
fn rejects_wrong_separator_count() {
    assert_eq!(parse_dice_arg("26"), None);
    assert_eq!(parse_dice_arg("2d6d8"), None);
    assert_eq!(parse_dice_arg("2D6d8"), None);
    assert_eq!(parse_dice_arg("dd"), None);
}

#[test]
fn rejects_empty_parts() {
    assert_eq!(parse_dice_arg("d6"), None);
    assert_eq!(parse_dice_arg("2d"), None);
    assert_eq!(parse_dice_arg("d"), None);
    assert_eq!(parse_dice_arg("+d6"), None);
}

#[test]
fn rejects_zero_values() {
    assert_eq!(parse_dice_arg("0d6"), None);
    assert_eq!(parse_dice_arg("2d0"), None);
    assert_eq!(parse_dice_arg("0d0"), None);
    assert_eq!(parse_dice_arg("00d6"), None);
}

#[test]
fn respects_u32_bounds() {
    assert_eq!(parse_dice_arg("4294967295d2"), Some((4294967295, 2)));
    assert_eq!(parse_dice_arg("4294967296d2"), None);
    assert_eq!(parse_dice_arg("2d99999999999999999999"), None);
}

#[test]
fn round_trips_rendered_pairs() {
    for (n, s) in [(1u32, 1u32), (2, 6), (1, 20), (123, 456), (4294967295, 1)] {
        let lower = format!("{}d{}", n, s);
        let upper = format!("{}D{}", n, s);
        assert_eq!(parse_dice_arg(&lower), Some((n, s)));
        assert_eq!(parse_dice_arg(&upper), Some((n, s)));
    }
}
