use rustydice::command::Command;
use rustydice::logger::build_log;
use rustydice::Die;
use rustydice::Roll;

#[test]
fn rolls_stay_within_the_die_bounds() {
    for _ in 0..50 {
        let result = Roll::new(Die::D6).number_of_rolls(8).roll();
        assert_eq!(result.rolls.len(), 8);
        for r in &result.rolls {
            assert!(*r >= 1 && *r <= 6);
        }
    }
}

#[test]
fn total_is_sum_of_rolls_plus_modifier() {
    for _ in 0..50 {
        let result = Roll::new(Die::D20).number_of_rolls(5).modifier(-7).roll();
        let sum: u32 = result.rolls.iter().sum();
        assert_eq!(result.total, sum as i32 - 7);
    }
}

#[test]
fn formatted_execution_contains_the_notation_core() {
    let result = Command::new(3, Die::D6, 2).run();
    let log = build_log(&result);
    assert!(log.find("3d6").is_some());
}

#[test]
fn parsing_twice_yields_identical_requests() {
    let first = Roll::try_from("4d8-3").unwrap();
    let second = Roll::try_from("4d8-3").unwrap();
    assert_eq!(first.number_of_rolls, second.number_of_rolls);
    assert_eq!(first.die, second.die);
    assert_eq!(first.modifier, second.modifier);
}

#[test]
fn every_supported_die_parses_and_converts_back() {
    let sides: [u32; 8] = [2, 4, 6, 8, 10, 12, 20, 100];
    for s in sides {
        let die = Die::try_from(s).unwrap();
        assert_eq!(u32::from(die), s);
    }
}

#[test]
fn plausible_but_unsupported_dice_are_rejected() {
    for s in [0u32, 1, 3, 5, 7, 9, 16, 13, 21, 99, 101, 1000] {
        assert!(Die::try_from(s).is_err());
    }
}

#[test]
fn missing_separator_is_malformed_notation() {
    let roll = Roll::try_from("banana");
    match roll {
        Ok(_) => panic!("Expected an error but received Roll"),
        Err(e) => assert_eq!(e.description(), "No die separator found!"),
    }
}

#[test]
fn empty_string_is_malformed_notation() {
    assert!(Roll::try_from("").is_err());
}

#[test]
fn explicit_zero_count_is_rejected() {
    let roll = Roll::try_from("0d6");
    match roll {
        Ok(_) => panic!("Expected an error but received Roll"),
        Err(e) => assert_eq!(
            e.description(),
            "The number of rolls must be at least one!"
        ),
    }
}

#[test]
fn empty_sides_text_is_rejected() {
    let roll = Roll::try_from("2d");
    match roll {
        Ok(_) => panic!("Expected an error but received Roll"),
        Err(e) => assert_eq!(e.description(), "invalid digit found in string"),
    }
}

#[test]
fn sign_with_no_digits_is_an_invalid_modifier() {
    assert_eq!(
        Roll::try_from("2d6+").unwrap_err().description(),
        "invalid digit found in string"
    );
}

#[test]
fn the_first_sign_by_position_starts_the_modifier() {
    // The minus comes first, so "-2+3" is the modifier text and is invalid.
    assert!(Roll::try_from("1d6-2+3").is_err());
    // The plus comes first, so "+2-3" is the modifier text and is invalid.
    assert!(Roll::try_from("1d6+2-3").is_err());
}

#[test]
fn count_larger_than_its_integer_type_is_invalid() {
    assert_eq!(
        Roll::try_from("4294967296d6").unwrap_err().description(),
        "invalid digit found in string"
    );
}

#[test]
fn modifier_range_matches_its_integer_type() {
    assert_eq!(
        Roll::try_from("1d2+2147483647").unwrap().modifier,
        2147483647
    );
    assert_eq!(
        Roll::try_from("1d2-2147483648").unwrap().modifier,
        -2147483648
    );
    assert!(Roll::try_from("1d2+2147483648").is_err());
    assert!(Roll::try_from("1d2-2147483649").is_err());
}

#[test]
fn leading_zeros_are_plain_digits() {
    let roll = Roll::try_from("007d010+09").unwrap();
    assert_eq!(roll.number_of_rolls, 7);
    assert_eq!(roll.die, Die::D10);
    assert_eq!(roll.modifier, 9);
}

#[test]
fn a_signed_count_is_invalid() {
    assert_eq!(
        Roll::try_from("+3d6").unwrap_err().description(),
        "invalid digit found in string"
    );
}

#[test]
fn the_split_is_at_the_first_separator() {
    // The first 'd' splits the string, so the sides text is "2d3".
    assert!(Roll::try_from("1d2d3").is_err());
}

#[test]
fn the_largest_roll_scenario_parses_and_runs() {
    let roll = Roll::try_from("100d100+100").unwrap();
    assert_eq!(roll.number_of_rolls, 100);
    assert_eq!(roll.die, Die::D100);
    assert_eq!(roll.modifier, 100);

    let result = Command::new(roll.number_of_rolls, roll.die, roll.modifier).run();
    assert_eq!(result.rolls.len(), 100);
    let sum: u32 = result.rolls.iter().sum();
    assert_eq!(result.total, sum as i32 + 100);
}

#[test]
fn scenario_d4_yields_the_unit_request() {
    let roll = Roll::try_from("d4").unwrap();
    assert_eq!(roll.number_of_rolls, 1);
    assert_eq!(roll.die, Die::D4);
    assert_eq!(roll.modifier, 0);
}
