use rustydice::Die;
use rustydice::Roll;

#[test]
fn lib_it_creates_a_four_sided_die() {
    let d4 = Roll::new(Die::D4);
    assert_eq!(u32::from(d4.die), 4);
}

#[test]
fn lib_it_creates_a_eight_sided_die() {
    let d8 = Roll::new(Die::D8);
    assert_eq!(u32::from(d8.die), 8);
}

#[test]
fn lib_it_creates_a_twenty_sided_die() {
    let d20 = Roll::new(Die::D20);
    assert_eq!(u32::from(d20.die), 20);
}

#[test]
fn lib_it_sets_the_n_property() {
    let mut die = Roll::new(Die::D12);
    die.number_of_rolls(3);

    assert_eq!(die.number_of_rolls, 3);
}

#[test]
fn lib_it_sets_the_modifier_property() {
    let mut die = Roll::new(Die::D100);
    die.modifier(-20);

    assert_eq!(die.modifier, -20);
}

#[test]
fn lib_it_returns_number_between_1_and_4() {
    for _ in 0..100 {
        let mut d4 = Roll::new(Die::D4);
        let roll = d4.roll().rolls[0];
        assert!(roll >= 1 && roll <= 4);
    }
}

#[test]
fn lib_it_returns_resulting_vector_of_rolls_and_total() {
    let mut d6 = Roll::new(Die::D6);
    d6.number_of_rolls(6);
    d6.modifier(3);
    let result = d6.roll();

    assert_eq!(u32::from(result.die), u32::from(d6.die));
    assert_eq!(result.modifier, d6.modifier);
    assert_eq!(result.rolls.len(), d6.number_of_rolls as usize);

    let sum: u32 = result.rolls.iter().sum();
    assert_eq!(result.total, sum as i32 + result.modifier);
}

#[test]
fn lib_it_should_chain_methods_to_build_roll_result() {
    let result = Roll::new(Die::D10).number_of_rolls(9).modifier(4).roll();

    assert_eq!(u32::from(result.die), u32::from(Die::D10));
    assert_eq!(result.modifier, 4);
    assert_eq!(result.rolls.len(), 9);

    let sum: u32 = result.rolls.iter().sum();
    assert_eq!(result.total, sum as i32 + result.modifier);
}
