//! A parsed dice command, ready to run against the roll engine.

use crate::dice::spec_parse;
use crate::dice::sum_of_rolls;
use crate::dice::Die;
use crate::dice::Roll;
use crate::dice::RollResult;
use vstd::prelude::*;

verus! {

/// The structured form of one notation string: how many rolls, of which
/// die, with which modifier.
#[derive(Debug, Copy, Clone, PartialEq, Eq, Structural)]
pub struct Command {
    pub number_of_rolls: u32,
    pub die: Die,
    pub modifier: i32,
}

impl Command {
    pub fn new(number_of_rolls: u32, die: Die, modifier: i32) -> (cmd: Command)
        ensures
            cmd == (Command { number_of_rolls, die, modifier }),
    {
        Command { die, modifier, number_of_rolls }
    }

    /// Builds a Command from a notation string that is known to be valid;
    /// the fields are exactly what [`spec_parse`] gives for the string.
    pub fn from(input_text: &str) -> (cmd: Command)
        requires
            spec_parse(input_text@) is Ok,
        ensures
            ({
                let roll = spec_parse(input_text@)->Ok_0;
                cmd == (Command {
                    number_of_rolls: roll.number_of_rolls,
                    die: roll.die,
                    modifier: roll.modifier,
                })
            }),
    {
        match Roll::try_from(input_text) {
            Ok(roll) => Command {
                die: roll.die,
                modifier: roll.modifier,
                number_of_rolls: roll.number_of_rolls,
            },
            Err(_) => vstd::pervasive::unreached(),
        }
    }

    /// Executes the command: one uniform draw in `[1, sides]` per
    /// repetition, in draw order, and the total as the sum of the draws
    /// plus the modifier. The command must be executable (at least one
    /// roll) and small enough that the total fits its integer type.
    pub fn run(&self) -> (result: RollResult)
        requires
            self.number_of_rolls >= 1,
            self.number_of_rolls as int * self.die.spec_sides() as int <= i32::MAX as int,
            self.number_of_rolls as int * self.die.spec_sides() as int + self.modifier as int
                <= i32::MAX as int,
        ensures
            result.die == self.die,
            result.modifier == self.modifier,
            result.rolls@.len() == self.number_of_rolls,
            forall|i: int|
                0 <= i < result.rolls@.len() ==> 1 <= #[trigger] result.rolls@[i]
                    <= self.die.spec_sides(),
            result.total == sum_of_rolls(result.rolls@) + self.modifier,
    {
        let mut roll = Roll::new(self.die);
        roll.number_of_rolls(self.number_of_rolls).modifier(self.modifier).roll()
    }
}

} // verus!
