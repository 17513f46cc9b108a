//! Renders a roll result as the canonical one-line human-readable summary.

use crate::dice::RollResult;
use vstd::prelude::*;

verus! {

/// The decimal digit character for a value below ten.
pub open spec fn digit_char(d: nat) -> char
    recommends
        d < 10,
{
    (d + 48) as char
}

/// The decimal digits of `n`, most significant first, with no sign and no
/// leading zero (a single `'0'` for zero itself).
pub open spec fn spec_digits(n: nat) -> Seq<char>
    decreases n,
{
    if n < 10 {
        seq![digit_char(n)]
    } else {
        spec_digits(n / 10) + seq![digit_char(n % 10)]
    }
}

/// The modifier suffix of the log line: empty for zero, otherwise the sign
/// and the magnitude (an explicit `'+'` only for a positive modifier).
pub open spec fn spec_modifier_suffix(m: int) -> Seq<char> {
    if m > 0 {
        seq!['+'] + spec_digits(m as nat)
    } else if m == 0 {
        Seq::<char>::empty()
    } else {
        seq!['-'] + spec_digits((-m) as nat)
    }
}

/// The decimal rendering of a signed value, with a `'-'` only when it is
/// negative.
pub open spec fn spec_signed_digits(t: int) -> Seq<char> {
    if t >= 0 {
        spec_digits(t as nat)
    } else {
        seq!['-'] + spec_digits((-t) as nat)
    }
}

/// The canonical log line `You rolled {count}d{sides}{modifier} for {total}`.
pub open spec fn spec_log_line(count: nat, sides: nat, modifier: int, total: int) -> Seq<char> {
    "You rolled "@ + spec_digits(count) + seq!['d'] + spec_digits(sides) + spec_modifier_suffix(
        modifier,
    ) + " for "@ + spec_signed_digits(total)
}

/// Returns the one-character text of a decimal digit.
fn digit_str(d: u64) -> (s: &'static str)
    requires
        d < 10,
    ensures
        s@ == seq![digit_char(d as nat)],
{
    proof {
        reveal_strlit("0");
        reveal_strlit("1");
        reveal_strlit("2");
        reveal_strlit("3");
        reveal_strlit("4");
        reveal_strlit("5");
        reveal_strlit("6");
        reveal_strlit("7");
        reveal_strlit("8");
        reveal_strlit("9");
    }
    let s: &'static str = match d {
        0 => "0",
        1 => "1",
        2 => "2",
        3 => "3",
        4 => "4",
        5 => "5",
        6 => "6",
        7 => "7",
        8 => "8",
        _ => "9",
    };
    proof {
        assert(s@ =~= seq![digit_char(d as nat)]);
    }
    s
}

/// Appends the decimal digits of `n` to `out`.
fn push_digits(out: &mut String, n: u64)
    ensures
        final(out)@ == old(out)@ + spec_digits(n as nat),
    decreases n,
{
    if n >= 10 {
        push_digits(out, n / 10);
        out.append(digit_str(n % 10));
        proof {
            assert(out@ =~= old(out)@ + spec_digits(n as nat));
        }
    } else {
        out.append(digit_str(n));
    }
}

/// Constructs the log text given the RollResult: the canonical line
/// `You rolled {count}d{sides}{modifier} for {total}`, where the count is
/// the number of individual rolls recorded in the result.
pub fn build_log(result: &RollResult) -> (log: String)
    ensures
        log@ == spec_log_line(
            result.rolls@.len(),
            result.die.spec_sides() as nat,
            result.modifier as int,
            result.total as int,
        ),
{
    proof {
        reveal_strlit("d");
        reveal_strlit("+");
        reveal_strlit("-");
    }
    let mut out = String::from_str("You rolled ");
    push_digits(&mut out, result.rolls.len() as u64);
    out.append("d");
    push_digits(&mut out, result.die.sides() as u64);
    if result.modifier > 0 {
        out.append("+");
        push_digits(&mut out, result.modifier as u64);
    } else if result.modifier < 0 {
        out.append("-");
        push_digits(&mut out, (-(result.modifier as i64)) as u64);
    }
    out.append(" for ");
    if result.total >= 0 {
        push_digits(&mut out, result.total as u64);
    } else {
        out.append("-");
        push_digits(&mut out, (-(result.total as i64)) as u64);
    }
    proof {
        assert(out@ =~= spec_log_line(
            result.rolls@.len(),
            result.die.spec_sides() as nat,
            result.modifier as int,
            result.total as int,
        ));
    }
    out
}

/// Whether `needle` occurs in `hay` as one contiguous run of characters.
pub open spec fn contains_seq(hay: Seq<char>, needle: Seq<char>) -> bool {
    exists|i: int|
        0 <= i && i + needle.len() <= hay.len() && #[trigger] hay.subrange(
            i,
            i + needle.len() as int,
        ) == needle
}

/// The round-trip law: for every count, side count, modifier and total, the
/// formatted log line contains the notation core `{count}d{sides}` as a
/// contiguous substring.
pub proof fn lemma_log_contains_notation(count: nat, sides: nat, modifier: int, total: int)
    ensures
        contains_seq(
            spec_log_line(count, sides, modifier, total),
            spec_digits(count) + seq!['d'] + spec_digits(sides),
        ),
{
    reveal_strlit("You rolled ");
    let log = spec_log_line(count, sides, modifier, total);
    let pat = spec_digits(count) + seq!['d'] + spec_digits(sides);
    assert("You rolled "@.len() == 11);
    assert(log.subrange(11, 11 + pat.len() as int) =~= pat);
}

} // verus!
