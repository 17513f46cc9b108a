//! The die catalog, the notation parser and the roll engine.

use vstd::prelude::*;

verus! {

/// Why a notation string or a die size was rejected.
#[derive(Debug, Clone, Copy, PartialEq, Eq, Structural)]
pub enum ErrorKind {
    /// The notation holds no `'d'` separator at all.
    MalformedNotation,
    /// The text before the separator is not a run of decimal digits,
    /// or its value does not fit the count's integer type.
    InvalidCount,
    /// The text before the separator is the explicit count zero.
    InvalidRepetitionCount,
    /// The die-sides text is empty or not a run of decimal digits.
    InvalidSides,
    /// The die-sides value is not in the closed catalog of supported dice.
    UnsupportedDie,
    /// The modifier text after the sign is empty, not a run of decimal
    /// digits, or out of the modifier's integer range.
    InvalidModifier,
}

impl ErrorKind {
    /// The human-readable message for each kind of failure.
    pub open spec fn spec_message(self) -> Seq<char> {
        match self {
            ErrorKind::MalformedNotation => "No die separator found!"@,
            ErrorKind::InvalidCount => "invalid digit found in string"@,
            ErrorKind::InvalidRepetitionCount => "The number of rolls must be at least one!"@,
            ErrorKind::InvalidSides => "invalid digit found in string"@,
            ErrorKind::UnsupportedDie => "Unable to match the die type!"@,
            ErrorKind::InvalidModifier => "invalid digit found in string"@,
        }
    }
}

/// A rejected notation string or die size, carrying the reason.
#[derive(Debug, Clone, Copy, PartialEq, Eq, Structural)]
pub struct Error {
    pub kind: ErrorKind,
}

impl Error {
    pub fn new(kind: ErrorKind) -> (e: Error)
        ensures
            e.kind == kind,
    {
        Error { kind }
    }

    /// Returns the human-readable reason for the failure.
    pub fn description(&self) -> (s: &str)
        ensures
            s@ == self.kind.spec_message(),
    {
        match self.kind {
            ErrorKind::MalformedNotation => "No die separator found!",
            ErrorKind::InvalidCount => "invalid digit found in string",
            ErrorKind::InvalidRepetitionCount => "The number of rolls must be at least one!",
            ErrorKind::InvalidSides => "invalid digit found in string",
            ErrorKind::UnsupportedDie => "Unable to match the die type!",
            ErrorKind::InvalidModifier => "invalid digit found in string",
        }
    }
}

/// The available dice types denoting the number of sides.
#[derive(Debug, Copy, Clone, PartialEq, Eq, Structural)]
pub enum Die {
    D2,
    D4,
    D6,
    D8,
    D10,
    D12,
    D20,
    D100,
}

/// Whether `n` is a side count in the closed catalog {2, 4, 6, 8, 10, 12, 20, 100}.
pub open spec fn supported_sides(n: int) -> bool {
    n == 2 || n == 4 || n == 6 || n == 8 || n == 10 || n == 12 || n == 20 || n == 100
}

impl Die {
    /// The number of sides of the die.
    pub open spec fn spec_sides(self) -> u32 {
        match self {
            Die::D2 => 2,
            Die::D4 => 4,
            Die::D6 => 6,
            Die::D8 => 8,
            Die::D10 => 10,
            Die::D12 => 12,
            Die::D20 => 20,
            Die::D100 => 100,
        }
    }

    /// The die of the catalog with `n` sides.
    pub open spec fn spec_from_sides(n: int) -> Die
        recommends
            supported_sides(n),
    {
        if n == 2 {
            Die::D2
        } else if n == 4 {
            Die::D4
        } else if n == 6 {
            Die::D6
        } else if n == 8 {
            Die::D8
        } else if n == 10 {
            Die::D10
        } else if n == 12 {
            Die::D12
        } else if n == 20 {
            Die::D20
        } else {
            Die::D100
        }
    }

    /// Returns the side count of the die.
    #[verifier::when_used_as_spec(spec_sides)]
    pub fn sides(self) -> (n: u32)
        ensures
            n == self.spec_sides(),
    {
        match self {
            Die::D2 => 2,
            Die::D4 => 4,
            Die::D6 => 6,
            Die::D8 => 8,
            Die::D10 => 10,
            Die::D12 => 12,
            Die::D20 => 20,
            Die::D100 => 100,
        }
    }

    /// Converts a side count to the die of the catalog with exactly that
    /// many sides; any other value is rejected as an unsupported die.
    pub fn try_from(sides: u32) -> (r: Result<Die, Error>)
        ensures
            r is Ok <==> supported_sides(sides as int),
            r matches Ok(die) ==> die == Die::spec_from_sides(sides as int) && die.spec_sides()
                == sides,
            r matches Err(e) ==> e.kind == ErrorKind::UnsupportedDie,
    {
        match sides {
            2 => Ok(Die::D2),
            4 => Ok(Die::D4),
            6 => Ok(Die::D6),
            8 => Ok(Die::D8),
            10 => Ok(Die::D10),
            12 => Ok(Die::D12),
            20 => Ok(Die::D20),
            100 => Ok(Die::D100),
            _ => Err(Error::new(ErrorKind::UnsupportedDie)),
        }
    }
}

/// The catalog invariant: every die's side count lies in the closed set,
/// and resolving that count through the catalog yields the same die back,
/// so the conversion to a side count is a total inverse.
pub proof fn lemma_die_catalog(die: Die)
    ensures
        supported_sides(die.spec_sides() as int),
        Die::spec_from_sides(die.spec_sides() as int) == die,
{
}

impl From<Die> for u32 {
    /// Returns the side count of the die.
    fn from(die: Die) -> (n: u32)
        ensures
            n == die.spec_sides(),
    {
        die.sides()
    }
}

impl vstd::std_specs::convert::FromSpecImpl<Die> for u32 {
    open spec fn obeys_from_spec() -> bool {
        true
    }

    open spec fn from_spec(die: Die) -> u32 {
        die.spec_sides()
    }
}

/// Whether `c` is a decimal digit.
pub open spec fn is_digit_char(c: char) -> bool {
    '0' <= c && c <= '9'
}

/// The numeric value of a decimal digit character.
pub open spec fn digit_val(c: char) -> nat
    recommends
        is_digit_char(c),
{
    (c as int - '0' as int) as nat
}

/// Whether every character of `s` is a decimal digit.
pub open spec fn all_digits(s: Seq<char>) -> bool {
    forall|i: int| 0 <= i < s.len() ==> is_digit_char(s[i])
}

/// The value of a run of decimal digits, most significant digit first.
pub open spec fn digits_value(s: Seq<char>) -> nat
    decreases s.len(),
{
    if s.len() == 0 {
        0
    } else {
        digits_value(s.drop_last()) * 10 + digit_val(s.last())
    }
}

/// The value of a run of decimal digits, computed with saturation: once the
/// accumulated value has passed `cap` it is carried along unchanged, so the
/// result stays within a machine word however long the run is.
pub open spec fn sat_digits_value(s: Seq<char>, cap: nat) -> nat
    decreases s.len(),
{
    if s.len() == 0 {
        0
    } else {
        let p = sat_digits_value(s.drop_last(), cap);
        if p > cap {
            p
        } else {
            p * 10 + digit_val(s.last())
        }
    }
}

/// The saturating value agrees with the exact value up to `cap`, and it has
/// passed `cap` exactly when the exact value has.
proof fn lemma_sat_digits_value(s: Seq<char>, cap: nat)
    ensures
        digits_value(s) <= cap ==> sat_digits_value(s, cap) == digits_value(s),
        digits_value(s) > cap <==> sat_digits_value(s, cap) > cap,
    decreases s.len(),
{
    if s.len() > 0 {
        lemma_sat_digits_value(s.drop_last(), cap);
    }
}

/// The position of the first `'d'` separator in `s` at or after `from`.
pub open spec fn find_sep_from(s: Seq<char>, from: int) -> Option<int>
    recommends
        0 <= from,
    decreases s.len() - from when 0 <= from
{
    if from >= s.len() {
        None
    } else if s[from] == 'd' {
        Some(from)
    } else {
        find_sep_from(s, from + 1)
    }
}

/// The position of the first `'+'` or `'-'` in `s` at or after `from`,
/// whichever of the two comes first.
pub open spec fn find_sign_from(s: Seq<char>, from: int) -> Option<int>
    recommends
        0 <= from,
    decreases s.len() - from when 0 <= from
{
    if from >= s.len() {
        None
    } else if s[from] == '+' || s[from] == '-' {
        Some(from)
    } else {
        find_sign_from(s, from + 1)
    }
}

/// Scans `s` left to right for the first `'d'` separator.
fn find_separator(s: &str) -> (r: Option<usize>)
    ensures
        r matches Some(i) ==> i < s@.len() && find_sep_from(s@, 0) == Some(i as int),
        r is None ==> find_sep_from(s@, 0) is None,
{
    let len = s.unicode_len();
    let mut i: usize = 0;
    while i < len
        invariant
            i <= len,
            len == s@.len(),
            find_sep_from(s@, i as int) == find_sep_from(s@, 0),
        decreases len - i,
    {
        if s.get_char(i) == 'd' {
            return Some(i);
        }
        i += 1;
    }
    None
}

/// Scans `s` left to right, from `from` on, for the first `'+'` or `'-'`.
fn find_sign(s: &str, from: usize) -> (r: Option<usize>)
    requires
        from <= s@.len(),
    ensures
        r matches Some(i) ==> from <= i < s@.len() && find_sign_from(s@, from as int) == Some(
            i as int,
        ),
        r is None ==> find_sign_from(s@, from as int) is None,
{
    let len = s.unicode_len();
    let mut i: usize = from;
    while i < len
        invariant
            from <= i <= len,
            len == s@.len(),
            find_sign_from(s@, i as int) == find_sign_from(s@, from as int),
        decreases len - i,
    {
        let c = s.get_char(i);
        if c == '+' || c == '-' {
            return Some(i);
        }
        i += 1;
    }
    None
}

/// Reads the segment of `s` between `from` and `to` as a run of decimal
/// digits, accumulating its value with saturation above `cap`; an empty
/// segment or any non-digit character is rejected.
fn scan_digits(s: &str, from: usize, to: usize, cap: u64) -> (r: Option<u64>)
    requires
        from <= to <= s@.len(),
        cap <= 0x1_0000_0000,
    ensures
        r is Some <==> from < to && all_digits(s@.subrange(from as int, to as int)),
        r matches Some(v) ==> v == sat_digits_value(
            s@.subrange(from as int, to as int),
            cap as nat,
        ),
{
    if from >= to {
        return None;
    }
    let mut acc: u64 = 0;
    let mut i: usize = from;
    while i < to
        invariant
            from <= i <= to <= s@.len(),
            cap <= 0x1_0000_0000,
            all_digits(s@.subrange(from as int, i as int)),
            acc == sat_digits_value(s@.subrange(from as int, i as int), cap as nat),
            acc <= 10 * cap + 9,
        decreases to - i,
    {
        let c = s.get_char(i);
        let code = c as u32;
        if code < 48 || code > 57 {
            proof {
                let seg = s@.subrange(from as int, to as int);
                assert(seg[i - from] == s@[i as int]);
                assert(!is_digit_char(seg[i - from]));
            }
            return None;
        }
        let d = (code - 48) as u64;
        if acc <= cap {
            acc = acc * 10 + d;
        }
        proof {
            let prev = s@.subrange(from as int, i as int);
            let cur = s@.subrange(from as int, i + 1 as int);
            assert(cur.drop_last() =~= prev);
            assert(cur.last() == s@[i as int]);
        }
        i += 1;
    }
    proof {
        assert(s@.subrange(from as int, i as int) =~= s@.subrange(from as int, to as int));
    }
    Some(acc)
}

/// The meaning of a die-sides text: the catalog die whose side count the
/// text spells out. A text that is empty or not a run of decimal digits is
/// invalid; a digit run whose value lies outside the catalog is unsupported.
pub open spec fn spec_parse_sides(t: Seq<char>) -> Result<Die, ErrorKind> {
    if t.len() == 0 || !all_digits(t) {
        Err(ErrorKind::InvalidSides)
    } else if !supported_sides(digits_value(t) as int) {
        Err(ErrorKind::UnsupportedDie)
    } else {
        Ok(Die::spec_from_sides(digits_value(t) as int))
    }
}

/// The meaning of a count text: the value of its digit run. An absent count
/// means one; an explicit zero is rejected rather than coerced; a text that
/// is not a digit run, or whose value does not fit the count's integer type,
/// is invalid.
pub open spec fn spec_parse_count(t: Seq<char>) -> Result<u32, ErrorKind> {
    if t.len() == 0 {
        Ok(1u32)
    } else if !all_digits(t) || digits_value(t) > u32::MAX {
        Err(ErrorKind::InvalidCount)
    } else if digits_value(t) == 0 {
        Err(ErrorKind::InvalidRepetitionCount)
    } else {
        Ok(digits_value(t) as u32)
    }
}

/// The meaning of a modifier text: a `'+'` or `'-'` followed by a run of
/// decimal digits, read as a signed value. An absent text means zero; a sign
/// with no digits, a non-digit character, or a value outside the modifier's
/// integer range is invalid.
pub open spec fn spec_parse_modifier(t: Seq<char>) -> Result<i32, ErrorKind>
    recommends
        t.len() == 0 || t[0] == '+' || t[0] == '-',
{
    if t.len() == 0 {
        Ok(0i32)
    } else if t.len() < 2 || !all_digits(t.subrange(1, t.len() as int)) {
        Err(ErrorKind::InvalidModifier)
    } else {
        let mag = digits_value(t.subrange(1, t.len() as int));
        if t[0] == '+' {
            if mag > i32::MAX {
                Err(ErrorKind::InvalidModifier)
            } else {
                Ok(mag as i32)
            }
        } else {
            if mag > 0x8000_0000 {
                Err(ErrorKind::InvalidModifier)
            } else {
                Ok((-(mag as int)) as i32)
            }
        }
    }
}

/// The meaning of a whole notation string `[count] 'd' sides [sign digits]`.
/// The string is split at its first `'d'`; the right part is split at the
/// first `'+'` or `'-'`, whichever comes first by position. Errors are
/// reported for the count first, then the modifier, then the die sides.
pub open spec fn spec_parse(s: Seq<char>) -> Result<Roll, ErrorKind> {
    match find_sep_from(s, 0) {
        None => Err(ErrorKind::MalformedNotation),
        Some(d) => {
            let sides_end = match find_sign_from(s, d + 1) {
                Some(p) => p,
                None => s.len() as int,
            };
            match spec_parse_count(s.subrange(0, d)) {
                Err(k) => Err(k),
                Ok(n) => match spec_parse_modifier(s.subrange(sides_end, s.len() as int)) {
                    Err(k) => Err(k),
                    Ok(m) => match spec_parse_sides(s.subrange(d + 1, sides_end)) {
                        Err(k) => Err(k),
                        Ok(die) => Ok(Roll { die, modifier: m, number_of_rolls: n }),
                    },
                },
            }
        },
    }
}

impl Die {
    /// Resolves a die-sides text through the catalog, as
    /// [`spec_parse_sides`] describes.
    pub fn parse(sides: &str) -> (r: Result<Die, Error>)
        ensures
            r matches Ok(die) ==> spec_parse_sides(sides@) == Ok::<Die, ErrorKind>(die),
            r matches Err(e) ==> spec_parse_sides(sides@) == Err::<Die, ErrorKind>(e.kind),
    {
        let len = sides.unicode_len();
        proof {
            assert(sides@.subrange(0, len as int) =~= sides@);
        }
        match scan_digits(sides, 0, len, 100) {
            None => Err(Error::new(ErrorKind::InvalidSides)),
            Some(v) => {
                proof {
                    lemma_sat_digits_value(sides@, 100);
                }
                if v > 100 {
                    Err(Error::new(ErrorKind::UnsupportedDie))
                } else {
                    Die::try_from(v as u32)
                }
            },
        }
    }
}

/// Represents a dice roll request: which die to roll, how many times, and
/// the signed modifier added to the sum of the rolls.
#[derive(Debug, Copy, Clone, PartialEq, Eq, Structural)]
pub struct Roll {
    pub die: Die,
    pub modifier: i32,
    pub number_of_rolls: u32,
}

/// Represents the result of a roll session.
#[derive(Debug)]
pub struct RollResult {
    pub die: Die,
    pub rolls: Vec<u32>,
    pub modifier: i32,
    pub total: i32,
}

/// The sum of a sequence of individual rolls.
pub open spec fn sum_of_rolls(rolls: Seq<u32>) -> int
    decreases rolls.len(),
{
    if rolls.len() == 0 {
        0
    } else {
        sum_of_rolls(rolls.drop_last()) + rolls.last()
    }
}

/// Relies on rand::random_range: one value drawn from the thread-local
/// generator, lying within the inclusive range handed to it (its
/// documentation promises a value in the range, and a panic only on an empty
/// range). Nothing more is assumed of the draw.
#[verifier::external_body]
fn draw_uniform(sides: u32) -> (r: u32)
    requires
        sides >= 1,
    ensures
        1 <= r <= sides,
{
    rand::random_range(1..=sides)
}

impl Roll {
    /// Returns a Roll instance for one roll of `die` with no modifier.
    pub fn new(die: Die) -> (roll: Roll)
        ensures
            roll == (Roll { die, modifier: 0, number_of_rolls: 1 }),
    {
        Roll { die, number_of_rolls: 1, modifier: 0 }
    }

    /// Sets the `number_of_rolls` property and returns **Self** to allow for
    /// chaining.
    pub fn number_of_rolls(&mut self, n: u32) -> (ret: &mut Roll)
        ensures
            *ret == (Roll { number_of_rolls: n, ..*old(self) }),
            *final(self) == *final(ret),
    {
        self.number_of_rolls = n;
        self
    }

    /// Sets the `modifier` property and returns **Self** to allow for
    /// chaining.
    pub fn modifier(&mut self, m: i32) -> (ret: &mut Roll)
        ensures
            *ret == (Roll { modifier: m, ..*old(self) }),
            *final(self) == *final(ret),
    {
        self.modifier = m;
        self
    }

    /// Executes the rolls and returns the RollResult: one uniform draw in
    /// `[1, sides]` per repetition, in draw order, and the total as the sum
    /// of the draws plus the modifier. The request must be executable (at
    /// least one roll) and small enough that the total fits its integer
    /// type; the library imposes no bound of its own beyond that.
    pub fn roll(&mut self) -> (result: RollResult)
        requires
            old(self).number_of_rolls >= 1,
            old(self).number_of_rolls as int * old(self).die.spec_sides() as int <= i32::MAX
                as int,
            old(self).number_of_rolls as int * old(self).die.spec_sides() as int + old(
                self,
            ).modifier as int <= i32::MAX as int,
        ensures
            *final(self) == *old(self),
            result.die == old(self).die,
            result.modifier == old(self).modifier,
            result.rolls@.len() == old(self).number_of_rolls,
            forall|i: int|
                0 <= i < result.rolls@.len() ==> 1 <= #[trigger] result.rolls@[i] <= old(
                    self,
                ).die.spec_sides(),
            result.total == sum_of_rolls(result.rolls@) + old(self).modifier,
    {
        let n = self.number_of_rolls;
        let sides = self.die.sides();
        let mut rolls: Vec<u32> = Vec::new();
        let mut sum: u32 = 0;
        let mut i: u32 = 0;
        while i < n
            invariant
                i <= n,
                sides == old(self).die.spec_sides(),
                n == old(self).number_of_rolls,
                n >= 1,
                n as int * sides as int <= i32::MAX as int,
                rolls@.len() == i,
                forall|k: int| 0 <= k < i ==> 1 <= #[trigger] rolls@[k] <= sides,
                sum == sum_of_rolls(rolls@),
                sum as int <= i as int * sides as int,
            decreases n - i,
        {
            let one = draw_uniform(sides);
            proof {
                assert((i + 1) as int * sides as int <= n as int * sides as int) by (nonlinear_arith)
                    requires
                        i as int + 1 <= n as int,
                        sides as int >= 1,
                ;
                assert(i as int * sides as int + sides as int == (i + 1) as int * sides as int)
                    by (nonlinear_arith);
            }
            sum = sum + one;
            let ghost prev = rolls@;
            rolls.push(one);
            proof {
                assert(rolls@.drop_last() =~= prev);
            }
            i = i + 1;
        }
        RollResult { die: self.die, modifier: self.modifier, total: sum as i32 + self.modifier, rolls }
    }

    /// Parses a notation string into a roll request, as [`spec_parse`]
    /// describes. Parsing is total: every string yields either a request,
    /// whose count is then at least one, or one well-defined error kind.
    pub fn try_from(text: &str) -> (r: Result<Roll, Error>)
        ensures
            r matches Ok(roll) ==> spec_parse(text@) == Ok::<Roll, ErrorKind>(roll),
            r matches Err(e) ==> spec_parse(text@) == Err::<Roll, ErrorKind>(e.kind),
            r matches Ok(roll) ==> roll.number_of_rolls >= 1,
    {
        let len = text.unicode_len();
        let d = match find_separator(text) {
            None => {
                return Err(Error::new(ErrorKind::MalformedNotation));
            },
            Some(d) => d,
        };
        let number_of_rolls: u32;
        if d == 0 {
            number_of_rolls = 1;
            proof {
                assert(text@.subrange(0, 0) =~= Seq::<char>::empty());
            }
        } else {
            match scan_digits(text, 0, d, 0xFFFF_FFFF) {
                None => {
                    return Err(Error::new(ErrorKind::InvalidCount));
                },
                Some(v) => {
                    proof {
                        lemma_sat_digits_value(text@.subrange(0, d as int), u32::MAX as nat);
                    }
                    if v > 0xFFFF_FFFF {
                        return Err(Error::new(ErrorKind::InvalidCount));
                    } else if v == 0 {
                        return Err(Error::new(ErrorKind::InvalidRepetitionCount));
                    } else {
                        number_of_rolls = v as u32;
                    }
                },
            }
        }
        let sign_pos = find_sign(text, d + 1);
        let sides_end: usize = match sign_pos {
            Some(p) => p,
            None => len,
        };
        let modifier: i32;
        match sign_pos {
            None => {
                modifier = 0;
                proof {
                    assert(text@.subrange(len as int, len as int) =~= Seq::<char>::empty());
                }
            },
            Some(p) => {
                let ghost mod_txt = text@.subrange(p as int, len as int);
                proof {
                    assert(mod_txt[0] == text@[p as int]);
                    assert(mod_txt.subrange(1, mod_txt.len() as int) =~= text@.subrange(
                        p + 1 as int,
                        len as int,
                    ));
                }
                let is_plus = text.get_char(p) == '+';
                match scan_digits(text, p + 1, len, 0x8000_0000) {
                    None => {
                        return Err(Error::new(ErrorKind::InvalidModifier));
                    },
                    Some(v) => {
                        proof {
                            lemma_sat_digits_value(
                                text@.subrange(p + 1 as int, len as int),
                                0x8000_0000,
                            );
                        }
                        if is_plus {
                            if v > 0x7FFF_FFFF {
                                return Err(Error::new(ErrorKind::InvalidModifier));
                            }
                            modifier = v as i32;
                        } else {
                            if v > 0x8000_0000 {
                                return Err(Error::new(ErrorKind::InvalidModifier));
                            }
                            modifier = (-(v as i64)) as i32;
                        }
                    },
                }
            },
        }
        let sides_str = text.substring_char(d + 1, sides_end);
        match Die::parse(sides_str) {
            Err(e) => Err(e),
            Ok(die) => Ok(Roll { die, modifier, number_of_rolls }),
        }
    }
}

/// The idempotence law: parsing is deterministic, so two parses of the same
/// notation string yield requests with identical fields (or the same error),
/// however the executions that follow may differ.
pub proof fn lemma_parse_deterministic(
    s: Seq<char>,
    r1: Result<Roll, ErrorKind>,
    r2: Result<Roll, ErrorKind>,
)
    requires
        r1 == spec_parse(s),
        r2 == spec_parse(s),
    ensures
        r1 == r2,
        r1 matches Ok(a) ==> r2 matches Ok(b) && a.number_of_rolls == b.number_of_rolls && a.die
            == b.die && a.modifier == b.modifier,
{
}

} // verus!
