//! What a command is: the form `<count>d<size>`, and what each string of that
//! form, and each string of another form, is read as.

use crate::decimal::{
    all_digits, decimal, decimal_value, is_digit, lemma_decimal_prefix, lemma_decimal_round_trip,
};
use crate::parse::{Count, DiceSize, ParseError, RollCmd};
use vstd::prelude::*;

verus! {

/// Whether `s` is a run of digits, a `d` at index `at`, and a run of digits,
/// neither run empty.
pub open spec fn has_shape_at(s: Seq<char>, at: int) -> bool {
    &&& 0 < at < s.len() - 1
    &&& s[at] == 'd'
    &&& all_digits(s.subrange(0, at))
    &&& all_digits(s.subrange(at + 1, s.len() as int))
}

/// Whether `s` is of the form `<digits>d<digits>`, as a pattern
/// `^[0-9]+d[0-9]+$`.
pub open spec fn has_shape(s: Seq<char>) -> bool {
    exists|at: int| has_shape_at(s, at)
}

/// The grammar of a command: `<digits>d<digits>` whose first digit is not `0`,
/// as a pattern `^[1-9][0-9]*d[0-9]+$`.
pub open spec fn is_command(s: Seq<char>) -> bool {
    has_shape(s) && s[0] != '0'
}

/// Where the `d` of a string of the form `<digits>d<digits>` stands.
pub open spec fn separator(s: Seq<char>) -> int {
    choose|at: int| has_shape_at(s, at)
}

/// The digits before the `d`.
pub open spec fn count_token(s: Seq<char>) -> Seq<char> {
    s.subrange(0, separator(s))
}

/// The digits after the `d`.
pub open spec fn size_token(s: Seq<char>) -> Seq<char> {
    s.subrange(separator(s) + 1, s.len() as int)
}

/// The count that `token` writes: digits whose number is in `1..=255`.
pub open spec fn count_of_token(token: Seq<char>) -> Option<Count> {
    if token.len() > 0 && all_digits(token) && 1 <= decimal_value(token) <= 255 {
        Some(Count::of(decimal_value(token)))
    } else {
        None
    }
}

/// The die that `token` names, if it names one.
pub open spec fn size_of_token(token: Seq<char>) -> Option<DiceSize> {
    if token == seq!['4'] {
        Some(DiceSize::D4)
    } else if token == seq!['6'] {
        Some(DiceSize::D6)
    } else if token == seq!['8'] {
        Some(DiceSize::D8)
    } else if token == seq!['1', '0'] {
        Some(DiceSize::D10)
    } else if token == seq!['1', '2'] {
        Some(DiceSize::D12)
    } else if token == seq!['2', '0'] {
        Some(DiceSize::D20)
    } else if token == seq!['1', '0', '0'] {
        Some(DiceSize::D100)
    } else {
        None
    }
}

/// What reading `s` as a command gives: the command, or the reason why `s` is
/// refused. The form is judged first, then the number, then the size.
pub open spec fn parse_outcome(s: Seq<char>) -> Result<RollCmd, ParseError> {
    if !is_command(s) {
        Err(ParseError::UnableToParse)
    } else {
        match (count_of_token(count_token(s)), size_of_token(size_token(s))) {
            (None, _) => Err(ParseError::InvalidDiceNumber),
            (Some(_), None) => Err(ParseError::InvalidDiceSize),
            (Some(num), Some(size)) => Ok(RollCmd { num, size }),
        }
    }
}

/// A count, the letter `d` and a size, written one after the other.
pub open spec fn command_text(count: Seq<char>, size: Seq<char>) -> Seq<char> {
    count + seq!['d'] + size
}

/// A string of the form `<digits>d<digits>` has its `d` in one place only.
pub proof fn lemma_separator_unique(s: Seq<char>, a: int, b: int)
    requires
        has_shape_at(s, a),
        has_shape_at(s, b),
    ensures
        a == b,
{
    if a < b {
        assert(s.subrange(0, b)[a] == s[a]);
    } else if b < a {
        assert(s.subrange(0, a)[b] == s[b]);
    }
}

/// In a string of the form `<digits>d<digits>` the `d` stands where the first
/// run of digits ends.
pub proof fn lemma_separator_ends_run(s: Seq<char>, end: int)
    requires
        has_shape(s),
        0 <= end <= s.len(),
        all_digits(s.subrange(0, end)),
        end < s.len() ==> !is_digit(s[end]),
    ensures
        separator(s) == end,
{
    let at = separator(s);
    if at < end {
        assert(s.subrange(0, end)[at] == s[at]);
    } else if end < at {
        assert(s.subrange(0, at)[end] == s[end]);
    }
}

/// Digits, a `d` and digits are of the form `<digits>d<digits>`, and are taken
/// apart again into the same two runs of digits.
pub proof fn lemma_tokens(count: Seq<char>, size: Seq<char>)
    requires
        count.len() > 0,
        size.len() > 0,
        all_digits(count),
        all_digits(size),
    ensures
        has_shape(command_text(count, size)),
        separator(command_text(count, size)) == count.len(),
        count_token(command_text(count, size)) == count,
        size_token(command_text(count, size)) == size,
{
    let s = command_text(count, size);
    let at = count.len() as int;
    assert(has_shape_at(s, at));
    lemma_separator_unique(s, at, separator(s));
}

/// Digits that do not begin with `0` write a number that is not zero.
pub proof fn lemma_no_leading_zero(digits: Seq<char>)
    requires
        digits.len() > 0,
        all_digits(digits),
        digits[0] != '0',
    ensures
        decimal_value(digits) >= 1,
{
    lemma_decimal_prefix(digits, 1);
}

/// A string that is not of the form `<digits>d<digits>` is refused as
/// `UnableToParse`.
pub proof fn lemma_shapeless_refused(s: Seq<char>)
    requires
        !has_shape(s),
    ensures
        parse_outcome(s) == Err::<RollCmd, ParseError>(ParseError::UnableToParse),
{
}

/// A string `<count>d<size>` whose count begins with `0`, the count `0`
/// itself among them, is refused as `UnableToParse`, whatever the size.
pub proof fn lemma_leading_zero_refused(count: Seq<char>, size: Seq<char>)
    requires
        count.len() > 0,
        count[0] == '0',
    ensures
        parse_outcome(command_text(count, size)) == Err::<RollCmd, ParseError>(
            ParseError::UnableToParse,
        ),
{
}

/// A string `<count>d<size>` whose count has no leading zero and is over 255
/// is refused as `InvalidDiceNumber`, whatever digits the size is.
pub proof fn lemma_large_count_refused(count: Seq<char>, size: Seq<char>)
    requires
        count.len() > 0,
        size.len() > 0,
        all_digits(count),
        all_digits(size),
        count[0] != '0',
        decimal_value(count) > 255,
    ensures
        parse_outcome(command_text(count, size)) == Err::<RollCmd, ParseError>(
            ParseError::InvalidDiceNumber,
        ),
{
    lemma_tokens(count, size);
}

/// A string `<count>d<size>` whose count has no leading zero and is at most
/// 255 is accepted, with that count, where the size is one of the seven dice,
/// and is refused as `InvalidDiceSize` where it is not.
pub proof fn lemma_count_in_range(count: Seq<char>, size: Seq<char>)
    requires
        count.len() > 0,
        size.len() > 0,
        all_digits(count),
        all_digits(size),
        count[0] != '0',
        decimal_value(count) <= 255,
    ensures
        parse_outcome(command_text(count, size)) == match size_of_token(size) {
            Some(die) => Ok::<RollCmd, ParseError>(
                (RollCmd { num: Count::of(decimal_value(count)), size: die }),
            ),
            None => Err(ParseError::InvalidDiceSize),
        },
{
    lemma_tokens(count, size);
    lemma_no_leading_zero(count);
}

/// The name of each die is the number of its faces in base ten.
pub proof fn lemma_size_name(size: DiceSize)
    ensures
        size_of_token(decimal(size.faces())) == Some(size),
{
    reveal_with_fuel(decimal, 3);
    assert(decimal(4) =~= seq!['4']);
    assert(decimal(6) =~= seq!['6']);
    assert(decimal(8) =~= seq!['8']);
    assert(decimal(10) =~= seq!['1', '0']);
    assert(decimal(12) =~= seq!['1', '2']);
    assert(decimal(20) =~= seq!['2', '0']);
    assert(decimal(100) =~= seq!['1', '0', '0']);
    assert(seq!['4'][0] == '4' && seq!['6'][0] == '6' && seq!['8'][0] == '8');
}

/// Every command can be written: of a number of dice in `1..=255` and a die,
/// the number in base ten, a `d` and the faces of the die in base ten read
/// back as that command.
pub proof fn lemma_command_reads_back(count: nat, size: DiceSize)
    requires
        1 <= count <= 255,
    ensures
        parse_outcome(command_text(decimal(count), decimal(size.faces()))) == Ok::<
            RollCmd,
            ParseError,
        >((RollCmd { num: Count::of(count), size })),
{
    lemma_decimal_round_trip(count);
    lemma_decimal_round_trip(size.faces());
    lemma_size_name(size);
    lemma_count_in_range(decimal(count), decimal(size.faces()));
}

/// An accepted command has between 1 and 255 dice.
pub proof fn lemma_accepted_count(s: Seq<char>)
    requires
        parse_outcome(s) is Ok,
    ensures
        1 <= parse_outcome(s)->Ok_0.num@ <= 255,
{
    Count::lemma_of(decimal_value(count_token(s)));
}

} // verus!
