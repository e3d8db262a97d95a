//! The command reader: from a string such as `4d6` to a validated roll command.

use crate::decimal::{all_digits, decimal_value, is_decimal_digit, is_digit, lemma_decimal_prefix};
use crate::grammar::{
    count_of_token, count_token, has_shape, has_shape_at, is_command, lemma_accepted_count,
    lemma_separator_ends_run, lemma_separator_unique, parse_outcome, separator, size_of_token,
};
use vstd::prelude::*;
use vstd::slice::slice_subrange;

verus! {

/// Why a string was not accepted as a roll command.
#[derive(Debug, PartialEq, Eq, Structural, Clone, Copy)]
pub enum ParseError {
    /// The number of dice is not in `1..=255`.
    InvalidDiceNumber,
    /// The size is not one of the seven permitted dice.
    InvalidDiceSize,
    /// The string is not of the form `<number>d<size>`.
    UnableToParse,
}

impl ParseError {
    /// What to tell the sender of a refused string.
    pub open spec fn message_text(self) -> Seq<char> {
        match self {
            ParseError::InvalidDiceNumber => "Number of dice must be <= 255"@,
            ParseError::InvalidDiceSize => "Dice size must be 4, 6, 8, 10, 12, 20, or 100"@,
            ParseError::UnableToParse => "Unable to parse, must be of the form <number>d<size>"@,
        }
    }

    /// What to tell the sender of a refused string.
    pub fn message(self) -> (text: String)
        ensures
            text@ == self.message_text(),
    {
        let text: &str = match self {
            ParseError::InvalidDiceNumber => "Number of dice must be <= 255",
            ParseError::InvalidDiceSize => "Dice size must be 4, 6, 8, 10, 12, 20, or 100",
            ParseError::UnableToParse => "Unable to parse, must be of the form <number>d<size>",
        };
        text.to_owned()
    }

    /// Each reason has a message of its own.
    pub proof fn lemma_messages_differ(a: ParseError, b: ParseError)
        requires
            a != b,
        ensures
            a.message_text() != b.message_text(),
    {
        reveal_strlit("Number of dice must be <= 255");
        reveal_strlit("Dice size must be 4, 6, 8, 10, 12, 20, or 100");
        reveal_strlit("Unable to parse, must be of the form <number>d<size>");
        assert(a.message_text().len() != b.message_text().len());
    }
}

/// The dice that can be rolled, each named by its number of faces.
#[derive(Debug, PartialEq, Eq, Structural, Clone, Copy)]
pub enum DiceSize {
    D4,
    D6,
    D8,
    D10,
    D12,
    D20,
    D100,
}

impl DiceSize {
    /// The number of faces of the die.
    pub open spec fn faces(self) -> nat {
        match self {
            DiceSize::D4 => 4,
            DiceSize::D6 => 6,
            DiceSize::D8 => 8,
            DiceSize::D10 => 10,
            DiceSize::D12 => 12,
            DiceSize::D20 => 20,
            DiceSize::D100 => 100,
        }
    }
}

impl From<DiceSize> for usize {
    fn from(d: DiceSize) -> (n: usize) {
        match d {
            DiceSize::D4 => 4,
            DiceSize::D6 => 6,
            DiceSize::D8 => 8,
            DiceSize::D10 => 10,
            DiceSize::D12 => 12,
            DiceSize::D20 => 20,
            DiceSize::D100 => 100,
        }
    }
}

impl vstd::std_specs::convert::FromSpecImpl<DiceSize> for usize {
    open spec fn obeys_from_spec() -> bool {
        true
    }

    open spec fn from_spec(d: DiceSize) -> usize {
        d.faces() as usize
    }
}

impl From<DiceSize> for Count {
    fn from(d: DiceSize) -> (c: Count) {
        match d {
            DiceSize::D4 => Count { n: 4 },
            DiceSize::D6 => Count { n: 6 },
            DiceSize::D8 => Count { n: 8 },
            DiceSize::D10 => Count { n: 10 },
            DiceSize::D12 => Count { n: 12 },
            DiceSize::D20 => Count { n: 20 },
            DiceSize::D100 => Count { n: 100 },
        }
    }
}

impl vstd::std_specs::convert::FromSpecImpl<DiceSize> for Count {
    open spec fn obeys_from_spec() -> bool {
        true
    }

    open spec fn from_spec(d: DiceSize) -> Count {
        Count::of(d.faces())
    }
}

/// A number in `1..=255`: how many dice, or how many faces.
#[derive(Debug, PartialEq, Eq, Structural, Clone, Copy)]
pub struct Count {
    n: u8,
}

impl View for Count {
    type V = nat;

    closed spec fn view(&self) -> nat {
        self.n as nat
    }
}

impl Count {
    #[verifier::type_invariant]
    spec fn nonzero(self) -> bool {
        self.n != 0
    }

    /// The count whose value is `n`, for `n` in `1..=255`.
    pub closed spec fn of(n: nat) -> Count {
        Count { n: n as u8 }
    }

    /// The count `n`, or `None` for zero.
    pub fn new(n: u8) -> (r: Option<Count>)
        ensures
            n == 0 ==> r is None,
            n != 0 ==> r == Some(Count::of(n as nat)),
    {
        if n == 0 {
            None
        } else {
            Some(Count { n })
        }
    }

    /// The number itself.
    pub fn get(self) -> (n: u8)
        ensures
            n == self@,
            n >= 1,
    {
        proof {
            use_type_invariant(&self);
        }
        self.n
    }

    /// The value of the count of `n` is `n`.
    pub proof fn lemma_of(n: nat)
        requires
            n <= 255,
        ensures
            Count::of(n)@ == n,
    {
    }
}

/// A validated command: how many dice to roll, and of which size.
#[derive(Debug, PartialEq, Eq, Structural, Clone, Copy)]
pub struct RollCmd {
    pub num: Count,
    pub size: DiceSize,
}

/// The characters of `s`, in order.
pub fn chars_of(s: &str) -> (chars: Vec<char>)
    ensures
        chars@ == s@,
{
    let mut chars: Vec<char> = Vec::new();
    for c in it: s.chars()
        invariant
            it.seq() == s@,
            chars@ == it.seq().take(it.index()),
    {
        chars.push(c);
    }
    chars
}

/// The end of the run of digits that begins at `from`.
fn digit_run_end(chars: &[char], from: usize) -> (end: usize)
    requires
        from <= chars@.len(),
    ensures
        from <= end <= chars@.len(),
        all_digits(chars@.subrange(from as int, end as int)),
        end < chars@.len() ==> !is_digit(chars@[end as int]),
{
    let mut end: usize = from;
    while end < chars.len() && is_decimal_digit(chars[end])
        invariant
            from <= end <= chars@.len(),
            all_digits(chars@.subrange(from as int, end as int)),
        decreases chars@.len() - end,
    {
        end += 1;
    }
    end
}

/// Where the `d` of a command stands, or `None` where `chars` is no command.
pub fn find_separator(chars: &[char]) -> (r: Option<usize>)
    ensures
        r is Some <==> is_command(chars@),
        r matches Some(at) ==> at == separator(chars@) && has_shape_at(chars@, at as int),
{
    let len: usize = chars.len();
    let at: usize = digit_run_end(chars, 0);
    proof {
        if has_shape(chars@) {
            lemma_separator_ends_run(chars@, at as int);
        }
    }
    if at == 0 || at >= len || chars[at] != 'd' || chars[0] == '0' {
        return None;
    }
    let end: usize = digit_run_end(chars, at + 1);
    if end == at + 1 || end < len {
        proof {
            if has_shape(chars@) && end < len {
                assert(chars@.subrange(at + 1, len as int)[end - at - 1] == chars@[end as int]);
            }
        }
        return None;
    }
    proof {
        assert(has_shape_at(chars@, at as int));
        lemma_separator_unique(chars@, at as int, separator(chars@));
    }
    Some(at)
}

/// The count that the digits `token` write, or `None` where they are no
/// digits or write a number outside `1..=255`.
pub fn parse_count(token: &[char]) -> (r: Option<Count>)
    ensures
        r == count_of_token(token@),
{
    let mut value: u16 = 0;
    let mut i: usize = 0;
    while i < token.len()
        invariant
            i <= token@.len(),
            all_digits(token@.take(i as int)),
            value == decimal_value(token@.take(i as int)),
            value <= 255,
        decreases token@.len() - i,
    {
        let c: char = token[i];
        if !is_decimal_digit(c) {
            return None;
        }
        let digit: u16 = (c as u32 - '0' as u32) as u16;
        proof {
            assert(token@.take(i + 1).drop_last() == token@.take(i as int));
            lemma_decimal_prefix(token@, i + 1);
        }
        value = value * 10 + digit;
        if value > 255 {
            return None;
        }
        i += 1;
    }
    proof {
        assert(token@.take(i as int) == token@);
    }
    if value == 0 {
        return None;
    }
    Count::new(value as u8)
}

impl DiceSize {
    /// The die that `token` names, or `None` where it names none.
    pub fn from_chars(token: &[char]) -> (r: Option<DiceSize>)
        ensures
            r == size_of_token(token@),
    {
        let len: usize = token.len();
        let size = if len == 1 && token[0] == '4' {
            Some(DiceSize::D4)
        } else if len == 1 && token[0] == '6' {
            Some(DiceSize::D6)
        } else if len == 1 && token[0] == '8' {
            Some(DiceSize::D8)
        } else if len == 2 && token[0] == '1' && token[1] == '0' {
            Some(DiceSize::D10)
        } else if len == 2 && token[0] == '1' && token[1] == '2' {
            Some(DiceSize::D12)
        } else if len == 2 && token[0] == '2' && token[1] == '0' {
            Some(DiceSize::D20)
        } else if len == 3 && token[0] == '1' && token[1] == '0' && token[2] == '0' {
            Some(DiceSize::D100)
        } else {
            None
        };
        proof {
            let t = token@;
            if len == 1 {
                assert(t =~= seq![t[0]]);
            } else if len == 2 {
                assert(t =~= seq![t[0], t[1]]);
            } else if len == 3 {
                assert(t =~= seq![t[0], t[1], t[2]]);
            }
        }
        size
    }
}

impl core::str::FromStr for DiceSize {
    type Err = ParseError;

    /// The die that `s` names; `InvalidDiceSize` where it names none.
    fn from_str(s: &str) -> (r: Result<DiceSize, ParseError>)
        ensures
            r == match size_of_token(s@) {
                Some(size) => Ok::<DiceSize, ParseError>(size),
                None => Err(ParseError::InvalidDiceSize),
            },
    {
        let chars = chars_of(s);
        match DiceSize::from_chars(chars.as_slice()) {
            Some(size) => Ok(size),
            None => Err(ParseError::InvalidDiceSize),
        }
    }
}

/// Reads the characters of a command; see `parse_dice_str`.
pub fn parse_chars(chars: &[char]) -> (r: Result<RollCmd, ParseError>)
    ensures
        r == parse_outcome(chars@),
{
    let at: usize = match find_separator(chars) {
        Some(at) => at,
        None => { return Err(ParseError::UnableToParse); },
    };
    let len: usize = chars.len();
    let num: Count = match parse_count(slice_subrange(chars, 0, at)) {
        Some(num) => num,
        None => { return Err(ParseError::InvalidDiceNumber); },
    };
    let size: DiceSize = match DiceSize::from_chars(slice_subrange(chars, at + 1, len)) {
        Some(size) => size,
        None => { return Err(ParseError::InvalidDiceSize); },
    };
    Ok(RollCmd { num, size })
}

/// Reads a command such as `4d6`: a number of dice in `1..=255` without a
/// leading zero, the letter `d`, and one of the sizes 4, 6, 8, 10, 12, 20, 100.
///
/// The form of a command is `<digits>d<digits>` with a first digit other than
/// `0`, and is judged as a whole: a string of any other form is
/// `UnableToParse`. The form admits any digits as the size, and which sizes
/// there are is judged after it: so of the strings of that form, one with a
/// number over 255 is `InvalidDiceNumber`, whatever its size, and one with a
/// number in range and a size that is none of the seven, such as `4d23`, is
/// `InvalidDiceSize`.
pub fn parse_dice_str(dice_str: &str) -> (r: Result<RollCmd, ParseError>)
    ensures
        r == parse_outcome(dice_str@),
        r matches Ok(cmd) ==> 1 <= cmd.num@ <= 255,
        !has_shape(dice_str@) ==> r == Err::<RollCmd, ParseError>(ParseError::UnableToParse),
        dice_str@.len() > 0 && dice_str@[0] == '0' ==> r == Err::<RollCmd, ParseError>(
            ParseError::UnableToParse,
        ),
        is_command(dice_str@) && decimal_value(count_token(dice_str@)) > 255 ==> r == Err::<
            RollCmd,
            ParseError,
        >(ParseError::InvalidDiceNumber),
{
    let chars = chars_of(dice_str);
    proof {
        if parse_outcome(dice_str@) is Ok {
            lemma_accepted_count(dice_str@);
        }
    }
    parse_chars(chars.as_slice())
}

} // verus!
