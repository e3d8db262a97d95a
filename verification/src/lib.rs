//! Dice notation: reading a command such as `4d6`, rolling it, and writing
//! the roll out as text.

pub mod decimal;
pub mod grammar;
pub mod parse;
pub mod render;
pub mod roll;

use grammar::parse_outcome;
use parse::{parse_dice_str, ParseError, RollCmd};
use render::rendered;
use roll::{is_critical_roll, is_normal_roll, is_roll, roll, Mode};
use vstd::prelude::*;

verus! {

/// Reads `dice` as a command, rolls it in `mode` and writes the roll out.
///
/// A string that is no command is refused with the reason that the reader
/// gives. Else the text is that of some roll of the command in `mode`.
pub fn roll_text(dice: &str, mode: Mode) -> (r: Result<String, ParseError>)
    ensures
        match r {
            Ok(text) => exists|rolls: Seq<usize>|
                parse_outcome(dice@) matches Ok(cmd) && is_roll(
                    mode,
                    cmd.num@,
                    cmd.size.faces(),
                    rolls,
                ) && text@ == #[trigger] rendered(rolls),
            Err(e) => parse_outcome(dice@) == Err::<RollCmd, ParseError>(e),
        },
{
    match parse_dice_str(dice) {
        Ok(cmd) => Ok(roll(&cmd, mode).render()),
        Err(e) => Err(e),
    }
}

/// Reads `dice` as a command, rolls it and writes the roll out: `3 + 5 = 8`.
///
/// A string that is no command is refused with the reason that the reader
/// gives. Else the text is that of some roll of as many dice as the command
/// says, each between 1 and the number of faces.
pub fn normal(dice: String) -> (r: Result<String, ParseError>)
    ensures
        match r {
            Ok(text) => exists|rolls: Seq<usize>|
                parse_outcome(dice@) matches Ok(cmd) && is_normal_roll(
                    cmd.num@,
                    cmd.size.faces(),
                    rolls,
                ) && text@ == #[trigger] rendered(rolls),
            Err(e) => parse_outcome(dice@) == Err::<RollCmd, ParseError>(e),
        },
{
    roll_text(dice.as_str(), Mode::Normal)
}

/// Reads `dice` as a command, rolls it as a critical hit and writes the roll
/// out: `12 + 3 + 5 = 20`.
///
/// A string that is no command is refused with the reason that the reader
/// gives. Else the text is that of some critical roll of the command: the most
/// that its dice can show together, then a draw for each die.
pub fn critical(dice: String) -> (r: Result<String, ParseError>)
    ensures
        match r {
            Ok(text) => exists|rolls: Seq<usize>|
                parse_outcome(dice@) matches Ok(cmd) && is_critical_roll(
                    cmd.num@,
                    cmd.size.faces(),
                    rolls,
                ) && text@ == #[trigger] rendered(rolls),
            Err(e) => parse_outcome(dice@) == Err::<RollCmd, ParseError>(e),
        },
{
    roll_text(dice.as_str(), Mode::Critical)
}

} // verus!
