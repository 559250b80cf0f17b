//! The commands of the console: what each one reads from its tokens and the
//! message it builds.

use crate::message::{cc_message, control_change, note_on, noteon_message};
use crate::token::{parse_u8, parse_u8_spec, texts};
use vstd::prelude::*;

verus! {

/// Why a command could not be carried out on its tokens.
#[derive(Clone, Copy, Debug, PartialEq, Eq, Structural)]
pub enum CommandError {
    /// The token list ends before the token at `position`.
    MissingArgument { position: usize },
    /// The token at `position` is not a decimal number in `0..=255`.
    InvalidArgument { position: usize },
}

/// What a registered command does with its tokens.
#[derive(Clone, Copy, Debug, PartialEq, Eq, Structural)]
pub enum Handler {
    /// Reads note, velocity and channel; builds a note-on message.
    NoteOn,
    /// Reads control, value and channel; builds a control-change message.
    ControlChange,
}

/// The number at `position` of a token list. Position 0 holds the name of the
/// command, so arguments start at position 1.
pub open spec fn argument(tokens: Seq<Seq<char>>, position: usize) -> Result<u8, CommandError> {
    if position >= tokens.len() {
        Err(CommandError::MissingArgument { position })
    } else {
        match parse_u8_spec(tokens[position as int]) {
            Some(value) => Ok(value),
            None => Err(CommandError::InvalidArgument { position }),
        }
    }
}

/// The three numbers at positions 1, 2 and 3 of a token list, or the error at
/// the first of these positions that has one. Tokens after position 3 are not
/// looked at.
pub open spec fn arguments(tokens: Seq<Seq<char>>) -> Result<(u8, u8, u8), CommandError> {
    match argument(tokens, 1) {
        Err(e) => Err(e),
        Ok(first) => match argument(tokens, 2) {
            Err(e) => Err(e),
            Ok(second) => match argument(tokens, 3) {
                Err(e) => Err(e),
                Ok(third) => Ok((first, second, third)),
            },
        },
    }
}

/// Reads the number at `position` of a token list.
pub fn read_argument(parts: &Vec<&str>, position: usize) -> (value: Result<u8, CommandError>)
    ensures
        value == argument(texts(parts@), position),
{
    if position >= parts.len() {
        return Err(CommandError::MissingArgument { position });
    }
    match parse_u8(parts[position]) {
        Some(value) => Ok(value),
        None => Err(CommandError::InvalidArgument { position }),
    }
}

/// Reads the three numbers that each command takes.
pub fn read_arguments(parts: &Vec<&str>) -> (values: Result<(u8, u8, u8), CommandError>)
    ensures
        values == arguments(texts(parts@)),
{
    let first = match read_argument(parts, 1) {
        Ok(value) => value,
        Err(e) => {
            return Err(e);
        },
    };
    let second = match read_argument(parts, 2) {
        Ok(value) => value,
        Err(e) => {
            return Err(e);
        },
    };
    let third = match read_argument(parts, 3) {
        Ok(value) => value,
        Err(e) => {
            return Err(e);
        },
    };
    Ok((first, second, third))
}

impl Handler {
    /// The message that this handler builds from three numbers.
    pub open spec fn encode(self, values: (u8, u8, u8)) -> [u8; 3] {
        match self {
            Handler::NoteOn => note_on(values.0, values.1, values.2),
            Handler::ControlChange => control_change(values.0, values.1, values.2),
        }
    }

    /// What this handler makes of a token list: the message, or the reason
    /// why there is none.
    pub open spec fn outcome(self, tokens: Seq<Seq<char>>) -> Result<[u8; 3], CommandError> {
        match arguments(tokens) {
            Ok(values) => Ok(self.encode(values)),
            Err(e) => Err(e),
        }
    }

    /// Builds the message for a token list, or says what is wrong with it.
    pub fn try_invoke(self, parts: &Vec<&str>) -> (result: Result<[u8; 3], CommandError>)
        ensures
            result == self.outcome(texts(parts@)),
    {
        match read_arguments(parts) {
            Ok((first, second, third)) => match self {
                Handler::NoteOn => Ok(noteon_message(first, second, third)),
                Handler::ControlChange => Ok(cc_message(first, second, third)),
            },
            Err(e) => Err(e),
        }
    }

    /// Builds the message for a token list that holds three numbers.
    pub fn invoke(self, parts: Vec<&str>) -> (message: [u8; 3])
        requires
            arguments(texts(parts@)) is Ok,
        ensures
            Ok::<[u8; 3], CommandError>(message) == self.outcome(texts(parts@)),
    {
        match self {
            Handler::NoteOn => handle_noteon_command(parts),
            Handler::ControlChange => handle_cc_command(parts),
        }
    }
}

/// Handles `noteon NOTE VELOCITY CHANNEL`: the tokens at positions 1, 2 and 3
/// are note, velocity and channel.
pub fn handle_noteon_command(parts: Vec<&str>) -> (message: [u8; 3])
    requires
        arguments(texts(parts@)) is Ok,
    ensures
        Ok::<[u8; 3], CommandError>(message) == Handler::NoteOn.outcome(texts(parts@)),
{
    noteon_message(
        parse_u8(parts[1]).unwrap(),
        parse_u8(parts[2]).unwrap(),
        parse_u8(parts[3]).unwrap(),
    )
}

/// Handles `cc CONTROL VALUE CHANNEL`: the tokens at positions 1, 2 and 3 are
/// control, value and channel.
pub fn handle_cc_command(parts: Vec<&str>) -> (message: [u8; 3])
    requires
        arguments(texts(parts@)) is Ok,
    ensures
        Ok::<[u8; 3], CommandError>(message) == Handler::ControlChange.outcome(texts(parts@)),
{
    cc_message(
        parse_u8(parts[1]).unwrap(),
        parse_u8(parts[2]).unwrap(),
        parse_u8(parts[3]).unwrap(),
    )
}

} // verus!
