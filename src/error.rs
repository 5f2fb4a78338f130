//! Protocol errors met while reading the SMTP stream.

use vstd::prelude::*;

verus! {

/// Why a command line, a reply line or a reply could not be interpreted.
#[derive(Clone, Copy, Debug, PartialEq, Eq, Structural)]
pub enum ParseError {
    /// The verb of a command line is not valid UTF-8.
    InvalidVerbEncoding,
    /// A reply line is shorter than three bytes, or its fourth byte is
    /// neither a space nor a hyphen.
    InvalidReplyLine,
    /// A reply code is not exactly three bytes long.
    InvalidReplyCode,
    /// The first digit of a reply code is not one of `2`..`5`.
    InvalidReplyType(u8),
    /// The second digit of a reply code is not one of `0`..`5`.
    InvalidReplyCategory(u8),
    /// The third digit of a reply code is not one of `0`..`9`.
    InvalidReplyGradation(u8),
    /// A complete reply arrived while nothing was waiting for one.
    UnexpectedReply,
}

} // verus!
