//! SMTP reply codes, reply lines and multi-line replies.

use crate::error::ParseError;
use crate::line::SP;
use vstd::prelude::*;

verus! {

/// Hyphen, which marks a reply line that more lines follow.
pub const HYPHEN: u8 = 45;

/// The first digit of a reply code: whether the command succeeded.
#[derive(Clone, Copy, Debug, PartialEq, Eq, Hash, Structural)]
pub enum ReplyType {
    /// `2yz`
    PositiveCompletionReply,
    /// `3yz`
    PositiveIntermediateReply,
    /// `4yz`
    TransientNegativeCompletionReply,
    /// `5yz`
    PermanentNegativeCompletionReply,
}

/// The reply type that the ASCII digit `octet` stands for.
pub open spec fn reply_type_of(octet: u8) -> Option<ReplyType> {
    if octet == 50 {
        Some(ReplyType::PositiveCompletionReply)
    } else if octet == 51 {
        Some(ReplyType::PositiveIntermediateReply)
    } else if octet == 52 {
        Some(ReplyType::TransientNegativeCompletionReply)
    } else if octet == 53 {
        Some(ReplyType::PermanentNegativeCompletionReply)
    } else {
        None
    }
}

impl ReplyType {
    /// True for the two positive classes, `2yz` and `3yz`.
    pub open spec fn spec_is_positive(self) -> bool {
        self is PositiveCompletionReply || self is PositiveIntermediateReply
    }

    /// The ASCII digit of this reply type.
    pub open spec fn spec_digit(self) -> u8 {
        match self {
            ReplyType::PositiveCompletionReply => 50,
            ReplyType::PositiveIntermediateReply => 51,
            ReplyType::TransientNegativeCompletionReply => 52,
            ReplyType::PermanentNegativeCompletionReply => 53,
        }
    }

    pub fn is_positive(&self) -> (r: bool)
        ensures
            r == self.spec_is_positive(),
    {
        match self {
            ReplyType::PositiveCompletionReply | ReplyType::PositiveIntermediateReply => true,
            ReplyType::TransientNegativeCompletionReply
            | ReplyType::PermanentNegativeCompletionReply => false,
        }
    }

    pub fn digit(&self) -> (r: u8)
        ensures
            r == self.spec_digit(),
    {
        match self {
            ReplyType::PositiveCompletionReply => 50,
            ReplyType::PositiveIntermediateReply => 51,
            ReplyType::TransientNegativeCompletionReply => 52,
            ReplyType::PermanentNegativeCompletionReply => 53,
        }
    }

    /// Reads the reply type from its ASCII digit.
    pub fn parse(octet: u8) -> (r: Result<ReplyType, ParseError>)
        ensures
            match reply_type_of(octet) {
                Some(t) => r == Ok::<ReplyType, ParseError>(t),
                None => r == Err::<ReplyType, ParseError>(ParseError::InvalidReplyType(octet)),
            },
    {
        if octet == 50 {
            Ok(ReplyType::PositiveCompletionReply)
        } else if octet == 51 {
            Ok(ReplyType::PositiveIntermediateReply)
        } else if octet == 52 {
            Ok(ReplyType::TransientNegativeCompletionReply)
        } else if octet == 53 {
            Ok(ReplyType::PermanentNegativeCompletionReply)
        } else {
            Err(ParseError::InvalidReplyType(octet))
        }
    }
}

/// The second digit of a reply code: what the reply is about.
#[derive(Clone, Copy, Debug, PartialEq, Eq, Hash, Structural)]
pub enum ReplyCategory {
    /// `x0z`
    Syntax,
    /// `x1z`
    Information,
    /// `x2z`
    Connections,
    /// `x3z`
    X3Z,
    /// `x4z`
    X4Z,
    /// `x5z`
    MailSystem,
}

/// The reply category that the ASCII digit `octet` stands for.
pub open spec fn reply_category_of(octet: u8) -> Option<ReplyCategory> {
    if octet == 48 {
        Some(ReplyCategory::Syntax)
    } else if octet == 49 {
        Some(ReplyCategory::Information)
    } else if octet == 50 {
        Some(ReplyCategory::Connections)
    } else if octet == 51 {
        Some(ReplyCategory::X3Z)
    } else if octet == 52 {
        Some(ReplyCategory::X4Z)
    } else if octet == 53 {
        Some(ReplyCategory::MailSystem)
    } else {
        None
    }
}

impl ReplyCategory {
    /// The ASCII digit of this category.
    pub open spec fn spec_digit(self) -> u8 {
        match self {
            ReplyCategory::Syntax => 48,
            ReplyCategory::Information => 49,
            ReplyCategory::Connections => 50,
            ReplyCategory::X3Z => 51,
            ReplyCategory::X4Z => 52,
            ReplyCategory::MailSystem => 53,
        }
    }

    pub fn digit(&self) -> (r: u8)
        ensures
            r == self.spec_digit(),
    {
        match self {
            ReplyCategory::Syntax => 48,
            ReplyCategory::Information => 49,
            ReplyCategory::Connections => 50,
            ReplyCategory::X3Z => 51,
            ReplyCategory::X4Z => 52,
            ReplyCategory::MailSystem => 53,
        }
    }

    /// Reads the category from its ASCII digit.
    pub fn parse(octet: u8) -> (r: Result<ReplyCategory, ParseError>)
        ensures
            match reply_category_of(octet) {
                Some(c) => r == Ok::<ReplyCategory, ParseError>(c),
                None => r == Err::<ReplyCategory, ParseError>(
                    ParseError::InvalidReplyCategory(octet),
                ),
            },
    {
        if octet == 48 {
            Ok(ReplyCategory::Syntax)
        } else if octet == 49 {
            Ok(ReplyCategory::Information)
        } else if octet == 50 {
            Ok(ReplyCategory::Connections)
        } else if octet == 51 {
            Ok(ReplyCategory::X3Z)
        } else if octet == 52 {
            Ok(ReplyCategory::X4Z)
        } else if octet == 53 {
            Ok(ReplyCategory::MailSystem)
        } else {
            Err(ParseError::InvalidReplyCategory(octet))
        }
    }
}

/// The third digit of a reply code, as a number from 0 to 9.
#[derive(Clone, Copy, Debug, PartialEq, Eq, Hash, Structural)]
pub struct ReplyGradation(pub u8);

/// The gradation that the ASCII digit `octet` stands for.
pub open spec fn reply_gradation_of(octet: u8) -> Option<ReplyGradation> {
    if 48 <= octet <= 57 {
        Some(ReplyGradation((octet - 48) as u8))
    } else {
        None
    }
}

impl ReplyGradation {
    /// Reads the gradation from its ASCII digit.
    pub fn parse(octet: u8) -> (r: Result<ReplyGradation, ParseError>)
        ensures
            match reply_gradation_of(octet) {
                Some(g) => r == Ok::<ReplyGradation, ParseError>(g),
                None => r == Err::<ReplyGradation, ParseError>(
                    ParseError::InvalidReplyGradation(octet),
                ),
            },
    {
        if 48 <= octet && octet <= 57 {
            Ok(ReplyGradation(octet - 48))
        } else {
            Err(ParseError::InvalidReplyGradation(octet))
        }
    }

    /// The ASCII digit of this gradation; requires a value below ten.
    pub fn digit(&self) -> (r: u8)
        requires
            self.0 < 10,
        ensures
            r == self.0 + 48,
    {
        self.0 + 48
    }
}

/// A three-digit SMTP reply code `xyz`.
#[derive(Clone, Copy, Debug, PartialEq, Eq, Hash, Structural)]
pub struct ReplyCode {
    /// Reply type, the first digit.
    pub x: ReplyType,
    /// Reply category, the second digit.
    pub y: ReplyCategory,
    /// Gradation within the category, the third digit.
    pub z: ReplyGradation,
}

/// The reply code that the three bytes of `b` spell, or why they spell none.
pub open spec fn parse_reply_code(b: Seq<u8>) -> Result<ReplyCode, ParseError> {
    if b.len() != 3 {
        Err(ParseError::InvalidReplyCode)
    } else {
        match (reply_type_of(b[0]), reply_category_of(b[1]), reply_gradation_of(b[2])) {
            (None, _, _) => Err(ParseError::InvalidReplyType(b[0])),
            (Some(_), None, _) => Err(ParseError::InvalidReplyCategory(b[1])),
            (Some(_), Some(_), None) => Err(ParseError::InvalidReplyGradation(b[2])),
            (Some(x), Some(y), Some(z)) => Ok(ReplyCode { x, y, z }),
        }
    }
}

impl ReplyCode {
    /// The three ASCII digits of this code.
    pub open spec fn spec_bytes(self) -> Seq<u8> {
        seq![self.x.spec_digit(), self.y.spec_digit(), (self.z.0 + 48) as u8]
    }

    pub fn response_type(&self) -> (r: ReplyType)
        ensures
            r == self.x,
    {
        self.x
    }

    /// Reads a reply code from exactly three ASCII digits.
    pub fn parse(b: &[u8]) -> (r: Result<ReplyCode, ParseError>)
        ensures
            r == parse_reply_code(b@),
    {
        if b.len() != 3 {
            return Err(ParseError::InvalidReplyCode);
        }
        let x = match ReplyType::parse(b[0]) {
            Ok(x) => x,
            Err(e) => return Err(e),
        };
        let y = match ReplyCategory::parse(b[1]) {
            Ok(y) => y,
            Err(e) => return Err(e),
        };
        let z = match ReplyGradation::parse(b[2]) {
            Ok(z) => z,
            Err(e) => return Err(e),
        };
        Ok(ReplyCode { x, y, z })
    }

    /// The three ASCII digits of this code; requires a gradation below ten.
    pub fn to_bytes(&self) -> (r: Vec<u8>)
        requires
            self.z.0 < 10,
        ensures
            r@ == self.spec_bytes(),
    {
        let mut r: Vec<u8> = Vec::new();
        r.push(self.x.digit());
        r.push(self.y.digit());
        r.push(self.z.digit());
        proof {
            assert(r@ =~= self.spec_bytes());
        }
        r
    }
}

/// What a reply line holds.
pub struct ReplyLineView {
    pub code: ReplyCode,
    /// False when more lines of the same reply follow.
    pub last: bool,
    pub text: Seq<u8>,
}

/// The reply line that `line` (without its terminator) spells, or why it
/// spells none.
pub open spec fn parse_reply_line(line: Seq<u8>) -> Result<ReplyLineView, ParseError> {
    if line.len() < 3 {
        Err(ParseError::InvalidReplyLine)
    } else {
        match parse_reply_code(line.take(3)) {
            Err(e) => Err(e),
            Ok(code) => if line.len() == 3 {
                Ok(ReplyLineView { code, last: true, text: seq![] })
            } else if line[3] == SP {
                Ok(ReplyLineView { code, last: true, text: line.skip(4) })
            } else if line[3] == HYPHEN {
                Ok(ReplyLineView { code, last: false, text: line.skip(4) })
            } else {
                Err(ParseError::InvalidReplyLine)
            },
        }
    }
}

/// A single line of an SMTP reply.
#[derive(Debug)]
pub struct ReplyLine {
    code: ReplyCode,
    last: bool,
    text: Vec<u8>,
}

impl View for ReplyLine {
    type V = ReplyLineView;

    closed spec fn view(&self) -> ReplyLineView {
        ReplyLineView { code: self.code, last: self.last, text: self.text@ }
    }
}

impl ReplyLine {
    /// Reads a reply line: a reply code, then a space (or nothing) for the
    /// last line of a reply or a hyphen for a line that more lines follow,
    /// then free text.
    pub fn parse(line: Vec<u8>) -> (r: Result<ReplyLine, ParseError>)
        ensures
            match parse_reply_line(line@) {
                Ok(v) => r matches Ok(l) && l@ == v,
                Err(e) => r == Err::<ReplyLine, ParseError>(e),
            },
    {
        let n = line.len();
        if n < 3 {
            return Err(ParseError::InvalidReplyLine);
        }
        let ghost whole = line@;
        let mut head = line;
        let text = head.split_off(if n > 3 { 4 } else { 3 });
        let sep: Option<u8> = if n > 3 { Some(head[3]) } else { None };
        head.truncate(3);
        proof {
            assert(head@ =~= whole.take(3));
        }
        let code = match ReplyCode::parse(head.as_slice()) {
            Ok(code) => code,
            Err(e) => return Err(e),
        };
        let last = match sep {
            None => true,
            Some(b) => if b == SP {
                true
            } else if b == HYPHEN {
                false
            } else {
                return Err(ParseError::InvalidReplyLine);
            },
        };
        proof {
            if n > 3 {
                assert(text@ =~= whole.skip(4));
            } else {
                assert(text@ =~= seq![]);
            }
        }
        Ok(ReplyLine { code, last, text })
    }

    pub fn code(&self) -> (r: ReplyCode)
        ensures
            r == self@.code,
    {
        self.code
    }

    pub fn is_end_line(&self) -> (r: bool)
        ensures
            r == self@.last,
    {
        self.last
    }

    /// The free text after the code and the separator.
    pub fn text(&self) -> (r: &Vec<u8>)
        ensures
            r@ == self@.text,
    {
        &self.text
    }
}

/// The code of a reply made of `lines`: that of its first line. A reply
/// without lines, which the session never builds, reads as `500`.
pub open spec fn reply_code(lines: Seq<ReplyLineView>) -> ReplyCode {
    if lines.len() > 0 {
        lines[0].code
    } else {
        ReplyCode {
            x: ReplyType::PermanentNegativeCompletionReply,
            y: ReplyCategory::Syntax,
            z: ReplyGradation(0),
        }
    }
}

/// An SMTP reply: one or more reply lines.
#[derive(Debug)]
pub struct Reply {
    lines: Vec<ReplyLine>,
}

impl View for Reply {
    type V = Seq<ReplyLineView>;

    closed spec fn view(&self) -> Seq<ReplyLineView> {
        self.lines@.map_values(|l: ReplyLine| l@)
    }
}

impl Reply {
    /// A reply that starts with `line`.
    pub fn new(line: ReplyLine) -> (r: Reply)
        ensures
            r@ == seq![line@],
    {
        let r = Reply { lines: vec![line] };
        proof {
            assert(r@ =~= seq![line@]);
        }
        r
    }

    /// Adds `line` at the end of this reply.
    pub fn append(&mut self, line: ReplyLine)
        ensures
            final(self)@ == old(self)@.push(line@),
    {
        self.lines.push(line);
        proof {
            assert(self@ =~= old(self)@.push(line@));
        }
    }

    /// The code of the reply, which is that of its first line.
    pub fn code(&self) -> (r: ReplyCode)
        ensures
            r == reply_code(self@),
    {
        if self.lines.len() > 0 {
            self.lines[0].code()
        } else {
            ReplyCode {
                x: ReplyType::PermanentNegativeCompletionReply,
                y: ReplyCategory::Syntax,
                z: ReplyGradation(0),
            }
        }
    }
}

} // verus!
