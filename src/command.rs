//! SMTP commands and the parser that reads them from command lines.

use crate::error::ParseError;
use crate::line::{find_bytes, occurs_at, SP};
use vstd::prelude::*;
use vstd::utf8::{decode_utf8, is_ascii_chars, is_ascii_chars_encode_utf8, valid_utf8};

verus! {

/// Relies on `String::from_utf8`: it succeeds exactly on valid UTF-8, and
/// the string then holds the decoded characters.
#[verifier::external_body]
fn string_from_utf8(bytes: Vec<u8>) -> (r: Option<String>)
    ensures
        r is Some == valid_utf8(bytes@),
        r matches Some(s) ==> s@ == decode_utf8(bytes@),
{
    String::from_utf8(bytes).ok()
}

/// The ASCII upper case of `c`; any other character is left as it is.
pub open spec fn upper_char(c: char) -> char {
    if 'a' <= c && c <= 'z' {
        ((c as u32) - 32) as char
    } else {
        c
    }
}

/// Relies on `str::to_ascii_uppercase`: ASCII letters `a` to `z` become `A`
/// to `Z`, every other character stays.
#[verifier::external_body]
fn ascii_uppercase(s: &str) -> (r: String)
    ensures
        r@ == s@.map_values(|c: char| upper_char(c)),
{
    s.to_ascii_uppercase()
}

/// The ASCII upper case of the byte `b`; any other byte is left as it is.
pub open spec fn upper_byte(b: u8) -> u8 {
    if 97 <= b && b <= 122 {
        (b - 32) as u8
    } else {
        b
    }
}

/// `s` with ASCII lower-case letters made upper case, other bytes unaltered.
pub open spec fn upper_bytes(s: Seq<u8>) -> Seq<u8> {
    s.map_values(|b: u8| upper_byte(b))
}

/// The index of the first space in `s`, if there is one.
pub open spec fn first_space(s: Seq<u8>) -> Option<nat>
    decreases s.len(),
{
    if s.len() == 0 {
        None
    } else if s[0] == SP {
        Some(0)
    } else {
        match first_space(s.drop_first()) {
            Some(n) => Some(n + 1),
            None => None,
        }
    }
}

/// A command line split into its verb and its arguments at the first space;
/// without a space the whole line is the verb and the arguments are empty.
pub open spec fn split_verb(line: Seq<u8>) -> (Seq<u8>, Seq<u8>) {
    match first_space(line) {
        Some(i) => (line.take(i as int), line.skip(i + 1int)),
        None => (line, seq![]),
    }
}

/// `first_space` finds the first space, and only a space.
pub proof fn lemma_first_space(s: Seq<u8>)
    ensures
        match first_space(s) {
            Some(n) => n < s.len() && s[n as int] == SP && forall|j: int| 0 <= j < n ==> s[j] != SP,
            None => forall|j: int| 0 <= j < s.len() ==> s[j] != SP,
        },
    decreases s.len(),
{
    if s.len() > 0 && s[0] != SP {
        lemma_first_space(s.drop_first());
        assert forall|j: int| 1 <= j < s.len() implies s[j] == s.drop_first()[j - 1] by {}
    }
}

pub open spec fn verb_helo() -> Seq<char> { seq!['H', 'E', 'L', 'O'] }
pub open spec fn verb_ehlo() -> Seq<char> { seq!['E', 'H', 'L', 'O'] }
pub open spec fn verb_mail() -> Seq<char> { seq!['M', 'A', 'I', 'L'] }
pub open spec fn verb_rcpt() -> Seq<char> { seq!['R', 'C', 'P', 'T'] }
pub open spec fn verb_data() -> Seq<char> { seq!['D', 'A', 'T', 'A'] }
pub open spec fn verb_rset() -> Seq<char> { seq!['R', 'S', 'E', 'T'] }
pub open spec fn verb_vrfy() -> Seq<char> { seq!['V', 'R', 'F', 'Y'] }
pub open spec fn verb_expn() -> Seq<char> { seq!['E', 'X', 'P', 'N'] }
pub open spec fn verb_help() -> Seq<char> { seq!['H', 'E', 'L', 'P'] }
pub open spec fn verb_noop() -> Seq<char> { seq!['N', 'O', 'O', 'P'] }
pub open spec fn verb_quit() -> Seq<char> { seq!['Q', 'U', 'I', 'T'] }
pub open spec fn verb_starttls() -> Seq<char> {
    seq!['S', 'T', 'A', 'R', 'T', 'T', 'L', 'S']
}

/// The bytes of an ASCII word.
pub open spec fn ascii_bytes(s: Seq<char>) -> Seq<u8> {
    s.map_values(|c: char| c as u8)
}


/// Compares `a` with the bytes of the ASCII word `w`.
fn matches_word(a: &[u8], w: &str) -> (r: bool)
    requires
        is_ascii_chars(w@),
    ensures
        r == (a@ == ascii_bytes(w@)),
{
    let wb = w.as_bytes();
    proof {
        is_ascii_chars_encode_utf8(w@);
        assert(wb@ =~= ascii_bytes(w@));
    }
    if a.len() != wb.len() {
        return false;
    }
    let mut i: usize = 0;
    while i < a.len()
        invariant
            0 <= i <= a.len(),
            a.len() == wb@.len(),
            wb@ == ascii_bytes(w@),
            forall|j: int| 0 <= j < i ==> a@[j] == wb@[j],
        decreases a.len() - i,
    {
        if a[i] != wb[i] {
            assert(a@[i as int] != wb@[i as int]);
            return false;
        }
        i += 1;
    }
    assert(a@ =~= wb@);
    true
}

/// Makes the ASCII letters of `bytes` upper case and leaves every other byte.
fn to_upper_bytes(bytes: &Vec<u8>) -> (r: Vec<u8>)
    ensures
        r@ == upper_bytes(bytes@),
{
    let mut r: Vec<u8> = Vec::new();
    let mut i: usize = 0;
    while i < bytes.len()
        invariant
            0 <= i <= bytes.len(),
            r@ =~= upper_bytes(bytes@.take(i as int)),
        decreases bytes.len() - i,
    {
        let b = bytes[i];
        let u = if 97 <= b && b <= 122 {
            b - 32
        } else {
            b
        };
        r.push(u);
        i += 1;
        assert(bytes@.take(i as int) =~= bytes@.take(i - 1).push(b));
    }
    assert(bytes@.take(i as int) =~= bytes@);
    r
}

/// `HELO`: the client identifies itself.
#[derive(Debug)]
pub struct Helo {
    domain: Vec<u8>,
}

/// `EHLO`: the client identifies itself and asks for extensions.
#[derive(Debug)]
pub struct Ehlo {
    domain: Vec<u8>,
}

/// `MAIL`: starts a mail transaction with the reverse path.
#[derive(Debug)]
pub struct Mail {
    from: Vec<u8>,
}

/// `RCPT`: names one recipient of the mail.
#[derive(Debug)]
pub struct Rcpt {
    to: Vec<u8>,
}

/// `DATA`: the client is about to send the mail body.
#[derive(Debug)]
pub struct Data;

/// `RSET`: aborts the current mail transaction.
#[derive(Debug)]
pub struct Rset;

/// `VRFY`: asks whether the argument names a user or a mailbox.
#[derive(Debug)]
pub struct Vrfy {
    user_or_mailbox: Vec<u8>,
}

/// `EXPN`: asks for the members of a mailing list.
#[derive(Debug)]
pub struct Expn {
    mailing_list: Vec<u8>,
}

/// `HELP`: asks for help, on a command if one is named.
#[derive(Debug)]
pub struct Help {
    command_name: Option<Vec<u8>>,
}

/// `NOOP`: does nothing but ask for a reply.
#[derive(Debug)]
pub struct Noop {
    comment: Option<Vec<u8>>,
}

/// `QUIT`: ends the session.
#[derive(Debug)]
pub struct Quit;

/// `STARTTLS`: switches the connection to TLS.
#[derive(Debug)]
pub struct StartTls;

/// A command with a verb outside the supported set.
#[derive(Debug)]
pub struct Unknown {
    verb: String,
    args: Vec<u8>,
}

/// `None` for empty arguments, else the arguments.
pub open spec fn optional_args(args: Seq<u8>) -> Option<Seq<u8>> {
    if args.len() == 0 {
        None
    } else {
        Some(args)
    }
}

fn optional_vec(args: Vec<u8>) -> (r: Option<Vec<u8>>)
    ensures
        match optional_args(args@) {
            Some(a) => r matches Some(v) && v@ == a,
            None => r is None,
        },
{
    if args.len() == 0 {
        None
    } else {
        Some(args)
    }
}

/// What a command holds; argument bytes are kept verbatim.
pub enum CommandView {
    Helo { domain: Seq<u8> },
    Ehlo { domain: Seq<u8> },
    Mail { from: Seq<u8> },
    Rcpt { to: Seq<u8> },
    Data,
    Rset,
    Vrfy { user_or_mailbox: Seq<u8> },
    Expn { mailing_list: Seq<u8> },
    Help { command_name: Option<Seq<u8>> },
    Noop { comment: Option<Seq<u8>> },
    Quit,
    StartTls,
    Unknown { verb: Seq<char>, args: Seq<u8> },
}

impl CommandView {
    /// The upper-case verb of the command.
    pub open spec fn verb(self) -> Seq<char> {
        match self {
            CommandView::Helo { .. } => verb_helo(),
            CommandView::Ehlo { .. } => verb_ehlo(),
            CommandView::Mail { .. } => verb_mail(),
            CommandView::Rcpt { .. } => verb_rcpt(),
            CommandView::Data => verb_data(),
            CommandView::Rset => verb_rset(),
            CommandView::Vrfy { .. } => verb_vrfy(),
            CommandView::Expn { .. } => verb_expn(),
            CommandView::Help { .. } => verb_help(),
            CommandView::Noop { .. } => verb_noop(),
            CommandView::Quit => verb_quit(),
            CommandView::StartTls => verb_starttls(),
            CommandView::Unknown { verb, .. } => verb,
        }
    }
}

/// The command that `line` (without its terminator) spells: the verb before
/// the first space is matched without regard to ASCII case against the
/// supported verbs, and any other verb gives `Unknown`. The one error is a
/// verb that is not valid UTF-8.
pub open spec fn parse_command(line: Seq<u8>) -> Result<CommandView, ParseError> {
    let (verb, args) = split_verb(line);
    let up = upper_bytes(verb);
    if !valid_utf8(verb) {
        Err(ParseError::InvalidVerbEncoding)
    } else if up == ascii_bytes(verb_helo()) {
        Ok(CommandView::Helo { domain: args })
    } else if up == ascii_bytes(verb_ehlo()) {
        Ok(CommandView::Ehlo { domain: args })
    } else if up == ascii_bytes(verb_mail()) {
        Ok(CommandView::Mail { from: args })
    } else if up == ascii_bytes(verb_rcpt()) {
        Ok(CommandView::Rcpt { to: args })
    } else if up == ascii_bytes(verb_data()) {
        Ok(CommandView::Data)
    } else if up == ascii_bytes(verb_rset()) {
        Ok(CommandView::Rset)
    } else if up == ascii_bytes(verb_vrfy()) {
        Ok(CommandView::Vrfy { user_or_mailbox: args })
    } else if up == ascii_bytes(verb_expn()) {
        Ok(CommandView::Expn { mailing_list: args })
    } else if up == ascii_bytes(verb_help()) {
        Ok(CommandView::Help { command_name: optional_args(args) })
    } else if up == ascii_bytes(verb_noop()) {
        Ok(CommandView::Noop { comment: optional_args(args) })
    } else if up == ascii_bytes(verb_quit()) {
        Ok(CommandView::Quit)
    } else if up == ascii_bytes(verb_starttls()) {
        Ok(CommandView::StartTls)
    } else {
        Ok(
            CommandView::Unknown {
                verb: decode_utf8(verb).map_values(|c: char| upper_char(c)),
                args,
            },
        )
    }
}

/// An SMTP command sent by the client.
#[derive(Debug)]
pub enum Command {
    Helo(Helo),
    Ehlo(Ehlo),
    Mail(Mail),
    Rcpt(Rcpt),
    Data(Data),
    Rset(Rset),
    Vrfy(Vrfy),
    Expn(Expn),
    Help(Help),
    Noop(Noop),
    Quit(Quit),
    StartTls(StartTls),
    Unknown(Unknown),
}

impl View for Command {
    type V = CommandView;

    closed spec fn view(&self) -> CommandView {
        match self {
            Command::Helo(c) => CommandView::Helo { domain: c.domain@ },
            Command::Ehlo(c) => CommandView::Ehlo { domain: c.domain@ },
            Command::Mail(c) => CommandView::Mail { from: c.from@ },
            Command::Rcpt(c) => CommandView::Rcpt { to: c.to@ },
            Command::Data(_) => CommandView::Data,
            Command::Rset(_) => CommandView::Rset,
            Command::Vrfy(c) => CommandView::Vrfy { user_or_mailbox: c.user_or_mailbox@ },
            Command::Expn(c) => CommandView::Expn { mailing_list: c.mailing_list@ },
            Command::Help(c) => CommandView::Help {
                command_name: match c.command_name {
                    Some(v) => Some(v@),
                    None => None,
                },
            },
            Command::Noop(c) => CommandView::Noop {
                comment: match c.comment {
                    Some(v) => Some(v@),
                    None => None,
                },
            },
            Command::Quit(_) => CommandView::Quit,
            Command::StartTls(_) => CommandView::StartTls,
            Command::Unknown(c) => CommandView::Unknown { verb: c.verb@, args: c.args@ },
        }
    }
}

impl Mail {
    /// The reverse path, as it was given.
    pub fn from(&self) -> (r: &Vec<u8>)
        ensures
            Command::Mail(*self)@ == (CommandView::Mail { from: r@ }),
    {
        &self.from
    }
}

impl Rcpt {
    /// The forward path, as it was given.
    pub fn to(&self) -> (r: &Vec<u8>)
        ensures
            Command::Rcpt(*self)@ == (CommandView::Rcpt { to: r@ }),
    {
        &self.to
    }
}

impl Unknown {
    /// The upper-case verb.
    pub fn verb(&self) -> (r: &str)
        ensures
            (Command::Unknown(*self)@).verb() == r@,
    {
        self.verb.as_str()
    }
}

impl Command {
    /// The upper-case verb of the command.
    pub fn verb(&self) -> (r: &str)
        ensures
            r@ == self@.verb(),
    {
        match self {
            Command::Helo(_) => {
                proof {
                    reveal_strlit("HELO");
                    assert("HELO"@ =~= verb_helo());
                }
                "HELO"
            },
            Command::Ehlo(_) => {
                proof {
                    reveal_strlit("EHLO");
                    assert("EHLO"@ =~= verb_ehlo());
                }
                "EHLO"
            },
            Command::Mail(_) => {
                proof {
                    reveal_strlit("MAIL");
                    assert("MAIL"@ =~= verb_mail());
                }
                "MAIL"
            },
            Command::Rcpt(_) => {
                proof {
                    reveal_strlit("RCPT");
                    assert("RCPT"@ =~= verb_rcpt());
                }
                "RCPT"
            },
            Command::Data(_) => {
                proof {
                    reveal_strlit("DATA");
                    assert("DATA"@ =~= verb_data());
                }
                "DATA"
            },
            Command::Rset(_) => {
                proof {
                    reveal_strlit("RSET");
                    assert("RSET"@ =~= verb_rset());
                }
                "RSET"
            },
            Command::Vrfy(_) => {
                proof {
                    reveal_strlit("VRFY");
                    assert("VRFY"@ =~= verb_vrfy());
                }
                "VRFY"
            },
            Command::Expn(_) => {
                proof {
                    reveal_strlit("EXPN");
                    assert("EXPN"@ =~= verb_expn());
                }
                "EXPN"
            },
            Command::Help(_) => {
                proof {
                    reveal_strlit("HELP");
                    assert("HELP"@ =~= verb_help());
                }
                "HELP"
            },
            Command::Noop(_) => {
                proof {
                    reveal_strlit("NOOP");
                    assert("NOOP"@ =~= verb_noop());
                }
                "NOOP"
            },
            Command::Quit(_) => {
                proof {
                    reveal_strlit("QUIT");
                    assert("QUIT"@ =~= verb_quit());
                }
                "QUIT"
            },
            Command::StartTls(_) => {
                proof {
                    reveal_strlit("STARTTLS");
                    assert("STARTTLS"@ =~= verb_starttls());
                }
                "STARTTLS"
            },
            Command::Unknown(u) => u.verb(),
        }
    }
}


impl Command {
    /// Reads a command from one line, given without its terminator.
    pub fn parse(line: Vec<u8>) -> (r: Result<Command, ParseError>)
        ensures
            match parse_command(line@) {
                Ok(v) => r matches Ok(c) && c@ == v,
                Err(e) => r == Err::<Command, ParseError>(e),
            },
    {
        let ghost whole = line@;
        let space: [u8; 1] = [SP];
        let found = find_bytes(line.as_slice(), space.as_slice());
        proof {
            lemma_first_space(whole);
            assert(space@ =~= seq![SP]);
        }
        let (verb, args) = match found {
            Some(i) => {
                proof {
                    assert(whole.subrange(i as int, i + 1) =~= seq![whole[i as int]]);
                    assert forall|j: int| 0 <= j < i implies whole[j] != SP by {
                        assert(!occurs_at(whole, space@, j));
                        assert(whole.subrange(j, j + 1) =~= seq![whole[j]]);
                    }
                }
                let mut verb = line;
                let mut rest = verb.split_off(i);
                let args = rest.split_off(1);
                (verb, args)
            },
            None => {
                proof {
                    assert forall|j: int| 0 <= j < whole.len() implies whole[j] != SP by {
                        assert(!occurs_at(whole, space@, j));
                        assert(whole.subrange(j, j + 1) =~= seq![whole[j]]);
                    }
                }
                (line, Vec::new())
            },
        };
        assert(verb@ =~= split_verb(whole).0 && args@ =~= split_verb(whole).1);
        let up = to_upper_bytes(&verb);
        let text = match string_from_utf8(verb) {
            Some(text) => text,
            None => return Err(ParseError::InvalidVerbEncoding),
        };
        proof {
            reveal_strlit("HELO");
            assert("HELO"@ =~= verb_helo());
        }
        if matches_word(up.as_slice(), "HELO") {
            return Ok(Command::Helo(Helo { domain: args }));
        }
        proof {
            reveal_strlit("EHLO");
            assert("EHLO"@ =~= verb_ehlo());
        }
        if matches_word(up.as_slice(), "EHLO") {
            return Ok(Command::Ehlo(Ehlo { domain: args }));
        }
        proof {
            reveal_strlit("MAIL");
            assert("MAIL"@ =~= verb_mail());
        }
        if matches_word(up.as_slice(), "MAIL") {
            return Ok(Command::Mail(Mail { from: args }));
        }
        proof {
            reveal_strlit("RCPT");
            assert("RCPT"@ =~= verb_rcpt());
        }
        if matches_word(up.as_slice(), "RCPT") {
            return Ok(Command::Rcpt(Rcpt { to: args }));
        }
        proof {
            reveal_strlit("DATA");
            assert("DATA"@ =~= verb_data());
        }
        if matches_word(up.as_slice(), "DATA") {
            return Ok(Command::Data(Data));
        }
        proof {
            reveal_strlit("RSET");
            assert("RSET"@ =~= verb_rset());
        }
        if matches_word(up.as_slice(), "RSET") {
            return Ok(Command::Rset(Rset));
        }
        proof {
            reveal_strlit("VRFY");
            assert("VRFY"@ =~= verb_vrfy());
        }
        if matches_word(up.as_slice(), "VRFY") {
            return Ok(Command::Vrfy(Vrfy { user_or_mailbox: args }));
        }
        proof {
            reveal_strlit("EXPN");
            assert("EXPN"@ =~= verb_expn());
        }
        if matches_word(up.as_slice(), "EXPN") {
            return Ok(Command::Expn(Expn { mailing_list: args }));
        }
        proof {
            reveal_strlit("HELP");
            assert("HELP"@ =~= verb_help());
        }
        if matches_word(up.as_slice(), "HELP") {
            return Ok(Command::Help(Help { command_name: optional_vec(args) }));
        }
        proof {
            reveal_strlit("NOOP");
            assert("NOOP"@ =~= verb_noop());
        }
        if matches_word(up.as_slice(), "NOOP") {
            return Ok(Command::Noop(Noop { comment: optional_vec(args) }));
        }
        proof {
            reveal_strlit("QUIT");
            assert("QUIT"@ =~= verb_quit());
        }
        if matches_word(up.as_slice(), "QUIT") {
            return Ok(Command::Quit(Quit));
        }
        proof {
            reveal_strlit("STARTTLS");
            assert("STARTTLS"@ =~= verb_starttls());
        }
        if matches_word(up.as_slice(), "STARTTLS") {
            return Ok(Command::StartTls(StartTls));
        }
        let verb = ascii_uppercase(text.as_str());
        Ok(Command::Unknown(Unknown { verb, args }))
    }
}


/// A command's view is of the command's own variant.
pub proof fn lemma_command_view(c: Command)
    ensures
        match c {
            Command::Helo(_) => c@ is Helo,
            Command::Ehlo(_) => c@ is Ehlo,
            Command::Mail(_) => c@ is Mail,
            Command::Rcpt(_) => c@ is Rcpt,
            Command::Data(_) => c@ is Data,
            Command::Rset(_) => c@ is Rset,
            Command::Vrfy(_) => c@ is Vrfy,
            Command::Expn(_) => c@ is Expn,
            Command::Help(_) => c@ is Help,
            Command::Noop(_) => c@ is Noop,
            Command::Quit(_) => c@ is Quit,
            Command::StartTls(_) => c@ is StartTls,
            Command::Unknown(_) => c@ is Unknown,
        },
{
}
} // verus!
