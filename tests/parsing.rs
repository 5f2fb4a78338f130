use envoy_smtp_filter::{
    next_line, Command, ParseError, ReplyCategory, ReplyCode, ReplyGradation, ReplyLine,
    ReplyType, SmtpFilterConfig,
};

#[test]
fn next_line_takes_first_line() {
    let mut buffer = b"HELO a\r\nMAIL b\r\nrest".to_vec();
    assert_eq!(next_line(&mut buffer), Some(b"HELO a".to_vec()));
    assert_eq!(buffer, b"MAIL b\r\nrest".to_vec());
    assert_eq!(next_line(&mut buffer), Some(b"MAIL b".to_vec()));
    assert_eq!(buffer, b"rest".to_vec());
    assert_eq!(next_line(&mut buffer), None);
    assert_eq!(buffer, b"rest".to_vec());
}

#[test]
fn next_line_needs_cr_lf() {
    let mut buffer = b"NOOP\nQUIT\r".to_vec();
    assert_eq!(next_line(&mut buffer), None);
    assert_eq!(buffer, b"NOOP\nQUIT\r".to_vec());
    buffer.push(b'\n');
    assert_eq!(next_line(&mut buffer), Some(b"NOOP\nQUIT".to_vec()));
    assert!(buffer.is_empty());
    let mut empty_line = b"\r\n".to_vec();
    assert_eq!(next_line(&mut empty_line), Some(Vec::new()));
    assert!(empty_line.is_empty());
}

#[test]
fn reply_line_last_and_continued() {
    let line = ReplyLine::parse(b"250 OK".to_vec()).unwrap();
    assert!(line.is_end_line());
    assert_eq!(line.text(), &b"OK".to_vec());
    assert_eq!(line.code().to_bytes(), b"250".to_vec());
    let line = ReplyLine::parse(b"354-go ahead".to_vec()).unwrap();
    assert!(!line.is_end_line());
    assert_eq!(line.text(), &b"go ahead".to_vec());
    let line = ReplyLine::parse(b"221".to_vec()).unwrap();
    assert!(line.is_end_line());
    assert!(line.text().is_empty());
}

#[test]
fn reply_code_fields() {
    let code = ReplyLine::parse(b"452 full".to_vec()).unwrap().code();
    assert_eq!(code.x, ReplyType::TransientNegativeCompletionReply);
    assert_eq!(code.y, ReplyCategory::MailSystem);
    assert_eq!(code.z, ReplyGradation(2));
    assert_eq!(code.response_type(), ReplyType::TransientNegativeCompletionReply);
    assert!(!code.response_type().is_positive());
    assert_eq!(
        ReplyCode::parse(b"354").unwrap().response_type(),
        ReplyType::PositiveIntermediateReply
    );
}

#[test]
fn reply_type_positivity() {
    assert!(ReplyType::PositiveCompletionReply.is_positive());
    assert!(ReplyType::PositiveIntermediateReply.is_positive());
    assert!(!ReplyType::TransientNegativeCompletionReply.is_positive());
    assert!(!ReplyType::PermanentNegativeCompletionReply.is_positive());
    assert_eq!(ReplyType::parse(b'5'), Ok(ReplyType::PermanentNegativeCompletionReply));
    assert_eq!(ReplyType::PositiveIntermediateReply.digit(), b'3');
    assert_eq!(ReplyCategory::parse(b'1'), Ok(ReplyCategory::Information));
    assert_eq!(ReplyCategory::X4Z.digit(), b'4');
    assert_eq!(ReplyGradation::parse(b'9'), Ok(ReplyGradation(9)));
    assert_eq!(ReplyGradation(7).digit(), b'7');
}

#[test]
fn reply_line_errors() {
    assert_eq!(ReplyLine::parse(b"25".to_vec()).unwrap_err(), ParseError::InvalidReplyLine);
    assert_eq!(ReplyLine::parse(Vec::new()).unwrap_err(), ParseError::InvalidReplyLine);
    assert_eq!(
        ReplyLine::parse(b"650 x".to_vec()).unwrap_err(),
        ParseError::InvalidReplyType(b'6')
    );
    assert_eq!(
        ReplyLine::parse(b"160 x".to_vec()).unwrap_err(),
        ParseError::InvalidReplyType(b'1')
    );
    assert_eq!(
        ReplyLine::parse(b"260 x".to_vec()).unwrap_err(),
        ParseError::InvalidReplyCategory(b'6')
    );
    assert_eq!(
        ReplyLine::parse(b"25x x".to_vec()).unwrap_err(),
        ParseError::InvalidReplyGradation(b'x')
    );
    assert_eq!(
        ReplyLine::parse(b"250+x".to_vec()).unwrap_err(),
        ParseError::InvalidReplyLine
    );
    assert_eq!(ReplyCode::parse(b"2500").unwrap_err(), ParseError::InvalidReplyCode);
}

#[test]
fn command_verbs_ignore_ascii_case() {
    match Command::parse(b"mail FROM:<a@b> SIZE=10".to_vec()).unwrap() {
        Command::Mail(mail) => assert_eq!(mail.from(), &b"FROM:<a@b> SIZE=10".to_vec()),
        other => panic!("expected MAIL, got {:?}", other),
    }
    match Command::parse(b"RcPt TO:<c@d>".to_vec()).unwrap() {
        Command::Rcpt(rcpt) => assert_eq!(rcpt.to(), &b"TO:<c@d>".to_vec()),
        other => panic!("expected RCPT, got {:?}", other),
    }
    assert_eq!(Command::parse(b"starttls".to_vec()).unwrap().verb(), "STARTTLS");
    assert_eq!(Command::parse(b"DATA".to_vec()).unwrap().verb(), "DATA");
    assert_eq!(Command::parse(b"quit".to_vec()).unwrap().verb(), "QUIT");
    assert_eq!(Command::parse(b"Rset".to_vec()).unwrap().verb(), "RSET");
    assert_eq!(Command::parse(b"vrfy bob".to_vec()).unwrap().verb(), "VRFY");
    assert_eq!(Command::parse(b"expn list".to_vec()).unwrap().verb(), "EXPN");
    assert_eq!(Command::parse(b"helo x".to_vec()).unwrap().verb(), "HELO");
    assert_eq!(Command::parse(b"ehlo x".to_vec()).unwrap().verb(), "EHLO");
}

#[test]
fn help_and_noop_arguments_are_optional() {
    let help = Command::parse(b"HELP".to_vec()).unwrap();
    assert_eq!(help.verb(), "HELP");
    assert!(format!("{:?}", help).contains("None"));
    let help = Command::parse(b"HELP MAIL".to_vec()).unwrap();
    assert!(format!("{:?}", help).contains("Some"));
    let noop = Command::parse(b"NOOP".to_vec()).unwrap();
    assert_eq!(noop.verb(), "NOOP");
    assert!(format!("{:?}", noop).contains("None"));
    let noop = Command::parse(b"NOOP hello".to_vec()).unwrap();
    assert!(format!("{:?}", noop).contains("Some"));
}

#[test]
fn unknown_verb_is_upper_cased() {
    match Command::parse(b"xclient addr=1.2.3.4".to_vec()).unwrap() {
        Command::Unknown(unknown) => assert_eq!(unknown.verb(), "XCLIENT"),
        other => panic!("expected an unknown command, got {:?}", other),
    }
    let unknown = Command::parse("caf\u{e9}".as_bytes().to_vec()).unwrap();
    assert_eq!(unknown.verb(), "CAF\u{e9}");
    let empty = Command::parse(Vec::new()).unwrap();
    assert_eq!(empty.verb(), "");
}

#[test]
fn invalid_verb_encoding_is_an_error() {
    assert_eq!(
        Command::parse(vec![0xc3, 0x28, b' ', b'x']).unwrap_err(),
        ParseError::InvalidVerbEncoding
    );
    assert_eq!(
        Command::parse(vec![b'M', b'A', b'I', b'L', 0xff]).unwrap_err(),
        ParseError::InvalidVerbEncoding
    );
    match Command::parse(vec![b'M', b'A', b'I', b'L', b' ', 0xff]).unwrap() {
        Command::Mail(mail) => assert_eq!(mail.from(), &vec![0xff]),
        other => panic!("expected MAIL, got {:?}", other),
    }
}

#[test]
fn config_defaults_to_plain_stats() {
    assert!(!SmtpFilterConfig::default().detailed_stats);
}
