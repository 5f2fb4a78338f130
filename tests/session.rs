use std::cell::RefCell;
use std::rc::Rc;

use envoy_sdk::extension::Error;
use envoy_smtp_filter::{Command, Mode, PendingReply, ReplyCode, Session, StatsSink};

#[derive(Default)]
struct Recorder {
    events: RefCell<Vec<String>>,
    fail_on: Option<&'static str>,
}

impl Recorder {
    fn failing_on(prefix: &'static str) -> Recorder {
        Recorder {
            events: RefCell::new(Vec::new()),
            fail_on: Some(prefix),
        }
    }

    fn record(&self, event: String) -> Result<(), Error> {
        if let Some(prefix) = self.fail_on {
            if event.starts_with(prefix) {
                return Err(Error::msg(event));
            }
        }
        self.events.borrow_mut().push(event);
        Ok(())
    }

    fn events(&self) -> Vec<String> {
        self.events.borrow().clone()
    }
}

fn code_text(code: ReplyCode) -> String {
    String::from_utf8(code.to_bytes()).unwrap()
}

impl StatsSink for Recorder {
    fn on_smtp_connect(&self) -> Result<(), Error> {
        self.record("connect".to_string())
    }

    fn on_smtp_connect_reply(&self, code: ReplyCode) -> Result<(), Error> {
        self.record(format!("connect_reply {}", code_text(code)))
    }

    fn on_smtp_command(&self, verb: &str) -> Result<(), Error> {
        self.record(format!("command {}", verb))
    }

    fn on_smtp_command_reply(&self, verb: &str, code: ReplyCode) -> Result<(), Error> {
        self.record(format!("command_reply {} {}", verb, code_text(code)))
    }

    fn on_smtp_transaction_commit(&self) -> Result<(), Error> {
        self.record("commit".to_string())
    }

    fn on_smtp_transaction_commit_reply(&self, code: ReplyCode) -> Result<(), Error> {
        self.record(format!("commit_reply {}", code_text(code)))
    }

    fn on_smtp_parse_error(&self) -> Result<(), Error> {
        self.record("parse_error".to_string())
    }
}

fn new_session() -> (Rc<Recorder>, Session<Rc<Recorder>>) {
    let sink = Rc::new(Recorder::default());
    let session = Session::new(Rc::clone(&sink));
    (sink, session)
}

fn greeted_session() -> (Rc<Recorder>, Session<Rc<Recorder>>) {
    let (sink, mut session) = new_session();
    session.on_new_conection().unwrap();
    session.on_upstream_data(b"220 ok\r\n".to_vec()).unwrap();
    assert_eq!(session.mode(), Mode::Command);
    sink.events.borrow_mut().clear();
    (sink, session)
}

fn pending_verbs(session: &Session<Rc<Recorder>>) -> Vec<String> {
    session
        .pending_replies()
        .iter()
        .map(|p| match p {
            PendingReply::Connect => "connect".to_string(),
            PendingReply::Command(c) => c.verb().to_string(),
            PendingReply::Commit(_) => "commit".to_string(),
        })
        .collect()
}

#[test]
fn new_session_waits_for_greeting() {
    let (sink, session) = new_session();
    assert_eq!(session.mode(), Mode::Connect);
    assert_eq!(session.pending_len(), 0);
    assert!(session.transaction().is_none());
    assert!(sink.events().is_empty());
    assert_eq!(Mode::default(), Mode::Connect);
}

#[test]
fn greeting_moves_to_command_mode() {
    let (sink, mut session) = new_session();
    session.on_new_conection().unwrap();
    assert_eq!(pending_verbs(&session), vec!["connect"]);
    session.on_upstream_data(b"220 ok\r\n".to_vec()).unwrap();
    assert_eq!(session.mode(), Mode::Command);
    assert_eq!(sink.events(), vec!["connect", "connect_reply 220"]);
    assert_eq!(session.pending_len(), 0);
}

#[test]
fn negative_greeting_keeps_waiting() {
    let (sink, mut session) = new_session();
    session.on_new_conection().unwrap();
    session.on_upstream_data(b"554 no service\r\n".to_vec()).unwrap();
    assert_eq!(session.mode(), Mode::Connect);
    assert_eq!(sink.events(), vec!["connect", "connect_reply 554"]);
}

#[test]
fn accepted_mail_creates_transaction() {
    let (sink, mut session) = new_session();
    session.on_downstream_data(b"MAIL FROM:<a@b>\r\n".to_vec()).unwrap();
    assert_eq!(pending_verbs(&session), vec!["MAIL"]);
    session.on_upstream_data(b"250 OK\r\n".to_vec()).unwrap();
    let tx = session.transaction().unwrap();
    assert_eq!(tx.from(), &b"FROM:<a@b>".to_vec());
    assert!(tx.to().is_empty());
    assert_eq!(sink.events(), vec!["command MAIL", "command_reply MAIL 250"]);
}

#[test]
fn rejected_mail_creates_no_transaction() {
    let (_sink, mut session) = greeted_session();
    session.on_downstream_data(b"MAIL FROM:<a@b>\r\n".to_vec()).unwrap();
    session.on_upstream_data(b"550 no\r\n".to_vec()).unwrap();
    assert!(session.transaction().is_none());
    assert_eq!(session.mode(), Mode::Command);
}

#[test]
fn data_body_is_committed() {
    let (sink, mut session) = greeted_session();
    session.on_downstream_data(b"RCPT TO:<c@d>\r\n".to_vec()).unwrap();
    session.on_upstream_data(b"250 OK\r\n".to_vec()).unwrap();
    session.on_downstream_data(b"DATA\r\n".to_vec()).unwrap();
    session.on_upstream_data(b"354 go\r\n".to_vec()).unwrap();
    assert_eq!(session.mode(), Mode::Data);
    session.on_downstream_data(b"Hi\r\n.\r\n".to_vec()).unwrap();
    assert_eq!(session.mode(), Mode::Command);
    assert!(session.transaction().is_none());
    assert_eq!(
        sink.events(),
        vec![
            "command RCPT",
            "command_reply RCPT 250",
            "command DATA",
            "command_reply DATA 354",
            "commit",
        ]
    );
    match session.pending_replies().front() {
        Some(PendingReply::Commit(tx)) => {
            assert_eq!(tx.to(), &vec![b"TO:<c@d>".to_vec()]);
            assert_eq!(tx.body(), &b"Hi\r\n.\r\n".to_vec());
            assert!(tx.from().is_empty());
        }
        other => panic!("expected a pending commit, got {:?}", other),
    }
    session.on_upstream_data(b"250 queued\r\n".to_vec()).unwrap();
    assert_eq!(sink.events().last().unwrap(), "commit_reply 250");
    assert_eq!(session.pending_len(), 0);
}

#[test]
fn lone_dot_first_line_is_body() {
    let (sink, mut session) = greeted_session();
    session.on_downstream_data(b"DATA\r\n".to_vec()).unwrap();
    session.on_upstream_data(b"354 go\r\n".to_vec()).unwrap();
    session.on_downstream_data(b".\r\n".to_vec()).unwrap();
    assert_eq!(session.mode(), Mode::Data);
    session.on_downstream_data(b".\r\nNOOP\r\n".to_vec()).unwrap();
    assert_eq!(session.mode(), Mode::Command);
    assert_eq!(pending_verbs(&session), vec!["commit", "NOOP"]);
    match session.pending_replies().front() {
        Some(PendingReply::Commit(tx)) => assert_eq!(tx.body(), &b".\r\n.\r\n".to_vec()),
        other => panic!("expected a pending commit, got {:?}", other),
    }
    assert_eq!(
        sink.events(),
        vec!["command DATA", "command_reply DATA 354", "commit", "command NOOP"]
    );
}

#[test]
fn rejected_data_stays_in_command_mode() {
    let (_sink, mut session) = greeted_session();
    session.on_downstream_data(b"DATA\r\n".to_vec()).unwrap();
    session.on_upstream_data(b"554 no valid recipients\r\n".to_vec()).unwrap();
    assert_eq!(session.mode(), Mode::Command);
    assert!(session.transaction().is_none());
}

#[test]
fn starttls_switches_to_pass_through() {
    let (sink, mut session) = greeted_session();
    session.on_downstream_data(b"STARTTLS\r\n".to_vec()).unwrap();
    session.on_upstream_data(b"220 go\r\n".to_vec()).unwrap();
    assert_eq!(session.mode(), Mode::PassThrough);
    let before = sink.events();
    session.on_downstream_data(b"\x16\x03\x01 binary\r\n".to_vec()).unwrap();
    session.on_upstream_data(b"not a reply\r\n".to_vec()).unwrap();
    session.on_downstream_data(b"MAIL FROM:<x@y>\r\n".to_vec()).unwrap();
    assert_eq!(session.mode(), Mode::PassThrough);
    assert_eq!(sink.events(), before);
    assert_eq!(session.pending_len(), 0);
}

#[test]
fn multi_line_reply_is_one_reply() {
    let (sink, mut session) = new_session();
    session.on_new_conection().unwrap();
    session.on_upstream_data(b"250-line one\r\n".to_vec()).unwrap();
    assert_eq!(sink.events(), vec!["connect"]);
    assert_eq!(session.mode(), Mode::Connect);
    session.on_upstream_data(b"250 line two\r\n".to_vec()).unwrap();
    assert_eq!(sink.events(), vec!["connect", "connect_reply 250"]);
    assert_eq!(session.mode(), Mode::Command);

    let (sink, mut session) = new_session();
    session.on_new_conection().unwrap();
    session
        .on_upstream_data(b"250-line one\r\n250 line two\r\n".to_vec())
        .unwrap();
    assert_eq!(sink.events(), vec!["connect", "connect_reply 250"]);
}

#[test]
fn multi_line_reply_code_comes_from_first_line() {
    let (sink, mut session) = new_session();
    session.on_new_conection().unwrap();
    session
        .on_upstream_data(b"220-first\r\n554 second\r\n".to_vec())
        .unwrap();
    assert_eq!(sink.events(), vec!["connect", "connect_reply 220"]);
    assert_eq!(session.mode(), Mode::Command);
}

#[test]
fn invalid_verb_encoding_falls_back() {
    let (sink, mut session) = greeted_session();
    session
        .on_downstream_data(vec![0xff, 0xfe, b' ', b'x', b'\r', b'\n'])
        .unwrap();
    assert_eq!(session.mode(), Mode::PassThrough);
    assert_eq!(sink.events(), vec!["parse_error"]);
    assert_eq!(session.pending_len(), 0);
}

#[test]
fn command_line_split_anywhere_gives_same_command() {
    let line = b"MAIL FROM:<a@b>\r\n";
    for k in 0..=line.len() {
        for mode_greeted in [false, true] {
            let (sink, mut session) = if mode_greeted {
                greeted_session()
            } else {
                new_session()
            };
            session.on_downstream_data(line[..k].to_vec()).unwrap();
            session.on_downstream_data(line[k..].to_vec()).unwrap();
            assert_eq!(pending_verbs(&session), vec!["MAIL"], "split at {}", k);
            assert_eq!(sink.events(), vec!["command MAIL"], "split at {}", k);
            match session.pending_replies().front() {
                Some(PendingReply::Command(Command::Mail(mail))) => {
                    assert_eq!(mail.from(), &b"FROM:<a@b>".to_vec())
                }
                other => panic!("expected a pending MAIL, got {:?}", other),
            }
        }
    }
}

#[test]
fn pass_through_ignores_everything() {
    let (sink, mut session) = greeted_session();
    session.on_upstream_data(b"999 bad\r\n".to_vec()).unwrap();
    assert_eq!(session.mode(), Mode::PassThrough);
    assert_eq!(sink.events(), vec!["parse_error"]);
    session.on_downstream_data(b"MAIL FROM:<a@b>\r\n".to_vec()).unwrap();
    session.on_upstream_data(b"250 OK\r\n".to_vec()).unwrap();
    session.on_downstream_data(vec![0xff, b'\r', b'\n']).unwrap();
    session.on_upstream_data(b"x\r\n".to_vec()).unwrap();
    assert_eq!(session.mode(), Mode::PassThrough);
    assert_eq!(sink.events(), vec!["parse_error"]);
    assert_eq!(session.pending_len(), 0);
    assert!(session.transaction().is_none());
}

#[test]
fn replies_match_commands_in_order_whatever_the_chunks() {
    let replies = b"250 sender ok\r\n251-will forward\r\n251 really\r\n550 no such user\r\n";
    for k in 0..=replies.len() {
        let (sink, mut session) = greeted_session();
        session
            .on_downstream_data(b"MAIL FROM:<a@b>\r\nRCPT TO:<c@d>\r\nRCPT TO:<e@f>\r\n".to_vec())
            .unwrap();
        assert_eq!(pending_verbs(&session), vec!["MAIL", "RCPT", "RCPT"]);
        session.on_upstream_data(replies[..k].to_vec()).unwrap();
        session.on_upstream_data(replies[k..].to_vec()).unwrap();
        assert_eq!(
            sink.events(),
            vec![
                "command MAIL",
                "command RCPT",
                "command RCPT",
                "command_reply MAIL 250",
                "command_reply RCPT 251",
                "command_reply RCPT 550",
            ],
            "split at {}",
            k
        );
        let tx = session.transaction().unwrap();
        assert_eq!(tx.from(), &b"FROM:<a@b>".to_vec());
        assert_eq!(tx.to(), &vec![b"TO:<c@d>".to_vec()]);
        assert_eq!(session.pending_len(), 0);
    }
}

#[test]
fn one_line_reply_before_anything_is_an_error() {
    let (sink, mut session) = new_session();
    session.on_upstream_data(b"250 OK\r\n".to_vec()).unwrap();
    assert_eq!(session.mode(), Mode::PassThrough);
    assert_eq!(sink.events(), vec!["parse_error"]);
}

#[test]
fn three_line_reply_before_anything_is_an_error() {
    let (sink, mut session) = new_session();
    session.on_upstream_data(b"250-a\r\n250-b\r\n".to_vec()).unwrap();
    assert_eq!(session.mode(), Mode::Connect);
    assert!(sink.events().is_empty());
    session.on_upstream_data(b"250 c\r\n".to_vec()).unwrap();
    assert_eq!(session.mode(), Mode::PassThrough);
    assert_eq!(sink.events(), vec!["parse_error"]);
}

#[test]
fn helo_and_rset_clear_the_transaction() {
    let (_sink, mut session) = greeted_session();
    session.on_downstream_data(b"MAIL FROM:<a@b>\r\n".to_vec()).unwrap();
    session.on_upstream_data(b"250 OK\r\n".to_vec()).unwrap();
    assert!(session.transaction().is_some());
    session.on_downstream_data(b"RSET\r\n".to_vec()).unwrap();
    session.on_upstream_data(b"250 OK\r\n".to_vec()).unwrap();
    assert!(session.transaction().is_none());

    session.on_downstream_data(b"RCPT TO:<c@d>\r\n".to_vec()).unwrap();
    session.on_upstream_data(b"250 OK\r\n".to_vec()).unwrap();
    assert!(session.transaction().is_some());
    session.on_downstream_data(b"ehlo client\r\n".to_vec()).unwrap();
    session.on_upstream_data(b"250-hi\r\n250 SIZE\r\n".to_vec()).unwrap();
    assert!(session.transaction().is_none());

    session.on_downstream_data(b"MAIL FROM:<a@b>\r\n".to_vec()).unwrap();
    session.on_upstream_data(b"250 OK\r\n".to_vec()).unwrap();
    session.on_downstream_data(b"HELO client\r\n".to_vec()).unwrap();
    session.on_upstream_data(b"501 bad\r\n".to_vec()).unwrap();
    assert!(session.transaction().is_some());
    session.on_downstream_data(b"HELO client\r\n".to_vec()).unwrap();
    session.on_upstream_data(b"250 hi\r\n".to_vec()).unwrap();
    assert!(session.transaction().is_none());
}

#[test]
fn accepted_unknown_command_switches_to_pass_through() {
    let (sink, mut session) = greeted_session();
    session.on_downstream_data(b"XFOO bar\r\n".to_vec()).unwrap();
    session.on_upstream_data(b"500 unknown\r\n".to_vec()).unwrap();
    assert_eq!(session.mode(), Mode::Command);
    session.on_downstream_data(b"xfoo bar\r\n".to_vec()).unwrap();
    session.on_upstream_data(b"250 fine\r\n".to_vec()).unwrap();
    assert_eq!(session.mode(), Mode::PassThrough);
    assert_eq!(
        sink.events(),
        vec![
            "command XFOO",
            "command_reply XFOO 500",
            "command XFOO",
            "command_reply XFOO 250",
        ]
    );
}

#[test]
fn informational_commands_change_nothing() {
    let (sink, mut session) = greeted_session();
    session.on_downstream_data(b"MAIL FROM:<a@b>\r\n".to_vec()).unwrap();
    session.on_upstream_data(b"250 OK\r\n".to_vec()).unwrap();
    session
        .on_downstream_data(b"VRFY bob\r\nEXPN list\r\nHELP\r\nNOOP\r\nQUIT\r\n".to_vec())
        .unwrap();
    session
        .on_upstream_data(b"252 ok\r\n250 ok\r\n214 help\r\n250 ok\r\n221 bye\r\n".to_vec())
        .unwrap();
    assert_eq!(session.mode(), Mode::Command);
    assert_eq!(session.transaction().unwrap().from(), &b"FROM:<a@b>".to_vec());
    assert_eq!(sink.events().len(), 12);
}

#[test]
fn failing_sink_stops_reading() {
    let sink = Rc::new(Recorder::failing_on("command_reply"));
    let mut session = Session::new(Rc::clone(&sink));
    session.on_new_conection().unwrap();
    session.on_upstream_data(b"220 ok\r\n".to_vec()).unwrap();
    session.on_downstream_data(b"NOOP\r\nNOOP\r\n".to_vec()).unwrap();
    assert_eq!(session.pending_len(), 2);
    assert!(session.on_upstream_data(b"250 a\r\n250 b\r\n".to_vec()).is_err());
    assert_eq!(session.mode(), Mode::Command);
    assert_eq!(session.pending_len(), 1);
}

#[test]
fn failing_sink_on_connect_enqueues_nothing() {
    let sink = Rc::new(Recorder::failing_on("connect"));
    let mut session = Session::new(Rc::clone(&sink));
    assert!(session.on_new_conection().is_err());
    assert_eq!(session.pending_len(), 0);
}

#[test]
fn failing_sink_on_parse_error_still_falls_back() {
    let sink = Rc::new(Recorder::failing_on("parse_error"));
    let mut session = Session::new(Rc::clone(&sink));
    assert!(session.on_upstream_data(b"250 OK\r\n".to_vec()).is_err());
    assert_eq!(session.mode(), Mode::PassThrough);
    session.on_downstream_data(b"MAIL FROM:<a@b>\r\n".to_vec()).unwrap();
    session.on_upstream_data(b"250 OK\r\n".to_vec()).unwrap();
    assert_eq!(session.pending_len(), 0);
    assert!(sink.events().is_empty());

    let sink = Rc::new(Recorder::failing_on("parse_error"));
    let mut session = Session::new(Rc::clone(&sink));
    assert!(session
        .on_downstream_data(vec![0xff, b'\r', b'\n', b'N', b'O', b'O', b'P', b'\r', b'\n'])
        .is_err());
    assert_eq!(session.mode(), Mode::PassThrough);
    assert_eq!(session.pending_len(), 0);
}
