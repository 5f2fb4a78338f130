//! Observes a bidirectional SMTP byte stream and reconstructs commands,
//! replies and mail transactions from it.

pub mod command;
pub mod config;
pub mod error;
pub mod laws;
pub mod line;
pub mod model;
pub mod reply;
pub mod session;
pub mod stats;

pub use command::{
    Command, Data, Ehlo, Expn, Helo, Help, Mail, Noop, Quit, Rcpt, Rset, StartTls, Unknown, Vrfy,
};
pub use config::SmtpFilterConfig;
pub use error::ParseError;
pub use line::next_line;
pub use reply::{Reply, ReplyCategory, ReplyCode, ReplyGradation, ReplyLine, ReplyType};
pub use session::{Mode, PendingReply, Session, Transaction};
pub use stats::StatsSink;
