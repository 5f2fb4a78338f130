//! The sink that a session reports its events to.

use crate::reply::ReplyCode;
use envoy_sdk::extension::Error;
use std::rc::Rc;
use vstd::prelude::*;

verus! {

/// The error that a sink reports; envoy's extension error.
#[verifier::external_type_specification]
#[verifier::external_body]
pub struct ExError(envoy_sdk::extension::Error);

/// Receives one call for each event of a session. A call that fails makes
/// the session operation that made it fail with the same error. Every
/// method does nothing by default.
pub trait StatsSink {
    fn on_smtp_connect(&self) -> Result<(), Error> {
        Ok(())
    }

    fn on_smtp_connect_reply(&self, code: ReplyCode) -> Result<(), Error> {
        Ok(())
    }

    fn on_smtp_command(&self, verb: &str) -> Result<(), Error> {
        Ok(())
    }

    fn on_smtp_command_reply(&self, verb: &str, code: ReplyCode) -> Result<(), Error> {
        Ok(())
    }

    fn on_smtp_transaction_commit(&self) -> Result<(), Error> {
        Ok(())
    }

    fn on_smtp_transaction_commit_reply(&self, code: ReplyCode) -> Result<(), Error> {
        Ok(())
    }

    fn on_smtp_parse_error(&self) -> Result<(), Error> {
        Ok(())
    }
}

impl<T: StatsSink> StatsSink for Rc<T> {
    fn on_smtp_connect(&self) -> Result<(), Error> {
        (**self).on_smtp_connect()
    }

    fn on_smtp_connect_reply(&self, code: ReplyCode) -> Result<(), Error> {
        (**self).on_smtp_connect_reply(code)
    }

    fn on_smtp_command(&self, verb: &str) -> Result<(), Error> {
        (**self).on_smtp_command(verb)
    }

    fn on_smtp_command_reply(&self, verb: &str, code: ReplyCode) -> Result<(), Error> {
        (**self).on_smtp_command_reply(verb, code)
    }

    fn on_smtp_transaction_commit(&self) -> Result<(), Error> {
        (**self).on_smtp_transaction_commit()
    }

    fn on_smtp_transaction_commit_reply(&self, code: ReplyCode) -> Result<(), Error> {
        (**self).on_smtp_transaction_commit_reply(code)
    }

    fn on_smtp_parse_error(&self) -> Result<(), Error> {
        (**self).on_smtp_parse_error()
    }
}

} // verus!
