//! Pluggable logging.
//!
//! Consumers can supply their own [`Logger`] implementation. If none is
//! provided a no-op logger is used (silent).

use vstd::prelude::*;

verus! {

/// Logger interface for the crate. Consumers can supply their own
/// implementation.
pub trait Logger {
    fn trace(&self, msg: &str);

    fn debug(&self, msg: &str);

    fn info(&self, msg: &str);

    fn warn(&self, msg: &str);

    fn error(&self, msg: &str);
}

/// Discards everything.
#[derive(Debug, Clone, Copy)]
pub struct NoopLogger;

impl Logger for NoopLogger {
    fn trace(&self, _msg: &str) {
    }

    fn debug(&self, _msg: &str) {
    }

    fn info(&self, _msg: &str) {
    }

    fn warn(&self, _msg: &str) {
    }

    fn error(&self, _msg: &str) {
    }
}

/// The logger used when a consumer supplies none.
pub fn noop_logger() -> (r: NoopLogger) {
    NoopLogger
}

} // verus!
