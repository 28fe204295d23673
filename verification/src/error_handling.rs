//! Helpers for unwrapping values while keeping a community's log
//! informed: the strict form demands the value is there, the lenient
//! form notes the failure — the caller's message, joined with the
//! error's own text when there is one — and falls back to a default.

use vstd::prelude::*;
use vstd::string::*;

use crate::log::{log_insert, LogData, LogRecordModel};

verus! {

/// Unwrap helpers tied to a log buffer.
pub trait BetterHandle<T>: Sized {
    /// Whether a value is there to unwrap.
    spec fn spec_ok(&self) -> bool;

    /// The value, when there is one.
    spec fn spec_val(&self) -> T;

    /// The line recorded when the value is missing: the caller's
    /// message, with the error's own text appended when there is one.
    spec fn spec_note(&self, msg: Seq<char>) -> Seq<char>;

    /// Unwrap the value.  The caller must know it is there.
    fn dexpect(self, msg: &str, log: &mut LogData) -> (r: T)
        requires
            self.spec_ok(),
        ensures
            r == self.spec_val(),
            final(log)@ == old(log)@,
    ;

    /// Unwrap the value, or note the failure in the log at `now` and
    /// fall back to `default`.
    fn dexpect_or_default(self, msg: &str, log: &mut LogData, default: T, now: u64) -> (r: T)
        ensures
            self.spec_ok() ==> r == self.spec_val() && final(log)@ == old(log)@,
            !self.spec_ok() ==> r == default && final(log)@ == log_insert(
                old(log)@,
                LogRecordModel { at: now, text: self.spec_note(msg@) },
            ),
    ;
}

impl<T> BetterHandle<T> for Option<T> {
    open spec fn spec_ok(&self) -> bool {
        self is Some
    }

    open spec fn spec_val(&self) -> T {
        self->0
    }

    open spec fn spec_note(&self, msg: Seq<char>) -> Seq<char> {
        msg
    }

    fn dexpect(self, msg: &str, log: &mut LogData) -> (r: T) {
        match self {
            Some(val) => val,
            None => vstd::pervasive::unreached(),
        }
    }

    fn dexpect_or_default(self, msg: &str, log: &mut LogData, default: T, now: u64) -> (r: T) {
        match self {
            Some(val) => val,
            None => {
                log.log(now, msg);
                default
            },
        }
    }
}

impl<T> BetterHandle<T> for Result<T, String> {
    open spec fn spec_ok(&self) -> bool {
        self is Ok
    }

    open spec fn spec_val(&self) -> T {
        self->Ok_0
    }

    open spec fn spec_note(&self, msg: Seq<char>) -> Seq<char> {
        msg + ": "@ + self->Err_0@
    }

    fn dexpect(self, msg: &str, log: &mut LogData) -> (r: T) {
        match self {
            Ok(val) => val,
            Err(_) => vstd::pervasive::unreached(),
        }
    }

    fn dexpect_or_default(self, msg: &str, log: &mut LogData, default: T, now: u64) -> (r: T) {
        match self {
            Ok(val) => val,
            Err(e) => {
                log.slog(now, msg.to_owned().concat(": ").concat(e.as_str()));
                default
            },
        }
    }
}

} // verus!
