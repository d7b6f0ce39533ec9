//! Framework error values: a category that routes error handling, and a
//! diagnostic message.

use vstd::prelude::*;

verus! {

/// The routing key for error handling. `WouldBlock` is internal and never
/// surfaced to handlers; `UnexpectedEof` is converted to the inactive event;
/// the rest travel down the inbound pipeline as exception events.
#[derive(Clone, Copy, PartialEq, Eq, Structural, Debug)]
pub enum ErrorCategory {
    WouldBlock,
    TimedOut,
    ConnectionReset,
    UnexpectedEof,
    Decode,
    Other,
}

/// A tagged error: the category decides routing, the message is diagnostic.
#[derive(Clone, Debug)]
pub struct RettyErrorKind {
    pub kind: ErrorCategory,
    pub message: String,
}

/// The name of an error category.
pub open spec fn category_name(kind: ErrorCategory) -> Seq<char> {
    match kind {
        ErrorCategory::WouldBlock => "WouldBlock"@,
        ErrorCategory::TimedOut => "TimedOut"@,
        ErrorCategory::ConnectionReset => "ConnectionReset"@,
        ErrorCategory::UnexpectedEof => "UnexpectedEof"@,
        ErrorCategory::Decode => "Decode"@,
        ErrorCategory::Other => "Other"@,
    }
}

impl RettyErrorKind {
    pub fn new(kind: ErrorCategory, message: String) -> (r: RettyErrorKind)
        ensures
            r.kind == kind,
            r.message@ == message@,
    {
        RettyErrorKind { kind, message }
    }

    /// The "category , message" rendering of the error for diagnostics, in
    /// place of `Display`.
    pub fn describe(&self) -> (r: String)
        ensures
            r@ == category_name(self.kind) + " , "@ + self.message@,
    {
        let tag = match self.kind {
            ErrorCategory::WouldBlock => "WouldBlock",
            ErrorCategory::TimedOut => "TimedOut",
            ErrorCategory::ConnectionReset => "ConnectionReset",
            ErrorCategory::UnexpectedEof => "UnexpectedEof",
            ErrorCategory::Decode => "Decode",
            ErrorCategory::Other => "Other",
        };
        let mut shown = String::from_str(tag);
        shown.append(" , ");
        shown.append(self.message.as_str());
        shown
    }
}

} // verus!
