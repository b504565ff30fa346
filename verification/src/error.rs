//! Errors reported by the hardware layer.

use vstd::prelude::*;
use crate::text::join;

verus! {

/// What went wrong, in the categories the write paths distinguish.
#[derive(Debug, Clone, Copy, PartialEq, Eq, Structural)]
pub enum ErrorKind {
    /// A value was rejected before anything was written.
    InvalidInput,
    /// The interface the request needs is not exposed by this kernel/firmware.
    Unsupported,
}

/// An error with its kind and a human-readable message.
#[derive(Debug)]
pub struct HalError {
    pub kind: ErrorKind,
    pub message: String,
}

impl HalError {
    pub open spec fn view_kind(&self) -> ErrorKind {
        self.kind
    }

    pub fn kind(&self) -> (k: ErrorKind)
        ensures
            k == self.kind,
    {
        self.kind
    }

    pub fn message(&self) -> (m: String)
        ensures
            m@ == self.message@,
    {
        self.message.clone()
    }
}

/// The kind and text of an error, for contracts.
pub open spec fn err_view(e: HalError) -> (ErrorKind, Seq<char>) {
    (e.kind, e.message@)
}

/// "`kind` '`value`' not available; options: a, b, ...".
pub open spec fn not_available_message(kind: Seq<char>, value: Seq<char>, options: Seq<Seq<char>>) -> Seq<char> {
    kind + " '"@ + value + "' not available; options: "@ + join(options, ", "@)
}

} // verus!
