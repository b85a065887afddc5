use vstd::prelude::*;

verus! {

/// Resolver group that lets a client write into the server's log at each
/// severity.  Each resolver hands the message back unchanged; the actual
/// log write is a side effect of the server around the library.
#[derive(PartialEq, Eq, Structural)]
pub struct Logs {}

impl Logs {
    /// Echoes a message logged at trace severity.
    pub fn trace(&self, log_message: String) -> (r: String)
        ensures
            r == log_message,
    {
        log_message
    }

    /// Echoes a message logged at debug severity.
    pub fn debug(&self, log_message: String) -> (r: String)
        ensures
            r == log_message,
    {
        log_message
    }

    /// Echoes a message logged at info severity.
    pub fn info(&self, log_message: String) -> (r: String)
        ensures
            r == log_message,
    {
        log_message
    }

    /// Echoes a message logged at warn severity.
    pub fn warn(&self, log_message: String) -> (r: String)
        ensures
            r == log_message,
    {
        log_message
    }

    /// Echoes a message logged at error severity.
    pub fn error(&self, log_message: String) -> (r: String)
        ensures
            r == log_message,
    {
        log_message
    }
}

impl Default for Logs {
    fn default() -> (r: Self)
        ensures
            r == (Logs {}),
    {
        Logs {}
    }
}

} // verus!
