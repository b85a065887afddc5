use vstd::prelude::*;

verus! {

/// The kind of work a recorded interval stands for.
#[derive(Clone, Copy, PartialEq, Eq, Structural, Debug)]
pub enum WorktimeType {
    Break,
    Ride,
    Work,
}

/// A task that work intervals are booked against.
pub struct Task {
    pub task_id: i32,
    pub task_description: Option<String>,
}

/// One employee's stored login secret: the password hash (or, before the
/// first password change, the plaintext set at account creation) and the
/// per-employee salt.  The salt is absent exactly as long as the employee
/// has never completed a password-setting flow.
pub struct Credential {
    pub employee_id: i32,
    pub password_hash: String,
    pub salt: Option<String>,
}

impl Credential {
    /// The salt as a sequence of characters, if one is on record.
    pub open spec fn spec_salt(&self) -> Option<Seq<char>> {
        match self.salt {
            Option::Some(s) => Option::Some(s@),
            Option::None => Option::None,
        }
    }
}

/// What a credential lookup against the relational store came back with.
/// A missing row is kept apart from a storage fault so that the login flow
/// can fold the former into the invalid-credentials outcome while the
/// latter surfaces as a generic storage error.
pub enum FetchOutcome {
    Found(Credential),
    NotFound,
    StorageFailure,
}

} // verus!
