use vstd::prelude::*;

verus! {

/// Process-wide security configuration, loaded once at startup and passed by
/// reference into every operation that needs it.  The pepper and the signing
/// key are secrets; the iteration count is the work factor of the password
/// hashing engine and must be at least 1.
pub struct AuthConfig {
    /// Symmetric signing key shared by token issuance and verification.
    pub jwt_secret: String,
    /// Global secret mixed into every salted password hash.
    pub pepper: String,
    /// Number of digest rounds the hashing engine applies.
    pub keychain_number: u32,
    /// Length of every newly generated salt, in characters.
    pub salt_length: usize,
}

impl AuthConfig {
    /// A configuration is well formed when its iteration count is positive.
    pub open spec fn wf(&self) -> bool {
        self.keychain_number >= 1
    }
}

} // verus!
