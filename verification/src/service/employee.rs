use vstd::prelude::*;

use crate::config::AuthConfig;
use crate::models::Credential;
use crate::security::{compute_verifier, create_salt, salt_ok, spec_verifier};

verus! {

/// Rotates the employee's salt and derives the new password hash in one
/// step: a fresh salt of the configured length unconditionally replaces
/// any prior salt, and the stored hash becomes the verifier of the new
/// password under that salt.  After the change the employee is no longer
/// in the first-login state, and a login with the new password succeeds by
/// construction.  Persisting the returned row is the caller's single
/// atomic write.
pub fn update_password(new_password: &str, credential: &Credential, config: &AuthConfig) -> (r:
    Credential)
    requires
        config.wf(),
    ensures
        r.employee_id == credential.employee_id,
        r.salt matches Some(s) && salt_ok(s@, config.salt_length as int),
        r.password_hash@ == spec_verifier(
            new_password@,
            r.spec_salt(),
            config.pepper@,
            config.keychain_number as nat,
        ),
{
    let salt = create_salt(config.salt_length);
    let hashed = match compute_verifier(
        new_password,
        Some(salt.as_str()),
        config.pepper.as_str(),
        config.keychain_number,
    ) {
        Ok(h) => h,
        Err(_) => {
            proof {
                assert(false);
            }
            String::new()
        },
    };
    Credential { employee_id: credential.employee_id, password_hash: hashed, salt: Some(salt) }
}

/// Whether the employee has never completed a password-setting flow: true
/// exactly when no salt is on record.
pub fn initial_password(credential: &Credential) -> (r: bool)
    ensures
        r == (credential.salt is None),
{
    match &credential.salt {
        Option::None => true,
        Option::Some(_) => false,
    }
}

} // verus!
