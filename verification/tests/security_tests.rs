use ttbackend::config::AuthConfig;
use ttbackend::models::Credential;
use ttbackend::security::{
    compute_verifier, create_salt, iterate_hash, to_hex, verify_password,
};
use ttbackend::service::employee::{initial_password, update_password};
use sha2::{Digest, Sha256};

fn test_config() -> AuthConfig {
    AuthConfig {
        jwt_secret: String::from("test-signing-key"),
        pepper: String::from("test-pepper"),
        keychain_number: 100,
        salt_length: 64,
    }
}

#[test]
fn test_to_hex() {
    assert_eq!(to_hex(&vec![0xbe, 0xef]), "beef");
    assert_eq!(to_hex(&vec![]), "");
    assert_eq!(to_hex(&vec![0x00, 0x0a, 0xff]), "000aff");
}

#[test]
fn test_single_round_matches_reference_digest() {
    // One digest round over "abc" must be the well-known SHA-256 vector,
    // so the digest wrapper cannot be handing its input back.
    assert_eq!(
        iterate_hash("abc", 1),
        "ba7816bf8f01cfea414140de5dae2223b00361a396177a9cb410ff61f20015ad"
    );
}

#[test]
fn test_iterate_hash_length() {
    // given is a password to get hashed and an iteration count
    let password = "catgirls123";

    // when iterate_hash is called
    let hashed_password = iterate_hash(password, 100);

    // then the hashed_password should be a String with 64 hexadecimal characters
    assert_eq!(64, hashed_password.len());
}

#[test]
fn test_iterate_hash_iterations() {
    // given is a password to get hashed and two different iteration counts
    let password = "catgirls123";
    const KEYCHAIN_NUMBER: u32 = 361;
    const ANOTHER_KEYCHAIN_NUMBER: u32 = 187;

    // when iterate_hash is called with both keychain numbers
    let hashed_password = iterate_hash(password, KEYCHAIN_NUMBER);
    let another_hashed_password = iterate_hash(password, ANOTHER_KEYCHAIN_NUMBER);

    // then the two hashed passwords should not match
    assert_ne!(hashed_password, another_hashed_password);
}

#[test]
fn test_create_salt() {
    // given is the salt length
    const SALT_LENGTH: usize = 64;

    // when create_salt is called
    let salt = create_salt(SALT_LENGTH);

    // then the salt has that length and holds alphanumeric characters alone
    assert_eq!(SALT_LENGTH, salt.len());
    assert!(salt.chars().all(|c| c.is_ascii_alphanumeric()));
}

#[test]
fn test_salts_differentiate_verifiers() {
    // Identical passwords under different salts must give different hashes.
    let config = test_config();
    let a = compute_verifier("password", Some("salt-one"), &config.pepper, 100).unwrap();
    let b = compute_verifier("password", Some("salt-two"), &config.pepper, 100).unwrap();
    assert_ne!(a, b);
}

#[test]
fn test_verifier_is_deterministic() {
    let config = test_config();
    let a = compute_verifier("password", Some("salt"), &config.pepper, 100).unwrap();
    let b = compute_verifier("password", Some("salt"), &config.pepper, 100).unwrap();
    assert_eq!(a, b);
}

#[test]
fn test_verifier_passthrough_without_salt() {
    let config = test_config();
    let out = compute_verifier("catgirls123", None, &config.pepper, 100).unwrap();
    assert_eq!(out, "catgirls123");
}

#[test]
fn test_verifier_rejects_zero_iterations() {
    let config = test_config();
    assert!(compute_verifier("pw", Some("salt"), &config.pepper, 0).is_err());
    // The bootstrap passthrough never consults the iteration count.
    assert!(compute_verifier("pw", None, &config.pepper, 0).is_ok());
}

#[test]
fn test_verify_password_and_hash_password_first_login() {
    // given is a credential in the first-login state and the password to verify
    let config = test_config();
    let credential = Credential {
        employee_id: 2,
        password_hash: String::from("catgirls123"),
        salt: None,
    };

    // when verify_password is called
    let check = verify_password("catgirls123", &credential, &config);

    // then it should match since it is the first login and no salt exists yet
    assert!(check);
}

#[test]
fn test_update_password() {
    // given is a credential which has not been through a password change yet
    let config = test_config();
    let credential = Credential {
        employee_id: 1,
        password_hash: String::from("catgirls123"),
        salt: None,
    };

    // when the password is updated
    let updated = update_password("catgirls123", &credential, &config);

    // then the password should be hashed and there is a new salt
    assert!(updated.salt.is_some());
    assert_eq!(64, updated.salt.as_ref().unwrap().len());
    assert_eq!(64, updated.password_hash.len());
}

#[test]
fn test_verify_password_and_hash_password_on_updated_password() {
    // given is a credential whose password was changed to the given value
    let config = test_config();
    let credential = Credential {
        employee_id: 2,
        password_hash: String::from("catgirls123"),
        salt: None,
    };
    let updated = update_password("catgirls123!", &credential, &config);

    // when verify_password is called
    let check = verify_password("catgirls123!", &updated, &config);

    // then it should match
    assert!(check);
}

#[test]
fn test_initial_password() {
    let config = test_config();
    let credential = Credential {
        employee_id: 2,
        password_hash: String::from("catgirls123"),
        salt: None,
    };
    let initial = initial_password(&credential);
    assert!(initial);

    let updated = update_password("new_password", &credential, &config);
    let initial = initial_password(&updated);
    assert!(!initial);
}

#[test]
fn test_password_change_invalidates_old_password() {
    // After a change to "newpass" with salt length 64: no longer first
    // login, salt of length 64, the new password verifies and the old one
    // does not.
    let config = test_config();
    let credential = Credential {
        employee_id: 5,
        password_hash: String::from("oldpass"),
        salt: None,
    };
    let updated = update_password("newpass", &credential, &config);
    assert!(!initial_password(&updated));
    assert_eq!(updated.salt.as_ref().unwrap().len(), 64);
    assert!(verify_password("newpass", &updated, &config));
    assert!(!verify_password("oldpass", &updated, &config));
}

#[test]
fn test_different_iteration_counts_differ() {
    let config = test_config();
    let a = compute_verifier("password", Some("salt"), &config.pepper, 361).unwrap();
    let b = compute_verifier("password", Some("salt"), &config.pepper, 187).unwrap();
    assert_ne!(a, b);
}

#[test]
fn test_iterate_hash_against_reference_chain() {
    // Recompute the two-round chain with the digest crate directly; the
    // library must agree with it.
    let input = "spiced-password";
    let once = Sha256::digest(input.as_bytes());
    let twice = Sha256::digest(&once);
    let expected: String = twice.iter().map(|b| format!("{:02x}", b)).collect();
    assert_eq!(iterate_hash(input, 2), expected);
}
