use vstd::prelude::*;
use vstd::string::StringSliceAdditionalSpecFns;
use vstd::utf8::encode_utf8;
use sha2::Digest;
use rand::Rng;

use crate::config::AuthConfig;
use crate::models::Credential;

verus! {

/// The SHA-256 digest of a byte sequence.  The digest is a pure function of
/// its input; nothing further is assumed about its value.
pub uninterp spec fn sha256_of(data: Seq<u8>) -> Seq<u8>;

/// Relies on sha2::Sha256: the digest depends on the input bytes alone and
/// is always 32 bytes long.
#[verifier::external_body]
fn sha256(data: &[u8]) -> (r: Vec<u8>)
    ensures
        r@ == sha256_of(data@),
        r@.len() == 32,
{
    sha2::Sha256::digest(data).to_vec()
}

/// Relies on String::push: appends exactly the given character.
#[verifier::external_body]
pub(crate) fn string_push(s: &mut String, c: char)
    ensures
        final(s)@ == old(s)@.push(c),
{
    s.push(c);
}

/// The digest chain: round 1 hashes the input, and every later round hashes
/// the raw output bytes of the round before it.
pub open spec fn chained_sha256(input: Seq<u8>, rounds: nat) -> Seq<u8>
    decreases rounds,
{
    if rounds == 0 {
        input
    } else {
        sha256_of(chained_sha256(input, (rounds - 1) as nat))
    }
}

/// The lowercase hexadecimal character for a value below 16.
pub open spec fn hex_char(d: u8) -> char
    recommends
        d < 16,
{
    if d < 10 {
        ((48 + d) as u8) as char
    } else {
        ((87 + d) as u8) as char
    }
}

/// Lowercase hexadecimal rendering of a byte sequence, two characters per
/// byte, high nibble first.
pub open spec fn hex_of(data: Seq<u8>) -> Seq<char>
    decreases data.len(),
{
    if data.len() == 0 {
        seq![]
    } else {
        hex_of(data.drop_last()) + seq![hex_char(data.last() / 16), hex_char(data.last() % 16)]
    }
}

/// Renders bytes as lowercase hexadecimal.
pub fn to_hex(data: &Vec<u8>) -> (r: String)
    ensures
        r@ == hex_of(data@),
        r@.len() == 2 * data@.len(),
{
    let mut r = String::new();
    let mut i: usize = 0;
    proof {
        assert(data@.take(0int) =~= Seq::<u8>::empty());
    }
    while i < data.len()
        invariant
            i <= data@.len(),
            r@ == hex_of(data@.take(i as int)),
            r@.len() == 2 * i,
        decreases data@.len() - i,
    {
        let b = data[i];
        let hi = b / 16;
        let lo = b % 16;
        string_push(&mut r, if hi < 10 { (48 + hi) as char } else { (87 + hi) as char });
        string_push(&mut r, if lo < 10 { (48 + lo) as char } else { (87 + lo) as char });
        i = i + 1;
        proof {
            let taken = data@.take(i as int);
            assert(taken.drop_last() =~= data@.take(i - 1));
            assert(taken.last() == data@[i - 1]);
            assert(r@ =~= hex_of(taken.drop_last()) + seq![
                hex_char(taken.last() / 16),
                hex_char(taken.last() % 16),
            ]);
        }
    }
    proof {
        assert(data@.take(data@.len() as int) =~= data@);
    }
    r
}

/// Applies the digest function `iterations` times to the input, feeding each
/// round's raw output bytes into the next, and renders the final digest as
/// lowercase hexadecimal.
pub fn iterate_hash(input: &str, iterations: u32) -> (r: String)
    requires
        iterations >= 1,
    ensures
        r@ == hex_of(chained_sha256(input.spec_bytes(), iterations as nat)),
        r@.len() == 64,
{
    let mut digest = sha256(input.as_bytes());
    proof {
        assert(chained_sha256(input.spec_bytes(), 0) == input.spec_bytes());
        assert(chained_sha256(input.spec_bytes(), 1) == sha256_of(input.spec_bytes()));
    }
    let mut i: u32 = 1;
    while i < iterations
        invariant
            1 <= i <= iterations,
            digest@ == chained_sha256(input.spec_bytes(), i as nat),
            digest@.len() == 32,
        decreases iterations - i,
    {
        digest = sha256(digest.as_slice());
        i = i + 1;
    }
    to_hex(&digest)
}

/// Raised when the password hashing engine is asked to run with an invalid
/// work factor.
#[derive(Debug, PartialEq, Eq, Structural)]
pub enum HashError {
    /// The iteration count was zero; at least one digest round is required.
    InvalidIterations,
}

/// What `compute_verifier` returns: the plaintext unchanged while no salt is
/// on record (the bootstrap state), and otherwise the hex rendering of the
/// digest chain over plaintext, salt and pepper in that fixed order.
pub open spec fn spec_verifier(
    plaintext: Seq<char>,
    salt: Option<Seq<char>>,
    pepper: Seq<char>,
    iterations: nat,
) -> Seq<char> {
    match salt {
        Option::None => plaintext,
        Option::Some(s) => hex_of(chained_sha256(encode_utf8(plaintext + s + pepper), iterations)),
    }
}

/// Derives the verifiable password hash from a plaintext password, the
/// employee's salt (if any), the global pepper and the iteration count.
///
/// While no salt is on record the plaintext is returned unchanged, for any
/// iteration count: this is the deliberate first-login bootstrap state.
/// With a salt present, an iteration count of zero is invalid and fails
/// fast; otherwise the salted and peppered password is digest-chained
/// `iterations` times.
pub fn compute_verifier(
    plaintext: &str,
    salt: Option<&str>,
    pepper: &str,
    iterations: u32,
) -> (r: Result<String, HashError>)
    ensures
        r matches Ok(v) ==> v@ == spec_verifier(
            plaintext@,
            match salt {
                Option::Some(s) => Option::Some(s@),
                Option::None => Option::None,
            },
            pepper@,
            iterations as nat,
        ),
        r is Ok <==> (salt is None || iterations >= 1),
        r is Err ==> r == Result::<String, HashError>::Err(HashError::InvalidIterations),
{
    match salt {
        None => Ok(plaintext.to_owned()),
        Some(s) => {
            if iterations == 0 {
                Err(HashError::InvalidIterations)
            } else {
                let mut spiced = plaintext.to_owned();
                spiced.append(s);
                spiced.append(pepper);
                proof {
                    assert(spiced@ == plaintext@ + s@ + pepper@);
                }
                Ok(iterate_hash(spiced.as_str(), iterations))
            }
        },
    }
}

/// Reproduces the stored verifier for a login attempt: the salt comes from
/// the employee's credential row, pepper and iteration count from the
/// process configuration.
pub fn hash_password(given_password: &str, credential: &Credential, config: &AuthConfig) -> (r:
    String)
    requires
        config.wf(),
    ensures
        r@ == spec_verifier(
            given_password@,
            credential.spec_salt(),
            config.pepper@,
            config.keychain_number as nat,
        ),
{
    let outcome = match &credential.salt {
        Some(s) => compute_verifier(
            given_password,
            Some(s.as_str()),
            config.pepper.as_str(),
            config.keychain_number,
        ),
        None => compute_verifier(
            given_password,
            None,
            config.pepper.as_str(),
            config.keychain_number,
        ),
    };
    match outcome {
        Ok(v) => v,
        Err(_) => {
            proof {
                assert(false);
            }
            String::new()
        },
    }
}

/// Whether a character belongs to the alphanumeric salt alphabet.
pub open spec fn is_alphanumeric_char(c: char) -> bool {
    ('0' <= c && c <= '9') || ('A' <= c && c <= 'Z') || ('a' <= c && c <= 'z')
}

/// The salts this module generates: exactly the requested length, drawn
/// from the alphanumeric alphabet.
pub open spec fn salt_ok(s: Seq<char>, length: int) -> bool {
    s.len() == length && forall|i: int| 0 <= i < s.len() ==> is_alphanumeric_char(#[trigger] s[i])
}

/// Relies on rand's thread-local generator with the alphanumeric
/// distribution: whatever values are drawn, the result has exactly the
/// requested length and holds ASCII alphanumeric characters alone.
#[verifier::external_body]
pub fn create_salt(length: usize) -> (r: String)
    ensures
        salt_ok(r@, length as int),
{
    rand::thread_rng()
        .sample_iter(&rand::distributions::Alphanumeric)
        .take(length)
        .map(char::from)
        .collect()
}

/// Law: the password hashing engine is deterministic — two runs over
/// identical plaintext, salt, pepper and iteration count state the same
/// verifier, so verification by comparison is sound.
pub proof fn lemma_compute_verifier_deterministic(
    p1: Seq<char>,
    s1: Option<Seq<char>>,
    pep1: Seq<char>,
    n1: nat,
    p2: Seq<char>,
    s2: Option<Seq<char>>,
    pep2: Seq<char>,
    n2: nat,
)
    requires
        p1 == p2,
        s1 == s2,
        pep1 == pep2,
        n1 == n2,
    ensures
        spec_verifier(p1, s1, pep1, n1) == spec_verifier(p2, s2, pep2, n2),
{
}

/// Whether the given plaintext reproduces the stored password hash.
pub fn verify_password(given_password: &str, credential: &Credential, config: &AuthConfig) -> (r:
    bool)
    requires
        config.wf(),
    ensures
        r == (spec_verifier(
            given_password@,
            credential.spec_salt(),
            config.pepper@,
            config.keychain_number as nat,
        ) == credential.password_hash@),
{
    let hashed = hash_password(given_password, credential, config);
    hashed == credential.password_hash
}

} // verus!
