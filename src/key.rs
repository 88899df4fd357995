use vstd::prelude::*;
use vstd::utf8::{encode_utf8, is_ascii_chars, is_ascii_chars_encode_utf8};

use pbkdf2::password_hash::{PasswordHasher, Salt, SaltString};
use pbkdf2::{Algorithm, Params, Pbkdf2};
use rand_core::OsRng;
use sha2::{Digest, Sha512};

verus! {

#[verifier::external_type_specification]
#[verifier::external_body]
pub struct ExPasswordHashError(pbkdf2::password_hash::Error);

/// PBKDF2 round count below which a warning is due.
pub const OWASP_RECOMMENDED_PBKDF2_ROUNDS: u32 = 210_000;

/// Round count used when none is given.
pub const DEFAULT_ROUNDS: u32 = 210_000;

/// Length in bytes of the stretched key, before its B64 encoding.
pub const NEEDED_OUTPUT_LENGTH: usize = 24;

/// A salt as the PHC string format accepts it: 4 to 64 characters of
/// `[a-zA-Z0-9/+.-]`.
pub open spec fn valid_salt(s: Seq<char>) -> bool {
    &&& 4 <= s.len() <= 64
    &&& forall|i: int|
        0 <= i < s.len() ==> {
            let c = #[trigger] s[i];
            ('a' <= c && c <= 'z') || ('A' <= c && c <= 'Z') || ('0' <= c && c <= '9') || c == '/'
                || c == '+' || c == '.' || c == '-'
        }
}

/// Upper-case hex text of the SHA-512 digest of the UTF-8 bytes of `s`.
pub uninterp spec fn sha512_upper_hex(s: Seq<char>) -> Seq<char>;

/// PBKDF2-HMAC-SHA512 of the UTF-8 bytes of `password` under the B64 salt
/// `salt`, as unpadded B64 text; `None` where the hasher refuses the inputs.
pub uninterp spec fn stretched_key(
    password: Seq<char>,
    salt: Seq<char>,
    rounds: u32,
    length: usize,
) -> Option<Seq<char>>;

/// Relies on sha2's `Sha512::digest` and the `UpperHex` format of its output:
/// 128 upper-case hex digits that depend on the input alone.
#[verifier::external_body]
fn sha512_hex(s: &str) -> (r: String)
    ensures
        r@ == sha512_upper_hex(s@),
        r@.len() == 128,
{
    format!("{:X}", Sha512::digest(s.as_bytes()))
}

/// Relies on password-hash's `Salt::from_b64` (refuses exactly the salts that
/// `valid_salt` rejects) and pbkdf2's `Pbkdf2::hash_password_customized` with
/// PBKDF2-SHA512: the output, `length` bytes written in unpadded B64, depends
/// on the inputs alone.
#[verifier::external_body]
fn pbkdf2_sha512(password: &str, salt: &str, rounds: u32, length: usize) -> (r: Result<
    String,
    pbkdf2::password_hash::Error,
>)
    ensures
        match stretched_key(password@, salt@, rounds, length) {
            Some(k) => r matches Ok(s) && s@ == k,
            None => r is Err,
        },
        r matches Ok(s) ==> s@.len() == (4 * length + 2) / 3 && is_ascii_chars(s@),
        !valid_salt(salt@) ==> r is Err,
{
    let salt = Salt::from_b64(salt)?;
    let params = Params { rounds, output_length: length };
    let alg = Some(Algorithm::Pbkdf2Sha512.ident());
    let hash = Pbkdf2.hash_password_customized(password.as_bytes(), alg, None, params, salt)?;
    Ok(hash.hash.unwrap().to_string())
}

/// Relies on password-hash's `SaltString::generate` fed by the operating
/// system's random source: 16 random bytes in canonical unpadded B64, 22
/// characters. `Pbkdf2::hash_password_customized` decodes such a salt, and
/// with a 24-byte output meets no error for any password and round count.
#[verifier::external_body]
pub(crate) fn random_salt() -> (r: String)
    ensures
        r@.len() == 22,
        valid_salt(r@),
        forall|p: Seq<char>, n: u32| (#[trigger] stretched_key(p, r@, n, NEEDED_OUTPUT_LENGTH)) is Some,
{
    SaltString::generate(&mut OsRng).as_str().to_owned()
}

/// The secret a user unlocks the database with.
pub struct MasterKey {
    password: String,
}

/// What encrypts or decrypts a database: the stretched key, with the salt and
/// round count that produced it.
pub struct DatabaseEncryptionParams {
    pub secret_key: String,
    pub pbkdf2_salt: String,
    pub pbkdf2_rounds: u32,
}

/// The key that `password` stretches to under `salt` and `rounds`, if any:
/// the password is first replaced by the hex text of its SHA-512 digest.
pub open spec fn key_for(password: Seq<char>, salt: Seq<char>, rounds: u32) -> Option<Seq<char>> {
    stretched_key(sha512_upper_hex(password), salt, rounds, NEEDED_OUTPUT_LENGTH)
}

impl MasterKey {
    pub closed spec fn password_view(&self) -> Seq<char> {
        self.password@
    }

    pub fn new(password: String) -> (r: MasterKey)
        ensures
            r.password_view() == password@,
    {
        MasterKey { password }
    }

    /// Whether `rounds` is below the recommended minimum.
    pub fn is_below_recommended(rounds: u32) -> (r: bool)
        ensures
            r == (rounds < OWASP_RECOMMENDED_PBKDF2_ROUNDS),
    {
        rounds < OWASP_RECOMMENDED_PBKDF2_ROUNDS
    }

    /// Stretches the password under `optional_salt`, or under a fresh random
    /// salt, with `pbkdf2_rounds` rounds, or `DEFAULT_ROUNDS`.
    pub fn to_decrypt_params(&self, optional_salt: Option<String>, pbkdf2_rounds: Option<u32>) -> (r:
        Result<DatabaseEncryptionParams, pbkdf2::password_hash::Error>)
        ensures
            ({
                let rounds = match pbkdf2_rounds {
                    Some(n) => n,
                    None => DEFAULT_ROUNDS,
                };
                &&& r matches Ok(p) ==> {
                    &&& p.pbkdf2_rounds == rounds
                    &&& Some(p.secret_key@) == key_for(self.password_view(), p.pbkdf2_salt@, rounds)
                    &&& p.secret_key@.len() == 32
                    &&& is_ascii_chars(p.secret_key@)
                    &&& encode_utf8(p.secret_key@).len() == 32
                    &&& valid_salt(p.pbkdf2_salt@)
                    &&& (optional_salt matches Some(s) ==> p.pbkdf2_salt@ == s@)
                }
                &&& optional_salt is None ==> r is Ok
                &&& (optional_salt matches Some(s) && !valid_salt(s@)) ==> r is Err
                &&& optional_salt matches Some(s) ==> (r is Ok <==> key_for(
                    self.password_view(),
                    s@,
                    rounds,
                ) is Some)
            }),
    {
        let salt = match optional_salt {
            Some(s) => s,
            None => random_salt(),
        };
        let rounds = match pbkdf2_rounds {
            Some(n) => n,
            None => DEFAULT_ROUNDS,
        };
        let full_master_key = sha512_hex(self.password.as_str());
        let key = pbkdf2_sha512(full_master_key.as_str(), salt.as_str(), rounds, NEEDED_OUTPUT_LENGTH)?;
        proof {
            is_ascii_chars_encode_utf8(key@);
        }
        Ok(DatabaseEncryptionParams { secret_key: key, pbkdf2_salt: salt, pbkdf2_rounds: rounds })
    }
}

} // verus!
