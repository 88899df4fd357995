//! Encrypted store of login entries.
//!
//! Entries are kept in memory as a `Database`, and at rest as an
//! `EncryptedDatabase`: AES-256-GCM over the JSON list of entries, under a
//! key stretched from the user's password with PBKDF2 (HMAC-SHA512).

use vstd::prelude::*;

pub mod codec;
pub mod database;
pub mod encryption;
pub mod entry;
pub mod key;

use crate::database::{
    decrypted, key_fits, sealed_with_key, Database, DatabaseError, DatabaseView, EncryptedDatabase,
    EnvelopeView,
};
use crate::codec::{entries_of_json, json_records, records_of_entries};
use crate::encryption::{generate_nonce, opened, FixedNonce, PLAINTEXT_MAX};
use crate::entry::EntryView;
use crate::key::{key_for, random_salt, valid_salt, MasterKey, DEFAULT_ROUNDS};

verus! {

/// The database that `env` holds for `password`, where it holds one. An
/// envelope with no ciphertext holds an empty database; otherwise the key is
/// stretched from the password with the stored salt and round count.
pub open spec fn opened_database(env: EnvelopeView, password: Seq<char>) -> Option<DatabaseView> {
    if env.ciphertext.len() == 0 {
        Some(DatabaseView { rounds: env.rounds, entries: Seq::empty() })
    } else {
        match key_for(password, env.salt, env.rounds) {
            Some(k) => decrypted(env, k),
            None => None,
        }
    }
}

/// `env` holds `entries`, encrypted under the key that `password` stretches to
/// with the salt and round count that `env` records.
pub open spec fn seals(env: EnvelopeView, entries: Seq<EntryView>, password: Seq<char>) -> bool {
    match key_for(password, env.salt, env.rounds) {
        Some(k) => sealed_with_key(env, entries, k),
        None => false,
    }
}

/// A new envelope: fresh salt and nonce, default round count, no ciphertext.
pub fn create_db() -> (r: Result<EncryptedDatabase, DatabaseError>)
    ensures
        r matches Ok(e) && e@.rounds == DEFAULT_ROUNDS && e@.ciphertext.len() == 0 && valid_salt(
            e@.salt,
        ),
{
    EncryptedDatabase::new(None)
}

/// Decrypts `db` with `password`. An envelope with no ciphertext gives an
/// empty database with its round count, and stretches no key.
pub fn decrypt_db(db: EncryptedDatabase, password: String) -> (r: Result<Database, DatabaseError>)
    ensures
        r is Ok <==> opened_database(db@, password@) is Some,
        r matches Ok(d) ==> opened_database(db@, password@) == Some(d@),
        r matches Err(e) ==> (e is KeyDerivationError <==> key_for(
            password@,
            db@.salt,
            db@.rounds,
        ) is None),
        db@.ciphertext.len() > 0 && !valid_salt(db@.salt) ==> r matches Err(
            DatabaseError::KeyDerivationError,
        ),
        r matches Err(e) ==> (e is KeyDerivationError || e is DecryptError
            || e is DatabaseDeserializationError),
        db@.ciphertext.len() > 0 ==> match key_for(password@, db@.salt, db@.rounds) {
            Some(k) => {
                &&& !key_fits(k) ==> (r matches Err(DatabaseError::DecryptError))
                &&& key_fits(k) ==> match opened(k, db@.nonce, db@.ciphertext) {
                    None => r matches Err(DatabaseError::DecryptError),
                    Some(pt) => entries_of_json(pt) is None ==> (r matches Err(
                        DatabaseError::DatabaseDeserializationError(_),
                    )),
                }
            },
            None => r matches Err(DatabaseError::KeyDerivationError),
        },
{
    if db.entries.len() == 0 {
        return db.decrypt(String::new());
    }
    let encryption_key = MasterKey::new(password);
    let salt = db.encryption_params.salt.clone();
    let rounds = db.encryption_params.pbkdf2_rounds;
    match encryption_key.to_decrypt_params(Some(salt), Some(rounds)) {
        Ok(params) => db.decrypt(params.secret_key),
        Err(_) => Err(DatabaseError::KeyDerivationError),
    }
}

/// Encrypts `db` with `password` into an envelope under the given salt and
/// nonce, with `pbkdf2_rounds` rounds or else the round count of `db`.
pub fn seal_db_with(
    db: &Database,
    password: String,
    pbkdf2_rounds: Option<u32>,
    salt: String,
    nonce: FixedNonce,
) -> (r: Result<EncryptedDatabase, DatabaseError>)
    ensures
        ({
            let rounds = match pbkdf2_rounds {
                Some(n) => n,
                None => db@.rounds,
            };
            &&& r matches Ok(env) ==> {
                &&& env@.rounds == rounds
                &&& env@.salt == salt@
                &&& env@.nonce == nonce@
                &&& seals(env@, db@.entries, password@)
            }
            &&& r matches Err(e) ==> (e is KeyDerivationError <==> key_for(
                password@,
                salt@,
                rounds,
            ) is None)
            &&& !valid_salt(salt@) ==> (r matches Err(DatabaseError::KeyDerivationError))
            &&& (r is Ok <==> (key_for(password@, salt@, rounds) is Some && json_records(
                records_of_entries(db@.entries),
            ).len() <= PLAINTEXT_MAX))
        }),
        r matches Err(e) ==> (e is KeyDerivationError || e is EncryptError),
{
    let rounds = match pbkdf2_rounds {
        Some(n) => n,
        None => db.pbkdf2_rounds,
    };
    let encryption_key = MasterKey::new(password);
    let params = match encryption_key.to_decrypt_params(Some(salt), Some(rounds)) {
        Ok(p) => p,
        Err(_) => {
            return Err(DatabaseError::KeyDerivationError);
        },
    };
    db.encrypt(&params, nonce.bytes())
}

/// Encrypts `db` with `password` under a fresh random salt and nonce.
pub fn seal_db(db: &Database, password: String, pbkdf2_rounds: Option<u32>) -> (r: Result<
    EncryptedDatabase,
    DatabaseError,
>)
    ensures
        r matches Ok(env) ==> {
            &&& env@.rounds == match pbkdf2_rounds {
                Some(n) => n,
                None => db@.rounds,
            }
            &&& valid_salt(env@.salt)
            &&& env@.nonce.len() == 12
            &&& seals(env@, db@.entries, password@)
        },
        r is Ok <==> json_records(records_of_entries(db@.entries)).len() <= PLAINTEXT_MAX,
        r matches Err(e) ==> (e is KeyDerivationError || e is EncryptError),
{
    let salt = random_salt();
    let nonce = generate_nonce();
    seal_db_with(db, password, pbkdf2_rounds, salt, nonce)
}

/// Decrypting with the password that sealed an envelope gives back the
/// sealed entries, in their order, with the round count that the envelope
/// records.
pub proof fn lemma_open_sealed(env: EnvelopeView, entries: Seq<EntryView>, password: Seq<char>)
    requires
        seals(env, entries, password),
    ensures
        opened_database(env, password) == Some(DatabaseView { rounds: env.rounds, entries }),
{
}

/// An envelope with no ciphertext, as a new database has, opens to an empty
/// database under any password.
pub proof fn lemma_open_new(env: EnvelopeView, password: Seq<char>)
    requires
        env.ciphertext.len() == 0,
    ensures
        opened_database(env, password) == Some(DatabaseView { rounds: env.rounds, entries: Seq::empty() }),
{
}

/// Round trip: sealing a database with a password and decrypting the result
/// with the same password gives the database back.
pub proof fn lemma_round_trip(d: DatabaseView, env: EnvelopeView, password: Seq<char>)
    requires
        seals(env, d.entries, password),
        env.rounds == d.rounds,
    ensures
        opened_database(env, password) == Some(d),
{
    lemma_open_sealed(env, d.entries, password);
}

} // verus!
