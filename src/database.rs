use vstd::prelude::*;

use vstd::utf8::encode_utf8;

use crate::codec::{entries_from_json, entries_of_json, entries_to_json, json_records, records_of_entries};
use crate::encryption::{
    decrypt, encrypt, generate_nonce, opened, sealed, FixedNonce, KEY_LENGTH,
    PLAINTEXT_MAX,
};
use crate::entry::{EntryView, PasswordEntry};
use crate::key::{
    random_salt, stretched_key, valid_salt, DatabaseEncryptionParams, DEFAULT_ROUNDS,
    NEEDED_OUTPUT_LENGTH,
};

verus! {

#[derive(Debug)]
pub enum DatabaseError {
    EncryptError,
    DecryptError,
    KeyDerivationError,
    DatabaseSerializationError(String),
    DatabaseDeserializationError(String),
    WriteError(String),
    ReadError(String),
}

/// A decrypted database as mathematical values.
pub struct DatabaseView {
    pub rounds: u32,
    pub entries: Seq<EntryView>,
}

/// The decrypted entries, with the PBKDF2 round count in force for them.
#[derive(Clone)]
pub struct Database {
    pub pbkdf2_rounds: u32,
    pub entries: Vec<PasswordEntry>,
}

pub open spec fn entries_view(v: Seq<PasswordEntry>) -> Seq<EntryView> {
    v.map_values(|e: PasswordEntry| e@)
}

impl View for Database {
    type V = DatabaseView;

    open spec fn view(&self) -> DatabaseView {
        DatabaseView { rounds: self.pbkdf2_rounds, entries: entries_view(self.entries@) }
    }
}

/// `i` is the first position of `s` that holds `e`.
pub open spec fn is_first_match(s: Seq<EntryView>, e: EntryView, i: int) -> bool {
    &&& 0 <= i < s.len()
    &&& s[i] == e
    &&& forall|j: int| 0 <= j < i ==> s[j] != e
}

/// `s` without position `i`, whose place the last element takes.
pub open spec fn swap_removed(s: Seq<EntryView>, i: int) -> Seq<EntryView> {
    s.update(i, s.last()).drop_last()
}

impl Default for Database {
    fn default() -> (r: Database)
        ensures
            r@.rounds == DEFAULT_ROUNDS,
            r@.entries.len() == 0,
    {
        Database { pbkdf2_rounds: DEFAULT_ROUNDS, entries: Vec::new() }
    }
}

impl Database {
    /// Appends `password`; an equal entry may already be there.
    pub fn add_password(&mut self, password: PasswordEntry)
        ensures
            final(self)@.rounds == old(self)@.rounds,
            final(self)@.entries == old(self)@.entries.push(password@),
    {
        self.entries.push(password);
        proof {
            assert(entries_view(self.entries@) =~= entries_view(old(self).entries@).push(password@));
        }
    }

    pub fn get_entries(self) -> (r: Vec<PasswordEntry>)
        ensures
            entries_view(r@) == self@.entries,
    {
        self.entries
    }

    /// The first position that holds an entry equal to `entry`.
    pub fn get_entry_index(&self, entry: &PasswordEntry) -> (r: Option<usize>)
        ensures
            match r {
                Some(i) => is_first_match(self@.entries, entry@, i as int),
                None => !self@.entries.contains(entry@),
            },
    {
        let mut i: usize = 0;
        while i < self.entries.len()
            invariant
                i <= self.entries@.len(),
                forall|j: int| 0 <= j < i ==> self@.entries[j] != entry@,
            decreases self.entries@.len() - i,
        {
            if self.entries[i] == *entry {
                return Some(i);
            }
            i = i + 1;
        }
        None
    }

    /// Removes the first entry equal to `to_remove` and returns it; the last
    /// entry moves into its place. Among equal entries, the first one goes.
    pub fn remove_entry(&mut self, to_remove: &PasswordEntry) -> (r: Option<PasswordEntry>)
        ensures
            final(self)@.rounds == old(self)@.rounds,
            match r {
                Some(x) => x@ == to_remove@ && exists|i: int|
                    is_first_match(old(self)@.entries, to_remove@, i) && final(self)@.entries
                        == swap_removed(old(self)@.entries, i),
                None => !old(self)@.entries.contains(to_remove@) && final(self)@ == old(self)@,
            },
    {
        match self.get_entry_index(to_remove) {
            Some(index) => {
                let removed = self.entries.swap_remove(index);
                proof {
                    assert(entries_view(self.entries@) =~= swap_removed(
                        entries_view(old(self).entries@),
                        index as int,
                    ));
                }
                Some(removed)
            },
            None => None,
        }
    }

    /// Removes the first entry equal to `to_replace`, as `remove_entry`
    /// does, then appends `new_value`. Where no entry equals `to_replace`,
    /// this is a plain append.
    pub fn replace_entry(&mut self, to_replace: PasswordEntry, new_value: PasswordEntry)
        ensures
            final(self)@.rounds == old(self)@.rounds,
            old(self)@.entries.contains(to_replace@) ==> exists|i: int|
                is_first_match(old(self)@.entries, to_replace@, i) && final(self)@.entries
                    == swap_removed(old(self)@.entries, i).push(new_value@),
            !old(self)@.entries.contains(to_replace@) ==> final(self)@.entries == old(
                self,
            )@.entries.push(new_value@),
    {
        self.remove_entry(&to_replace);
        self.add_password(new_value);
    }

    /// Edits an entry: replaces `old_entry` by `new_entry` as `replace_entry`
    /// does, where an entry equal to `old_entry` exists. Returns whether the
    /// edit applies: an edit to an identical value always does, and changes
    /// nothing; an edit of a missing entry does not, and changes nothing.
    pub fn edit_entry(&mut self, old_entry: PasswordEntry, new_entry: PasswordEntry) -> (r: bool)
        ensures
            r == (old_entry@ == new_entry@ || old(self)@.entries.contains(old_entry@)),
            final(self)@.rounds == old(self)@.rounds,
            !r || old_entry@ == new_entry@ ==> final(self)@ == old(self)@,
            r && old_entry@ != new_entry@ ==> exists|i: int|
                is_first_match(old(self)@.entries, old_entry@, i) && final(self)@.entries
                    == swap_removed(old(self)@.entries, i).push(new_entry@),
    {
        if old_entry == new_entry {
            return true;
        }
        if self.get_entry_index(&old_entry).is_none() {
            return false;
        }
        self.replace_entry(old_entry, new_entry);
        true
    }
}

/// The parameters stored beside the ciphertext: all that is needed, with the
/// password, to decrypt it.
pub struct RawDatabaseEncryptionParams {
    pub nonce: FixedNonce,
    pub salt: String,
    pub pbkdf2_rounds: u32,
}

/// The envelope that is written to disk: parameters and ciphertext. An empty
/// ciphertext stands for a database that was never written.
pub struct EncryptedDatabase {
    pub encryption_params: RawDatabaseEncryptionParams,
    pub entries: Vec<u8>,
}

/// An envelope as mathematical values.
pub struct EnvelopeView {
    pub nonce: Seq<u8>,
    pub salt: Seq<char>,
    pub rounds: u32,
    pub ciphertext: Seq<u8>,
}

impl View for EncryptedDatabase {
    type V = EnvelopeView;

    open spec fn view(&self) -> EnvelopeView {
        EnvelopeView {
            nonce: self.encryption_params.nonce@,
            salt: self.encryption_params.salt@,
            rounds: self.encryption_params.pbkdf2_rounds,
            ciphertext: self.entries@,
        }
    }
}

/// A key that AES-256 takes: 32 bytes of UTF-8.
pub open spec fn key_fits(key: Seq<char>) -> bool {
    encode_utf8(key).len() == KEY_LENGTH
}

/// The database that `env` holds under `key`, where it holds one: an empty
/// ciphertext holds no entries; another one must authenticate under the key
/// and decrypt to a JSON list of entries.
pub open spec fn decrypted(env: EnvelopeView, key: Seq<char>) -> Option<DatabaseView> {
    if env.ciphertext.len() == 0 {
        Some(DatabaseView { rounds: env.rounds, entries: Seq::empty() })
    } else if !key_fits(key) {
        None
    } else {
        match opened(key, env.nonce, env.ciphertext) {
            None => None,
            Some(pt) => match entries_of_json(pt) {
                Some(es) => Some(DatabaseView { rounds: env.rounds, entries: es }),
                None => None,
            },
        }
    }
}

/// `env` holds `entries`, encrypted under `key` with its own nonce: the
/// ciphertext is the encryption of their JSON list, which decrypts and reads
/// back to them.
pub open spec fn sealed_with_key(env: EnvelopeView, entries: Seq<EntryView>, key: Seq<char>) -> bool {
    let pt = json_records(records_of_entries(entries));
    &&& key_fits(key)
    &&& env.ciphertext == sealed(key, env.nonce, pt)
    &&& env.ciphertext.len() == pt.len() + 16
    &&& opened(key, env.nonce, env.ciphertext) == Some(pt)
    &&& entries_of_json(pt) == Some(entries)
}

impl Default for EncryptedDatabase {
    /// A new envelope with a fresh nonce and salt, the default round count,
    /// and no ciphertext.
    fn default() -> (r: EncryptedDatabase)
        ensures
            r@.rounds == DEFAULT_ROUNDS,
            r@.ciphertext.len() == 0,
            valid_salt(r@.salt),
            r@.nonce.len() == 12,
            r@.salt.len() == 22,
            forall|p: Seq<char>, n: u32|
                (#[trigger] stretched_key(p, r@.salt, n, NEEDED_OUTPUT_LENGTH)) is Some,
    {
        EncryptedDatabase {
            encryption_params: RawDatabaseEncryptionParams {
                nonce: generate_nonce(),
                salt: random_salt(),
                pbkdf2_rounds: DEFAULT_ROUNDS,
            },
            entries: Vec::new(),
        }
    }
}

impl EncryptedDatabase {
    /// The envelope read from storage, or a new one where there is none.
    pub fn new(stored: Option<EncryptedDatabase>) -> (r: Result<EncryptedDatabase, DatabaseError>)
        ensures
            match stored {
                Some(e) => r == Ok::<EncryptedDatabase, DatabaseError>(e),
                None => r matches Ok(e) && e@.rounds == DEFAULT_ROUNDS && e@.ciphertext.len() == 0
                    && valid_salt(e@.salt),
            },
    {
        match stored {
            Some(e) => Ok(e),
            None => Ok(EncryptedDatabase::default()),
        }
    }

    /// Checks the bytes of a stored envelope before they are parsed: an empty
    /// file holds no database.
    pub fn check_file_contents(contents: &Vec<u8>) -> (r: Result<(), DatabaseError>)
        ensures
            r is Ok <==> contents@.len() > 0,
            r matches Err(e) ==> e is DatabaseDeserializationError,
    {
        if contents.len() == 0 {
            return Err(
                DatabaseError::DatabaseDeserializationError(
                    "The file read is empty, cannot read the database contents".to_owned(),
                ),
            );
        }
        Ok(())
    }

    /// Decrypts the envelope with the stretched key `secret_key`. Wrong keys
    /// and altered ciphertexts fail alike, with `DecryptError`.
    pub fn decrypt(&self, secret_key: String) -> (r: Result<Database, DatabaseError>)
        ensures
            r is Ok <==> decrypted(self@, secret_key@) is Some,
            r matches Ok(d) ==> decrypted(self@, secret_key@) == Some(d@),
            r matches Err(e) ==> (e is DecryptError <==> (!key_fits(secret_key@) || opened(
                secret_key@,
                self@.nonce,
                self@.ciphertext,
            ) is None)),
            r matches Err(e) ==> (e is DecryptError || e is DatabaseDeserializationError),
    {
        if self.entries.len() == 0 {
            let empty = Database { pbkdf2_rounds: self.encryption_params.pbkdf2_rounds, entries: Vec::new() };
            assert(empty@.entries =~= Seq::<EntryView>::empty());
            return Ok(empty);
        }
        match decrypt(&self.entries, secret_key.as_str(), &self.encryption_params.nonce) {
            Ok(raw_entries) => {
                let entries = entries_from_json(&raw_entries)?;
                Ok(Database { entries, pbkdf2_rounds: self.encryption_params.pbkdf2_rounds })
            },
            Err(_) => Err(DatabaseError::DecryptError),
        }
    }
}

impl Database {
    /// Encrypts the entries with `params` and `new_nonce` into an envelope
    /// that records the nonce, the salt and the round count.
    pub fn encrypt(&self, params: &DatabaseEncryptionParams, new_nonce: [u8; 12]) -> (r: Result<
        EncryptedDatabase,
        DatabaseError,
    >)
        ensures
            r matches Ok(env) ==> {
                &&& env@.nonce == new_nonce@
                &&& env@.salt == params.pbkdf2_salt@
                &&& env@.rounds == params.pbkdf2_rounds
                &&& sealed_with_key(env@, self@.entries, params.secret_key@)
            },
            r is Ok <==> (key_fits(params.secret_key@) && json_records(
                records_of_entries(self@.entries),
            ).len() <= PLAINTEXT_MAX),
            r matches Err(e) ==> e is EncryptError,
    {
        let entries_as_bytes = entries_to_json(&self.entries)?;
        let nonce = FixedNonce::from(new_nonce);
        match encrypt(&entries_as_bytes, params.secret_key.as_str(), &nonce) {
            Ok(raw_entries) => Ok(
                EncryptedDatabase {
                    encryption_params: RawDatabaseEncryptionParams {
                        nonce,
                        salt: params.pbkdf2_salt.clone(),
                        pbkdf2_rounds: params.pbkdf2_rounds,
                    },
                    entries: raw_entries,
                },
            ),
            Err(_) => Err(DatabaseError::EncryptError),
        }
    }
}

} // verus!
