use vstd::prelude::*;

use std::collections::BTreeMap;

use crate::database::DatabaseError;
use crate::entry::{opt_text, EntryView, PasswordEntry};

verus! {

#[verifier::external_type_specification]
#[verifier::external_body]
pub struct ExJsonError(serde_json::Error);

/// A JSON object whose values are strings or null, as written by serde_json.
pub type Record = Map<Seq<char>, Option<Seq<char>>>;

/// The object that a list of key/value pairs denotes: a later pair wins over
/// an earlier one with the same key.
pub open spec fn record_map(pairs: Seq<(String, Option<String>)>) -> Record
    decreases pairs.len(),
{
    if pairs.len() == 0 {
        Map::empty()
    } else {
        record_map(pairs.drop_last()).insert(pairs.last().0@, opt_text(pairs.last().1))
    }
}

pub open spec fn records_view(v: Seq<Vec<(String, Option<String>)>>) -> Seq<Record> {
    v.map_values(|r: Vec<(String, Option<String>)>| record_map(r@))
}

/// The bytes that serde_json writes for a list of such objects.
pub uninterp spec fn json_records(records: Seq<Record>) -> Seq<u8>;

/// The list of such objects that serde_json reads from `bytes`, if it reads one.
pub uninterp spec fn parsed_records(bytes: Seq<u8>) -> Option<Seq<Record>>;

/// No two pairs of `pairs` have the same key.
pub open spec fn distinct_keys(pairs: Seq<(String, Option<String>)>) -> bool {
    forall|i: int, j: int|
        0 <= i < j < pairs.len() ==> (#[trigger] pairs[i]).0@ != (#[trigger] pairs[j]).0@
}

/// Relies on std's `BTreeMap::from_iter`, which keeps every pair of a list
/// whose keys are distinct, and on serde_json's `to_vec` on a
/// `Vec<BTreeMap<&String, &Option<String>>>`: writing strings, nulls and
/// string-keyed maps into a `Vec` meets no error; the output depends on the
/// objects alone, and serde_json's `from_slice` reads the same objects back.
#[verifier::external_body]
fn records_to_json(records: &Vec<Vec<(String, Option<String>)>>) -> (r: Result<
    Vec<u8>,
    serde_json::Error,
>)
    requires
        forall|i: int| 0 <= i < records@.len() ==> distinct_keys(#[trigger] records@[i]@),
    ensures
        r is Ok,
        r matches Ok(b) ==> b@ == json_records(records_view(records@)) && parsed_records(b@) == Some(
            records_view(records@),
        ),
{
    let maps: Vec<BTreeMap<&String, &Option<String>>> = records.iter().map(
        |r| r.iter().map(|(k, v)| (k, v)).collect(),
    ).collect();
    serde_json::to_vec(&maps)
}

/// Relies on serde_json's `from_slice` into a `Vec<BTreeMap<String, Option<String>>>`:
/// its outcome depends on the bytes alone.
#[verifier::external_body]
fn json_to_records(bytes: &[u8]) -> (r: Result<Vec<Vec<(String, Option<String>)>>, serde_json::Error>)
    ensures
        match parsed_records(bytes@) {
            Some(m) => r matches Ok(v) && records_view(v@) == m,
            None => r is Err,
        },
{
    let maps: Vec<BTreeMap<String, Option<String>>> = serde_json::from_slice(bytes)?;
    Ok(maps.into_iter().map(|m| m.into_iter().collect()).collect())
}

/// Relies on the `Display` impl of `serde_json::Error`, for a message.
#[verifier::external_body]
fn json_error_text(e: &serde_json::Error) -> (r: String) {
    e.to_string()
}

/// The JSON object that stores an entry.
pub open spec fn entry_record(e: EntryView) -> Record {
    Map::empty().insert("name"@, Some(e.name)).insert("username"@, Some(e.username)).insert(
        "password"@,
        Some(e.password),
    ).insert("url"@, e.url)
}

pub open spec fn text_field(m: Record, key: Seq<char>) -> bool {
    m.contains_key(key) && m[key] is Some
}

/// The entry that a JSON object stores: name, username and password must be
/// strings; a missing or null url is none.
pub open spec fn entry_of_record(m: Record) -> Option<EntryView> {
    if text_field(m, "name"@) && text_field(m, "username"@) && text_field(m, "password"@) {
        Some(
            EntryView {
                name: m["name"@]->Some_0,
                username: m["username"@]->Some_0,
                password: m["password"@]->Some_0,
                url: if m.contains_key("url"@) {
                    m["url"@]
                } else {
                    None
                },
            },
        )
    } else {
        None
    }
}

pub open spec fn records_of_entries(es: Seq<EntryView>) -> Seq<Record> {
    es.map_values(|e: EntryView| entry_record(e))
}

pub open spec fn entries_of_records(rs: Seq<Record>) -> Option<Seq<EntryView>> {
    if forall|i: int| 0 <= i < rs.len() ==> (#[trigger] entry_of_record(rs[i])) is Some {
        Some(rs.map_values(|m: Record| entry_of_record(m)->Some_0))
    } else {
        None
    }
}

/// The entries that `bytes` holds as a JSON list of entry objects, if any.
pub open spec fn entries_of_json(bytes: Seq<u8>) -> Option<Seq<EntryView>> {
    match parsed_records(bytes) {
        Some(rs) => entries_of_records(rs),
        None => None,
    }
}

proof fn lemma_field_names_distinct()
    ensures
        "name"@ != "username"@,
        "name"@ != "password"@,
        "name"@ != "url"@,
        "username"@ != "password"@,
        "username"@ != "url"@,
        "password"@ != "url"@,
{
    reveal_strlit("name");
    reveal_strlit("username");
    reveal_strlit("password");
    reveal_strlit("url");
    assert("username"@[0] != "password"@[0]);
    assert("name"@.len() != "url"@.len());
    assert("username"@.len() != "url"@.len());
}

/// Reading back the object of an entry gives the entry.
pub proof fn lemma_entry_record(e: EntryView)
    ensures
        entry_of_record(entry_record(e)) == Some(e),
{
    lemma_field_names_distinct();
}

/// Reading back the objects of a list of entries gives the list.
pub proof fn lemma_entries_records(es: Seq<EntryView>)
    ensures
        entries_of_records(records_of_entries(es)) == Some(es),
{
    let rs = records_of_entries(es);
    assert forall|i: int| 0 <= i < rs.len() implies (#[trigger] entry_of_record(rs[i])) is Some by {
        lemma_entry_record(es[i]);
    }
    assert forall|i: int| 0 <= i < es.len() implies entry_of_record(rs[i])->Some_0 == es[i] by {
        lemma_entry_record(es[i]);
    }
    assert(rs.map_values(|m: Record| entry_of_record(m)->Some_0) =~= es);
}

fn copy_text(v: &Option<String>) -> (r: Option<String>)
    ensures
        opt_text(r) == opt_text(*v),
{
    match v {
        Some(s) => Some(s.clone()),
        None => None,
    }
}

/// The value under `key` in `record`, where the last pair with that key wins.
fn lookup(record: &Vec<(String, Option<String>)>, key: &String) -> (r: Option<Option<String>>)
    ensures
        match r {
            Some(v) => record_map(record@).contains_key(key@) && record_map(record@)[key@]
                == opt_text(v),
            None => !record_map(record@).contains_key(key@),
        },
{
    let mut found: Option<Option<String>> = None;
    let mut i: usize = 0;
    while i < record.len()
        invariant
            i <= record@.len(),
            match found {
                Some(v) => record_map(record@.subrange(0, i as int)).contains_key(key@)
                    && record_map(record@.subrange(0, i as int))[key@] == opt_text(v),
                None => !record_map(record@.subrange(0, i as int)).contains_key(key@),
            },
        decreases record@.len() - i,
    {
        assert(record@.subrange(0, i as int + 1).drop_last() =~= record@.subrange(0, i as int));
        if record[i].0 == *key {
            found = Some(copy_text(&record[i].1));
        }
        i = i + 1;
    }
    assert(record@.subrange(0, record@.len() as int) =~= record@);
    found
}

fn text_of(v: Option<Option<String>>) -> (r: Option<String>)
    ensures
        r matches Some(s) <==> v matches Some(Some(_)),
        r matches Some(s) ==> v matches Some(Some(t)) && s@ == t@,
{
    match v {
        Some(Some(s)) => Some(s),
        _ => None,
    }
}

fn entry_from_record(record: &Vec<(String, Option<String>)>) -> (r: Option<PasswordEntry>)
    ensures
        match entry_of_record(record_map(record@)) {
            Some(e) => r matches Some(x) && x@ == e,
            None => r is None,
        },
{
    let name = text_of(lookup(record, &"name".to_owned()));
    let username = text_of(lookup(record, &"username".to_owned()));
    let password = text_of(lookup(record, &"password".to_owned()));
    let url = match lookup(record, &"url".to_owned()) {
        Some(v) => v,
        None => None,
    };
    match (name, username, password) {
        (Some(name), Some(username), Some(password)) => Some(
            PasswordEntry { name, username, password, url },
        ),
        _ => None,
    }
}

fn record_from_entry(e: &PasswordEntry) -> (r: Vec<(String, Option<String>)>)
    ensures
        record_map(r@) == entry_record(e@),
        distinct_keys(r@),
{
    let mut r: Vec<(String, Option<String>)> = Vec::new();
    r.push(("name".to_owned(), Some(e.name.clone())));
    r.push(("username".to_owned(), Some(e.username.clone())));
    r.push(("password".to_owned(), Some(e.password.clone())));
    r.push(("url".to_owned(), copy_text(&e.url)));
    let ghost s1 = r@.subrange(0, 1);
    let ghost s2 = r@.subrange(0, 2);
    let ghost s3 = r@.subrange(0, 3);
    assert(s1.drop_last() =~= Seq::<(String, Option<String>)>::empty());
    assert(record_map(s1.drop_last()) == Map::<Seq<char>, Option<Seq<char>>>::empty());
    assert(s1.last() == r@[0]);
    assert(s2.last() == r@[1]);
    assert(s3.last() == r@[2]);
    assert(s2.drop_last() =~= s1);
    assert(s3.drop_last() =~= s2);
    assert(r@.drop_last() =~= s3);
    assert(record_map(s1) == Map::<Seq<char>, Option<Seq<char>>>::empty().insert("name"@, Some(e.name@)));
    assert(record_map(s2) == record_map(s1).insert("username"@, Some(e.username@)));
    assert(record_map(s3) == record_map(s2).insert("password"@, Some(e.password@)));
    assert(record_map(r@) == record_map(s3).insert("url"@, opt_text(e.url)));
    proof {
        lemma_field_names_distinct();
        assert(r@[0].0@ == "name"@);
        assert(r@[1].0@ == "username"@);
        assert(r@[2].0@ == "password"@);
        assert(r@[3].0@ == "url"@);
        assert(r@.len() == 4);
    }
    r
}

/// The JSON list of `entries`, one object per entry, in order.
pub fn entries_to_json(entries: &Vec<PasswordEntry>) -> (r: Result<Vec<u8>, DatabaseError>)
    ensures
        ({
            let es = entries@.map_values(|e: PasswordEntry| e@);
            r matches Ok(b) ==> b@ == json_records(records_of_entries(es)) && entries_of_json(b@)
                == Some(es)
        }),
        r is Ok,
{
    let ghost es = entries@.map_values(|e: PasswordEntry| e@);
    let mut records: Vec<Vec<(String, Option<String>)>> = Vec::new();
    let mut i: usize = 0;
    while i < entries.len()
        invariant
            i <= entries@.len(),
            records_view(records@) =~= records_of_entries(es.subrange(0, i as int)),
            es == entries@.map_values(|e: PasswordEntry| e@),
            records@.len() == i,
            forall|j: int| 0 <= j < records@.len() ==> distinct_keys(#[trigger] records@[j]@),
        decreases entries@.len() - i,
    {
        let rec = record_from_entry(&entries[i]);
        let ghost before = records@;
        records.push(rec);
        proof {
            assert(records@ =~= before.push(rec));
            assert(records_view(records@) =~= records_view(before).push(record_map(rec@)));
            assert(es.subrange(0, i as int + 1) =~= es.subrange(0, i as int).push(es[i as int]));
        }
        i = i + 1;
    }
    assert(es.subrange(0, entries@.len() as int) =~= es);
    match records_to_json(&records) {
        Ok(b) => {
            proof {
                lemma_entries_records(es);
            }
            Ok(b)
        },
        Err(e) => Err(DatabaseError::DatabaseSerializationError(json_error_text(&e))),
    }
}

/// The entries that `bytes` holds as a JSON list of entry objects.
pub fn entries_from_json(bytes: &Vec<u8>) -> (r: Result<Vec<PasswordEntry>, DatabaseError>)
    ensures
        match entries_of_json(bytes@) {
            Some(es) => r matches Ok(v) && v@.map_values(|e: PasswordEntry| e@) == es,
            None => r matches Err(e) && e is DatabaseDeserializationError,
        },
{
    let parsed = json_to_records(bytes.as_slice());
    let records = match parsed {
        Ok(v) => v,
        Err(e) => {
            return Err(DatabaseError::DatabaseDeserializationError(json_error_text(&e)));
        },
    };
    assert(parsed_records(bytes@) == Some(records_view(records@)));
    let ghost rs = records_view(records@);
    let mut entries: Vec<PasswordEntry> = Vec::new();
    let mut i: usize = 0;
    while i < records.len()
        invariant
            i <= records@.len(),
            rs == records_view(records@),
            parsed_records(bytes@) == Some(rs),
            forall|j: int| 0 <= j < i ==> (#[trigger] entry_of_record(rs[j])) is Some,
            entries@.len() == i,
            forall|j: int|
                0 <= j < i ==> entry_of_record(rs[j]) == Some(#[trigger] entries@[j]@),
        decreases records@.len() - i,
    {
        assert(rs[i as int] == record_map(records@[i as int]@));
        match entry_from_record(&records[i]) {
            Some(e) => {
                entries.push(e);
            },
            None => {
                assert(entry_of_record(rs[i as int]) is None);
                return Err(
                    DatabaseError::DatabaseDeserializationError(
                        "an entry lacks a name, username or password".to_owned(),
                    ),
                );
            },
        }
        i = i + 1;
    }
    assert(entries@.map_values(|e: PasswordEntry| e@) =~= rs.map_values(
        |m: Record| entry_of_record(m)->Some_0,
    ));
    Ok(entries)
}

} // verus!
