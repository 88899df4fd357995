use vstd::prelude::*;

verus! {

/// What an entry holds, as mathematical values.
pub struct EntryView {
    pub name: Seq<char>,
    pub username: Seq<char>,
    pub password: Seq<char>,
    pub url: Option<Seq<char>>,
}

pub open spec fn opt_text(s: Option<String>) -> Option<Seq<char>> {
    match s {
        Some(t) => Some(t@),
        None => None,
    }
}

/// One stored login. Two entries are equal when all four fields are equal:
/// an entry has no identity beyond its contents.
#[derive(Clone, Debug)]
pub struct PasswordEntry {
    pub name: String,
    pub username: String,
    pub password: String,
    pub url: Option<String>,
}

impl View for PasswordEntry {
    type V = EntryView;

    open spec fn view(&self) -> EntryView {
        EntryView {
            name: self.name@,
            username: self.username@,
            password: self.password@,
            url: opt_text(self.url),
        }
    }
}

fn same_url(a: &Option<String>, b: &Option<String>) -> (r: bool)
    ensures
        r == (opt_text(*a) == opt_text(*b)),
{
    match (a, b) {
        (Some(x), Some(y)) => *x == *y,
        (None, None) => true,
        _ => false,
    }
}

impl PartialEq for PasswordEntry {
    fn eq(&self, other: &PasswordEntry) -> (r: bool) {
        self.name == other.name && self.username == other.username && self.password
            == other.password && same_url(&self.url, &other.url)
    }
}

impl vstd::std_specs::cmp::PartialEqSpecImpl for PasswordEntry {
    open spec fn obeys_eq_spec() -> bool {
        true
    }

    open spec fn eq_spec(&self, other: &PasswordEntry) -> bool {
        self@ == other@
    }
}

} // verus!
