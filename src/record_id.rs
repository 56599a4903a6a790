use vstd::prelude::*;
use vstd::string::*;

use crate::text::{decimal, signed_text};

verus! {

/// The key of a record identifier. Keys other than numbers and strings
/// (identifiers, arrays, objects) arrive already rendered as text.
#[derive(Debug)]
pub enum RecordKey {
    Number(i64),
    Text(String),
    Rendered(String),
}

/// A record identifier: the table and the key within it.
#[derive(Debug)]
pub struct RecordRef {
    pub table: String,
    pub key: RecordKey,
}

/// The text of a key: a number in decimal, a string or a rendered key as it is.
pub open spec fn key_text(key: RecordKey) -> Seq<char> {
    match key {
        RecordKey::Number(n) => decimal(n as int),
        RecordKey::Text(s) => s@,
        RecordKey::Rendered(s) => s@,
    }
}

fn format_key(key: &RecordKey) -> (r: String)
    ensures
        r@ == key_text(*key),
{
    match key {
        RecordKey::Number(n) => signed_text(*n),
        RecordKey::Text(s) => String::from_str(s.as_str()),
        RecordKey::Rendered(s) => String::from_str(s.as_str()),
    }
}

impl RecordRef {
    /// The identifier as "table:key".
    pub fn to_raw_string(&self) -> (r: String)
        ensures
            r@ == self.table@ + ":"@ + key_text(self.key),
    {
        let mut r = String::from_str(self.table.as_str());
        r.append(":");
        r.append(format_key(&self.key).as_str());
        r
    }

    /// The key alone, as text.
    pub fn key_string(&self) -> (r: String)
        ensures
            r@ == key_text(self.key),
    {
        format_key(&self.key)
    }
}

} // verus!
