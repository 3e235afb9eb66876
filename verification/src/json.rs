//! JSON documents as plain values.

use vstd::prelude::*;
use vstd::string::*;

use crate::text::{opt_view, same_text};

verus! {

broadcast use vstd::string::group_string_axioms;

/// A JSON document. A number is held as far as it is an integer that fits.
#[derive(PartialEq, Eq, Debug)]
pub enum Json {
    Null,
    Flag(bool),
    Number { signed: Option<i64>, unsigned: Option<u64> },
    Text(String),
    List(Vec<Json>),
    Object(Vec<(String, Json)>),
}

// ---------------------------------------------------------------------------
// The serde_json crate
// ---------------------------------------------------------------------------

/// serde_json's own documents.
#[verifier::external_type_specification]
#[verifier::external_body]
pub struct ExJsonValue(serde_json::Value);

/// What a document of serde_json's holds.
pub uninterp spec fn contents(value: serde_json::Value) -> Json;

/// The document that bytes write, as `serde_json::from_slice` reads them, or what is wrong
/// with them.
pub uninterp spec fn json_document(bytes: Seq<u8>) -> Result<Json, Seq<char>>;

/// The document that a text writes, as `serde_json::from_str` reads it, or what is wrong
/// with it.
pub uninterp spec fn json_text(text: Seq<char>) -> Result<Json, Seq<char>>;

/// Reads bytes with `serde_json::from_slice` into a `serde_json::Value`; an error is handed
/// on as its text. The outcome is a function of the bytes alone; nothing more is claimed of
/// serde_json's grammar.
#[verifier::external_body]
fn parse_bytes(bytes: &[u8]) -> (result: Result<serde_json::Value, String>)
    ensures
        match result {
            Ok(value) => json_document(bytes@) == Ok::<Json, Seq<char>>(contents(value)),
            Err(reason) => json_document(bytes@) == Err::<Json, Seq<char>>(reason@),
        },
{
    serde_json::from_slice::<serde_json::Value>(bytes).map_err(|error| error.to_string())
}

/// Reads a text with `serde_json::from_str` into a `serde_json::Value`; an error is handed
/// on as its text. The outcome is a function of the text alone, and the text `{}` is an
/// object without members. Nothing more is claimed of serde_json's grammar.
#[verifier::external_body]
fn parse_text(text: &str) -> (result: Result<serde_json::Value, String>)
    ensures
        match result {
            Ok(value) => json_text(text@) == Ok::<Json, Seq<char>>(contents(value)),
            Err(reason) => json_text(text@) == Err::<Json, Seq<char>>(reason@),
        },
        text@ == "{}"@ ==> result is Ok && contents(result->Ok_0) is Object && contents(
            result->Ok_0,
        )->Object_0@.len() == 0,
{
    serde_json::from_str::<serde_json::Value>(text).map_err(|error| error.to_string())
}

/// Takes a `serde_json::Value` apart, variant for variant. What it holds is a function of
/// the value alone: a list keeps its items, an object its members, and a number is what
/// `Number::as_i64` and `Number::as_u64` make of it.
#[verifier::external_body]
fn plain(value: serde_json::Value) -> (json: Json)
    ensures
        json == contents(value),
{
    match value {
        serde_json::Value::Null => Json::Null,
        serde_json::Value::Bool(flag) => Json::Flag(flag),
        serde_json::Value::Number(n) => Json::Number { signed: n.as_i64(), unsigned: n.as_u64() },
        serde_json::Value::String(text) => Json::Text(text),
        serde_json::Value::Array(items) => Json::List(items.into_iter().map(plain).collect()),
        serde_json::Value::Object(members) => {
            Json::Object(members.into_iter().map(|(key, value)| (key, plain(value))).collect())
        }
    }
}

/// Reads the JSON document that bytes write.
pub fn read_json(bytes: &[u8]) -> (result: Result<Json, String>)
    ensures
        match result {
            Ok(json) => json_document(bytes@) == Ok::<Json, Seq<char>>(json),
            Err(reason) => json_document(bytes@) == Err::<Json, Seq<char>>(reason@),
        },
{
    match parse_bytes(bytes) {
        Ok(value) => Ok(plain(value)),
        Err(reason) => Err(reason),
    }
}

/// Reads the JSON document that a text writes.
pub fn read_json_text(text: &str) -> (result: Result<Json, String>)
    ensures
        match result {
            Ok(json) => json_text(text@) == Ok::<Json, Seq<char>>(json),
            Err(reason) => json_text(text@) == Err::<Json, Seq<char>>(reason@),
        },
        text@ == "{}"@ ==> (result matches Ok(Json::Object(members)) && members@.len() == 0),
{
    match parse_text(text) {
        Ok(value) => Ok(plain(value)),
        Err(reason) => Err(reason),
    }
}

// ---------------------------------------------------------------------------
// Looking into a document
// ---------------------------------------------------------------------------

/// The first member of a name.
pub open spec fn member_in(members: Seq<(String, Json)>, key: Seq<char>) -> Option<Json>
    decreases members.len(),
{
    if members.len() == 0 {
        None
    } else if members[0].0@ == key {
        Some(members[0].1)
    } else {
        member_in(members.drop_first(), key)
    }
}

/// The member of a name, where the document is an object that has it.
pub open spec fn member(json: Json, key: Seq<char>) -> Option<Json> {
    match json {
        Json::Object(members) => member_in(members@, key),
        _ => None,
    }
}

/// The flag under a name.
pub open spec fn flag_at(json: Json, key: Seq<char>) -> Option<bool> {
    match member(json, key) {
        Some(Json::Flag(flag)) => Some(flag),
        _ => None,
    }
}

/// The number under a name, where it is an integer that fits with its sign.
pub open spec fn signed_at(json: Json, key: Seq<char>) -> Option<i64> {
    match member(json, key) {
        Some(Json::Number { signed, .. }) => signed,
        _ => None,
    }
}

/// The number under a name, where it is an integer that fits without a sign.
pub open spec fn unsigned_at(json: Json, key: Seq<char>) -> Option<u64> {
    match member(json, key) {
        Some(Json::Number { unsigned, .. }) => unsigned,
        _ => None,
    }
}

/// The text under a name.
pub open spec fn text_at(json: Json, key: Seq<char>) -> Option<Seq<char>> {
    match member(json, key) {
        Some(Json::Text(text)) => Some(text@),
        _ => None,
    }
}

/// The text under a name below another.
pub open spec fn text_below(json: Json, outer: Seq<char>, key: Seq<char>) -> Option<Seq<char>> {
    match member(json, outer) {
        Some(inner) => text_at(inner, key),
        None => None,
    }
}

impl Json {
    /// The member of a name, where the document is an object that has it.
    pub fn member(&self, key: &str) -> (result: Option<&Json>)
        ensures
            match result {
                Some(found) => member(*self, key@) == Some(*found),
                None => member(*self, key@) is None,
            },
    {
        let members = match self {
            Json::Object(members) => members,
            _ => {
                return None;
            },
        };
        let mut i: usize = 0;
        assert(members@.skip(0) =~= members@);
        while i < members.len()
            invariant
                i <= members@.len(),
                member(*self, key@) == member_in(members@.skip(i as int), key@),
            decreases members@.len() - i,
        {
            assert(members@.skip(i as int)[0] == members@[i as int]);
            assert(members@.skip(i as int).drop_first() =~= members@.skip(i + 1));
            if same_text(members[i].0.as_str(), key) {
                return Some(&members[i].1);
            }
            i += 1;
        }
        None
    }

    /// The flag under a name.
    pub fn flag_at(&self, key: &str) -> (result: Option<bool>)
        ensures
            result == flag_at(*self, key@),
    {
        match self.member(key) {
            Some(Json::Flag(flag)) => Some(*flag),
            _ => None,
        }
    }

    /// The number under a name, where it is an integer that fits with its sign.
    pub fn signed_at(&self, key: &str) -> (result: Option<i64>)
        ensures
            result == signed_at(*self, key@),
    {
        match self.member(key) {
            Some(Json::Number { signed, .. }) => *signed,
            _ => None,
        }
    }

    /// The number under a name, where it is an integer that fits without a sign.
    pub fn unsigned_at(&self, key: &str) -> (result: Option<u64>)
        ensures
            result == unsigned_at(*self, key@),
    {
        match self.member(key) {
            Some(Json::Number { unsigned, .. }) => *unsigned,
            _ => None,
        }
    }

    /// The text under a name.
    pub fn text_at(&self, key: &str) -> (result: Option<String>)
        ensures
            opt_view(result) == text_at(*self, key@),
    {
        match self.member(key) {
            Some(Json::Text(text)) => Some(text.clone()),
            _ => None,
        }
    }

    /// The text under a name below another.
    pub fn text_below(&self, outer: &str, key: &str) -> (result: Option<String>)
        ensures
            opt_view(result) == text_below(*self, outer@, key@),
    {
        match self.member(outer) {
            Some(inner) => inner.text_at(key),
            None => None,
        }
    }
}

/// A key names the first member that has it, and nothing where no member has it.
pub proof fn keys_name_the_first_member(members: Seq<(String, Json)>, key: Seq<char>)
    ensures
        match member_in(members, key) {
            Some(found) => exists|i: int|
                0 <= i < members.len() && (#[trigger] members[i]).0@ == key && members[i].1
                    == found && forall|j: int| 0 <= j < i ==> (#[trigger] members[j]).0@ != key,
            None => forall|i: int| 0 <= i < members.len() ==> (#[trigger] members[i]).0@ != key,
        },
    decreases members.len(),
{
    if members.len() > 0 && members[0].0@ != key {
        let rest = members.drop_first();
        keys_name_the_first_member(rest, key);
        match member_in(rest, key) {
            Some(found) => {
                let i = choose|i: int|
                    0 <= i < rest.len() && (#[trigger] rest[i]).0@ == key && rest[i].1 == found
                        && forall|j: int| 0 <= j < i ==> (#[trigger] rest[j]).0@ != key;
                assert(members[i + 1] == rest[i]);
                assert forall|j: int| 0 <= j < i + 1 implies (#[trigger] members[j]).0@ != key by {
                    if j > 0 {
                        assert(members[j] == rest[j - 1]);
                    }
                }
            },
            None => {
                assert forall|i: int| 0 <= i < members.len() implies (#[trigger] members[i]).0@
                    != key by {
                    if i > 0 {
                        assert(members[i] == rest[i - 1]);
                    }
                }
            },
        }
    }
}

/// A value is found under its key where it is of the kind that is asked for.
pub proof fn values_are_found_under_their_keys(json: Json, key: Seq<char>)
    ensures
        forall|b: bool| flag_at(json, key) == Some(b) <==> member(json, key) == Some(Json::Flag(b)),
        match member(json, key) {
            Some(Json::Text(s)) => text_at(json, key) == Some(s@),
            _ => text_at(json, key) is None,
        },
        signed_at(json, key) is Some ==> member(json, key) matches Some(Json::Number { .. }),
        unsigned_at(json, key) is Some ==> member(json, key) matches Some(Json::Number { .. }),
        member(json, key) is Some ==> json is Object,
{
}

} // verus!
