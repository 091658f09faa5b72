//! The configuration document: the function table, the pattern lists and
//! the base directory, read from a JSON value.
use vstd::prelude::*;
use crate::registry::ConfigEntry;
use crate::visitor::strings_view;

verus! {

/// A JSON value, as far as configuration reads it.
pub enum Json {
    Null,
    Bool(bool),
    /// A number that is a non-negative integer within `u64`.
    UInt(u64),
    /// Any other number.
    OtherNumber,
    Str(String),
    Array(Vec<Json>),
    /// The members of an object, in document order.
    Object(Vec<(String, Json)>),
}

/// What file selection needs: a base directory and its patterns.
pub struct WalkerPatterns {
    pub base: String,
    pub patterns: Vec<String>,
}

/// The member `key` of a member list; a later member of the same name
/// replaces an earlier one.
pub open spec fn member_in(members: Seq<(String, Json)>, key: Seq<char>) -> Option<Json>
    decreases members.len(),
{
    if members.len() == 0 {
        None
    } else if members.last().0@ == key {
        Some(members.last().1)
    } else {
        member_in(members.drop_last(), key)
    }
}

/// The member `key` of an object; `None` for a value that is no object.
pub open spec fn json_field(v: Json, key: Seq<char>) -> Option<Json> {
    match v {
        Json::Object(members) => member_in(members@, key),
        _ => None,
    }
}

/// The member `key` as an index: present only where it is an integer that fits.
pub open spec fn json_usize(v: Json, key: Seq<char>) -> Option<usize> {
    match json_field(v, key) {
        Some(Json::UInt(n)) => if n <= usize::MAX {
            Some(n as usize)
        } else {
            None
        },
        _ => None,
    }
}

/// The string items of an array, in order; other items are left out.
pub open spec fn strings_of(items: Seq<Json>) -> Seq<Seq<char>>
    decreases items.len(),
{
    if items.len() == 0 {
        Seq::empty()
    } else {
        let front = strings_of(items.drop_last());
        match items.last() {
            Json::Str(s) => front.push(s@),
            _ => front,
        }
    }
}

/// The string items of the array member `key`; `None` where it is no array.
pub open spec fn pattern_vec(v: Json, key: Seq<char>) -> Option<Seq<Seq<char>>> {
    match json_field(v, key) {
        Some(Json::Array(items)) => Some(strings_of(items@)),
        _ => None,
    }
}

/// The string items of the array members named by `keys`, concatenated in
/// key order; `None` where one of them is missing or is no array.
pub open spec fn patterns_of(doc: Json, keys: Seq<Seq<char>>) -> Option<Seq<Seq<char>>>
    decreases keys.len(),
{
    if keys.len() == 0 {
        Some(Seq::empty())
    } else {
        match (patterns_of(doc, keys.drop_last()), pattern_vec(doc, keys.last())) {
            (Some(front), Some(last)) => Some(front + last),
            _ => None,
        }
    }
}

/// The unvalidated table entry that a member of the `functions` object gives.
pub open spec fn entry_of(member: (String, Json)) -> ConfigEntry {
    (
        member.0,
        json_usize(member.1, "text"@),
        json_usize(member.1, "context"@),
        json_usize(member.1, "plural"@),
    )
}

/// The unvalidated table entries of a member list.
pub open spec fn config_of(members: Seq<(String, Json)>) -> Seq<ConfigEntry> {
    members.map_values(|m: (String, Json)| entry_of(m))
}

/// The members of the `functions` object of a document, where it is an object.
pub open spec fn functions_of(doc: Json) -> Option<Seq<(String, Json)>> {
    match json_field(doc, "functions"@) {
        Some(Json::Object(members)) => Some(members@),
        _ => None,
    }
}

/// The member `key` of an object value.
pub fn get_field<'a>(v: &'a Json, key: &str) -> (r: Option<&'a Json>)
    ensures
        match r {
            Some(x) => json_field(*v, key@) == Some(*x),
            None => json_field(*v, key@) is None,
        },
{
    match v {
        Json::Object(members) => {
            let key: String = key.to_owned();
            let mut r: Option<&Json> = None;
            let mut i: usize = 0;
            while i < members.len()
                invariant
                    i <= members@.len(),
                    match r {
                        Some(x) => member_in(members@.take(i as int), key@) == Some(*x),
                        None => member_in(members@.take(i as int), key@) is None,
                    },
                decreases members@.len() - i,
            {
                assert(members@.take(i + 1).drop_last() =~= members@.take(i as int));
                if members[i].0 == key {
                    r = Some(&members[i].1);
                }
                i = i + 1;
            }
            assert(members@.take(i as int) =~= members@);
            r
        },
        _ => None,
    }
}

/// The member `index` of an object value as an argument position.
pub fn get_usize(value: &Json, index: &str) -> (r: Option<usize>)
    ensures
        r == json_usize(*value, index@),
{
    match get_field(value, index) {
        Some(Json::UInt(n)) => {
            if *n <= usize::MAX as u64 {
                Some(*n as usize)
            } else {
                None
            }
        },
        _ => None,
    }
}

/// The string items of the array member `key`, or `None` where the member
/// is missing or is no array.
pub fn get_pattern_vec(json: &Json, key: &str) -> (r: Option<Vec<String>>)
    ensures
        match r {
            Some(v) => pattern_vec(*json, key@) == Some(strings_view(v@)),
            None => pattern_vec(*json, key@) is None,
        },
{
    match get_field(json, key) {
        Some(Json::Array(items)) => {
            let mut out: Vec<String> = Vec::new();
            let mut i: usize = 0;
            while i < items.len()
                invariant
                    i <= items@.len(),
                    strings_view(out@) == strings_of(items@.take(i as int)),
                decreases items@.len() - i,
            {
                assert(items@.take(i + 1).drop_last() =~= items@.take(i as int));
                if let Json::Str(s) = &items[i] {
                    let ghost before = out@;
                    out.push(s.clone());
                    assert(strings_view(out@) =~= strings_view(before).push(s@));
                }
                i = i + 1;
            }
            assert(items@.take(i as int) =~= items@);
            Some(out)
        },
        _ => None,
    }
}

/// The unvalidated table entries of the members of a `functions` object.
pub fn function_entries(members: &Vec<(String, Json)>) -> (r: Vec<ConfigEntry>)
    ensures
        r@.len() == members@.len(),
        r@ == config_of(members@),
{
    let mut r: Vec<ConfigEntry> = Vec::new();
    let mut i: usize = 0;
    while i < members.len()
        invariant
            i <= members@.len(),
            r@.len() == i,
            forall|j: int| 0 <= j < i ==> (#[trigger] r@[j]) == entry_of(members@[j]),
        decreases members@.len() - i,
    {
        let v = &members[i].1;
        r.push(
            (
                members[i].0.clone(),
                get_usize(v, "text"),
                get_usize(v, "context"),
                get_usize(v, "plural"),
            ),
        );
        i = i + 1;
    }
    assert(r@ =~= config_of(members@));
    r
}

} // verus!
