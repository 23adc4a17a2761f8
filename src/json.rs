use vstd::prelude::*;

verus! {

/// A JSON number, held as plain values.
#[derive(Debug)]
pub enum JsonNumber {
    /// An integer that fits in `i64`.
    Int(i64),
    /// A non-negative integer above `i64::MAX`.
    UInt(u64),
    /// A floating-point number, held as its decimal text.
    Float(String),
}

/// A decoded JSON document.
///
/// An object keeps its members in document order; where a name occurs more
/// than once, the last occurrence is the one that counts.
#[derive(Debug)]
pub enum JsonValue {
    Null,
    Bool(bool),
    Number(JsonNumber),
    Str(String),
    Array(Vec<JsonValue>),
    Object(Vec<(String, JsonValue)>),
}

/// The value that `entries` holds under `key`: its last occurrence, if any.
pub open spec fn lookup(entries: Seq<(String, JsonValue)>, key: Seq<char>) -> Option<JsonValue>
    decreases entries.len(),
{
    if entries.len() == 0 {
        None
    } else if entries.last().0@ == key {
        Some(entries.last().1)
    } else {
        lookup(entries.drop_last(), key)
    }
}

/// What `value[key]` reads: the member of an object, or `Null` where the
/// value is no object or has no such member.
pub open spec fn member(value: JsonValue, key: Seq<char>) -> JsonValue {
    match value {
        JsonValue::Object(entries) => match lookup(entries@, key) {
            Some(v) => v,
            None => JsonValue::Null,
        },
        _ => JsonValue::Null,
    }
}

/// Index of the last member of `entries` named `key`.
pub fn find_member(entries: &Vec<(String, JsonValue)>, key: &String) -> (r: Option<usize>)
    ensures
        match r {
            Some(i) => i < entries.len() && lookup(entries@, key@) == Some(entries@[i as int].1),
            None => lookup(entries@, key@) is None,
        },
{
    let mut i: usize = entries.len();
    assert(entries@.subrange(0, i as int) =~= entries@);
    while i > 0
        invariant
            i <= entries.len(),
            lookup(entries@, key@) == lookup(entries@.subrange(0, i as int), key@),
        decreases i,
    {
        let ghost prefix = entries@.subrange(0, i as int);
        assert(prefix.drop_last() =~= entries@.subrange(0, i - 1));
        if entries[i - 1].0 == *key {
            return Some(i - 1);
        }
        i = i - 1;
    }
    assert(entries@.subrange(0, 0).len() == 0);
    None
}

/// The member of `value` named `key`, or `None` where `value[key]` reads `Null`
/// for want of one.
pub fn get_member<'a>(value: &'a JsonValue, key: &String) -> (r: Option<&'a JsonValue>)
    ensures
        match r {
            Some(v) => *v == member(*value, key@),
            None => member(*value, key@) == JsonValue::Null,
        },
{
    match value {
        JsonValue::Object(entries) => match find_member(entries, key) {
            Some(i) => Some(&entries[i].1),
            None => None,
        },
        _ => None,
    }
}

} // verus!
