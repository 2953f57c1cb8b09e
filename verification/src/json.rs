//! JSON documents as plain values: what the client reads from and writes
//! to Elasticsearch and DuckDB.
use vstd::prelude::*;
use crate::text::str_eq;

verus! {

/// A JSON number as it is held: a non-negative integer, a negative
/// integer, or a floating-point value given by its IEEE-754 bits.
#[derive(Debug, Clone, Copy, PartialEq, Eq, Structural)]
pub enum JsonNumber {
    PosInt(u64),
    NegInt(i64),
    Float(u64),
}

impl JsonNumber {
    /// The number as an unsigned integer, when it is one.
    pub fn as_u64(&self) -> (r: Option<u64>)
        ensures
            r == (match *self {
                JsonNumber::PosInt(n) => Some(n),
                _ => None::<u64>,
            }),
    {
        match *self {
            JsonNumber::PosInt(n) => Some(n),
            _ => None,
        }
    }

    /// The number as a signed integer, when it is an integer that fits.
    pub fn as_i64(&self) -> (r: Option<i64>)
        ensures
            r == (match *self {
                JsonNumber::PosInt(n) => if n <= i64::MAX as u64 { Some(n as i64) } else { None::<i64> },
                JsonNumber::NegInt(n) => Some(n),
                JsonNumber::Float(_) => None::<i64>,
            }),
    {
        match *self {
            JsonNumber::PosInt(n) => if n <= 9223372036854775807u64 { Some(n as i64) } else { None },
            JsonNumber::NegInt(n) => Some(n),
            JsonNumber::Float(_) => None,
        }
    }

    /// Whether the number is a floating-point value.
    pub fn is_f64(&self) -> (r: bool)
        ensures
            r == (*self is Float),
    {
        match *self {
            JsonNumber::Float(_) => true,
            _ => false,
        }
    }
}

/// A JSON value. An object is a list of entries in their order.
#[derive(Debug)]
pub enum JsonValue {
    Null,
    Bool(bool),
    Number(JsonNumber),
    String(String),
    Array(Vec<JsonValue>),
    Object(Vec<(String, JsonValue)>),
}

/// The value of the first entry with the key, if any.
pub open spec fn entries_get(entries: Seq<(String, JsonValue)>, key: Seq<char>) -> Option<JsonValue>
    decreases entries.len(),
{
    if entries.len() == 0 {
        None
    } else if entries[0].0@ == key {
        Some(entries[0].1)
    } else {
        entries_get(entries.drop_first(), key)
    }
}

/// The value under a key of an object, or `Null` when the value is not an
/// object or has no such key (as indexing a JSON value by a key does).
pub open spec fn field_spec(v: JsonValue, key: Seq<char>) -> JsonValue {
    match v {
        JsonValue::Object(entries) => match entries_get(entries@, key) {
            Some(x) => x,
            None => JsonValue::Null,
        },
        _ => JsonValue::Null,
    }
}

/// The keys of object entries, in order.
pub open spec fn entry_keys(entries: Seq<(String, JsonValue)>) -> Seq<Seq<char>> {
    Seq::new(entries.len(), |i: int| entries[i].0@)
}

/// `entries_get` finds the first entry of the key.
pub proof fn lemma_entries_get_at(entries: Seq<(String, JsonValue)>, key: Seq<char>, i: int)
    requires
        0 <= i < entries.len(),
        entries[i].0@ == key,
        forall|j: int| 0 <= j < i ==> (#[trigger] entries[j]).0@ != key,
    ensures
        entries_get(entries, key) == Some(entries[i].1),
    decreases i,
{
    if i > 0 {
        assert forall|j: int| 0 <= j < i - 1 implies (#[trigger] entries.drop_first()[j]).0@ != key by {
            assert(entries.drop_first()[j] == entries[j + 1]);
        }
        lemma_entries_get_at(entries.drop_first(), key, i - 1);
    }
}

/// `entries_get` finds nothing when no entry has the key.
pub proof fn lemma_entries_get_none(entries: Seq<(String, JsonValue)>, key: Seq<char>)
    requires
        forall|j: int| 0 <= j < entries.len() ==> (#[trigger] entries[j]).0@ != key,
    ensures
        entries_get(entries, key) is None,
    decreases entries.len(),
{
    if entries.len() > 0 {
        assert forall|j: int| 0 <= j < entries.len() - 1 implies (#[trigger] entries.drop_first()[j]).0@ != key by {
            assert(entries.drop_first()[j] == entries[j + 1]);
        }
        lemma_entries_get_none(entries.drop_first(), key);
    }
}

/// `entries_get` after replacing the value at index `i`.
pub proof fn lemma_entries_get_update(entries: Seq<(String, JsonValue)>, i: int, e: (String, JsonValue), key: Seq<char>)
    requires
        0 <= i < entries.len(),
        e.0@ == entries[i].0@,
    ensures
        entries_get(entries.update(i, e), key) == (if entries[i].0@ == key && (forall|j: int| 0 <= j < i ==> (#[trigger] entries[j]).0@ != key) {
            Some(e.1)
        } else {
            entries_get(entries, key)
        }),
    decreases i,
{
    if i == 0 {
        assert(entries.update(i, e).drop_first() =~= entries.drop_first());
    } else {
        assert(entries.update(i, e).drop_first() =~= entries.drop_first().update(i - 1, e));
        lemma_entries_get_update(entries.drop_first(), i - 1, e, key);
        if entries[0].0@ != key {
            if entries[i].0@ == key && (forall|j: int| 0 <= j < i - 1 ==> (#[trigger] entries.drop_first()[j]).0@ != key) {
                assert forall|j: int| 0 <= j < i implies (#[trigger] entries[j]).0@ != key by {
                    if j > 0 {
                        assert(entries[j] == entries.drop_first()[j - 1]);
                    }
                }
            }
            if entries[i].0@ == key && (forall|j: int| 0 <= j < i ==> (#[trigger] entries[j]).0@ != key) {
                assert forall|j: int| 0 <= j < i - 1 implies (#[trigger] entries.drop_first()[j]).0@ != key by {
                    assert(entries[j + 1] == entries.drop_first()[j]);
                }
            }
        }
    }
}

/// `entries_get` after appending an entry.
pub proof fn lemma_entries_get_push(entries: Seq<(String, JsonValue)>, e: (String, JsonValue), key: Seq<char>)
    ensures
        entries_get(entries.push(e), key) == (if entries_get(entries, key) is Some {
            entries_get(entries, key)
        } else if e.0@ == key {
            Some(e.1)
        } else {
            None::<JsonValue>
        }),
    decreases entries.len(),
{
    if entries.len() == 0 {
        assert(entries.push(e).drop_first() =~= Seq::<(String, JsonValue)>::empty());
        assert(entries.push(e)[0] == e);
        assert(entries_get(entries.push(e).drop_first(), key) is None);
    } else {
        assert(entries.push(e)[0] == entries[0]);
        assert(entries.push(e).drop_first() =~= entries.drop_first().push(e));
        lemma_entries_get_push(entries.drop_first(), e, key);
    }
}

/// Sets the value under `key` in object entries: the first entry of the
/// key gets the value, or a new entry is appended when there is none.
pub fn object_insert(entries: &mut Vec<(String, JsonValue)>, key: String, value: JsonValue)
    ensures
        entries_get(final(entries)@, key@) == Some(value),
        forall|k: Seq<char>| k != key@ ==> entries_get(final(entries)@, k) == entries_get(old(entries)@, k),
        entry_keys(old(entries)@).contains(key@) ==> entry_keys(final(entries)@) == entry_keys(old(entries)@),
        !entry_keys(old(entries)@).contains(key@) ==> entry_keys(final(entries)@) == entry_keys(old(entries)@).push(key@),
{
    let mut i: usize = 0;
    while i < entries.len()
        invariant
            i <= entries@.len(),
            entries@ == old(entries)@,
            forall|j: int| 0 <= j < i ==> (#[trigger] entries@[j]).0@ != key@,
        decreases entries@.len() - i,
    {
        if str_eq(entries[i].0.as_str(), key.as_str()) {
            let ghost before = entries@;
            let e = (key, value);
            entries.set(i, e);
            proof {
                assert(entries@ == before.update(i as int, e));
                lemma_entries_get_update(before, i as int, e, key@);
                assert(entry_keys(before)[i as int] == key@);
                assert forall|k: Seq<char>| k != key@ implies entries_get(entries@, k) == entries_get(before, k) by {
                    lemma_entries_get_update(before, i as int, e, k);
                }
                assert(entry_keys(entries@) =~= entry_keys(before));
            }
            return;
        }
        i = i + 1;
    }
    let ghost before = entries@;
    proof {
        lemma_entries_get_none(before, key@);
        if entry_keys(before).contains(key@) {
            let j = choose|j: int| 0 <= j < entry_keys(before).len() && entry_keys(before)[j] == key@;
            assert(before[j].0@ == key@);
        }
    }
    let e = (key, value);
    entries.push(e);
    proof {
        lemma_entries_get_push(before, e, e.0@);
        assert forall|k: Seq<char>| k != e.0@ implies entries_get(entries@, k) == entries_get(before, k) by {
            lemma_entries_get_push(before, e, k);
        }
        assert(entry_keys(entries@) =~= entry_keys(before).push(e.0@));
    }
}

/// The value under a key of an object, when the value is an object that
/// has the key.
pub fn field<'a>(v: &'a JsonValue, key: &str) -> (r: Option<&'a JsonValue>)
    ensures
        r matches Some(x) ==> *v is Object && entries_get(v->Object_0@, key@) == Some(*x),
        r is None ==> !(*v is Object) || entries_get(v->Object_0@, key@) is None,
        r matches Some(x) ==> field_spec(*v, key@) == *x,
        r is None ==> field_spec(*v, key@) == JsonValue::Null,
{
    match v {
        JsonValue::Object(entries) => {
            let mut i: usize = 0;
            while i < entries.len()
                invariant
                    i <= entries@.len(),
                    *v == JsonValue::Object(*entries),
                    forall|j: int| 0 <= j < i ==> (#[trigger] entries@[j]).0@ != key@,
                decreases entries@.len() - i,
            {
                if str_eq(entries[i].0.as_str(), key) {
                    proof {
                        lemma_entries_get_at(entries@, key@, i as int);
                    }
                    let x = &entries[i].1;
                    assert(*x == entries@[i as int].1);
                    return Some(x);
                }
                i = i + 1;
            }
            proof {
                lemma_entries_get_none(entries@, key@);
            }
            None
        },
        _ => None,
    }
}

/// The value under a key of an object, taken out of it; `Null` when the
/// value is not an object or has no such key.
pub fn take_field(v: JsonValue, key: &str) -> (r: JsonValue)
    ensures
        r == field_spec(v, key@),
{
    match v {
        JsonValue::Object(entries) => {
            let mut entries = entries;
            let ghost initial = entries@;
            let mut i: usize = 0;
            while i < entries.len()
                invariant
                    i <= entries@.len(),
                    entries@ == initial,
                    v == JsonValue::Object(entries),
                    forall|j: int| 0 <= j < i ==> (#[trigger] entries@[j]).0@ != key@,
                decreases entries@.len() - i,
            {
                if str_eq(entries[i].0.as_str(), key) {
                    proof {
                        lemma_entries_get_at(entries@, key@, i as int);
                    }
                    let (_, x) = entries.remove(i);
                    return x;
                }
                i = i + 1;
            }
            proof {
                lemma_entries_get_none(entries@, key@);
            }
            JsonValue::Null
        },
        _ => JsonValue::Null,
    }
}

/// The elements of an array value, taken out of it; `None` when the value
/// is not an array.
pub fn into_array(v: JsonValue) -> (r: Option<Vec<JsonValue>>)
    ensures
        v is Array <==> r is Some,
        r matches Some(items) ==> v == JsonValue::Array(items),
{
    match v {
        JsonValue::Array(items) => Some(items),
        _ => None,
    }
}

/// `entries_get` after removing the first entry of a key.
pub proof fn lemma_entries_get_remove(entries: Seq<(String, JsonValue)>, i: int, key: Seq<char>)
    requires
        0 <= i < entries.len(),
        forall|j: int| 0 <= j < i ==> (#[trigger] entries[j]).0@ != entries[i].0@,
        key != entries[i].0@,
    ensures
        entries_get(entries.remove(i), key) == entries_get(entries, key),
    decreases i,
{
    if i == 0 {
        assert(entries.remove(0) =~= entries.drop_first());
    } else {
        assert(entries.remove(i)[0] == entries[0]);
        assert(entries.remove(i).drop_first() =~= entries.drop_first().remove(i - 1));
        assert forall|j: int| 0 <= j < i - 1 implies (#[trigger] entries.drop_first()[j]).0@ != entries.drop_first()[i - 1].0@ by {
            assert(entries.drop_first()[j] == entries[j + 1]);
        }
        lemma_entries_get_remove(entries.drop_first(), i - 1, key);
    }
}

/// Takes the value of the first entry of a key out of object entries,
/// when there is one. The first entry of every other key stays.
pub fn remove_field(entries: &mut Vec<(String, JsonValue)>, key: &str) -> (r: Option<JsonValue>)
    ensures
        r == entries_get(old(entries)@, key@),
        forall|k: Seq<char>| k != key@ ==> entries_get(final(entries)@, k) == entries_get(old(entries)@, k),
{
    let mut i: usize = 0;
    while i < entries.len()
        invariant
            i <= entries@.len(),
            entries@ == old(entries)@,
            forall|j: int| 0 <= j < i ==> (#[trigger] entries@[j]).0@ != key@,
        decreases entries@.len() - i,
    {
        if str_eq(entries[i].0.as_str(), key) {
            let ghost before = entries@;
            proof {
                lemma_entries_get_at(before, key@, i as int);
                assert forall|k: Seq<char>| k != key@ implies entries_get(before.remove(i as int), k) == entries_get(before, k) by {
                    lemma_entries_get_remove(before, i as int, k);
                }
            }
            let (_, x) = entries.remove(i);
            return Some(x);
        }
        i = i + 1;
    }
    proof {
        lemma_entries_get_none(entries@, key@);
    }
    None
}

/// Whether no two entries of an object share a key.
pub open spec fn unique_keys(entries: Seq<(String, JsonValue)>) -> bool {
    forall|i: int, j: int| 0 <= i < j < entries.len() ==> (#[trigger] entries[i]).0@ != (#[trigger] entries[j]).0@
}

} // verus!
