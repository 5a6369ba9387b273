//! Per-stream metadata documents, the key scheme of the remote store, and the
//! decisions of stream creation and bulk deletion.
use vstd::prelude::*;
use crate::error::ObjectStorageError;

verus! {

#[verifier::external_type_specification]
#[verifier::external_body]
pub struct ExValue(serde_json::Value);

/// What `serde_json::from_slice` parses from bytes, `None` where they are no JSON.
pub uninterp spec fn json_parsed(b: Seq<u8>) -> Option<serde_json::Value>;

/// The compact text that serde_json writes for a value.
pub uninterp spec fn json_text(v: serde_json::Value) -> Seq<u8>;

/// The member `key` of a JSON object; `None` for a missing key or a value that is
/// no object.
pub uninterp spec fn json_member(v: serde_json::Value, key: Seq<char>) -> Option<serde_json::Value>;

/// Whether a JSON value is an object.
pub uninterp spec fn json_is_object(v: serde_json::Value) -> bool;

/// The value of a JSON number that is an unsigned 64-bit integer.
pub uninterp spec fn json_u64(v: serde_json::Value) -> Option<u64>;

/// The JSON string holding `s`.
pub uninterp spec fn json_string(s: Seq<char>) -> serde_json::Value;

/// Relies on `serde_json::from_slice::<Value>`: the document that the bytes hold.
#[verifier::external_body]
fn parse_json(b: &[u8]) -> (r: Option<serde_json::Value>)
    ensures
        r == json_parsed(b@),
{
    serde_json::from_slice(b).ok()
}

/// Relies on `Value`'s `Display` (compact JSON text), as bytes.
#[verifier::external_body]
fn render_json(v: &serde_json::Value) -> (r: Vec<u8>)
    ensures
        r@ == json_text(*v),
{
    v.to_string().into_bytes()
}

/// Relies on `Value::get` with a string key: the member of an object, nothing for a
/// value that is no object.
#[verifier::external_body]
fn member(v: &serde_json::Value, key: &str) -> (r: Option<serde_json::Value>)
    ensures
        r == json_member(*v, key@),
        !json_is_object(*v) ==> r is None,
{
    v.get(key).cloned()
}

/// Relies on `Value::is_object`.
#[verifier::external_body]
fn is_object(v: &serde_json::Value) -> (r: bool)
    ensures
        r == json_is_object(*v),
{
    v.is_object()
}

/// Relies on `Value::as_u64`: a number that fits in `u64`.
#[verifier::external_body]
fn as_u64(v: &serde_json::Value) -> (r: Option<u64>)
    ensures
        r == json_u64(*v),
{
    v.as_u64()
}

/// Relies on `Value::from(u64)`: a JSON number whose `as_u64` gives `n` back.
#[verifier::external_body]
fn u64_value(n: u64) -> (r: serde_json::Value)
    ensures
        json_u64(r) == Some(n),
{
    serde_json::Value::from(n)
}

/// Relies on `Value::from(&str)`: the JSON string holding `s`.
#[verifier::external_body]
fn string_value(s: &str) -> (r: serde_json::Value)
    ensures
        r == json_string(s@),
{
    serde_json::Value::from(s)
}

/// Relies on `Value::Object(Map::new())`: an object without members.
#[verifier::external_body]
fn empty_object() -> (r: serde_json::Value)
    ensures
        json_is_object(r),
        forall|k: Seq<char>| json_member(r, k) is None,
{
    serde_json::Value::Object(serde_json::Map::new())
}

/// Relies on `Value`'s `IndexMut<&str>` on an object: inserts or replaces one member.
#[verifier::external_body]
fn set_member(v: &mut serde_json::Value, key: &str, x: serde_json::Value)
    requires
        json_is_object(*old(v)),
    ensures
        json_is_object(*final(v)),
        json_member(*final(v), key@) == Some(x),
        forall|k: Seq<char>| k != key@ ==> json_member(*final(v), k) == json_member(*old(v), k),
{
    v[key] = x;
}

/// Version marker of the remote storage layout, kept in each stream's metadata document.
#[derive(Clone, Debug, PartialEq, Eq)]
pub struct ObjectStoreFormat {
    pub version: String,
}

impl ObjectStoreFormat {
    /// The current layout version, `v1`.
    pub fn new() -> (r: ObjectStoreFormat)
        ensures
            r.version@ == seq!['v', '1'],
    {
        proof { reveal_strlit("v1"); }
        ObjectStoreFormat { version: String::from_str("v1") }
    }
}

/// Size and record counters of a stream.
#[derive(Clone, Copy, Debug, PartialEq, Eq, Structural)]
pub struct Stats {
    pub records: u64,
    pub size: u64,
}

impl Stats {
    /// All counters zero.
    pub fn zero() -> (r: Stats)
        ensures
            r == (Stats { records: 0, size: 0 }),
    {
        Stats { records: 0, size: 0 }
    }
}

pub open spec fn format_key() -> Seq<char> {
    seq!['o', 'b', 'j', 'e', 'c', 't', 's', 't', 'o', 'r', 'e', '-', 'f', 'o', 'r', 'm', 'a', 't']
}

pub open spec fn stats_key() -> Seq<char> {
    seq!['s', 't', 'a', 't', 's']
}

pub open spec fn records_key() -> Seq<char> {
    seq!['r', 'e', 'c', 'o', 'r', 'd', 's']
}

pub open spec fn size_key() -> Seq<char> {
    seq!['s', 'i', 'z', 'e']
}

/// The counter held by the member `key` of a stats object: `Some(0)` where the member is
/// missing, `None` where it is no unsigned 64-bit integer.
pub open spec fn counter_of(j: serde_json::Value, key: Seq<char>) -> Option<u64> {
    match json_member(j, key) {
        Some(x) => json_u64(x),
        None => Some(0),
    }
}

/// The counters that a stats value holds. It parses where it is an object whose counter
/// members, where present, are unsigned integers; anything else gives zero counters.
pub open spec fn stats_of_json(j: serde_json::Value) -> Stats {
    if json_is_object(j) && counter_of(j, records_key()) is Some && counter_of(j, size_key()) is Some {
        Stats { records: counter_of(j, records_key())->0, size: counter_of(j, size_key())->0 }
    } else {
        Stats { records: 0, size: 0 }
    }
}

/// The counters of a metadata document: those of its `stats` member, all zero without one.
pub open spec fn stats_of_document(doc: serde_json::Value) -> Stats {
    match json_member(doc, stats_key()) {
        Some(j) => stats_of_json(j),
        None => Stats { records: 0, size: 0 },
    }
}

/// `j` is an object whose counter members hold the counters of `s`.
pub open spec fn encodes_stats(j: serde_json::Value, s: Stats) -> bool {
    &&& json_is_object(j)
    &&& json_member(j, records_key()) matches Some(x) && json_u64(x) == Some(s.records)
    &&& json_member(j, size_key()) matches Some(x) && json_u64(x) == Some(s.size)
}

fn counter(j: &serde_json::Value, key: &str) -> (r: Option<u64>)
    ensures
        r == counter_of(*j, key@),
{
    match member(j, key) {
        Some(x) => as_u64(&x),
        None => Some(0),
    }
}

/// The stats object of `s`.
pub fn stats_to_json(s: &Stats) -> (r: serde_json::Value)
    ensures
        encodes_stats(r, *s),
{
    let mut j = empty_object();
    set_member(&mut j, "records", u64_value(s.records));
    set_member(&mut j, "size", u64_value(s.size));
    proof {
        reveal_strlit("records");
        reveal_strlit("size");
        assert("records"@ =~= records_key());
        assert("size"@ =~= size_key());
        assert("records"@[0] != "size"@[0]);
    }
    j
}

/// The counters of a stats object.
pub fn stats_from_json(j: &serde_json::Value) -> (r: Stats)
    ensures
        r == stats_of_json(*j),
{
    proof {
        reveal_strlit("records");
        reveal_strlit("size");
        assert("records"@ =~= records_key());
        assert("size"@ =~= size_key());
    }
    if !is_object(j) {
        return Stats::zero();
    }
    match (counter(j, "records"), counter(j, "size")) {
        (Some(records), Some(size)) => Stats { records, size },
        _ => Stats::zero(),
    }
}

/// The counters that a metadata document holds. A document that is no JSON is a
/// serialization error; a missing or unreadable `stats` member gives zero counters.
pub fn get_stats_from_document(doc: &[u8]) -> (r: Result<Stats, ObjectStorageError>)
    ensures
        r is Ok <==> json_parsed(doc@) is Some,
        r matches Ok(s) ==> s == stats_of_document(json_parsed(doc@)->0),
        r matches Err(e) ==> e is SerializationError,
{
    match parse_json(doc) {
        Some(v) => {
            proof { reveal_strlit("stats"); assert("stats"@ =~= stats_key()); }
            match member(&v, "stats") {
                Some(j) => Ok(stats_from_json(&j)),
                None => Ok(Stats::zero()),
            }
        },
        None => Err(ObjectStorageError::SerializationError(String::from_str("metadata document is not valid JSON"))),
    }
}

/// `new` is the metadata document `old` with its `stats` member replaced by the
/// counters `s`, every other member kept.
pub open spec fn replaces_stats(old: serde_json::Value, new: serde_json::Value, s: Stats) -> bool {
    &&& json_is_object(new)
    &&& json_member(new, stats_key()) matches Some(j) && encodes_stats(j, s)
    &&& forall|k: Seq<char>| k != stats_key() ==> json_member(new, k) == json_member(old, k)
}

/// The metadata document `doc` with its `stats` member set to `s`, as bytes to write
/// back. A document that is no JSON object is a serialization error.
pub fn put_stats_into_document(doc: &[u8], s: &Stats) -> (r: Result<Vec<u8>, ObjectStorageError>)
    ensures
        r is Ok <==> (json_parsed(doc@) matches Some(v) && json_is_object(v)),
        r matches Ok(b) ==> exists|new: serde_json::Value|
            b@ == json_text(new) && replaces_stats(json_parsed(doc@)->0, new, *s),
        r matches Err(e) ==> e is SerializationError,
{
    match parse_json(doc) {
        Some(mut v) => {
            if !is_object(&v) {
                return Err(ObjectStorageError::SerializationError(String::from_str("metadata document is not a JSON object")));
            }
            let ghost old_v = v;
            let j = stats_to_json(s);
            set_member(&mut v, "stats", j);
            proof { reveal_strlit("stats"); assert("stats"@ =~= stats_key()); }
            let b = render_json(&v);
            assert(replaces_stats(old_v, v, *s));
            Ok(b)
        },
        None => Err(ObjectStorageError::SerializationError(String::from_str("metadata document is not valid JSON"))),
    }
}

/// The first metadata document of a stream: its layout version and nothing else.
pub open spec fn initial_document(format: ObjectStoreFormat, v: serde_json::Value) -> bool {
    &&& json_is_object(v)
    &&& json_member(v, format_key()) == Some(json_string(format.version@))
    &&& forall|k: Seq<char>| k != format_key() ==> json_member(v, k) is None
}

/// The metadata document that a new stream starts with, as bytes.
pub fn format_document(format: &ObjectStoreFormat) -> (r: Vec<u8>)
    ensures
        exists|v: serde_json::Value| r@ == json_text(v) && initial_document(*format, v),
{
    let mut v = empty_object();
    set_member(&mut v, "objectstore-format", string_value(format.version.as_str()));
    proof {
        reveal_strlit("objectstore-format");
        assert("objectstore-format"@ =~= format_key());
    }
    let r = render_json(&v);
    assert(initial_document(*format, v));
    r
}

/// Of the document that `put_stats_into_document` writes, `get_stats_from_document`
/// reads back the counters that were put.
pub proof fn lemma_put_then_get_stats(old: serde_json::Value, new: serde_json::Value, s: Stats)
    requires
        replaces_stats(old, new, s),
    ensures
        stats_of_document(new) == s,
{
}

} // verus!
