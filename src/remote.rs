//! The remote layout of the object store: keys, stream creation and deletion, the
//! listing of streams, and the mapping of backend failures.
use vstd::prelude::*;
use crate::error::ObjectStorageError;
use crate::metadata::{format_document, initial_document, json_text, ObjectStoreFormat};

verus! {

/// Most requests that the query path keeps in flight at once.
pub const MAX_OBJECT_STORE_REQUESTS: usize = 1000;

/// Attempts of one backend request, the first one included.
pub const MAX_RETRY_ATTEMPTS: u32 = 5;

/// Most keys in one bulk delete request.
pub const MAX_DELETE_BATCH: usize = 1000;

/// Configuration of an S3-compatible backend.
#[derive(Clone, Debug)]
pub struct S3Config {
    pub s3_endpoint_url: String,
    pub s3_access_key_id: String,
    pub s3_secret_key: String,
    pub s3_region: String,
    pub s3_bucket_name: String,
}

impl S3Config {
    /// The documented defaults of the demo mode.
    pub fn demo() -> (r: S3Config)
        ensures
            r.s3_endpoint_url@ == "https://minio.parseable.io:9000"@,
            r.s3_access_key_id@ == "minioadmin"@,
            r.s3_secret_key@ == "minioadmin"@,
            r.s3_region@ == "us-east-1"@,
            r.s3_bucket_name@ == "parseable"@,
    {
        S3Config {
            s3_endpoint_url: String::from_str("https://minio.parseable.io:9000"),
            s3_access_key_id: String::from_str("minioadmin"),
            s3_secret_key: String::from_str("minioadmin"),
            s3_region: String::from_str("us-east-1"),
            s3_bucket_name: String::from_str("parseable"),
        }
    }

    pub fn bucket_name(&self) -> (r: &str)
        ensures
            r@ == self.s3_bucket_name@,
    {
        self.s3_bucket_name.as_str()
    }

    pub fn endpoint_url(&self) -> (r: &str)
        ensures
            r@ == self.s3_endpoint_url@,
    {
        self.s3_endpoint_url.as_str()
    }
}

/// A stream known to the remote store.
#[derive(Clone, Debug, PartialEq, Eq)]
pub struct LogStream {
    pub name: String,
}

pub open spec fn schema_key(stream: Seq<char>) -> Seq<char> {
    stream + seq!['/', '.', 's', 'c', 'h', 'e', 'm', 'a']
}

pub open spec fn metadata_key(stream: Seq<char>) -> Seq<char> {
    stream + seq![
        '/',
        '.',
        'p',
        'a',
        'r',
        's',
        'e',
        'a',
        'b',
        'l',
        'e',
        '.',
        'j',
        's',
        'o',
        'n',
    ]
}

pub open spec fn alert_key(stream: Seq<char>) -> Seq<char> {
    stream + seq!['/', '.', 'a', 'l', 'e', 'r', 't', '.', 'j', 's', 'o', 'n']
}

pub open spec fn stream_prefix(stream: Seq<char>) -> Seq<char> {
    stream + seq!['/']
}

fn key_with(stream: &str, suffix: &str) -> (r: String)
    ensures
        r@ == stream@ + suffix@,
{
    let mut r = String::from_str(stream);
    r.append(suffix);
    r
}

/// Key of the schema blob, which also marks that the stream exists.
pub fn schema_key_of(stream: &str) -> (r: String)
    ensures
        r@ == schema_key(stream@),
{
    proof { reveal_strlit("/.schema"); }
    let r = key_with(stream, "/.schema");
    assert(r@ =~= schema_key(stream@));
    r
}

/// Key of the metadata document.
pub fn metadata_key_of(stream: &str) -> (r: String)
    ensures
        r@ == metadata_key(stream@),
{
    proof { reveal_strlit("/.parseable.json"); }
    let r = key_with(stream, "/.parseable.json");
    assert(r@ =~= metadata_key(stream@));
    r
}

/// Key of the alert rules document.
pub fn alert_key_of(stream: &str) -> (r: String)
    ensures
        r@ == alert_key(stream@),
{
    proof { reveal_strlit("/.alert.json"); }
    let r = key_with(stream, "/.alert.json");
    assert(r@ =~= alert_key(stream@));
    r
}

/// Prefix of every key of the stream.
pub fn stream_prefix_of(stream: &str) -> (r: String)
    ensures
        r@ == stream_prefix(stream@),
{
    proof { reveal_strlit("/"); }
    let r = key_with(stream, "/");
    assert(r@ =~= stream_prefix(stream@));
    r
}

/// One blob to write: its key and its body.
#[derive(Clone, Debug)]
pub struct BlobWrite {
    pub key: String,
    pub body: Vec<u8>,
}

pub open spec fn writes_of(ws: Seq<BlobWrite>) -> Seq<(Seq<char>, Seq<u8>)> {
    ws.map_values(|w: BlobWrite| (w.key@, w.body@))
}

/// The writes that create `stream`: an empty presence marker where the schema blob is
/// absent, and the first metadata document `doc` where the metadata blob is absent.
/// Blobs that exist are left as they are.
pub open spec fn creation_plan(
    stream: Seq<char>,
    schema_present: bool,
    metadata_present: bool,
    doc: Seq<u8>,
) -> Seq<(Seq<char>, Seq<u8>)> {
    (if schema_present {
        Seq::empty()
    } else {
        seq![(schema_key(stream), Seq::<u8>::empty())]
    }) + (if metadata_present {
        Seq::empty()
    } else {
        seq![(metadata_key(stream), doc)]
    })
}

/// The blobs to write to create `stream`, given which of its blobs exist already.
pub fn create_stream_writes(stream: &str, schema_present: bool, metadata_present: bool) -> (r: Vec<
    BlobWrite,
>)
    ensures
        exists|doc: Seq<u8>|
            writes_of(r@) == creation_plan(stream@, schema_present, metadata_present, doc)
                && (!metadata_present ==> doc_is_first(doc)),
{
    let mut r: Vec<BlobWrite> = Vec::new();
    if !schema_present {
        r.push(BlobWrite { key: schema_key_of(stream), body: Vec::new() });
    }
    let format = ObjectStoreFormat::new();
    let doc = format_document(&format);
    if !metadata_present {
        r.push(BlobWrite { key: metadata_key_of(stream), body: doc.clone() });
    }
    assert(writes_of(r@) =~= creation_plan(stream@, schema_present, metadata_present, doc@));
    proof {
        let v = choose|v: serde_json::Value| doc@ == json_text(v) && initial_document(format, v);
        assert(doc@ == json_text(v) && format.version@ == seq!['v', '1'] && initial_document(
            format,
            v,
        ));
        assert(doc_is_first(doc@));
    }
    r
}

/// `doc` is a first metadata document that holds the layout version `v1`.
pub open spec fn doc_is_first(doc: Seq<u8>) -> bool {
    exists|v: serde_json::Value, f: ObjectStoreFormat|
        doc == json_text(v) && f.version@ == seq!['v', '1'] && initial_document(f, v)
}

/// The store after the writes, in order.
pub open spec fn apply_writes(
    store: Map<Seq<char>, Seq<u8>>,
    ws: Seq<(Seq<char>, Seq<u8>)>,
) -> Map<Seq<char>, Seq<u8>>
    decreases ws.len(),
{
    if ws.len() == 0 {
        store
    } else {
        apply_writes(store.insert(ws[0].0, ws[0].1), ws.drop_first())
    }
}

/// Creation of a stream over the store `store`, with `doc` as the first document.
pub open spec fn create_in(
    store: Map<Seq<char>, Seq<u8>>,
    stream: Seq<char>,
    doc: Seq<u8>,
) -> Map<Seq<char>, Seq<u8>> {
    apply_writes(
        store,
        creation_plan(
            stream,
            store.dom().contains(schema_key(stream)),
            store.dom().contains(metadata_key(stream)),
            doc,
        ),
    )
}

proof fn lemma_keys_differ(stream: Seq<char>)
    ensures
        schema_key(stream) != metadata_key(stream),
{
    assert(schema_key(stream)[stream.len() as int + 2] != metadata_key(stream)[stream.len() as int + 2]);
}

/// Creating a stream twice: after the first creation both the presence marker and the
/// metadata document exist, a metadata document that was there is kept, and the second
/// creation changes nothing, so the stats of the stream are not reset.
pub proof fn lemma_create_stream_twice(
    store: Map<Seq<char>, Seq<u8>>,
    stream: Seq<char>,
    doc1: Seq<u8>,
    doc2: Seq<u8>,
)
    ensures
        create_in(store, stream, doc1).dom().contains(schema_key(stream)),
        create_in(store, stream, doc1).dom().contains(metadata_key(stream)),
        store.dom().contains(metadata_key(stream)) ==> create_in(store, stream, doc1)[metadata_key(
            stream,
        )] == store[metadata_key(stream)],
        create_in(create_in(store, stream, doc1), stream, doc2) == create_in(store, stream, doc1),
{
    lemma_keys_differ(stream);
    let sk = schema_key(stream);
    let mk = metadata_key(stream);
    let sp = store.dom().contains(sk);
    let mp = store.dom().contains(mk);
    let plan = creation_plan(stream, sp, mp, doc1);
    let s1 = create_in(store, stream, doc1);
    let none = Seq::<(Seq<char>, Seq<u8>)>::empty();
    if sp && mp {
        assert(plan =~= none);
        assert(s1 == store);
    } else if sp {
        assert(plan =~= seq![(mk, doc1)]);
        assert(plan.drop_first() =~= none);
        assert(apply_writes(store.insert(mk, doc1), none) == store.insert(mk, doc1));
        assert(s1 == store.insert(mk, doc1));
    } else if mp {
        assert(plan =~= seq![(sk, Seq::<u8>::empty())]);
        assert(plan.drop_first() =~= none);
        let t = store.insert(sk, Seq::<u8>::empty());
        assert(apply_writes(t, none) == t);
        assert(s1 == t);
    } else {
        assert(plan =~= seq![(sk, Seq::<u8>::empty()), (mk, doc1)]);
        assert(plan.drop_first() =~= seq![(mk, doc1)]);
        assert(plan.drop_first().drop_first() =~= none);
        let t = store.insert(sk, Seq::<u8>::empty());
        let u = t.insert(mk, doc1);
        assert(apply_writes(u, none) == u);
        assert(apply_writes(t, seq![(mk, doc1)]) == apply_writes(u, seq![(mk, doc1)].drop_first()));
        assert(seq![(mk, doc1)].drop_first() =~= none);
        assert(s1 == u);
    }
    assert(creation_plan(stream, true, true, doc2) =~= none);
    assert(apply_writes(s1, none) == s1);
    assert(creation_plan(stream, true, true, doc2) =~= Seq::<(Seq<char>, Seq<u8>)>::empty());
}

pub open spec fn batches_of(bs: Seq<Vec<String>>) -> Seq<Seq<String>> {
    bs.map_values(|b: Vec<String>| b@)
}

/// The keys of a deletion split into bulk delete requests: in order, none empty and none
/// over the request limit.
pub fn delete_batches(keys: &Vec<String>) -> (r: Vec<Vec<String>>)
    ensures
        batches_of(r@).flatten() == keys@,
        forall|i: int| 0 <= i < r@.len() ==> 1 <= #[trigger] r@[i]@.len() <= MAX_DELETE_BATCH,
{
    let mut r: Vec<Vec<String>> = Vec::new();
    let n = keys.len();
    let mut start: usize = 0;
    while start < n
        invariant
            n == keys@.len(),
            start <= n,
            batches_of(r@).flatten() == keys@.subrange(0, start as int),
            forall|i: int| 0 <= i < r@.len() ==> 1 <= #[trigger] r@[i]@.len() <= MAX_DELETE_BATCH,
        decreases n - start,
    {
        let end: usize = if n - start > MAX_DELETE_BATCH {
            start + MAX_DELETE_BATCH
        } else {
            n
        };
        let mut batch: Vec<String> = Vec::new();
        let mut j: usize = start;
        while j < end
            invariant
                start <= j <= end,
                end <= n,
                n == keys@.len(),
                batch@ == keys@.subrange(start as int, j as int),
            decreases end - j,
        {
            batch.push(keys[j].clone());
            assert(batch@ =~= keys@.subrange(start as int, j + 1));
            j = j + 1;
        }
        let ghost before = batches_of(r@);
        r.push(batch);
        proof {
            assert(batches_of(r@) =~= before.push(keys@.subrange(start as int, end as int)));
            before.lemma_flatten_push(keys@.subrange(start as int, end as int));
            assert(keys@.subrange(0, start as int) + keys@.subrange(start as int, end as int)
                =~= keys@.subrange(0, end as int));
        }
        start = end;
    }
    assert(keys@.subrange(0, n as int) =~= keys@);
    r
}

/// The stream names of a root-level listing's common prefixes: each prefix that ends in
/// a separator, without it.
pub open spec fn stream_names(prefixes: Seq<Seq<char>>) -> Seq<Seq<char>>
    decreases prefixes.len(),
{
    if prefixes.len() == 0 {
        Seq::empty()
    } else {
        let rest = stream_names(prefixes.drop_last());
        let p = prefixes.last();
        if p.len() > 0 && p.last() == '/' {
            rest.push(p.drop_last())
        } else {
            rest
        }
    }
}

pub open spec fn stream_names_of(v: Seq<LogStream>) -> Seq<Seq<char>> {
    v.map_values(|s: LogStream| s.name@)
}

pub open spec fn strings_of(v: Seq<String>) -> Seq<Seq<char>> {
    v.map_values(|s: String| s@)
}

/// The streams named by the common prefixes of a root-level listing.
pub fn streams_from_prefixes(prefixes: &Vec<String>) -> (r: Vec<LogStream>)
    ensures
        stream_names_of(r@) == stream_names(strings_of(prefixes@)),
{
    let mut r: Vec<LogStream> = Vec::new();
    let mut i: usize = 0;
    while i < prefixes.len()
        invariant
            i <= prefixes@.len(),
            stream_names_of(r@) == stream_names(strings_of(prefixes@).subrange(0, i as int)),
        decreases prefixes@.len() - i,
    {
        let ghost before = r@;
        let p = prefixes[i].as_str();
        let n = p.unicode_len();
        assert(strings_of(prefixes@).subrange(0, i + 1).drop_last() =~= strings_of(
            prefixes@,
        ).subrange(0, i as int));
        if n > 0 && p.get_char(n - 1) == '/' {
            let name = String::from_str(p.substring_char(0, n - 1));
            r.push(LogStream { name });
            assert(p@.drop_last() =~= p@.subrange(0, n - 1));
            assert(stream_names_of(r@) =~= stream_names_of(before).push(p@.drop_last()));
        }
        i = i + 1;
    }
    assert(strings_of(prefixes@).subrange(0, prefixes@.len() as int) =~= strings_of(prefixes@));
    r
}

/// What a fetch of a blob came back with.
#[derive(Clone, Debug)]
pub enum BlobFetch {
    Found(Vec<u8>),
    Missing,
    Failed(ObjectStorageError),
}

/// The body of an optional blob (schema, alert rules): absence is no error.
pub fn optional_document(fetch: BlobFetch) -> (r: Result<Option<Vec<u8>>, ObjectStorageError>)
    ensures
        fetch matches BlobFetch::Found(b) ==> (r matches Ok(Some(c)) && c@ == b@),
        fetch is Missing ==> r matches Ok(None),
        fetch matches BlobFetch::Failed(e) ==> r == Err::<Option<Vec<u8>>, ObjectStorageError>(e),
{
    match fetch {
        BlobFetch::Found(b) => Ok(Some(b)),
        BlobFetch::Missing => Ok(None),
        BlobFetch::Failed(e) => Err(e),
    }
}

/// How a bucket reachability check failed.
#[derive(Clone, Debug)]
pub enum HeadBucketFailure {
    /// The service answered that the bucket does not exist.
    NotFound,
    /// The service answered with an error of no modeled kind.
    Unhandled(String),
    /// The request could not be dispatched.
    Dispatch(String),
    /// The request timed out.
    Timeout(String),
    /// Any other failure.
    Other(String),
}

/// The backend error of a failed reachability check of the bucket `bucket`.
pub fn check_error(failure: HeadBucketFailure, bucket: &str) -> (r: ObjectStorageError)
    ensures
        failure is NotFound ==> (r matches ObjectStorageError::NoSuchBucket(b) && b@ == bucket@),
        failure matches HeadBucketFailure::Unhandled(m) ==> r == ObjectStorageError::AuthenticationError(m),
        failure matches HeadBucketFailure::Dispatch(m) ==> r == ObjectStorageError::ConnectionError(m),
        failure matches HeadBucketFailure::Timeout(m) ==> r == ObjectStorageError::ConnectionError(m),
        failure matches HeadBucketFailure::Other(m) ==> r == ObjectStorageError::UnhandledError(m),
{
    match failure {
        HeadBucketFailure::NotFound => ObjectStorageError::NoSuchBucket(String::from_str(bucket)),
        HeadBucketFailure::Unhandled(m) => ObjectStorageError::AuthenticationError(m),
        HeadBucketFailure::Dispatch(m) => ObjectStorageError::ConnectionError(m),
        HeadBucketFailure::Timeout(m) => ObjectStorageError::ConnectionError(m),
        HeadBucketFailure::Other(m) => ObjectStorageError::UnhandledError(m),
    }
}

/// Suffix of the remote names of columnar data objects.
pub fn columnar_object_suffix() -> (r: &'static str)
    ensures
        r@ == ".data.parquet"@,
{
    ".data.parquet"
}

pub open spec fn listing_url(bucket: Seq<char>, prefix: Seq<char>) -> Seq<char> {
    seq!['s', '3', ':', '/', '/'] + bucket + seq!['/'] + prefix
}

/// The locations that a query registers as one table: one `s3://bucket/prefix` URL for
/// each key prefix, in order.
pub fn listing_urls(bucket: &str, prefixes: &Vec<String>) -> (r: Vec<String>)
    ensures
        r@.len() == prefixes@.len(),
        forall|i: int| 0 <= i < r@.len() ==> #[trigger] r@[i]@ == listing_url(bucket@, prefixes@[i]@),
{
    let mut r: Vec<String> = Vec::new();
    let mut i: usize = 0;
    while i < prefixes.len()
        invariant
            i <= prefixes@.len(),
            r@.len() == i,
            forall|k: int| 0 <= k < i ==> #[trigger] r@[k]@ == listing_url(bucket@, prefixes@[k]@),
        decreases prefixes@.len() - i,
    {
        let mut u = String::from_str("s3://");
        u.append(bucket);
        u.append("/");
        u.append(prefixes[i].as_str());
        proof {
            reveal_strlit("s3://");
            reveal_strlit("/");
            assert(u@ =~= listing_url(bucket@, prefixes@[i as int]@));
        }
        r.push(u);
        i = i + 1;
    }
    r
}

} // verus!
