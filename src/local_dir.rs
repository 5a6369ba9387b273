//! The local buffer directory of one stream: which of its files are converted and
//! which are uploaded.
use vstd::prelude::*;
use chrono::{Datelike, Timelike};
use crate::naming::{
    BucketTime, extension_is, filename_by_time, has_extension, is_arrows_file, is_parquet_file,
    segment_file_name, arrows_ext, parquet_ext, OBJECT_STORE_DATA_GRANULARITY,
};

verus! {

/// The character sequences of a list of names.
pub open spec fn names_of(v: Seq<String>) -> Seq<Seq<char>> {
    v.map_values(|s: String| s@)
}

/// The row-oriented files of a directory listing that may be converted: every one but
/// the file that is being written to.
pub open spec fn arrow_selection(entries: Seq<Seq<char>>, hot: Seq<char>) -> Seq<Seq<char>> {
    entries.filter(convertible(hot))
}

/// A row-oriented file other than the hot file `hot`.
pub open spec fn convertible(hot: Seq<char>) -> spec_fn(Seq<char>) -> bool {
    |e: Seq<char>| is_arrows_file(e) && e != hot
}

/// The columnar files of a directory listing.
pub open spec fn parquet_selection(entries: Seq<Seq<char>>) -> Seq<Seq<char>> {
    entries.filter(|e: Seq<char>| is_parquet_file(e))
}

/// The row-oriented files of the listing `entries`, in listing order, without `hot`.
pub fn select_arrow_files(entries: &Vec<String>, hot: &String) -> (r: Vec<String>)
    ensures
        names_of(r@) == arrow_selection(names_of(entries@), hot@),
{
    let ghost pred = convertible(hot@);
    let mut r: Vec<String> = Vec::new();
    let mut i: usize = 0;
    while i < entries.len()
        invariant
            i <= entries@.len(),
            pred == convertible(hot@),
            names_of(r@) == names_of(entries@).subrange(0, i as int).filter(pred),
        decreases entries@.len() - i,
    {
        let ghost prev = names_of(entries@).subrange(0, i as int);
        assert(names_of(entries@).subrange(0, i + 1) =~= prev.push(entries@[i as int]@));
        proof { prev.lemma_filter_push(entries@[i as int]@, pred); }
        let ghost r0 = r@;
        let is_arrow = extension_is(entries[i].as_str(), "arrows");
        proof { reveal_strlit("arrows"); assert("arrows"@ =~= arrows_ext()); }
        if is_arrow && !(entries[i] == *hot) {
            r.push(entries[i].clone());
            assert(names_of(r@) =~= names_of(r0).push(entries@[i as int]@));
            assert(pred(entries@[i as int]@));
        } else {
            assert(!pred(entries@[i as int]@));
        }
        i = i + 1;
    }
    assert(names_of(entries@).subrange(0, entries@.len() as int) =~= names_of(entries@));
    r
}

/// The columnar files of the listing `entries`, in listing order.
pub fn select_parquet_files(entries: &Vec<String>) -> (r: Vec<String>)
    ensures
        names_of(r@) == parquet_selection(names_of(entries@)),
{
    let ghost pred = |e: Seq<char>| is_parquet_file(e);
    let mut r: Vec<String> = Vec::new();
    let mut i: usize = 0;
    while i < entries.len()
        invariant
            i <= entries@.len(),
            pred == (|e: Seq<char>| is_parquet_file(e)),
            names_of(r@) == names_of(entries@).subrange(0, i as int).filter(pred),
        decreases entries@.len() - i,
    {
        let ghost prev = names_of(entries@).subrange(0, i as int);
        assert(names_of(entries@).subrange(0, i + 1) =~= prev.push(entries@[i as int]@));
        proof { prev.lemma_filter_push(entries@[i as int]@, pred); }
        let ghost r0 = r@;
        let is_parquet = extension_is(entries[i].as_str(), "parquet");
        proof { reveal_strlit("parquet"); assert("parquet"@ =~= parquet_ext()); }
        if is_parquet {
            r.push(entries[i].clone());
            assert(names_of(r@) =~= names_of(r0).push(entries@[i as int]@));
            assert(pred(entries@[i as int]@));
        } else {
            assert(!pred(entries@[i as int]@));
        }
        i = i + 1;
    }
    assert(names_of(entries@).subrange(0, entries@.len() as int) =~= names_of(entries@));
    r
}

/// The UTC calendar fields (year, month, day, hour, minute) of a Unix timestamp, as
/// chrono's `DateTime::<Utc>::from_timestamp` gives them; `None` out of its range.
pub uninterp spec fn utc_fields_of(secs: i64, nsecs: u32) -> Option<(i32, u32, u32, u32, u32)>;

/// Relies on std's `SystemTime::now().duration_since(UNIX_EPOCH)`: the time since the
/// Unix epoch as seconds and nanoseconds (under one second); `None` for a clock before it.
#[verifier::external_body]
fn time_since_epoch() -> (r: Option<(u64, u32)>)
    ensures
        r matches Some(t) ==> t.1 < 1_000_000_000,
{
    std::time::SystemTime::now()
        .duration_since(std::time::UNIX_EPOCH)
        .ok()
        .map(|d| (d.as_secs(), d.subsec_nanos()))
}

/// Relies on chrono's `DateTime::<Utc>::from_timestamp`, read as calendar fields. chrono
/// documents the ranges of month, day, hour and minute.
#[verifier::external_body]
fn utc_fields(secs: i64, nsecs: u32) -> (r: Option<(i32, u32, u32, u32, u32)>)
    ensures
        r == utc_fields_of(secs, nsecs),
        r matches Some(f) ==> 1 <= f.1 <= 12 && 1 <= f.2 <= 31 && f.3 < 24 && f.4 < 60,
{
    chrono::DateTime::<chrono::Utc>::from_timestamp(secs, nsecs)
        .map(|t| (t.year(), t.month(), t.day(), t.hour(), t.minute()))
}

/// Whether `name` is the segment file name of `host` for some minute.
pub open spec fn is_segment_name_of(name: Seq<char>, host: Seq<char>) -> bool {
    exists|t: BucketTime| t.wf() && name == segment_file_name(t, host)
}

/// The segment file name of `host` at the Unix timestamp `secs`.`nanos`; `None` where
/// the timestamp has no UTC date.
pub open spec fn timestamp_file_name(secs: u64, nanos: u32, host: Seq<char>) -> Option<Seq<char>> {
    if secs > i64::MAX as u64 {
        None
    } else {
        match utc_fields_of(secs as i64, nanos) {
            Some(f) => Some(
                segment_file_name(
                    BucketTime { year: f.0, month: f.1, day: f.2, hour: f.3, minute: f.4 },
                    host,
                ),
            ),
            None => None,
        }
    }
}

/// Name of the local segment file that `host` writes at the Unix timestamp
/// `secs`.`nanos`.
pub fn filename_at_timestamp(secs: u64, nanos: u32, host: &str) -> (r: Option<String>)
    ensures
        r is Some <==> timestamp_file_name(secs, nanos, host@) is Some,
        r matches Some(n) ==> n@ == timestamp_file_name(secs, nanos, host@)->0
            && is_segment_name_of(n@, host@),
{
    if secs > i64::MAX as u64 {
        return None;
    }
    match utc_fields(secs as i64, nanos) {
        Some((year, month, day, hour, minute)) => {
            let t = BucketTime { year, month, day, hour, minute };
            let n = filename_by_time(t, host);
            assert(t.wf());
            Some(n)
        },
        None => None,
    }
}

/// Name of the local segment file that `host` writes now; `None` where the clock
/// cannot be read as a UTC date.
pub fn filename_by_current_time(host: &str) -> (r: Option<String>)
    ensures
        r matches Some(n) ==> is_segment_name_of(n@, host@) && exists|secs: u64, nanos: u32|
            timestamp_file_name(secs, nanos, host@) == Some(n@),
{
    match time_since_epoch() {
        Some((secs, nanos)) => filename_at_timestamp(secs, nanos, host),
        None => None,
    }
}

/// The local buffer directory of one stream.
#[derive(Debug)]
pub struct StorageDir {
    pub data_path: String,
}

/// Path of the buffer directory of `stream` under the local root `root`.
pub open spec fn stream_dir(root: Seq<char>, stream: Seq<char>) -> Seq<char> {
    root + seq!['/'] + stream
}

impl StorageDir {
    /// The buffer directory of `stream_name` under the local storage root `root`.
    pub fn new(root: &str, stream_name: &str) -> (r: StorageDir)
        ensures
            r.data_path@ == stream_dir(root@, stream_name@),
    {
        let mut data_path = String::from_str(root);
        data_path.append("/");
        data_path.append(stream_name);
        proof {
            reveal_strlit("/");
            assert(data_path@ =~= stream_dir(root@, stream_name@));
        }
        StorageDir { data_path }
    }

    /// Path of the file that `host` writes into at the Unix timestamp `secs`.`nanos`.
    pub fn path_at_timestamp(&self, secs: u64, nanos: u32, host: &str) -> (r: Option<String>)
        ensures
            r is Some <==> timestamp_file_name(secs, nanos, host@) is Some,
            r matches Some(p) ==> p@ == self.data_path@ + seq!['/'] + timestamp_file_name(
                secs,
                nanos,
                host@,
            )->0,
    {
        match filename_at_timestamp(secs, nanos, host) {
            Some(name) => {
                let mut p = self.data_path.clone();
                p.append("/");
                p.append(name.as_str());
                proof {
                    reveal_strlit("/");
                    assert(p@ =~= self.data_path@ + seq!['/'] + name@);
                }
                Some(p)
            },
            None => None,
        }
    }

    /// Path of the file that `host` is writing into now; `None` where the clock cannot be
    /// read as a UTC date.
    pub fn path_by_current_time(&self, host: &str) -> (r: Option<String>)
        ensures
            r matches Some(p) ==> exists|secs: u64, nanos: u32|
                timestamp_file_name(secs, nanos, host@) is Some && p@ == self.data_path@ + seq![
                    '/',
                ] + timestamp_file_name(secs, nanos, host@)->0,
    {
        match time_since_epoch() {
            Some((secs, nanos)) => self.path_at_timestamp(secs, nanos, host),
            None => None,
        }
    }

    /// The row-oriented files of this directory's listing `entries` that may be
    /// converted at the Unix timestamp `secs`.`nanos`: all of them but the one that `host`
    /// writes into then. Where the timestamp has no date, the hot file is unknown and
    /// none is selected.
    pub fn arrow_files_at(&self, entries: &Vec<String>, secs: u64, nanos: u32, host: &str) -> (r:
        Vec<String>)
        ensures
            names_of(r@) == match timestamp_file_name(secs, nanos, host@) {
                Some(hot) => arrow_selection(names_of(entries@), hot),
                None => Seq::empty(),
            },
            timestamp_file_name(secs, nanos, host@) matches Some(hot) ==> is_segment_name_of(
                hot,
                host@,
            ),
    {
        match filename_at_timestamp(secs, nanos, host) {
            Some(hot) => select_arrow_files(entries, &hot),
            None => {
                let r: Vec<String> = Vec::new();
                assert(names_of(r@) =~= Seq::<Seq<char>>::empty());
                r
            },
        }
    }

    /// The row-oriented files of this directory's listing `entries` that may be
    /// converted: all of them but the one that `host` is writing into now. Where the clock
    /// cannot be read, the hot file is unknown and none is selected.
    pub fn arrow_files(&self, entries: &Vec<String>, host: &str) -> (r: Vec<String>)
        ensures
            names_of(r@) == Seq::<Seq<char>>::empty() || exists|hot: Seq<char>|
                is_segment_name_of(hot, host@) && names_of(r@) == arrow_selection(
                    names_of(entries@),
                    hot,
                ),
    {
        match time_since_epoch() {
            Some((secs, nanos)) => {
                let r = self.arrow_files_at(entries, secs, nanos, host);
                proof {
                    if let Some(hot) = timestamp_file_name(secs, nanos, host@) {
                        assert(names_of(r@) == arrow_selection(names_of(entries@), hot));
                    }
                }
                r
            },
            None => {
                let r: Vec<String> = Vec::new();
                assert(names_of(r@) =~= Seq::<Seq<char>>::empty());
                r
            },
        }
    }

    /// The columnar files of this directory's listing `entries`, leftovers of an earlier
    /// pass included.
    pub fn parquet_files(&self, entries: &Vec<String>) -> (r: Vec<String>)
        ensures
            names_of(r@) == parquet_selection(names_of(entries@)),
    {
        select_parquet_files(entries)
    }
}

/// Of a listing without repeated names, the selection holds each row-oriented file but
/// the hot one exactly once, and never the hot one.
pub proof fn lemma_arrow_files_exactly_once(entries: Seq<Seq<char>>, hot: Seq<char>)
    requires
        entries.no_duplicates(),
    ensures
        arrow_selection(entries, hot).no_duplicates(),
        forall|e: Seq<char>|
            arrow_selection(entries, hot).contains(e) <==> (entries.contains(e)
                && is_arrows_file(e) && e != hot),
        !arrow_selection(entries, hot).contains(hot),
    decreases entries.len(),
{
    let pred = convertible(hot);
    if entries.len() == 0 {
        reveal(Seq::filter);
        assert(arrow_selection(entries, hot) =~= Seq::<Seq<char>>::empty());
    } else {
        let init = entries.drop_last();
        let x = entries.last();
        assert(init.push(x) =~= entries);
        assert(init.no_duplicates());
        lemma_arrow_files_exactly_once(init, hot);
        init.lemma_filter_push(x, pred);
        assert(!init.contains(x));
        assert forall|e: Seq<char>| entries.contains(e) <==> (init.contains(e) || e == x) by {
            if entries.contains(e) {
                let k = choose|k: int| 0 <= k < entries.len() && entries[k] == e;
                if k < init.len() {
                    assert(init[k] == e);
                }
            }
            if init.contains(e) {
                let k = choose|k: int| 0 <= k < init.len() && init[k] == e;
                assert(entries[k] == e);
            }
            if e == x {
                assert(entries[entries.len() - 1] == e);
            }
        }
        let prev = arrow_selection(init, hot);
        if pred(x) {
            assert(arrow_selection(entries, hot) == prev.push(x));
            assert forall|e: Seq<char>| prev.push(x).contains(e) <==> (prev.contains(e) || e == x) by {
                if prev.push(x).contains(e) {
                    let k = choose|k: int| 0 <= k < prev.push(x).len() && prev.push(x)[k] == e;
                    if k < prev.len() {
                        assert(prev[k] == e);
                    }
                }
                if prev.contains(e) {
                    let k = choose|k: int| 0 <= k < prev.len() && prev[k] == e;
                    assert(prev.push(x)[k] == e);
                }
                if e == x {
                    assert(prev.push(x)[prev.len() as int] == e);
                }
            }
            assert forall|i: int, j: int|
                0 <= i < prev.push(x).len() && 0 <= j < prev.push(x).len() && i != j
                    implies prev.push(x)[i] != prev.push(x)[j] by {
                if i == prev.len() {
                    assert(prev.contains(prev.push(x)[j]));
                } else if j == prev.len() {
                    assert(prev.contains(prev.push(x)[i]));
                }
            }
        } else {
            assert(arrow_selection(entries, hot) == prev);
        }
    }
}

/// Two minutes in one bucket (same date, hour and bucket of minutes) give one segment
/// file name for one host.
pub proof fn lemma_same_bucket_same_name(t1: BucketTime, t2: BucketTime, host: Seq<char>)
    requires
        t1.wf(),
        t2.wf(),
        t1.year == t2.year,
        t1.month == t2.month,
        t1.day == t2.day,
        t1.hour == t2.hour,
        t1.minute / OBJECT_STORE_DATA_GRANULARITY == t2.minute / OBJECT_STORE_DATA_GRANULARITY,
    ensures
        segment_file_name(t1, host) == segment_file_name(t2, host),
{
    assert(t1.minute == t2.minute);
}

} // verus!
