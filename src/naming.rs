//! Deterministic names of local segment files and the remote keys derived from them.
use vstd::prelude::*;

verus! {

/// Width of a minute bucket in the names of local segment files, in minutes.
pub const OBJECT_STORE_DATA_GRANULARITY: u32 = 1;

/// Period of the external scheduler that runs a sync pass, in seconds.
pub const LOCAL_SYNC_INTERVAL: u64 = 60;

pub open spec fn digit_char(d: nat) -> char {
    seq!['0', '1', '2', '3', '4', '5', '6', '7', '8', '9'][(d % 10) as int]
}

/// `n` in decimal with at least two digits (the `{:02}` format), for `n < 1000`.
pub open spec fn pad2(n: nat) -> Seq<char> {
    if n < 100 {
        seq![digit_char(n / 10), digit_char(n)]
    } else {
        seq![digit_char(n / 100), digit_char(n / 10), digit_char(n)]
    }
}

/// `n` in decimal with exactly four digits, for `n < 10000`.
pub open spec fn pad4(n: nat) -> Seq<char> {
    seq![digit_char(n / 1000), digit_char(n / 100), digit_char(n / 10), digit_char(n)]
}

fn digit_str(d: u32) -> (r: &'static str)
    ensures
        r@ == seq![digit_char(d as nat)],
{
    let k: u32 = d % 10;
    if k == 0 {
        proof { reveal_strlit("0"); }
        "0"
    } else if k == 1 {
        proof { reveal_strlit("1"); }
        "1"
    } else if k == 2 {
        proof { reveal_strlit("2"); }
        "2"
    } else if k == 3 {
        proof { reveal_strlit("3"); }
        "3"
    } else if k == 4 {
        proof { reveal_strlit("4"); }
        "4"
    } else if k == 5 {
        proof { reveal_strlit("5"); }
        "5"
    } else if k == 6 {
        proof { reveal_strlit("6"); }
        "6"
    } else if k == 7 {
        proof { reveal_strlit("7"); }
        "7"
    } else if k == 8 {
        proof { reveal_strlit("8"); }
        "8"
    } else {
        proof { reveal_strlit("9"); }
        "9"
    }
}

fn push_pad2(s: &mut String, n: u32)
    requires
        n < 1000,
    ensures
        final(s)@ == old(s)@ + pad2(n as nat),
{
    if n >= 100 {
        s.append(digit_str(n / 100));
    }
    s.append(digit_str(n / 10));
    s.append(digit_str(n));
}

fn push_pad4(s: &mut String, n: u32)
    requires
        n < 10000,
    ensures
        final(s)@ == old(s)@ + pad4(n as nat),
{
    s.append(digit_str(n / 1000));
    s.append(digit_str(n / 100));
    s.append(digit_str(n / 10));
    s.append(digit_str(n));
}

/// `n` in decimal, without padding.
pub open spec fn decimal(n: nat) -> Seq<char>
    decreases n,
{
    if n < 10 {
        seq![digit_char(n)]
    } else {
        decimal(n / 10) + seq![digit_char(n)]
    }
}

/// A year as dates write it: four digits from 0 to 9999, otherwise a sign and at least
/// four digits.
pub open spec fn year_text(y: int) -> Seq<char> {
    if 0 <= y <= 9999 {
        pad4(y as nat)
    } else {
        let a: nat = (if y < 0 { -y } else { y }) as nat;
        (if y < 0 { seq!['-'] } else { seq!['+'] }) + if a < 10000 { pad4(a) } else { decimal(a) }
    }
}

fn push_decimal(s: &mut String, n: u32)
    ensures
        final(s)@ == old(s)@ + decimal(n as nat),
    decreases n,
{
    if n >= 10 {
        push_decimal(s, n / 10);
    }
    s.append(digit_str(n));
    proof {
        if n >= 10 {
            assert(final(s)@ =~= old(s)@ + decimal(n as nat));
        }
    }
}

fn push_year(s: &mut String, y: i32)
    ensures
        final(s)@ == old(s)@ + year_text(y as int),
{
    if 0 <= y && y <= 9999 {
        push_pad4(s, y as u32);
    } else {
        let a: u32 = if y < 0 { (0i64 - (y as i64)) as u32 } else { y as u32 };
        if y < 0 {
            s.append("-");
            proof { reveal_strlit("-"); }
        } else {
            s.append("+");
            proof { reveal_strlit("+"); }
        }
        if a < 10000 {
            push_pad4(s, a);
        } else {
            push_decimal(s, a);
        }
        assert(final(s)@ =~= old(s)@ + year_text(y as int));
    }
}

/// A calendar minute, as the fields that segment file names are built from.
#[derive(Clone, Copy, Debug, PartialEq, Eq, Structural)]
pub struct BucketTime {
    pub year: i32,
    pub month: u32,
    pub day: u32,
    pub hour: u32,
    pub minute: u32,
}

impl BucketTime {
    pub open spec fn wf(&self) -> bool {
        &&& 1 <= self.month <= 12
        &&& 1 <= self.day <= 31
        &&& self.hour < 24
        &&& self.minute < 60
    }

    /// The minute given by its fields, or `None` where a field is out of its range.
    pub fn new(year: i32, month: u32, day: u32, hour: u32, minute: u32) -> (r: Option<BucketTime>)
        ensures
            r is Some <==> (1 <= month <= 12 && 1 <= day <= 31 && hour < 24 && minute < 60),
            r matches Some(t) ==> t.wf() && t.year == year && t.month == month && t.day == day
                && t.hour == hour && t.minute == minute,
    {
        if 1 <= month && month <= 12 && 1 <= day && day <= 31 && hour < 24 && minute < 60 {
            Some(BucketTime { year, month, day, hour, minute })
        } else {
            None
        }
    }
}

/// First and last minute of the bucket of width `granularity` that holds `minute`.
pub open spec fn bucket_start(minute: nat, granularity: nat) -> nat {
    (minute / granularity) * granularity
}

pub open spec fn bucket_end(minute: nat, granularity: nat) -> nat {
    ((minute / granularity + 1) * granularity - 1) as nat
}

/// The minute part of a time path: the bucket's first minute, and its last one
/// where a bucket spans more than one minute.
pub open spec fn minute_slot(minute: nat, granularity: nat) -> Seq<char> {
    if granularity == 1 {
        pad2(minute)
    } else {
        pad2(bucket_start(minute, granularity)) + seq!['-'] + pad2(
            bucket_end(minute, granularity),
        )
    }
}

/// The flattened time path of a minute: `date=YYYY-MM-DD.hour=HH.minute=MM.`
pub open spec fn time_prefix(t: BucketTime, granularity: nat) -> Seq<char> {
    seq!['d', 'a', 't', 'e', '='] + year_text(t.year as int) + seq!['-'] + pad2(t.month as nat) + seq![
        '-',
    ] + pad2(t.day as nat) + seq!['.', 'h', 'o', 'u', 'r', '='] + pad2(t.hour as nat) + seq![
        '.',
        'm',
        'i',
        'n',
        'u',
        't',
        'e',
        '=',
    ] + minute_slot(t.minute as nat, granularity) + seq!['.']
}

pub open spec fn arrows_suffix() -> Seq<char> {
    seq!['.', 'd', 'a', 't', 'a', '.', 'a', 'r', 'r', 'o', 'w', 's']
}

/// Name of the local segment file of a host for the bucket that holds `t`.
pub open spec fn segment_file_name(t: BucketTime, host: Seq<char>) -> Seq<char> {
    time_prefix(t, OBJECT_STORE_DATA_GRANULARITY as nat) + host + arrows_suffix()
}

proof fn lemma_bucket_bounds(minute: nat, granularity: nat)
    requires
        minute < 60,
        1 <= granularity,
    ensures
        bucket_start(minute, granularity) <= minute,
        bucket_end(minute, granularity) < minute + granularity,
{
    assert((minute / granularity) * granularity <= minute) by (nonlinear_arith)
        requires 1 <= granularity;
    assert((minute / granularity + 1) * granularity == (minute / granularity) * granularity
        + granularity) by (nonlinear_arith);
}

fn push_minute_slot(s: &mut String, minute: u32, granularity: u32)
    requires
        minute < 60,
        1 <= granularity <= 60,
    ensures
        final(s)@ == old(s)@ + minute_slot(minute as nat, granularity as nat),
{
    if granularity == 1 {
        push_pad2(s, minute);
    } else {
        proof { lemma_bucket_bounds(minute as nat, granularity as nat); }
        let block: u32 = minute / granularity;
        let start: u32 = block * granularity;
        let end: u32 = start + granularity - 1;
        assert(end == bucket_end(minute as nat, granularity as nat)) by (nonlinear_arith)
            requires
                block == minute / granularity,
                start == block * granularity,
                end == start + granularity - 1,
        ;
        push_pad2(s, start);
        s.append("-");
        proof { reveal_strlit("-"); }
        push_pad2(s, end);
    }
}

/// Name of the local segment file that `host` writes during the minute `t`.
pub fn filename_by_time(t: BucketTime, host: &str) -> (r: String)
    requires
        t.wf(),
    ensures
        r@ == segment_file_name(t, host@),
{
    let mut s = String::from_str("date=");
    push_year(&mut s, t.year);
    s.append("-");
    push_pad2(&mut s, t.month);
    s.append("-");
    push_pad2(&mut s, t.day);
    s.append(".hour=");
    push_pad2(&mut s, t.hour);
    s.append(".minute=");
    push_minute_slot(&mut s, t.minute, OBJECT_STORE_DATA_GRANULARITY);
    s.append(".");
    s.append(host);
    s.append(".data.arrows");
    proof {
        reveal_strlit("date=");
        reveal_strlit("-");
        reveal_strlit(".hour=");
        reveal_strlit(".minute=");
        reveal_strlit(".");
        reveal_strlit(".data.arrows");
        assert(s@ =~= segment_file_name(t, host@));
    }
    s
}

/// `name` has the extension `ext` (which holds no dot): what follows its last dot is
/// `ext`, and something precedes that dot.
pub open spec fn has_extension(name: Seq<char>, ext: Seq<char>) -> bool {
    &&& name.len() > ext.len() + 1
    &&& name[name.len() - ext.len() - 1] == '.'
    &&& name.subrange(name.len() - ext.len(), name.len() as int) == ext
}

pub open spec fn arrows_ext() -> Seq<char> {
    seq!['a', 'r', 'r', 'o', 'w', 's']
}

pub open spec fn parquet_ext() -> Seq<char> {
    seq!['p', 'a', 'r', 'q', 'u', 'e', 't']
}

/// Whether the file name `name` carries the extension `ext`.
pub fn extension_is(name: &str, ext: &str) -> (r: bool)
    ensures
        r == has_extension(name@, ext@),
{
    let n = name.unicode_len();
    let e = ext.unicode_len();
    if n <= e || n - e < 2 {
        return false;
    }
    let start: usize = n - e;
    if name.get_char(start - 1) != '.' {
        return false;
    }
    let mut i: usize = 0;
    while i < e
        invariant
            n == name@.len(),
            e == ext@.len(),
            start == n - e,
            i <= e,
            forall|j: int| 0 <= j < i ==> name@[start + j] == ext@[j],
        decreases e - i,
    {
        if name.get_char(start + i) != ext.get_char(i) {
            assert(name@.subrange(start as int, n as int)[i as int] != ext@[i as int]);
            return false;
        }
        i = i + 1;
    }
    assert(name@.subrange(start as int, n as int) =~= ext@);
    true
}

/// A row-oriented local segment file.
pub open spec fn is_arrows_file(name: Seq<char>) -> bool {
    has_extension(name, arrows_ext())
}

/// A columnar local segment file.
pub open spec fn is_parquet_file(name: Seq<char>) -> bool {
    has_extension(name, parquet_ext())
}

/// The name of the columnar file that a row-oriented file is converted to: the same
/// name with its extension swapped.
pub open spec fn parquet_name(name: Seq<char>) -> Seq<char> {
    name.subrange(0, name.len() - arrows_ext().len()) + parquet_ext()
}

/// Name of the columnar file converted from the row-oriented file `name`.
pub fn parquet_name_of(name: &str) -> (r: String)
    requires
        is_arrows_file(name@),
    ensures
        r@ == parquet_name(name@),
        is_parquet_file(r@),
{
    let n = name.unicode_len();
    let mut r = String::from_str(name.substring_char(0, n - 6));
    r.append("parquet");
    proof {
        reveal_strlit("parquet");
        assert(r@ =~= parquet_name(name@));
        assert(r@[r@.len() - 8] == name@[n - 7]);
        assert(r@.subrange(r@.len() - 7, r@.len() as int) =~= parquet_ext());
    }
    r
}

/// `s` with its first `n` dots turned into path separators.
pub open spec fn replace_dots(s: Seq<char>, n: nat) -> Seq<char>
    decreases s.len(),
{
    if s.len() == 0 {
        s
    } else if n > 0 && s[0] == '.' {
        seq!['/'] + replace_dots(s.drop_first(), (n - 1) as nat)
    } else {
        seq![s[0]] + replace_dots(s.drop_first(), n)
    }
}

/// Remote key of the columnar file `name` of `stream`: the stream, then the file name
/// with the first three dots turned back into the hierarchical time path.
pub open spec fn object_key(stream: Seq<char>, name: Seq<char>) -> Seq<char> {
    stream + seq!['/'] + replace_dots(name, 3)
}

/// Remote key under which the local columnar file `name` of `stream` is uploaded.
pub fn object_key_of(stream: &str, name: &str) -> (r: String)
    ensures
        r@ == object_key(stream@, name@),
{
    let mut r = String::from_str(stream);
    r.append("/");
    proof { reveal_strlit("/"); }
    let n = name.unicode_len();
    let mut left: usize = 3;
    let mut i: usize = 0;
    assert(name@.subrange(0, n as int) =~= name@);
    while i < n
        invariant
            n == name@.len(),
            i <= n,
            left <= 3,
            r@ + replace_dots(name@.subrange(i as int, n as int), left as nat) == object_key(
                stream@,
                name@,
            ),
        decreases n - i,
    {
        let ghost rest = name@.subrange(i as int, n as int);
        assert(rest.drop_first() =~= name@.subrange(i + 1, n as int));
        let ghost r0 = r@;
        let ghost left0 = left as nat;
        let c = name.get_char(i);
        assert(rest[0] == c);
        if left > 0 && c == '.' {
            r.append("/");
            proof { reveal_strlit("/"); }
            left = left - 1;
            assert(replace_dots(rest, left0) == seq!['/'] + replace_dots(rest.drop_first(), left as nat));
            assert(r@ =~= r0 + seq!['/']);
        } else {
            r.append(name.substring_char(i, i + 1));
            assert(name@.subrange(i as int, i + 1) =~= seq![c]);
            assert(replace_dots(rest, left0) == seq![c] + replace_dots(rest.drop_first(), left as nat));
            assert(r@ =~= r0 + seq![c]);
        }
        assert(r@ + replace_dots(rest.drop_first(), left as nat) =~= r0 + replace_dots(rest, left0));
        i = i + 1;
    }
    assert(name@.subrange(n as int, n as int) =~= Seq::<char>::empty());
    assert(r@ + Seq::<char>::empty() =~= r@);
    r
}

proof fn lemma_replace_dots_injective(a: Seq<char>, b: Seq<char>, n: nat)
    requires
        !a.contains('/'),
        !b.contains('/'),
        replace_dots(a, n) == replace_dots(b, n),
    ensures
        a == b,
    decreases a.len(),
{
    if a.len() == 0 {
        if b.len() != 0 {
            assert(replace_dots(b, n).len() >= 1);
        }
        assert(a =~= b);
    } else {
        if b.len() == 0 {
            assert(replace_dots(a, n).len() >= 1);
        }
        let ra = replace_dots(a, n);
        let rb = replace_dots(b, n);
        assert(ra[0] == rb[0]);
        assert(a[0] != '/') by {
            if a[0] == '/' {
                assert(a.contains(a[0]));
            }
        }
        assert(b[0] != '/') by {
            if b[0] == '/' {
                assert(b.contains(b[0]));
            }
        }
        assert(a[0] == b[0]);
        let m = if n > 0 && a[0] == '.' {
            (n - 1) as nat
        } else {
            n
        };
        assert(ra == seq![ra[0]] + replace_dots(a.drop_first(), m));
        assert(rb == seq![rb[0]] + replace_dots(b.drop_first(), m));
        assert(replace_dots(a.drop_first(), m) =~= ra.drop_first());
        assert(replace_dots(b.drop_first(), m) =~= rb.drop_first());
        assert(!a.drop_first().contains('/')) by {
            if a.drop_first().contains('/') {
                let k = choose|k: int| 0 <= k < a.drop_first().len() && a.drop_first()[k] == '/';
                assert(a[k + 1] == '/');
            }
        }
        assert(!b.drop_first().contains('/')) by {
            if b.drop_first().contains('/') {
                let k = choose|k: int| 0 <= k < b.drop_first().len() && b.drop_first()[k] == '/';
                assert(b[k + 1] == '/');
            }
        }
        lemma_replace_dots_injective(a.drop_first(), b.drop_first(), m);
        assert(a =~= seq![a[0]] + a.drop_first());
        assert(b =~= seq![b[0]] + b.drop_first());
    }
}

/// Distinct file names of one stream (file names hold no path separator) are uploaded
/// under distinct keys, so no upload of a pass overwrites another.
pub proof fn lemma_object_keys_distinct(stream: Seq<char>, a: Seq<char>, b: Seq<char>)
    requires
        a != b,
        !a.contains('/'),
        !b.contains('/'),
    ensures
        object_key(stream, a) != object_key(stream, b),
{
    if object_key(stream, a) == object_key(stream, b) {
        let p = stream + seq!['/'];
        assert(object_key(stream, a).subrange(p.len() as int, object_key(stream, a).len() as int)
            =~= replace_dots(a, 3));
        assert(object_key(stream, b).subrange(p.len() as int, object_key(stream, b).len() as int)
            =~= replace_dots(b, 3));
        lemma_replace_dots_injective(a, b, 3);
    }
}

/// Distinct row-oriented files are converted into distinct columnar files.
pub proof fn lemma_parquet_names_distinct(a: Seq<char>, b: Seq<char>)
    requires
        a != b,
        is_arrows_file(a),
        is_arrows_file(b),
    ensures
        parquet_name(a) != parquet_name(b),
{
    if parquet_name(a) == parquet_name(b) {
        let pa = a.subrange(0, a.len() - 6);
        let pb = b.subrange(0, b.len() - 6);
        assert(parquet_name(a).len() == pa.len() + 7);
        assert(pa =~= parquet_name(a).subrange(0, pa.len() as int));
        assert(pb =~= parquet_name(b).subrange(0, pb.len() as int));
        assert(a =~= pa + arrows_ext());
        assert(b =~= pb + arrows_ext());
    }
}

} // verus!
