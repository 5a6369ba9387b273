//! The decisions of one sync pass: which local files are converted, which are uploaded
//! under which keys, when a local file may be deleted, and which stats are pushed.
//! The pass is a state machine: the caller performs each action it returns and hands
//! back what came of it.
use vstd::prelude::*;
use crate::error::{MoveDataError, ObjectStorageError};
use crate::local_dir::{arrow_selection, names_of, parquet_selection, select_arrow_files, select_parquet_files};
use crate::naming::{is_arrows_file, is_parquet_file, object_key, object_key_of, parquet_name, parquet_name_of};

verus! {

/// What the caller is asked to do next.
#[derive(Clone, Debug)]
pub enum SyncAction {
    /// List the file names of the buffer directory of `stream`.
    ListDirectory { stream: String },
    /// Decode the row-oriented file `source`, write its rows to the columnar file
    /// `target`, then delete `source`.
    Convert { source: String, target: String },
    /// Upload the local columnar file `file` under `key`.
    Upload { file: String, key: String },
    /// Delete the local columnar file `file`, whose upload succeeded.
    RemoveUploaded { file: String },
    /// Add `bytes` to the live storage counter of `stream` and push its stats.
    PushStats { stream: String, bytes: u64 },
    /// The pass is over and succeeded.
    Finished,
    /// The pass is over and failed.
    Failed(MoveDataError),
}

/// What came of the last action.
#[derive(Clone, Debug)]
pub enum SyncEvent {
    /// The pass begins; whether the local storage root exists.
    Started { local_root_exists: bool },
    /// The directory listing, and the name of the file being written to now (`None`
    /// where it is unknown, and then no file is converted).
    Listed { entries: Vec<String>, hot: Option<String> },
    /// The conversion succeeded and its source is deleted.
    Converted,
    ConvertFailed(MoveDataError),
    /// The upload succeeded; the size of the uploaded file.
    Uploaded { size: u64 },
    UploadFailed(ObjectStorageError),
    /// The columnar file was deleted, or that failed (which the pass only counts).
    Removed { ok: bool },
    /// The stats were pushed, or that failed (which the pass only counts).
    StatsPushed { ok: bool },
}

/// Where a sync pass stands, by what it waits for.
#[derive(Clone, Copy, Debug, PartialEq, Eq, Structural)]
pub enum SyncPhase {
    /// Not begun (and, within one step, between two streams).
    Idle,
    ListingRows,
    Converting,
    ListingColumnar,
    Uploading,
    Removing,
    Reporting,
    Done,
    Failed,
}

pub open spec fn sat_add(a: u64, b: u64) -> u64 {
    if a + b > u64::MAX {
        u64::MAX
    } else {
        (a + b) as u64
    }
}

/// Every row-oriented file selected for stream `j` came back converted.
pub open spec fn rows_converted_at(
    names: Seq<Seq<char>>,
    rows: Seq<Seq<Seq<char>>>,
    converted: Set<(Seq<char>, Seq<char>)>,
    j: int,
) -> bool {
    forall|i: int| 0 <= i < rows[j].len() ==> converted.contains((names[j], #[trigger] rows[j][i]))
}

/// The file `f` of stream `j` was stored under its key, and deleted where no
/// best-effort step failed.
pub open spec fn shipped_at(
    names: Seq<Seq<char>>,
    stored: Set<Seq<char>>,
    removed: Set<(Seq<char>, Seq<char>)>,
    failures: u64,
    j: int,
    f: Seq<char>,
) -> bool {
    &&& stored.contains(object_key(names[j], f))
    &&& failures == 0 ==> removed.contains((names[j], f))
}

/// Stream `j` is done: its selected files converted, and stored and deleted.
pub open spec fn done_at(
    names: Seq<Seq<char>>,
    rows: Seq<Seq<Seq<char>>>,
    columnar: Seq<Seq<Seq<char>>>,
    converted: Set<(Seq<char>, Seq<char>)>,
    stored: Set<Seq<char>>,
    removed: Set<(Seq<char>, Seq<char>)>,
    failures: u64,
    j: int,
) -> bool {
    &&& rows_converted_at(names, rows, converted, j)
    &&& forall|i: int|
        0 <= i < columnar[j].len() ==> shipped_at(names, stored, removed, failures, j, #[trigger] columnar[j][i])
}

/// State of one sync pass over the streams `streams`, in order.
pub struct SyncPass {
    pub streams: Vec<String>,
    pub phase: SyncPhase,
    /// The stream in work (while reporting: the next stream to report).
    pub stream: usize,
    /// The files of the current stream that the phase works through.
    pub files: Vec<String>,
    /// The next of `files` to handle.
    pub next: usize,
    /// Bytes uploaded so far, per stream.
    pub uploaded: Vec<u64>,
    /// Best-effort steps that failed.
    pub soft_failures: u64,
    /// The next stream to report stats of.
    pub reported: usize,
    /// The hot file of the last listing for conversion.
    pub hot: Ghost<Option<Seq<char>>>,
    /// The row-oriented files selected for conversion, per stream reached.
    pub rows: Ghost<Seq<Seq<Seq<char>>>>,
    /// The columnar files selected for upload, per stream reached.
    pub columnar: Ghost<Seq<Seq<Seq<char>>>>,
    /// The (stream, file) pairs whose conversion came back done.
    pub converted: Ghost<Set<(Seq<char>, Seq<char>)>>,
    /// The keys whose upload came back done.
    pub stored: Ghost<Set<Seq<char>>>,
    /// The (stream, columnar file) pairs whose deletion came back done.
    pub removed: Ghost<Set<(Seq<char>, Seq<char>)>>,
}

impl SyncPass {
    /// Well-formed, where the phase's next file must be one of its files.
    pub open spec fn wf(&self) -> bool {
        &&& self.wf_inner()
        &&& (self.phase is Idle) ==> (self.stream == 0 && self.reported == 0)
    }

    /// Well-formed, but for what a pass that has not begun holds.
    pub open spec fn wf_inner(&self) -> bool {
        &&& self.wf_core()
        &&& self.history_ok()
        &&& self.upload_before_delete()
        &&& ((self.phase is Converting) || (self.phase is Uploading)) ==> (self.next
            < self.files@.len())
    }

    /// Well-formed, but for the bound on the next file of a phase.
    pub open spec fn wf_core(&self) -> bool {
        &&& self.uploaded@.len() == self.streams@.len()
        &&& self.stream <= self.streams@.len()
        &&& self.next <= self.files@.len()
        &&& (self.in_stream() ==> self.stream < self.streams@.len())
        &&& ((self.phase is Removing) ==> self.next < self.files@.len())
        &&& self.reported <= self.streams@.len()
        &&& ((self.phase is Reporting) ==> (self.reported < self.streams@.len()
            && self.uploaded@[self.reported as int] > 0 && self.stream == self.streams@.len()))
        &&& ((self.phase is Converting) ==> (forall|i: int|
            0 <= i < self.files@.len() ==> is_arrows_file(#[trigger] self.files@[i]@)
                && self.hot@ is Some && self.files@[i]@ != self.hot@->0))
        &&& (((self.phase is Uploading) || (self.phase is Removing)) ==> (forall|i: int|
            0 <= i < self.files@.len() ==> is_parquet_file(#[trigger] self.files@[i]@)))
    }

    pub open spec fn name(&self, j: int) -> Seq<char> {
        names_of(self.streams@)[j]
    }

    /// Every selected row-oriented file of stream `j` came back converted.
    pub open spec fn rows_converted(&self, j: int) -> bool {
        rows_converted_at(names_of(self.streams@), self.rows@, self.converted@, j)
    }

    /// The file `f` of stream `j` was uploaded under its key, and deleted unless a
    /// best-effort step failed.
    pub open spec fn file_shipped(&self, j: int, f: Seq<char>) -> bool {
        shipped_at(names_of(self.streams@), self.stored@, self.removed@, self.soft_failures, j, f)
    }

    /// Stream `j` is done: its files converted and shipped.
    pub open spec fn stream_done(&self, j: int) -> bool {
        done_at(
            names_of(self.streams@),
            self.rows@,
            self.columnar@,
            self.converted@,
            self.stored@,
            self.removed@,
            self.soft_failures,
            j,
        )
    }

    /// Each columnar file whose deletion the pass asked for had been stored under its key.
    pub open spec fn upload_before_delete(&self) -> bool {
        forall|x: (Seq<char>, Seq<char>)|
            #[trigger] self.removed@.contains(x) ==> self.stored@.contains(object_key(x.0, x.1))
    }

    /// Every stream before `upto` is done.
    pub open spec fn done_through(&self, upto: int) -> bool {
        forall|j: int|
            0 <= j < upto ==> #[trigger] done_at(
                names_of(self.streams@),
                self.rows@,
                self.columnar@,
                self.converted@,
                self.stored@,
                self.removed@,
                self.soft_failures,
                j,
            )
    }

    /// The phase has the stream's row-oriented selection.
    pub open spec fn past_rows(&self) -> bool {
        ||| self.phase is Converting
        ||| self.phase is ListingColumnar
        ||| self.phase is Uploading
        ||| self.phase is Removing
    }

    /// The phase has the stream's columnar selection.
    pub open spec fn past_columnar(&self) -> bool {
        self.phase is Uploading || self.phase is Removing
    }

    /// What the pass has recorded agrees with its progress (a failed pass records no
    /// more).
    pub open spec fn history_ok(&self) -> bool {
        !(self.phase is Failed) ==> self.history_agrees()
    }

    pub open spec fn history_agrees(&self) -> bool {
        &&& self.rows@.len() == self.stream + if self.past_rows() { 1int } else { 0int }
        &&& self.columnar@.len() == self.stream + if self.past_columnar() { 1int } else { 0int }
        &&& self.done_through(self.stream as int)
        &&& (self.phase is Converting) ==> (names_of(self.files@) == self.rows@[self.stream as int]
            && forall|k: int| 0 <= k < self.next ==> self.converted@.contains(
                (self.name(self.stream as int), #[trigger] self.files@[k]@),
            ))
        &&& (self.phase is ListingColumnar || self.past_columnar()) ==> self.rows_converted(
            self.stream as int,
        )
        &&& self.past_columnar() ==> (names_of(self.files@) == self.columnar@[self.stream as int]
            && forall|k: int| 0 <= k < self.next ==> self.file_shipped(
                self.stream as int,
                #[trigger] self.files@[k]@,
            ))
        &&& (self.phase is Removing) ==> self.stored@.contains(
            object_key(self.name(self.stream as int), self.files@[self.next as int]@),
        )
    }

    /// The phase works on one stream.
    pub open spec fn in_stream(&self) -> bool {
        ||| self.phase is ListingRows
        ||| self.phase is Converting
        ||| self.phase is ListingColumnar
        ||| self.phase is Uploading
        ||| self.phase is Removing
    }

    /// Whether the pass takes `event` in its current phase.
    pub open spec fn expects(&self, event: SyncEvent) -> bool {
        match self.phase {
            SyncPhase::Idle => event is Started,
            SyncPhase::ListingRows | SyncPhase::ListingColumnar => event is Listed,
            SyncPhase::Converting => event is Converted || event is ConvertFailed,
            SyncPhase::Uploading => event is Uploaded || event is UploadFailed,
            SyncPhase::Removing => event is Removed,
            SyncPhase::Reporting => event is StatsPushed,
            SyncPhase::Done | SyncPhase::Failed => false,
        }
    }

    /// Whether the pass takes `event` in its current phase.
    pub fn accepts(&self, event: &SyncEvent) -> (r: bool)
        ensures
            r == self.expects(*event),
    {
        match self.phase {
            SyncPhase::Idle => matches!(event, SyncEvent::Started { .. }),
            SyncPhase::ListingRows | SyncPhase::ListingColumnar => matches!(event, SyncEvent::Listed { .. }),
            SyncPhase::Converting => matches!(event, SyncEvent::Converted | SyncEvent::ConvertFailed(_)),
            SyncPhase::Uploading => matches!(event, SyncEvent::Uploaded { .. } | SyncEvent::UploadFailed(_)),
            SyncPhase::Removing => matches!(event, SyncEvent::Removed { .. }),
            SyncPhase::Reporting => matches!(event, SyncEvent::StatsPushed { .. }),
            SyncPhase::Done | SyncPhase::Failed => false,
        }
    }

    /// A pass over `streams` that has not begun.
    pub fn new(streams: Vec<String>) -> (r: SyncPass)
        ensures
            r.wf(),
            r.phase is Idle,
            r.streams@ == streams@,
            r.soft_failures == 0,
            forall|k: int| 0 <= k < r.uploaded@.len() ==> r.uploaded@[k] == 0,
    {
        let mut uploaded: Vec<u64> = Vec::new();
        let mut i: usize = 0;
        while i < streams.len()
            invariant
                i <= streams@.len(),
                uploaded@.len() == i,
                forall|k: int| 0 <= k < i ==> uploaded@[k] == 0,
            decreases streams@.len() - i,
        {
            uploaded.push(0);
            i = i + 1;
        }
        SyncPass {
            streams,
            phase: SyncPhase::Idle,
            stream: 0,
            files: Vec::new(),
            next: 0,
            uploaded,
            soft_failures: 0,
            reported: 0,
            hot: Ghost(None),
            rows: Ghost(Seq::empty()),
            columnar: Ghost(Seq::empty()),
            converted: Ghost(Set::empty()),
            stored: Ghost(Set::empty()),
            removed: Ghost(Set::empty()),
        }
    }

    /// Moves on to the first stream from `reported` on with uploaded bytes to report,
    /// or ends the pass.
    fn next_report(&mut self) -> (a: SyncAction)
        requires
            old(self).wf_inner(),
            old(self).phase is Idle,
            old(self).stream == old(self).streams@.len(),
        ensures
            final(self).hot == old(self).hot,
            final(self).next == old(self).next,
            a is PushStats ==> old(self).reported <= final(self).reported && forall|k: int|
                old(self).reported <= k < final(self).reported ==> old(self).uploaded@[k] == 0,
            a is Finished ==> forall|k: int|
                old(self).reported <= k < old(self).streams@.len() ==> old(self).uploaded@[k] == 0,
            final(self).files == old(self).files,
            final(self).wf(),
            a is Finished <==> final(self).phase is Done,
            !(final(self).phase is Failed),
            a is Finished || a is PushStats,
            a is PushStats ==> final(self).phase is Reporting,
            final(self).streams == old(self).streams,
            final(self).uploaded == old(self).uploaded,
            final(self).stream == old(self).stream,
            final(self).soft_failures == old(self).soft_failures,
            final(self).rows == old(self).rows,
            final(self).columnar == old(self).columnar,
            final(self).converted == old(self).converted,
            final(self).stored == old(self).stored,
            final(self).removed == old(self).removed,
            a matches SyncAction::PushStats { stream, bytes } ==> (final(self).reported
                < final(self).streams@.len() && stream@ == final(self).streams@[final(
                self).reported as int]@ && bytes == final(self).uploaded@[final(self).reported as int]
                && bytes > 0),
    {
        let mut k: usize = self.reported;
        while k < self.streams.len() && self.uploaded[k] == 0
            invariant
                self.wf_inner(),
                old(self).reported <= k <= self.streams@.len(),
                *self == *old(self),
                forall|j: int| old(self).reported <= j < k ==> self.uploaded@[j] == 0,
            decreases self.streams@.len() - k,
        {
            k = k + 1;
        }
        self.reported = k;
        if k < self.streams.len() {
            self.phase = SyncPhase::Reporting;
            SyncAction::PushStats { stream: self.streams[k].clone(), bytes: self.uploaded[k] }
        } else {
            self.phase = SyncPhase::Done;
            SyncAction::Finished
        }
    }

    /// Starts on the stream `stream`, or on the stats once every stream is done.
    fn begin_stream(&mut self) -> (a: SyncAction)
        requires
            old(self).wf_inner(),
            old(self).phase is Idle,
        ensures
            final(self).hot == old(self).hot,
            final(self).next == old(self).next,
            old(self).stream < old(self).streams@.len() ==> (a matches SyncAction::ListDirectory {
                stream } && stream@ == old(self).streams@[old(self).stream as int]@),
            a is PushStats ==> forall|k: int| 0 <= k < final(self).reported ==> old(self).uploaded@[k] == 0,
            a is Finished ==> forall|k: int| 0 <= k < old(self).streams@.len() ==> old(self).uploaded@[k] == 0,
            final(self).files == old(self).files,
            final(self).wf(),
            a is Finished <==> final(self).phase is Done,
            !(final(self).phase is Failed),
            a is ListDirectory || a is PushStats || a is Finished,
            a is ListDirectory ==> final(self).phase is ListingRows,
            a is PushStats ==> final(self).phase is Reporting,
            !(a is ListDirectory) ==> final(self).stream == final(self).streams@.len(),
            final(self).streams == old(self).streams,
            final(self).uploaded == old(self).uploaded,
            final(self).stream == old(self).stream,
            final(self).soft_failures == old(self).soft_failures,
            final(self).rows == old(self).rows,
            final(self).columnar == old(self).columnar,
            final(self).converted == old(self).converted,
            final(self).stored == old(self).stored,
            final(self).removed == old(self).removed,
            a matches SyncAction::PushStats { stream, bytes } ==> (final(self).reported
                < final(self).streams@.len() && stream@ == final(self).streams@[final(
                self).reported as int]@ && bytes == final(self).uploaded@[final(self).reported as int]
                && bytes > 0),
    {
        if self.stream < self.streams.len() {
            self.phase = SyncPhase::ListingRows;
            SyncAction::ListDirectory { stream: self.streams[self.stream].clone() }
        } else {
            self.reported = 0;
            self.next_report()
        }
    }

    /// Asks for the next conversion of the stream in work, or for its columnar files.
    fn next_conversion(&mut self) -> (a: SyncAction)
        requires
            old(self).wf_core(),
            old(self).history_ok(),
            old(self).upload_before_delete(),
            old(self).phase is Converting,
        ensures
            final(self).hot == old(self).hot,
            final(self).next == old(self).next,
            old(self).next < old(self).files@.len() ==> a is Convert,
            old(self).next >= old(self).files@.len() ==> (a matches SyncAction::ListDirectory {
                stream } && stream@ == old(self).streams@[old(self).stream as int]@),
            a matches SyncAction::Convert { source, target } ==> (final(self).hot@ is Some
                && source@ != final(self).hot@->0),
            final(self).wf(),
            a is Convert || a is ListDirectory,
            a is ListDirectory ==> final(self).phase is ListingColumnar,
            final(self).streams == old(self).streams,
            final(self).uploaded == old(self).uploaded,
            final(self).stream == old(self).stream,
            final(self).files == old(self).files,
            final(self).soft_failures == old(self).soft_failures,
            final(self).rows == old(self).rows,
            final(self).columnar == old(self).columnar,
            final(self).converted == old(self).converted,
            final(self).stored == old(self).stored,
            final(self).removed == old(self).removed,
            a matches SyncAction::Convert { source, target } ==> (final(self).phase is Converting
                && source@ == final(self).files@[final(self).next as int]@ && is_arrows_file(
                source@,
            ) && target@ == parquet_name(source@)),
    {
        if self.next < self.files.len() {
            let source = self.files[self.next].clone();
            let target = parquet_name_of(source.as_str());
            SyncAction::Convert { source, target }
        } else {
            proof {
                let j = self.stream as int;
                assert forall|i: int| 0 <= i < self.rows@[j].len() implies self.converted@.contains(
                    (self.name(j), #[trigger] self.rows@[j][i]),
                ) by {
                    assert(names_of(self.files@)[i] == self.files@[i]@);
                }
            }
            self.phase = SyncPhase::ListingColumnar;
            SyncAction::ListDirectory { stream: self.streams[self.stream].clone() }
        }
    }

    /// Asks for the next upload of the stream in work, or moves on to the next stream.
    fn next_upload(&mut self) -> (a: SyncAction)
        requires
            old(self).wf_core(),
            old(self).history_ok(),
            old(self).upload_before_delete(),
            old(self).phase is Uploading,
        ensures
            final(self).hot == old(self).hot,
            old(self).next < old(self).files@.len() ==> a is Upload,
            old(self).next >= old(self).files@.len() ==> (!(a is Upload) && final(self).stream
                == old(self).stream + 1),
            old(self).next >= old(self).files@.len() ==> (a matches SyncAction::ListDirectory {
                stream } ==> stream@ == old(self).streams@[old(self).stream + 1]@),
            a is PushStats ==> forall|k: int| 0 <= k < final(self).reported ==> old(self).uploaded@[k] == 0,
            a is Finished ==> forall|k: int| 0 <= k < old(self).streams@.len() ==> old(self).uploaded@[k] == 0,
            final(self).files == old(self).files,
            final(self).wf(),
            a is Finished <==> final(self).phase is Done,
            !(final(self).phase is Failed),
            a is Upload || a is ListDirectory || a is PushStats || a is Finished,
            a is ListDirectory ==> final(self).phase is ListingRows,
            a is PushStats ==> final(self).phase is Reporting,
            (a is PushStats || a is Finished) ==> final(self).stream == final(self).streams@.len(),
            final(self).streams == old(self).streams,
            final(self).uploaded == old(self).uploaded,
            final(self).soft_failures == old(self).soft_failures,
            final(self).rows == old(self).rows,
            final(self).columnar == old(self).columnar,
            final(self).converted == old(self).converted,
            final(self).stored == old(self).stored,
            final(self).removed == old(self).removed,
            a matches SyncAction::Upload { file, key } ==> (final(self).phase is Uploading
                && final(self).stream == old(self).stream && final(self).files == old(self).files
                && final(self).next == old(self).next && file@ == final(self).files@[final(
                self).next as int]@ && is_parquet_file(file@) && key@ == object_key(
                final(self).streams@[final(self).stream as int]@,
                file@,
            )),
            a matches SyncAction::PushStats { stream, bytes } ==> (final(self).reported
                < final(self).streams@.len() && stream@ == final(self).streams@[final(
                self).reported as int]@ && bytes == final(self).uploaded@[final(self).reported as int]
                && bytes > 0),
    {
        if self.next < self.files.len() {
            let file = self.files[self.next].clone();
            let key = object_key_of(self.streams[self.stream].as_str(), file.as_str());
            SyncAction::Upload { file, key }
        } else {
            proof {
                let j = self.stream as int;
                assert forall|i: int| 0 <= i < self.columnar@[j].len() implies self.file_shipped(
                    j,
                    #[trigger] self.columnar@[j][i],
                ) by {
                    assert(names_of(self.files@)[i] == self.files@[i]@);
                }
                assert(self.stream_done(j));
            }
            self.phase = SyncPhase::Idle;
            let _ = self.streams.len();
            self.stream = self.stream + 1;
            proof {
                assert forall|j: int| 0 <= j < self.stream implies #[trigger] self.stream_done(j) by {
                    if j < self.stream - 1 {
                        assert(old(self).stream_done(j));
                    }
                }
            }
            self.begin_stream()
        }
    }

    /// Takes what came of the last action and returns the next one.
    pub fn step(&mut self, event: SyncEvent) -> (a: SyncAction)
        requires
            old(self).wf(),
            old(self).expects(event),
        ensures
            !(event is UploadFailed) && !(event is ConvertFailed) ==> !(a is Failed),
            event matches SyncEvent::Started { local_root_exists } && local_root_exists ==> ((
            old(self).streams@.len() > 0 ==> (a matches SyncAction::ListDirectory { stream }
                && stream@ == old(self).streams@[0]@)) && (old(self).streams@.len() == 0 ==> a
                is Finished)),
            event matches SyncEvent::Listed { entries, hot } ==> (old(self).phase is ListingRows
                ==> final(self).hot@ == (match hot {
                Some(h) => Some(h@),
                None => None::<Seq<char>>,
            }) && names_of(final(self).files@) == (match hot {
                Some(h) => arrow_selection(names_of(entries@), h@),
                None => Seq::<Seq<char>>::empty(),
            }) && final(self).rows@ == old(self).rows@.push(names_of(final(self).files@))
                && final(self).next == 0 && final(self).stream == old(self).stream && (final(
                self).files@.len() > 0 ==> a is Convert) && (final(self).files@.len() == 0 ==> (
            a matches SyncAction::ListDirectory { stream } && stream@ == old(self).streams@[old(
                self).stream as int]@))),
            event matches SyncEvent::Listed { entries, hot } ==> (old(self).phase
                is ListingColumnar ==> names_of(final(self).files@) == parquet_selection(
                names_of(entries@),
            ) && final(self).columnar@ == old(self).columnar@.push(
                parquet_selection(names_of(entries@)),
            ) && (final(self).files@.len() > 0 ==> (a is Upload && final(self).next == 0
                && final(self).stream == old(self).stream)) && (final(self).files@.len() == 0 ==> (
            !(a is Upload) && final(self).stream == old(self).stream + 1))),
            a matches SyncAction::Convert { source, target } ==> (final(self).phase is Converting
                && final(self).next < final(self).files@.len() && source@ == final(self).files@[final(
                self).next as int]@ && final(self).hot@ is Some && source@ != final(self).hot@->0),
            a matches SyncAction::Upload { file, key } ==> (final(self).phase is Uploading
                && final(self).next < final(self).files@.len() && file@ == final(self).files@[final(
                self).next as int]@),
            event is Converted ==> (final(self).files == old(self).files && final(self).stream
                == old(self).stream && (old(self).next + 1 < old(self).files@.len() ==> (a
                is Convert && final(self).next == old(self).next + 1)) && (old(self).next + 1
                >= old(self).files@.len() ==> (a matches SyncAction::ListDirectory { stream }
                && stream@ == old(self).streams@[old(self).stream as int]@))),
            event is Uploaded ==> (final(self).files == old(self).files && final(self).next
                == old(self).next && final(self).stream == old(self).stream),
            event is Removed ==> ((old(self).next + 1 < old(self).files@.len() ==> (a is Upload
                && final(self).next == old(self).next + 1 && final(self).files == old(self).files
                && final(self).stream == old(self).stream)) && (old(self).next + 1 >= old(
                self).files@.len() ==> (!(a is Upload) && final(self).stream == old(self).stream
                + 1))),
            event is StatsPushed ==> ((a is PushStats || a is Finished) && (a is PushStats ==> (
            old(self).reported < final(self).reported && forall|k: int|
                old(self).reported < k < final(self).reported ==> old(self).uploaded@[k] == 0))
                && (a is Finished ==> forall|k: int|
                old(self).reported < k < old(self).streams@.len() ==> old(self).uploaded@[k] == 0)),
            (a is PushStats && !(event is StatsPushed)) ==> forall|k: int|
                0 <= k < final(self).reported ==> final(self).uploaded@[k] == 0,
            (a is Finished && !(event is StatsPushed) && final(self).stream == final(
                self).streams@.len()) ==> forall|k: int|
                0 <= k < final(self).streams@.len() ==> final(self).uploaded@[k] == 0,
            final(self).wf(),
            final(self).streams == old(self).streams,
            event matches SyncEvent::Started { local_root_exists } && !local_root_exists ==> (a
                is Finished && final(self).phase is Done),
            a is Finished ==> (final(self).stream == final(self).streams@.len() || (
            event matches SyncEvent::Started { local_root_exists } && !local_root_exists)),
            a matches SyncAction::Convert { source, target } ==> (is_arrows_file(source@)
                && target@ == parquet_name(source@)),
            a matches SyncAction::Upload { file, key } ==> (is_parquet_file(file@) && key@
                == object_key(final(self).streams@[final(self).stream as int]@, file@)),
            a matches SyncAction::RemoveUploaded { file } ==> (old(self).phase is Uploading
                && event is Uploaded && file@ == old(self).files@[old(self).next as int]@),
            event matches SyncEvent::UploadFailed(e) ==> (a == SyncAction::Failed(
                MoveDataError::ObjectStorage(e),
            ) && final(self).phase is Failed),
            event matches SyncEvent::ConvertFailed(e) ==> (a == SyncAction::Failed(e) && final(self).phase is Failed),
            event matches SyncEvent::Uploaded { size } ==> (a is RemoveUploaded && final(self).uploaded@
                == old(self).uploaded@.update(
                old(self).stream as int,
                sat_add(old(self).uploaded@[old(self).stream as int], size),
            )),
            !(event is Uploaded) ==> final(self).uploaded == old(self).uploaded,
            a matches SyncAction::PushStats { stream, bytes } ==> (final(self).reported
                < final(self).streams@.len() && stream@ == final(self).streams@[final(
                self).reported as int]@ && bytes == final(self).uploaded@[final(self).reported as int]
                && bytes > 0),
            a is Finished <==> final(self).phase is Done,
            a is Failed <==> final(self).phase is Failed,
    {
        match event {
            SyncEvent::Started { local_root_exists } => {
                if local_root_exists {
                    self.begin_stream()
                } else {
                    self.phase = SyncPhase::Done;
                    SyncAction::Finished
                }
            },
            SyncEvent::Listed { entries, hot } => {
                if self.phase == SyncPhase::ListingRows {
                    let files = match &hot {
                        Some(h) => select_arrow_files(&entries, h),
                        None => {
                            let none: Vec<String> = Vec::new();
                            assert(names_of(none@) =~= Seq::<Seq<char>>::empty());
                            none
                        },
                    };
                    proof {
                        self.hot = Ghost(
                            match hot {
                                Some(h) => Some(h@),
                                None => None,
                            },
                        );
                    }
                    proof {
                        assert forall|i: int| 0 <= i < files@.len() implies is_arrows_file(
                            #[trigger] files@[i]@,
                        ) && self.hot@ is Some && files@[i]@ != self.hot@->0 by {
                            assert(names_of(files@)[i] == files@[i]@);
                            if let Some(h) = hot {
                                names_of(entries@).lemma_filter_pred(crate::local_dir::convertible(h@), i);
                            }
                        }
                    }
                    self.files = files;
                    self.next = 0;
                    self.rows = Ghost(self.rows@.push(names_of(self.files@)));
                    self.phase = SyncPhase::Converting;
                    proof {
                        lemma_done_kept(*old(self), *self, self.stream as int);
                    }
                    self.next_conversion()
                } else {
                    let files = select_parquet_files(&entries);
                    proof {
                        assert forall|i: int| 0 <= i < files@.len() implies is_parquet_file(
                            #[trigger] files@[i]@,
                        ) by {
                            assert(names_of(files@)[i] == files@[i]@);
                            names_of(entries@).lemma_filter_pred(|e: Seq<char>| is_parquet_file(e), i);
                        }
                    }
                    self.files = files;
                    self.next = 0;
                    self.columnar = Ghost(self.columnar@.push(names_of(self.files@)));
                    self.phase = SyncPhase::Uploading;
                    proof {
                        lemma_done_kept(*old(self), *self, self.stream as int);
                    }
                    self.next_upload()
                }
            },
            SyncEvent::Converted => {
                let ghost done = (self.name(self.stream as int), self.files@[self.next as int]@);
                self.converted = Ghost(self.converted@.insert(done));
                let _ = self.files.len();
                self.next = self.next + 1;
                proof {
                    lemma_done_kept(*old(self), *self, self.stream as int);
                }
                self.next_conversion()
            },
            SyncEvent::ConvertFailed(e) => {
                self.phase = SyncPhase::Failed;
                SyncAction::Failed(e)
            },
            SyncEvent::Uploaded { size } => {
                let total = self.uploaded[self.stream].saturating_add(size);
                self.uploaded.set(self.stream, total);
                let ghost key = object_key(self.name(self.stream as int), self.files@[self.next as int]@);
                self.stored = Ghost(self.stored@.insert(key));
                self.phase = SyncPhase::Removing;
                proof {
                    lemma_done_kept(*old(self), *self, self.stream as int);
                }
                SyncAction::RemoveUploaded { file: self.files[self.next].clone() }
            },
            SyncEvent::UploadFailed(e) => {
                self.phase = SyncPhase::Failed;
                SyncAction::Failed(MoveDataError::ObjectStorage(e))
            },
            SyncEvent::Removed { ok } => {
                if ok {
                    let ghost gone = (self.name(self.stream as int), self.files@[self.next as int]@);
                    self.removed = Ghost(self.removed@.insert(gone));
                } else if self.soft_failures < u64::MAX {
                    self.soft_failures = self.soft_failures + 1;
                }
                let _ = self.files.len();
                self.next = self.next + 1;
                self.phase = SyncPhase::Uploading;
                proof {
                    lemma_done_kept(*old(self), *self, self.stream as int);
                }
                self.next_upload()
            },
            SyncEvent::StatsPushed { ok } => {
                if !ok && self.soft_failures < u64::MAX {
                    self.soft_failures = self.soft_failures + 1;
                }
                proof {
                    lemma_done_kept(*old(self), *self, self.stream as int);
                }
                self.phase = SyncPhase::Idle;
                self.reported = self.reported + 1;
                self.next_report()
            },
        }
    }
} // impl

/// Upload comes before deletion: whatever state a pass is in, failed ones included, a
/// local columnar file was only deleted after it was stored under its derived key, so a
/// file whose upload failed is still on disk.
pub proof fn lemma_deleted_only_after_upload(p: SyncPass, stream: Seq<char>, file: Seq<char>)
    requires
        p.wf(),
        p.removed@.contains((stream, file)),
    ensures
        p.stored@.contains(object_key(stream, file)),
{
}

/// The streams done before `old` stay done in `new`, which records at least as much.
proof fn lemma_done_kept(old: SyncPass, new: SyncPass, upto: int)
    requires
        0 <= upto <= old.rows@.len(),
        upto <= old.columnar@.len(),
        upto <= new.rows@.len(),
        upto <= new.columnar@.len(),
        old.done_through(upto),
        new.streams@ == old.streams@,
        forall|j: int| 0 <= j < upto ==> new.rows@[j] == old.rows@[j],
        forall|j: int| 0 <= j < upto ==> new.columnar@[j] == old.columnar@[j],
        old.converted@.subset_of(new.converted@),
        old.stored@.subset_of(new.stored@),
        old.removed@.subset_of(new.removed@),
        new.soft_failures == 0 ==> old.soft_failures == 0,
    ensures
        new.done_through(upto),
{
    assert forall|j: int| 0 <= j < upto implies #[trigger] done_at(
        names_of(new.streams@),
        new.rows@,
        new.columnar@,
        new.converted@,
        new.stored@,
        new.removed@,
        new.soft_failures,
        j,
    ) by {
        assert(old.stream_done(j));
        assert forall|i: int| 0 <= i < new.rows@[j].len() implies new.converted@.contains(
            (names_of(new.streams@)[j], #[trigger] new.rows@[j][i]),
        ) by {
            assert(old.converted@.contains((names_of(old.streams@)[j], old.rows@[j][i])));
        }
        assert forall|i: int| 0 <= i < new.columnar@[j].len() implies shipped_at(
            names_of(new.streams@),
            new.stored@,
            new.removed@,
            new.soft_failures,
            j,
            #[trigger] new.columnar@[j][i],
        ) by {
            assert(shipped_at(
                names_of(old.streams@),
                old.stored@,
                old.removed@,
                old.soft_failures,
                j,
                old.columnar@[j][i],
            ));
        }
    }
}

/// After a pass that finished over every stream with no failed step, each row-oriented
/// file selected for conversion came back converted, and each columnar file selected for
/// upload was stored under its derived key and deleted locally.
pub proof fn lemma_clean_pass_ships_everything(p: SyncPass)
    requires
        p.wf(),
        p.phase is Done,
        p.stream == p.streams@.len(),
        p.soft_failures == 0,
    ensures
        forall|j: int, i: int|
            0 <= j < p.streams@.len() && 0 <= i < p.rows@[j].len() ==> p.converted@.contains(
                (p.streams@[j]@, #[trigger] p.rows@[j][i]),
            ),
        forall|j: int, i: int|
            0 <= j < p.streams@.len() && 0 <= i < p.columnar@[j].len() ==> p.stored@.contains(
                object_key(p.streams@[j]@, #[trigger] p.columnar@[j][i]),
            ) && p.removed@.contains((p.streams@[j]@, p.columnar@[j][i])),
{
    assert forall|j: int, i: int|
        0 <= j < p.streams@.len() && 0 <= i < p.rows@[j].len() implies p.converted@.contains(
            (p.streams@[j]@, #[trigger] p.rows@[j][i]),
        ) by {
        assert(p.stream_done(j));
    }
    assert forall|j: int, i: int|
        0 <= j < p.streams@.len() && 0 <= i < p.columnar@[j].len() implies p.stored@.contains(
            object_key(p.streams@[j]@, #[trigger] p.columnar@[j][i]),
        ) && p.removed@.contains((p.streams@[j]@, p.columnar@[j][i])) by {
        assert(p.stream_done(j));
        assert(p.file_shipped(j, p.columnar@[j][i]));
    }
}

} // verus!
