//! Reading the transfer's output stream: cutting what arrives into lines,
//! turning each line into events, and joining the two streams' ends into
//! one completion.
use vstd::prelude::*;
use vstd::string::StrSliceExecFns;
use crate::progress::{parse_rsync_progress, progress_of, ProgressView, RsyncProgress};
use crate::text::{is_space, is_space_char};

verus! {

/// A file-list entry, as the transfer prints it for each item it sends.
pub struct FileEvent {
    /// How many items the stream has announced, this one included.
    pub ordinal: u64,
    /// The item's name, the last field of the line.
    pub name: String,
}

/// A progress line, with the job-wide count that stood when it came.
pub struct ProgressUpdate {
    /// Items announced before this line.
    pub files_done: u64,
    /// Items the whole job has to work through.
    pub total_units: u64,
    pub record: RsyncProgress,
}

/// What the stream readers hand to the aggregator.
pub enum JobEvent {
    Progress(ProgressUpdate),
    File(FileEvent),
    Error(String),
    Completed,
}

pub enum JobEventView {
    Progress { files_done: u64, total_units: u64, record: ProgressView },
    File { ordinal: u64, name: Seq<char> },
    Error(Seq<char>),
    Completed,
}

impl View for JobEvent {
    type V = JobEventView;

    open spec fn view(&self) -> JobEventView {
        match self {
            JobEvent::Progress(u) => JobEventView::Progress {
                files_done: u.files_done,
                total_units: u.total_units,
                record: u.record@,
            },
            JobEvent::File(f) => JobEventView::File { ordinal: f.ordinal, name: f.name@ },
            JobEvent::Error(e) => JobEventView::Error(e@),
            JobEvent::Completed => JobEventView::Completed,
        }
    }
}

pub open spec fn events_view(v: Seq<JobEvent>) -> Seq<JobEventView> {
    v.map_values(|e: JobEvent| e@)
}

pub open spec fn is_break(c: char) -> bool {
    c == '\r' || c == '\n'
}

/// First position at or after `i` holding a line break (or the end).
pub open spec fn break_from(s: Seq<char>, i: int) -> int
    decreases s.len() - i,
{
    if 0 <= i < s.len() && !is_break(s[i]) {
        break_from(s, i + 1)
    } else {
        i
    }
}

/// The non-empty pieces of `s[i..]` between carriage returns and newlines.
pub open spec fn segments_from(s: Seq<char>, i: int) -> Seq<Seq<char>>
    decreases s.len() - i,
{
    let e = break_from(s, i);
    if 0 <= i <= e < s.len() {
        let head = if e > i {
            seq![s.subrange(i, e)]
        } else {
            seq![]
        };
        head + segments_from(s, e + 1)
    } else if 0 <= i < s.len() {
        seq![s.subrange(i, s.len() as int)]
    } else {
        seq![]
    }
}

/// Start of the token that ends at `j`.
pub open spec fn token_start(s: Seq<char>, j: int) -> int
    decreases j,
{
    if 0 < j <= s.len() && !is_space(s[j - 1]) {
        token_start(s, j - 1)
    } else {
        j
    }
}

/// A line that announces an item sent (`>`) or received (`<`): the marker
/// is its first character.
pub open spec fn is_file_line(l: Seq<char>) -> bool {
    l.len() > 0 && (l[0] == '>' || l[0] == '<')
}

/// The last whitespace-separated field of a line, empty where the line
/// ends in whitespace.
pub open spec fn last_field(l: Seq<char>) -> Seq<char> {
    l.subrange(token_start(l, l.len() as int), l.len() as int)
}

pub open spec fn next_count(n: u64) -> u64 {
    if n < u64::MAX {
        (n + 1) as u64
    } else {
        n
    }
}

/// The events a line of the output stream gives, with `seen` items
/// announced before it.
pub open spec fn line_events(seen: u64, total: u64, l: Seq<char>) -> Seq<JobEventView> {
    let p = match progress_of(l) {
        Some(r) => seq![JobEventView::Progress { files_done: seen, total_units: total, record: r }],
        None => seq![],
    };
    if is_file_line(l) {
        p.push(JobEventView::File { ordinal: next_count(seen), name: last_field(l) })
    } else {
        p
    }
}

pub open spec fn count_after(seen: u64, l: Seq<char>) -> u64 {
    if is_file_line(l) {
        next_count(seen)
    } else {
        seen
    }
}

fn is_break_char(c: char) -> (r: bool)
    ensures
        r == is_break(c),
{
    c == '\r' || c == '\n'
}

fn find_break(s: &str, len: usize, i: usize) -> (r: usize)
    requires
        len == s@.len(),
        i <= len,
    ensures
        r == break_from(s@, i as int),
        i <= r <= len,
{
    let mut j = i;
    while j < len && !is_break_char(s.get_char(j))
        invariant
            len == s@.len(),
            i <= j <= len,
            break_from(s@, i as int) == break_from(s@, j as int),
        decreases len - j,
    {
        j = j + 1;
    }
    j
}

fn token_start_exec(s: &str, len: usize, j: usize) -> (r: usize)
    requires
        len == s@.len(),
        j <= len,
    ensures
        r == token_start(s@, j as int),
        r <= j,
{
    let mut k = j;
    while k > 0 && !is_space_char(s.get_char(k - 1))
        invariant
            len == s@.len(),
            k <= j <= len,
            token_start(s@, j as int) == token_start(s@, k as int),
        decreases k,
    {
        k = k - 1;
    }
    k
}

/// Cuts what was read from a stream into lines: the transfer rewrites its
/// progress line in place with carriage returns, so both carriage return and
/// newline end a line. Empty pieces are dropped.
pub fn split_segments(chunk: &str) -> (r: Vec<String>)
    ensures
        r@.map_values(|x: String| x@) == segments_from(chunk@, 0),
{
    let len = chunk.unicode_len();
    let mut out: Vec<String> = Vec::new();
    let mut i: usize = 0;
    while i < len
        invariant
            len == chunk@.len(),
            i <= len,
            out@.map_values(|x: String| x@) + segments_from(chunk@, i as int) == segments_from(
                chunk@,
                0,
            ),
        decreases len - i,
    {
        let e = find_break(chunk, len, i);
        let ghost before = out@;
        if e > i {
            out.push(chunk.substring_char(i, e).to_owned());
        }
        if e < len {
            assert(out@.map_values(|x: String| x@) + segments_from(chunk@, e + 1) =~= before.map_values(
                |x: String| x@,
            ) + segments_from(chunk@, i as int));
            i = e + 1;
        } else {
            assert(out@.map_values(|x: String| x@) =~= before.map_values(|x: String| x@)
                + segments_from(chunk@, i as int));
            assert(segments_from(chunk@, len as int) =~= Seq::<Seq<char>>::empty());
            i = len;
        }
    }
    assert(segments_from(chunk@, i as int) =~= Seq::<Seq<char>>::empty());
    assert(out@.map_values(|x: String| x@) =~= segments_from(chunk@, 0));
    out
}

/// Whether a line announces an item sent or received.
pub fn file_line(l: &str) -> (r: bool)
    ensures
        r == is_file_line(l@),
{
    if l.unicode_len() > 0 {
        let c = l.get_char(0);
        c == '>' || c == '<'
    } else {
        false
    }
}

/// The last whitespace-separated field of a line, the name of the item it
/// announces; empty where the line ends in whitespace.
pub fn file_name(l: &str) -> (r: String)
    ensures
        r@ == last_field(l@),
{
    let len = l.unicode_len();
    let a = token_start_exec(l, len, len);
    l.substring_char(a, len).to_owned()
}

/// The reader of the transfer's output stream: counts announced items and
/// turns lines into events.
pub struct OutputPump {
    files_seen: u64,
    total_units: u64,
}

impl OutputPump {
    pub closed spec fn seen(&self) -> u64 {
        self.files_seen
    }

    pub closed spec fn total(&self) -> u64 {
        self.total_units
    }

    /// A reader for a job of `total_units` items.
    pub fn new(total_units: u64) -> (r: OutputPump)
        ensures
            r.seen() == 0,
            r.total() == total_units,
    {
        OutputPump { files_seen: 0, total_units }
    }

    /// Items announced so far.
    pub fn files_seen(&self) -> (r: u64)
        ensures
            r == self.seen(),
    {
        self.files_seen
    }

    /// The events of one line: a progress event carrying the count so far,
    /// and, for a file-list entry, a file event after the count is raised.
    pub fn feed_line(&mut self, line: &str) -> (r: Vec<JobEvent>)
        ensures
            events_view(r@) == line_events(old(self).seen(), old(self).total(), line@),
            final(self).seen() == count_after(old(self).seen(), line@),
            final(self).total() == old(self).total(),
    {
        let mut out: Vec<JobEvent> = Vec::new();
        match parse_rsync_progress(line) {
            Some(record) => {
                out.push(
                    JobEvent::Progress(
                        ProgressUpdate {
                            files_done: self.files_seen,
                            total_units: self.total_units,
                            record,
                        },
                    ),
                );
            },
            None => {},
        }
        let ghost mid = out@;
        assert(events_view(mid) =~= match progress_of(line@) {
            Some(r) => seq![
                JobEventView::Progress {
                    files_done: old(self).seen(),
                    total_units: old(self).total(),
                    record: r,
                },
            ],
            None => seq![],
        });
        if file_line(line) {
            if self.files_seen < u64::MAX {
                self.files_seen = self.files_seen + 1;
            }
            let name = file_name(line);
            out.push(JobEvent::File(FileEvent { ordinal: self.files_seen, name }));
        }
        assert(events_view(out@) =~= line_events(old(self).seen(), old(self).total(), line@));
        out
    }
}

/// Joins the ends of a job's streams: the last stream to close, and only
/// that one, is told to send the completion event.
pub struct CompletionLatch {
    open: u64,
}

pub open spec fn close_step(open: nat) -> nat {
    if open > 0 {
        (open - 1) as nat
    } else {
        0
    }
}

/// The close that finds one stream open is the one that completes the job.
pub open spec fn close_completes(open: nat) -> bool {
    open == 1
}

/// Streams still open after `k` closes, `n` at the start.
pub open spec fn open_after(n: nat, k: nat) -> nat
    decreases k,
{
    if k == 0 {
        n
    } else {
        close_step(open_after(n, (k - 1) as nat))
    }
}

/// How many of the first `k` closes completed the job.
pub open spec fn completions(n: nat, k: nat) -> nat
    decreases k,
{
    if k == 0 {
        0
    } else {
        completions(n, (k - 1) as nat) + if close_completes(open_after(n, (k - 1) as nat)) {
            1nat
        } else {
            0nat
        }
    }
}

impl CompletionLatch {
    pub closed spec fn open_streams(&self) -> nat {
        self.open as nat
    }

    /// A latch for `streams` streams.
    pub fn new(streams: u64) -> (r: CompletionLatch)
        ensures
            r.open_streams() == streams,
    {
        CompletionLatch { open: streams }
    }

    /// Records that one stream reached its end; true when it was the last.
    pub fn stream_closed(&mut self) -> (r: bool)
        ensures
            r == close_completes(old(self).open_streams()),
            final(self).open_streams() == close_step(old(self).open_streams()),
    {
        if self.open > 0 {
            self.open = self.open - 1;
            self.open == 0
        } else {
            false
        }
    }
}

/// However the ends of `n` streams come, the completion is signalled exactly
/// once once all have closed, by the `n`-th close, and never before.
pub proof fn lemma_one_completion(n: nat, k: nat)
    requires
        n > 0,
    ensures
        completions(n, k) == (if k >= n {
            1nat
        } else {
            0nat
        }),
        k > 0 ==> (close_completes(open_after(n, (k - 1) as nat)) <==> k == n),
    decreases k,
{
    lemma_open_after(n, k);
    if k > 0 {
        lemma_one_completion(n, (k - 1) as nat);
        lemma_open_after(n, (k - 1) as nat);
    }
}

proof fn lemma_open_after(n: nat, k: nat)
    ensures
        open_after(n, k) == (if k <= n {
            (n - k) as nat
        } else {
            0nat
        }),
    decreases k,
{
    if k > 0 {
        lemma_open_after(n, (k - 1) as nat);
    }
}

} // verus!
