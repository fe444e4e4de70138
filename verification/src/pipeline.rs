//! The bounded-concurrency download pipeline, as a state machine.
//!
//! A `Batch` holds one `TransferState` per selected resource. The driver
//! acquires a pool slot by `start` (never more than `capacity` transfers
//! active at once), feeds each received chunk through `record_chunk`, and
//! ends the transfer with `close`, releasing the slot. Every transition
//! preserves the batch invariant and touches no sibling transfer, so one
//! failing download cannot disturb another.
use crate::cdn;
use vstd::prelude::*;

verus! {

/// Why a single download ended without its file being complete. Each is
/// terminal for that transfer only; siblings are unaffected.
#[derive(Debug, Clone, Copy, PartialEq, Eq, Structural)]
pub enum DownloadError {
    /// The request could not be sent or the response never arrived.
    Transport,
    /// The destination's parent directory could not be created.
    DirCreate,
    /// The destination file could not be created.
    FileCreate,
    /// Reading a chunk from the response stream failed.
    StreamRead,
    /// Writing a chunk to the destination file failed.
    FileWrite,
}

/// Where one transfer stands: waiting for a pool slot, holding a slot with
/// its request in flight, or finished with its outcome.
#[derive(Debug, Clone, Copy)]
pub enum Phase {
    Queued,
    Active,
    Done(Result<(), DownloadError>),
}

/// One in-flight download: its URL, destination path, the size the
/// manifest promised, and how many bytes have been received and written.
/// `written` records the exact bytes handed to the file writer.
pub struct TransferState {
    pub url: String,
    pub destination: String,
    pub expected_size: u64,
    pub bytes_downloaded: u64,
    pub written: Ghost<Seq<u8>>,
    pub phase: Phase,
}

impl TransferState {
    /// The byte counter always equals the length of what was handed to the
    /// writer, and nothing is written before the transfer starts.
    pub open spec fn wf(&self) -> bool {
        &&& self.bytes_downloaded == self.written@.len()
        &&& self.phase is Queued ==> self.written@ =~= Seq::<u8>::empty()
    }
}

/// How many transfers of `ts` are active, that is, hold a pool slot.
pub open spec fn count_active(ts: Seq<TransferState>) -> nat
    decreases ts.len(),
{
    if ts.len() == 0 {
        0
    } else {
        count_active(ts.drop_last()) + if ts.last().phase is Active {
            1nat
        } else {
            0nat
        }
    }
}

proof fn lemma_count_active_update(ts: Seq<TransferState>, i: int, t: TransferState)
    requires
        0 <= i < ts.len(),
    ensures
        count_active(ts.update(i, t)) == count_active(ts) + (if t.phase is Active {
            1int
        } else {
            0int
        }) - (if ts[i].phase is Active {
            1int
        } else {
            0int
        }),
    decreases ts.len(),
{
    let us = ts.update(i, t);
    if i == ts.len() - 1 {
        assert(us.drop_last() =~= ts.drop_last());
    } else {
        assert(us.drop_last() =~= ts.drop_last().update(i, t));
        assert(us.last() == ts.last());
        lemma_count_active_update(ts.drop_last(), i, t);
    }
}

proof fn lemma_count_active_extend(ts: Seq<TransferState>, k: int)
    requires
        0 <= k < ts.len(),
    ensures
        count_active(ts.subrange(0, k + 1)) == count_active(ts.subrange(0, k)) + (if ts[k].phase
            is Active {
            1int
        } else {
            0int
        }),
{
    let pre = ts.subrange(0, k + 1);
    assert(pre.drop_last() =~= ts.subrange(0, k));
    assert(pre.last() == ts[k]);
}

proof fn lemma_count_active_push(ts: Seq<TransferState>, t: TransferState)
    ensures
        count_active(ts.push(t)) == count_active(ts) + (if t.phase is Active {
            1int
        } else {
            0int
        }),
{
    assert(ts.push(t).drop_last() =~= ts);
}

/// The whole batch: a fixed pool capacity and one transfer per resource.
pub struct Batch {
    pub capacity: usize,
    pub tasks: Vec<TransferState>,
}

impl Batch {
    /// How many transfers currently hold a pool slot.
    pub open spec fn active(&self) -> nat {
        count_active(self.tasks@)
    }

    /// The batch invariant: the pool has at least one slot, every transfer
    /// accounts its bytes exactly, and — the concurrency bound — no more
    /// than `capacity` transfers are active at once.
    pub open spec fn wf(&self) -> bool {
        &&& self.capacity >= 1
        &&& forall|i: int| 0 <= i < self.tasks@.len() ==> (#[trigger] self.tasks@[i]).wf()
        &&& self.active() <= self.capacity
    }

    /// The transfer at `i` is waiting and a pool slot is free.
    pub open spec fn start_enabled(&self, i: int) -> bool {
        &&& 0 <= i < self.tasks@.len()
        &&& self.tasks@[i].phase is Queued
        &&& self.active() < self.capacity
    }

    /// The transfer at `i` holds a slot with its request in flight.
    pub open spec fn is_active(&self, i: int) -> bool {
        &&& 0 <= i < self.tasks@.len()
        &&& self.tasks@[i].phase is Active
    }

    /// The outcome recorded for the transfer at `i`, if it has finished.
    pub open spec fn outcome_of(&self, i: int) -> Option<Result<(), DownloadError>> {
        match self.tasks@[i].phase {
            Phase::Done(r) => Some(r),
            _ => None,
        }
    }

    /// The transfer at `i` was untouched by a step, fields and all.
    pub open spec fn same_task(&self, other: &Batch, i: int) -> bool {
        self.tasks@[i] == other.tasks@[i]
    }

    /// A new batch: one queued transfer per resource, its URL the base
    /// joined with the destination, its output path the root joined with
    /// the destination's tail, nothing downloaded, no slot held.
    pub fn new(
        descriptors: &Vec<cdn::Resource>,
        resources_base: &str,
        output_root: &str,
        capacity: usize,
    ) -> (b: Batch)
        requires
            capacity >= 1,
            forall|i: int|
                0 <= i < descriptors@.len() ==> (#[trigger] descriptors@[i]).dest@.len() >= 1,
        ensures
            b.wf(),
            b.capacity == capacity,
            b.active() == 0,
            b.tasks@.len() == descriptors@.len(),
            forall|i: int|
                0 <= i < descriptors@.len() ==> {
                    let t = #[trigger] b.tasks@[i];
                    &&& task_static_ok(t, descriptors@[i], resources_base@, output_root@)
                    &&& t.bytes_downloaded == 0
                    &&& t.written@ =~= Seq::<u8>::empty()
                    &&& t.phase is Queued
                },
    {
        let mut tasks: Vec<TransferState> = Vec::new();
        let n = descriptors.len();
        for k in 0..n
            invariant
                n == descriptors@.len(),
                tasks@.len() == k,
                count_active(tasks@) == 0,
                forall|i: int|
                    0 <= i < descriptors@.len() ==> (#[trigger] descriptors@[i]).dest@.len() >= 1,
                forall|i: int|
                    0 <= i < k ==> {
                        let t = #[trigger] tasks@[i];
                        &&& t.wf()
                        &&& task_static_ok(t, descriptors@[i], resources_base@, output_root@)
                        &&& t.bytes_downloaded == 0
                        &&& t.written@ =~= Seq::<u8>::empty()
                        &&& t.phase is Queued
                    },
        {
            let t = TransferState {
                url: cdn::download_url(resources_base, descriptors[k].dest.as_str()),
                destination: cdn::output_path(output_root, descriptors[k].dest.as_str()),
                expected_size: descriptors[k].size,
                bytes_downloaded: 0,
                written: Ghost(Seq::empty()),
                phase: Phase::Queued,
            };
            proof {
                lemma_count_active_push(tasks@, t);
            }
            tasks.push(t);
        }
        Batch { capacity, tasks }
    }

    /// Acquire a pool slot for the queued transfer at `i`, strictly before
    /// its request is issued: enabled only while fewer than `capacity`
    /// transfers are active. No other transfer is touched.
    pub fn start(&mut self, i: usize)
        requires
            old(self).wf(),
            old(self).start_enabled(i as int),
        ensures
            final(self).wf(),
            final(self).capacity == old(self).capacity,
            final(self).tasks@.len() == old(self).tasks@.len(),
            final(self).active() == old(self).active() + 1,
            final(self).is_active(i as int),
            final(self).tasks@[i as int] == (TransferState {
                phase: Phase::Active,
                ..old(self).tasks@[i as int]
            }),
            forall|j: int|
                0 <= j < old(self).tasks@.len() && j != i ==> #[trigger] final(self).tasks@[j]
                    == old(self).tasks@[j],
    {
        let t = TransferState {
            url: self.tasks[i].url.clone(),
            destination: self.tasks[i].destination.clone(),
            expected_size: self.tasks[i].expected_size,
            bytes_downloaded: self.tasks[i].bytes_downloaded,
            written: Ghost(self.tasks@[i as int].written@),
            phase: Phase::Active,
        };
        proof {
            lemma_count_active_update(self.tasks@, i as int, t);
        }
        self.tasks.set(i, t);
    }

    /// Record one received chunk of the active transfer at `i`: the chunk's
    /// bytes are appended to what is written and the counter advances by
    /// its length. Returns the new position for the progress indicator.
    /// No other transfer is touched.
    pub fn record_chunk(&mut self, i: usize, chunk: &[u8]) -> (pos: u64)
        requires
            old(self).wf(),
            old(self).is_active(i as int),
            old(self).tasks@[i as int].bytes_downloaded + chunk@.len() <= u64::MAX,
        ensures
            final(self).wf(),
            final(self).capacity == old(self).capacity,
            final(self).tasks@.len() == old(self).tasks@.len(),
            final(self).active() == old(self).active(),
            final(self).is_active(i as int),
            final(self).tasks@[i as int] == (TransferState {
                bytes_downloaded: (old(self).tasks@[i as int].bytes_downloaded + chunk@.len()) as u64,
                written: Ghost(old(self).tasks@[i as int].written@ + chunk@),
                ..old(self).tasks@[i as int]
            }),
            pos == final(self).tasks@[i as int].bytes_downloaded,
            forall|j: int|
                0 <= j < old(self).tasks@.len() && j != i ==> #[trigger] final(self).tasks@[j]
                    == old(self).tasks@[j],
    {
        let len: usize = chunk.len();
        let t = TransferState {
            url: self.tasks[i].url.clone(),
            destination: self.tasks[i].destination.clone(),
            expected_size: self.tasks[i].expected_size,
            bytes_downloaded: self.tasks[i].bytes_downloaded + len as u64,
            written: Ghost(self.tasks@[i as int].written@ + chunk@),
            phase: Phase::Active,
        };
        proof {
            lemma_count_active_update(self.tasks@, i as int, t);
        }
        let pos = t.bytes_downloaded;
        self.tasks.set(i, t);
        pos
    }

    /// Close the active transfer at `i` with its outcome — `Ok` on stream
    /// exhaustion, `Err` on any terminal failure — releasing its pool
    /// slot. No other transfer is touched: a failure here cannot disturb,
    /// cancel or block a sibling.
    pub fn close(&mut self, i: usize, outcome: Result<(), DownloadError>)
        requires
            old(self).wf(),
            old(self).is_active(i as int),
        ensures
            final(self).wf(),
            final(self).capacity == old(self).capacity,
            final(self).tasks@.len() == old(self).tasks@.len(),
            final(self).active() == old(self).active() - 1,
            final(self).outcome_of(i as int) == Some(outcome),
            final(self).tasks@[i as int] == (TransferState {
                phase: Phase::Done(outcome),
                ..old(self).tasks@[i as int]
            }),
            forall|j: int|
                0 <= j < old(self).tasks@.len() && j != i ==> #[trigger] final(self).tasks@[j]
                    == old(self).tasks@[j],
    {
        let t = TransferState {
            url: self.tasks[i].url.clone(),
            destination: self.tasks[i].destination.clone(),
            expected_size: self.tasks[i].expected_size,
            bytes_downloaded: self.tasks[i].bytes_downloaded,
            written: Ghost(self.tasks@[i as int].written@),
            phase: Phase::Done(outcome),
        };
        proof {
            lemma_count_active_update(self.tasks@, i as int, t);
        }
        self.tasks.set(i, t);
    }

    /// How many transfers the batch holds.
    pub fn len(&self) -> (n: usize)
        ensures
            n == self.tasks@.len(),
    {
        self.tasks.len()
    }

    /// The URL the transfer at `i` fetches from.
    pub fn url(&self, i: usize) -> (r: &String)
        requires
            i < self.tasks@.len(),
        ensures
            r == &self.tasks@[i as int].url,
    {
        &self.tasks[i].url
    }

    /// The path the transfer at `i` writes to.
    pub fn destination(&self, i: usize) -> (r: &String)
        requires
            i < self.tasks@.len(),
        ensures
            r == &self.tasks@[i as int].destination,
    {
        &self.tasks[i].destination
    }

    /// The byte size the manifest promised for the transfer at `i`.
    pub fn expected_size(&self, i: usize) -> (r: u64)
        requires
            i < self.tasks@.len(),
        ensures
            r == self.tasks@[i as int].expected_size,
    {
        self.tasks[i].expected_size
    }

    /// How many bytes the transfer at `i` has received and written.
    pub fn bytes_downloaded(&self, i: usize) -> (r: u64)
        requires
            i < self.tasks@.len(),
        ensures
            r == self.tasks@[i as int].bytes_downloaded,
    {
        self.tasks[i].bytes_downloaded
    }

    /// How many transfers hold a pool slot right now.
    pub fn active_count(&self) -> (n: usize)
        requires
            self.wf(),
        ensures
            n == self.active(),
    {
        let mut n: usize = 0;
        let len = self.tasks.len();
        for k in 0..len
            invariant
                len == self.tasks@.len(),
                n == count_active(self.tasks@.subrange(0, k as int)),
                n <= k,
        {
            proof {
                lemma_count_active_extend(self.tasks@, k as int);
            }
            if let Phase::Active = self.tasks[k].phase {
                n += 1;
            }
        }
        proof {
            assert(self.tasks@.subrange(0, len as int) =~= self.tasks@);
        }
        n
    }

    /// Whether the transfer at `i` is queued and a pool slot is free, so
    /// that `start(i)` may be called.
    pub fn can_start(&self, i: usize) -> (r: bool)
        requires
            self.wf(),
            i < self.tasks@.len(),
        ensures
            r == self.start_enabled(i as int),
    {
        let queued = match self.tasks[i].phase {
            Phase::Queued => true,
            _ => false,
        };
        queued && self.active_count() < self.capacity
    }

    /// One entry per transfer: its outcome, or `None` while it runs.
    pub fn outcomes(&self) -> (r: Vec<Option<Result<(), DownloadError>>>)
        ensures
            r@.len() == self.tasks@.len(),
            forall|i: int| 0 <= i < self.tasks@.len() ==> #[trigger] r@[i] == self.outcome_of(i),
    {
        let mut r: Vec<Option<Result<(), DownloadError>>> = Vec::new();
        let len = self.tasks.len();
        for k in 0..len
            invariant
                len == self.tasks@.len(),
                r@.len() == k,
                forall|i: int| 0 <= i < k ==> #[trigger] r@[i] == self.outcome_of(i),
        {
            r.push(self.outcome(k));
        }
        r
    }

    /// The outcome of the transfer at `i`, or `None` while it runs.
    pub fn outcome(&self, i: usize) -> (r: Option<Result<(), DownloadError>>)
        requires
            i < self.tasks@.len(),
        ensures
            r == self.outcome_of(i as int),
    {
        match self.tasks[i].phase {
            Phase::Done(res) => Some(res),
            _ => None,
        }
    }
}

/// No more than `capacity` transfers are ever active at once, in every
/// reachable batch state, however many resources were selected.
pub proof fn lemma_concurrency_bounded(b: &Batch)
    requires
        b.wf(),
    ensures
        b.active() <= b.capacity,
{
}

/// Every transfer's byte counter equals the length of what was handed to
/// its file writer — the destination file is exactly as long as the bytes
/// transferred, with no loss from activity on unrelated transfers.
pub proof fn lemma_bytes_account_written(b: &Batch, i: int)
    requires
        b.wf(),
        0 <= i < b.tasks@.len(),
    ensures
        b.tasks@[i].bytes_downloaded == b.tasks@[i].written@.len(),
{
}

/// Closing transfer `i` — in particular failing it — leaves every sibling
/// `j` exactly as it was: still active if it was active, and still able to
/// start if it could start before (the closed transfer's slot is free
/// again). One failure can never block an unrelated download.
pub proof fn lemma_failure_isolated(pre: &Batch, post: &Batch, i: int, j: int)
    requires
        pre.wf(),
        post.wf(),
        0 <= i < pre.tasks@.len(),
        0 <= j < pre.tasks@.len(),
        j != i,
        post.capacity == pre.capacity,
        post.tasks@.len() == pre.tasks@.len(),
        post.active() == pre.active() - 1,
        post.same_task(pre, j),
    ensures
        post.tasks@[j] == pre.tasks@[j],
        pre.is_active(j) ==> post.is_active(j),
        pre.start_enabled(j) ==> post.start_enabled(j),
{
}

/// What a simulated transport hands one transfer: the chunks delivered in
/// order, then either stream exhaustion (`failure` absent) or a terminal
/// error after the last chunk.
pub struct TransferScript {
    pub chunks: Vec<Vec<u8>>,
    pub failure: Option<DownloadError>,
}

/// The outcome a scripted transfer must end with.
pub open spec fn script_outcome(s: TransferScript) -> Result<(), DownloadError> {
    match s.failure {
        Some(e) => Err(e),
        None => Ok(()),
    }
}

/// All chunks flattened into the one byte sequence they deliver.
pub open spec fn flat(chunks: Seq<Seq<u8>>) -> Seq<u8>
    decreases chunks.len(),
{
    if chunks.len() == 0 {
        Seq::empty()
    } else {
        flat(chunks.drop_last()) + chunks.last()
    }
}

/// The bytes a scripted transfer delivers before it ends.
pub open spec fn script_bytes(s: TransferScript) -> Seq<u8> {
    flat(s.chunks@.map_values(|c: Vec<u8>| c@))
}

proof fn lemma_flat_extend(cs: Seq<Seq<u8>>, k: int)
    requires
        0 <= k < cs.len(),
    ensures
        flat(cs.subrange(0, k + 1)) == flat(cs.subrange(0, k)) + cs[k],
{
    let pre = cs.subrange(0, k + 1);
    assert(pre.drop_last() =~= cs.subrange(0, k));
    assert(flat(pre) == flat(pre.drop_last()) + pre.last());
}

proof fn lemma_flat_prefix_len(cs: Seq<Seq<u8>>, k: int)
    requires
        0 <= k <= cs.len(),
    ensures
        flat(cs.subrange(0, k)).len() <= flat(cs).len(),
    decreases cs.len() - k,
{
    if k == cs.len() {
        assert(cs.subrange(0, k) =~= cs);
    } else {
        lemma_flat_extend(cs, k);
        lemma_flat_prefix_len(cs, k + 1);
    }
}

/// The transfer ended exactly as its script dictates: its recorded outcome
/// is the script's, and what was written is precisely the script's bytes.
pub open spec fn matches_script(t: TransferState, s: TransferScript) -> bool {
    &&& t.phase == Phase::Done(script_outcome(s))
    &&& t.written@ == script_bytes(s)
    &&& t.bytes_downloaded == script_bytes(s).len()
}

/// The transfer's fixed fields are the ones a new batch derives for
/// descriptor `d`: URL, destination path and expected size.
pub open spec fn task_static_ok(
    t: TransferState,
    d: cdn::Resource,
    base: Seq<char>,
    root: Seq<char>,
) -> bool {
    &&& t.url@ == cdn::joined(base, d.dest@)
    &&& t.destination@ == cdn::joined(root, cdn::stripped(d.dest@))
    &&& t.expected_size == d.size
}

/// Deriving a batch a second time from the same descriptors, base URL and
/// output root yields the same URLs and destination paths, entry for
/// entry: a rerun creates exactly the directories and files of the first
/// run, and directory creation on an existing path is asked to do nothing
/// new.
pub proof fn lemma_rerun_same_paths(
    a: &Batch,
    b: &Batch,
    descriptors: Seq<cdn::Resource>,
    base: Seq<char>,
    root: Seq<char>,
    i: int,
)
    requires
        a.tasks@.len() == descriptors.len(),
        b.tasks@.len() == descriptors.len(),
        forall|k: int|
            0 <= k < descriptors.len() ==> task_static_ok(
                #[trigger] a.tasks@[k],
                descriptors[k],
                base,
                root,
            ),
        forall|k: int|
            0 <= k < descriptors.len() ==> task_static_ok(
                #[trigger] b.tasks@[k],
                descriptors[k],
                base,
                root,
            ),
        0 <= i < descriptors.len(),
    ensures
        a.tasks@[i].url@ == b.tasks@[i].url@,
        a.tasks@[i].destination@ == b.tasks@[i].destination@,
        a.tasks@[i].expected_size == b.tasks@[i].expected_size,
{
}

/// Runs a whole batch against a simulated transport, one script per
/// descriptor: every transfer acquires a slot before its request, never
/// more than `capacity` at once, receives its scripted chunks, and closes
/// with its scripted outcome. The end state of every transfer is fixed by
/// its script alone — the capacity schedules the work but cannot change
/// any outcome — and one scripted failure leaves every sibling's outcome
/// exactly as its own script dictates.
pub fn run_scripted(
    descriptors: &Vec<cdn::Resource>,
    resources_base: &str,
    output_root: &str,
    capacity: usize,
    scripts: &Vec<TransferScript>,
) -> (b: Batch)
    requires
        capacity >= 1,
        scripts@.len() == descriptors@.len(),
        forall|i: int|
            0 <= i < descriptors@.len() ==> (#[trigger] descriptors@[i]).dest@.len() >= 1,
        forall|i: int|
            0 <= i < scripts@.len() ==> script_bytes(#[trigger] scripts@[i]).len() <= u64::MAX,
    ensures
        b.wf(),
        b.capacity == capacity,
        b.active() == 0,
        b.tasks@.len() == descriptors@.len(),
        forall|i: int|
            0 <= i < descriptors@.len() ==> task_static_ok(
                #[trigger] b.tasks@[i],
                descriptors@[i],
                resources_base@,
                output_root@,
            ),
        forall|i: int|
            0 <= i < scripts@.len() ==> matches_script(#[trigger] b.tasks@[i], scripts@[i]),
{
    let mut b = Batch::new(descriptors, resources_base, output_root, capacity);
    let n = b.len();
    let mut started: usize = 0;
    let mut finished: usize = 0;
    while finished < n
        invariant
            b.wf(),
            b.capacity == capacity,
            b.tasks@.len() == n,
            n == descriptors@.len(),
            scripts@.len() == n,
            finished <= started <= n,
            b.active() == started - finished,
            forall|i: int|
                0 <= i < n ==> task_static_ok(
                    #[trigger] b.tasks@[i],
                    descriptors@[i],
                    resources_base@,
                    output_root@,
                ),
            forall|i: int|
                0 <= i < scripts@.len() ==> script_bytes(#[trigger] scripts@[i]).len()
                    <= u64::MAX,
            forall|i: int|
                0 <= i < finished ==> matches_script(#[trigger] b.tasks@[i], scripts@[i]),
            forall|i: int|
                finished <= i < started ==> {
                    let t = #[trigger] b.tasks@[i];
                    &&& t.phase is Active
                    &&& t.bytes_downloaded == 0
                    &&& t.written@ =~= Seq::<u8>::empty()
                },
            forall|i: int|
                started <= i < n ==> {
                    let t = #[trigger] b.tasks@[i];
                    &&& t.phase is Queued
                    &&& t.bytes_downloaded == 0
                    &&& t.written@ =~= Seq::<u8>::empty()
                },
        decreases n - finished,
    {
        while started < n && started - finished < capacity
            invariant
                b.wf(),
                b.capacity == capacity,
                b.tasks@.len() == n,
                n == descriptors@.len(),
                scripts@.len() == n,
                finished <= started <= n,
                finished < n,
                b.active() == started - finished,
                forall|i: int|
                    0 <= i < n ==> task_static_ok(
                        #[trigger] b.tasks@[i],
                        descriptors@[i],
                        resources_base@,
                        output_root@,
                    ),
                forall|i: int|
                    0 <= i < finished ==> matches_script(#[trigger] b.tasks@[i], scripts@[i]),
                forall|i: int|
                    finished <= i < started ==> {
                        let t = #[trigger] b.tasks@[i];
                        &&& t.phase is Active
                        &&& t.bytes_downloaded == 0
                        &&& t.written@ =~= Seq::<u8>::empty()
                    },
                forall|i: int|
                    started <= i < n ==> {
                        let t = #[trigger] b.tasks@[i];
                        &&& t.phase is Queued
                        &&& t.bytes_downloaded == 0
                        &&& t.written@ =~= Seq::<u8>::empty()
                    },
            decreases n - started,
        {
            b.start(started);
            started += 1;
        }
        assert(finished < started);
        let script = &scripts[finished];
        let m = script.chunks.len();
        let ghost views = script.chunks@.map_values(|c: Vec<u8>| c@);
        for c in 0..m
            invariant
                b.wf(),
                b.capacity == capacity,
                b.tasks@.len() == n,
                n == descriptors@.len(),
                scripts@.len() == n,
                finished <= started <= n,
                finished < started,
                m == script.chunks@.len(),
                script == &scripts@[finished as int],
                views == script.chunks@.map_values(|cv: Vec<u8>| cv@),
                script_bytes(scripts@[finished as int]).len() <= u64::MAX,
                b.active() == started - finished,
                forall|i: int|
                    0 <= i < n ==> task_static_ok(
                        #[trigger] b.tasks@[i],
                        descriptors@[i],
                        resources_base@,
                        output_root@,
                    ),
                forall|i: int|
                    0 <= i < finished ==> matches_script(#[trigger] b.tasks@[i], scripts@[i]),
                forall|i: int|
                    finished < i < started ==> {
                        let t = #[trigger] b.tasks@[i];
                        &&& t.phase is Active
                        &&& t.bytes_downloaded == 0
                        &&& t.written@ =~= Seq::<u8>::empty()
                    },
                forall|i: int|
                    started <= i < n ==> {
                        let t = #[trigger] b.tasks@[i];
                        &&& t.phase is Queued
                        &&& t.bytes_downloaded == 0
                        &&& t.written@ =~= Seq::<u8>::empty()
                    },
                b.tasks@[finished as int].phase is Active,
                b.tasks@[finished as int].written@ == flat(views.subrange(0, c as int)),
                b.tasks@[finished as int].bytes_downloaded == flat(
                    views.subrange(0, c as int),
                ).len(),
        {
            proof {
                lemma_flat_extend(views, c as int);
                lemma_flat_prefix_len(views, c + 1);
                assert(views[c as int] == script.chunks@[c as int]@);
            }
            let _pos = b.record_chunk(finished, script.chunks[c].as_slice());
        }
        proof {
            assert(views.subrange(0, m as int) =~= views);
        }
        match script.failure {
            Some(e) => b.close(finished, Err(e)),
            None => b.close(finished, Ok(())),
        }
        finished += 1;
    }
    b
}

/// A transfer's end state is fixed by its script alone. In particular two
/// batches run from the same scripts — under any two pool capacities —
/// agree on every outcome, byte count and written content: the capacity
/// only schedules, it never changes what arrives on disk.
pub proof fn lemma_capacity_independent(a: &Batch, b: &Batch, scripts: Seq<TransferScript>, i: int)
    requires
        a.tasks@.len() == scripts.len(),
        b.tasks@.len() == scripts.len(),
        forall|k: int| 0 <= k < scripts.len() ==> matches_script(#[trigger] a.tasks@[k], scripts[k]),
        forall|k: int| 0 <= k < scripts.len() ==> matches_script(#[trigger] b.tasks@[k], scripts[k]),
        0 <= i < scripts.len(),
    ensures
        a.outcome_of(i) == b.outcome_of(i),
        a.outcome_of(i) == Some(script_outcome(scripts[i])),
        a.tasks@[i].bytes_downloaded == b.tasks@[i].bytes_downloaded,
        a.tasks@[i].written@ == b.tasks@[i].written@,
{
}

/// A transfer's end state depends on its own script alone: two batch runs
/// whose transports agree for descriptor `j` — however they treat every
/// other descriptor, including failing it outright — record the same
/// outcome and the same bytes for `j`.
pub proof fn lemma_outcome_depends_only_on_own_transfer(
    a: &Batch,
    b: &Batch,
    scripts_a: Seq<TransferScript>,
    scripts_b: Seq<TransferScript>,
    j: int,
)
    requires
        a.tasks@.len() == scripts_a.len(),
        b.tasks@.len() == scripts_b.len(),
        forall|k: int|
            0 <= k < scripts_a.len() ==> matches_script(#[trigger] a.tasks@[k], scripts_a[k]),
        forall|k: int|
            0 <= k < scripts_b.len() ==> matches_script(#[trigger] b.tasks@[k], scripts_b[k]),
        0 <= j < scripts_a.len(),
        0 <= j < scripts_b.len(),
        scripts_a[j] == scripts_b[j],
    ensures
        a.outcome_of(j) == b.outcome_of(j),
        a.tasks@[j].bytes_downloaded == b.tasks@[j].bytes_downloaded,
        a.tasks@[j].written@ == b.tasks@[j].written@,
{
}

} // verus!
