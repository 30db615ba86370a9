//! The deduplicating upload queue: one `UploadItem` per file, keyed by its
//! source path, with monotonic status transitions and derived statistics.

use vstd::prelude::*;

use crate::paths::spec_file_name;
use crate::paths::file_name_of;

verus! {

/// The stages of one file's journey: `Queued -> Uploading -> Completed`
/// or `Queued -> Uploading -> Failed(message)`; the terminal stages are
/// never left.
#[derive(Debug, Clone, PartialEq)]
pub enum UploadStatus {
    Queued,
    Uploading,
    Completed,
    Failed(String),
}

impl UploadStatus {
    /// A terminal status admits no further transition.
    pub open spec fn is_terminal(self) -> bool {
        self is Completed || self is Failed
    }
}

/// The transitions the pipeline permits: forward along
/// `Queued -> Uploading -> {Completed, Failed}`, never back, and a
/// terminal status keeps its value (a failure message is never rewritten).
pub open spec fn status_evolves(pre: UploadStatus, post: UploadStatus) -> bool {
    match pre {
        UploadStatus::Queued => true,
        UploadStatus::Uploading => !(post is Queued),
        UploadStatus::Completed => post is Completed,
        UploadStatus::Failed(_) => post == pre,
    }
}

/// A status in a terminal stage never changes again under the permitted
/// transitions.
pub proof fn lemma_terminal_is_final(pre: UploadStatus, post: UploadStatus)
    requires
        pre.is_terminal(),
        status_evolves(pre, post),
    ensures
        post == pre,
{
}

/// The permitted transitions compose: a chain of evolutions is an evolution.
pub proof fn lemma_status_evolves_transitive(a: UploadStatus, b: UploadStatus, c: UploadStatus)
    requires
        status_evolves(a, b),
        status_evolves(b, c),
    ensures
        status_evolves(a, c),
{
}

/// One file's tracked upload job. Timestamps are milliseconds since the
/// Unix epoch; progress is a percentage in `0..=100`.
pub struct UploadItem {
    pub id: u64,
    pub file_path: String,
    pub file_name: String,
    pub status: UploadStatus,
    pub added_at: i64,
    pub started_at: Option<i64>,
    pub completed_at: Option<i64>,
    pub progress_percent: u8,
    pub thumbnail_data: Option<Vec<u8>>,
}

impl UploadItem {
    /// An item is well formed when its display name is its path's final
    /// component, its progress is a percentage, and its timestamps agree
    /// with its status.
    pub open spec fn wf(self) -> bool {
        &&& self.progress_percent <= 100
        &&& self.file_name@ == spec_file_name(self.file_path@)
        &&& (self.started_at is Some <==> !(self.status is Queued))
        &&& (self.completed_at is Some <==> self.status.is_terminal())
    }

    /// A fresh `Queued` item for `file_path`, with the given id and
    /// creation time and no thumbnail yet.
    pub fn new(id: u64, file_path: String, added_at: i64) -> (r: UploadItem)
        ensures
            r.id == id,
            r.file_path == file_path,
            r.file_name@ == spec_file_name(file_path@),
            r.status is Queued,
            r.added_at == added_at,
            r.started_at is None,
            r.completed_at is None,
            r.progress_percent == 0,
            r.thumbnail_data is None,
            r.wf(),
    {
        let file_name = file_name_of(file_path.as_str());
        UploadItem {
            id,
            file_path,
            file_name,
            status: UploadStatus::Queued,
            added_at,
            started_at: None,
            completed_at: None,
            progress_percent: 0,
            thumbnail_data: None,
        }
    }

    /// Enter `Uploading`: records the start time and the first visible
    /// progress.
    pub fn start_upload(&mut self, now: i64)
        requires
            old(self).status is Queued,
        ensures
            *final(self) == item_started(*old(self), now),
    {
        self.status = UploadStatus::Uploading;
        self.started_at = Some(now);
        self.progress_percent = 10;
    }

    /// Clamp `progress` to a percentage and record it.
    pub fn update_progress(&mut self, progress: u8)
        ensures
            *final(self) == (UploadItem {
                progress_percent: if progress > 100 { 100 } else { progress },
                ..*old(self)
            }),
    {
        self.progress_percent = if progress > 100 {
            100
        } else {
            progress
        };
    }

    /// Enter `Completed`: records the completion time and full progress.
    pub fn complete_upload(&mut self, now: i64)
        requires
            old(self).status is Uploading,
        ensures
            *final(self) == item_completed(*old(self), now),
    {
        self.status = UploadStatus::Completed;
        self.completed_at = Some(now);
        self.progress_percent = 100;
    }

    /// Enter `Failed`: records the completion time and keeps the message
    /// verbatim; progress is left as it was.
    pub fn fail_upload(&mut self, error: String, now: i64)
        requires
            old(self).status is Uploading,
        ensures
            *final(self) == item_failed(*old(self), error, now),
    {
        self.status = UploadStatus::Failed(error);
        self.completed_at = Some(now);
    }
}

/// `it` as it stands after entering `Uploading` at time `now`.
pub open spec fn item_started(it: UploadItem, now: i64) -> UploadItem {
    UploadItem {
        status: UploadStatus::Uploading,
        started_at: Some(now),
        progress_percent: 10,
        ..it
    }
}

/// `it` as it stands after entering `Completed` at time `now`.
pub open spec fn item_completed(it: UploadItem, now: i64) -> UploadItem {
    UploadItem { status: UploadStatus::Completed, completed_at: Some(now), progress_percent: 100, ..it }
}

/// `it` as it stands after entering `Failed(error)` at time `now`.
pub open spec fn item_failed(it: UploadItem, error: String, now: i64) -> UploadItem {
    UploadItem { status: UploadStatus::Failed(error), completed_at: Some(now), ..it }
}

/// One atomic claim, as the scheduler performs it under exclusive access:
/// position `i` held the earliest `Queued` item of `pre`, and `post` is
/// `pre` with exactly that item flipped to `Uploading` at time `now`.
pub open spec fn claims_index(
    pre: Seq<UploadItem>,
    post: Seq<UploadItem>,
    i: int,
    now: i64,
) -> bool {
    &&& 0 <= i < pre.len()
    &&& post.len() == pre.len()
    &&& pre[i].status is Queued
    &&& post[i] == item_started(pre[i], now)
    &&& forall|j: int| 0 <= j < pre.len() && j != i ==> post[j] == pre[j]
    &&& forall|j: int| 0 <= j < i ==> !((#[trigger] pre[j]).status is Queued)
}

/// Some item of `s` references the path `p`.
pub open spec fn contains_path(s: Seq<UploadItem>, p: Seq<char>) -> bool {
    exists|i: int| 0 <= i < s.len() && s[i].file_path@ == p
}

/// The stage of a status, as a small number: `Queued` is 0, `Uploading`
/// is 1, `Completed` is 2 and `Failed` is 3.
pub open spec fn spec_stage(st: UploadStatus) -> int {
    match st {
        UploadStatus::Queued => 0,
        UploadStatus::Uploading => 1,
        UploadStatus::Completed => 2,
        UploadStatus::Failed(_) => 3,
    }
}

/// The dedup invariant: in a well-formed queue at most one item references
/// a given source path, whatever the items' statuses; two positions that
/// share a path are the same position. Together with `add_file`'s
/// contract — which returns an id exactly when the path was absent — a
/// path can be re-submitted only after the item holding it is removed.
pub proof fn lemma_dedup_path_unique(q: UploadQueue, p: Seq<char>, i: int, j: int)
    requires
        q.wf(),
        0 <= i < q@.len(),
        0 <= j < q@.len(),
        q@[i].file_path@ == p,
        q@[j].file_path@ == p,
    ensures
        i == j,
{
}

/// Index of the first item of `s` whose id is `id`, or -1 if there is none.
pub open spec fn index_of_id(s: Seq<UploadItem>, id: u64) -> int
    decreases s.len(),
{
    if s.len() == 0 {
        -1
    } else if s[0].id == id {
        0
    } else {
        let t = index_of_id(s.drop_first(), id);
        if t == -1 {
            -1
        } else {
            t + 1
        }
    }
}

pub proof fn lemma_index_of_id_props(s: Seq<UploadItem>, id: u64)
    ensures
        -1 <= index_of_id(s, id) < s.len(),
        index_of_id(s, id) >= 0 ==> s[index_of_id(s, id)].id == id,
        forall|j: int| 0 <= j < index_of_id(s, id) ==> s[j].id != id,
        index_of_id(s, id) == -1 ==> forall|j: int| 0 <= j < s.len() ==> s[j].id != id,
    decreases s.len(),
{
    if s.len() > 0 && s[0].id != id {
        lemma_index_of_id_props(s.drop_first(), id);
        assert forall|j: int| 0 <= j < index_of_id(s, id) implies s[j].id != id by {
            if j > 0 {
                assert(s.drop_first()[j - 1] == s[j]);
            }
        }
        if index_of_id(s, id) == -1 {
            assert forall|j: int| 0 <= j < s.len() implies s[j].id != id by {
                if j > 0 {
                    assert(s.drop_first()[j - 1] == s[j]);
                }
            }
        }
    }
}

pub proof fn lemma_index_of_id_unique(s: Seq<UploadItem>, id: u64, r: int)
    requires
        -1 <= r < s.len(),
        r >= 0 ==> s[r].id == id,
        forall|j: int| 0 <= j < r ==> s[j].id != id,
        r == -1 ==> forall|j: int| 0 <= j < s.len() ==> s[j].id != id,
    ensures
        index_of_id(s, id) == r,
{
    lemma_index_of_id_props(s, id);
}

/// How many items of `s` are in `Queued`.
pub open spec fn count_queued(s: Seq<UploadItem>) -> nat
    decreases s.len(),
{
    if s.len() == 0 {
        0
    } else {
        count_queued(s.drop_last()) + if s.last().status is Queued {
            1nat
        } else {
            0nat
        }
    }
}

/// How many items of `s` are in `Uploading`.
pub open spec fn count_active(s: Seq<UploadItem>) -> nat
    decreases s.len(),
{
    if s.len() == 0 {
        0
    } else {
        count_active(s.drop_last()) + if s.last().status is Uploading {
            1nat
        } else {
            0nat
        }
    }
}

/// How many items of `s` are in `Completed`.
pub open spec fn count_completed(s: Seq<UploadItem>) -> nat
    decreases s.len(),
{
    if s.len() == 0 {
        0
    } else {
        count_completed(s.drop_last()) + if s.last().status is Completed {
            1nat
        } else {
            0nat
        }
    }
}

/// How many items of `s` are in `Failed`.
pub open spec fn count_failed(s: Seq<UploadItem>) -> nat
    decreases s.len(),
{
    if s.len() == 0 {
        0
    } else {
        count_failed(s.drop_last()) + if s.last().status is Failed {
            1nat
        } else {
            0nat
        }
    }
}

/// Every item is in exactly one stage, so the four per-stage counts
/// partition the queue: queued + active + completed + failed equals the
/// total number of items.
pub proof fn lemma_status_counts_partition(s: Seq<UploadItem>)
    ensures
        count_queued(s) + count_active(s) + count_completed(s) + count_failed(s) == s.len(),
    decreases s.len(),
{
    if s.len() > 0 {
        lemma_status_counts_partition(s.drop_last());
    }
}

/// `s` without its `Completed` items.
pub open spec fn without_completed(s: Seq<UploadItem>) -> Seq<UploadItem> {
    s.filter(|it: UploadItem| !(it.status is Completed))
}

/// `s` without its `Failed` items.
pub open spec fn without_failed(s: Seq<UploadItem>) -> Seq<UploadItem> {
    s.filter(|it: UploadItem| !(it.status is Failed))
}

/// Derived per-stage counts of a queue, as `stats` reports them.
#[derive(Clone, Copy, Debug, PartialEq, Eq, Structural)]
pub struct QueueStats {
    pub total: usize,
    pub queued: usize,
    pub active: usize,
    pub completed: usize,
    pub failed: usize,
}

/// An ordered, in-memory collection of upload items, keyed by source path.
/// Insertion order is the dispatch order; at most one item ever references
/// a given path, whatever its status.
pub struct UploadQueue {
    items: Vec<UploadItem>,
    next_id: u64,
    max_concurrent_uploads: usize,
    active_uploads: usize,
}

impl View for UploadQueue {
    type V = Seq<UploadItem>;

    closed spec fn view(&self) -> Seq<UploadItem> {
        self.items@
    }
}

impl UploadQueue {
    /// The id the next inserted item will receive.
    pub closed spec fn spec_next_id(self) -> u64 {
        self.next_id
    }

    /// The configured ceiling on concurrently running uploads.
    pub closed spec fn spec_max(self) -> usize {
        self.max_concurrent_uploads
    }

    /// The recorded number of currently running uploads.
    pub closed spec fn spec_active(self) -> usize {
        self.active_uploads
    }

    /// Queue well-formedness: every item is well formed, ids are distinct
    /// and below the id counter, and no two items share a source path.
    pub open spec fn wf(self) -> bool {
        &&& forall|i: int| 0 <= i < self@.len() ==> (#[trigger] self@[i]).wf()
        &&& forall|i: int| 0 <= i < self@.len() ==> (#[trigger] self@[i]).id < self.spec_next_id()
        &&& forall|i: int, j: int|
            0 <= i < j < self@.len() ==> self@[i].id != self@[j].id
        &&& forall|i: int, j: int|
            0 <= i < j < self@.len() ==> self@[i].file_path@ != self@[j].file_path@
    }

    /// An empty queue; the concurrency ceiling starts at 3.
    pub fn new() -> (r: UploadQueue)
        ensures
            r@ == Seq::<UploadItem>::empty(),
            r.spec_next_id() == 1,
            r.spec_max() == 3,
            r.spec_active() == 0,
            r.wf(),
    {
        UploadQueue { items: Vec::new(), next_id: 1, max_concurrent_uploads: 3, active_uploads: 0 }
    }

    pub fn set_max_concurrent_uploads(&mut self, max: usize)
        ensures
            final(self)@ == old(self)@,
            final(self).spec_next_id() == old(self).spec_next_id(),
            final(self).spec_max() == max,
            final(self).spec_active() == old(self).spec_active(),
    {
        self.max_concurrent_uploads = max;
    }

    /// Deduplicated insertion. When some item (whatever its status) already
    /// references `file_path`, nothing changes and no id is returned;
    /// otherwise a fresh `Queued` item is appended, a thumbnail is attached
    /// on a best-effort basis, and the new item's id is returned.
    pub fn add_file(&mut self, file_path: String, now: i64) -> (r: Option<u64>)
        requires
            old(self).wf(),
            old(self).spec_next_id() < u64::MAX,
        ensures
            final(self).wf(),
            match r {
                None => {
                    &&& contains_path(old(self)@, file_path@)
                    &&& *final(self) == *old(self)
                },
                Some(id) => {
                    &&& !contains_path(old(self)@, file_path@)
                    &&& id == old(self).spec_next_id()
                    &&& final(self)@.len() == old(self)@.len() + 1
                    &&& forall|i: int| 0 <= i < old(self)@.len() ==> final(self)@[i] == old(self)@[i]
                    &&& final(self)@.last().id == id
                    &&& final(self)@.last().file_path@ == file_path@
                    &&& final(self)@.last().file_name@ == spec_file_name(file_path@)
                    &&& final(self)@.last().status is Queued
                    &&& final(self)@.last().added_at == now
                    &&& final(self)@.last().started_at is None
                    &&& final(self)@.last().completed_at is None
                    &&& final(self)@.last().progress_percent == 0
                    &&& final(self).spec_next_id() == old(self).spec_next_id() + 1
                    &&& final(self).spec_max() == old(self).spec_max()
                    &&& final(self).spec_active() == old(self).spec_active()
                },
            },
    {
        let n: usize = self.items.len();
        let mut i: usize = 0;
        while i < n
            invariant
                i <= n,
                n == self@.len(),
                *self == *old(self),
                self.wf(),
                forall|j: int| 0 <= j < i ==> self@[j].file_path@ != file_path@,
            decreases n - i,
        {
            if self.items[i].file_path == file_path {
                return None;
            }
            i += 1;
        }
        let id: u64 = self.next_id;
        let mut item = UploadItem::new(id, file_path, now);
        item.thumbnail_data = generate_thumbnail(item.file_path.as_str());
        self.items.push(item);
        self.next_id = id + 1;
        Some(id)
    }

    /// The items, in insertion order.
    pub fn get_items(&self) -> (r: &Vec<UploadItem>)
        ensures
            r@ == self@,
    {
        &self.items
    }

    /// Position of the earliest-inserted item still in `Queued`, if any.
    pub fn get_next_queued_item(&self) -> (r: Option<usize>)
        ensures
            match r {
                Some(i) => {
                    &&& i < self@.len()
                    &&& self@[i as int].status is Queued
                    &&& forall|j: int| 0 <= j < i ==> !(self@[j].status is Queued)
                },
                None => forall|j: int| 0 <= j < self@.len() ==> !(self@[j].status is Queued),
            },
    {
        let n: usize = self.items.len();
        let mut i: usize = 0;
        while i < n
            invariant
                i <= n,
                n == self@.len(),
                forall|j: int| 0 <= j < i ==> !(self@[j].status is Queued),
            decreases n - i,
        {
            if matches!(self.items[i].status, UploadStatus::Queued) {
                return Some(i);
            }
            i += 1;
        }
        None
    }

    /// Derived statistics: the total and the four per-stage counts, which
    /// always partition the total.
    pub fn get_stats(&self) -> (r: QueueStats)
        ensures
            r.total == self@.len(),
            r.queued == count_queued(self@),
            r.active == count_active(self@),
            r.completed == count_completed(self@),
            r.failed == count_failed(self@),
            r.queued + r.active + r.completed + r.failed == r.total,
    {
        let n: usize = self.items.len();
        let mut queued: usize = 0;
        let mut active: usize = 0;
        let mut completed: usize = 0;
        let mut failed: usize = 0;
        let mut i: usize = 0;
        while i < n
            invariant
                i <= n,
                n == self@.len(),
                queued == count_queued(self@.subrange(0, i as int)),
                active == count_active(self@.subrange(0, i as int)),
                completed == count_completed(self@.subrange(0, i as int)),
                failed == count_failed(self@.subrange(0, i as int)),
                queued + active + completed + failed == i,
            decreases n - i,
        {
            proof {
                let pre = self@.subrange(0, i as int);
                let post = self@.subrange(0, i as int + 1);
                assert(post.drop_last() =~= pre);
                assert(post.last() == self@[i as int]);
            }
            match &self.items[i].status {
                UploadStatus::Queued => { queued += 1; },
                UploadStatus::Uploading => { active += 1; },
                UploadStatus::Completed => { completed += 1; },
                UploadStatus::Failed(_) => { failed += 1; },
            }
            i += 1;
        }
        proof {
            assert(self@.subrange(0, n as int) =~= self@);
            lemma_status_counts_partition(self@);
        }
        QueueStats { total: n, queued, active, completed, failed }
    }
}

impl UploadQueue {
    /// Position of the item whose id is `id`, scanning from the front.
    fn find_index_by_id(&self, id: u64) -> (r: Option<usize>)
        ensures
            match r {
                Some(i) => {
                    &&& i as int == index_of_id(self@, id)
                    &&& i < self@.len()
                    &&& self@[i as int].id == id
                },
                None => index_of_id(self@, id) == -1,
            },
    {
        let n: usize = self.items.len();
        let mut i: usize = 0;
        while i < n
            invariant
                i <= n,
                n == self@.len(),
                forall|j: int| 0 <= j < i ==> self@[j].id != id,
            decreases n - i,
        {
            if self.items[i].id == id {
                proof {
                    lemma_index_of_id_unique(self@, id, i as int);
                }
                return Some(i);
            }
            i += 1;
        }
        proof {
            lemma_index_of_id_unique(self@, id, -1);
        }
        None
    }

    /// Shared view of the item with id `id`, if it is present.
    pub fn get_item_by_id(&self, id: u64) -> (r: Option<&UploadItem>)
        ensures
            match r {
                Some(it) => index_of_id(self@, id) >= 0 && *it == self@[index_of_id(self@, id)],
                None => index_of_id(self@, id) == -1,
            },
    {
        match self.find_index_by_id(id) {
            Some(i) => Some(&self.items[i]),
            None => None,
        }
    }

    /// Exclusive handle on the item with id `id`, if it is present; the
    /// queue afterwards holds whatever the caller left behind the handle.
    pub fn get_item_mut_by_id(&mut self, id: u64) -> (r: Option<&mut UploadItem>)
        ensures
            match r {
                Some(it) => ({
                    let i = index_of_id(old(self)@, id);
                    &&& 0 <= i
                    &&& *it == old(self)@[i]
                    &&& final(self)@ == old(self)@.update(i, *final(it))
                    &&& final(self).spec_next_id() == old(self).spec_next_id()
                    &&& final(self).spec_max() == old(self).spec_max()
                    &&& final(self).spec_active() == old(self).spec_active()
                }),
                None => index_of_id(old(self)@, id) == -1 && *final(self) == *old(self),
            },
    {
        let found = self.find_index_by_id(id);
        match found {
            Some(i) => Some(&mut self.items[i]),
            None => None,
        }
    }

    /// Claim the (queued) item at position `i`: flip it to `Uploading` and
    /// hand back its id and source path. Meant to be called under the same
    /// exclusive access as the search that produced `i`.
    pub fn start_item_at(&mut self, i: usize, now: i64) -> (r: (u64, String))
        requires
            old(self).wf(),
            i < old(self)@.len(),
            old(self)@[i as int].status is Queued,
        ensures
            final(self).wf(),
            r.0 == old(self)@[i as int].id,
            r.1@ == old(self)@[i as int].file_path@,
            final(self)@ == old(self)@.update(i as int, item_started(old(self)@[i as int], now)),
            final(self).spec_next_id() == old(self).spec_next_id(),
            final(self).spec_max() == old(self).spec_max(),
            final(self).spec_active() == old(self).spec_active(),
            forall|j: int|
                0 <= j < old(self)@.len() ==> status_evolves(
                    old(self)@[j].status,
                    final(self)@[j].status,
                ),
    {
        let it = &mut self.items[i];
        let id: u64 = it.id;
        let path: String = it.file_path.clone();
        it.start_upload(now);
        (id, path)
    }

    /// Record a successful upload: the item with id `id`, which must still
    /// be `Uploading`, becomes `Completed` at time `now` with full
    /// progress. Nothing changes (and `false` comes back) when no such
    /// item is in `Uploading`.
    pub fn complete_item(&mut self, id: u64, now: i64) -> (r: bool)
        requires
            old(self).wf(),
        ensures
            final(self).wf(),
            ({
                let i = index_of_id(old(self)@, id);
                if i >= 0 && old(self)@[i].status is Uploading {
                    &&& r == true
                    &&& final(self)@ == old(self)@.update(i, item_completed(old(self)@[i], now))
                    &&& final(self).spec_next_id() == old(self).spec_next_id()
                    &&& final(self).spec_max() == old(self).spec_max()
                    &&& final(self).spec_active() == old(self).spec_active()
                } else {
                    r == false && *final(self) == *old(self)
                }
            }),
            final(self)@.len() == old(self)@.len(),
            forall|j: int|
                0 <= j < old(self)@.len() ==> status_evolves(
                    old(self)@[j].status,
                    final(self)@[j].status,
                ),
    {
        let found = self.find_index_by_id(id);
        match found {
            Some(i) => {
                if matches!(self.items[i].status, UploadStatus::Uploading) {
                    let it = &mut self.items[i];
                    it.complete_upload(now);
                    true
                } else {
                    false
                }
            },
            None => false,
        }
    }

    /// Record a failed upload: the item with id `id`, which must still be
    /// `Uploading`, becomes `Failed` at time `now`, keeping `error`
    /// verbatim and its progress as it was. Nothing changes (and `false`
    /// comes back) when no such item is in `Uploading`.
    pub fn fail_item(&mut self, id: u64, error: String, now: i64) -> (r: bool)
        requires
            old(self).wf(),
        ensures
            final(self).wf(),
            ({
                let i = index_of_id(old(self)@, id);
                if i >= 0 && old(self)@[i].status is Uploading {
                    &&& r == true
                    &&& final(self)@ == old(self)@.update(i, item_failed(old(self)@[i], error, now))
                    &&& final(self).spec_next_id() == old(self).spec_next_id()
                    &&& final(self).spec_max() == old(self).spec_max()
                    &&& final(self).spec_active() == old(self).spec_active()
                } else {
                    r == false && *final(self) == *old(self)
                }
            }),
            final(self)@.len() == old(self)@.len(),
            forall|j: int|
                0 <= j < old(self)@.len() ==> status_evolves(
                    old(self)@[j].status,
                    final(self)@[j].status,
                ),
    {
        let found = self.find_index_by_id(id);
        match found {
            Some(i) => {
                if matches!(self.items[i].status, UploadStatus::Uploading) {
                    let it = &mut self.items[i];
                    it.fail_upload(error, now);
                    true
                } else {
                    false
                }
            },
            None => false,
        }
    }

    /// Record intermediate progress on the item with id `id` while it is
    /// `Uploading`; the value is clamped to a percentage.
    pub fn set_item_progress(&mut self, id: u64, progress: u8) -> (r: bool)
        requires
            old(self).wf(),
        ensures
            final(self).wf(),
            ({
                let i = index_of_id(old(self)@, id);
                if i >= 0 && old(self)@[i].status is Uploading {
                    &&& r == true
                    &&& final(self)@ == old(self)@.update(
                        i,
                        (UploadItem {
                            progress_percent: if progress > 100 {
                                100
                            } else {
                                progress
                            },
                            ..old(self)@[i]
                        }),
                    )
                    &&& final(self).spec_next_id() == old(self).spec_next_id()
                    &&& final(self).spec_max() == old(self).spec_max()
                    &&& final(self).spec_active() == old(self).spec_active()
                } else {
                    r == false && *final(self) == *old(self)
                }
            }),
            forall|j: int|
                0 <= j < old(self)@.len() ==> status_evolves(
                    old(self)@[j].status,
                    final(self)@[j].status,
                ),
    {
        let found = self.find_index_by_id(id);
        match found {
            Some(i) => {
                if matches!(self.items[i].status, UploadStatus::Uploading) {
                    let it = &mut self.items[i];
                    it.update_progress(progress);
                    true
                } else {
                    false
                }
            },
            None => false,
        }
    }

    /// Remove and return the item with id `id`, if it is present.
    pub fn remove_item(&mut self, id: u64) -> (r: Option<UploadItem>)
        requires
            old(self).wf(),
        ensures
            final(self).wf(),
            match r {
                Some(it) => ({
                    let i = index_of_id(old(self)@, id);
                    &&& 0 <= i
                    &&& it == old(self)@[i]
                    &&& it.id == id
                    &&& final(self)@ == old(self)@.remove(i)
                    &&& final(self).spec_next_id() == old(self).spec_next_id()
                    &&& final(self).spec_max() == old(self).spec_max()
                    &&& final(self).spec_active() == old(self).spec_active()
                }),
                None => index_of_id(old(self)@, id) == -1 && *final(self) == *old(self),
            },
    {
        let found = self.find_index_by_id(id);
        match found {
            Some(i) => {
                let it = self.items.remove(i);
                proof {
                    let oi = i as int;
                    old(self)@.remove_ensures(oi);
                    assert forall|a: int| 0 <= a < self@.len() implies (#[trigger] self@[a]).wf()
                        && self@[a].id < self.spec_next_id() by {
                        if a < oi {
                            assert(self@[a] == old(self)@[a]);
                        } else {
                            assert(self@[a] == old(self)@[a + 1]);
                        }
                    }
                    assert forall|a: int, b: int| 0 <= a < b < self@.len() implies self@[a].id
                        != self@[b].id && self@[a].file_path@ != self@[b].file_path@ by {
                        let a2 = if a < oi { a } else { a + 1 };
                        let b2 = if b < oi { b } else { b + 1 };
                        assert(self@[a] == old(self)@[a2]);
                        assert(self@[b] == old(self)@[b2]);
                    }
                }
                Some(it)
            },
            None => None,
        }
    }

    /// Maintenance: drop every `Completed` item, keeping the others in
    /// order.
    pub fn clear_completed(&mut self)
        requires
            old(self).wf(),
        ensures
            final(self).wf(),
            final(self)@ == without_completed(old(self)@),
            final(self).spec_next_id() == old(self).spec_next_id(),
            final(self).spec_max() == old(self).spec_max(),
            final(self).spec_active() == old(self).spec_active(),
    {
        let ghost orig = self.items@;
        let mut kept: Vec<UploadItem> = Vec::new();
        let ghost mut j: int = 0;
        while self.items.len() > 0
            invariant
                0 <= j <= orig.len(),
                orig == old(self)@,
                self.items@ =~= orig.subrange(j, orig.len() as int),
                kept@ =~= without_completed(orig.subrange(0, j)),
                self.spec_next_id() == old(self).spec_next_id(),
                self.spec_max() == old(self).spec_max(),
                self.spec_active() == old(self).spec_active(),
                forall|i: int| 0 <= i < orig.len() ==> (#[trigger] orig[i]).wf(),
                forall|i: int|
                    0 <= i < orig.len() ==> (#[trigger] orig[i]).id < old(self).spec_next_id(),
                forall|a: int, b: int| 0 <= a < b < orig.len() ==> orig[a].id != orig[b].id,
                forall|a: int, b: int|
                    0 <= a < b < orig.len() ==> orig[a].file_path@ != orig[b].file_path@,
                forall|a: int| 0 <= a < kept@.len() ==> (#[trigger] kept@[a]).wf(),
                forall|a: int|
                    0 <= a < kept@.len() ==> (#[trigger] kept@[a]).id < old(self).spec_next_id(),
                forall|a: int, b: int| 0 <= a < b < kept@.len() ==> kept@[a].id != kept@[b].id,
                forall|a: int, b: int|
                    0 <= a < b < kept@.len() ==> kept@[a].file_path@ != kept@[b].file_path@,
                forall|a: int, k: int|
                    0 <= a < kept@.len() && j <= k < orig.len() ==> (#[trigger] kept@[a]).id != (
                    #[trigger] orig[k]).id,
                forall|a: int, k: int|
                    0 <= a < kept@.len() && j <= k < orig.len() ==> (#[trigger] kept@[a]).file_path@
                        != (#[trigger] orig[k]).file_path@,
            decreases self.items@.len(),
        {
            proof {
                assert(orig.subrange(0, j + 1).drop_last() =~= orig.subrange(0, j));
                assert(orig.subrange(0, j + 1).last() == orig[j]);
                reveal(Seq::filter);
            }
            let it = self.items.remove(0);
            assert(it == orig[j]);
            if !matches!(it.status, UploadStatus::Completed) {
                kept.push(it);
            }
            proof {
                j = j + 1;
            }
        }
        proof {
            assert(orig.subrange(0, orig.len() as int) =~= orig);
        }
        self.items = kept;
    }

    /// Maintenance: drop every `Failed` item, keeping the others in order.
    pub fn clear_failed(&mut self)
        requires
            old(self).wf(),
        ensures
            final(self).wf(),
            final(self)@ == without_failed(old(self)@),
            final(self).spec_next_id() == old(self).spec_next_id(),
            final(self).spec_max() == old(self).spec_max(),
            final(self).spec_active() == old(self).spec_active(),
    {
        let ghost orig = self.items@;
        let mut kept: Vec<UploadItem> = Vec::new();
        let ghost mut j: int = 0;
        while self.items.len() > 0
            invariant
                0 <= j <= orig.len(),
                orig == old(self)@,
                self.items@ =~= orig.subrange(j, orig.len() as int),
                kept@ =~= without_failed(orig.subrange(0, j)),
                self.spec_next_id() == old(self).spec_next_id(),
                self.spec_max() == old(self).spec_max(),
                self.spec_active() == old(self).spec_active(),
                forall|i: int| 0 <= i < orig.len() ==> (#[trigger] orig[i]).wf(),
                forall|i: int|
                    0 <= i < orig.len() ==> (#[trigger] orig[i]).id < old(self).spec_next_id(),
                forall|a: int, b: int| 0 <= a < b < orig.len() ==> orig[a].id != orig[b].id,
                forall|a: int, b: int|
                    0 <= a < b < orig.len() ==> orig[a].file_path@ != orig[b].file_path@,
                forall|a: int| 0 <= a < kept@.len() ==> (#[trigger] kept@[a]).wf(),
                forall|a: int|
                    0 <= a < kept@.len() ==> (#[trigger] kept@[a]).id < old(self).spec_next_id(),
                forall|a: int, b: int| 0 <= a < b < kept@.len() ==> kept@[a].id != kept@[b].id,
                forall|a: int, b: int|
                    0 <= a < b < kept@.len() ==> kept@[a].file_path@ != kept@[b].file_path@,
                forall|a: int, k: int|
                    0 <= a < kept@.len() && j <= k < orig.len() ==> (#[trigger] kept@[a]).id != (
                    #[trigger] orig[k]).id,
                forall|a: int, k: int|
                    0 <= a < kept@.len() && j <= k < orig.len() ==> (#[trigger] kept@[a]).file_path@
                        != (#[trigger] orig[k]).file_path@,
            decreases self.items@.len(),
        {
            proof {
                assert(orig.subrange(0, j + 1).drop_last() =~= orig.subrange(0, j));
                assert(orig.subrange(0, j + 1).last() == orig[j]);
                reveal(Seq::filter);
            }
            let it = self.items.remove(0);
            assert(it == orig[j]);
            if !matches!(it.status, UploadStatus::Failed(_)) {
                kept.push(it);
            }
            proof {
                j = j + 1;
            }
        }
        proof {
            assert(orig.subrange(0, orig.len() as int) =~= orig);
        }
        self.items = kept;
    }

    /// Maintenance: drop every item.
    pub fn clear_all(&mut self)
        ensures
            final(self)@ == Seq::<UploadItem>::empty(),
            final(self).wf(),
            final(self).spec_next_id() == old(self).spec_next_id(),
            final(self).spec_max() == old(self).spec_max(),
            final(self).spec_active() == old(self).spec_active(),
    {
        self.items.clear();
    }

    /// Positions of the items whose status is in stage `stage`, in
    /// insertion order.
    fn items_in_stage(&self, stage: u8) -> (r: Vec<usize>)
        ensures
            forall|k: int|
                0 <= k < r@.len() ==> (#[trigger] r@[k]) < self@.len() && spec_stage(
                    self@[r@[k] as int].status,
                ) == stage,
            forall|i: int|
                0 <= i < self@.len() && spec_stage((#[trigger] self@[i]).status) == stage
                    ==> r@.contains(i as usize),
            forall|k1: int, k2: int| 0 <= k1 < k2 < r@.len() ==> r@[k1] < r@[k2],
    {
        let n: usize = self.items.len();
        let mut r: Vec<usize> = Vec::new();
        let mut i: usize = 0;
        while i < n
            invariant
                i <= n,
                n == self@.len(),
                forall|k: int|
                    0 <= k < r@.len() ==> (#[trigger] r@[k]) < i && spec_stage(
                        self@[r@[k] as int].status,
                    ) == stage,
                forall|j: int|
                    0 <= j < i && spec_stage((#[trigger] self@[j]).status) == stage
                        ==> r@.contains(j as usize),
                forall|k1: int, k2: int| 0 <= k1 < k2 < r@.len() ==> r@[k1] < r@[k2],
            decreases n - i,
        {
            let ghost prev = r@;
            let st: u8 = match &self.items[i].status {
                UploadStatus::Queued => 0,
                UploadStatus::Uploading => 1,
                UploadStatus::Completed => 2,
                UploadStatus::Failed(_) => 3,
            };
            if st == stage {
                r.push(i);
            }
            proof {
                assert forall|j: int|
                    0 <= j < i + 1 && spec_stage((#[trigger] self@[j]).status)
                        == stage implies r@.contains(j as usize) by {
                    if j < i {
                        let k = choose|k: int| 0 <= k < prev.len() && prev[k] == j as usize;
                        assert(r@[k] == j as usize);
                    } else {
                        assert(r@[r@.len() - 1] == i as usize);
                    }
                }
            }
            i += 1;
        }
        r
    }

    /// Positions of the `Queued` items, in insertion (that is, dispatch)
    /// order.
    pub fn get_queued_items(&self) -> (r: Vec<usize>)
        ensures
            forall|k: int|
                0 <= k < r@.len() ==> (#[trigger] r@[k]) < self@.len() && self@[r@[k] as int].status
                    is Queued,
            forall|i: int|
                0 <= i < self@.len() && (#[trigger] self@[i]).status is Queued ==> r@.contains(
                    i as usize,
                ),
            forall|k1: int, k2: int| 0 <= k1 < k2 < r@.len() ==> r@[k1] < r@[k2],
    {
        self.items_in_stage(0)
    }

    /// Positions of the `Uploading` items, in insertion order.
    pub fn get_active_items(&self) -> (r: Vec<usize>)
        ensures
            forall|k: int|
                0 <= k < r@.len() ==> (#[trigger] r@[k]) < self@.len() && self@[r@[k] as int].status
                    is Uploading,
            forall|i: int|
                0 <= i < self@.len() && (#[trigger] self@[i]).status is Uploading ==> r@.contains(
                    i as usize,
                ),
            forall|k1: int, k2: int| 0 <= k1 < k2 < r@.len() ==> r@[k1] < r@[k2],
    {
        self.items_in_stage(1)
    }

    /// Positions of the `Completed` items, in insertion order.
    pub fn get_completed_items(&self) -> (r: Vec<usize>)
        ensures
            forall|k: int|
                0 <= k < r@.len() ==> (#[trigger] r@[k]) < self@.len() && self@[r@[k] as int].status
                    is Completed,
            forall|i: int|
                0 <= i < self@.len() && (#[trigger] self@[i]).status is Completed ==> r@.contains(
                    i as usize,
                ),
            forall|k1: int, k2: int| 0 <= k1 < k2 < r@.len() ==> r@[k1] < r@[k2],
    {
        self.items_in_stage(2)
    }

    /// Positions of the `Failed` items, in insertion order.
    pub fn get_failed_items(&self) -> (r: Vec<usize>)
        ensures
            forall|k: int|
                0 <= k < r@.len() ==> (#[trigger] r@[k]) < self@.len() && self@[r@[k] as int].status
                    is Failed,
            forall|i: int|
                0 <= i < self@.len() && (#[trigger] self@[i]).status is Failed ==> r@.contains(
                    i as usize,
                ),
            forall|k1: int, k2: int| 0 <= k1 < k2 < r@.len() ==> r@[k1] < r@[k2],
    {
        self.items_in_stage(3)
    }

    /// Whether another upload may start under the configured ceiling.
    pub fn can_start_upload(&self) -> (r: bool)
        ensures
            r == (self.spec_active() < self.spec_max()),
    {
        self.active_uploads < self.max_concurrent_uploads
    }

    /// Note that one more upload task is running.
    pub fn increment_active_uploads(&mut self)
        requires
            old(self).spec_active() < usize::MAX,
        ensures
            final(self)@ == old(self)@,
            final(self).spec_next_id() == old(self).spec_next_id(),
            final(self).spec_max() == old(self).spec_max(),
            final(self).spec_active() == old(self).spec_active() + 1,
    {
        self.active_uploads += 1;
    }

    /// Note that one upload task has finished; saturates at zero.
    pub fn decrement_active_uploads(&mut self)
        ensures
            final(self)@ == old(self)@,
            final(self).spec_next_id() == old(self).spec_next_id(),
            final(self).spec_max() == old(self).spec_max(),
            final(self).spec_active() == if old(self).spec_active() > 0 {
                (old(self).spec_active() - 1) as usize
            } else {
                0
            },
    {
        if self.active_uploads > 0 {
            self.active_uploads -= 1;
        }
    }
}

/// Best-effort thumbnail bytes for the image at `path`; any failure to
/// open or decode yields no thumbnail. Relies on image::open (which reads
/// the file from disk), DynamicImage::thumbnail and
/// DynamicImage::to_rgb8; nothing is assumed of the outcome.
#[verifier::external_body]
fn generate_thumbnail(path: &str) -> (r: Option<Vec<u8>>) {
    match image::open(path) {
        Ok(img) => Some(img.thumbnail(100, 100).to_rgb8().into_raw()),
        Err(_) => None,
    }
}

} // verus!
