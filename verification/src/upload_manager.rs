//! The upload scheduler: a `Stopped`/`Running` session around a queue,
//! a per-tick claim of the earliest queued item under the concurrency
//! ceiling, the outcome recording for finished upload tasks, and the
//! collision-safe choice of a destination file name.

use vstd::prelude::*;

use crate::paths::lemma_last_index_of_unique;
use crate::paths::rfind_char_from;
use crate::paths::spec_ext_suffix;
use crate::paths::spec_stem;
use crate::upload_queue::claims_index;
use crate::upload_queue::item_started;
use crate::upload_queue::UploadQueue;

verus! {

/// What one claimed upload carries into its independent task: the item's
/// id, its source path, and a one-time snapshot of the destination event
/// code taken at dispatch.
pub struct UploadTask {
    pub item_id: u64,
    pub file_path: String,
    pub event_code: String,
}

/// The scheduler: owns the destination context (the event code), the
/// watched folder, the caller's credential, and the session flag.
pub struct UploadManager {
    event_code: String,
    watch_folder: String,
    api_key: String,
    is_running: bool,
}

impl UploadManager {
    /// The destination event code a claim would snapshot now.
    pub closed spec fn spec_event_code(self) -> Seq<char> {
        self.event_code@
    }

    /// The watched folder this session uploads from.
    pub closed spec fn spec_watch_folder(self) -> Seq<char> {
        self.watch_folder@
    }

    /// The credential handed to every upload request.
    pub closed spec fn spec_api_key(self) -> Seq<char> {
        self.api_key@
    }

    /// Whether the session is running.
    pub closed spec fn spec_is_running(self) -> bool {
        self.is_running
    }

    /// A stopped session with the given destination, folder and
    /// credential.
    pub fn new(event_code: String, watch_folder: String, api_key: String) -> (r: UploadManager)
        ensures
            r.spec_event_code() == event_code@,
            r.spec_watch_folder() == watch_folder@,
            r.spec_api_key() == api_key@,
            !r.spec_is_running(),
    {
        UploadManager { event_code, watch_folder, api_key, is_running: false }
    }

    /// Enter `Running`. Idempotent: the result says whether this call made
    /// the transition, so the caller starts the tick loop (and creates the
    /// output folder) exactly once.
    pub fn start(&mut self) -> (started: bool)
        ensures
            final(self).spec_is_running(),
            started == !old(self).spec_is_running(),
            final(self).spec_event_code() == old(self).spec_event_code(),
            final(self).spec_watch_folder() == old(self).spec_watch_folder(),
            final(self).spec_api_key() == old(self).spec_api_key(),
    {
        let started: bool = !self.is_running;
        self.is_running = true;
        started
    }

    /// Leave `Running`; the tick loop observes this flag and halts.
    pub fn stop(&mut self)
        ensures
            !final(self).spec_is_running(),
            final(self).spec_event_code() == old(self).spec_event_code(),
            final(self).spec_watch_folder() == old(self).spec_watch_folder(),
            final(self).spec_api_key() == old(self).spec_api_key(),
    {
        self.is_running = false;
    }

    pub fn is_running(&self) -> (r: bool)
        ensures
            r == self.spec_is_running(),
    {
        self.is_running
    }

    pub fn event_code(&self) -> (r: &String)
        ensures
            r@ == self.spec_event_code(),
    {
        &self.event_code
    }

    pub fn watch_folder(&self) -> (r: &String)
        ensures
            r@ == self.spec_watch_folder(),
    {
        &self.watch_folder
    }

    pub fn api_key(&self) -> (r: &String)
        ensures
            r@ == self.spec_api_key(),
    {
        &self.api_key
    }

    /// Replace the destination event code when it differs from the
    /// current one; says whether it changed, so the caller can surface
    /// the old and new values. Claims dispatched before this call keep
    /// their snapshot; only later claims see the new value.
    pub fn update_event_code(&mut self, new_event_code: String) -> (changed: bool)
        ensures
            changed == (old(self).spec_event_code() != new_event_code@),
            final(self).spec_event_code() == new_event_code@,
            final(self).spec_watch_folder() == old(self).spec_watch_folder(),
            final(self).spec_api_key() == old(self).spec_api_key(),
            final(self).spec_is_running() == old(self).spec_is_running(),
    {
        if self.event_code == new_event_code {
            false
        } else {
            self.event_code = new_event_code;
            true
        }
    }

    /// One scheduler tick. While running, and while the count of active
    /// uploads is under the ceiling, claim the earliest `Queued` item:
    /// atomically (under the caller's exclusive access to the queue) flip
    /// it to `Uploading`, count it active, and hand back the task to run,
    /// carrying a snapshot of the current event code. Otherwise the queue
    /// is untouched.
    pub fn tick(&self, queue: &mut UploadQueue, now: i64) -> (r: Option<UploadTask>)
        requires
            old(queue).wf(),
        ensures
            final(queue).wf(),
            match r {
                Some(t) => {
                    &&& self.spec_is_running()
                    &&& old(queue).spec_active() < old(queue).spec_max()
                    &&& exists|i: int|
                        claims_index(old(queue)@, final(queue)@, i, now) && t.item_id == old(
                            queue,
                        )@[i].id && t.file_path@ == old(queue)@[i].file_path@
                    &&& t.event_code@ == self.spec_event_code()
                    &&& final(queue).spec_active() == old(queue).spec_active() + 1
                    &&& final(queue).spec_next_id() == old(queue).spec_next_id()
                    &&& final(queue).spec_max() == old(queue).spec_max()
                },
                None => {
                    &&& *final(queue) == *old(queue)
                    &&& (!self.spec_is_running() || old(queue).spec_active() >= old(
                        queue,
                    ).spec_max() || (forall|j: int|
                        0 <= j < old(queue)@.len() ==> !((#[trigger] old(queue)@[j]).status
                            is Queued)))
                },
            },
    {
        if !self.is_running {
            return None;
        }
        if !queue.can_start_upload() {
            return None;
        }
        match queue.get_next_queued_item() {
            None => None,
            Some(i) => {
                let claimed = queue.start_item_at(i, now);
                queue.increment_active_uploads();
                let ghost pre = old(queue)@;
                proof {
                    assert(claims_index(pre, queue@, i as int, now));
                }
                Some(
                    UploadTask {
                        item_id: claimed.0,
                        file_path: claimed.1,
                        event_code: self.event_code.clone(),
                    },
                )
            },
        }
    }
}

/// Two successive claims never pick the same item: a claim takes only a
/// `Queued` item and leaves it `Uploading`, so the second claim lands on
/// a different position, and — ids being pairwise distinct — on a
/// different item id. This is what makes one claimed item the property of
/// exactly one upload task.
pub proof fn lemma_claim_unique(
    s0: Seq<crate::upload_queue::UploadItem>,
    s1: Seq<crate::upload_queue::UploadItem>,
    s2: Seq<crate::upload_queue::UploadItem>,
    i1: int,
    i2: int,
    t1: i64,
    t2: i64,
)
    requires
        claims_index(s0, s1, i1, t1),
        claims_index(s1, s2, i2, t2),
        forall|a: int, b: int| 0 <= a < b < s0.len() ==> s0[a].id != s0[b].id,
    ensures
        i1 != i2,
        s0[i1].id != s1[i2].id,
{
    assert(s1[i1] == item_started(s0[i1], t1));
    assert(s1[i1].status is Uploading);
    assert(s1[i2].status is Queued);
    assert(s1[i2] == s0[i2]);
}

/// Once claimed, an item can never become claimable again: the claim
/// leaves its position `Uploading`, and however the queue's statuses
/// evolve afterwards under the permitted transitions, that position is
/// never `Queued` — which any later claim would require.
pub proof fn lemma_claimed_position_stays_unclaimable(
    s0: Seq<crate::upload_queue::UploadItem>,
    s1: Seq<crate::upload_queue::UploadItem>,
    s2: Seq<crate::upload_queue::UploadItem>,
    i: int,
    t: i64,
)
    requires
        claims_index(s0, s1, i, t),
        s2.len() == s1.len(),
        forall|j: int|
            0 <= j < s1.len() ==> crate::upload_queue::status_evolves(
                s1[j].status,
                s2[j].status,
            ),
    ensures
        !(s2[i].status is Queued),
{
    assert(s1[i] == item_started(s0[i], t));
    assert(s1[i].status is Uploading);
    assert(crate::upload_queue::status_evolves(s1[i].status, s2[i].status));
}

/// A file name that cannot collide with `file_name`: its stem, an
/// underscore, the given stamp, a dot, and its extension suffix.
pub open spec fn spec_stamped_name(name: Seq<char>, stamp: Seq<char>) -> Seq<char> {
    spec_stem(name) + seq!['_'] + stamp + seq!['.'] + spec_ext_suffix(name)
}

/// The name under which a finished upload is moved into the output
/// folder: the original name, unless a file of that name already exists
/// there, in which case the stamp is woven in before the extension — and
/// the woven name provably differs from the original, so the move never
/// silently overwrites it.
pub fn resolve_dest_name(file_name: &str, already_exists: bool, stamp: &str) -> (r: String)
    ensures
        !already_exists ==> r@ == file_name@,
        already_exists ==> r@ == spec_stamped_name(file_name@, stamp@),
        already_exists ==> r@ != file_name@,
{
    if !already_exists {
        return file_name.to_owned();
    }
    let n: usize = file_name.unicode_len();
    let dot: Option<usize> = rfind_char_from(file_name, 0, '.');
    proof {
        lemma_last_index_of_unique(
            file_name@,
            '.',
            match dot {
                Some(i) => i as int,
                None => -1,
            },
        );
    }
    let stem_end: usize = match dot {
        Some(i) => {
            if i > 0 {
                i
            } else {
                n
            }
        },
        None => n,
    };
    let mut r: String = file_name.substring_char(0, stem_end).to_owned();
    r.append("_");
    r.append(stamp);
    r.append(".");
    if stem_end < n {
        r.append(file_name.substring_char(stem_end + 1, n));
    }
    proof {
        reveal_strlit("_");
        reveal_strlit(".");
        assert("_"@ =~= seq!['_']);
        assert("."@ =~= seq!['.']);
        assert(r@ =~= spec_stamped_name(file_name@, stamp@));
        assert(r@.len() > file_name@.len());
    }
    r
}

/// The output folder that receives uploaded files: the `uploaded`
/// subfolder of the watched folder.
pub open spec fn spec_uploaded_folder(watch: Seq<char>) -> Seq<char> {
    watch + seq!['/', 'u', 'p', 'l', 'o', 'a', 'd', 'e', 'd']
}

pub fn uploaded_folder_path(watch_folder: &str) -> (r: String)
    ensures
        r@ == spec_uploaded_folder(watch_folder@),
{
    let mut r: String = watch_folder.to_owned();
    r.append("/uploaded");
    proof {
        reveal_strlit("/uploaded");
        assert(r@ =~= spec_uploaded_folder(watch_folder@));
    }
    r
}

/// `name` placed inside `dir`, with a single separating slash.
pub open spec fn spec_joined(dir: Seq<char>, name: Seq<char>) -> Seq<char> {
    dir + seq!['/'] + name
}

pub fn join_path(dir: &str, name: &str) -> (r: String)
    ensures
        r@ == spec_joined(dir@, name@),
{
    let mut r: String = dir.to_owned();
    r.append("/");
    r.append(name);
    proof {
        reveal_strlit("/");
        assert(r@ =~= spec_joined(dir@, name@));
    }
    r
}

} // verus!
