//! The watcher's acceptance rule: which filesystem notifications put a
//! path onto the ingestion channel. The native subscription itself lives
//! outside the library; it hands in the event kind, whether the path is a
//! regular file, and the path's text.

use vstd::prelude::*;

use crate::paths::is_image_file;
use crate::paths::spec_is_image_path;

verus! {

/// The kinds of native filesystem notification the watcher distinguishes.
#[derive(Debug, Clone, Copy, PartialEq, Eq, Structural)]
pub enum WatchEventKind {
    Create,
    Modify,
    Other,
}

/// Whether a notified path is emitted to the ingestion channel: only on a
/// creation or modification notice, only for a regular file, and only
/// when the name carries an accepted image extension. Repeated notices
/// for one path are all emitted — deduplication is the queue's job.
pub fn accept_event_path(kind: WatchEventKind, is_regular_file: bool, path: &str) -> (r: bool)
    ensures
        r == ((kind is Create || kind is Modify) && is_regular_file && spec_is_image_path(path@)),
{
    match kind {
        WatchEventKind::Create | WatchEventKind::Modify => is_regular_file && is_image_file(path),
        WatchEventKind::Other => false,
    }
}

} // verus!
