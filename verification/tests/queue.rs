use gallery_uploader::upload_queue::{UploadQueue, UploadStatus};

fn path(p: &str) -> String {
    p.to_string()
}

#[test]
fn empty_queue_has_all_zero_stats() {
    let q = UploadQueue::new();
    let s = q.get_stats();
    assert_eq!(s.total, 0);
    assert_eq!(s.queued, 0);
    assert_eq!(s.active, 0);
    assert_eq!(s.completed, 0);
    assert_eq!(s.failed, 0);
}

#[test]
fn dropped_file_becomes_one_queued_item_with_its_name() {
    let mut q = UploadQueue::new();
    let id = q.add_file(path("/watch/photo.jpg"), 1_000);
    assert!(id.is_some());
    let items = q.get_items();
    assert_eq!(items.len(), 1);
    assert_eq!(items[0].file_name, "photo.jpg");
    assert_eq!(items[0].file_path, "/watch/photo.jpg");
    assert!(matches!(items[0].status, UploadStatus::Queued));
    assert_eq!(items[0].added_at, 1_000);
    assert_eq!(items[0].progress_percent, 0);
    let s = q.get_stats();
    assert_eq!(s.total, 1);
    assert_eq!(s.queued, 1);
}

#[test]
fn second_insertion_of_same_path_returns_no_id_and_adds_nothing() {
    let mut q = UploadQueue::new();
    let first = q.add_file(path("/watch/photo.jpg"), 1);
    assert!(first.is_some());
    let second = q.add_file(path("/watch/photo.jpg"), 2);
    assert!(second.is_none());
    assert_eq!(q.get_items().len(), 1);
}

#[test]
fn ids_are_assigned_in_order_and_never_reused() {
    let mut q = UploadQueue::new();
    let a = q.add_file(path("/w/a.jpg"), 1).unwrap();
    let b = q.add_file(path("/w/b.jpg"), 2).unwrap();
    assert_ne!(a, b);
    let removed = q.remove_item(a).unwrap();
    assert_eq!(removed.id, a);
    let c = q.add_file(path("/w/c.jpg"), 3).unwrap();
    assert_ne!(c, a);
    assert_ne!(c, b);
}

#[test]
fn stats_partition_the_total_across_all_stages() {
    let mut q = UploadQueue::new();
    let a = q.add_file(path("/w/a.jpg"), 1).unwrap();
    let b = q.add_file(path("/w/b.jpg"), 2).unwrap();
    let _c = q.add_file(path("/w/c.jpg"), 3).unwrap();
    let _d = q.add_file(path("/w/d.jpg"), 4).unwrap();

    let i = q.get_next_queued_item().unwrap();
    q.start_item_at(i, 10);
    assert!(q.complete_item(a, 20));

    let j = q.get_next_queued_item().unwrap();
    q.start_item_at(j, 11);
    assert!(q.fail_item(b, "Upload failed: boom".to_string(), 21));

    let k = q.get_next_queued_item().unwrap();
    q.start_item_at(k, 12);

    let s = q.get_stats();
    assert_eq!(s.total, 4);
    assert_eq!(s.queued, 1);
    assert_eq!(s.active, 1);
    assert_eq!(s.completed, 1);
    assert_eq!(s.failed, 1);
    assert_eq!(s.queued + s.active + s.completed + s.failed, s.total);
}

#[test]
fn statuses_never_leave_a_terminal_stage() {
    let mut q = UploadQueue::new();
    let a = q.add_file(path("/w/a.jpg"), 1).unwrap();
    let i = q.get_next_queued_item().unwrap();
    q.start_item_at(i, 2);
    assert!(q.fail_item(a, "Upload failed: no".to_string(), 3));
    // a failed item is terminal: it cannot be completed, re-failed, or
    // given progress, and it is never handed out as the next queued item
    assert!(!q.complete_item(a, 4));
    assert!(!q.fail_item(a, "again".to_string(), 5));
    assert!(!q.set_item_progress(a, 50));
    assert!(q.get_next_queued_item().is_none());
    let it = q.get_item_by_id(a).unwrap();
    assert!(matches!(it.status, UploadStatus::Failed(ref m) if m == "Upload failed: no"));
}

#[test]
fn failed_path_stays_blocked_until_cleared() {
    let mut q = UploadQueue::new();
    let a = q.add_file(path("/w/photo.jpg"), 1).unwrap();
    let i = q.get_next_queued_item().unwrap();
    q.start_item_at(i, 2);
    assert!(q.fail_item(a, "Upload failed: quota exceeded".to_string(), 3));
    // the failed item still occupies the path
    assert!(q.add_file(path("/w/photo.jpg"), 4).is_none());
    q.clear_failed();
    // after maintenance the path may be re-submitted
    assert!(q.add_file(path("/w/photo.jpg"), 5).is_some());
}

#[test]
fn claim_takes_the_earliest_queued_item_exactly_once() {
    let mut q = UploadQueue::new();
    let a = q.add_file(path("/w/a.jpg"), 1).unwrap();
    let b = q.add_file(path("/w/b.jpg"), 2).unwrap();
    let i = q.get_next_queued_item().unwrap();
    let (id1, p1) = q.start_item_at(i, 10);
    assert_eq!(id1, a);
    assert_eq!(p1, "/w/a.jpg");
    let j = q.get_next_queued_item().unwrap();
    let (id2, _p2) = q.start_item_at(j, 11);
    assert_eq!(id2, b);
    assert_ne!(id1, id2);
    assert!(q.get_next_queued_item().is_none());
}

#[test]
fn completing_an_upload_sets_timestamps_and_progress() {
    let mut q = UploadQueue::new();
    let a = q.add_file(path("/w/a.jpg"), 1).unwrap();
    let i = q.get_next_queued_item().unwrap();
    q.start_item_at(i, 10);
    {
        let it = q.get_item_by_id(a).unwrap();
        assert!(matches!(it.status, UploadStatus::Uploading));
        assert_eq!(it.started_at, Some(10));
        assert_eq!(it.progress_percent, 10);
        assert_eq!(it.completed_at, None);
    }
    assert!(q.set_item_progress(a, 90));
    assert_eq!(q.get_item_by_id(a).unwrap().progress_percent, 90);
    assert!(q.complete_item(a, 20));
    let it = q.get_item_by_id(a).unwrap();
    assert!(matches!(it.status, UploadStatus::Completed));
    assert_eq!(it.completed_at, Some(20));
    assert_eq!(it.progress_percent, 100);
}

#[test]
fn progress_updates_are_clamped_to_a_percentage() {
    let mut q = UploadQueue::new();
    let a = q.add_file(path("/w/a.jpg"), 1).unwrap();
    let i = q.get_next_queued_item().unwrap();
    q.start_item_at(i, 2);
    assert!(q.set_item_progress(a, 200));
    assert_eq!(q.get_item_by_id(a).unwrap().progress_percent, 100);
}

#[test]
fn clear_operations_remove_exactly_the_named_stage() {
    let mut q = UploadQueue::new();
    let a = q.add_file(path("/w/a.jpg"), 1).unwrap();
    let b = q.add_file(path("/w/b.jpg"), 2).unwrap();
    let _c = q.add_file(path("/w/c.jpg"), 3).unwrap();
    let i = q.get_next_queued_item().unwrap();
    q.start_item_at(i, 10);
    assert!(q.complete_item(a, 11));
    let j = q.get_next_queued_item().unwrap();
    q.start_item_at(j, 12);
    assert!(q.fail_item(b, "Upload failed: x".to_string(), 13));

    q.clear_completed();
    assert_eq!(q.get_items().len(), 2);
    assert!(q.get_item_by_id(a).is_none());

    q.clear_failed();
    assert_eq!(q.get_items().len(), 1);
    assert!(q.get_item_by_id(b).is_none());

    q.clear_all();
    assert_eq!(q.get_items().len(), 0);
    let s = q.get_stats();
    assert_eq!(s.total, 0);
}

#[test]
fn stage_listings_report_positions_in_order() {
    let mut q = UploadQueue::new();
    let _a = q.add_file(path("/w/a.jpg"), 1).unwrap();
    let b = q.add_file(path("/w/b.jpg"), 2).unwrap();
    let _c = q.add_file(path("/w/c.jpg"), 3).unwrap();

    assert_eq!(q.get_queued_items(), vec![0, 1, 2]);
    assert!(q.get_active_items().is_empty());

    let i = q.get_next_queued_item().unwrap();
    q.start_item_at(i, 10);
    assert_eq!(q.get_queued_items(), vec![1, 2]);
    assert_eq!(q.get_active_items(), vec![0]);

    let j = q.get_next_queued_item().unwrap();
    q.start_item_at(j, 11);
    assert!(q.fail_item(b, "Upload failed: y".to_string(), 12));
    assert_eq!(q.get_failed_items(), vec![1]);
    assert!(q.get_completed_items().is_empty());
}

#[test]
fn concurrency_ceiling_is_tracked_by_the_active_counters() {
    let mut q = UploadQueue::new();
    assert!(q.can_start_upload());
    q.increment_active_uploads();
    q.increment_active_uploads();
    q.increment_active_uploads();
    assert!(!q.can_start_upload());
    q.decrement_active_uploads();
    assert!(q.can_start_upload());
    q.set_max_concurrent_uploads(2);
    assert!(!q.can_start_upload());
    q.decrement_active_uploads();
    q.decrement_active_uploads();
    // decrementing an idle queue stays at zero
    q.decrement_active_uploads();
    assert!(q.can_start_upload());
}

#[test]
fn mutable_handles_reach_items_by_id() {
    let mut q = UploadQueue::new();
    let a = q.add_file(path("/w/a.jpg"), 1).unwrap();
    {
        let it = q.get_item_mut_by_id(a).unwrap();
        it.start_upload(50);
    }
    let it = q.get_item_by_id(a).unwrap();
    assert!(matches!(it.status, UploadStatus::Uploading));
    assert_eq!(it.started_at, Some(50));
    assert!(q.get_item_mut_by_id(a + 1).is_none());
}
