use gallery_uploader::file_watcher::{accept_event_path, WatchEventKind};
use gallery_uploader::is_image_file;

#[test]
fn test_is_image_file() {
    assert!(is_image_file("test.jpg"));
    assert!(is_image_file("test.jpeg"));
    assert!(is_image_file("test.png"));
    assert!(!is_image_file("test.heic"));
    assert!(is_image_file("test.nef"));
    assert!(is_image_file("TEST.JPG"));
    assert!(!is_image_file("test.txt"));
    assert!(!is_image_file("test"));
    assert!(!is_image_file("test.mp4"));
}

#[test]
fn image_filter_looks_at_final_component_only() {
    assert!(is_image_file("/watch/folder/photo.jpg"));
    assert!(is_image_file("/watch.dir/photo.PNG"));
    assert!(!is_image_file("/watch.jpg/photo"));
    assert!(!is_image_file("/watch/folder.jpg/"));
}

#[test]
fn image_filter_rejects_dot_files_and_empty_extensions() {
    assert!(!is_image_file(".jpg"));
    assert!(!is_image_file("photo."));
    assert!(!is_image_file(""));
    assert!(is_image_file("archive.tar.jpg"));
    assert!(!is_image_file("archive.jpg.tar"));
}

#[test]
fn events_emit_only_file_creations_and_modifications_of_images() {
    assert!(accept_event_path(WatchEventKind::Create, true, "/w/a.jpg"));
    assert!(accept_event_path(WatchEventKind::Modify, true, "/w/a.nef"));
    assert!(!accept_event_path(WatchEventKind::Other, true, "/w/a.jpg"));
    assert!(!accept_event_path(WatchEventKind::Create, false, "/w/a.jpg"));
    assert!(!accept_event_path(WatchEventKind::Modify, true, "/w/a.txt"));
}
