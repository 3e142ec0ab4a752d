use photoframe::events::{PhotoLoaded, PreparedImageCpu};
use photoframe::loader::{LoaderWindow, ReadyPhoto, ReorderBuffer, RepeatGuard};

fn ready_for(path: &str) -> ReadyPhoto {
    ReadyPhoto {
        path: path.to_string(),
        event: PhotoLoaded {
            prepared: PreparedImageCpu { path: path.to_string(), width: 1, height: 1, pixels: vec![0, 0, 0, 255] },
            priority: false,
        },
    }
}

fn ready_paths(items: &[ReadyPhoto]) -> Vec<String> {
    items.iter().map(|r| r.path.clone()).collect()
}

#[test]
fn reorder_buffer_emits_in_request_order_skipping_invalid() {
    let mut buf = ReorderBuffer::new();
    buf.insert(2, Some(ready_for("c")));
    assert!(ready_paths(&buf.drain_ready()).is_empty());
    buf.insert(0, Some(ready_for("a")));
    assert_eq!(ready_paths(&buf.drain_ready()), ["a"]);
    buf.insert(1, None);
    assert_eq!(ready_paths(&buf.drain_ready()), ["c"]);
    buf.insert(3, Some(ready_for("d")));
    assert_eq!(ready_paths(&buf.drain_ready()), ["d"]);
    assert_eq!(buf.next_emit(), 4);
}

#[test]
fn reorders_single_repeat_when_possible() {
    let mut guard = RepeatGuard::new();
    let first = guard.send_ready(ready_for("a"));
    assert_eq!(first.len(), 1);
    assert_eq!(first[0].prepared.path, "a");
    assert!(!first[0].priority);
    assert!(guard.pending.is_none());

    let held = guard.send_ready(ready_for("a"));
    assert!(held.is_empty());
    assert!(guard.pending.is_some());

    let out = guard.send_ready(ready_for("b"));
    let paths: Vec<&str> = out.iter().map(|p| p.prepared.path.as_str()).collect();
    assert_eq!(paths, ["b", "a"]);
    assert!(guard.pending.is_none());
    assert_eq!(guard.last_sent.as_deref(), Some("a"));
}

#[test]
fn flushes_pending_when_nothing_else_arrives() {
    let mut guard = RepeatGuard::new();
    assert_eq!(guard.send_ready(ready_for("a")).len(), 1);
    assert!(guard.send_ready(ready_for("a")).is_empty());
    assert!(guard.pending.is_some());
    let flushed = guard.flush_pending().expect("held photo");
    assert_eq!(flushed.prepared.path, "a");
    assert!(guard.pending.is_none());
    assert_eq!(guard.last_sent.as_deref(), Some("a"));
    assert!(guard.flush_pending().is_none());
}

#[test]
fn reorder_buffer_holds_until_gap_filled() {
    let mut buf: ReorderBuffer<u32> = ReorderBuffer::new();
    buf.insert(1, Some(11));
    buf.insert(2, Some(22));
    assert!(buf.drain_ready().is_empty());
    buf.insert(0, Some(0));
    assert_eq!(buf.drain_ready(), vec![0, 11, 22]);
    assert_eq!(buf.next_emit(), 3);
}

#[test]
fn loader_window_deduplicates_and_tracks_priority() {
    let mut window = LoaderWindow::new(2);
    assert!(window.can_accept(0));
    assert_eq!(window.request("a.jpg", false), Some(0));
    assert_eq!(window.request("b.jpg", true), Some(1));
    assert!(!window.can_accept(0), "two requests outstanding fill the window");
    assert!(window.can_accept(1));
    // A duplicate of a decode under way takes no sequence number, but a
    // priority upgrade is remembered.
    assert_eq!(window.request("a.jpg", true), None);
    assert!(window.finished("a.jpg"));
    assert!(window.finished("b.jpg"));
    assert!(!window.finished("b.jpg"));
    assert!(window.is_idle());
    assert_eq!(window.request("a.jpg", false), Some(2));
    assert!(!window.finished("a.jpg"));
}
