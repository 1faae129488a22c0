use latex_preview::preview::Preview;
use latex_preview::queue::{CompilationRequest, QueuePolicy};

fn request(source: &str) -> CompilationRequest {
    CompilationRequest { source: source.to_string(), dark_mode: false }
}

#[test]
fn test_queue_sequential() {
    let _preview = Preview::new();
    let mut q = QueuePolicy::new();
    // one request at a time, straight through
    assert!(q.submit(request("a")));
    assert_eq!(q.take().map(|r| r.source), Some("a".to_string()));
    q.finish();
    assert!(q.submit(request("b")));
    assert_eq!(q.take().map(|r| r.source), Some("b".to_string()));
    q.finish();
}

#[test]
fn test_queue_drops_submissions_while_slot_full() {
    let mut q = QueuePolicy::new();
    // the worker is busy with the first request
    assert!(q.submit(request("first")));
    assert!(q.take().is_some());
    // one more may wait; every further submission is dropped at once
    assert!(q.submit(request("second")));
    assert!(!q.submit(request("third")));
    assert!(!q.submit(request("fourth")));
    assert!(!q.submit(request("fifth")));
    q.finish();
    // the one that waited is the one the worker gets
    assert_eq!(q.take().map(|r| r.source), Some("second".to_string()));
}

#[test]
fn test_queue_shutdown_stops_accepting() {
    let mut q = QueuePolicy::new();
    q.shutdown();
    assert!(!q.submit(request("late")));
    assert!(q.take().is_none());
}
