use mboitata::{initialize_stages, AllowList, Dispatcher, InterceptedResponse, StageId};
use mboitata::router::PipelineOutput;

fn plain_resp(host: &str, path: &str) -> InterceptedResponse {
    InterceptedResponse {
        scheme: "https".to_string(),
        host: host.to_string(),
        path: path.to_string(),
        content_type: "text/plain".to_string(),
        content_encoding: "identity".to_string(),
        body: b"nothing to see".to_vec(),
    }
}

#[test]
fn emit_counts_in_flight() {
    let mut d = Dispatcher::new();
    assert_eq!(d.inflight_count(), 0);
    d.emit(StageId::Filter, plain_resp("h", "/a"));
    d.emit(StageId::Filter, plain_resp("h", "/b"));
    assert_eq!(d.inflight_count(), 2);
    assert_eq!(d.pending(), 2);
    assert_eq!(d.emitted_count(), 2);
    assert_eq!(d.completed_count(), 0);
}

#[test]
fn close_gracefully_leaves_counters_balanced() {
    // Emit-then-complete balance: after a drain and a graceful close the
    // in-flight counter is zero and every emitted event was completed.
    let (registry, mut d) = initialize_stages(AllowList::new(vec![]), "out".to_string());
    let mut out = PipelineOutput::new();
    for i in 0..100 {
        d.emit(StageId::Filter, plain_resp("host", &format!("/f{}", i)));
    }
    registry.drain(&mut d, &mut out);
    assert_eq!(d.pending(), 0);
    assert_eq!(d.inflight_count(), 0);
    d.close_gracefully();
    assert!(d.is_closed());
    assert_eq!(d.inflight_count(), 0);
    assert_eq!(d.emitted_count(), d.completed_count());
    assert!(d.emitted_count() >= 100);
}

#[test]
fn drain_of_empty_queue_returns_immediately() {
    let (registry, mut d) = initialize_stages(AllowList::new(vec![]), "out".to_string());
    let mut out = PipelineOutput::new();
    registry.drain(&mut d, &mut out);
    assert_eq!(d.inflight_count(), 0);
    assert_eq!(out.writes.len(), 0);
}
