use awaken_runtime::progress::{ChildEvent, ProgressFilter, TOOL_CALL_PROGRESS_ACTIVITY_TYPE};

fn start(id: &str) -> ChildEvent {
    ChildEvent::ToolCallStart { id: id.into() }
}

fn progress(call_id: &str) -> ChildEvent {
    ChildEvent::ActivitySnapshot {
        activity_type: TOOL_CALL_PROGRESS_ACTIVITY_TYPE.into(),
        progress_call_id: Some(call_id.into()),
    }
}

#[test]
fn forwards_progress_from_known_child_call() {
    let mut f = ProgressFilter::new();
    assert!(!f.on_event(&start("call-1")));
    assert!(f.on_event(&progress("call-1")));
}

#[test]
fn drops_progress_from_unknown_call() {
    let mut f = ProgressFilter::new();
    assert!(!f.on_event(&progress("unknown-call")));
}

#[test]
fn drops_non_progress_events() {
    let mut f = ProgressFilter::new();
    assert!(!f.on_event(&ChildEvent::Other));
    assert!(!f.on_event(&ChildEvent::Other));
}

#[test]
fn tracks_multiple_child_calls() {
    let mut f = ProgressFilter::new();
    f.on_event(&start("call-a"));
    f.on_event(&start("call-b"));
    let forwarded = [progress("call-a"), progress("call-b"), progress("call-c")]
        .iter()
        .filter(|e| f.on_event(e))
        .count();
    assert_eq!(forwarded, 2);
}

#[test]
fn ignores_non_progress_activity_snapshots() {
    let mut f = ProgressFilter::new();
    f.on_event(&start("call-1"));
    let other = ChildEvent::ActivitySnapshot {
        activity_type: "file-activity".into(),
        progress_call_id: Some("call-1".into()),
    };
    assert!(!f.on_event(&other));
    let unparsed = ChildEvent::ActivitySnapshot {
        activity_type: TOOL_CALL_PROGRESS_ACTIVITY_TYPE.into(),
        progress_call_id: None,
    };
    assert!(!f.on_event(&unparsed));
}
