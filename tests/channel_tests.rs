use dbug::async_tasks::{AsyncTaskRegistry, AsyncTaskState};
use dbug::channel::{
    content_length, frame_payload, poll_decision, wait_outcome, DebuggerMessage, DebuggerResponse,
    MessageQueue, PollAction, MAX_BATCH_SIZE, MMAP_SIZE, RESPONSE_TIMEOUT_MS,
};
use dbug::errors::DbugError;

fn exited(name: &str) -> DebuggerMessage {
    DebuggerMessage::FunctionExited { function: name.to_string() }
}

#[test]
fn full_batch_flushes_once() {
    let mut q = MessageQueue::new(1000);
    let mut payloads = Vec::new();
    for i in 0..MAX_BATCH_SIZE {
        if let Some(p) = q.queue_message(exited(&format!("f{}", i)), 1000) {
            payloads.push(p);
        }
    }
    assert_eq!(q.flush_count(), 1);
    assert_eq!(payloads.len(), 1);
    match &payloads[0] {
        DebuggerMessage::BatchedMessages(v) => {
            assert_eq!(v.len(), MAX_BATCH_SIZE);
            assert!(matches!(&v[0], DebuggerMessage::FunctionExited { function } if function == "f0"));
            assert!(matches!(&v[9], DebuggerMessage::FunctionExited { function } if function == "f9"));
        }
        _ => panic!("expected a batch"),
    }
    assert_eq!(q.len(), 0);
}

#[test]
fn breakpoint_hit_flushes_at_once() {
    let mut q = MessageQueue::new(1000);
    assert!(q.queue_message(exited("a"), 1000).is_none());
    let p = q.queue_message(
        DebuggerMessage::BreakpointHit {
            file: "a.rs".to_string(),
            line: 1,
            column: 0,
            function: "main".to_string(),
        },
        1000,
    );
    assert!(matches!(p, Some(DebuggerMessage::BatchedMessages(ref v)) if v.len() == 2));
    assert_eq!(q.flush_count(), 1);
}

#[test]
fn single_event_goes_out_alone_and_in_flight_flush_waits() {
    let mut q = MessageQueue::new(0);
    let p = q.queue_message(exited("solo"), 500);
    assert!(matches!(p, Some(DebuggerMessage::FunctionExited { .. })));
    assert!(q.is_flush_in_progress());
    assert!(q.queue_message(exited("next"), 1000).is_none());
    assert_eq!(q.len(), 1);
    q.finish_flush();
    assert!(q.flush_message_queue(1001).is_some());
    assert!(q.close(1002).is_none());
    assert!(q.queue_message(exited("late"), 1003).is_none());
    assert_eq!(q.len(), 0);
}

#[test]
fn framing() {
    let seg = frame_payload(&b"{\"x\":1}".to_vec()).unwrap();
    assert_eq!(seg.len(), MMAP_SIZE);
    assert_eq!(&seg[..7], b"{\"x\":1}");
    assert_eq!(content_length(&seg), 7);
    let big = vec![b'a'; MMAP_SIZE];
    match frame_payload(&big) {
        Err(DbugError::CommunicationError(m)) => {
            assert_eq!(m, "Message too large for buffer: 8192 bytes")
        }
        _ => panic!("expected an error"),
    }
    assert_eq!(content_length(&[0u8; 4]), 0);
    assert_eq!(content_length(&[1u8, 2, 3]), 0);
}

#[test]
fn wait_times_out_without_response() {
    let seg = vec![0u8; MMAP_SIZE];
    let len = content_length(&seg);
    assert_eq!(poll_decision(10, len), PollAction::Sleep);
    let last = poll_decision(RESPONSE_TIMEOUT_MS, len);
    assert_eq!(last, PollAction::Timeout);
    assert!(matches!(wait_outcome(last, None), Err(DbugError::ResponseTimeout)));
    assert_eq!(poll_decision(20, 5), PollAction::Decode(5));
    assert!(matches!(
        wait_outcome(PollAction::Decode(5), Some(DebuggerResponse::StepOver)),
        Ok(Some(DebuggerResponse::StepOver))
    ));
}

#[test]
fn task_tree_lists_parents_first() {
    let mut reg = AsyncTaskRegistry::new();
    let root = reg.generate_async_task_id();
    let child = reg.generate_async_task_id();
    let grandchild = reg.generate_async_task_id();
    // registered out of order on purpose
    reg.register_async_task("leaf", grandchild, Some(child));
    reg.register_async_task("mid", child, Some(root));
    reg.register_async_task("top", root, None);
    let now = reg.get_async_task_info(root).unwrap().created_at;
    let created = [grandchild, child, root]
        .iter()
        .map(|id| reg.get_async_task_info(*id).unwrap().created_at)
        .max()
        .unwrap();
    let text = reg.render_task_tree(created.max(now));
    let lines: Vec<&str> = text.lines().collect();
    assert_eq!(lines[0], "Async Task Tree:");
    assert!(lines[1].starts_with("\u{2514}\u{2500} Task 1 (top): Created"));
    assert!(lines[2].starts_with("  \u{2514}\u{2500} Task 2 (mid): Created"));
    assert!(lines[3].starts_with("    \u{2514}\u{2500} Task 3 (leaf): Created"));
}

#[test]
fn task_tree_shows_elapsed_time() {
    let mut reg = AsyncTaskRegistry::new();
    let id = reg.generate_async_task_id();
    reg.register_async_task("work", id, None);
    let t = reg.get_async_task_info(id).unwrap().created_at;
    assert_eq!(reg.render_task_tree(t), "Async Task Tree:\n\u{2514}\u{2500} Task 1 (work): Created [0s]\n");
    assert_eq!(
        reg.render_task_tree(t + 1500),
        "Async Task Tree:\n\u{2514}\u{2500} Task 1 (work): Created [1s 500ms]\n"
    );
}

#[test]
fn task_states_and_current_task() {
    let mut reg = AsyncTaskRegistry::new();
    let id = reg.get_current_async_task_id();
    assert_eq!(id, 1);
    assert_eq!(reg.get_current_async_task_id(), 1);
    reg.clear_current_async_task_id();
    assert_eq!(reg.get_current_async_task_id(), 2);
    reg.set_current_async_task_id(7);
    assert_eq!(reg.get_current_async_task_id(), 7);
    reg.register_async_task("job", 7, None);
    match reg.update_async_task_state(7, AsyncTaskState::Running) {
        Some(DebuggerMessage::AsyncTaskStateChanged { task_id, old_state, new_state }) => {
            assert_eq!(task_id, 7);
            assert_eq!(old_state, "Created");
            assert_eq!(new_state, "Running");
        }
        _ => panic!("expected a state change"),
    }
    assert!(reg.complete_async_task(7).is_some());
    assert_eq!(reg.get_async_task_info(7).unwrap().state, AsyncTaskState::Completed);
    assert!(reg.complete_async_task(99).is_none());
    assert_eq!(reg.get_all_async_tasks().len(), 1);
}
