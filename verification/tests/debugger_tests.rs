use mint::debugger::{
    frame_listed, handle_request, instruction_index, on_instruction, DebugReply, DebugRequest,
    DebuggerState, SourceRegistry, MAIN_THREAD_ID,
};

const IDLE: DebuggerState = DebuggerState { request_pause: false, paused: false };
const PAUSED: DebuggerState = DebuggerState { request_pause: false, paused: true };

#[test]
fn initialize_requests_a_pause() {
    let (reply, state) = handle_request(IDLE, DebugRequest::Initialize);
    assert_eq!(reply, DebugReply::Capabilities);
    assert_eq!(state, DebuggerState { request_pause: true, paused: false });
    let (stop, state) = on_instruction(state);
    assert!(stop);
    assert_eq!(state, PAUSED);
    let (stop, state) = on_instruction(IDLE);
    assert!(!stop);
    assert_eq!(state, IDLE);
}

#[test]
fn continue_and_steps_release_the_interpreter() {
    let (reply, state) = handle_request(PAUSED, DebugRequest::Continue);
    assert_eq!((reply, state), (DebugReply::Continued, IDLE));
    for step in [DebugRequest::StepIn, DebugRequest::StepOut, DebugRequest::StepBack] {
        let (reply, state) = handle_request(PAUSED, step);
        assert_eq!(reply, DebugReply::Stepped);
        assert_eq!(state, DebuggerState { request_pause: true, paused: false });
        assert_eq!(on_instruction(state), (true, PAUSED));
    }
}

#[test]
fn requests_that_leave_the_state() {
    for (req, reply) in [
        (DebugRequest::Attach, DebugReply::Attached),
        (DebugRequest::SetBreakpoints, DebugReply::NoBreakpoints),
        (DebugRequest::SetFunctionBreakpoints, DebugReply::NoBreakpoints),
        (DebugRequest::SetInstructionBreakpoints, DebugReply::NoBreakpoints),
        (DebugRequest::SetDataBreakpoints, DebugReply::NoBreakpoints),
        (DebugRequest::BreakpointLocations, DebugReply::NoBreakpoints),
        (DebugRequest::ConfigurationDone, DebugReply::ConfigurationDone),
        (DebugRequest::Threads, DebugReply::Threads),
        (DebugRequest::StackTrace { thread_id: MAIN_THREAD_ID }, DebugReply::StackTrace),
        (DebugRequest::Source, DebugReply::Source),
        (DebugRequest::Scopes, DebugReply::Scopes),
        (DebugRequest::Variables, DebugReply::Variables),
        (DebugRequest::Disconnect, DebugReply::Disconnected),
        (DebugRequest::Other, DebugReply::Unhandled),
    ] {
        assert_eq!(handle_request(PAUSED, req), (reply, PAUSED));
    }
}

#[test]
fn the_main_thread_is_paused_and_traced() {
    assert_eq!(
        handle_request(PAUSED, DebugRequest::StackTrace { thread_id: MAIN_THREAD_ID }),
        (DebugReply::StackTrace, PAUSED)
    );
    assert_eq!(
        handle_request(IDLE, DebugRequest::Pause { thread_id: MAIN_THREAD_ID }),
        (DebugReply::Paused, DebuggerState { request_pause: true, paused: false })
    );
}

#[test]
fn instruction_offsets() {
    assert_eq!(instruction_index(0x1005, 0x1000), 4);
    assert_eq!(instruction_index(0x1000, 0x1000), 0);
    assert_eq!(instruction_index(0x0fff, 0x1000), 0);
}

#[test]
fn stack_frame_window() {
    assert!(frame_listed(0, None, None, 0));
    assert!(!frame_listed(1, Some(2), None, 0));
    assert!(frame_listed(2, Some(2), Some(1), 0));
    assert!(!frame_listed(3, Some(2), Some(1), 1));
    // a negative limit is no limit
    assert!(frame_listed(5, None, Some(-1), 100));
}

#[test]
fn listing_ids() {
    let mut r = SourceRegistry::new();
    assert_eq!(r.id_of(0xAAA0), 1);
    assert_eq!(r.id_of(0xBBB0), 2);
    assert_eq!(r.id_of(0xAAA0), 1);
    assert_eq!(r.len(), 2);
    assert_eq!(r.id_of(0xCCC0), 3);
}

#[test]
fn stack_traces_list_frames_from_the_start_up_to_the_limit() {
    // the same filter the adapter applies, frame by frame, as the law counts it
    let count = |k: i64, start: Option<i64>, levels: Option<i64>| {
        let mut listed = 0usize;
        for i in 0..k {
            if frame_listed(i, start, levels, listed) {
                listed += 1;
            }
        }
        listed
    };
    assert_eq!(count(5, None, None), 5);
    assert_eq!(count(5, Some(2), None), 3);
    assert_eq!(count(5, Some(1), Some(2)), 2);
    assert_eq!(count(5, Some(-3), Some(10)), 5);
    assert_eq!(count(5, Some(7), None), 0);
    assert_eq!(count(5, None, Some(-1)), 5);
}
