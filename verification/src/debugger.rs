//! The decisions of the blueprint debugger: how the debug adapter answers each
//! request, when the interpreter stops at an instruction, which stack frames a
//! trace lists, and which id each function's listing is known by.
//!
//! The adapter serves one client and one thread, `Main`, with id 1. Pausing is
//! requested by the adapter and carried out by the interpreter at its next
//! instruction; the interpreter then waits until the adapter lets it go.

use vstd::prelude::*;
use std::collections::HashMap;

verus! {

/// The id of the only thread the adapter reports.
pub const MAIN_THREAD_ID: i64 = 1;

/// A request of the debug adapter protocol, as far as the adapter's decisions read it.
#[derive(Clone, Copy, Debug, PartialEq, Eq, Structural)]
pub enum DebugRequest {
    Initialize,
    Attach,
    SetBreakpoints,
    SetFunctionBreakpoints,
    SetInstructionBreakpoints,
    SetDataBreakpoints,
    BreakpointLocations,
    ConfigurationDone,
    Threads,
    StackTrace { thread_id: i64 },
    Source,
    Scopes,
    Variables,
    Continue,
    StepIn,
    StepOut,
    StepBack,
    Pause { thread_id: i64 },
    Disconnect,
    /// Any other request.
    Other,
}

/// How the adapter answers a request.
#[derive(Clone, Copy, Debug, PartialEq, Eq, Structural)]
pub enum DebugReply {
    /// Respond with the adapter's capabilities, then send the `Initialized` event.
    Capabilities,
    /// Acknowledge an attach.
    Attached,
    /// Respond with an empty list of breakpoints of the requested kind.
    NoBreakpoints,
    /// Acknowledge the end of the configuration.
    ConfigurationDone,
    /// Respond with the one thread.
    Threads,
    /// Respond with the stack of the paused interpreter, or none.
    StackTrace,
    /// Respond with a function's listing.
    Source,
    /// Respond with the scopes of a frame.
    Scopes,
    /// Respond with the variables of a frame.
    Variables,
    /// Acknowledge that execution continues.
    Continued,
    /// Acknowledge a step.
    Stepped,
    /// Acknowledge a pause.
    Paused,
    /// Acknowledge the disconnect and stop serving.
    Disconnected,
    /// A request the adapter does not handle: the session ends with an error.
    Unhandled,
}

/// What the adapter and the interpreter share: whether a pause is requested for
/// the next instruction, and whether the interpreter is paused.
#[derive(Clone, Copy, Debug, PartialEq, Eq, Structural)]
pub struct DebuggerState {
    pub request_pause: bool,
    pub paused: bool,
}

/// The adapter knows one thread: a stack trace or a pause names it.
pub open spec fn names_known_thread(req: DebugRequest) -> bool {
    match req {
        DebugRequest::StackTrace { thread_id } => thread_id == MAIN_THREAD_ID,
        DebugRequest::Pause { thread_id } => thread_id == MAIN_THREAD_ID,
        _ => true,
    }
}

/// How the adapter answers each request.
pub open spec fn reply_to(req: DebugRequest) -> DebugReply {
    match req {
        DebugRequest::Initialize => DebugReply::Capabilities,
        DebugRequest::Attach => DebugReply::Attached,
        DebugRequest::SetBreakpoints | DebugRequest::SetFunctionBreakpoints
        | DebugRequest::SetInstructionBreakpoints | DebugRequest::SetDataBreakpoints
        | DebugRequest::BreakpointLocations => DebugReply::NoBreakpoints,
        DebugRequest::ConfigurationDone => DebugReply::ConfigurationDone,
        DebugRequest::Threads => DebugReply::Threads,
        DebugRequest::StackTrace { .. } => DebugReply::StackTrace,
        DebugRequest::Source => DebugReply::Source,
        DebugRequest::Scopes => DebugReply::Scopes,
        DebugRequest::Variables => DebugReply::Variables,
        DebugRequest::Continue => DebugReply::Continued,
        DebugRequest::StepIn | DebugRequest::StepOut | DebugRequest::StepBack => DebugReply::Stepped,
        DebugRequest::Pause { .. } => DebugReply::Paused,
        DebugRequest::Disconnect => DebugReply::Disconnected,
        DebugRequest::Other => DebugReply::Unhandled,
    }
}

/// The shared state after a request: `Initialize` asks for a pause; `Continue`
/// lets the interpreter go; a step or a pause lets it go and asks it to stop at
/// its next instruction; every other request leaves the state as it is.
pub open spec fn state_after(state: DebuggerState, req: DebugRequest) -> DebuggerState {
    match req {
        DebugRequest::Initialize => DebuggerState { request_pause: true, ..state },
        DebugRequest::Continue => DebuggerState { paused: false, ..state },
        DebugRequest::StepIn | DebugRequest::StepOut | DebugRequest::StepBack
        | DebugRequest::Pause { .. } => DebuggerState { request_pause: true, paused: false },
        _ => state,
    }
}

/// How the adapter answers `req`, and the shared state after it. A stack trace
/// or a pause of another thread than the one the adapter knows is left out:
/// the adapter stops there.
pub fn handle_request(state: DebuggerState, req: DebugRequest) -> (r: (DebugReply, DebuggerState))
    requires
        names_known_thread(req),
    ensures
        r.0 == reply_to(req),
        r.1 == state_after(state, req),
{
    let resume_and_pause = DebuggerState { request_pause: true, paused: false };
    match req {
        DebugRequest::Initialize => (
            DebugReply::Capabilities,
            DebuggerState { request_pause: true, paused: state.paused },
        ),
        DebugRequest::Attach => (DebugReply::Attached, state),
        DebugRequest::SetBreakpoints => (DebugReply::NoBreakpoints, state),
        DebugRequest::SetFunctionBreakpoints => (DebugReply::NoBreakpoints, state),
        DebugRequest::SetInstructionBreakpoints => (DebugReply::NoBreakpoints, state),
        DebugRequest::SetDataBreakpoints => (DebugReply::NoBreakpoints, state),
        DebugRequest::BreakpointLocations => (DebugReply::NoBreakpoints, state),
        DebugRequest::ConfigurationDone => (DebugReply::ConfigurationDone, state),
        DebugRequest::Threads => (DebugReply::Threads, state),
        DebugRequest::StackTrace { .. } => (DebugReply::StackTrace, state),
        DebugRequest::Source => (DebugReply::Source, state),
        DebugRequest::Scopes => (DebugReply::Scopes, state),
        DebugRequest::Variables => (DebugReply::Variables, state),
        DebugRequest::Continue => (
            DebugReply::Continued,
            DebuggerState { request_pause: state.request_pause, paused: false },
        ),
        DebugRequest::StepIn => (DebugReply::Stepped, resume_and_pause),
        DebugRequest::StepOut => (DebugReply::Stepped, resume_and_pause),
        DebugRequest::StepBack => (DebugReply::Stepped, resume_and_pause),
        DebugRequest::Pause { .. } => (DebugReply::Paused, resume_and_pause),
        DebugRequest::Disconnect => (DebugReply::Disconnected, state),
        DebugRequest::Other => (DebugReply::Unhandled, state),
    }
}

/// What the interpreter does before an instruction: it stops when a pause is
/// requested, taking the request, and runs on otherwise.
pub open spec fn spec_on_instruction(state: DebuggerState) -> (bool, DebuggerState) {
    if state.request_pause {
        (true, DebuggerState { request_pause: false, paused: true })
    } else {
        (false, state)
    }
}

/// Whether the interpreter stops before an instruction, and the state after.
pub fn on_instruction(state: DebuggerState) -> (r: (bool, DebuggerState))
    ensures
        r == spec_on_instruction(state),
{
    if state.request_pause {
        (true, DebuggerState { request_pause: false, paused: true })
    } else {
        (false, state)
    }
}

/// The offset of the instruction that the interpreter stopped at: the code
/// pointer, which has moved past the token, less the script's start, less
/// one; zero where that would go below zero.
pub fn instruction_index(code: usize, script_start: usize) -> (r: usize)
    ensures
        r == (if code as int - script_start as int - 1 >= 0 {
            code as int - script_start as int - 1
        } else {
            0
        }),
{
    code.saturating_sub(script_start).saturating_sub(1)
}

/// Whether the stack frame at depth `i` is listed, with `listed` frames listed
/// so far: from depth `start_frame` on (0 when not given), at most `levels`
/// frames (no limit when not given; a negative limit, taken as an unsigned
/// size, is no limit either).
pub open spec fn spec_frame_listed(i: i64, start_frame: Option<i64>, levels: Option<i64>, listed: usize) -> bool {
    let start = match start_frame {
        Some(s) => s,
        None => 0,
    };
    let limit = match levels {
        Some(l) => l,
        None => i64::MAX,
    };
    i >= start && (listed as int) < (limit as usize) as int
}

/// The first depth listed: `start_frame`, or 0 when it is not given or negative.
pub open spec fn first_listed(start_frame: Option<i64>) -> int {
    match start_frame {
        Some(s) => if s > 0 {
            s as int
        } else {
            0
        },
        None => 0,
    }
}

/// The most frames listed: `levels` taken as an unsigned size, or no limit.
pub open spec fn frame_limit(levels: Option<i64>) -> int {
    match levels {
        Some(l) => (l as usize) as int,
        None => (i64::MAX as usize) as int,
    }
}

/// The number of frames listed among the `k` outermost depths `0..k`, asking
/// [`spec_frame_listed`] of each depth in turn with the count so far.
pub open spec fn frames_listed(k: nat, start_frame: Option<i64>, levels: Option<i64>) -> nat
    decreases k,
{
    if k == 0 {
        0
    } else {
        let before = frames_listed((k - 1) as nat, start_frame, levels);
        if spec_frame_listed((k - 1) as i64, start_frame, levels, before as usize) {
            before + 1
        } else {
            before
        }
    }
}

/// A stack trace over `k` frames lists the frames from `start_frame` on, as
/// many as there are, but at most `levels`.
pub proof fn lemma_frames_listed(k: nat, start_frame: Option<i64>, levels: Option<i64>)
    requires
        k <= i64::MAX,
        k <= usize::MAX,
    ensures
        frames_listed(k, start_frame, levels) == vstd::math::min(
            frame_limit(levels),
            vstd::math::max(k - first_listed(start_frame), 0),
        ),
    decreases k,
{
    if k > 0 {
        lemma_frames_listed((k - 1) as nat, start_frame, levels);
        let before = frames_listed((k - 1) as nat, start_frame, levels);
        assert(before <= k - 1);
        assert((before as usize) as int == before);
    }
}

/// Whether the stack frame at depth `i` is listed; see [`spec_frame_listed`].
pub fn frame_listed(i: i64, start_frame: Option<i64>, levels: Option<i64>, listed: usize) -> (r: bool)
    ensures
        r == spec_frame_listed(i, start_frame, levels, listed),
{
    let start = match start_frame {
        Some(s) => s,
        None => 0,
    };
    let limit = match levels {
        Some(l) => l,
        None => i64::MAX,
    };
    i >= start && listed < limit as usize
}

/// After an `Initialize` request, the interpreter stops at its next instruction.
pub proof fn lemma_initialize_then_pause(state: DebuggerState)
    ensures
        spec_on_instruction(state_after(state, DebugRequest::Initialize)).0,
        spec_on_instruction(state_after(state, DebugRequest::Initialize)).1.paused,
{
}

/// A `Continue` request lets a paused interpreter go.
pub proof fn lemma_continue_resumes(state: DebuggerState)
    ensures
        !state_after(state, DebugRequest::Continue).paused,
{
}

/// A step lets a paused interpreter go and stops it again at its next instruction.
pub proof fn lemma_step_stops_at_next_instruction(state: DebuggerState, req: DebugRequest)
    requires
        req == DebugRequest::StepIn || req == DebugRequest::StepOut || req == DebugRequest::StepBack,
    ensures
        !state_after(state, req).paused,
        spec_on_instruction(state_after(state, req)) == (
            true,
            DebuggerState { request_pause: false, paused: true },
        ),
{
}

/// Requests that neither start, resume, step nor pause the interpreter leave
/// the shared state as it was, whatever it is.
pub proof fn lemma_other_requests_keep_state(state: DebuggerState, req: DebugRequest)
    requires
        !(req is Initialize || req is Continue || req is StepIn || req is StepOut || req is StepBack
            || req is Pause),
    ensures
        state_after(state, req) == state,
{
}

/// After `Initialize` and then any request that neither resumes, steps nor
/// pauses (such as `ConfigurationDone`), the interpreter still stops at its
/// next instruction.
pub proof fn lemma_initialize_pause_survives(state: DebuggerState, req: DebugRequest)
    requires
        !(req is Continue || req is StepIn || req is StepOut || req is StepBack || req is Pause),
    ensures
        state_after(state_after(state, DebugRequest::Initialize), req).request_pause,
        spec_on_instruction(state_after(state_after(state, DebugRequest::Initialize), req)).0,
{
}

/// The listing ids of functions: each function, named by its address, gets the
/// next id (from 1) the first time a listing of it is asked for, and keeps it.
#[derive(Debug)]
pub struct SourceRegistry {
    ids: HashMap<u64, i32>,
    next: i32,
}

impl SourceRegistry {
    /// The id of each function that has one.
    pub closed spec fn spec_ids(&self) -> Map<u64, i32> {
        self.ids@
    }

    /// The id that the next new function gets.
    pub closed spec fn spec_next(&self) -> i32 {
        self.next
    }

    /// The id of function `f`, when it has one.
    pub open spec fn spec_id_of(&self, f: u64) -> Option<int> {
        if self.spec_ids().contains_key(f) {
            Some(self.spec_ids()[f] as int)
        } else {
            None
        }
    }

    /// The ids given are 1 up to the next id, one per function.
    pub open spec fn wf(&self) -> bool {
        &&& 1 <= self.spec_next()
        &&& self.spec_ids().len() == self.spec_next() - 1
        &&& forall|f: u64| #[trigger]
            self.spec_ids().contains_key(f) ==> 1 <= self.spec_ids()[f] < self.spec_next()
        &&& forall|f: u64, g: u64|
            #![trigger self.spec_ids()[f], self.spec_ids()[g]]
            self.spec_ids().contains_key(f) && self.spec_ids().contains_key(g) && f != g
                ==> self.spec_ids()[f] != self.spec_ids()[g]
    }

    /// An empty registry.
    pub fn new() -> (r: Self)
        ensures
            r.wf(),
            r.spec_ids() == Map::<u64, i32>::empty(),
            r.spec_next() == 1,
    {
        broadcast use vstd::std_specs::hash::group_hash_axioms;

        SourceRegistry { ids: HashMap::new(), next: 1 }
    }

    /// The id of function `f`: the one it has, or the next one, which it keeps.
    pub fn id_of(&mut self, f: u64) -> (r: i32)
        requires
            old(self).wf(),
            old(self).spec_next() < i32::MAX,
        ensures
            final(self).wf(),
            old(self).spec_ids().contains_key(f) ==> final(self).spec_ids() == old(self).spec_ids()
                && final(self).spec_next() == old(self).spec_next(),
            !old(self).spec_ids().contains_key(f) ==> final(self).spec_ids() == old(
                self,
            ).spec_ids().insert(f, old(self).spec_next()) && final(self).spec_next() == old(
                self,
            ).spec_next() + 1,
            final(self).spec_id_of(f) == Some(r as int),
    {
        broadcast use vstd::std_specs::hash::group_hash_axioms;

        match self.ids.get(&f) {
            Some(id) => *id,
            None => {
                let id = self.next;
                let ghost before = self.ids@;
                self.ids.insert(f, id);
                self.next = id + 1;
                proof {
                    assert(self.ids@ == before.insert(f, id));
                    assert(!before.contains_key(f));
                    assert(before.dom().finite());
                    assert(self.ids@.dom() == before.dom().insert(f));
                    assert(self.ids@.len() == before.len() + 1);
                }
                id
            },
        }
    }

    /// The number of functions with an id.
    pub fn len(&self) -> (n: usize)
        requires
            self.wf(),
        ensures
            n == self.spec_ids().len(),
    {
        broadcast use vstd::std_specs::hash::group_hash_axioms;

        self.ids.len()
    }
}

/// Functions with listing ids have different ids.
pub proof fn lemma_ids_are_distinct(r: SourceRegistry, f: u64, g: u64)
    requires
        r.wf(),
        r.spec_id_of(f) is Some,
        r.spec_id_of(g) is Some,
        f != g,
    ensures
        r.spec_id_of(f) != r.spec_id_of(g),
{
    assert(r.spec_ids()[f] != r.spec_ids()[g]);
}

/// A function keeps its listing id while other functions get theirs: a
/// registry whose ids extend another's gives every function of the other the
/// same id.
pub proof fn lemma_id_kept(r: SourceRegistry, r2: SourceRegistry, f: u64)
    requires
        r.wf(),
        r2.wf(),
        r.spec_ids().submap_of(r2.spec_ids()),
        r.spec_id_of(f) is Some,
    ensures
        r2.spec_id_of(f) == r.spec_id_of(f),
{
}

} // verus!
