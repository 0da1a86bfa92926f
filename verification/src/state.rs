//! The plugin lifecycle state machine: which states exist, and which native
//! calls a graceful teardown must issue from each state.

use vstd::prelude::*;

verus! {

/// Where a hosted plugin stands in its lifecycle. A record is created in
/// `Loaded` and moves only along the legal edges:
/// `Loaded -> Initialized -> Activated <-> Processing`, with `Activated ->
/// Initialized` via deactivate. Unloading removes the record altogether, so
/// the terminal state needs no variant here.
#[derive(Clone, Copy, Debug, PartialEq, Eq, Structural)]
pub enum LifecycleState {
    Loaded,
    Initialized,
    Activated,
    Processing,
}

/// One call into the native plugin instance that a teardown can demand of the
/// embedding layer.
#[derive(Clone, Copy, Debug, PartialEq, Eq, Structural)]
pub enum NativeCall {
    StopProcessing,
    Deactivate,
    Destroy,
}

/// Position of a teardown call in the one legal teardown order: processing is
/// stopped before the instance is deactivated, and the instance is destroyed
/// last of all.
pub open spec fn teardown_rank(c: NativeCall) -> int {
    match c {
        NativeCall::StopProcessing => 0,
        NativeCall::Deactivate => 1,
        NativeCall::Destroy => 2,
    }
}

/// The exact sequence of native calls a teardown from state `s` must issue:
/// a record still processing is stopped, a record still activated is
/// deactivated, and every record is destroyed exactly once, in that order.
pub open spec fn teardown_calls(s: LifecycleState) -> Seq<NativeCall> {
    match s {
        LifecycleState::Loaded => seq![NativeCall::Destroy],
        LifecycleState::Initialized => seq![NativeCall::Destroy],
        LifecycleState::Activated => seq![NativeCall::Deactivate, NativeCall::Destroy],
        LifecycleState::Processing => seq![
            NativeCall::StopProcessing,
            NativeCall::Deactivate,
            NativeCall::Destroy,
        ],
    }
}

/// Teardown never skips a step and never reorders one: from every state the
/// planned calls are strictly ordered (stop, then deactivate, then destroy),
/// they end with exactly one destroy, stop is demanded exactly of a record
/// still processing, and deactivate exactly of a record still activated or
/// processing.
pub proof fn lemma_teardown_order(s: LifecycleState)
    ensures
        teardown_calls(s).len() >= 1,
        teardown_calls(s).last() == NativeCall::Destroy,
        forall|i: int, j: int|
            0 <= i < j < teardown_calls(s).len() ==> teardown_rank(teardown_calls(s)[i])
                < teardown_rank(teardown_calls(s)[j]),
        teardown_calls(s).contains(NativeCall::StopProcessing) <==> s
            == LifecycleState::Processing,
        teardown_calls(s).contains(NativeCall::Deactivate) <==> (s == LifecycleState::Activated
            || s == LifecycleState::Processing),
{
    let calls = teardown_calls(s);
    match s {
        LifecycleState::Loaded => {
            assert(calls[0] == NativeCall::Destroy);
        },
        LifecycleState::Initialized => {
            assert(calls[0] == NativeCall::Destroy);
        },
        LifecycleState::Activated => {
            assert(calls[1] == NativeCall::Destroy);
            assert(calls.contains(NativeCall::Deactivate)) by {
                assert(calls[0] == NativeCall::Deactivate);
            }
        },
        LifecycleState::Processing => {
            assert(calls[2] == NativeCall::Destroy);
            assert(calls.contains(NativeCall::StopProcessing)) by {
                assert(calls[0] == NativeCall::StopProcessing);
            }
            assert(calls.contains(NativeCall::Deactivate)) by {
                assert(calls[1] == NativeCall::Deactivate);
            }
        },
    }
}

} // verus!
