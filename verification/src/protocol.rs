//! The protected-call protocol: how a call frames its results on the stack,
//! how the error handler coerces raw VM errors into tagged run errors, how
//! the closure trampoline contains host-side faults, and how the status of
//! a protected call is decoded back into a host result.
//!
//! A call follows a strict stack discipline: the caller pushes the callable,
//! then the arguments in direct order, then invokes the call. On return the
//! callable and arguments are gone and the results occupy the stack where
//! the callable used to be, adjusted to the requested count. On failure the
//! stack is restored to its pre-call height. Internally every call is
//! protected: the error handler is inserted below the callable before the
//! call and removed afterwards regardless of outcome, so every error
//! surfaced to the host carries a backtrace exactly once, even across
//! nested calls.

use vstd::prelude::*;

verus! {

use crate::codes::LUAI_MAXSTACK;
use crate::vm::{UserdataPayload, UserdataRecord, Value, Vm};
use crate::{LuaCallResults, LuaIndex, RunError};

/// The reference the model gives the error handler installed at
/// construction time, located through the internal registry by every call.
pub const ERR_HANDLER_REF: u64 = 0;

/// What the callee of a protected call did, as the VM observes it: it
/// returned values, the trampoline raised a tagged error or fault on behalf
/// of a host function, or VM-level code raised a raw error (a string
/// message, or some other value with no message to read).
#[derive(Debug)]
pub enum CalleeOutcome {
    Return(Vec<Value>),
    RaiseError(RunError),
    RaiseFault(u64),
    RaiseRaw(Option<String>),
}

/// How a protected call completed on the host side. A fault is a host-side
/// non-local exit that crossed the VM boundary as data; the caller is
/// expected to re-raise it, not to treat it as an ordinary error value.
#[derive(Debug)]
pub enum CallCompletion {
    Returned,
    Failed(RunError),
    Fault(u64),
}

/// What the trampoline's containment boundary observed of one host
/// function invocation: the function completed with a result, or a fault
/// unwound out of it and was caught at the boundary.
#[derive(Debug)]
pub enum HostOutcome {
    Completed(crate::RunResult<u32>),
    Panicked(u64),
}

/// What the trampoline does next: hand the count of result values back to
/// the VM, or raise a value through the VM's error channel. A fault is
/// never allowed to propagate past the trampoline, since unwinding through
/// the VM would corrupt its control state.
#[derive(Debug)]
pub enum TrampolineAction {
    Return(u32),
    RaiseError(RunError),
    RaiseFault(u64),
}

/// The decision the native-callback trampoline makes once the host function
/// has been invoked inside the containment boundary: a normal result is
/// passed straight through as the count of values already pushed by the
/// callee; an explicit failure is raised as a tagged run error; a caught
/// fault is raised as a tagged fault, to be re-triggered on the host side
/// once it is safely back across the VM boundary.
pub fn trampoline_action(outcome: HostOutcome) -> (r: TrampolineAction)
    ensures
        outcome matches HostOutcome::Completed(Ok(n)) ==> r == TrampolineAction::Return(n),
        outcome matches HostOutcome::Completed(Err(e)) ==> r == TrampolineAction::RaiseError(e),
        outcome matches HostOutcome::Panicked(p) ==> r == TrampolineAction::RaiseFault(p),
{
    match outcome {
        HostOutcome::Completed(Ok(n)) => TrampolineAction::Return(n),
        HostOutcome::Completed(Err(e)) => TrampolineAction::RaiseError(e),
        HostOutcome::Panicked(p) => TrampolineAction::RaiseFault(p),
    }
}

/// The decision the installed error handler makes on the in-flight error
/// value of a failing call: a value that is already a tagged error or fault
/// passes through unchanged (`None`), while a raw VM error is coerced into
/// a run error carrying the message read from the value (or a fixed text
/// when none can be read) and the backtrace captured at the moment of
/// failure.
pub fn error_handler_action(
    already_tagged: bool,
    message: Option<String>,
    frames: Vec<String>,
) -> (r: Option<RunError>)
    ensures
        already_tagged ==> r is None,
        !already_tagged ==> (r matches Some(e) && (message matches Some(s) ==> e.message == s) && (
        message is None ==> e.message@ == "unknown error"@) && e.backtrace == frames),
{
    if already_tagged {
        None
    } else {
        let msg = match message {
            Some(s) => s,
            None => String::from_str("unknown error"),
        };
        Some(RunError::new(msg, frames))
    }
}

/// The results a call leaves on the stack, adjusted to the requested
/// count: all of them for an unbounded request, and exactly `k` for a
/// bounded one — extra values are discarded from the top, missing ones are
/// filled with `nil`.
pub open spec fn adjusted_results(vals: Seq<Value>, results: LuaCallResults) -> Seq<Value> {
    match results {
        LuaCallResults::Num(k) => if vals.len() >= k {
            vals.take(k as int)
        } else {
            vals + Seq::new((k - vals.len()) as nat, |i: int| Value::Nil)
        },
        LuaCallResults::MultRet => vals,
    }
}

impl Vm {
    /// Calls a callable value. The callable must have been pushed first,
    /// then its `nargs` arguments in direct order. The call locates the
    /// error handler, inserts it below the callable, runs the callee under
    /// protection, removes the handler again whatever happened, and decodes
    /// the outcome: on success the callable and arguments are replaced by
    /// the results, adjusted to the requested count; on any failure the
    /// stack is restored to its pre-call height and the error value —
    /// transported as a userdata record through the VM's error channel — is
    /// moved back out and handed to the caller.
    pub fn call(
        &mut self,
        nargs: u32,
        results: LuaCallResults,
        outcome: CalleeOutcome,
        frames: Vec<String>,
    ) -> (r: CallCompletion)
        requires
            old(self).wf(),
            nargs + 1 <= old(self).stack_view().len(),
            old(self).stack_view().len() < LUAI_MAXSTACK as nat,
            outcome matches CalleeOutcome::Return(vals) ==> old(self).stack_view().len() - nargs
                + vals@.len() <= LUAI_MAXSTACK as nat && (forall|i: int|
                0 <= i < vals@.len() ==> old(self).value_wf(#[trigger] vals@[i])),
            outcome is Return ==> (results matches LuaCallResults::Num(k)
                ==> old(self).stack_view().len() - nargs + k <= LUAI_MAXSTACK as nat),
        ensures
            final(self).wf(),
            final(self).strings_view() == old(self).strings_view(),
            final(self).metatables_view() == old(self).metatables_view(),
            outcome matches CalleeOutcome::Return(vals) ==> final(self).stack_view() == old(
                self,
            ).stack_view().take(old(self).stack_view().len() - nargs - 1) + adjusted_results(
                vals@,
                results,
            ) && (r is Returned) && final(self).userdata_view() == old(self).userdata_view(),
            !(outcome is Return) ==> final(self).stack_view() == old(self).stack_view().take(
                old(self).stack_view().len() - nargs - 1,
            ) && final(self).userdata_view() == old(self).userdata_view().push(
                UserdataRecord { finalizable: false, payload: UserdataPayload::Moved },
            ),
            outcome matches CalleeOutcome::RaiseError(e) ==> r == CallCompletion::Failed(e),
            outcome matches CalleeOutcome::RaiseFault(p) ==> r == CallCompletion::Fault(p),
            outcome matches CalleeOutcome::RaiseRaw(m) ==> (r matches CallCompletion::Failed(e) && (
            m matches Some(s) ==> e.message == s) && (m is None ==> e.message@
                == "unknown error"@) && e.backtrace == frames),
    {
        let ghost pre = old(self).stack_view();
        let ghost base = pre.len() - nargs - 1;
        // Locate the error handler and insert it below the callable, at the
        // absolute position a later removal can rely on.
        self.push_raw(Value::Native(ERR_HANDLER_REF));
        let errfunc_idx = self.abs_index(LuaIndex::Stack(-(nargs as i32) - 2)).to_stack();
        proof {
            assert(errfunc_idx == base + 1);
        }
        self.insert(errfunc_idx);
        proof {
            assert(self.stack_view() =~= pre.take(base as int) + seq![
                Value::Native(ERR_HANDLER_REF),
            ] + pre.subrange(base as int, pre.len() as int));
        }
        // The protected call itself: the callable and arguments are
        // consumed, and what happens next depends on the callee.
        match outcome {
            CalleeOutcome::Return(vals) => {
                self.pop(nargs as i32 + 1);
                proof {
                    assert(self.stack_view() =~= pre.take(base as int) + seq![
                        Value::Native(ERR_HANDLER_REF),
                    ]);
                }
                let n = vals.len();
                let mut i: usize = 0;
                while i < n
                    invariant
                        self.wf(),
                        i <= n,
                        n == vals@.len(),
                        base + 1 + n <= LUAI_MAXSTACK as nat,
                        base == pre.len() - nargs - 1,
                        self.stack_view().len() == base + 1 + i,
                        forall|j: int| 0 <= j < n ==> old(self).value_wf(#[trigger] vals@[j]),
                        self.stack_view() =~= pre.take(base as int) + seq![
                            Value::Native(ERR_HANDLER_REF),
                        ] + vals@.take(i as int),
                        self.strings_view() == old(self).strings_view(),
                        self.userdata_view() == old(self).userdata_view(),
                        self.metatables_view() == old(self).metatables_view(),
                    decreases n - i,
                {
                    proof {
                        assert(old(self).value_wf(vals@[i as int]));
                        assert(self.value_wf(vals@[i as int]));
                    }
                    self.push_raw(vals[i]);
                    proof {
                        assert(vals@.take(i + 1) =~= vals@.take(i as int).push(vals@[i as int]));
                        assert(self.stack_view() =~= pre.take(base as int) + seq![
                            Value::Native(ERR_HANDLER_REF),
                        ] + vals@.take(i + 1));
                    }
                    i += 1;
                }
                proof {
                    assert(vals@.take(n as int) =~= vals@);
                }
                // The call itself adjusts the results to the requested count.
                if let LuaCallResults::Num(k) = results {
                    self.set_top(errfunc_idx + k as i32);
                    proof {
                        assert(self.stack_view() =~= pre.take(base as int) + seq![
                            Value::Native(ERR_HANDLER_REF),
                        ] + adjusted_results(vals@, results));
                    }
                }
                // Remove the handler regardless of outcome.
                self.remove(errfunc_idx);
                proof {
                    assert(self.stack_view() =~= pre.take(base as int) + adjusted_results(
                        vals@,
                        results,
                    ));
                }
                CallCompletion::Returned
            },
            CalleeOutcome::RaiseError(e) => {
                self.pop(nargs as i32 + 1);
                self.push_error_userdata(e);
                // The error handler passes a tagged error through unchanged,
                // and the error value is moved back out of the VM.
                let err = self.take_error_userdata(LuaIndex::Stack(-1));
                proof {
                    assert(self.userdata_view() =~= old(self).userdata_view().push(
                        UserdataRecord { finalizable: false, payload: UserdataPayload::Moved },
                    ));
                }
                self.pop(1);
                self.remove(errfunc_idx);
                proof {
                    assert(self.stack_view() =~= pre.take(base as int));
                }
                CallCompletion::Failed(err)
            },
            CalleeOutcome::RaiseFault(p) => {
                self.pop(nargs as i32 + 1);
                self.push_fault_userdata(p);
                // A tagged fault passes through the handler unchanged too.
                let payload = self.take_fault_userdata(LuaIndex::Stack(-1));
                proof {
                    assert(self.userdata_view() =~= old(self).userdata_view().push(
                        UserdataRecord { finalizable: false, payload: UserdataPayload::Moved },
                    ));
                }
                self.pop(1);
                self.remove(errfunc_idx);
                proof {
                    assert(self.stack_view() =~= pre.take(base as int));
                }
                CallCompletion::Fault(payload)
            },
            CalleeOutcome::RaiseRaw(m) => {
                self.pop(nargs as i32 + 1);
                // The handler coerces a raw VM error into a tagged run
                // error carrying a freshly captured backtrace.
                let err = match error_handler_action(false, m, frames) {
                    Some(e) => e,
                    None => unreached(),
                };
                self.push_error_userdata(err);
                let err = self.take_error_userdata(LuaIndex::Stack(-1));
                proof {
                    assert(self.userdata_view() =~= old(self).userdata_view().push(
                        UserdataRecord { finalizable: false, payload: UserdataPayload::Moved },
                    ));
                }
                self.pop(1);
                self.remove(errfunc_idx);
                proof {
                    assert(self.stack_view() =~= pre.take(base as int));
                }
                CallCompletion::Failed(err)
            },
        }
    }
}

/// Call result framing: a call with `nargs` arguments whose callee returned
/// exactly the `k` values that were requested leaves precisely those `k`
/// values on the stack above the pre-call height (the height below the
/// callable), in the order the callee pushed them.
pub proof fn lemma_call_result_framing(
    pre: Seq<Value>,
    post: Seq<Value>,
    nargs: int,
    vals: Seq<Value>,
    k: u32,
)
    requires
        vals.len() == k,
        0 <= nargs,
        nargs + 1 <= pre.len(),
        post == pre.take(pre.len() - nargs - 1) + adjusted_results(vals, LuaCallResults::Num(k)),
    ensures
        post.len() == pre.len() - nargs - 1 + k,
        forall|i: int|
            0 <= i < k ==> post[pre.len() - nargs - 1 + i] == vals[i],
        forall|i: int|
            0 <= i < pre.len() - nargs - 1 ==> post[i] == pre[i],
{
    assert(adjusted_results(vals, LuaCallResults::Num(k)) =~= vals);
}

/// Error round trip: an explicit failure returned by a native callback is
/// raised by the trampoline as a tagged run error, transported through the
/// protected call unchanged, and surfaced to the caller as a failure whose
/// message is exactly the failure's message.
pub proof fn lemma_error_round_trip(
    e: RunError,
    a: TrampolineAction,
    o: CalleeOutcome,
    r: CallCompletion,
)
    requires
        a == TrampolineAction::RaiseError(e),
        a matches TrampolineAction::RaiseError(e2) ==> o == CalleeOutcome::RaiseError(e2),
        o matches CalleeOutcome::RaiseError(e3) ==> r == CallCompletion::Failed(e3),
    ensures
        r == CallCompletion::Failed(e),
        r matches CallCompletion::Failed(e4) && e4.message == e.message,
{
}

/// Fault containment: a host fault caught at the trampoline does not
/// corrupt the instance. The enclosing protected call surfaces the fault
/// itself — never an ordinary error value — with the stack restored to its
/// pre-call height, the retained string objects undisturbed (every handle
/// valid before stays valid and keeps its content), and the instance well
/// formed, so a subsequent unrelated call on the same instance meets its
/// contract as if the fault had never happened.
pub proof fn lemma_fault_containment(
    pre: Vm,
    vm: Vm,
    nargs: int,
    p: u64,
    r: CallCompletion,
)
    requires
        0 <= nargs,
        nargs + 1 <= pre.stack_view().len(),
        vm.wf(),
        vm.stack_view() == pre.stack_view().take(pre.stack_view().len() - nargs - 1),
        vm.strings_view() == pre.strings_view(),
        vm.metatables_view() == pre.metatables_view(),
        r == CallCompletion::Fault(p),
    ensures
        r is Fault,
        !(r is Failed),
        vm.wf(),
        vm.stack_view().len() == pre.stack_view().len() - nargs - 1,
        forall|h: crate::LuaString| #[trigger]
            pre.valid_handle(h) ==> vm.valid_handle(h) && vm.strings_view()[h.id()]
                == pre.strings_view()[h.id()],
{
}

} // verus!
