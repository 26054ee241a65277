//! What holds of signals and the boundaries that consume them, whatever the
//! chunk.

use vstd::prelude::*;
use crate::address::AddressView;
use crate::chunk::{Chunk, Opcode, method_of};
use crate::errors::{ErrorView, arity_view, flow_leak_view};
use crate::flow::ControlFlowView;
use crate::frames::Frame;
use crate::frames::HeapView;
use crate::machine::{Boundary, Cursor, Outcome, State, bind, innermost_call, innermost_loop};
use crate::values::ValueView;

verus! {

/// No loop is open.
pub open spec fn no_loop(control: Seq<Boundary>) -> bool {
    forall|i: int| 0 <= i < control.len() ==> !(#[trigger] control[i] is Loop)
}

/// No call is open.
pub open spec fn no_call(control: Seq<Boundary>) -> bool {
    forall|i: int| 0 <= i < control.len() ==> !(#[trigger] control[i]).is_call()
}

/// The innermost open loop is the last boundary that is a loop, and there
/// is one exactly where some boundary is a loop.
pub proof fn lemma_innermost_loop(control: Seq<Boundary>)
    ensures
        innermost_loop(control) is None <==> no_loop(control),
        innermost_loop(control) matches Some(i) ==> 0 <= i < control.len() && control[i] is Loop
            && no_loop(control.skip(i + 1)),
    decreases control.len(),
{
    if control.len() > 0 {
        let rest = control.drop_last();
        lemma_innermost_loop(rest);
        if control.last() is Loop {
            assert(control.skip(control.len() as int) =~= Seq::<Boundary>::empty());
        } else {
            assert forall|i: int| 0 <= i < rest.len() implies rest[i] == control[i] by {}
            if let Some(i) = innermost_loop(rest) {
                let tail = control.skip(i + 1);
                assert forall|k: int| 0 <= k < tail.len() implies !(#[trigger] tail[k] is Loop) by {
                    if k < tail.len() - 1 {
                        assert(tail[k] == rest.skip(i + 1)[k]);
                    }
                }
            } else {
                assert forall|k: int| 0 <= k < control.len() implies !(#[trigger] control[k]
                    is Loop) by {
                    if k < rest.len() {
                        assert(rest[k] == control[k]);
                    }
                }
            }
        }
    }
}

/// The innermost open call is the last boundary that is a call, and there
/// is one exactly where some boundary is a call.
pub proof fn lemma_innermost_call(control: Seq<Boundary>)
    ensures
        innermost_call(control) is None <==> no_call(control),
        innermost_call(control) matches Some(i) ==> 0 <= i < control.len()
            && control[i].is_call() && no_call(control.skip(i + 1)),
    decreases control.len(),
{
    if control.len() > 0 {
        let rest = control.drop_last();
        lemma_innermost_call(rest);
        if control.last().is_call() {
            assert(control.skip(control.len() as int) =~= Seq::<Boundary>::empty());
        } else {
            assert forall|i: int| 0 <= i < rest.len() implies rest[i] == control[i] by {}
            if let Some(i) = innermost_call(rest) {
                let tail = control.skip(i + 1);
                assert forall|k: int| 0 <= k < tail.len() implies !(#[trigger] tail[k]).is_call(
                ) by {
                    if k < tail.len() - 1 {
                        assert(tail[k] == rest.skip(i + 1)[k]);
                    }
                }
            } else {
                assert forall|k: int| 0 <= k < control.len() implies !(
                #[trigger] control[k]).is_call() by {
                    if k < rest.len() {
                        assert(rest[k] == control[k]);
                    }
                }
            }
        }
    }
}

/// Binding parameters keeps every frame of the heap.
pub proof fn lemma_bind_keeps_frames(
    heap: HeapView,
    n: Frame,
    params: Seq<String>,
    args: Seq<ValueView>,
    i: int,
    f: Frame,
)
    requires
        heap.contains(f),
    ensures
        bind(heap, n, params, args, i).0.contains(f),
    decreases i,
{
    if i > 0 {
        lemma_bind_keeps_frames(heap, n, params, args, i - 1, f);
    }
}

impl State {
    /// A frame lives as long as the heap: no step removes a frame, so what a
    /// function, an instance or an open boundary holds on to stays there.
    pub proof fn lemma_step_keeps_frames(self, chunk: &Chunk, f: Frame)
        requires
            self.at.ip < chunk.code.len(),
            self.heap.contains(f),
        ensures
            self.step(chunk).state.heap.contains(f),
    {
        reveal(State::step);
        match chunk.code[self.at.ip as int] {
            Opcode::Call { argc, .. } => {
                if self.stack.len() >= argc + 1 {
                    if let ValueView::Callable { proto, closure } = self.peek(argc as int) {
                        self.drop(argc + 1).lemma_call_keeps_frames(
                            chunk,
                            proto as usize,
                            self.stack.skip(self.stack.len() - argc),
                            f,
                        );
                    }
                }
            },
            Opcode::Invoke { argc, name, .. } => {
                if self.stack.len() >= argc + 1 {
                    if let ValueView::Instance { def, .. } = self.peek(argc as int) {
                        if def < chunk.types.len() {
                            if let Some(proto) = method_of(
                                chunk.types[def].methods@,
                                name@,
                            ) {
                                self.drop(argc + 1).lemma_call_keeps_frames(
                                    chunk,
                                    proto,
                                    self.stack.skip(self.stack.len() - argc),
                                    f,
                                );
                            }
                        }
                    }
                }
            },
            Opcode::New { argc, .. } => {
                if self.stack.len() >= argc + 1 {
                    if let ValueView::Type { def, .. } = self.peek(argc as int) {
                        if def < chunk.types.len() {
                            if let Some(proto) = method_of(
                                chunk.types[def].methods@,
                                "init"@,
                            ) {
                                self.drop(argc + 1).on(
                                    self.heap.with_fresh(self.heap.fresh()),
                                ).lemma_call_keeps_frames(
                                    chunk,
                                    proto,
                                    self.stack.skip(self.stack.len() - argc),
                                    f,
                                );
                            }
                        }
                    }
                }
            },
            _ => {},
        }
    }

    /// The start of a call keeps every frame of the heap.
    pub proof fn lemma_call_keeps_frames(
        self,
        chunk: &Chunk,
        proto: usize,
        args: Seq<ValueView>,
        f: Frame,
    )
        requires
            self.heap.contains(f),
        ensures
            forall|addr: AddressView, closure: Frame, root: Option<Frame>, boundary: Boundary|
                (#[trigger] self.call(
                    chunk,
                    addr,
                    proto,
                    closure,
                    root,
                    args,
                    boundary,
                )).state.heap.contains(f),
    {
        if proto < chunk.functions.len() {
            let params = chunk.functions[proto as int].params@;
            let n = self.heap.fresh();
            lemma_bind_keeps_frames(
                self.heap.with_fresh(n),
                n,
                params,
                args,
                params.len() as int,
                f,
            );
        }
    }

    /// No run removes a frame.
    pub proof fn lemma_run_keeps_frames(self, chunk: &Chunk, budget: nat, f: Frame)
        requires
            self.heap.contains(f),
        ensures
            self.run(chunk, budget).state.heap.contains(f),
        decreases budget,
    {
        if self.at.ip < chunk.code.len() && budget > 0 {
            self.lemma_step_keeps_frames(chunk, f);
            let after = self.step(chunk);
            if after.fault is None {
                after.state.lemma_run_keeps_frames(chunk, (budget - 1) as nat, f);
            }
        }
    }

    /// A fault is nobody's to consume: it stops the run as it is, and the
    /// state stays as the fault found it.
    pub proof fn lemma_fault_passes(self, addr: AddressView, e: ErrorView)
        ensures
            self.deliver(addr, ControlFlowView::Error(e)) == (Outcome {
                state: self,
                fault: Some(e),
            }),
    {
    }

    /// A `Break` or `Continue` outside every loop leaks: the step ends in a
    /// "flow leak" fault, never in success.
    pub proof fn lemma_loop_exit_leaks(self, addr: AddressView)
        requires
            no_loop(self.control),
        ensures
            self.deliver(addr, ControlFlowView::Break).fault == Some(flow_leak_view(addr)),
            self.deliver(addr, ControlFlowView::Continue).fault == Some(flow_leak_view(addr)),
    {
        lemma_innermost_loop(self.control);
    }

    /// A `Return` outside every call leaks.
    pub proof fn lemma_return_leaks(self, addr: AddressView, v: ValueView)
        requires
            no_call(self.control),
        ensures
            self.deliver(addr, ControlFlowView::Return(v)).fault == Some(flow_leak_view(addr)),
    {
        lemma_innermost_call(self.control);
    }

    /// The call boundary consumes a `Return` and turns it into the value it
    /// carries: where the innermost boundary is a call, the caller goes on
    /// after the call with that value on top of its stack.
    pub proof fn lemma_call_consumes_return(self, addr: AddressView, v: ValueView)
        requires
            self.control.len() > 0,
            self.control.last() matches Boundary::Call { depth, .. } && depth <= self.stack.len(),
        ensures
            self.control.last() matches Boundary::Call { frame, depth, resume } && self.deliver(
                addr,
                ControlFlowView::Return(v),
            ) == (Outcome {
                state: State {
                    stack: self.stack.take(depth as int).push(v),
                    control: self.control.drop_last(),
                    heap: self.heap,
                    at: Cursor { ip: resume, frame },
                },
                fault: None,
            }),
    {
        assert(self.control.take(self.control.len() - 1) =~= self.control.drop_last());
    }

    /// The loop boundary consumes a `Break`: where the innermost boundary is
    /// a loop, execution goes on behind the loop, with the loop closed.
    pub proof fn lemma_loop_consumes_break(self, addr: AddressView)
        requires
            self.control.len() > 0,
            self.control.last() matches Boundary::Loop { depth, .. } && depth <= self.stack.len(),
        ensures
            self.control.last() matches Boundary::Loop { frame, depth, start, exit }
                && self.deliver(addr, ControlFlowView::Break) == (Outcome {
                state: State {
                    stack: self.stack.take(depth as int),
                    control: self.control.drop_last(),
                    heap: self.heap,
                    at: Cursor { ip: exit, frame },
                },
                fault: None,
            }),
    {
        assert(self.control.take(self.control.len() - 1) =~= self.control.drop_last());
    }

    /// The loop boundary consumes a `Continue` and stays open: execution
    /// goes on at the start of the loop's body.
    pub proof fn lemma_loop_consumes_continue(self, addr: AddressView)
        requires
            self.control.len() > 0,
            self.control.last() matches Boundary::Loop { depth, .. } && depth <= self.stack.len(),
        ensures
            self.control.last() matches Boundary::Loop { frame, depth, start, exit }
                && self.deliver(addr, ControlFlowView::Continue) == (Outcome {
                state: State {
                    stack: self.stack.take(depth as int),
                    control: self.control,
                    heap: self.heap,
                    at: Cursor { ip: start, frame },
                },
                fault: None,
            }),
    {
        assert(self.control.take(self.control.len() as int) =~= self.control);
    }

    /// A boundary passes on what it does not own: a `Break` or `Continue`
    /// goes through a call or a block, a `Return` through a loop or a block,
    /// as if that boundary had not been open.
    pub proof fn lemma_signal_passes(self, addr: AddressView, flow: ControlFlowView)
        requires
            self.control.len() > 0,
            flow is Return ==> !self.control.last().is_call(),
            flow is Break || flow is Continue ==> !(self.control.last() is Loop),
            !(flow is Error),
        ensures
            self.deliver(addr, flow) == (State {
                control: self.control.drop_last(),
                ..self
            }).deliver(addr, flow),
    {
        let rest = self.control.drop_last();
        lemma_innermost_loop(rest);
        lemma_innermost_call(rest);
        match flow {
            ControlFlowView::Return(v) => {
                if let Some(i) = innermost_call(rest) {
                    assert(self.control.take(i + 1) =~= rest.take(i + 1));
                    assert(self.control.take(i) =~= rest.take(i));
                }
            },
            _ => {
                if let Some(i) = innermost_loop(rest) {
                    assert(self.control.take(i + 1) =~= rest.take(i + 1));
                    assert(self.control.take(i) =~= rest.take(i));
                }
            },
        }
    }

    /// A call with the wrong number of arguments is refused with an
    /// argument fault at the place of the call, and nothing is bound: the
    /// heap, the stack and the open boundaries stay as they were.
    pub proof fn lemma_wrong_arity_binds_nothing(
        self,
        chunk: &Chunk,
        addr: AddressView,
        proto: usize,
        closure: Frame,
        root: Option<Frame>,
        args: Seq<ValueView>,
        boundary: Boundary,
    )
        requires
            proto < chunk.functions.len(),
            self.heap.contains(closure),
            root matches Some(r) ==> self.heap.contains(r),
            chunk.functions[proto as int].params.len() != args.len(),
        ensures
            self.call(chunk, addr, proto, closure, root, args, boundary) == (Outcome {
                state: self,
                fault: Some(arity_view(addr)),
            }),
    {
    }

    /// A run that has left the instructions has ended well, in the state it
    /// is in.
    pub proof fn lemma_run_ends(self, chunk: &Chunk, budget: nat)
        requires
            self.at.ip >= chunk.code.len(),
        ensures
            self.run(chunk, budget) == (Outcome { state: self, fault: None }),
    {
    }

    /// The first fault ends the run: a step that faults is where the run
    /// stops, with that fault.
    pub proof fn lemma_run_stops_at_fault(self, chunk: &Chunk, budget: nat)
        requires
            self.at.ip < chunk.code.len(),
            budget > 0,
            self.step(chunk).fault is Some,
        ensures
            self.run(chunk, budget) == self.step(chunk),
    {
    }

    /// A run that meets a `Break` or `Continue` while no loop is open, or a
    /// `Return` while no call is open, ends in a "flow leak" fault at that
    /// instruction: it is not taken for success.
    pub proof fn lemma_run_surfaces_leak(self, chunk: &Chunk, budget: nat)
        requires
            self.at.ip < chunk.code.len(),
            budget > 0,
            match chunk.code[self.at.ip as int] {
                Opcode::Break { .. } => no_loop(self.control),
                Opcode::Continue { .. } => no_loop(self.control),
                Opcode::Return { .. } => no_call(self.control) && self.stack.len() > 0,
                _ => false,
            },
        ensures
            self.run(chunk, budget).fault == Some(
                flow_leak_view(chunk.code[self.at.ip as int].address()@),
            ),
    {
        reveal(State::step);
        let addr = chunk.code[self.at.ip as int].address()@;
        match chunk.code[self.at.ip as int] {
            Opcode::Return { .. } => {
                self.drop(1).lemma_return_leaks(addr, self.peek(0));
            },
            _ => {
                self.lemma_loop_exit_leaks(addr);
            },
        }
    }
}

} // verus!
