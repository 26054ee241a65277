//! The machine: what one instruction does to the stack, the frames and the
//! boundaries that are open, and the loop that runs a chunk.

use vstd::prelude::*;
use vstd::string::StringExecFns;
use crate::address::{Address, AddressView};
use crate::chunk::{Chunk, Opcode, method_of};
use crate::errors::{
    Error,
    ErrorView,
    already_defined_view,
    arity_view,
    debug_quoted,
    quote,
    exhausted_view,
    expected_view,
    flow_leak_view,
    malformed_view,
    not_found_view,
    underflow_view,
};
use crate::flow::{ControlFlow, ControlFlowView};
use crate::frames::{Frame, Heap, HeapView};
use crate::operators::{BinOp, binary_view};
use crate::values::{Value, ValueView, kind_name};

verus! {

/// Where execution stands: the next instruction and the current frame.
#[derive(Debug, Clone, Copy, PartialEq, Eq, Structural)]
pub struct Cursor {
    pub ip: usize,
    pub frame: Frame,
}

/// What was open when a block, a loop or a call was entered, kept until it
/// is left. `frame` is the frame to go back to, `depth` the height of the
/// stack to cut back to.
#[derive(Debug, Clone, Copy)]
pub enum Boundary {
    Block { frame: Frame },
    Loop { frame: Frame, depth: usize, start: usize, exit: usize },
    Call { frame: Frame, depth: usize, resume: usize },
    /// The call of an `init` method. What it returns is dropped for the
    /// instance under construction.
    Construct {
        frame: Frame,
        depth: usize,
        resume: usize,
        def: usize,
        scope: Frame,
        fields: Frame,
    },
}

impl Boundary {
    /// The frame that was current when the boundary was opened.
    pub open spec fn frame(self) -> Frame {
        match self {
            Boundary::Block { frame } => frame,
            Boundary::Loop { frame, .. } => frame,
            Boundary::Call { frame, .. } => frame,
            Boundary::Construct { frame, .. } => frame,
        }
    }

    /// The boundary is one that `Return` stops at.
    pub open spec fn is_call(self) -> bool {
        self is Call || self is Construct
    }
}

/// The state of a run, as mathematics.
pub struct State {
    pub stack: Seq<ValueView>,
    pub control: Seq<Boundary>,
    pub heap: HeapView,
    pub at: Cursor,
}

/// What a step leads to: the state after it, and the fault that stopped the
/// run, if one did.
pub struct Outcome {
    pub state: State,
    pub fault: Option<ErrorView>,
}

/// The index of the innermost open loop, if a loop is open.
pub open spec fn innermost_loop(control: Seq<Boundary>) -> Option<int>
    decreases control.len(),
{
    if control.len() == 0 {
        None
    } else if control.last() is Loop {
        Some(control.len() - 1)
    } else {
        innermost_loop(control.drop_last())
    }
}

/// The index of the innermost open call, if a call is open.
pub open spec fn innermost_call(control: Seq<Boundary>) -> Option<int>
    decreases control.len(),
{
    if control.len() == 0 {
        None
    } else if control.last().is_call() {
        Some(control.len() - 1)
    } else {
        innermost_call(control.drop_last())
    }
}

/// The heap after binding the first `i` parameters to their arguments in
/// the frame `n`, one after the other, and the index of the first parameter
/// whose name was bound already, where there is one. Binding stops there.
pub open spec fn bind(
    heap: HeapView,
    n: Frame,
    params: Seq<String>,
    args: Seq<ValueView>,
    i: int,
) -> (HeapView, Option<int>)
    decreases i,
{
    if i <= 0 {
        (heap, None)
    } else {
        let (bound, clash) = bind(heap, n, params, args, i - 1);
        if clash is Some {
            (bound, clash)
        } else if bound.locals(n).contains_key(params[i - 1]@) {
            (bound, Some(i - 1))
        } else {
            (bound.with_local(n, params[i - 1]@, args[i - 1]), None)
        }
    }
}

/// Once a parameter's name was found bound, nothing more is bound.
pub proof fn lemma_bind_stops(
    heap: HeapView,
    n: Frame,
    params: Seq<String>,
    args: Seq<ValueView>,
    i: int,
    j: int,
)
    requires
        0 <= i <= j,
        bind(heap, n, params, args, i).1 is Some,
    ensures
        bind(heap, n, params, args, j) == bind(heap, n, params, args, i),
    decreases j - i,
{
    if i < j {
        lemma_bind_stops(heap, n, params, args, i, j - 1);
    }
}

impl State {
    /// Execution goes on at `ip`.
    pub open spec fn go(self, ip: usize) -> Outcome {
        Outcome { state: State { at: Cursor { ip, frame: self.at.frame }, ..self }, fault: None }
    }

    /// Execution stops with the fault `e`.
    pub open spec fn fail(self, e: ErrorView) -> Outcome {
        Outcome { state: self, fault: Some(e) }
    }

    /// The state with `v` pushed.
    pub open spec fn push(self, v: ValueView) -> State {
        State { stack: self.stack.push(v), ..self }
    }

    /// The state with the top `n` values dropped.
    pub open spec fn drop(self, n: int) -> State {
        State { stack: self.stack.take(self.stack.len() - n), ..self }
    }

    /// The value `n` places below the top of the stack.
    pub open spec fn peek(self, n: int) -> ValueView {
        self.stack[self.stack.len() - 1 - n]
    }

    /// The state with another heap.
    pub open spec fn on(self, heap: HeapView) -> State {
        State { heap, ..self }
    }

    /// `Bin`: the two operands make room for the result.
    pub open spec fn bin(self, addr: AddressView, op: BinOp, next: usize) -> Outcome {
        if self.stack.len() < 2 {
            self.fail(underflow_view(addr))
        } else {
            match binary_view(op, self.peek(1), self.peek(0), addr) {
                Ok(v) => self.drop(2).push(v).go(next),
                Err(e) => self.drop(2).fail(e),
            }
        }
    }

    /// `Define`: the value on top is bound in the current frame.
    pub open spec fn define(self, addr: AddressView, name: Seq<char>, next: usize) -> Outcome {
        if self.stack.len() < 1 {
            self.fail(underflow_view(addr))
        } else if self.heap.locals(self.at.frame).contains_key(name) {
            self.drop(1).fail(already_defined_view(addr, debug_quoted(name)))
        } else {
            self.drop(1).on(self.heap.define(self.at.frame, name, self.peek(0))).go(next)
        }
    }

    /// `Load`: what the name means is pushed.
    pub open spec fn load(self, addr: AddressView, name: Seq<char>, next: usize) -> Outcome {
        if self.heap.has(self.at.frame, name) {
            self.push(self.heap.value(self.at.frame, name)).go(next)
        } else {
            self.fail(not_found_view(addr, debug_quoted(name)))
        }
    }

    /// `Store`: the value on top is assigned to what the name means.
    pub open spec fn store(self, addr: AddressView, name: Seq<char>, next: usize) -> Outcome {
        if self.stack.len() < 1 {
            self.fail(underflow_view(addr))
        } else if self.heap.has(self.at.frame, name) {
            self.drop(1).on(self.heap.set(self.at.frame, name, self.peek(0))).go(next)
        } else {
            self.drop(1).fail(not_found_view(addr, debug_quoted(name)))
        }
    }

    /// `JumpIfFalse`: the boolean on top decides where execution goes on.
    pub open spec fn branch(self, addr: AddressView, target: usize, next: usize) -> Outcome {
        if self.stack.len() < 1 {
            self.fail(underflow_view(addr))
        } else {
            match self.peek(0) {
                ValueView::Bool(true) => self.drop(1).go(next),
                ValueView::Bool(false) => self.drop(1).go(target),
                other => self.drop(1).fail(expected_view(addr, "bool"@, kind_name(other))),
            }
        }
    }

    /// `Enter`: a new frame, closed over the current one, becomes current.
    pub open spec fn enter_block(self, next: usize) -> Outcome {
        let n = self.heap.fresh();
        Outcome {
            state: State {
                stack: self.stack,
                control: self.control.push(Boundary::Block { frame: self.at.frame }),
                heap: self.heap.with_fresh(n).with_closure(n, self.at.frame),
                at: Cursor { ip: next, frame: n },
            },
            fault: None,
        }
    }

    /// `Leave`: the frame that was current before the block is current
    /// again.
    pub open spec fn leave_block(self, addr: AddressView, next: usize) -> Outcome {
        if self.control.len() > 0 && self.control.last() is Block {
            Outcome {
                state: State {
                    stack: self.stack,
                    control: self.control.drop_last(),
                    heap: self.heap,
                    at: Cursor { ip: next, frame: self.control.last().frame() },
                },
                fault: None,
            }
        } else {
            self.fail(malformed_view(addr))
        }
    }

    /// `Loop`: a loop is open from here on.
    pub open spec fn enter_loop(self, exit: usize, next: usize) -> Outcome {
        State {
            control: self.control.push(
                Boundary::Loop {
                    frame: self.at.frame,
                    depth: self.stack.len() as usize,
                    start: next,
                    exit,
                },
            ),
            ..self
        }.go(next)
    }

    /// A `Break` or `Continue` signal: everything that was opened inside
    /// the innermost loop is closed, calls too. The frame and the height of the
    /// stack are those of the loop's entry. `Break` closes the loop and goes
    /// on behind it; `Continue` (`again`) keeps it open and goes on at its
    /// start. Where no loop is open, the signal has leaked.
    pub open spec fn leave_loop(self, addr: AddressView, again: bool) -> Outcome {
        match innermost_loop(self.control) {
            None => State { control: Seq::empty(), ..self }.fail(flow_leak_view(addr)),
            Some(i) => {
                let kept = State { control: self.control.take(i + 1), ..self };
                match self.control[i] {
                    Boundary::Loop { frame, depth, start, exit } => {
                        if depth > self.stack.len() {
                            kept.fail(underflow_view(addr))
                        } else {
                            Outcome {
                                state: State {
                                    stack: self.stack.take(depth as int),
                                    control: self.control.take(
                                        if again {
                                            i + 1
                                        } else {
                                            i
                                        },
                                    ),
                                    heap: self.heap,
                                    at: Cursor {
                                        ip: if again {
                                            start
                                        } else {
                                            exit
                                        },
                                        frame,
                                    },
                                },
                                fault: None,
                            }
                        }
                    },
                    _ => kept.fail(malformed_view(addr)),
                }
            },
        }
    }

    /// A `Return` signal: everything that was opened inside the innermost
    /// call is closed, and the call with it. The caller's frame is current
    /// again, the stack is cut back to its height at the call, and the
    /// result is pushed: the value `v` that the signal carries, or the new
    /// instance where the call was that of an `init` method. Where no call
    /// is open, the signal has leaked.
    pub open spec fn leave_call(self, addr: AddressView, v: ValueView) -> Outcome {
        match innermost_call(self.control) {
            None => State { control: Seq::empty(), ..self }.fail(flow_leak_view(addr)),
            Some(i) => {
                let kept = State { control: self.control.take(i + 1), ..self };
                let (frame, depth, resume, result) = match self.control[i] {
                    Boundary::Construct { frame, depth, resume, def, scope, fields } => (
                        frame,
                        depth,
                        resume,
                        ValueView::Instance { def: def as int, scope, fields },
                    ),
                    Boundary::Call { frame, depth, resume } => (frame, depth, resume, v),
                    other => (other.frame(), 0, 0, v),
                };
                if depth > self.stack.len() {
                    kept.fail(underflow_view(addr))
                } else {
                    Outcome {
                        state: State {
                            stack: self.stack.take(depth as int).push(result),
                            control: self.control.take(i),
                            heap: self.heap,
                            at: Cursor { ip: resume, frame },
                        },
                        fault: None,
                    }
                }
            },
        }
    }

    /// What a signal raised at `addr` leads to. A fault stops the run as it
    /// is. A `Return` is consumed by the innermost open call, a `Break` or
    /// `Continue` by the innermost open loop, through whatever was opened
    /// since; one that finds no such boundary becomes a "flow leak" fault.
    pub open spec fn deliver(self, addr: AddressView, flow: ControlFlowView) -> Outcome {
        match flow {
            ControlFlowView::Error(e) => self.fail(e),
            ControlFlowView::Return(v) => self.leave_call(addr, v),
            ControlFlowView::Break => self.leave_loop(addr, false),
            ControlFlowView::Continue => self.leave_loop(addr, true),
        }
    }

    /// `Return`: the value on top is what the signal carries.
    pub open spec fn give_back(self, addr: AddressView) -> Outcome {
        if self.stack.len() < 1 {
            self.fail(underflow_view(addr))
        } else {
            self.drop(1).deliver(addr, ControlFlowView::Return(self.peek(0)))
        }
    }

    /// The start of a call of the function `proto`: a new frame holds the
    /// arguments under the parameters' names, has `closure` as its closure
    /// and `root`, where there is one, as its root; `boundary` is opened; and
    /// execution goes on at the function's first instruction.
    ///
    /// A call with the wrong number of arguments is refused before anything
    /// is bound.
    pub open spec fn call(
        self,
        chunk: &Chunk,
        addr: AddressView,
        proto: usize,
        closure: Frame,
        root: Option<Frame>,
        args: Seq<ValueView>,
        boundary: Boundary,
    ) -> Outcome {
        if proto >= chunk.functions.len() || !self.heap.contains(closure) || (root matches Some(r)
            && !self.heap.contains(r)) {
            self.fail(malformed_view(addr))
        } else if chunk.functions[proto as int].params.len() != args.len() {
            self.fail(arity_view(addr))
        } else {
            let params = chunk.functions[proto as int].params@;
            let n = self.heap.fresh();
            let (bound, clash) = bind(
                self.heap.with_fresh(n),
                n,
                params,
                args,
                params.len() as int,
            );
            match clash {
                Some(i) => self.on(bound).fail(
                    already_defined_view(addr, debug_quoted(params[i]@)),
                ),
                None => {
                    let closed = bound.with_closure(n, closure);
                    Outcome {
                        state: State {
                            stack: self.stack,
                            control: self.control.push(boundary),
                            heap: match root {
                                Some(r) => closed.with_root(n, r),
                                None => closed,
                            },
                            at: Cursor { ip: chunk.functions[proto as int].entry, frame: n },
                        },
                        fault: None,
                    }
                },
            }
        }
    }

    /// `Call`: the function below the arguments is called with them.
    pub open spec fn call_function(
        self,
        chunk: &Chunk,
        addr: AddressView,
        argc: usize,
        next: usize,
    ) -> Outcome {
        if self.stack.len() < argc + 1 {
            self.fail(underflow_view(addr))
        } else {
            let rest = self.drop(argc + 1);
            let args = self.stack.skip(self.stack.len() - argc);
            match self.peek(argc as int) {
                ValueView::Callable { proto, closure } => rest.call(
                    chunk,
                    addr,
                    proto as usize,
                    closure,
                    None,
                    args,
                    Boundary::Call {
                        frame: self.at.frame,
                        depth: rest.stack.len() as usize,
                        resume: next,
                    },
                ),
                other => rest.fail(expected_view(addr, "function"@, kind_name(other))),
            }
        }
    }

    /// `Invoke`: the method called `name` of the instance below the
    /// arguments is called with them. Its closure is the frame that the
    /// instance's type was defined in, its root the instance's fields.
    pub open spec fn call_method(
        self,
        chunk: &Chunk,
        addr: AddressView,
        name: Seq<char>,
        argc: usize,
        next: usize,
    ) -> Outcome {
        if self.stack.len() < argc + 1 {
            self.fail(underflow_view(addr))
        } else {
            let rest = self.drop(argc + 1);
            let args = self.stack.skip(self.stack.len() - argc);
            match self.peek(argc as int) {
                ValueView::Instance { def, scope, fields } => {
                    if def >= chunk.types.len() {
                        rest.fail(malformed_view(addr))
                    } else {
                        match method_of(chunk.types[def].methods@, name) {
                            None => rest.fail(not_found_view(addr, debug_quoted(name))),
                            Some(proto) => rest.call(
                                chunk,
                                addr,
                                proto,
                                scope,
                                Some(fields),
                                args,
                                Boundary::Call {
                                    frame: self.at.frame,
                                    depth: rest.stack.len() as usize,
                                    resume: next,
                                },
                            ),
                        }
                    }
                },
                other => rest.fail(expected_view(addr, "instance"@, kind_name(other))),
            }
        }
    }

    /// `New`: an instance of the type below the arguments is made. Its
    /// fields are a new frame without links. Where the type has a method
    /// `init`, that method is called on the instance with the arguments, and
    /// the instance is pushed when it returns; where it has none, there must
    /// be no arguments, and the instance is pushed at once.
    pub open spec fn construct(
        self,
        chunk: &Chunk,
        addr: AddressView,
        argc: usize,
        next: usize,
    ) -> Outcome {
        if self.stack.len() < argc + 1 {
            self.fail(underflow_view(addr))
        } else {
            let rest = self.drop(argc + 1);
            let args = self.stack.skip(self.stack.len() - argc);
            match self.peek(argc as int) {
                ValueView::Type { def, scope } => {
                    if def >= chunk.types.len() {
                        rest.fail(malformed_view(addr))
                    } else {
                        let fields = self.heap.fresh();
                        let made = rest.on(self.heap.with_fresh(fields));
                        match method_of(chunk.types[def].methods@, "init"@) {
                            None => if argc != 0 {
                                rest.fail(arity_view(addr))
                            } else {
                                made.push(ValueView::Instance { def, scope, fields }).go(next)
                            },
                            Some(proto) => made.call(
                                chunk,
                                addr,
                                proto,
                                scope,
                                Some(fields),
                                args,
                                Boundary::Construct {
                                    frame: self.at.frame,
                                    depth: rest.stack.len() as usize,
                                    resume: next,
                                    def: def as usize,
                                    scope,
                                    fields,
                                },
                            ),
                        }
                    }
                },
                other => rest.fail(expected_view(addr, "type"@, kind_name(other))),
            }
        }
    }

    /// `GetField`: the instance on top makes room for what the name means
    /// in its fields.
    pub open spec fn get_field(self, addr: AddressView, name: Seq<char>, next: usize) -> Outcome {
        if self.stack.len() < 1 {
            self.fail(underflow_view(addr))
        } else {
            match self.peek(0) {
                ValueView::Instance { fields, .. } => {
                    if !self.heap.contains(fields) {
                        self.drop(1).fail(malformed_view(addr))
                    } else if self.heap.has(fields, name) {
                        self.drop(1).push(self.heap.value(fields, name)).go(next)
                    } else {
                        self.drop(1).fail(not_found_view(addr, debug_quoted(name)))
                    }
                },
                other => self.drop(1).fail(expected_view(addr, "instance"@, kind_name(other))),
            }
        }
    }

    /// `SetField`: the value on top is bound in the fields of the instance
    /// below it, which every holder of the instance shares.
    pub open spec fn set_field(self, addr: AddressView, name: Seq<char>, next: usize) -> Outcome {
        if self.stack.len() < 2 {
            self.fail(underflow_view(addr))
        } else {
            match self.peek(1) {
                ValueView::Instance { fields, .. } => {
                    if !self.heap.contains(fields) {
                        self.drop(2).fail(malformed_view(addr))
                    } else {
                        self.drop(2).on(self.heap.with_local(fields, name, self.peek(0))).go(next)
                    }
                },
                other => self.drop(2).fail(expected_view(addr, "instance"@, kind_name(other))),
            }
        }
    }

    /// What the instruction at the cursor does.
    #[verifier::opaque]
    pub open spec fn step(self, chunk: &Chunk) -> Outcome
        recommends
            self.at.ip < chunk.code.len(),
    {
        let next = (self.at.ip + 1) as usize;
        match chunk.code[self.at.ip as int] {
            Opcode::Push { value, .. } => self.push(value@).go(next),
            Opcode::Pop { addr } => if self.stack.len() < 1 {
                self.fail(underflow_view(addr@))
            } else {
                self.drop(1).go(next)
            },
            Opcode::Bin { addr, op } => self.bin(addr@, op, next),
            Opcode::Define { addr, name } => self.define(addr@, name@, next),
            Opcode::Load { addr, name } => self.load(addr@, name@, next),
            Opcode::Store { addr, name } => self.store(addr@, name@, next),
            Opcode::Jump { target, .. } => self.go(target),
            Opcode::JumpIfFalse { addr, target } => self.branch(addr@, target, next),
            Opcode::Enter { .. } => self.enter_block(next),
            Opcode::Leave { addr } => self.leave_block(addr@, next),
            Opcode::Loop { exit, .. } => self.enter_loop(exit, next),
            Opcode::Break { addr } => self.deliver(addr@, ControlFlowView::Break),
            Opcode::Continue { addr } => self.deliver(addr@, ControlFlowView::Continue),
            Opcode::Function { proto, .. } => self.push(
                ValueView::Callable { proto: proto as int, closure: self.at.frame },
            ).go(next),
            Opcode::Call { addr, argc } => self.call_function(chunk, addr@, argc, next),
            Opcode::Return { addr } => self.give_back(addr@),
            Opcode::Type { def, .. } => self.push(
                ValueView::Type { def: def as int, scope: self.at.frame },
            ).go(next),
            Opcode::New { addr, argc } => self.construct(chunk, addr@, argc, next),
            Opcode::Invoke { addr, name, argc } => self.call_method(
                chunk,
                addr@,
                name@,
                argc,
                next,
            ),
            Opcode::GetField { addr, name } => self.get_field(addr@, name@, next),
            Opcode::SetField { addr, name } => self.set_field(addr@, name@, next),
        }
    }

    /// What running the chunk from this state leads to, with at most
    /// `budget` steps: the state in which the cursor has left the
    /// instructions, or the first fault.
    pub open spec fn run(self, chunk: &Chunk, budget: nat) -> Outcome
        decreases budget,
    {
        if self.at.ip >= chunk.code.len() {
            Outcome { state: self, fault: None }
        } else if budget == 0 {
            self.fail(exhausted_view(chunk.code[self.at.ip as int].address()@))
        } else {
            let after = self.step(chunk);
            if after.fault is Some {
                after
            } else {
                after.state.run(chunk, (budget - 1) as nat)
            }
        }
    }
}

/// The values as mathematics, one by one.
pub open spec fn views(values: Seq<Value>) -> Seq<ValueView> {
    Seq::new(values.len(), |i: int| values[i]@)
}

/// The machine: the stack of values and the boundaries that are open.
#[derive(Debug)]
pub struct Vm {
    stack: Vec<Value>,
    control: Vec<Boundary>,
    budget: u64,
}

impl Default for Vm {
    fn default() -> (vm: Vm)
        ensures
            vm.stack() == Seq::<ValueView>::empty(),
            vm.control() == Seq::<Boundary>::empty(),
            vm.budget() == u64::MAX,
    {
        Vm::new()
    }
}

impl Vm {
    /// The values on the stack, the top last.
    pub closed spec fn stack(&self) -> Seq<ValueView> {
        views(self.stack@)
    }

    /// The boundaries that are open, the innermost last.
    pub closed spec fn control(&self) -> Seq<Boundary> {
        self.control@
    }

    /// The number of steps that a run may take.
    pub closed spec fn budget(&self) -> nat {
        self.budget as nat
    }

    /// The state of the machine with `heap`, standing at `at`.
    pub open spec fn state(&self, heap: &Heap, at: Cursor) -> State {
        State { stack: self.stack(), control: self.control(), heap: heap@, at }
    }

    /// Every frame that an open boundary leads back to is in the heap.
    pub open spec fn anchored(&self, heap: HeapView) -> bool {
        forall|i: int|
            0 <= i < self.control().len() ==> heap.contains((#[trigger] self.control()[i]).frame())
    }

    /// The machine, the heap and the result of a step are what `outcome`
    /// says.
    pub open spec fn agrees(
        &self,
        heap: &Heap,
        r: Result<Cursor, ControlFlow>,
        outcome: Outcome,
    ) -> bool {
        &&& self.stack() == outcome.state.stack
        &&& self.control() == outcome.state.control
        &&& heap@ == outcome.state.heap
        &&& match r {
            Ok(at) => outcome.fault is None && at == outcome.state.at,
            Err(flow) => outcome.fault matches Some(e) && flow@ == ControlFlowView::Error(e),
        }
    }

    /// A machine with an empty stack that runs as long as the chunk goes
    /// on.
    pub fn new() -> (vm: Vm)
        ensures
            vm.stack() == Seq::<ValueView>::empty(),
            vm.control() == Seq::<Boundary>::empty(),
            vm.budget() == u64::MAX,
    {
        let vm = Vm { stack: Vec::new(), control: Vec::new(), budget: u64::MAX };
        assert(vm.stack() =~= Seq::<ValueView>::empty());
        vm
    }

    /// A machine with an empty stack that stops a run after `budget` steps.
    pub fn with_budget(budget: u64) -> (vm: Vm)
        ensures
            vm.stack() == Seq::<ValueView>::empty(),
            vm.control() == Seq::<Boundary>::empty(),
            vm.budget() == budget,
    {
        let vm = Vm { stack: Vec::new(), control: Vec::new(), budget };
        assert(vm.stack() =~= Seq::<ValueView>::empty());
        vm
    }

    /// The number of values on the stack.
    pub fn depth(&self) -> (r: usize)
        ensures
            r == self.stack().len(),
    {
        self.stack.len()
    }

    /// Pushes `value`.
    pub fn push(&mut self, value: Value)
        ensures
            final(self).stack() == old(self).stack().push(value@),
            final(self).control() == old(self).control(),
            final(self).budget() == old(self).budget(),
    {
        self.stack.push(value);
        assert(self.stack() =~= old(self).stack().push(value@));
    }

    /// Pops the value on top. On an empty stack, a "stack underflow" fault
    /// at `address`.
    pub fn pop(&mut self, address: Address) -> (r: Result<Value, ControlFlow>)
        ensures
            final(self).control() == old(self).control(),
            final(self).budget() == old(self).budget(),
            match r {
                Ok(v) => old(self).stack().len() > 0 && v@ == old(self).stack().last()
                    && final(self).stack() == old(self).stack().drop_last(),
                Err(flow) => old(self).stack().len() == 0 && final(self).stack() == old(
                    self,
                ).stack() && flow@ == ControlFlowView::Error(underflow_view(address@)),
            },
    {
        match self.stack.pop() {
            Some(v) => {
                assert(self.stack() =~= old(self).stack().drop_last());
                Ok(v)
            },
            None => Err(ControlFlow::Error(Error::underflow(address))),
        }
    }

    /// Pops the value on top of a stack that is not empty.
    fn take_top(&mut self) -> (v: Value)
        requires
            old(self).stack().len() > 0,
        ensures
            v@ == old(self).stack().last(),
            final(self).stack() == old(self).stack().take(old(self).stack().len() - 1),
            final(self).control() == old(self).control(),
            final(self).budget() == old(self).budget(),
    {
        let popped = self.stack.pop();
        assert(self.stack() =~= old(self).stack().take(old(self).stack().len() - 1));
        popped.unwrap()
    }

    /// Cuts the stack back to `depth` values.
    fn cut(&mut self, depth: usize)
        requires
            depth <= old(self).stack().len(),
        ensures
            final(self).stack() == old(self).stack().take(depth as int),
            final(self).control() == old(self).control(),
            final(self).budget() == old(self).budget(),
    {
        self.stack.truncate(depth);
        assert(self.stack() =~= old(self).stack().take(depth as int));
    }

    /// Takes the top `n` values off the stack, in the order they were
    /// pushed.
    fn take_args(&mut self, n: usize) -> (args: Vec<Value>)
        requires
            n <= old(self).stack().len(),
        ensures
            views(args@) == old(self).stack().skip(old(self).stack().len() - n),
            final(self).stack() == old(self).stack().take(old(self).stack().len() - n),
            final(self).control() == old(self).control(),
            final(self).budget() == old(self).budget(),
    {
        let at = self.stack.len() - n;
        let args = self.stack.split_off(at);
        assert(views(args@) =~= old(self).stack().skip(old(self).stack().len() - n));
        assert(self.stack() =~= old(self).stack().take(old(self).stack().len() - n));
        args
    }

    /// Opens `boundary`.
    fn open(&mut self, boundary: Boundary)
        ensures
            final(self).control() == old(self).control().push(boundary),
            final(self).stack() == old(self).stack(),
            final(self).budget() == old(self).budget(),
    {
        self.control.push(boundary);
    }

    /// Runs a `Bin`.
    fn exec_bin(&mut self, at: Cursor, addr: &Address, op: BinOp, heap: &Heap) -> (r: Result<
        Cursor,
        ControlFlow,
    >)
        requires
            at.ip < usize::MAX,
        ensures
            final(self).agrees(
                heap,
                r,
                old(self).state(heap, at).bin(addr@, op, (at.ip + 1) as usize),
            ),
            final(self).budget() == old(self).budget(),
            final(self).control() == old(self).control(),
            r matches Ok(c) ==> c.frame == at.frame,
    {
        if self.stack.len() < 2 {
            return Err(ControlFlow::Error(Error::underflow(addr.duplicate())));
        }
        let right = self.take_top();
        let left = self.take_top();
        assert(self.stack() == old(self).stack().take(old(self).stack().len() - 2));
        match op.apply(&left, &right, addr.duplicate()) {
            Ok(v) => {
                self.push(v);
                Ok(Cursor { ip: at.ip + 1, frame: at.frame })
            },
            Err(flow) => Err(flow),
        }
    }

    /// Runs a `Define`.
    fn exec_define(&mut self, heap: &mut Heap, at: Cursor, addr: &Address, name: &String) -> (r:
        Result<Cursor, ControlFlow>)
        requires
            old(heap).wf(),
            old(heap)@.contains(at.frame),
            old(self).anchored(old(heap)@),
            at.ip < usize::MAX,
        ensures
            final(heap).wf(),
            final(self).agrees(
                final(heap),
                r,
                old(self).state(old(heap), at).define(addr@, name@, (at.ip + 1) as usize),
            ),
            final(self).budget() == old(self).budget(),
            final(self).anchored(final(heap)@),
            r matches Ok(c) ==> final(heap)@.contains(c.frame),
    {
        if self.stack.len() < 1 {
            return Err(ControlFlow::Error(Error::underflow(addr.duplicate())));
        }
        let v = self.take_top();
        match at.frame.define(heap, addr.duplicate(), name.clone(), v) {
            Ok(_) => Ok(Cursor { ip: at.ip + 1, frame: at.frame }),
            Err(flow) => Err(flow),
        }
    }

    /// Runs a `Load`.
    fn exec_load(&mut self, heap: &Heap, at: Cursor, addr: &Address, name: &String) -> (r: Result<
        Cursor,
        ControlFlow,
    >)
        requires
            heap.wf(),
            heap@.contains(at.frame),
            at.ip < usize::MAX,
        ensures
            final(self).agrees(
                heap,
                r,
                old(self).state(heap, at).load(addr@, name@, (at.ip + 1) as usize),
            ),
            final(self).budget() == old(self).budget(),
            final(self).control() == old(self).control(),
            r matches Ok(c) ==> c.frame == at.frame,
    {
        match at.frame.lookup(heap, addr.duplicate(), name.clone()) {
            Ok(v) => {
                self.push(v);
                Ok(Cursor { ip: at.ip + 1, frame: at.frame })
            },
            Err(flow) => Err(flow),
        }
    }

    /// Runs a `Store`.
    fn exec_store(&mut self, heap: &mut Heap, at: Cursor, addr: &Address, name: &String) -> (r:
        Result<Cursor, ControlFlow>)
        requires
            old(heap).wf(),
            old(heap)@.contains(at.frame),
            old(self).anchored(old(heap)@),
            at.ip < usize::MAX,
        ensures
            final(heap).wf(),
            final(self).agrees(
                final(heap),
                r,
                old(self).state(old(heap), at).store(addr@, name@, (at.ip + 1) as usize),
            ),
            final(self).budget() == old(self).budget(),
            final(self).anchored(final(heap)@),
            r matches Ok(c) ==> final(heap)@.contains(c.frame),
    {
        if self.stack.len() < 1 {
            return Err(ControlFlow::Error(Error::underflow(addr.duplicate())));
        }
        let v = self.take_top();
        proof {
            old(heap)@.lemma_resolve_binds(at.frame, name@);
        }
        match at.frame.set(heap, addr.duplicate(), name.clone(), v) {
            Ok(_) => Ok(Cursor { ip: at.ip + 1, frame: at.frame }),
            Err(flow) => Err(flow),
        }
    }

    /// Runs a `JumpIfFalse`.
    fn exec_branch(&mut self, heap: &Heap, at: Cursor, addr: &Address, target: usize) -> (r: Result<
        Cursor,
        ControlFlow,
    >)
        requires
            at.ip < usize::MAX,
        ensures
            final(self).agrees(
                heap,
                r,
                old(self).state(heap, at).branch(addr@, target, (at.ip + 1) as usize),
            ),
            final(self).budget() == old(self).budget(),
            final(self).control() == old(self).control(),
            r matches Ok(c) ==> c.frame == at.frame,
    {
        if self.stack.len() < 1 {
            return Err(ControlFlow::Error(Error::underflow(addr.duplicate())));
        }
        let v = self.take_top();
        match v {
            Value::Bool(true) => Ok(Cursor { ip: at.ip + 1, frame: at.frame }),
            Value::Bool(false) => Ok(Cursor { ip: target, frame: at.frame }),
            other => Err(
                ControlFlow::Error(Error::expected(addr.duplicate(), "bool", other.kind())),
            ),
        }
    }

    /// Runs an `Enter`.
    fn exec_enter(&mut self, heap: &mut Heap, at: Cursor) -> (r: Cursor)
        requires
            old(heap).wf(),
            old(heap)@.contains(at.frame),
            old(self).anchored(old(heap)@),
            at.ip < usize::MAX,
        ensures
            final(heap).wf(),
            final(self).agrees(
                final(heap),
                Ok(r),
                old(self).state(old(heap), at).enter_block((at.ip + 1) as usize),
            ),
            final(self).budget() == old(self).budget(),
            final(self).anchored(final(heap)@),
            final(heap)@.contains(r.frame),
    {
        let n = Frame::new(heap);
        proof {
            heap@.lemma_unreferenced_unreached(at.frame, n);
        }
        n.set_closure(heap, at.frame);
        self.open(Boundary::Block { frame: at.frame });
        Cursor { ip: at.ip + 1, frame: n }
    }

    /// Runs a `Leave`.
    fn exec_leave(&mut self, heap: &Heap, at: Cursor, addr: &Address) -> (r: Result<
        Cursor,
        ControlFlow,
    >)
        requires
            old(self).anchored(heap@),
            at.ip < usize::MAX,
        ensures
            final(self).agrees(
                heap,
                r,
                old(self).state(heap, at).leave_block(addr@, (at.ip + 1) as usize),
            ),
            final(self).budget() == old(self).budget(),
            final(self).anchored(heap@),
            r matches Ok(c) ==> heap@.contains(c.frame),
    {
        let n = self.control.len();
        if n > 0 {
            if let Boundary::Block { frame } = self.control[n - 1] {
                self.control.pop();
                return Ok(Cursor { ip: at.ip + 1, frame });
            }
        }
        Err(ControlFlow::Error(Error::malformed(addr.duplicate())))
    }

    /// Carries a `Break` or, with `again`, a `Continue` to the innermost
    /// open loop.
    fn exec_leave_loop(&mut self, heap: &Heap, at: Cursor, addr: &Address, again: bool) -> (r:
        Result<Cursor, ControlFlow>)
        requires
            old(self).anchored(heap@),
        ensures
            final(self).agrees(heap, r, old(self).state(heap, at).leave_loop(addr@, again)),
            final(self).budget() == old(self).budget(),
            final(self).anchored(heap@),
            r matches Ok(c) ==> heap@.contains(c.frame),
    {
        loop
            invariant
                self.stack() == old(self).stack(),
                self.budget() == old(self).budget(),
                self.control().len() <= old(self).control().len(),
                self.control() == old(self).control().take(self.control().len() as int),
                innermost_loop(self.control()) == innermost_loop(old(self).control()),
                old(self).anchored(heap@),
            decreases self.control.len(),
        {
            let n = self.control.len();
            if n == 0 {
                assert(self.control() =~= Seq::<Boundary>::empty());
                return Err(ControlFlow::Error(Error::flow_leak(addr.duplicate())));
            }
            if let Boundary::Loop { frame, depth, start, exit } = self.control[n - 1] {
                assert(old(self).control()[n - 1] == self.control()[n - 1]);
                if depth > self.stack.len() {
                    return Err(ControlFlow::Error(Error::underflow(addr.duplicate())));
                }
                self.cut(depth);
                if again {
                    return Ok(Cursor { ip: start, frame });
                } else {
                    self.control.pop();
                    assert(self.control() =~= old(self).control().take(n - 1));
                    return Ok(Cursor { ip: exit, frame });
                }
            }
            self.control.pop();
            assert(self.control() =~= old(self).control().take(n - 1));
        }
    }

    /// Carries a `Return` of `v` to the innermost open call.
    fn exec_return(&mut self, heap: &Heap, at: Cursor, addr: &Address, v: Value) -> (r: Result<
        Cursor,
        ControlFlow,
    >)
        requires
            old(self).anchored(heap@),
        ensures
            final(self).agrees(heap, r, old(self).state(heap, at).leave_call(addr@, v@)),
            final(self).budget() == old(self).budget(),
            final(self).anchored(heap@),
            r matches Ok(c) ==> heap@.contains(c.frame),
    {
        loop
            invariant
                self.stack() == old(self).stack(),
                self.budget() == old(self).budget(),
                self.control().len() <= old(self).control().len(),
                self.control() == old(self).control().take(self.control().len() as int),
                innermost_call(self.control()) == innermost_call(old(self).control()),
                old(self).anchored(heap@),
            decreases self.control.len(),
        {
            let n = self.control.len();
            if n == 0 {
                assert(self.control() =~= Seq::<Boundary>::empty());
                return Err(ControlFlow::Error(Error::flow_leak(addr.duplicate())));
            }
            let top = self.control[n - 1];
            assert(old(self).control()[n - 1] == top);
            match top {
                Boundary::Call { frame, depth, resume } => {
                    if depth > self.stack.len() {
                        return Err(ControlFlow::Error(Error::underflow(addr.duplicate())));
                    }
                    self.cut(depth);
                    self.push(v);
                    self.control.pop();
                    assert(self.control() =~= old(self).control().take(n - 1));
                    return Ok(Cursor { ip: resume, frame });
                },
                Boundary::Construct { frame, depth, resume, def, scope, fields } => {
                    if depth > self.stack.len() {
                        return Err(ControlFlow::Error(Error::underflow(addr.duplicate())));
                    }
                    self.cut(depth);
                    self.push(Value::Instance { def, scope, fields });
                    self.control.pop();
                    assert(self.control() =~= old(self).control().take(n - 1));
                    return Ok(Cursor { ip: resume, frame });
                },
                _ => {
                    self.control.pop();
                    assert(self.control() =~= old(self).control().take(n - 1));
                },
            }
        }
    }

    /// Hands a signal raised at `addr` to the boundary that owns it, and
    /// says where execution goes on.
    ///
    /// A fault is handed back as it is. A `Return` closes the innermost open
    /// call and everything opened inside it, and leaves its value (or the
    /// instance under construction) on the caller's stack. A `Break` closes
    /// the innermost open loop and everything opened inside it; a `Continue`
    /// keeps the loop open and starts its body again. A signal that finds
    /// no boundary of its kind is a "flow leak" fault at `addr`.
    pub fn deliver(&mut self, heap: &Heap, at: Cursor, addr: &Address, flow: ControlFlow) -> (r:
        Result<Cursor, ControlFlow>)
        requires
            old(self).anchored(heap@),
        ensures
            final(self).agrees(heap, r, old(self).state(heap, at).deliver(addr@, flow@)),
            final(self).budget() == old(self).budget(),
            final(self).anchored(heap@),
            r matches Ok(c) ==> heap@.contains(c.frame),
    {
        match flow {
            ControlFlow::Error(e) => Err(ControlFlow::Error(e)),
            ControlFlow::Return(v) => self.exec_return(heap, at, addr, v),
            ControlFlow::Break => self.exec_leave_loop(heap, at, addr, false),
            ControlFlow::Continue => self.exec_leave_loop(heap, at, addr, true),
        }
    }

    /// Starts a call of the function `proto` with `args`.
    #[verifier::loop_isolation(false)]
    fn start_call(
        &mut self,
        chunk: &Chunk,
        heap: &mut Heap,
        at: Cursor,
        addr: &Address,
        proto: usize,
        closure: Frame,
        root: Option<Frame>,
        args: Vec<Value>,
        boundary: Boundary,
    ) -> (r: Result<Cursor, ControlFlow>)
        requires
            old(heap).wf(),
            old(self).anchored(old(heap)@),
            old(heap)@.contains(boundary.frame()),
        ensures
            final(heap).wf(),
            final(self).agrees(
                final(heap),
                r,
                old(self).state(old(heap), at).call(
                    chunk,
                    addr@,
                    proto,
                    closure,
                    root,
                    views(args@),
                    boundary,
                ),
            ),
            final(self).budget() == old(self).budget(),
            final(self).anchored(final(heap)@),
            r matches Ok(c) ==> final(heap)@.contains(c.frame),
    {
        let linked = match root {
            Some(r) => heap.holds(r),
            None => true,
        };
        if proto >= chunk.functions.len() || !heap.holds(closure) || !linked {
            return Err(ControlFlow::Error(Error::malformed(addr.duplicate())));
        }
        let function = &chunk.functions[proto];
        if function.params.len() != args.len() {
            return Err(ControlFlow::Error(Error::arity(addr.duplicate())));
        }
        let n = Frame::new(heap);
        let ghost base = heap@;
        let mut i: usize = 0;
        while i < function.params.len()
            invariant
                i <= function.params.len(),
                function.params.len() == args.len(),
                heap.wf(),
                base.wf(),
                base.same_links(heap@),
                base.contains(n),
                bind(base, n, function.params@, views(args@), i as int) == (heap@, None::<int>),
                self.anchored(heap@),
            decreases function.params.len() - i,
        {
            let ghost before = heap@;
            let name = function.params[i].clone();
            match n.define(heap, addr.duplicate(), name, args[i].duplicate()) {
                Ok(_) => {
                    assert(before.same_links(heap@));
                    assert forall|k: int| 0 <= k < self.control().len() implies heap@.contains(
                        (#[trigger] self.control()[k]).frame(),
                    ) by {
                        assert(before.contains(self.control()[k].frame()));
                    }
                },
                Err(flow) => {
                    proof {
                        assert(bind(base, n, function.params@, views(args@), i + 1) == (
                            before,
                            Some(i as int),
                        ));
                        lemma_bind_stops(
                            base,
                            n,
                            function.params@,
                            views(args@),
                            i + 1,
                            function.params.len() as int,
                        );
                    }
                    return Err(flow);
                },
            }
            i += 1;
        }
        proof {
            assert(heap@.unreferenced(n)) by {
                assert forall|g: Frame| #[trigger] heap@.contains(g) implies heap@.root(g) != Some(n)
                    && heap@.closure(g) != Some(n) by {
                    assert(base.contains(g));
                }
            }
            assert(base.contains(closure));
            heap@.lemma_unreferenced_unreached(closure, n);
        }
        let ghost bound = heap@;
        n.set_closure(heap, closure);
        if let Some(r) = root {
            proof {
                assert(base.contains(r));
                assert(bound.contains(r));
                assert(heap@.unreferenced(n)) by {
                    assert forall|g: Frame| #[trigger] heap@.contains(g) implies heap@.root(g)
                        != Some(n) && heap@.closure(g) != Some(n) by {
                        assert(base.contains(g));
                    }
                }
                heap@.lemma_unreferenced_unreached(r, n);
                assert(heap@.root_end(n) == n);
            }
            n.set_root(heap, r);
        }
        self.open(boundary);
        proof {
            assert(base.contains(boundary.frame()));
            assert(bound.contains(boundary.frame()));
            assert forall|k: int| 0 <= k < old(self).control().len() implies heap@.contains(
                (#[trigger] old(self).control()[k]).frame(),
            ) by {
                assert(bound.contains(old(self).control()[k].frame()));
            }
        }
        Ok(Cursor { ip: function.entry, frame: n })
    }

    /// Runs a `Call`.
    fn exec_call(
        &mut self,
        chunk: &Chunk,
        heap: &mut Heap,
        at: Cursor,
        addr: &Address,
        argc: usize,
    ) -> (r: Result<Cursor, ControlFlow>)
        requires
            old(heap).wf(),
            old(heap)@.contains(at.frame),
            old(self).anchored(old(heap)@),
            at.ip < usize::MAX,
        ensures
            final(heap).wf(),
            final(self).agrees(
                final(heap),
                r,
                old(self).state(old(heap), at).call_function(
                    chunk,
                    addr@,
                    argc,
                    (at.ip + 1) as usize,
                ),
            ),
            final(self).budget() == old(self).budget(),
            final(self).anchored(final(heap)@),
            r matches Ok(c) ==> final(heap)@.contains(c.frame),
    {
        if argc >= self.stack.len() {
            return Err(ControlFlow::Error(Error::underflow(addr.duplicate())));
        }
        let args = self.take_args(argc);
        let callee = self.take_top();
        assert(self.stack() =~= old(self).stack().take(old(self).stack().len() - (argc + 1)));
        match callee {
            Value::Callable { proto, closure } => {
                let boundary = Boundary::Call {
                    frame: at.frame,
                    depth: self.stack.len(),
                    resume: at.ip + 1,
                };
                self.start_call(chunk, heap, at, addr, proto, closure, None, args, boundary)
            },
            other => Err(
                ControlFlow::Error(Error::expected(addr.duplicate(), "function", other.kind())),
            ),
        }
    }

    /// Runs an `Invoke`.
    fn exec_invoke(
        &mut self,
        chunk: &Chunk,
        heap: &mut Heap,
        at: Cursor,
        addr: &Address,
        name: &String,
        argc: usize,
    ) -> (r: Result<Cursor, ControlFlow>)
        requires
            old(heap).wf(),
            old(heap)@.contains(at.frame),
            old(self).anchored(old(heap)@),
            at.ip < usize::MAX,
        ensures
            final(heap).wf(),
            final(self).agrees(
                final(heap),
                r,
                old(self).state(old(heap), at).call_method(
                    chunk,
                    addr@,
                    name@,
                    argc,
                    (at.ip + 1) as usize,
                ),
            ),
            final(self).budget() == old(self).budget(),
            final(self).anchored(final(heap)@),
            r matches Ok(c) ==> final(heap)@.contains(c.frame),
    {
        if argc >= self.stack.len() {
            return Err(ControlFlow::Error(Error::underflow(addr.duplicate())));
        }
        let args = self.take_args(argc);
        let receiver = self.take_top();
        assert(self.stack() =~= old(self).stack().take(old(self).stack().len() - (argc + 1)));
        match receiver {
            Value::Instance { def, scope, fields } => {
                if def >= chunk.types.len() {
                    return Err(ControlFlow::Error(Error::malformed(addr.duplicate())));
                }
                match chunk.types[def].method(name) {
                    None => Err(
                        ControlFlow::Error(Error::not_found(addr.duplicate(), quote(name))),
                    ),
                    Some(proto) => {
                        let boundary = Boundary::Call {
                            frame: at.frame,
                            depth: self.stack.len(),
                            resume: at.ip + 1,
                        };
                        self.start_call(
                            chunk,
                            heap,
                            at,
                            addr,
                            proto,
                            scope,
                            Some(fields),
                            args,
                            boundary,
                        )
                    },
                }
            },
            other => Err(
                ControlFlow::Error(Error::expected(addr.duplicate(), "instance", other.kind())),
            ),
        }
    }

    /// Runs a `New`.
    fn exec_new(
        &mut self,
        chunk: &Chunk,
        heap: &mut Heap,
        at: Cursor,
        addr: &Address,
        argc: usize,
    ) -> (r: Result<Cursor, ControlFlow>)
        requires
            old(heap).wf(),
            old(heap)@.contains(at.frame),
            old(self).anchored(old(heap)@),
            at.ip < usize::MAX,
        ensures
            final(heap).wf(),
            final(self).agrees(
                final(heap),
                r,
                old(self).state(old(heap), at).construct(chunk, addr@, argc, (at.ip + 1) as usize),
            ),
            final(self).budget() == old(self).budget(),
            final(self).anchored(final(heap)@),
            r matches Ok(c) ==> final(heap)@.contains(c.frame),
    {
        if argc >= self.stack.len() {
            return Err(ControlFlow::Error(Error::underflow(addr.duplicate())));
        }
        let args = self.take_args(argc);
        let made = self.take_top();
        assert(self.stack() =~= old(self).stack().take(old(self).stack().len() - (argc + 1)));
        match made {
            Value::Type { def, scope } => {
                if def >= chunk.types.len() {
                    return Err(ControlFlow::Error(Error::malformed(addr.duplicate())));
                }
                match chunk.types[def].method(&String::from_str("init")) {
                    None => {
                        if argc != 0 {
                            return Err(ControlFlow::Error(Error::arity(addr.duplicate())));
                        }
                        let fields = Frame::new(heap);
                        self.push(Value::Instance { def, scope, fields });
                        Ok(Cursor { ip: at.ip + 1, frame: at.frame })
                    },
                    Some(proto) => {
                        let fields = Frame::new(heap);
                        let boundary = Boundary::Construct {
                            frame: at.frame,
                            depth: self.stack.len(),
                            resume: at.ip + 1,
                            def,
                            scope,
                            fields,
                        };
                        self.start_call(
                            chunk,
                            heap,
                            at,
                            addr,
                            proto,
                            scope,
                            Some(fields),
                            args,
                            boundary,
                        )
                    },
                }
            },
            other => Err(
                ControlFlow::Error(Error::expected(addr.duplicate(), "type", other.kind())),
            ),
        }
    }

    /// Runs a `GetField`.
    fn exec_get_field(&mut self, heap: &Heap, at: Cursor, addr: &Address, name: &String) -> (r:
        Result<Cursor, ControlFlow>)
        requires
            heap.wf(),
            at.ip < usize::MAX,
        ensures
            final(self).agrees(
                heap,
                r,
                old(self).state(heap, at).get_field(addr@, name@, (at.ip + 1) as usize),
            ),
            final(self).budget() == old(self).budget(),
            final(self).control() == old(self).control(),
            r matches Ok(c) ==> c.frame == at.frame,
    {
        if self.stack.len() < 1 {
            return Err(ControlFlow::Error(Error::underflow(addr.duplicate())));
        }
        match self.take_top() {
            Value::Instance { fields, .. } => {
                if !heap.holds(fields) {
                    return Err(ControlFlow::Error(Error::malformed(addr.duplicate())));
                }
                match fields.lookup(heap, addr.duplicate(), name.clone()) {
                    Ok(v) => {
                        self.push(v);
                        Ok(Cursor { ip: at.ip + 1, frame: at.frame })
                    },
                    Err(flow) => Err(flow),
                }
            },
            other => Err(
                ControlFlow::Error(Error::expected(addr.duplicate(), "instance", other.kind())),
            ),
        }
    }

    /// Runs a `SetField`.
    fn exec_set_field(&mut self, heap: &mut Heap, at: Cursor, addr: &Address, name: &String) -> (r:
        Result<Cursor, ControlFlow>)
        requires
            old(heap).wf(),
            old(heap)@.contains(at.frame),
            old(self).anchored(old(heap)@),
            at.ip < usize::MAX,
        ensures
            final(heap).wf(),
            final(self).agrees(
                final(heap),
                r,
                old(self).state(old(heap), at).set_field(addr@, name@, (at.ip + 1) as usize),
            ),
            final(self).budget() == old(self).budget(),
            final(self).anchored(final(heap)@),
            r matches Ok(c) ==> final(heap)@.contains(c.frame),
    {
        if self.stack.len() < 2 {
            return Err(ControlFlow::Error(Error::underflow(addr.duplicate())));
        }
        let v = self.take_top();
        let target = self.take_top();
        assert(self.stack() == old(self).stack().take(old(self).stack().len() - 2));
        match target {
            Value::Instance { fields, .. } => {
                if !heap.holds(fields) {
                    return Err(ControlFlow::Error(Error::malformed(addr.duplicate())));
                }
                fields.put(heap, name.clone(), v);
                Ok(Cursor { ip: at.ip + 1, frame: at.frame })
            },
            other => Err(
                ControlFlow::Error(Error::expected(addr.duplicate(), "instance", other.kind())),
            ),
        }
    }

    /// Runs the instruction at `at` and says where execution goes on, or
    /// which fault stopped it.
    ///
    /// A `Return`, `Break` or `Continue` is carried to the boundary that
    /// owns it within the step. Where none is open, the step ends in a
    /// "flow leak" fault.
    pub fn step(&mut self, chunk: &Chunk, heap: &mut Heap, at: Cursor) -> (r: Result<
        Cursor,
        ControlFlow,
    >)
        requires
            old(heap).wf(),
            old(heap)@.contains(at.frame),
            old(self).anchored(old(heap)@),
            at.ip < chunk.code.len(),
        ensures
            final(heap).wf(),
            final(self).agrees(final(heap), r, old(self).state(old(heap), at).step(chunk)),
            final(self).budget() == old(self).budget(),
            final(self).anchored(final(heap)@),
            r matches Ok(c) ==> final(heap)@.contains(c.frame),
    {
        proof {
            reveal(State::step);
        }
        let next = Cursor { ip: at.ip + 1, frame: at.frame };
        match &chunk.code[at.ip] {
            Opcode::Push { value, .. } => {
                self.push(value.duplicate());
                Ok(next)
            },
            Opcode::Pop { addr } => {
                if self.stack.len() < 1 {
                    return Err(ControlFlow::Error(Error::underflow(addr.duplicate())));
                }
                let _ = self.take_top();
                Ok(next)
            },
            Opcode::Bin { addr, op } => self.exec_bin(at, addr, *op, heap),
            Opcode::Define { addr, name } => self.exec_define(heap, at, addr, name),
            Opcode::Load { addr, name } => self.exec_load(heap, at, addr, name),
            Opcode::Store { addr, name } => self.exec_store(heap, at, addr, name),
            Opcode::Jump { target, .. } => Ok(Cursor { ip: *target, frame: at.frame }),
            Opcode::JumpIfFalse { addr, target } => self.exec_branch(heap, at, addr, *target),
            Opcode::Enter { .. } => Ok(self.exec_enter(heap, at)),
            Opcode::Leave { addr } => self.exec_leave(heap, at, addr),
            Opcode::Loop { exit, .. } => {
                self.open(
                    Boundary::Loop {
                        frame: at.frame,
                        depth: self.stack.len(),
                        start: at.ip + 1,
                        exit: *exit,
                    },
                );
                Ok(next)
            },
            Opcode::Break { addr } => self.deliver(heap, at, addr, ControlFlow::Break),
            Opcode::Continue { addr } => self.deliver(heap, at, addr, ControlFlow::Continue),
            Opcode::Function { proto, .. } => {
                self.push(Value::Callable { proto: *proto, closure: at.frame });
                Ok(next)
            },
            Opcode::Call { addr, argc } => self.exec_call(chunk, heap, at, addr, *argc),
            Opcode::Return { addr } => {
                if self.stack.len() < 1 {
                    return Err(ControlFlow::Error(Error::underflow(addr.duplicate())));
                }
                let v = self.take_top();
                self.deliver(heap, at, addr, ControlFlow::Return(v))
            },
            Opcode::Type { def, .. } => {
                self.push(Value::Type { def: *def, scope: at.frame });
                Ok(next)
            },
            Opcode::New { addr, argc } => self.exec_new(chunk, heap, at, addr, *argc),
            Opcode::Invoke { addr, name, argc } => self.exec_invoke(
                chunk,
                heap,
                at,
                addr,
                name,
                *argc,
            ),
            Opcode::GetField { addr, name } => self.exec_get_field(heap, at, addr, name),
            Opcode::SetField { addr, name } => self.exec_set_field(heap, at, addr, name),
        }
    }

    /// Runs `chunk` from its first instruction with `frame` as the current
    /// frame, until the cursor leaves the instructions.
    ///
    /// A fault stops the run and is returned as it is. A `Return`, `Break`
    /// or `Continue` that no open call or loop owns stops the run with a
    /// "flow leak" fault: it is never taken for success. A run that has
    /// taken as many steps as the machine's budget allows stops with a
    /// "step budget exhausted" fault.
    #[verifier::loop_isolation(false)]
    pub fn run(&mut self, chunk: &Chunk, frame: Frame, heap: &mut Heap) -> (r: Result<
        (),
        ControlFlow,
    >)
        requires
            old(heap).wf(),
            old(heap)@.contains(frame),
        ensures
            final(heap).wf(),
            final(self).anchored(final(heap)@),
            final(self).budget() == old(self).budget(),
            ({
                let start = State {
                    stack: old(self).stack(),
                    control: Seq::empty(),
                    heap: old(heap)@,
                    at: Cursor { ip: 0, frame },
                };
                let end = start.run(chunk, old(self).budget());
                &&& final(self).stack() == end.state.stack
                &&& final(self).control() == end.state.control
                &&& final(heap)@ == end.state.heap
                &&& match r {
                    Ok(_) => end.fault is None,
                    Err(flow) => end.fault matches Some(e) && flow@ == ControlFlowView::Error(e),
                }
            }),
    {
        self.control.clear();
        let mut at = Cursor { ip: 0, frame };
        let mut left = self.budget;
        let ghost start = State {
            stack: old(self).stack(),
            control: Seq::empty(),
            heap: old(heap)@,
            at: Cursor { ip: 0, frame },
        };
        assert(self.control() =~= Seq::<Boundary>::empty());
        loop
            invariant
                heap.wf(),
                heap@.contains(at.frame),
                self.anchored(heap@),
                self.budget() == old(self).budget(),
                self.state(heap, at).run(chunk, left as nat) == start.run(
                    chunk,
                    old(self).budget(),
                ),
            decreases left,
        {
            if at.ip >= chunk.code.len() {
                return Ok(());
            }
            if left == 0 {
                let addr = chunk.code[at.ip].addr().duplicate();
                return Err(ControlFlow::Error(Error::exhausted(addr)));
            }
            match self.step(chunk, heap, at) {
                Ok(c) => {
                    at = c;
                    left = left - 1;
                },
                Err(flow) => {
                    return Err(flow);
                },
            }
        }
    }
}

} // verus!
