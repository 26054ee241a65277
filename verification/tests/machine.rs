use frame_vm::address::Address;
use frame_vm::chunk::{Chunk, Method, Opcode, Prototype, TypeDef};
use frame_vm::errors::{Error, ErrorType};
use frame_vm::flow::ControlFlow;
use frame_vm::frames::{Frame, Heap};
use frame_vm::machine::{Cursor, Vm};
use frame_vm::operators::BinOp;
use frame_vm::values::Value;

fn at(line: u64) -> Address {
    Address::new(line, "test.wt".to_string())
}

fn num(i: i64) -> Value {
    Value::Integer(i)
}

fn text(s: &str) -> Value {
    Value::String(s.to_string())
}

fn push(line: u64, value: Value) -> Opcode {
    Opcode::Push { addr: at(line), value }
}

fn define(line: u64, name: &str) -> Opcode {
    Opcode::Define { addr: at(line), name: name.to_string() }
}

fn load(line: u64, name: &str) -> Opcode {
    Opcode::Load { addr: at(line), name: name.to_string() }
}

fn store(line: u64, name: &str) -> Opcode {
    Opcode::Store { addr: at(line), name: name.to_string() }
}

fn bin(line: u64, op: BinOp) -> Opcode {
    Opcode::Bin { addr: at(line), op }
}

fn function(params: &[&str], entry: usize) -> Prototype {
    Prototype { params: params.iter().map(|p| p.to_string()).collect(), entry }
}

fn program(code: Vec<Opcode>) -> Chunk {
    Chunk::new(code, Vec::new(), Vec::new())
}

fn run(chunk: &Chunk) -> (Result<(), ControlFlow>, Vm, Heap, Frame) {
    let mut heap = Heap::new();
    let frame = Frame::new(&mut heap);
    let mut vm = Vm::new();
    let r = vm.run(chunk, frame, &mut heap);
    (r, vm, heap, frame)
}

fn fault(r: Result<(), ControlFlow>) -> Error {
    match r {
        Err(ControlFlow::Error(e)) => e,
        other => panic!("expected a fault, got {:?}", other),
    }
}

fn global(heap: &Heap, frame: Frame, name: &str) -> Value {
    frame.lookup(heap, at(0), name.to_string()).unwrap()
}

#[test]
fn empty_chunk_runs_to_the_end() {
    let (r, vm, _, _) = run(&program(vec![]));
    assert_eq!(r, Ok(()));
    assert_eq!(vm.depth(), 0);
}

#[test]
fn push_and_bin_leave_the_result_on_the_stack() {
    let chunk = program(vec![push(0, num(1)), push(0, num(3)), bin(0, BinOp::Add)]);
    let (r, mut vm, _, _) = run(&chunk);
    assert_eq!(r, Ok(()));
    assert_eq!(vm.depth(), 1);
    assert_eq!(vm.pop(at(0)), Ok(num(4)));
}

#[test]
fn pop_on_an_empty_stack_is_an_underflow() {
    let mut vm = Vm::new();
    match vm.pop(at(3)) {
        Err(ControlFlow::Error(e)) => {
            assert_eq!(e.kind, ErrorType::Runtime);
            assert_eq!(e.address, at(3));
            assert_eq!(e.message, "stack underflow.");
        },
        other => panic!("expected a fault, got {:?}", other),
    }
}

#[test]
fn push_then_pop_gives_the_value_back() {
    let mut vm = Vm::new();
    vm.push(num(1));
    vm.push(text("a"));
    assert_eq!(vm.depth(), 2);
    assert_eq!(vm.pop(at(0)), Ok(text("a")));
    assert_eq!(vm.pop(at(0)), Ok(num(1)));
}

#[test]
fn an_instruction_short_of_operands_stops_the_run() {
    let chunk = program(vec![push(1, num(1)), bin(2, BinOp::Add), push(3, num(9))]);
    let (r, vm, _, _) = run(&chunk);
    let e = fault(r);
    assert_eq!(e.kind, ErrorType::Runtime);
    assert_eq!(e.address, at(2));
    assert_eq!(e.message, "stack underflow.");
    assert_eq!(vm.depth(), 1);
}

#[test]
fn integer_plus_string_is_a_type_fault() {
    let chunk = program(vec![push(1, num(1)), push(1, text("a")), bin(2, BinOp::Add)]);
    let (r, _, _, _) = run(&chunk);
    let e = fault(r);
    assert_eq!(e.kind, ErrorType::Type);
    assert_eq!(e.address, at(2));
    assert_eq!(e.message, "could not use '+' with integer and string.");
    assert_eq!(e.hint, "check the types of both operands.");
}

#[test]
fn variables_are_defined_read_and_assigned() {
    let chunk = program(vec![
        push(1, num(5)),
        define(1, "y"),
        load(2, "y"),
        push(2, num(2)),
        bin(2, BinOp::Mul),
        store(2, "y"),
    ]);
    let (r, vm, heap, frame) = run(&chunk);
    assert_eq!(r, Ok(()));
    assert_eq!(vm.depth(), 0);
    assert_eq!(global(&heap, frame, "y"), num(10));
}

#[test]
fn variable_faults_carry_the_instruction_address() {
    let (r, _, _, _) = run(&program(vec![load(7, "nope")]));
    let e = fault(r);
    assert_eq!(e.kind, ErrorType::Runtime);
    assert_eq!(e.address, at(7));
    assert_eq!(e.message, "not found: \"nope\"");

    let (r, _, _, _) = run(&program(vec![push(1, num(1)), store(8, "nope")]));
    let e = fault(r);
    assert_eq!(e.address, at(8));
    assert_eq!(e.message, "not found: \"nope\"");

    let chunk = program(vec![push(1, num(1)), define(1, "x"), push(2, num(2)), define(9, "x")]);
    let (r, _, heap, frame) = run(&chunk);
    let e = fault(r);
    assert_eq!(e.address, at(9));
    assert_eq!(e.message, "already defined: \"x\"");
    assert_eq!(global(&heap, frame, "x"), num(1));
}

#[test]
fn jump_skips_instructions() {
    let chunk = program(vec![
        push(1, num(1)),
        Opcode::Jump { addr: at(1), target: 3 },
        push(1, num(2)),
        push(1, num(3)),
    ]);
    let (r, mut vm, _, _) = run(&chunk);
    assert_eq!(r, Ok(()));
    assert_eq!(vm.pop(at(0)), Ok(num(3)));
    assert_eq!(vm.pop(at(0)), Ok(num(1)));
    assert_eq!(vm.depth(), 0);
}

#[test]
fn jump_if_false_takes_the_branch_on_false_only() {
    for (condition, expected) in [(true, 1), (false, 2)] {
        let chunk = program(vec![
            push(1, Value::Bool(condition)),
            Opcode::JumpIfFalse { addr: at(1), target: 4 },
            push(2, num(1)),
            Opcode::Jump { addr: at(2), target: 5 },
            push(3, num(2)),
        ]);
        let (r, mut vm, _, _) = run(&chunk);
        assert_eq!(r, Ok(()));
        assert_eq!(vm.pop(at(0)), Ok(num(expected)));
        assert_eq!(vm.depth(), 0);
    }
}

#[test]
fn jump_if_false_wants_a_boolean() {
    let chunk = program(vec![push(1, num(0)), Opcode::JumpIfFalse { addr: at(2), target: 0 }]);
    let (r, _, _, _) = run(&chunk);
    let e = fault(r);
    assert_eq!(e.kind, ErrorType::Type);
    assert_eq!(e.address, at(2));
    assert_eq!(e.message, "expected bool, found integer.");
}

#[test]
fn a_block_has_its_own_scope() {
    let chunk = program(vec![
        push(1, num(1)),
        define(1, "outer"),
        Opcode::Enter { addr: at(2) },
        push(3, num(2)),
        define(3, "inner"),
        load(4, "outer"),
        load(4, "inner"),
        bin(4, BinOp::Add),
        store(4, "outer"),
        Opcode::Leave { addr: at(5) },
        load(6, "inner"),
    ]);
    let (r, _, heap, frame) = run(&chunk);
    let e = fault(r);
    assert_eq!(e.address, at(6));
    assert_eq!(e.message, "not found: \"inner\"");
    assert_eq!(global(&heap, frame, "outer"), num(3));
}

#[test]
fn leave_without_a_block_is_malformed() {
    let (r, _, _, _) = run(&program(vec![Opcode::Leave { addr: at(4) }]));
    let e = fault(r);
    assert_eq!(e.kind, ErrorType::Runtime);
    assert_eq!(e.address, at(4));
    assert_eq!(e.message, "malformed chunk.");
}

#[test]
fn a_loop_runs_until_it_breaks() {
    let chunk = program(vec![
        push(1, num(0)),
        define(1, "i"),
        Opcode::Loop { addr: at(2), exit: 13 },
        load(3, "i"),
        push(3, num(3)),
        bin(3, BinOp::Lt),
        Opcode::JumpIfFalse { addr: at(3), target: 12 },
        load(4, "i"),
        push(4, num(1)),
        bin(4, BinOp::Add),
        store(4, "i"),
        Opcode::Continue { addr: at(5) },
        Opcode::Break { addr: at(6) },
    ]);
    let (r, vm, heap, frame) = run(&chunk);
    assert_eq!(r, Ok(()));
    assert_eq!(vm.depth(), 0);
    assert_eq!(global(&heap, frame, "i"), num(3));
}

#[test]
fn break_cuts_the_stack_and_leaves_open_blocks() {
    let chunk = program(vec![
        push(1, num(7)),
        Opcode::Loop { addr: at(2), exit: 6 },
        Opcode::Enter { addr: at(3) },
        push(3, num(8)),
        push(3, num(9)),
        Opcode::Break { addr: at(4) },
        define(5, "kept"),
    ]);
    let (r, vm, heap, frame) = run(&chunk);
    assert_eq!(r, Ok(()));
    assert_eq!(vm.depth(), 0);
    assert_eq!(global(&heap, frame, "kept"), num(7));
}

#[test]
fn a_bare_break_is_a_flow_leak() {
    let (r, _, _, _) = run(&program(vec![Opcode::Break { addr: at(3) }, push(4, num(1))]));
    let e = fault(r);
    assert_eq!(e.kind, ErrorType::Runtime);
    assert_eq!(e.address, at(3));
    assert_eq!(e.message, "flow leak.");
    assert_eq!(e.hint, "check your code.");
}

#[test]
fn a_bare_continue_is_a_flow_leak() {
    let (r, _, _, _) = run(&program(vec![Opcode::Continue { addr: at(3) }]));
    assert_eq!(fault(r).message, "flow leak.");
}

#[test]
fn a_bare_return_is_a_flow_leak() {
    let (r, _, _, _) = run(&program(vec![push(1, num(1)), Opcode::Return { addr: at(2) }]));
    let e = fault(r);
    assert_eq!(e.kind, ErrorType::Runtime);
    assert_eq!(e.address, at(2));
    assert_eq!(e.message, "flow leak.");
}

#[test]
fn a_return_inside_a_loop_outside_a_call_is_a_flow_leak() {
    let chunk = program(vec![
        Opcode::Loop { addr: at(1), exit: 4 },
        push(2, num(1)),
        Opcode::Return { addr: at(3) },
        Opcode::Break { addr: at(4) },
    ]);
    let (r, _, _, _) = run(&chunk);
    assert_eq!(fault(r).message, "flow leak.");
}

#[test]
fn a_break_inside_a_call_outside_a_loop_is_a_flow_leak() {
    let chunk = Chunk::new(
        vec![
            Opcode::Function { addr: at(1), proto: 0 },
            Opcode::Call { addr: at(2), argc: 0 },
            Opcode::Jump { addr: at(3), target: 4 },
            Opcode::Break { addr: at(4) },
        ],
        vec![function(&[], 3)],
        vec![],
    );
    let (r, _, _, _) = run(&chunk);
    let e = fault(r);
    assert_eq!(e.address, at(4));
    assert_eq!(e.message, "flow leak.");
}

#[test]
fn a_break_in_a_call_reaches_the_callers_loop() {
    let chunk = Chunk::new(
        vec![
            Opcode::Function { addr: at(1), proto: 0 },
            define(1, "stop"),
            Opcode::Loop { addr: at(2), exit: 6 },
            load(3, "stop"),
            Opcode::Call { addr: at(3), argc: 0 },
            Opcode::Continue { addr: at(4) },
            push(5, num(1)),
            define(5, "after"),
            Opcode::Jump { addr: at(5), target: 10 },
            Opcode::Break { addr: at(6) },
        ],
        vec![function(&[], 9)],
        vec![],
    );
    let (r, vm, heap, frame) = run(&chunk);
    assert_eq!(r, Ok(()));
    assert_eq!(vm.depth(), 0);
    assert_eq!(global(&heap, frame, "after"), num(1));
}

#[test]
fn a_call_binds_its_arguments_and_returns_a_value() {
    let chunk = Chunk::new(
        vec![
            Opcode::Function { addr: at(1), proto: 0 },
            define(1, "sub"),
            load(2, "sub"),
            push(2, num(10)),
            push(2, num(4)),
            Opcode::Call { addr: at(2), argc: 2 },
            define(2, "r"),
            Opcode::Jump { addr: at(2), target: 12 },
            load(3, "a"),
            load(3, "b"),
            bin(3, BinOp::Sub),
            Opcode::Return { addr: at(3) },
        ],
        vec![function(&["a", "b"], 8)],
        vec![],
    );
    let (r, vm, heap, frame) = run(&chunk);
    assert_eq!(r, Ok(()));
    assert_eq!(vm.depth(), 0);
    assert_eq!(global(&heap, frame, "r"), num(6));
    assert!(!frame.has(&heap, "a".to_string()));
}

#[test]
fn a_closure_sees_later_assignments() {
    let chunk = Chunk::new(
        vec![
            push(1, num(5)),
            define(1, "y"),
            Opcode::Function { addr: at(2), proto: 0 },
            define(2, "f"),
            push(3, num(9)),
            store(3, "y"),
            load(4, "f"),
            Opcode::Call { addr: at(4), argc: 0 },
            define(4, "r"),
            Opcode::Jump { addr: at(4), target: 12 },
            load(5, "y"),
            Opcode::Return { addr: at(5) },
        ],
        vec![function(&[], 10)],
        vec![],
    );
    let (r, _, heap, frame) = run(&chunk);
    assert_eq!(r, Ok(()));
    assert_eq!(global(&heap, frame, "r"), num(9));
}

#[test]
fn a_closure_keeps_its_frame_after_the_call_that_made_it() {
    // fun counter() { n = 0; fun next() { n = n + 1; return n }; return next }
    let chunk = Chunk::new(
        vec![
            Opcode::Function { addr: at(1), proto: 0 },
            Opcode::Call { addr: at(1), argc: 0 },
            define(1, "next"),
            load(2, "next"),
            Opcode::Call { addr: at(2), argc: 0 },
            Opcode::Pop { addr: at(2) },
            load(3, "next"),
            Opcode::Call { addr: at(3), argc: 0 },
            define(3, "r"),
            Opcode::Jump { addr: at(3), target: 21 },
            // counter
            push(4, num(0)),
            define(4, "n"),
            Opcode::Function { addr: at(5), proto: 1 },
            Opcode::Return { addr: at(5) },
            // next
            load(6, "n"),
            push(6, num(1)),
            bin(6, BinOp::Add),
            store(6, "n"),
            load(7, "n"),
            Opcode::Return { addr: at(7) },
            Opcode::Pop { addr: at(8) },
        ],
        vec![function(&[], 10), function(&[], 14)],
        vec![],
    );
    let (r, _, heap, frame) = run(&chunk);
    assert_eq!(r, Ok(()));
    assert_eq!(global(&heap, frame, "r"), num(2));
    assert!(!frame.has(&heap, "n".to_string()));
}

#[test]
fn a_call_with_the_wrong_number_of_arguments_is_refused() {
    let chunk = Chunk::new(
        vec![
            Opcode::Function { addr: at(1), proto: 0 },
            push(2, num(1)),
            Opcode::Call { addr: at(3), argc: 1 },
            Opcode::Jump { addr: at(4), target: 6 },
            load(5, "a"),
            Opcode::Return { addr: at(5) },
        ],
        vec![function(&["a", "b"], 4)],
        vec![],
    );
    let mut heap = Heap::new();
    let frame = Frame::new(&mut heap);
    let mut vm = Vm::new();
    let e = fault(vm.run(&chunk, frame, &mut heap));
    assert_eq!(e.kind, ErrorType::Argument);
    assert_eq!(e.address, at(3));
    assert_eq!(e.message, "wrong number of arguments.");
    // no frame was made for the call, so nothing was bound
    let next = Frame::new(&mut heap);
    let mut other = Heap::new();
    let _first = Frame::new(&mut other);
    let second = Frame::new(&mut other);
    assert_eq!(next, second);
}

#[test]
fn calling_what_is_no_function_is_a_type_fault() {
    let chunk = program(vec![push(1, num(1)), Opcode::Call { addr: at(2), argc: 0 }]);
    let (r, _, _, _) = run(&chunk);
    let e = fault(r);
    assert_eq!(e.kind, ErrorType::Type);
    assert_eq!(e.address, at(2));
    assert_eq!(e.message, "expected function, found integer.");
}

#[test]
fn a_function_that_the_chunk_does_not_hold_is_malformed() {
    let chunk = program(vec![
        Opcode::Function { addr: at(1), proto: 3 },
        Opcode::Call { addr: at(2), argc: 0 },
    ]);
    let (r, _, _, _) = run(&chunk);
    let e = fault(r);
    assert_eq!(e.address, at(2));
    assert_eq!(e.message, "malformed chunk.");
}

#[test]
fn a_parameter_named_twice_is_already_defined() {
    let chunk = Chunk::new(
        vec![
            Opcode::Function { addr: at(1), proto: 0 },
            push(2, num(1)),
            push(2, num(2)),
            Opcode::Call { addr: at(3), argc: 2 },
        ],
        vec![function(&["a", "a"], 4)],
        vec![],
    );
    let (r, _, _, _) = run(&chunk);
    let e = fault(r);
    assert_eq!(e.kind, ErrorType::Runtime);
    assert_eq!(e.address, at(3));
    assert_eq!(e.message, "already defined: \"a\"");
}

fn greeter() -> Chunk {
    // type T { fun hi(n) { return "Hi, " + n } }  t = new T()  result = t.hi("X")
    Chunk::new(
        vec![
            Opcode::Type { addr: at(1), def: 0 },
            define(1, "T"),
            load(2, "T"),
            Opcode::New { addr: at(2), argc: 0 },
            define(2, "t"),
            load(3, "t"),
            push(3, text("X")),
            Opcode::Invoke { addr: at(3), name: "hi".to_string(), argc: 1 },
            define(3, "result"),
            Opcode::Jump { addr: at(3), target: 14 },
            push(1, text("Hi, ")),
            load(1, "n"),
            bin(1, BinOp::Add),
            Opcode::Return { addr: at(1) },
        ],
        vec![function(&["n"], 10)],
        vec![
            TypeDef {
                name: "T".to_string(),
                methods: vec![Method { name: "hi".to_string(), proto: 0 }],
            },
        ],
    )
}

#[test]
fn a_method_call_ends_with_its_result() {
    let (r, vm, heap, frame) = run(&greeter());
    assert_eq!(r, Ok(()));
    assert_eq!(vm.depth(), 0);
    assert_eq!(global(&heap, frame, "result"), text("Hi, X"));
}

#[test]
fn an_unknown_method_is_not_found() {
    let mut chunk = greeter();
    chunk.code[7] = Opcode::Invoke { addr: at(3), name: "bye".to_string(), argc: 1 };
    let (r, _, _, _) = run(&chunk);
    let e = fault(r);
    assert_eq!(e.kind, ErrorType::Runtime);
    assert_eq!(e.address, at(3));
    assert_eq!(e.message, "not found: \"bye\"");
}

#[test]
fn a_method_call_checks_its_arity() {
    let mut chunk = greeter();
    chunk.code[7] = Opcode::Invoke { addr: at(3), name: "hi".to_string(), argc: 0 };
    chunk.code[6] = Opcode::Jump { addr: at(3), target: 7 };
    let (r, _, _, _) = run(&chunk);
    let e = fault(r);
    assert_eq!(e.kind, ErrorType::Argument);
    assert_eq!(e.address, at(3));
}

#[test]
fn invoking_on_what_is_no_instance_is_a_type_fault() {
    let chunk = program(vec![
        push(1, text("s")),
        Opcode::Invoke { addr: at(2), name: "hi".to_string(), argc: 0 },
    ]);
    let (r, _, _, _) = run(&chunk);
    let e = fault(r);
    assert_eq!(e.kind, ErrorType::Type);
    assert_eq!(e.message, "expected instance, found string.");
}

#[test]
fn new_wants_a_type() {
    let chunk = program(vec![push(1, Value::Nil), Opcode::New { addr: at(2), argc: 0 }]);
    let (r, _, _, _) = run(&chunk);
    let e = fault(r);
    assert_eq!(e.kind, ErrorType::Type);
    assert_eq!(e.message, "expected type, found nil.");
}

#[test]
fn new_without_init_takes_no_arguments() {
    let chunk = Chunk::new(
        vec![
            Opcode::Type { addr: at(1), def: 0 },
            push(1, num(1)),
            Opcode::New { addr: at(2), argc: 1 },
        ],
        vec![],
        vec![TypeDef { name: "T".to_string(), methods: vec![] }],
    );
    let (r, _, _, _) = run(&chunk);
    let e = fault(r);
    assert_eq!(e.kind, ErrorType::Argument);
    assert_eq!(e.address, at(2));
}

#[test]
fn instances_share_their_fields() {
    let chunk = Chunk::new(
        vec![
            Opcode::Type { addr: at(1), def: 0 },
            Opcode::New { addr: at(1), argc: 0 },
            define(1, "p"),
            load(2, "p"),
            define(2, "q"),
            load(3, "p"),
            push(3, num(1)),
            Opcode::SetField { addr: at(3), name: "x".to_string() },
            load(4, "q"),
            push(4, num(2)),
            Opcode::SetField { addr: at(4), name: "x".to_string() },
            load(5, "p"),
            Opcode::GetField { addr: at(5), name: "x".to_string() },
            define(5, "seen"),
        ],
        vec![],
        vec![TypeDef { name: "P".to_string(), methods: vec![] }],
    );
    let (r, _, heap, frame) = run(&chunk);
    assert_eq!(r, Ok(()));
    assert_eq!(global(&heap, frame, "seen"), num(2));
    assert!(!frame.has(&heap, "x".to_string()));
}

#[test]
fn two_instances_have_their_own_fields() {
    let chunk = Chunk::new(
        vec![
            Opcode::Type { addr: at(1), def: 0 },
            define(1, "P"),
            load(1, "P"),
            Opcode::New { addr: at(1), argc: 0 },
            define(1, "p"),
            load(2, "P"),
            Opcode::New { addr: at(2), argc: 0 },
            define(2, "q"),
            load(3, "p"),
            push(3, num(1)),
            Opcode::SetField { addr: at(3), name: "x".to_string() },
            load(4, "q"),
            Opcode::GetField { addr: at(4), name: "x".to_string() },
        ],
        vec![],
        vec![TypeDef { name: "P".to_string(), methods: vec![] }],
    );
    let (r, _, _, _) = run(&chunk);
    let e = fault(r);
    assert_eq!(e.address, at(4));
    assert_eq!(e.message, "not found: \"x\"");
}

fn counter() -> Chunk {
    // type C { fun init(start) { return nil }  fun bump() { n = n + 1  return n } }
    // c = new C(0)  c.n = 10  c.bump()  r = c.bump()
    Chunk::new(
        vec![
            Opcode::Type { addr: at(1), def: 0 },
            push(1, num(0)),
            Opcode::New { addr: at(1), argc: 1 },
            define(1, "c"),
            load(2, "c"),
            push(2, num(10)),
            Opcode::SetField { addr: at(2), name: "n".to_string() },
            load(3, "c"),
            Opcode::Invoke { addr: at(3), name: "bump".to_string(), argc: 0 },
            Opcode::Pop { addr: at(3) },
            load(4, "c"),
            Opcode::Invoke { addr: at(4), name: "bump".to_string(), argc: 0 },
            define(4, "r"),
            Opcode::Jump { addr: at(4), target: 22 },
            // init
            push(5, Value::Nil),
            Opcode::Return { addr: at(5) },
            // bump
            load(6, "n"),
            push(6, num(1)),
            bin(6, BinOp::Add),
            store(6, "n"),
            load(7, "n"),
            Opcode::Return { addr: at(7) },
        ],
        vec![function(&["start"], 14), function(&[], 16)],
        vec![
            TypeDef {
                name: "C".to_string(),
                methods: vec![
                    Method { name: "init".to_string(), proto: 0 },
                    Method { name: "bump".to_string(), proto: 1 },
                ],
            },
        ],
    )
}

#[test]
fn init_runs_and_the_instance_is_the_result() {
    let (r, vm, heap, frame) = run(&counter());
    assert_eq!(r, Ok(()));
    assert_eq!(vm.depth(), 0);
    assert!(matches!(global(&heap, frame, "c"), Value::Instance { def: 0, .. }));
}

#[test]
fn a_method_reads_and_writes_the_fields_of_its_instance() {
    let (r, _, heap, frame) = run(&counter());
    assert_eq!(r, Ok(()));
    assert_eq!(global(&heap, frame, "r"), num(12));
    assert!(!frame.has(&heap, "n".to_string()));
}

#[test]
fn init_checks_its_arity() {
    let mut chunk = counter();
    chunk.code[1] = Opcode::Jump { addr: at(1), target: 2 };
    chunk.code[2] = Opcode::New { addr: at(1), argc: 0 };
    let (r, _, _, _) = run(&chunk);
    let e = fault(r);
    assert_eq!(e.kind, ErrorType::Argument);
    assert_eq!(e.address, at(1));
}

#[test]
fn of_two_methods_of_one_name_the_first_counts() {
    let def = TypeDef {
        name: "T".to_string(),
        methods: vec![
            Method { name: "a".to_string(), proto: 4 },
            Method { name: "b".to_string(), proto: 5 },
            Method { name: "a".to_string(), proto: 6 },
        ],
    };
    assert_eq!(def.method(&"a".to_string()), Some(4));
    assert_eq!(def.method(&"b".to_string()), Some(5));
    assert_eq!(def.method(&"c".to_string()), None);
}

#[test]
fn the_budget_stops_an_endless_run() {
    let chunk = program(vec![Opcode::Jump { addr: at(6), target: 0 }]);
    let mut heap = Heap::new();
    let frame = Frame::new(&mut heap);
    let mut vm = Vm::with_budget(100);
    let e = fault(vm.run(&chunk, frame, &mut heap));
    assert_eq!(e.kind, ErrorType::Runtime);
    assert_eq!(e.address, at(6));
    assert_eq!(e.message, "step budget exhausted.");
}

#[test]
fn the_budget_counts_steps() {
    let chunk = program(vec![push(1, num(1)), push(2, num(2)), push(3, num(3))]);
    let mut heap = Heap::new();
    let frame = Frame::new(&mut heap);
    let mut vm = Vm::with_budget(3);
    assert_eq!(vm.run(&chunk, frame, &mut heap), Ok(()));
    let mut vm = Vm::with_budget(2);
    let e = fault(vm.run(&chunk, frame, &mut heap));
    assert_eq!(e.address, at(3));
    assert_eq!(vm.depth(), 2);
}

#[test]
fn step_runs_one_instruction() {
    let chunk = program(vec![push(1, num(1)), Opcode::Jump { addr: at(2), target: 7 }]);
    let mut heap = Heap::new();
    let frame = Frame::new(&mut heap);
    let mut vm = Vm::new();
    let next = vm.step(&chunk, &mut heap, Cursor { ip: 0, frame }).unwrap();
    assert_eq!(next, Cursor { ip: 1, frame });
    assert_eq!(vm.depth(), 1);
    let next = vm.step(&chunk, &mut heap, next).unwrap();
    assert_eq!(next, Cursor { ip: 7, frame });
}

#[test]
fn deliver_hands_a_fault_back() {
    let mut heap = Heap::new();
    let frame = Frame::new(&mut heap);
    let mut vm = Vm::new();
    let e = Error::new(ErrorType::Type, at(1), "m".to_string(), "h".to_string());
    let r = vm.deliver(&heap, Cursor { ip: 0, frame }, &at(2), ControlFlow::Error(e.clone()));
    assert_eq!(r, Err(ControlFlow::Error(e)));
}

#[test]
fn deliver_without_a_boundary_is_a_flow_leak() {
    let mut heap = Heap::new();
    let frame = Frame::new(&mut heap);
    for flow in [ControlFlow::Break, ControlFlow::Continue, ControlFlow::Return(num(1))] {
        let mut vm = Vm::new();
        match vm.deliver(&heap, Cursor { ip: 0, frame }, &at(2), flow) {
            Err(ControlFlow::Error(e)) => {
                assert_eq!(e.address, at(2));
                assert_eq!(e.message, "flow leak.");
            },
            other => panic!("expected a fault, got {:?}", other),
        }
    }
}

#[test]
fn break_leaves_the_inner_loop_only() {
    // n = 0; loop { loop { break }; n = n + 1; if !(n < 2) break; continue }
    let chunk = program(vec![
        push(1, num(0)),
        define(1, "n"),
        Opcode::Loop { addr: at(2), exit: 16 },
        Opcode::Loop { addr: at(3), exit: 5 },
        Opcode::Break { addr: at(3) },
        load(4, "n"),
        push(4, num(1)),
        bin(4, BinOp::Add),
        store(4, "n"),
        load(5, "n"),
        push(5, num(2)),
        bin(5, BinOp::Lt),
        Opcode::JumpIfFalse { addr: at(5), target: 15 },
        Opcode::Continue { addr: at(6) },
        Opcode::Pop { addr: at(6) },
        Opcode::Break { addr: at(7) },
    ]);
    let (r, vm, heap, frame) = run(&chunk);
    assert_eq!(r, Ok(()));
    assert_eq!(vm.depth(), 0);
    assert_eq!(global(&heap, frame, "n"), num(2));
}

#[test]
fn continue_goes_back_to_the_frame_of_the_loop() {
    // i = 0; loop { if !(i < 2) break; { i = i + 1; x = i; continue } }
    let chunk = program(vec![
        push(1, num(0)),
        define(1, "i"),
        Opcode::Loop { addr: at(2), exit: 16 },
        load(3, "i"),
        push(3, num(2)),
        bin(3, BinOp::Lt),
        Opcode::JumpIfFalse { addr: at(3), target: 15 },
        Opcode::Enter { addr: at(4) },
        load(4, "i"),
        push(4, num(1)),
        bin(4, BinOp::Add),
        store(4, "i"),
        load(5, "i"),
        define(5, "x"),
        Opcode::Continue { addr: at(6) },
        Opcode::Break { addr: at(7) },
    ]);
    let (r, vm, heap, frame) = run(&chunk);
    assert_eq!(r, Ok(()));
    assert_eq!(vm.depth(), 0);
    assert_eq!(global(&heap, frame, "i"), num(2));
    assert!(!frame.has(&heap, "x".to_string()));
}

#[test]
fn return_from_a_block_goes_back_to_the_caller() {
    // fun f() { { loop { return 1 } } }  r = f()  after = 2
    let chunk = Chunk::new(
        vec![
            Opcode::Function { addr: at(1), proto: 0 },
            Opcode::Call { addr: at(1), argc: 0 },
            define(1, "r"),
            push(2, num(2)),
            define(2, "after"),
            Opcode::Jump { addr: at(2), target: 10 },
            Opcode::Enter { addr: at(3) },
            Opcode::Loop { addr: at(3), exit: 10 },
            push(3, num(1)),
            Opcode::Return { addr: at(3) },
        ],
        vec![function(&[], 6)],
        vec![],
    );
    let (r, vm, heap, frame) = run(&chunk);
    assert_eq!(r, Ok(()));
    assert_eq!(vm.depth(), 0);
    assert_eq!(global(&heap, frame, "r"), num(1));
    assert_eq!(global(&heap, frame, "after"), num(2));
}

#[test]
fn return_cuts_the_stack_of_the_call() {
    // the callee leaves two values below its result
    let chunk = Chunk::new(
        vec![
            push(1, num(100)),
            Opcode::Function { addr: at(1), proto: 0 },
            Opcode::Call { addr: at(1), argc: 0 },
            Opcode::Jump { addr: at(1), target: 8 },
            push(2, num(1)),
            push(2, num(2)),
            push(2, num(3)),
            Opcode::Return { addr: at(2) },
        ],
        vec![function(&[], 4)],
        vec![],
    );
    let (r, mut vm, _, _) = run(&chunk);
    assert_eq!(r, Ok(()));
    assert_eq!(vm.depth(), 2);
    assert_eq!(vm.pop(at(0)), Ok(num(3)));
    assert_eq!(vm.pop(at(0)), Ok(num(100)));
}

#[test]
fn a_function_does_not_see_the_callers_locals() {
    // fun f() { return hidden }  fun g() { hidden = 1; return f() }  g()
    let chunk = Chunk::new(
        vec![
            Opcode::Function { addr: at(1), proto: 0 },
            define(1, "f"),
            Opcode::Function { addr: at(2), proto: 1 },
            Opcode::Call { addr: at(3), argc: 0 },
            Opcode::Jump { addr: at(3), target: 12 },
            // f
            load(4, "hidden"),
            Opcode::Return { addr: at(4) },
            // g
            push(5, num(1)),
            define(5, "hidden"),
            load(6, "f"),
            Opcode::Call { addr: at(6), argc: 0 },
            Opcode::Return { addr: at(6) },
        ],
        vec![function(&[], 5), function(&[], 7)],
        vec![],
    );
    let (r, _, _, _) = run(&chunk);
    let e = fault(r);
    assert_eq!(e.address, at(4));
    assert_eq!(e.message, "not found: \"hidden\"");
}

#[test]
fn run_starts_over_with_no_open_boundaries() {
    let looping = program(vec![Opcode::Loop { addr: at(1), exit: 9 }, push(1, num(1)), bin(2, BinOp::Add)]);
    let mut heap = Heap::new();
    let frame = Frame::new(&mut heap);
    let mut vm = Vm::new();
    assert!(vm.run(&looping, frame, &mut heap).is_err());
    let e = fault(vm.run(&program(vec![Opcode::Break { addr: at(5) }]), frame, &mut heap));
    assert_eq!(e.address, at(5));
    assert_eq!(e.message, "flow leak.");
}

#[test]
fn get_field_wants_an_instance() {
    let chunk = program(vec![push(1, num(1)), Opcode::GetField { addr: at(2), name: "x".to_string() }]);
    let (r, _, _, _) = run(&chunk);
    let e = fault(r);
    assert_eq!(e.kind, ErrorType::Type);
    assert_eq!(e.address, at(2));
    assert_eq!(e.message, "expected instance, found integer.");
}

#[test]
fn set_field_wants_an_instance() {
    let chunk = program(vec![
        push(1, Value::Bool(true)),
        push(1, num(1)),
        Opcode::SetField { addr: at(2), name: "x".to_string() },
    ]);
    let (r, vm, _, _) = run(&chunk);
    let e = fault(r);
    assert_eq!(e.kind, ErrorType::Type);
    assert_eq!(e.message, "expected instance, found bool.");
    assert_eq!(vm.depth(), 0);
}

#[test]
fn a_method_sees_its_closure_before_its_instance() {
    // x = 1; type T { fun get() { return x } }; t = new T(); t.x = 2; r = t.get()
    let chunk = Chunk::new(
        vec![
            push(1, num(1)),
            define(1, "x"),
            Opcode::Type { addr: at(2), def: 0 },
            Opcode::New { addr: at(2), argc: 0 },
            define(2, "t"),
            load(3, "t"),
            push(3, num(2)),
            Opcode::SetField { addr: at(3), name: "x".to_string() },
            load(4, "t"),
            Opcode::Invoke { addr: at(4), name: "get".to_string(), argc: 0 },
            define(4, "r"),
            Opcode::Jump { addr: at(4), target: 14 },
            load(5, "x"),
            Opcode::Return { addr: at(5) },
        ],
        vec![function(&[], 12)],
        vec![TypeDef { name: "T".to_string(), methods: vec![Method { name: "get".to_string(), proto: 0 }] }],
    );
    let (r, _, heap, frame) = run(&chunk);
    assert_eq!(r, Ok(()));
    assert_eq!(global(&heap, frame, "r"), num(1));
}
