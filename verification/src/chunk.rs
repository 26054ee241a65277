//! Compiled programs: the instructions, and the functions and types they
//! name.

use vstd::prelude::*;
use crate::address::Address;
use crate::operators::BinOp;
use crate::values::Value;

verus! {

/// One instruction. Each carries the place in the source it was compiled
/// from, which is where a fault that it raises is reported.
#[derive(Debug)]
pub enum Opcode {
    /// Pushes `value`.
    Push { addr: Address, value: Value },
    /// Drops the top of the stack.
    Pop { addr: Address },
    /// Pops the right operand, then the left, and pushes `left op right`.
    Bin { addr: Address, op: BinOp },
    /// Pops a value and binds `name` to it in the current frame.
    Define { addr: Address, name: String },
    /// Pushes what `name` means in the current frame.
    Load { addr: Address, name: String },
    /// Pops a value and assigns it to what `name` means in the current
    /// frame.
    Store { addr: Address, name: String },
    /// Goes on at `target`.
    Jump { addr: Address, target: usize },
    /// Pops a boolean and goes on at `target` where it is false.
    JumpIfFalse { addr: Address, target: usize },
    /// Enters a block: a new frame whose closure is the current one.
    Enter { addr: Address },
    /// Leaves the block entered last.
    Leave { addr: Address },
    /// Enters a loop whose body starts at the next instruction and which
    /// `Break` leaves for `exit`.
    Loop { addr: Address, exit: usize },
    /// Leaves the innermost loop.
    Break { addr: Address },
    /// Starts the body of the innermost loop again.
    Continue { addr: Address },
    /// Pushes the function `proto`, closed over the current frame.
    Function { addr: Address, proto: usize },
    /// Pops `argc` arguments, then a function, and calls it.
    Call { addr: Address, argc: usize },
    /// Pops a value and returns it from the innermost call.
    Return { addr: Address },
    /// Pushes the type `def`, closed over the current frame.
    Type { addr: Address, def: usize },
    /// Pops `argc` arguments, then a type, and pushes a new instance of it,
    /// after running the type's `init` method where it has one.
    New { addr: Address, argc: usize },
    /// Pops `argc` arguments, then an instance, and calls its method
    /// `name`.
    Invoke { addr: Address, name: String, argc: usize },
    /// Pops an instance and pushes what `name` means in its fields.
    GetField { addr: Address, name: String },
    /// Pops a value, then an instance, and binds `name` to the value in the
    /// instance's fields.
    SetField { addr: Address, name: String },
}

/// A function body: the names of its parameters and the index of its first
/// instruction.
#[derive(Debug)]
pub struct Prototype {
    pub params: Vec<String>,
    pub entry: usize,
}

/// A method of a type: its name and the function that is its body.
#[derive(Debug)]
pub struct Method {
    pub name: String,
    pub proto: usize,
}

/// A type descriptor: its name and its methods.
#[derive(Debug)]
pub struct TypeDef {
    pub name: String,
    pub methods: Vec<Method>,
}

/// A compiled program.
#[derive(Debug)]
pub struct Chunk {
    pub code: Vec<Opcode>,
    pub functions: Vec<Prototype>,
    pub types: Vec<TypeDef>,
}

/// `i` is the first method called `name`.
pub open spec fn names_method(methods: Seq<Method>, i: int, name: Seq<char>) -> bool {
    &&& 0 <= i < methods.len()
    &&& methods[i].name@ == name
    &&& forall|j: int| 0 <= j < i ==> methods[j].name@ != name
}

/// The body of the method called `name`, if there is one. Of two methods of
/// one name the first counts.
pub open spec fn method_of(methods: Seq<Method>, name: Seq<char>) -> Option<usize> {
    if exists|i: int| names_method(methods, i, name) {
        Some(methods[choose|i: int| names_method(methods, i, name)].proto)
    } else {
        None
    }
}

impl Opcode {
    /// The place in the source that this instruction was compiled from.
    pub open spec fn address(&self) -> Address {
        match *self {
            Opcode::Push { addr, .. } => addr,
            Opcode::Pop { addr } => addr,
            Opcode::Bin { addr, .. } => addr,
            Opcode::Define { addr, .. } => addr,
            Opcode::Load { addr, .. } => addr,
            Opcode::Store { addr, .. } => addr,
            Opcode::Jump { addr, .. } => addr,
            Opcode::JumpIfFalse { addr, .. } => addr,
            Opcode::Enter { addr } => addr,
            Opcode::Leave { addr } => addr,
            Opcode::Loop { addr, .. } => addr,
            Opcode::Break { addr } => addr,
            Opcode::Continue { addr } => addr,
            Opcode::Function { addr, .. } => addr,
            Opcode::Call { addr, .. } => addr,
            Opcode::Return { addr } => addr,
            Opcode::Type { addr, .. } => addr,
            Opcode::New { addr, .. } => addr,
            Opcode::Invoke { addr, .. } => addr,
            Opcode::GetField { addr, .. } => addr,
            Opcode::SetField { addr, .. } => addr,
        }
    }

    /// The place in the source that this instruction was compiled from.
    pub fn addr(&self) -> (r: &Address)
        ensures
            *r == self.address(),
    {
        match self {
            Opcode::Push { addr, .. } => addr,
            Opcode::Pop { addr } => addr,
            Opcode::Bin { addr, .. } => addr,
            Opcode::Define { addr, .. } => addr,
            Opcode::Load { addr, .. } => addr,
            Opcode::Store { addr, .. } => addr,
            Opcode::Jump { addr, .. } => addr,
            Opcode::JumpIfFalse { addr, .. } => addr,
            Opcode::Enter { addr } => addr,
            Opcode::Leave { addr } => addr,
            Opcode::Loop { addr, .. } => addr,
            Opcode::Break { addr } => addr,
            Opcode::Continue { addr } => addr,
            Opcode::Function { addr, .. } => addr,
            Opcode::Call { addr, .. } => addr,
            Opcode::Return { addr } => addr,
            Opcode::Type { addr, .. } => addr,
            Opcode::New { addr, .. } => addr,
            Opcode::Invoke { addr, .. } => addr,
            Opcode::GetField { addr, .. } => addr,
            Opcode::SetField { addr, .. } => addr,
        }
    }
}

impl TypeDef {
    /// The body of the method called `name`, if the type has one.
    pub fn method(&self, name: &String) -> (r: Option<usize>)
        ensures
            r == method_of(self.methods@, name@),
    {
        let mut i: usize = 0;
        while i < self.methods.len()
            invariant
                i <= self.methods.len(),
                forall|j: int| 0 <= j < i ==> self.methods[j].name@ != name@,
            decreases self.methods.len() - i,
        {
            if self.methods[i].name == *name {
                proof {
                    assert(names_method(self.methods@, i as int, name@));
                    let k = choose|k: int| names_method(self.methods@, k, name@);
                    assert(k == i);
                }
                return Some(self.methods[i].proto);
            }
            i += 1;
        }
        None
    }
}

impl Chunk {
    /// A program made of its instructions, functions and types.
    pub fn new(code: Vec<Opcode>, functions: Vec<Prototype>, types: Vec<TypeDef>) -> (r: Chunk)
        ensures
            r.code == code,
            r.functions == functions,
            r.types == types,
    {
        Chunk { code, functions, types }
    }
}

} // verus!
