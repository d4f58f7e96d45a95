//! The compiled artifact: an instruction sequence plus a constant pool.

use vstd::prelude::*;

use crate::errors::CompileError;
use crate::value::{spec_nat_digits, spec_value_text, Value};

verus! {

/// The constant pool holds at most this many entries: the operand of
/// `LoadConstant` is one byte wide, and exhausting the index space is a
/// `TooManyConstants` compile error, never a silent truncation.
pub const CONSTANT_POOL_LIMIT: usize = 256;

/// One instruction of the stack machine. `LoadConstant` carries its
/// constant-pool index; every other opcode takes its operands from the stack.
#[derive(Debug, Clone, Copy, PartialEq, Eq, Structural)]
pub enum OpCode {
    LoadConstant(u8),
    Negate,
    Not,
    Add,
    Subtract,
    Multiply,
    Divide,
    Equal,
    NotEqual,
    Less,
    LessEqual,
    Greater,
    GreaterEqual,
    Return,
}

/// The mathematical model of a [`Program`].
pub ghost struct ProgramModel {
    pub code: Seq<OpCode>,
    pub constants: Seq<Value>,
}

impl ProgramModel {
    /// Every `LoadConstant` operand is a valid index into the constant pool.
    /// The builder methods keep this invariant, so the virtual machine never
    /// re-validates an operand.
    pub open spec fn wf(self) -> bool {
        forall|i: int|
            0 <= i < self.code.len() ==> match #[trigger] self.code[i] {
                OpCode::LoadConstant(c) => (c as int) < self.constants.len(),
                _ => true,
            }
    }
}

/// A compiled program: an ordered instruction sequence plus its constant
/// pool. It is built once, through [`Program::emit`] and
/// [`Program::emit_constant`], and is immutable thereafter; executions only
/// read it.
#[derive(Debug)]
pub struct Program {
    pub code: Vec<OpCode>,
    pub constants: Vec<Value>,
}

impl View for Program {
    type V = ProgramModel;

    open spec fn view(&self) -> ProgramModel {
        ProgramModel { code: self.code@, constants: self.constants@ }
    }
}

impl Program {
    /// An empty program.
    pub fn new() -> (p: Program)
        ensures
            p@.code == Seq::<OpCode>::empty(),
            p@.constants == Seq::<Value>::empty(),
            p@.wf(),
    {
        Program { code: Vec::new(), constants: Vec::new() }
    }

    /// Appends one instruction. A `LoadConstant` may only be appended with an
    /// operand that the pool already covers.
    pub fn emit(&mut self, op: OpCode)
        requires
            match op {
                OpCode::LoadConstant(c) => (c as int) < old(self)@.constants.len(),
                _ => true,
            },
        ensures
            final (self)@.code == old(self)@.code.push(op),
            final (self)@.constants == old(self)@.constants,
            old(self)@.wf() ==> final (self)@.wf(),
    {
        self.code.push(op);
    }

    /// Appends a value to the constant pool and emits the `LoadConstant`
    /// instruction that references it, returning the new pool index. Fails
    /// with `TooManyConstants` when the pool is full.
    pub fn emit_constant(&mut self, v: Value) -> (r: Result<u8, CompileError>)
        ensures
            match r {
                Ok(i) => {
                    &&& i as int == old(self)@.constants.len()
                    &&& final (self)@.constants == old(self)@.constants.push(v)
                    &&& final (self)@.code == old(self)@.code.push(OpCode::LoadConstant(i))
                    &&& (old(self)@.wf() ==> final (self)@.wf())
                },
                Err(e) => {
                    &&& e == CompileError::TooManyConstants
                    &&& old(self)@.constants.len() >= CONSTANT_POOL_LIMIT
                    &&& *final (self) == *old(self)
                },
            },
    {
        if self.constants.len() >= CONSTANT_POOL_LIMIT {
            return Err(CompileError::TooManyConstants);
        }
        let i = self.constants.len() as u8;
        self.constants.push(v);
        self.code.push(OpCode::LoadConstant(i));
        Ok(i)
    }

    /// The deterministic textual disassembly of this program: one line per
    /// instruction, and for `LoadConstant` the operand and the resolved
    /// constant.
    pub fn disassemble(&self) -> (s: String)
        requires
            self@.wf(),
        ensures
            s@ == spec_disassembly(self@.code, self@.constants, 0),
    {
        let ghost code = self@.code;
        let ghost constants = self@.constants;
        let mut s = String::new();
        let mut i: usize = 0;
        while i < self.code.len()
            invariant
                self@.code == code,
                self@.constants == constants,
                self@.wf(),
                i <= code.len(),
                spec_disassembly(code, constants, 0) == s@ + spec_disassembly(
                    code,
                    constants,
                    i as int,
                ),
            decreases code.len() - i,
        {
            let ghost before = s@;
            match self.code[i] {
                OpCode::LoadConstant(c) => {
                    s.append("LoadConstant ");
                    let index_text = crate::value::int_to_string(c as i64);
                    s.append(index_text.as_str());
                    s.append(" : ");
                    let value_text = self.constants[c as usize].text();
                    s.append(value_text.as_str());
                },
                OpCode::Negate => s.append("Negate"),
                OpCode::Not => s.append("Not"),
                OpCode::Add => s.append("Add"),
                OpCode::Subtract => s.append("Subtract"),
                OpCode::Multiply => s.append("Multiply"),
                OpCode::Divide => s.append("Divide"),
                OpCode::Equal => s.append("Equal"),
                OpCode::NotEqual => s.append("NotEqual"),
                OpCode::Less => s.append("Less"),
                OpCode::LessEqual => s.append("LessEqual"),
                OpCode::Greater => s.append("Greater"),
                OpCode::GreaterEqual => s.append("GreaterEqual"),
                OpCode::Return => s.append("Return"),
            }
            s.append("\n");
            proof {
                assert(s@ =~= before + spec_disasm_line(code[i as int], constants) + "\n"@);
                assert(before + (spec_disasm_line(code[i as int], constants) + "\n"@
                    + spec_disassembly(code, constants, i as int + 1)) =~= (before
                    + spec_disasm_line(code[i as int], constants) + "\n"@) + spec_disassembly(
                    code,
                    constants,
                    i as int + 1,
                ));
            }
            i += 1;
        }
        proof {
            assert(s@ + spec_disassembly(code, constants, i as int) =~= s@);
        }
        s
    }
}

/// One disassembly line, without its newline.
pub open spec fn spec_disasm_line(op: OpCode, constants: Seq<Value>) -> Seq<char> {
    match op {
        OpCode::LoadConstant(c) => "LoadConstant "@ + spec_nat_digits(c as int) + " : "@
            + spec_value_text(constants[c as int]),
        OpCode::Negate => "Negate"@,
        OpCode::Not => "Not"@,
        OpCode::Add => "Add"@,
        OpCode::Subtract => "Subtract"@,
        OpCode::Multiply => "Multiply"@,
        OpCode::Divide => "Divide"@,
        OpCode::Equal => "Equal"@,
        OpCode::NotEqual => "NotEqual"@,
        OpCode::Less => "Less"@,
        OpCode::LessEqual => "LessEqual"@,
        OpCode::Greater => "Greater"@,
        OpCode::GreaterEqual => "GreaterEqual"@,
        OpCode::Return => "Return"@,
    }
}

/// The disassembly of the instructions from `i` on: one line each, newline
/// terminated.
pub open spec fn spec_disassembly(code: Seq<OpCode>, constants: Seq<Value>, i: int) -> Seq<char>
    decreases code.len() - i,
{
    if i < 0 || i >= code.len() {
        Seq::empty()
    } else {
        spec_disasm_line(code[i], constants) + "\n"@ + spec_disassembly(
            code,
            constants,
            i + 1,
        )
    }
}

} // verus!
