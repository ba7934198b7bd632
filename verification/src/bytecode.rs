//! Bytecode instruction set of the virtual machine.

use vstd::prelude::*;

verus! {

/// A bytecode instruction.
#[derive(Debug, Clone, Copy, PartialEq, Eq, Structural)]
pub enum OpCode {
    // Constants
    Constant,
    Null,
    True,
    False,
    // Variables
    GetGlobal,
    SetGlobal,
    GetLocal,
    SetLocal,
    // Control flow
    Jump,
    JumpIfFalse,
    JumpIfTrue,
    Loop,
    // Functions
    Call,
    Return,
    // Operations
    Add,
    Subtract,
    Multiply,
    Divide,
    Modulo,
    Negate,
    Array,
    // Comparison
    Equal,
    NotEqual,
    Less,
    LessEqual,
    Greater,
    GreaterEqual,
    // Logical
    Not,
    And,
    Or,
    // Stack
    Pop,
    // Modules
    Import,
    GetModule,
}

/// A value the compiler puts among a chunk's constants. A number is held as its
/// text; the virtual machine reads it when it loads the chunk.
#[derive(Debug)]
pub enum Value {
    Number(String),
    String(String),
    Boolean(bool),
    Null,
    Function(Function),
    Array(Vec<Value>),
}

/// A compiled function.
#[derive(Debug)]
pub struct Function {
    pub name: String,
    pub arity: usize,
    pub chunk: Chunk,
}

/// Bytecode with its constants and, for each byte, the source line it came from.
#[derive(Debug)]
pub struct Chunk {
    pub code: Vec<u8>,
    pub constants: Vec<Value>,
    pub lines: Vec<usize>,
}

/// A value as a mathematical value.
pub enum ValueSpec {
    Number(Seq<char>),
    String(Seq<char>),
    Boolean(bool),
    Null,
    Function(Seq<char>, nat, ChunkSpec),
    Array(Seq<ValueSpec>),
}

/// A chunk as mathematical values.
pub struct ChunkSpec {
    pub code: Seq<u8>,
    pub constants: Seq<ValueSpec>,
    pub lines: Seq<usize>,
}

pub open spec fn value_view(v: Value) -> ValueSpec
    decreases v, 0int,
{
    match v {
        Value::Number(t) => ValueSpec::Number(t@),
        Value::String(t) => ValueSpec::String(t@),
        Value::Boolean(b) => ValueSpec::Boolean(b),
        Value::Null => ValueSpec::Null,
        Value::Function(f) => ValueSpec::Function(
            f.name@,
            f.arity as nat,
            ChunkSpec {
                code: f.chunk.code@,
                constants: values_view(f.chunk.constants@),
                lines: f.chunk.lines@,
            },
        ),
        Value::Array(vs) => ValueSpec::Array(values_view(vs@)),
    }
}

pub open spec fn values_view(vs: Seq<Value>) -> Seq<ValueSpec>
    decreases vs, 0int,
{
    if vs.len() == 0 {
        Seq::empty()
    } else {
        values_view(vs.drop_last()).push(value_view(vs.last()))
    }
}

pub proof fn lemma_values_view_len(vs: Seq<Value>)
    ensures
        values_view(vs).len() == vs.len(),
    decreases vs.len(),
{
    if vs.len() > 0 {
        lemma_values_view_len(vs.drop_last());
    }
}

/// Each value's view stands at its position.
pub proof fn lemma_values_view_index(vs: Seq<Value>, k: int)
    requires
        0 <= k < vs.len(),
    ensures
        values_view(vs)[k] == value_view(vs[k]),
    decreases vs.len(),
{
    lemma_values_view_len(vs.drop_last());
    if k < vs.len() - 1 {
        lemma_values_view_index(vs.drop_last(), k);
    }
}

impl Chunk {
    pub open spec fn view_chunk(&self) -> ChunkSpec {
        ChunkSpec { code: self.code@, constants: values_view(self.constants@), lines: self.lines@ }
    }

    pub fn new() -> (r: Self)
        ensures
            r.view_chunk() == (ChunkSpec { code: Seq::empty(), constants: Seq::empty(), lines: Seq::empty() }),
    {
        let r = Chunk { code: Vec::new(), constants: Vec::new(), lines: Vec::new() };
        assert(values_view(r.constants@) =~= Seq::empty());
        r
    }

    /// Appends a byte and the line it came from.
    pub fn write(&mut self, byte: u8, line: usize)
        ensures
            final(self).code@ == old(self).code@.push(byte),
            final(self).lines@ == old(self).lines@.push(line),
            final(self).constants@ == old(self).constants@,
    {
        self.code.push(byte);
        self.lines.push(line);
    }

    /// Appends a constant and gives its index.
    pub fn add_constant(&mut self, value: Value) -> (r: usize)
        ensures
            values_view(final(self).constants@) == values_view(old(self).constants@).push(value_view(value)),
            final(self).code@ == old(self).code@,
            final(self).lines@ == old(self).lines@,
            r == old(self).constants@.len(),
    {
        let ghost before = self.constants@;
        self.constants.push(value);
        assert(self.constants@.drop_last() =~= before);
        self.constants.len() - 1
    }
}

/// The byte that encodes an instruction.
pub open spec fn opcode_byte(op: OpCode) -> u8 {
    match op {
        OpCode::Constant => 0,
        OpCode::Null => 1,
        OpCode::True => 2,
        OpCode::False => 3,
        OpCode::GetGlobal => 4,
        OpCode::SetGlobal => 5,
        OpCode::GetLocal => 6,
        OpCode::SetLocal => 7,
        OpCode::Jump => 8,
        OpCode::JumpIfFalse => 9,
        OpCode::JumpIfTrue => 10,
        OpCode::Loop => 11,
        OpCode::Call => 12,
        OpCode::Return => 13,
        OpCode::Add => 14,
        OpCode::Subtract => 15,
        OpCode::Multiply => 16,
        OpCode::Divide => 17,
        OpCode::Modulo => 18,
        OpCode::Negate => 19,
        OpCode::Array => 20,
        OpCode::Equal => 21,
        OpCode::NotEqual => 22,
        OpCode::Less => 23,
        OpCode::LessEqual => 24,
        OpCode::Greater => 25,
        OpCode::GreaterEqual => 26,
        OpCode::Not => 27,
        OpCode::And => 28,
        OpCode::Or => 29,
        OpCode::Pop => 30,
        OpCode::Import => 31,
        OpCode::GetModule => 32,
    }
}

/// The name of an instruction, as `{:?}` writes it.
pub open spec fn opcode_name(op: OpCode) -> Seq<char> {
    match op {
        OpCode::Constant => "Constant"@,
        OpCode::Null => "Null"@,
        OpCode::True => "True"@,
        OpCode::False => "False"@,
        OpCode::GetGlobal => "GetGlobal"@,
        OpCode::SetGlobal => "SetGlobal"@,
        OpCode::GetLocal => "GetLocal"@,
        OpCode::SetLocal => "SetLocal"@,
        OpCode::Jump => "Jump"@,
        OpCode::JumpIfFalse => "JumpIfFalse"@,
        OpCode::JumpIfTrue => "JumpIfTrue"@,
        OpCode::Loop => "Loop"@,
        OpCode::Call => "Call"@,
        OpCode::Return => "Return"@,
        OpCode::Add => "Add"@,
        OpCode::Subtract => "Subtract"@,
        OpCode::Multiply => "Multiply"@,
        OpCode::Divide => "Divide"@,
        OpCode::Modulo => "Modulo"@,
        OpCode::Negate => "Negate"@,
        OpCode::Array => "Array"@,
        OpCode::Equal => "Equal"@,
        OpCode::NotEqual => "NotEqual"@,
        OpCode::Less => "Less"@,
        OpCode::LessEqual => "LessEqual"@,
        OpCode::Greater => "Greater"@,
        OpCode::GreaterEqual => "GreaterEqual"@,
        OpCode::Not => "Not"@,
        OpCode::And => "And"@,
        OpCode::Or => "Or"@,
        OpCode::Pop => "Pop"@,
        OpCode::Import => "Import"@,
        OpCode::GetModule => "GetModule"@,
    }
}

/// The instruction a byte encodes, if any.
pub open spec fn opcode_of_byte(b: u8) -> Option<OpCode> {
    match b {
        0 => Some(OpCode::Constant),
        1 => Some(OpCode::Null),
        2 => Some(OpCode::True),
        3 => Some(OpCode::False),
        4 => Some(OpCode::GetGlobal),
        5 => Some(OpCode::SetGlobal),
        6 => Some(OpCode::GetLocal),
        7 => Some(OpCode::SetLocal),
        8 => Some(OpCode::Jump),
        9 => Some(OpCode::JumpIfFalse),
        10 => Some(OpCode::JumpIfTrue),
        11 => Some(OpCode::Loop),
        12 => Some(OpCode::Call),
        13 => Some(OpCode::Return),
        14 => Some(OpCode::Add),
        15 => Some(OpCode::Subtract),
        16 => Some(OpCode::Multiply),
        17 => Some(OpCode::Divide),
        18 => Some(OpCode::Modulo),
        19 => Some(OpCode::Negate),
        20 => Some(OpCode::Array),
        21 => Some(OpCode::Equal),
        22 => Some(OpCode::NotEqual),
        23 => Some(OpCode::Less),
        24 => Some(OpCode::LessEqual),
        25 => Some(OpCode::Greater),
        26 => Some(OpCode::GreaterEqual),
        27 => Some(OpCode::Not),
        28 => Some(OpCode::And),
        29 => Some(OpCode::Or),
        30 => Some(OpCode::Pop),
        31 => Some(OpCode::Import),
        32 => Some(OpCode::GetModule),
        _ => None,
    }
}

impl OpCode {
    /// The name of this instruction, as `{:?}` writes it.
    pub fn name(self) -> (r: &'static str)
        ensures
            r@ == opcode_name(self),
    {
        match self {
            OpCode::Constant => "Constant",
            OpCode::Null => "Null",
            OpCode::True => "True",
            OpCode::False => "False",
            OpCode::GetGlobal => "GetGlobal",
            OpCode::SetGlobal => "SetGlobal",
            OpCode::GetLocal => "GetLocal",
            OpCode::SetLocal => "SetLocal",
            OpCode::Jump => "Jump",
            OpCode::JumpIfFalse => "JumpIfFalse",
            OpCode::JumpIfTrue => "JumpIfTrue",
            OpCode::Loop => "Loop",
            OpCode::Call => "Call",
            OpCode::Return => "Return",
            OpCode::Add => "Add",
            OpCode::Subtract => "Subtract",
            OpCode::Multiply => "Multiply",
            OpCode::Divide => "Divide",
            OpCode::Modulo => "Modulo",
            OpCode::Negate => "Negate",
            OpCode::Array => "Array",
            OpCode::Equal => "Equal",
            OpCode::NotEqual => "NotEqual",
            OpCode::Less => "Less",
            OpCode::LessEqual => "LessEqual",
            OpCode::Greater => "Greater",
            OpCode::GreaterEqual => "GreaterEqual",
            OpCode::Not => "Not",
            OpCode::And => "And",
            OpCode::Or => "Or",
            OpCode::Pop => "Pop",
            OpCode::Import => "Import",
            OpCode::GetModule => "GetModule",
        }
    }

    /// The byte that encodes this instruction.
    pub fn to_byte(self) -> (r: u8)
        ensures
            r == opcode_byte(self),
    {
        match self {
            OpCode::Constant => 0,
            OpCode::Null => 1,
            OpCode::True => 2,
            OpCode::False => 3,
            OpCode::GetGlobal => 4,
            OpCode::SetGlobal => 5,
            OpCode::GetLocal => 6,
            OpCode::SetLocal => 7,
            OpCode::Jump => 8,
            OpCode::JumpIfFalse => 9,
            OpCode::JumpIfTrue => 10,
            OpCode::Loop => 11,
            OpCode::Call => 12,
            OpCode::Return => 13,
            OpCode::Add => 14,
            OpCode::Subtract => 15,
            OpCode::Multiply => 16,
            OpCode::Divide => 17,
            OpCode::Modulo => 18,
            OpCode::Negate => 19,
            OpCode::Array => 20,
            OpCode::Equal => 21,
            OpCode::NotEqual => 22,
            OpCode::Less => 23,
            OpCode::LessEqual => 24,
            OpCode::Greater => 25,
            OpCode::GreaterEqual => 26,
            OpCode::Not => 27,
            OpCode::And => 28,
            OpCode::Or => 29,
            OpCode::Pop => 30,
            OpCode::Import => 31,
            OpCode::GetModule => 32,
        }
    }

    /// The instruction a byte encodes, or `None` for bytes outside the instruction set.
    pub fn from_byte(byte: u8) -> (r: Option<OpCode>)
        ensures
            r == opcode_of_byte(byte),
    {
        match byte {
            0 => Some(OpCode::Constant),
            1 => Some(OpCode::Null),
            2 => Some(OpCode::True),
            3 => Some(OpCode::False),
            4 => Some(OpCode::GetGlobal),
            5 => Some(OpCode::SetGlobal),
            6 => Some(OpCode::GetLocal),
            7 => Some(OpCode::SetLocal),
            8 => Some(OpCode::Jump),
            9 => Some(OpCode::JumpIfFalse),
            10 => Some(OpCode::JumpIfTrue),
            11 => Some(OpCode::Loop),
            12 => Some(OpCode::Call),
            13 => Some(OpCode::Return),
            14 => Some(OpCode::Add),
            15 => Some(OpCode::Subtract),
            16 => Some(OpCode::Multiply),
            17 => Some(OpCode::Divide),
            18 => Some(OpCode::Modulo),
            19 => Some(OpCode::Negate),
            20 => Some(OpCode::Array),
            21 => Some(OpCode::Equal),
            22 => Some(OpCode::NotEqual),
            23 => Some(OpCode::Less),
            24 => Some(OpCode::LessEqual),
            25 => Some(OpCode::Greater),
            26 => Some(OpCode::GreaterEqual),
            27 => Some(OpCode::Not),
            28 => Some(OpCode::And),
            29 => Some(OpCode::Or),
            30 => Some(OpCode::Pop),
            31 => Some(OpCode::Import),
            32 => Some(OpCode::GetModule),
            _ => None,
        }
    }
}

/// Decoding the byte of an instruction gives the instruction back.
pub proof fn law_opcode_roundtrip(op: OpCode)
    ensures
        opcode_of_byte(opcode_byte(op)) == Some(op),
{
}

/// A byte decodes to an instruction exactly when it is below 33, and then encoding
/// that instruction gives the byte back.
pub proof fn law_opcode_byte_roundtrip(b: u8)
    ensures
        opcode_of_byte(b) is Some <==> b < 33,
        opcode_of_byte(b) matches Some(op) ==> opcode_byte(op) == b,
{
}

/// Distinct instructions have distinct bytes.
pub proof fn law_opcode_byte_injective(a: OpCode, b: OpCode)
    ensures
        opcode_byte(a) == opcode_byte(b) ==> a == b,
{
    law_opcode_roundtrip(a);
    law_opcode_roundtrip(b);
}

/// The name the disassembler prints for an instruction.
pub open spec fn mnemonic_of(op: OpCode) -> Seq<char> {
    match op {
        OpCode::Constant => "CONSTANT"@,
        OpCode::Null => "NULL"@,
        OpCode::True => "TRUE"@,
        OpCode::False => "FALSE"@,
        OpCode::GetGlobal => "GET_GLOBAL"@,
        OpCode::SetGlobal => "SET_GLOBAL"@,
        OpCode::GetLocal => "GET_LOCAL"@,
        OpCode::SetLocal => "SET_LOCAL"@,
        OpCode::Jump => "JUMP"@,
        OpCode::JumpIfFalse => "JUMP_IF_FALSE"@,
        OpCode::JumpIfTrue => "JUMP_IF_TRUE"@,
        OpCode::Loop => "LOOP"@,
        OpCode::Call => "CALL"@,
        OpCode::Return => "RETURN"@,
        OpCode::Add => "ADD"@,
        OpCode::Subtract => "SUBTRACT"@,
        OpCode::Multiply => "MULTIPLY"@,
        OpCode::Divide => "DIVIDE"@,
        OpCode::Modulo => "MODULO"@,
        OpCode::Negate => "NEGATE"@,
        OpCode::Array => "ARRAY"@,
        OpCode::Equal => "EQUAL"@,
        OpCode::NotEqual => "NOT_EQUAL"@,
        OpCode::Less => "LESS"@,
        OpCode::LessEqual => "LESS_EQUAL"@,
        OpCode::Greater => "GREATER"@,
        OpCode::GreaterEqual => "GREATER_EQUAL"@,
        OpCode::Not => "NOT"@,
        OpCode::And => "AND"@,
        OpCode::Or => "OR"@,
        OpCode::Pop => "POP"@,
        OpCode::Import => "IMPORT"@,
        OpCode::GetModule => "GET_MODULE"@,
    }
}

/// The instructions whose operand is an index into the chunk's constants.
pub open spec fn takes_constant(op: OpCode) -> bool {
    op == OpCode::Constant || op == OpCode::GetGlobal || op == OpCode::SetGlobal || op == OpCode::Import
        || op == OpCode::GetModule
}

/// The instructions whose operand is a plain byte (a slot or a count).
pub open spec fn takes_byte(op: OpCode) -> bool {
    op == OpCode::GetLocal || op == OpCode::SetLocal || op == OpCode::Call || op == OpCode::Array
}

/// The instructions followed by a two-byte jump distance.
pub open spec fn takes_jump(op: OpCode) -> bool {
    op == OpCode::Jump || op == OpCode::JumpIfFalse || op == OpCode::JumpIfTrue || op == OpCode::Loop
}

/// An instruction as the disassembler decodes it.
#[derive(Debug, Clone, Copy, PartialEq, Eq, Structural)]
pub enum Decoded {
    /// An instruction without operand.
    Simple(OpCode),
    /// An instruction and the index of the constant it names.
    Constant(OpCode, u8),
    /// An instruction and its byte operand.
    Byte(OpCode, u8),
    /// A jump and the offset it leads to.
    Jump(OpCode, i16),
    /// A byte that encodes no instruction.
    Unknown(u8),
}

/// One line of a disassembly: where the instruction starts, its source line (`None`
/// where it is the line of the byte before), and the instruction.
#[derive(Debug, Clone, Copy, PartialEq, Eq, Structural)]
pub struct DisassembledInstruction {
    pub offset: usize,
    pub line: Option<usize>,
    pub instruction: Decoded,
}

/// An offset as the disassembler reads it, truncated to 16 bits with a sign.
pub open spec fn signed16(v: int) -> int {
    let m = v % 65536;
    if m >= 32768 {
        m - 65536
    } else {
        m
    }
}

/// Whether a jump target can be computed in 16 bits: `offset + sign * distance`, with
/// both offset and distance read as signed 16-bit numbers.
pub open spec fn jump_in_range(op: OpCode, offset: int, hi: u8, lo: u8) -> bool {
    let o = signed16(offset);
    let d = signed16(hi * 256 + lo);
    if op == OpCode::Loop {
        d != -32768 && -32768 <= o - d <= 32767
    } else {
        -32768 <= o + d <= 32767
    }
}

/// The target of a jump.
pub open spec fn jump_target(op: OpCode, offset: int, hi: u8, lo: u8) -> int {
    let o = signed16(offset);
    let d = signed16(hi * 256 + lo);
    if op == OpCode::Loop {
        o - d
    } else {
        o + d
    }
}

/// How many bytes the instruction at `offset` takes.
pub open spec fn instruction_width(code: Seq<u8>, offset: int) -> int {
    match opcode_of_byte(code[offset]) {
        Some(op) => if takes_constant(op) || takes_byte(op) {
            2
        } else if takes_jump(op) {
            3
        } else {
            1
        },
        None => 1,
    }
}

/// Whether the instruction at `offset` can be disassembled: its line and the line
/// before are recorded, its operands are in the code, a constant it names exists,
/// and a jump's target fits in 16 bits.
pub open spec fn instruction_ok(c: ChunkSpec, offset: int) -> bool {
    &&& offset < c.lines.len()
    &&& offset + instruction_width(c.code, offset) <= c.code.len()
    &&& match opcode_of_byte(c.code[offset]) {
        Some(op) => (takes_constant(op) ==> c.code[offset + 1] < c.constants.len()) && (takes_jump(op)
            ==> jump_in_range(op, offset, c.code[offset + 1], c.code[offset + 2])),
        None => true,
    }
}

/// The instruction at `offset`, decoded.
pub open spec fn decode(c: ChunkSpec, offset: int) -> Decoded {
    let b = c.code[offset];
    match opcode_of_byte(b) {
        Some(op) => if takes_constant(op) {
            Decoded::Constant(op, c.code[offset + 1])
        } else if takes_byte(op) {
            Decoded::Byte(op, c.code[offset + 1])
        } else if takes_jump(op) {
            Decoded::Jump(op, jump_target(op, offset, c.code[offset + 1], c.code[offset + 2]) as i16)
        } else {
            Decoded::Simple(op)
        },
        None => Decoded::Unknown(b),
    }
}

/// The disassembly line of the instruction at `offset`.
pub open spec fn entry(c: ChunkSpec, offset: int) -> DisassembledInstruction {
    DisassembledInstruction {
        offset: offset as usize,
        line: if offset > 0 && c.lines[offset] == c.lines[offset - 1] {
            None
        } else {
            Some(c.lines[offset])
        },
        instruction: decode(c, offset),
    }
}

/// An instruction takes one to three bytes.
pub proof fn lemma_width_positive(code: Seq<u8>, offset: int)
    ensures
        1 <= instruction_width(code, offset) <= 3,
{
}

/// Whether every instruction from `offset` on can be disassembled.
pub open spec fn disassembles_from(c: ChunkSpec, offset: int) -> bool
    decreases c.code.len() - offset,
{
    if offset < 0 || offset >= c.code.len() {
        true
    } else {
        proof {
            lemma_width_positive(c.code, offset);
        }
        instruction_ok(c, offset) && disassembles_from(c, offset + instruction_width(c.code, offset))
    }
}

/// The disassembly of the instructions from `offset` on.
pub open spec fn disassembly_from(c: ChunkSpec, offset: int) -> Seq<DisassembledInstruction>
    decreases c.code.len() - offset,
{
    if offset < 0 || offset >= c.code.len() {
        Seq::empty()
    } else {
        proof {
            lemma_width_positive(c.code, offset);
        }
        let next = offset + instruction_width(c.code, offset);
        if next > c.code.len() {
            seq![entry(c, offset)]
        } else {
            seq![entry(c, offset)] + disassembly_from(c, next)
        }
    }
}

impl OpCode {
    /// The name the disassembler prints for this instruction.
    pub fn mnemonic(self) -> (r: &'static str)
        ensures
            r@ == mnemonic_of(self),
    {
        match self {
            OpCode::Constant => "CONSTANT",
            OpCode::Null => "NULL",
            OpCode::True => "TRUE",
            OpCode::False => "FALSE",
            OpCode::GetGlobal => "GET_GLOBAL",
            OpCode::SetGlobal => "SET_GLOBAL",
            OpCode::GetLocal => "GET_LOCAL",
            OpCode::SetLocal => "SET_LOCAL",
            OpCode::Jump => "JUMP",
            OpCode::JumpIfFalse => "JUMP_IF_FALSE",
            OpCode::JumpIfTrue => "JUMP_IF_TRUE",
            OpCode::Loop => "LOOP",
            OpCode::Call => "CALL",
            OpCode::Return => "RETURN",
            OpCode::Add => "ADD",
            OpCode::Subtract => "SUBTRACT",
            OpCode::Multiply => "MULTIPLY",
            OpCode::Divide => "DIVIDE",
            OpCode::Modulo => "MODULO",
            OpCode::Negate => "NEGATE",
            OpCode::Array => "ARRAY",
            OpCode::Equal => "EQUAL",
            OpCode::NotEqual => "NOT_EQUAL",
            OpCode::Less => "LESS",
            OpCode::LessEqual => "LESS_EQUAL",
            OpCode::Greater => "GREATER",
            OpCode::GreaterEqual => "GREATER_EQUAL",
            OpCode::Not => "NOT",
            OpCode::And => "AND",
            OpCode::Or => "OR",
            OpCode::Pop => "POP",
            OpCode::Import => "IMPORT",
            OpCode::GetModule => "GET_MODULE",
        }
    }
}

/// A number of at most 16 bits read with a sign, as `as i16` reads it.
fn to_signed16(v: usize) -> (r: i32)
    ensures
        r == signed16(v as int),
{
    let m = v % 65536;
    if m >= 32768 {
        (m as i32) - 65536
    } else {
        m as i32
    }
}

impl Chunk {
    /// Whether `disassemble` can list this chunk: see `instruction_ok`.
    pub fn can_disassemble(&self) -> (r: bool)
        ensures
            r == disassembles_from(self.view_chunk(), 0),
    {
        proof {
            lemma_values_view_len(self.constants@);
        }
        let n = self.code.len();
        let mut offset: usize = 0;
        while offset < n
            invariant
                n == self.code@.len(),
                self.view_chunk().constants.len() == self.constants@.len(),
                offset <= n,
                disassembles_from(self.view_chunk(), 0) == disassembles_from(self.view_chunk(), offset as int),
            decreases n - offset,
        {
            if !self.instruction_ok(offset) {
                return false;
            }
            offset = offset + self.instruction_width(offset);
        }
        true
    }

    fn instruction_width(&self, offset: usize) -> (r: usize)
        requires
            offset < self.code@.len(),
        ensures
            r == instruction_width(self.code@, offset as int),
    {
        match OpCode::from_byte(self.code[offset]) {
            Some(op) => {
                if self.takes_operand_byte(op) {
                    2
                } else if is_jump_op(op) {
                    3
                } else {
                    1
                }
            },
            None => 1,
        }
    }

    fn takes_operand_byte(&self, op: OpCode) -> (r: bool)
        ensures
            r == (takes_constant(op) || takes_byte(op)),
    {
        is_constant_op(op) || op == OpCode::GetLocal || op == OpCode::SetLocal || op == OpCode::Call
            || op == OpCode::Array
    }

    fn instruction_ok(&self, offset: usize) -> (r: bool)
        requires
            offset < self.code@.len(),
            self.view_chunk().constants.len() == self.constants@.len(),
        ensures
            r == instruction_ok(self.view_chunk(), offset as int),
    {
        if offset >= self.lines.len() {
            return false;
        }
        let w = self.instruction_width(offset);
        if w > self.code.len() - offset {
            return false;
        }
        match OpCode::from_byte(self.code[offset]) {
            Some(op) => {
                if is_constant_op(op) && self.code[offset + 1] as usize >= self.constants.len() {
                    return false;
                }
                if is_jump_op(op) {
                    let o = to_signed16(offset);
                    let d = to_signed16((self.code[offset + 1] as usize) * 256 + (self.code[offset + 2] as usize));
                    if op == OpCode::Loop {
                        d != -32768 && -32768 <= o - d && o - d <= 32767
                    } else {
                        -32768 <= o + d && o + d <= 32767
                    }
                } else {
                    true
                }
            },
            None => true,
        }
    }

    /// Decodes the instruction at `offset` and gives the offset of the next one.
    pub fn disassemble_instruction(&self, offset: usize) -> (r: (DisassembledInstruction, usize))
        requires
            offset < self.code@.len(),
            instruction_ok(self.view_chunk(), offset as int),
        ensures
            r.0 == entry(self.view_chunk(), offset as int),
            r.1 == offset + instruction_width(self.code@, offset as int),
    {
        let n = self.code.len();
        let ghost w = instruction_width(self.code@, offset as int);
        assert(offset + w <= n);
        let line = if offset > 0 && self.lines[offset] == self.lines[offset - 1] {
            None
        } else {
            Some(self.lines[offset])
        };
        let b = self.code[offset];
        let instruction = match OpCode::from_byte(b) {
            Some(op) => {
                if is_constant_op(op) {
                    Decoded::Constant(op, self.code[offset + 1])
                } else if op == OpCode::GetLocal || op == OpCode::SetLocal || op == OpCode::Call || op
                    == OpCode::Array {
                    Decoded::Byte(op, self.code[offset + 1])
                } else if is_jump_op(op) {
                    let o = to_signed16(offset);
                    let d = to_signed16((self.code[offset + 1] as usize) * 256 + (self.code[offset + 2] as usize));
                    let t = if op == OpCode::Loop {
                        o - d
                    } else {
                        o + d
                    };
                    Decoded::Jump(op, t as i16)
                } else {
                    Decoded::Simple(op)
                }
            },
            None => Decoded::Unknown(b),
        };
        let next = offset + self.instruction_width(offset);
        (DisassembledInstruction { offset, line, instruction }, next)
    }

    /// The chunk's instructions, decoded in order. The caller prints them under
    /// the chunk's name.
    pub fn disassemble(&self) -> (r: Vec<DisassembledInstruction>)
        requires
            disassembles_from(self.view_chunk(), 0),
        ensures
            r@ == disassembly_from(self.view_chunk(), 0),
    {
        let n = self.code.len();
        let mut out: Vec<DisassembledInstruction> = Vec::new();
        let mut offset: usize = 0;
        while offset < n
            invariant
                n == self.code@.len(),
                offset <= n,
                disassembles_from(self.view_chunk(), offset as int),
                out@ + disassembly_from(self.view_chunk(), offset as int) == disassembly_from(
                    self.view_chunk(),
                    0,
                ),
            decreases n - offset,
        {
            let (d, next) = self.disassemble_instruction(offset);
            let ghost before = out@;
            out.push(d);
            assert(out@ + disassembly_from(self.view_chunk(), next as int) =~= before
                + disassembly_from(self.view_chunk(), offset as int));
            offset = next;
        }
        assert(out@ =~= out@ + disassembly_from(self.view_chunk(), offset as int));
        out
    }
}

fn is_constant_op(op: OpCode) -> (r: bool)
    ensures
        r == takes_constant(op),
{
    op == OpCode::Constant || op == OpCode::GetGlobal || op == OpCode::SetGlobal || op == OpCode::Import
        || op == OpCode::GetModule
}

fn is_jump_op(op: OpCode) -> (r: bool)
    ensures
        r == takes_jump(op),
{
    op == OpCode::Jump || op == OpCode::JumpIfFalse || op == OpCode::JumpIfTrue || op == OpCode::Loop
}

} // verus!
