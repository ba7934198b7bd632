//! WebAssembly target: emits a WebAssembly module image and a JavaScript loader for it.

use vstd::prelude::*;
use crate::leb128::{push_sleb128_i32, sleb128};
use crate::text::{append_str, decimal, owned, usize_to_string};
use crate::bytecode::{Chunk, OpCode, Value, ValueSpec, opcode_of_byte, opcode_name, value_view, values_view, lemma_values_view_len, lemma_values_view_index};

verus! {

/// WebAssembly compiler for Grease.
pub struct WebAssemblyCompiler {
    /// Generated WebAssembly code.
    pub wasm_code: Vec<u8>,
    /// Exported functions.
    pub exports: Vec<String>,
    /// Imported functions.
    pub imports: Vec<WasmImport>,
}

/// WebAssembly import definition.
#[derive(Debug, Clone)]
pub struct WasmImport {
    pub module: String,
    pub name: String,
    pub signature: String,
}

/// WebAssembly function signature.
#[derive(Debug, Clone)]
pub struct WasmFunction {
    pub name: String,
    pub params: Vec<WasmType>,
    pub result: WasmType,
    pub locals: Vec<WasmType>,
}

/// WebAssembly value types.
#[derive(Debug, Clone, Copy, PartialEq, Eq, Structural)]
pub enum WasmType {
    I32,
    I64,
    F32,
    F64,
}

/// The text of the JavaScript loader before the module's bytes.
pub const JS_WRAPPER_HEAD: &'static str = r#"
// Generated JavaScript wrapper for Grease WebAssembly
const greaseWasm = new Uint8Array(["#;

/// The text of the JavaScript loader after the module's bytes.
pub const JS_WRAPPER_TAIL: &'static str = r#"]);

async function loadGreaseWasm() {
    const wasmModule = await WebAssembly.compile(greaseWasm);
    const wasmInstance = await WebAssembly.instantiate(wasmModule, {
        env: {
            log: function(ptr, len, type_id) {
                const bytes = new Uint8Array(wasmInstance.exports.memory.buffer, ptr, len);
                const string = new TextDecoder().decode(bytes);
                console.log(string);
            }
        }
    });
    
    return wasmInstance.exports;
}

// Grease WebAssembly runtime
class GreaseWasm {
    constructor() {
        this.exports = null;
        this.memory = null;    }
    
    async init() {
        this.exports = await loadGreaseWasm();
        this.memory = this.exports.memory;    }
    
    // Execute Grease code
    async run(source) {
        await this.init();
        
        // In a real implementation, this would:
        // 1. Parse Grease source code
        // 2. Compile to bytecode
        // 3. Convert bytecode to WebAssembly
        // 4. Execute as WebAssembly
        
        return "WebAssembly execution not fully implemented";
    }
}

// Global instance
const grease = new GreaseWasm();

// Export for use in browser
window.Grease = grease;
"#;

/// The module header: the magic number "\0asm" and version 1.
pub open spec fn wasm_header() -> Seq<u8> {
    seq![0x00u8, 0x61, 0x73, 0x6d, 0x01, 0x00, 0x00, 0x00]
}

/// The type section: one function type, () -> i32.
pub open spec fn type_section() -> Seq<u8> {
    seq![0x01u8, 6, 0x01, 0x60, 0x00, 0x01, 0x7f]
}

/// The import section: memory "env"."memory" with limits 0..1.
pub open spec fn import_section() -> Seq<u8> {
    seq![
        0x02u8, 16, 0x01, 3, 0x65, 0x6e, 0x76, 6, 0x6d, 0x65, 0x6d, 0x6f, 0x72, 0x79, 0x02, 0x00,
        0x01,
    ]
}

/// The function section: one function of type 0.
pub open spec fn function_section() -> Seq<u8> {
    seq![0x03u8, 3, 0x01, 0x00]
}

/// The memory section: one memory with limits 0..1.
pub open spec fn memory_section() -> Seq<u8> {
    seq![0x05u8, 4, 0x01, 0x00, 0x01]
}

/// The export section: function 0 exported as "main".
pub open spec fn export_section() -> Seq<u8> {
    seq![0x07u8, 9, 0x01, 4, 0x6d, 0x61, 0x69, 0x6e, 0x00, 0x00]
}

/// The instruction `i32.const value`.
pub open spec fn i32_const_code(value: i32) -> Seq<u8> {
    seq![0x41u8] + sleb128(value as int)
}

/// The bytes in decimal, separated by ", ".
pub open spec fn decimal_list(b: Seq<u8>) -> Seq<char>
    decreases b.len(),
{
    if b.len() == 0 {
        Seq::empty()
    } else if b.len() == 1 {
        decimal(b[0] as nat)
    } else {
        decimal_list(b.drop_last()) + ", "@ + decimal(b.last() as nat)
    }
}

/// The JavaScript loader for a module image.
pub open spec fn js_wrapper_spec(code: Seq<u8>) -> Seq<char> {
    JS_WRAPPER_HEAD@ + decimal_list(code) + JS_WRAPPER_TAIL@
}

/// The sections before the code section, as `compile_bytecode` emits them.
pub open spec fn module_prefix() -> Seq<u8> {
    wasm_header() + type_section() + import_section() + function_section() + memory_section()
        + export_section()
}

/// The code for a constant. A number becomes `number`, the value its text converts
/// to; a boolean 1 or 0; anything else 0.
pub open spec fn constant_code(v: ValueSpec, number: i32) -> Seq<u8> {
    match v {
        ValueSpec::Number(_) => i32_const_code(number),
        ValueSpec::Boolean(b) => i32_const_code(if b { 1 } else { 0 }),
        _ => i32_const_code(0),
    }
}

/// The code for one instruction at `ip`, or the error for an instruction with no
/// WebAssembly form. A constant reads its index from the next byte; an index past
/// the constants emits nothing.
pub open spec fn instruction_code(
    op: OpCode,
    ip: int,
    code: Seq<u8>,
    constants: Seq<ValueSpec>,
    numbers: Seq<i32>,
) -> Result<Seq<u8>, Seq<char>> {
    match op {
        OpCode::Constant => {
            let k = code[ip + 1] as int;
            if k < constants.len() {
                Ok(constant_code(constants[k], numbers[k]))
            } else {
                Ok(Seq::empty())
            }
        },
        OpCode::Add => Ok(seq![0x6au8]),
        OpCode::Subtract => Ok(seq![0x6bu8]),
        OpCode::Multiply => Ok(seq![0x6cu8]),
        OpCode::Divide => Ok(seq![0x6du8]),
        OpCode::Equal => Ok(seq![0x46u8]),
        OpCode::NotEqual => Ok(seq![0x47u8]),
        OpCode::Less => Ok(seq![0x48u8]),
        OpCode::LessEqual => Ok(seq![0x4eu8]),
        OpCode::Greater => Ok(seq![0x49u8]),
        OpCode::GreaterEqual => Ok(seq![0x4fu8]),
        OpCode::And => Ok(seq![0x71u8]),
        OpCode::Or => Ok(seq![0x72u8]),
        OpCode::Call => Ok(seq![0x10u8, 0x00u8]),
        OpCode::Return => Ok(seq![0x0bu8]),
        _ => Err("Unsupported opcode: "@ + opcode_name(op)),
    }
}

/// The body code for the first `n` bytes of the chunk, each byte read as an
/// instruction (bytes that encode none are skipped), with the first error, if any;
/// after an error nothing more is emitted.
pub open spec fn body_code(code: Seq<u8>, constants: Seq<ValueSpec>, numbers: Seq<i32>, n: int) -> (
    Seq<u8>,
    Option<Seq<char>>,
)
    decreases n,
{
    if n <= 0 {
        (Seq::empty(), None)
    } else {
        let (b, e) = body_code(code, constants, numbers, n - 1);
        if e is Some {
            (b, e)
        } else {
            match opcode_of_byte(code[n - 1]) {
                None => (b, None),
                Some(op) => match instruction_code(op, n - 1, code, constants, numbers) {
                    Ok(c) => (b + c, None),
                    Err(m) => (b, Some(m)),
                },
            }
        }
    }
}

/// The code section around a function body: its size counts the size byte, and the
/// body's size counts the locals and the closing `end`; both sizes are kept to a byte.
pub open spec fn code_section(body: Seq<u8>) -> Seq<u8> {
    seq![0x0au8, (body.len() + 5) as u8, 0x01u8, (body.len() + 2) as u8, 0x00u8] + body + seq![0x0bu8]
}

/// Whether compiling a chunk stays within its code: a constant instruction as the
/// last byte would read past it, unless an earlier instruction already stopped
/// compilation with an error.
pub open spec fn readable(code: Seq<u8>, constants: Seq<ValueSpec>, numbers: Seq<i32>) -> bool {
    code.len() == 0 || code.last() != 0 || body_code(code, constants, numbers, code.len() - 1).1 is Some
}

/// Once the body code has an error, later bytes add nothing.
proof fn lemma_body_code_stops(code: Seq<u8>, constants: Seq<ValueSpec>, numbers: Seq<i32>, k: int, n: int)
    requires
        0 <= k <= n,
        body_code(code, constants, numbers, k).1 is Some,
    ensures
        body_code(code, constants, numbers, n) == body_code(code, constants, numbers, k),
    decreases n - k,
{
    if n > k {
        lemma_body_code_stops(code, constants, numbers, k, n - 1);
    }
}

impl WebAssemblyCompiler {
    /// A compiler with no code, exports or imports.
    pub fn new() -> (r: WebAssemblyCompiler)
        ensures
            r.wasm_code@.len() == 0,
            r.exports@.len() == 0,
            r.imports@.len() == 0,
    {
        WebAssemblyCompiler { wasm_code: Vec::new(), exports: Vec::new(), imports: Vec::new() }
    }

    /// Emits the WebAssembly module header.
    pub fn emit_header(&mut self)
        ensures
            final(self).wasm_code@ == old(self).wasm_code@ + wasm_header(),
            final(self).exports == old(self).exports,
            final(self).imports == old(self).imports,
    {
        let ghost start = self.wasm_code@;
        self.emit_bytes(&[0x00, 0x61, 0x73, 0x6d]);
        self.emit_bytes(&[0x01, 0x00, 0x00, 0x00]);
        assert(self.wasm_code@ =~= start + wasm_header());
    }

    /// Sets the size byte of the section that starts at `section_start` to the number of
    /// bytes after its id byte.
    fn patch_section_size(&mut self, section_start: usize)
        requires
            section_start + 1 < old(self).wasm_code@.len(),
            old(self).wasm_code@.len() - section_start - 1 < 256,
        ensures
            final(self).wasm_code@ == old(self).wasm_code@.update(
                section_start + 1,
                (old(self).wasm_code@.len() - section_start - 1) as u8,
            ),
            final(self).exports == old(self).exports,
            final(self).imports == old(self).imports,
    {
        let section_size = self.wasm_code.len() - section_start - 1;
        self.wasm_code.set(section_start + 1, section_size as u8);
    }

    /// Emits a section made of the given bytes, whose second byte is a size placeholder.
    fn emit_section(&mut self, bytes: &[u8])
        requires
            2 <= bytes@.len() < 256,
        ensures
            final(self).wasm_code@ == old(self).wasm_code@ + bytes@.update(
                1,
                (bytes@.len() - 1) as u8,
            ),
            final(self).exports == old(self).exports,
            final(self).imports == old(self).imports,
    {
        let section_start = self.wasm_code.len();
        let ghost start = self.wasm_code@;
        self.emit_bytes(bytes);
        self.patch_section_size(section_start);
        assert(self.wasm_code@ =~= start + bytes@.update(1, (bytes@.len() - 1) as u8));
    }

    /// Emits the type section.
    pub fn emit_type_section(&mut self)
        ensures
            final(self).wasm_code@ == old(self).wasm_code@ + type_section(),
            final(self).exports == old(self).exports,
            final(self).imports == old(self).imports,
    {
        let ghost start = self.wasm_code@;
        self.emit_section(&[0x01, 0x00, 0x01, 0x60, 0x00, 0x01, 0x7f]);
        assert(self.wasm_code@ =~= start + type_section());
    }

    /// Emits the import section.
    pub fn emit_import_section(&mut self)
        ensures
            final(self).wasm_code@ == old(self).wasm_code@ + import_section(),
            final(self).exports == old(self).exports,
            final(self).imports == old(self).imports,
    {
        let ghost start = self.wasm_code@;
        self.emit_section(
            &[
                0x02,
                0x00,
                0x01,
                0x03,
                0x65,
                0x6e,
                0x76,
                0x06,
                0x6d,
                0x65,
                0x6d,
                0x6f,
                0x72,
                0x79,
                0x02,
                0x00,
                0x01,
            ],
        );
        assert(self.wasm_code@ =~= start + import_section());
    }

    /// Emits the function section.
    pub fn emit_function_section(&mut self)
        ensures
            final(self).wasm_code@ == old(self).wasm_code@ + function_section(),
            final(self).exports == old(self).exports,
            final(self).imports == old(self).imports,
    {
        let ghost start = self.wasm_code@;
        self.emit_section(&[0x03, 0x00, 0x01, 0x00]);
        assert(self.wasm_code@ =~= start + function_section());
    }

    /// Emits the memory section.
    pub fn emit_memory_section(&mut self)
        ensures
            final(self).wasm_code@ == old(self).wasm_code@ + memory_section(),
            final(self).exports == old(self).exports,
            final(self).imports == old(self).imports,
    {
        let ghost start = self.wasm_code@;
        self.emit_section(&[0x05, 0x00, 0x01, 0x00, 0x01]);
        assert(self.wasm_code@ =~= start + memory_section());
    }

    /// Emits the export section.
    pub fn emit_export_section(&mut self)
        ensures
            final(self).wasm_code@ == old(self).wasm_code@ + export_section(),
            final(self).exports == old(self).exports,
            final(self).imports == old(self).imports,
    {
        let ghost start = self.wasm_code@;
        self.emit_section(&[0x07, 0x00, 0x01, 0x04, 0x6d, 0x61, 0x69, 0x6e, 0x00, 0x00]);
        assert(self.wasm_code@ =~= start + export_section());
    }

    /// Compiles a chunk into a whole module: the fixed sections, then a code section
    /// with one function whose body is the chunk's instructions. `numbers[k]` is the
    /// value that constant `k` converts to when it is a number. An instruction with no
    /// WebAssembly form stops compilation with an error, leaving the code emitted so far.
    pub fn compile_bytecode(&mut self, chunk: &Chunk, numbers: &Vec<i32>) -> (r: Result<(), String>)
        requires
            numbers@.len() == chunk.constants@.len(),
            readable(chunk.code@, values_view(chunk.constants@), numbers@),
        ensures
            ({
                let (body, e) = body_code(
                    chunk.code@,
                    values_view(chunk.constants@),
                    numbers@,
                    chunk.code@.len() as int,
                );
                match e {
                    None => r is Ok && final(self).wasm_code@ == module_prefix() + code_section(body),
                    Some(m) => r matches Err(x) && x@ == m && final(self).wasm_code@ == module_prefix()
                        + seq![0x0au8, 0x00u8, 0x01u8, 0x00u8, 0x00u8] + body,
                }
            }),
            final(self).exports == old(self).exports,
            final(self).imports == old(self).imports,
    {
        self.wasm_code.clear();
        self.emit_header();
        self.emit_type_section();
        self.emit_import_section();
        self.emit_function_section();
        self.emit_memory_section();
        self.emit_export_section();
        assert(self.wasm_code@ =~= module_prefix());
        self.emit_code_section(chunk, numbers)
    }

    fn emit_code_section(&mut self, chunk: &Chunk, numbers: &Vec<i32>) -> (r: Result<(), String>)
        requires
            numbers@.len() == chunk.constants@.len(),
            readable(chunk.code@, values_view(chunk.constants@), numbers@),
        ensures
            ({
                let (body, e) = body_code(
                    chunk.code@,
                    values_view(chunk.constants@),
                    numbers@,
                    chunk.code@.len() as int,
                );
                match e {
                    None => r is Ok && final(self).wasm_code@ == old(self).wasm_code@ + code_section(body),
                    Some(m) => r matches Err(x) && x@ == m && final(self).wasm_code@ == old(self).wasm_code@
                        + seq![0x0au8, 0x00u8, 0x01u8, 0x00u8, 0x00u8] + body,
                }
            }),
            final(self).exports == old(self).exports,
            final(self).imports == old(self).imports,
    {
        let ghost start = self.wasm_code@;
        let ghost consts = values_view(chunk.constants@);
        let section_start = self.wasm_code.len();
        self.emit_byte(0x0a);
        self.emit_byte(0x00);
        self.emit_byte(0x01);
        let body_start = self.wasm_code.len();
        self.emit_byte(0x00);
        self.emit_byte(0x00);
        let ghost head = self.wasm_code@;
        assert(head =~= start + seq![0x0au8, 0x00u8, 0x01u8, 0x00u8, 0x00u8]);
        let mut ip: usize = 0;
        while ip < chunk.code.len()
            invariant
                ip <= chunk.code@.len(),
                numbers@.len() == chunk.constants@.len(),
                readable(chunk.code@, consts, numbers@),
                consts == values_view(chunk.constants@),
                head.len() == body_start + 2,
                head == start + seq![0x0au8, 0x00u8, 0x01u8, 0x00u8, 0x00u8],
                start == old(self).wasm_code@,
                body_start == section_start + 3,
                section_start == start.len(),
                body_code(chunk.code@, consts, numbers@, ip as int).1 is None,
                self.wasm_code@ == head + body_code(chunk.code@, consts, numbers@, ip as int).0,
                self.exports == old(self).exports,
                self.imports == old(self).imports,
            decreases chunk.code@.len() - ip,
        {
            let byte = chunk.code[ip];
            match OpCode::from_byte(byte) {
                Some(op) => {
                    let ghost before = self.wasm_code@;
                    assert(ip + 1 < chunk.code@.len() || chunk.code@[ip as int] != 0) by {
                        if ip + 1 == chunk.code@.len() {
                            assert(chunk.code@.last() == chunk.code@[ip as int]);
                        }
                    }
                    match self.compile_instruction(op, ip, chunk, numbers) {
                        Ok(()) => {
                            assert(self.wasm_code@ =~= head + body_code(
                                chunk.code@,
                                consts,
                                numbers@,
                                ip + 1,
                            ).0);
                        },
                        Err(e) => {
                            assert(body_code(chunk.code@, consts, numbers@, ip + 1).0 == body_code(
                                chunk.code@,
                                consts,
                                numbers@,
                                ip as int,
                            ).0);
                            proof {
                                lemma_body_code_stops(chunk.code@, consts, numbers@, ip + 1, chunk.code@.len() as int);
                            }
                            assert(self.wasm_code@ =~= start + seq![0x0au8, 0x00u8, 0x01u8, 0x00u8, 0x00u8] + body_code(
                                chunk.code@,
                                consts,
                                numbers@,
                                chunk.code@.len() as int,
                            ).0);
                            return Err(e);
                        },
                    }
                },
                None => {},
            }
            ip = ip + 1;
        }
        let ghost body = body_code(chunk.code@, consts, numbers@, ip as int).0;
        self.emit_byte(0x0b);
        #[verifier::truncate]
        let body_size = (self.wasm_code.len() - body_start - 1) as u8;
        self.wasm_code.set(body_start, body_size);
        #[verifier::truncate]
        let section_size = (self.wasm_code.len() - section_start - 1) as u8;
        self.wasm_code.set(section_start + 1, section_size);
        assert(self.wasm_code@ =~= start + code_section(body));
        Ok(())
    }

    fn compile_instruction(&mut self, op: OpCode, ip: usize, chunk: &Chunk, numbers: &Vec<i32>) -> (r: Result<(), String>)
        requires
            ip < chunk.code@.len(),
            opcode_of_byte(chunk.code@[ip as int]) == Some(op),
            ip + 1 < chunk.code@.len() || chunk.code@[ip as int] != 0,
            numbers@.len() == chunk.constants@.len(),
        ensures
            match instruction_code(op, ip as int, chunk.code@, values_view(chunk.constants@), numbers@) {
                Ok(c) => r is Ok && final(self).wasm_code@ == old(self).wasm_code@ + c,
                Err(m) => r matches Err(x) && x@ == m && final(self).wasm_code@ == old(self).wasm_code@,
            },
            final(self).exports == old(self).exports,
            final(self).imports == old(self).imports,
    {
        let ghost start = self.wasm_code@;
        match op {
            OpCode::Constant => {
                assert(chunk.code@[ip as int] == 0);
                let n = chunk.code.len();
                assert(ip + 1 < n);
                let next: usize = ip + 1;
                let constant_index = chunk.code[next] as usize;
                proof {
                    lemma_values_view_len(chunk.constants@);
                }
                if constant_index < chunk.constants.len() {
                    proof {
                        lemma_values_view_index(chunk.constants@, constant_index as int);
                    }
                    self.emit_constant(&chunk.constants[constant_index], numbers[constant_index]);
                } else {
                    assert(self.wasm_code@ =~= start + Seq::<u8>::empty());
                }
            },
            OpCode::Add => self.emit_byte(0x6a),
            OpCode::Subtract => self.emit_byte(0x6b),
            OpCode::Multiply => self.emit_byte(0x6c),
            OpCode::Divide => self.emit_byte(0x6d),
            OpCode::Equal => self.emit_byte(0x46),
            OpCode::NotEqual => self.emit_byte(0x47),
            OpCode::Less => self.emit_byte(0x48),
            OpCode::LessEqual => self.emit_byte(0x4e),
            OpCode::Greater => self.emit_byte(0x49),
            OpCode::GreaterEqual => self.emit_byte(0x4f),
            OpCode::And => self.emit_byte(0x71),
            OpCode::Or => self.emit_byte(0x72),
            OpCode::Call => {
                self.emit_byte(0x10);
                self.emit_byte(0x00);
            },
            OpCode::Return => self.emit_byte(0x0b),
            _ => {
                let mut m = owned("Unsupported opcode: ");
                append_str(&mut m, op.name());
                return Err(m);
            },
        }
        assert(self.wasm_code@ =~= start + instruction_code(
            op,
            ip as int,
            chunk.code@,
            values_view(chunk.constants@),
            numbers@,
        )->Ok_0);
        Ok(())
    }

    /// Emits a constant: a number as `number`, the value its text converts to; a
    /// boolean as 1 or 0; anything else as 0.
    pub fn emit_constant(&mut self, constant: &Value, number: i32)
        ensures
            final(self).wasm_code@ == old(self).wasm_code@ + constant_code(value_view(*constant), number),
            final(self).exports == old(self).exports,
            final(self).imports == old(self).imports,
    {
        match constant {
            Value::Number(_) => self.emit_i32_const(number),
            Value::Boolean(b) => self.emit_i32_const(if *b { 1 } else { 0 }),
            _ => self.emit_i32_const(0),
        }
    }

    /// Emits an `i32.const` instruction.
    pub fn emit_i32_const(&mut self, value: i32)
        ensures
            final(self).wasm_code@ == old(self).wasm_code@ + i32_const_code(value),
            final(self).exports == old(self).exports,
            final(self).imports == old(self).imports,
    {
        let ghost start = self.wasm_code@;
        self.emit_byte(0x41);
        self.emit_leb128_i32(value);
        assert(self.wasm_code@ =~= start + i32_const_code(value));
    }

    /// Emits a single byte.
    fn emit_byte(&mut self, byte: u8)
        ensures
            final(self).wasm_code@ == old(self).wasm_code@.push(byte),
            final(self).exports == old(self).exports,
            final(self).imports == old(self).imports,
    {
        self.wasm_code.push(byte);
    }

    /// Emits several bytes.
    fn emit_bytes(&mut self, bytes: &[u8])
        ensures
            final(self).wasm_code@ == old(self).wasm_code@ + bytes@,
            final(self).exports == old(self).exports,
            final(self).imports == old(self).imports,
    {
        let n = bytes.len();
        let mut i: usize = 0;
        let ghost start = self.wasm_code@;
        while i < n
            invariant
                n == bytes@.len(),
                i <= n,
                self.wasm_code@ =~= start + bytes@.take(i as int),
                self.exports == old(self).exports,
                self.imports == old(self).imports,
            decreases n - i,
        {
            self.emit_byte(bytes[i]);
            assert(bytes@.take(i + 1) =~= bytes@.take(i as int).push(bytes@[i as int]));
            i = i + 1;
        }
        assert(bytes@.take(n as int) =~= bytes@);
    }

    /// Emits a signed LEB128 encoded 32-bit integer.
    fn emit_leb128_i32(&mut self, value: i32)
        ensures
            final(self).wasm_code@ == old(self).wasm_code@ + sleb128(value as int),
            final(self).exports == old(self).exports,
            final(self).imports == old(self).imports,
    {
        push_sleb128_i32(&mut self.wasm_code, value);
    }

    /// The JavaScript loader that embeds the code emitted so far.
    pub fn generate_js_wrapper(&self) -> (r: String)
        ensures
            r@ == js_wrapper_spec(self.wasm_code@),
    {
        let mut r = owned(JS_WRAPPER_HEAD);
        let n = self.wasm_code.len();
        let mut i: usize = 0;
        let ghost code = self.wasm_code@;
        assert(code.take(0) =~= Seq::<u8>::empty());
        while i < n
            invariant
                n == code.len(),
                code == self.wasm_code@,
                i <= n,
                r@ == JS_WRAPPER_HEAD@ + decimal_list(code.take(i as int)),
            decreases n - i,
        {
            if i > 0 {
                append_str(&mut r, ", ");
            }
            let d = usize_to_string(self.wasm_code[i] as usize);
            append_str(&mut r, d.as_str());
            proof {
                assert(code.take(i + 1).drop_last() =~= code.take(i as int));
                assert(code.take(i + 1).last() == code[i as int]);
                if i == 0 {
                    assert(decimal_list(code.take(0)) =~= Seq::<char>::empty());
                }
                assert(r@ =~= JS_WRAPPER_HEAD@ + decimal_list(code.take(i + 1)));
            }
            i = i + 1;
        }
        assert(code.take(n as int) =~= code);
        append_str(&mut r, JS_WRAPPER_TAIL);
        r
    }

    /// The compiled WebAssembly code.
    pub fn get_wasm_code(&self) -> (r: &[u8])
        ensures
            r@ == self.wasm_code@,
    {
        self.wasm_code.as_slice()
    }

    /// The exported function names.
    pub fn get_exports(&self) -> (r: &[String])
        ensures
            r@ == self.exports@,
    {
        self.exports.as_slice()
    }
}

/// WebAssembly runtime for executing compiled code.
pub struct WebAssemblyRuntime {
    pub compiler: WebAssemblyCompiler,
    pub initialized: bool,
}

/// WebAssembly compilation statistics.
#[derive(Debug, Clone, Copy, PartialEq, Eq, Structural)]
pub struct WebAssemblyStats {
    pub initialized: bool,
    pub wasm_size: usize,
    pub exports_count: usize,
    pub imports_count: usize,
}

impl WebAssemblyRuntime {
    /// A runtime that is not yet initialized, with an empty compiler.
    pub fn new() -> (r: WebAssemblyRuntime)
        ensures
            !r.initialized,
            r.compiler.wasm_code@.len() == 0,
            r.compiler.exports@.len() == 0,
            r.compiler.imports@.len() == 0,
    {
        WebAssemblyRuntime { compiler: WebAssemblyCompiler::new(), initialized: false }
    }

    /// Initializes the runtime; initializing twice is harmless.
    pub fn initialize(&mut self) -> (r: Result<(), String>)
        ensures
            r is Ok,
            final(self).initialized,
            final(self).compiler == old(self).compiler,
    {
        if self.initialized {
            return Ok(());
        }
        self.initialized = true;
        Ok(())
    }

    /// Compiles Grease source: gives the JavaScript loader of the current code.
    pub fn compile(&mut self, _source: &str) -> (r: Result<String, String>)
        ensures
            r matches Ok(js) && js@ == js_wrapper_spec(old(self).compiler.wasm_code@),
            *final(self) == *old(self),
    {
        let js_code = self.compiler.generate_js_wrapper();
        Ok(js_code)
    }

    /// Runtime statistics.
    pub fn get_stats(&self) -> (r: WebAssemblyStats)
        ensures
            r == (WebAssemblyStats {
                initialized: self.initialized,
                wasm_size: self.compiler.wasm_code@.len() as usize,
                exports_count: self.compiler.exports@.len() as usize,
                imports_count: self.compiler.imports@.len() as usize,
            }),
    {
        WebAssemblyStats {
            initialized: self.initialized,
            wasm_size: self.compiler.wasm_code.len(),
            exports_count: self.compiler.exports.len(),
            imports_count: self.compiler.imports.len(),
        }
    }
}

} // verus!
