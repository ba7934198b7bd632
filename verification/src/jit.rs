//! Just-in-time compilation of chunks to native code stubs.
//!
//! Compiled code is written into pages of memory, each a buffer of bytes with a
//! write offset; a compiled function is named by its page and its offset there.
//! Compiled functions are cached by the size of the chunk they came from.

use vstd::prelude::*;
use std::collections::HashMap;
use crate::bytecode::{Chunk, Value};
use crate::text::{append_str, owned, str_eq, usize_to_string, decimal};

verus! {

/// A page of memory that code is written into, from its start onwards.
pub struct MemoryPage {
    pub memory: Vec<u8>,
    pub size: usize,
    pub offset: usize,
}

impl MemoryPage {
    /// The bytes of the page.
    pub open spec fn bytes(&self) -> Seq<u8> {
        self.memory@
    }

    /// The page holds `size` bytes, and the offset lies within them.
    pub open spec fn wf(&self) -> bool {
        self.bytes().len() == self.size && self.offset <= self.size
    }

    /// A zeroed page of `size` bytes, with nothing written yet. A page of no bytes
    /// cannot be mapped, so asking for one fails.
    pub fn new(size: usize) -> (r: Result<Self, String>)
        ensures
            size == 0 ==> (r matches Err(m) && m@ == "Failed to allocate executable memory"@),
            size > 0 ==> (r matches Ok(p) && p.wf() && p.size == size && p.offset == 0 && p.bytes() == Seq::new(
                size as nat,
                |i: int| 0u8,
            )),
    {
        if size == 0 {
            return Err(owned("Failed to allocate executable memory"));
        }
        let mut memory: Vec<u8> = Vec::new();
        let mut i: usize = 0;
        while i < size
            invariant
                i <= size,
                memory@ == Seq::new(i as nat, |j: int| 0u8),
            decreases size - i,
        {
            memory.push(0);
            i = i + 1;
            assert(memory@ =~= Seq::new(i as nat, |j: int| 0u8));
        }
        Ok(MemoryPage { memory, size, offset: 0 })
    }

    /// Writes the bytes at the offset and moves past them; returns where they
    /// start, or an error if they do not fit in what is left of the page.
    pub fn write(&mut self, data: &[u8]) -> (r: Result<usize, String>)
        requires
            old(self).wf(),
        ensures
            final(self).wf(),
            final(self).size == old(self).size,
            old(self).offset + data@.len() > old(self).size ==> (r matches Err(m) && m@
                == "Memory page overflow"@ && *final(self) == *old(self)),
            old(self).offset + data@.len() <= old(self).size ==> r == Ok::<usize, String>(old(self).offset)
                && final(self).offset == old(self).offset + data@.len() && final(self).bytes()
                == old(self).bytes().take(old(self).offset as int) + data@ + old(self).bytes().skip(
                old(self).offset + data@.len(),
            ),
    {
        if data.len() > self.size - self.offset {
            return Err(owned("Memory page overflow"));
        }
        let start = self.offset;
        let ghost before = self.memory@;
        let mut i: usize = 0;
        while i < data.len()
            invariant
                i <= data@.len(),
                start + data@.len() <= self.size,
                self.size == old(self).size,
                self.offset == start,
                self.memory@.len() == before.len(),
                before.len() == self.size,
                before == old(self).memory@,
                forall|j: int| 0 <= j < start ==> self.memory@[j] == before[j],
                forall|j: int| 0 <= j < i ==> self.memory@[start + j] == data@[j],
                forall|j: int| start + data@.len() <= j < before.len() ==> self.memory@[j] == before[j],
            decreases data@.len() - i,
        {
            self.memory.set(start + i, data[i]);
            i = i + 1;
        }
        self.offset = start + data.len();
        assert(self.memory@ =~= before.take(start as int) + data@ + before.skip(start + data@.len()));
        Ok(start)
    }
}

/// A compiled function: where its code is, how long it is, and how many
/// arguments it takes.
#[derive(Debug, Clone, Copy, PartialEq, Eq, Structural)]
pub struct JitFunction {
    pub page: usize,
    pub offset: usize,
    pub code_size: usize,
    pub arity: usize,
}

/// The code of a compiled function: a frame set up, 42 put in the result
/// register, and the frame left again.
pub open spec fn stub_code() -> Seq<u8> {
    seq![0x55u8, 0x48, 0x89, 0xe5, 0xb8, 0x2a, 0x00, 0x00, 0x00, 0x5d, 0xc3]
}

/// The size of the pages that code is written into.
pub open spec fn page_size() -> usize {
    4096
}

/// The key a chunk's compiled function is cached under.
pub open spec fn function_key(chunk: Chunk) -> nat {
    chunk.constants@.len() + chunk.code@.len()
}

/// Whether JIT compilation can run on a target: x86-64 under Linux or macOS.
pub open spec fn available_on(arch: Seq<char>, os: Seq<char>) -> bool {
    arch == "x86_64"@ && (os == "linux"@ || os == "macos"@)
}

/// The message for a call with the wrong number of arguments.
pub open spec fn arity_msg(expected: usize, got: usize) -> Seq<char> {
    "Expected "@ + decimal(expected as nat) + " arguments, got "@ + decimal(got as nat)
}

/// The JIT compiler: a cache of compiled functions and the pages of their code.
pub struct JITCompiler {
    compiled_functions: HashMap<usize, JitFunction>,
    memory_pages: Vec<MemoryPage>,
}

impl JITCompiler {
    /// The compiled functions by key.
    pub closed spec fn cache(&self) -> Map<usize, JitFunction> {
        self.compiled_functions@
    }

    /// The pages of code, in order of allocation.
    pub closed spec fn pages(&self) -> Seq<MemoryPage> {
        self.memory_pages@
    }

    pub fn new() -> (r: Self)
        ensures
            r.cache() == Map::<usize, JitFunction>::empty(),
            r.pages().len() == 0,
    {
        JITCompiler { compiled_functions: HashMap::new(), memory_pages: Vec::new() }
    }

    /// The compiled function for a chunk: the cached one for its key, or else a new
    /// one, whose code is written at the start of a new page.
    pub fn compile_chunk(&mut self, chunk: &Chunk) -> (r: Result<JitFunction, String>)
        requires
            function_key(*chunk) <= usize::MAX,
        ensures
            ({
                let key = function_key(*chunk) as usize;
                if old(self).cache().contains_key(key) {
                    &&& r == Ok::<JitFunction, String>(old(self).cache()[key])
                    &&& final(self).cache() == old(self).cache()
                    &&& final(self).pages() == old(self).pages()
                } else {
                    let f = JitFunction {
                        page: old(self).pages().len() as usize,
                        offset: 0,
                        code_size: stub_code().len() as usize,
                        arity: 0,
                    };
                    let p = final(self).pages().last();
                    &&& r == Ok::<JitFunction, String>(f)
                    &&& final(self).cache() == old(self).cache().insert(key, f)
                    &&& final(self).pages().drop_last() == old(self).pages()
                    &&& final(self).pages().len() == old(self).pages().len() + 1
                    &&& p.wf() && p.size == page_size() && p.offset == stub_code().len()
                    &&& p.bytes().take(stub_code().len() as int) == stub_code()
                }
            }),
    {
        broadcast use vstd::std_specs::hash::group_hash_axioms;
        let function_key = chunk.constants.len() + chunk.code.len();
        if let Some(compiled) = self.compiled_functions.get(&function_key) {
            return Ok(*compiled);
        }
        let memory_page = match MemoryPage::new(4096) {
            Ok(p) => p,
            Err(e) => {
                return Err(e);
            },
        };
        let mut page = memory_page;
        let code: [u8; 11] = [0x55, 0x48, 0x89, 0xe5, 0xb8, 0x2a, 0x00, 0x00, 0x00, 0x5d, 0xc3];
        assert(code@ =~= stub_code());
        let offset = match page.write(&code) {
            Ok(o) => o,
            Err(e) => {
                return Err(e);
            },
        };
        assert(page.bytes().take(11) =~= stub_code());
        let jit_function = JitFunction {
            page: self.memory_pages.len(),
            offset,
            code_size: code.len(),
            arity: 0,
        };
        let ghost before = self.memory_pages@;
        self.memory_pages.push(page);
        assert(self.memory_pages@.drop_last() =~= before);
        self.compiled_functions.insert(function_key, jit_function);
        Ok(jit_function)
    }

    /// Runs a compiled function. Native code is not entered: the call checks its
    /// arguments and gives the stub's result, 42.
    pub fn execute_function(&self, function: &JitFunction, args: Vec<Value>) -> (r: Result<Value, String>)
        ensures
            args@.len() != function.arity ==> (r matches Err(m) && m@ == arity_msg(function.arity, args@.len() as usize)),
            args@.len() == function.arity ==> (r matches Ok(Value::Number(n)) && n@ == "42"@),
    {
        if args.len() != function.arity {
            let mut m = owned("Expected ");
            append_str(&mut m, usize_to_string(function.arity).as_str());
            append_str(&mut m, " arguments, got ");
            append_str(&mut m, usize_to_string(args.len()).as_str());
            return Err(m);
        }
        Ok(Value::Number(owned("42")))
    }

    /// Whether JIT compilation can run on the target with this architecture and
    /// operating system.
    pub fn is_available(arch: &str, os: &str) -> (r: bool)
        ensures
            r == available_on(arch@, os@),
    {
        str_eq(arch, "x86_64") && (str_eq(os, "linux") || str_eq(os, "macos"))
    }
}

/// The JIT engine: a compiler, and whether it is used.
pub struct JITEngine {
    compiler: JITCompiler,
    enabled: bool,
    available: bool,
}

/// How many functions are compiled and how many pages they take.
#[derive(Debug, Clone, Copy, PartialEq, Eq, Structural)]
pub struct JITStats {
    pub enabled: bool,
    pub compiled_functions: usize,
    pub memory_pages: usize,
}

impl JITEngine {
    /// Whether the target can run compiled code.
    pub closed spec fn available(&self) -> bool {
        self.available
    }

    pub closed spec fn enabled_spec(&self) -> bool {
        self.enabled
    }

    pub closed spec fn compiler(&self) -> JITCompiler {
        self.compiler
    }

    /// Compilation is never enabled where it is not available.
    #[verifier::type_invariant]
    spec fn enabled_only_if_available(self) -> bool {
        self.enabled ==> self.available
    }

    /// An engine for the target with this architecture and operating system; it
    /// is enabled where compilation is available.
    pub fn new(arch: &str, os: &str) -> (r: Self)
        ensures
            r.available() == available_on(arch@, os@),
            r.enabled_spec() == r.available(),
            r.compiler().cache() == Map::<usize, JitFunction>::empty(),
            r.compiler().pages().len() == 0,
    {
        let available = JITCompiler::is_available(arch, os);
        JITEngine { compiler: JITCompiler::new(), enabled: available, available }
    }

    /// Enables or disables compilation; it stays disabled where it is not available.
    pub fn set_enabled(&mut self, enabled: bool)
        ensures
            final(self).enabled_spec() == (enabled && old(self).available()),
            final(self).available() == old(self).available(),
            final(self).compiler() == old(self).compiler(),
    {
        self.enabled = enabled && self.available;
    }

    /// Whether compilation is enabled; it never is where it is not available.
    pub fn is_enabled(&self) -> (r: bool)
        ensures
            r == self.enabled_spec(),
            r ==> self.available(),
    {
        proof {
            use_type_invariant(self);
        }
        self.enabled
    }

    /// Compiles a chunk and runs it with no arguments, if compilation is enabled.
    pub fn execute_chunk(&mut self, chunk: &Chunk) -> (r: Result<Value, String>)
        requires
            function_key(*chunk) <= usize::MAX,
        ensures
            !old(self).enabled_spec() ==> (r matches Err(m) && m@ == "JIT compilation is not enabled"@
                && *final(self) == *old(self)),
            old(self).enabled_spec() ==> {
                let key = function_key(*chunk) as usize;
                let cached = old(self).compiler().cache().contains_key(key);
                &&& final(self).compiler().cache().contains_key(key)
                &&& cached ==> final(self).compiler().cache() == old(self).compiler().cache()
                &&& !cached ==> final(self).compiler().pages().len() == old(self).compiler().pages().len() + 1
                &&& final(self).compiler().cache()[key].arity == 0 ==> (r matches Ok(Value::Number(n))
                    && n@ == "42"@)
                &&& final(self).compiler().cache()[key].arity != 0 ==> r is Err
            },
            final(self).enabled_spec() == old(self).enabled_spec(),
            final(self).available() == old(self).available(),
    {
        proof {
            use_type_invariant(&*self);
        }
        if !self.enabled {
            return Err(owned("JIT compilation is not enabled"));
        }
        let mut compiler = JITCompiler::new();
        std::mem::swap(&mut compiler, &mut self.compiler);
        let jit_function = match compiler.compile_chunk(chunk) {
            Ok(f) => f,
            Err(e) => {
                std::mem::swap(&mut compiler, &mut self.compiler);
                return Err(e);
            },
        };
        let r = compiler.execute_function(&jit_function, Vec::new());
        std::mem::swap(&mut compiler, &mut self.compiler);
        r
    }

    pub fn get_stats(&self) -> (r: JITStats)
        ensures
            r.enabled == self.enabled_spec(),
            r.enabled ==> self.available(),
            r.compiled_functions == self.compiler().cache().len(),
            r.memory_pages == self.compiler().pages().len(),
    {
        broadcast use vstd::std_specs::hash::group_hash_axioms;
        proof {
            use_type_invariant(self);
        }
        JITStats {
            enabled: self.enabled,
            compiled_functions: self.compiler.compiled_functions.len(),
            memory_pages: self.compiler.memory_pages.len(),
        }
    }
}

} // verus!
