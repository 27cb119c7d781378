//! Builders for a coredump: frames make a thread, threads make a coredump,
//! and a coredump is encoded as a module with the `wasm_encoder` crate.

use crate::ast::{
    CustomSectionV, DataSegment, DataSegmentMode, DataSegmentV, Instr, InstrV, Memory, ModuleV,
    SectionV, Value,
};
use crate::coredump_encoder::{
    encode_core_stack, encode_coredump_process, encode_coredump_stack, encode_process_info,
};
use crate::coredump_types::{
    CoreStack, CoreStackV, Coredump, ProcessInfo, ProcessInfoV, StackFrame, StackFrameV, ThreadInfo,
};
use crate::index::const_expr;
use crate::opcodes::opcode;
use crate::parser::decode_module;
use crate::printer::{
    Encode, encode_byte_vec, encode_data, encode_expr, encode_instr, encode_items, encode_limits,
    encode_module, encode_name, encode_nodes, encode_section, encode_sections, encode_vec, header,
    immediates, leaf_encodable, module_encodable, sized,
};
use crate::roundtrip::{
    Roundtrip, body_canonical, instr_canonical, is_end, lemma_encode_decode_encode,
    module_canonical, section_canonical,
};
use crate::varint::{lemma_unsigned_leb128_short, signed_leb128, unsigned_leb128};
use vstd::prelude::*;
use vstd::slice::slice_to_vec;
use vstd::string::StringExecFns;

verus! {

/// Builds a stack frame.
pub struct FrameBuilder {
    pub funcidx: u32,
    pub codeoffset: u32,
}

impl FrameBuilder {
    /// A builder for a frame of the function 0 at the offset 0.
    pub fn new() -> (r: Self)
        ensures
            r.funcidx == 0,
            r.codeoffset == 0,
    {
        FrameBuilder { funcidx: 0, codeoffset: 0 }
    }

    /// Sets the index of the function.
    pub fn funcidx(self, funcidx: u32) -> (r: Self)
        ensures
            r.funcidx == funcidx,
            r.codeoffset == self.codeoffset,
    {
        let mut r = self;
        r.funcidx = funcidx;
        r
    }

    /// Sets the offset of the instruction in the code.
    pub fn codeoffset(self, codeoffset: u32) -> (r: Self)
        ensures
            r.funcidx == self.funcidx,
            r.codeoffset == codeoffset,
    {
        let mut r = self;
        r.codeoffset = codeoffset;
        r
    }

    /// The frame, without locals and without stack values.
    pub fn build(self) -> (r: StackFrame)
        ensures
            r.deep_view() == (StackFrameV {
                funcidx: self.funcidx,
                codeoffset: self.codeoffset,
                locals: Seq::empty(),
                stack: Seq::empty(),
            }),
    {
        StackFrame {
            funcidx: self.funcidx,
            codeoffset: self.codeoffset,
            locals: Vec::new(),
            stack: Vec::new(),
        }
    }
}

/// Builds the stack of a thread.
pub struct ThreadBuilder {
    pub thread_name: String,
    pub frames: Vec<StackFrame>,
}

impl ThreadBuilder {
    /// A builder for a thread without a name and without frames.
    pub fn new() -> (r: Self)
        ensures
            r.thread_name@ == Seq::<char>::empty(),
            r.frames@.len() == 0,
    {
        ThreadBuilder { thread_name: String::new(), frames: Vec::new() }
    }

    /// Sets the name of the thread.
    pub fn thread_name(self, name: &str) -> (r: Self)
        ensures
            r.thread_name@ == name@,
            r.frames == self.frames,
    {
        let mut r = self;
        r.thread_name = String::from_str(name);
        r
    }

    /// Adds a frame to the stack.
    pub fn add_frame(&mut self, frame: StackFrame)
        ensures
            final(self).frames@ == old(self).frames@.push(frame),
            final(self).thread_name == old(self).thread_name,
    {
        self.frames.push(frame);
    }

    /// The stack of the thread.
    pub fn build(self) -> (r: CoreStack)
        ensures
            r.frames == self.frames,
            r.thread_info.thread_name == self.thread_name,
    {
        CoreStack { frames: self.frames, thread_info: ThreadInfo { thread_name: self.thread_name } }
    }
}

/// A `wasm_encoder::Module` that is being written.
#[verifier::external_body]
pub struct ModuleWriter {
    inner: wasm_encoder::Module,
}

/// The bytes that a `wasm_encoder::Module` holds.
pub uninterp spec fn module_bytes(m: ModuleWriter) -> Seq<u8>;

/// `wasm_encoder::Module::new`: a module that holds the header of a module
/// and nothing else.
#[verifier::external_body]
fn module_new() -> (m: ModuleWriter)
    ensures
        module_bytes(m) == header(),
{
    ModuleWriter { inner: wasm_encoder::Module::new() }
}

/// `wasm_encoder::Module::section` with a `CustomSection`: adds the id 0,
/// the size of what follows, the name with its length, and `data`. The
/// crate does not return where the name, or the name and the data with
/// their lengths, are longer than 2^32 - 1 bytes.
#[verifier::external_body]
fn module_custom_section(m: &mut ModuleWriter, name: &str, data: &[u8])
    requires
        encode_name(name@).len() + data@.len() <= u32::MAX,
    ensures
        module_bytes(*final(m)) == module_bytes(*old(m)) + seq![0u8] + sized(
            encode_name(name@) + data@,
        ),
{
    m.inner.section(&wasm_encoder::CustomSection { name, data });
}

/// A memory type as `wasm_encoder` writes it: a byte of flags (1 for a
/// greatest size, 2 for a shared memory, 4 for 64-bit addresses), the least
/// size, and the greatest where there is one.
pub open spec fn memory_type_bytes(min: u32, max: Option<u32>, memory64: bool, shared: bool) -> Seq<
    u8,
> {
    let flags = (if max is Some {
        1int
    } else {
        0int
    }) + (if shared {
        2int
    } else {
        0int
    }) + (if memory64 {
        4int
    } else {
        0int
    });
    seq![flags as u8] + unsigned_leb128(min as nat) + match max {
        Some(v) => unsigned_leb128(v as nat),
        None => Seq::empty(),
    }
}

/// An active data segment as `wasm_encoder` writes it: a zero byte for the
/// memory 0, else the byte 2 and the memory; the offset as the expression
/// `i32.const offset; end`; and `data` with its length.
pub open spec fn data_segment_bytes(memory_index: u32, offset: i32, data: Seq<u8>) -> Seq<u8> {
    (if memory_index == 0 {
        seq![0x00u8]
    } else {
        seq![0x02u8] + unsigned_leb128(memory_index as nat)
    }) + seq![0x41u8] + signed_leb128(offset as int) + seq![0x0bu8] + encode_byte_vec(data)
}

/// `wasm_encoder::Module::section` with a `MemorySection` of one memory:
/// adds the id 5, the size of what follows, the number 1, and the type of
/// the memory.
#[verifier::external_body]
fn module_memory_section(
    m: &mut ModuleWriter,
    min: u32,
    max: Option<u32>,
    memory64: bool,
    shared: bool,
)
    ensures
        module_bytes(*final(m)) == module_bytes(*old(m)) + seq![5u8] + sized(
            unsigned_leb128(1) + memory_type_bytes(min, max, memory64, shared),
        ),
{
    let mut memories = wasm_encoder::MemorySection::new();
    memories.memory(
        wasm_encoder::MemoryType {
            minimum: min as u64,
            maximum: max.map(|v| v as u64),
            memory64,
            shared,
        },
    );
    m.inner.section(&memories);
}

/// `wasm_encoder::Module::section` with a `DataSection` of one active
/// segment of `data` in the memory `memory_index` at the offset
/// `i32.const offset`: adds the id 11, the size of what follows, the
/// number 1, and the segment. The crate does not return where that is
/// longer than 2^32 - 1 bytes.
#[verifier::external_body]
fn module_data_section(m: &mut ModuleWriter, memory_index: u32, offset: i32, data: Vec<u8>)
    requires
        1 + data_segment_bytes(memory_index, offset, data@).len() <= u32::MAX,
    ensures
        module_bytes(*final(m)) == module_bytes(*old(m)) + seq![11u8] + sized(
            unsigned_leb128(1) + data_segment_bytes(memory_index, offset, data@),
        ),
{
    let mut section = wasm_encoder::DataSection::new();
    let offset = wasm_encoder::ConstExpr::i32_const(offset);
    section.active(memory_index, &offset, data);
    m.inner.section(&section);
}

/// `wasm_encoder::Module::finish`: the bytes that the module holds.
#[verifier::external_body]
fn module_finish(m: ModuleWriter) -> (r: Vec<u8>)
    ensures
        r@ == module_bytes(m),
{
    m.inner.finish()
}

/// A memory of 32-bit addresses that is not shared is written as its
/// limits; a segment in the memory 0 at the offset 0 is written with the
/// expression `i32.const 0; end`, and is at most 10 bytes longer than its
/// bytes.
pub proof fn lemma_written_as_read(min: u32, max: Option<u32>, data: Seq<u8>)
    requires
        data.len() <= u32::MAX,
    ensures
        memory_type_bytes(min, max, false, false) == encode_limits(min, max),
        data_segment_bytes(0, 0, data) == seq![0x00u8, 0x41u8, 0x00u8, 0x0bu8] + encode_byte_vec(
            data,
        ),
        data_segment_bytes(0, 0, data).len() <= data.len() + 9,
{
    assert(memory_type_bytes(min, max, false, false) =~= encode_limits(min, max));
    assert(signed_leb128(0) =~= seq![0x00u8]);
    assert(data_segment_bytes(0, 0, data) =~= seq![0x00u8, 0x41u8, 0x00u8, 0x0bu8]
        + encode_byte_vec(data));
    lemma_unsigned_leb128_short(data.len());
}

/// Builds a coredump.
pub struct CoredumpBuilder {
    pub executable_name: String,
    pub threads: Vec<CoreStack>,
    pub memory: (u32, Option<u32>),
    pub data: Vec<u8>,
}

/// The sections of the threads from `from` on, one after the other: each
/// the custom section `corestack` with the stack of the thread.
pub open spec fn stack_sections(threads: Seq<CoreStackV>, n: nat) -> Seq<u8>
    decreases n,
{
    if n == 0 || n > threads.len() {
        Seq::empty()
    } else {
        stack_sections(threads, (n - 1) as nat) + seq![0u8] + sized(
            encode_name("corestack"@) + encode_core_stack(threads[n - 1]),
        )
    }
}

/// Whether each of the first `n` stacks is short enough to be written.
pub open spec fn stacks_fit(threads: Seq<CoreStackV>, n: nat) -> bool
    decreases n,
{
    if n == 0 || n > threads.len() {
        true
    } else {
        stacks_fit(threads, (n - 1) as nat) && encode_name("corestack"@).len() + encode_core_stack(
            threads[n - 1],
        ).len() <= u32::MAX
    }
}

impl CoredumpBuilder {
    /// A builder for a coredump of a process without a name, without
    /// threads, with a memory of no pages and an empty image.
    pub fn new() -> (r: Self)
        ensures
            r.executable_name@ == Seq::<char>::empty(),
            r.threads@.len() == 0,
            r.memory == (0u32, None::<u32>),
            r.data@.len() == 0,
    {
        CoredumpBuilder {
            executable_name: String::new(),
            threads: Vec::new(),
            memory: (0, None),
            data: Vec::new(),
        }
    }

    /// Sets the name of the executable.
    pub fn executable_name(self, name: &str) -> (r: Self)
        ensures
            r.executable_name@ == name@,
            r.threads == self.threads,
            r.memory == self.memory,
            r.data == self.data,
    {
        let mut r = self;
        r.executable_name = String::from_str(name);
        r
    }

    /// Sets the image of the memory of the process, from the address zero.
    pub fn data(self, bytes: &[u8]) -> (r: Self)
        ensures
            r.data@ == bytes@,
            r.executable_name == self.executable_name,
            r.threads == self.threads,
            r.memory == self.memory,
    {
        let mut r = self;
        r.data = slice_to_vec(bytes);
        r
    }

    /// Sets the limits of the memory of the process.
    pub fn memory(self, min: u32, max: Option<u32>) -> (r: Self)
        ensures
            r.memory == (min, max),
            r.executable_name == self.executable_name,
            r.threads == self.threads,
            r.data == self.data,
    {
        let mut r = self;
        r.memory = (min, max);
        r
    }

    /// Adds the stack of a thread.
    pub fn add_thread(&mut self, thread: CoreStack)
        ensures
            final(self).threads@ == old(self).threads@.push(thread),
            final(self).executable_name == old(self).executable_name,
            final(self).memory == old(self).memory,
            final(self).data == old(self).data,
    {
        self.threads.push(thread);
    }

    /// The coredump.
    pub fn build(self) -> (r: Coredump)
        ensures
            r.process_info.executable_name == self.executable_name,
            r.stacks == self.threads,
            r.memory@ == seq![self.memory],
            r.data == self.data,
    {
        let mut memory: Vec<(u32, Option<u32>)> = Vec::new();
        memory.push(self.memory);
        Coredump {
            process_info: ProcessInfo { executable_name: self.executable_name },
            stacks: self.threads,
            memory,
            data: self.data,
        }
    }

    /// The bytes of the coredump as a module: a `core` section with the
    /// process, a `corestack` section for each thread, a memory section with
    /// the limits of the memory, and a data section with its image.
    pub open spec fn serialized(&self) -> Seq<u8> {
        header() + seq![0u8] + sized(
            encode_name("core"@) + encode_process_info(
                ProcessInfoV { executable_name: self.executable_name@ },
            ),
        ) + stack_sections(self.threads.deep_view(), self.threads@.len()) + seq![5u8] + sized(
            unsigned_leb128(1) + encode_limits(self.memory.0, self.memory.1),
        ) + seq![11u8] + sized(
            unsigned_leb128(1) + (seq![0x00u8, 0x41u8, 0x00u8, 0x0bu8] + encode_byte_vec(self.data@)),
        )
    }

    /// Whether each section of the coredump is short enough to be written.
    pub open spec fn fits(&self) -> bool {
        &&& encode_name("core"@).len() + encode_process_info(
            ProcessInfoV { executable_name: self.executable_name@ },
        ).len() <= u32::MAX
        &&& stacks_fit(self.threads.deep_view(), self.threads@.len())
        &&& self.data@.len() + 16 <= u32::MAX
    }

    /// Encodes the coredump as a module.
    pub fn serialize(self) -> (r: Vec<u8>)
        requires
            self.fits(),
        ensures
            r@ == self.serialized(),
    {
        let mut module = module_new();
        let mut data: Vec<u8> = Vec::new();
        let process_info = ProcessInfo { executable_name: self.executable_name };
        encode_coredump_process(&mut data, &process_info);
        assert(data@ =~= encode_process_info(process_info.deep_view()));
        module_custom_section(&mut module, "core", data.as_slice());
        let ghost start = module_bytes(module);
        let ghost threads = self.threads.deep_view();
        let mut k: usize = 0;
        assert(start + stack_sections(threads, 0) =~= start);
        while k < self.threads.len()
            invariant
                k <= self.threads.len(),
                threads == self.threads.deep_view(),
                threads.len() == self.threads@.len(),
                stacks_fit(threads, threads.len()),
                module_bytes(module) == start + stack_sections(threads, k as nat),
            decreases self.threads.len() - k,
        {
            let mut data: Vec<u8> = Vec::new();
            encode_coredump_stack(&mut data, &self.threads[k]);
            assert(data@ =~= encode_core_stack(threads[k as int]));
            proof {
                lemma_stacks_fit(threads, (k + 1) as nat, threads.len());
            }
            module_custom_section(&mut module, "corestack", data.as_slice());
            k += 1;
            assert(module_bytes(module) =~= start + stack_sections(threads, k as nat));
        }
        proof {
            lemma_written_as_read(self.memory.0, self.memory.1, self.data@);
        }
        module_memory_section(&mut module, self.memory.0, self.memory.1, false, false);
        module_data_section(&mut module, 0, 0, self.data);
        module_finish(module)
    }
}

/// A section as it is built in memory, without a place in the input.
pub open spec fn built(v: SectionV) -> Value<SectionV> {
    Value { value: v, start_offset: 0, end_offset: 0 }
}

/// The size of a section that is built in memory: zero, as it is told
/// when the section is written.
pub open spec fn no_size() -> Value<u32> {
    Value { value: 0, start_offset: 0, end_offset: 0 }
}

/// The `corestack` sections of the first `n` of `threads`.
pub open spec fn stack_section_list(threads: Seq<CoreStackV>, n: nat) -> Seq<Value<SectionV>>
    decreases n,
{
    if n == 0 || n > threads.len() {
        Seq::empty()
    } else {
        stack_section_list(threads, (n - 1) as nat).push(
            built(SectionV::Custom(no_size(), CustomSectionV::CoredumpCoreStack(threads[n - 1]))),
        )
    }
}

impl CoredumpBuilder {
    /// The coredump as a module: the section `core`, a section `corestack`
    /// for each thread, the memory, and the image as an active data segment
    /// at the address zero.
    pub open spec fn as_module(&self) -> ModuleV {
        ModuleV {
            sections: (seq![built(core_section(self.executable_name@))] + stack_section_list(
                self.threads.deep_view(),
                self.threads@.len(),
            )) + seq![built(memory_section(self.memory)), built(data_section(self.data@))],
        }
    }
}

/// A number as it is built in memory, without a place in the input.
pub open spec fn no_size_of(n: u32) -> Value<u32> {
    Value { value: n, start_offset: 0, end_offset: 0 }
}

/// The encoding of sections put together is the encoding of the ones, then
/// that of the others.
pub proof fn lemma_encode_sections_concat(a: Seq<Value<SectionV>>, b: Seq<Value<SectionV>>, n: nat)
    requires
        n <= b.len(),
    ensures
        encode_sections(a + b, a.len() + n) == encode_sections(a, a.len()) + encode_sections(b, n),
    decreases n,
{
    if n == 0 {
        lemma_encode_sections_prefix(a + b, a, a.len());
        assert(encode_sections(a, a.len()) + encode_sections(b, 0) =~= encode_sections(
            a,
            a.len(),
        ));
    } else {
        lemma_encode_sections_concat(a, b, (n - 1) as nat);
        assert((a + b)[a.len() + n - 1] == b[n - 1]);
        assert(encode_sections(a + b, a.len() + n) =~= encode_sections(a, a.len())
            + encode_sections(b, n));
    }
}

/// The encoding of the first `n` sections depends on those alone.
pub proof fn lemma_encode_sections_prefix(a: Seq<Value<SectionV>>, b: Seq<Value<SectionV>>, n: nat)
    requires
        n <= a.len(),
        n <= b.len(),
        forall|k: int| 0 <= k < n ==> a[k] == b[k],
    ensures
        encode_sections(a, n) == encode_sections(b, n),
    decreases n,
{
    if n > 0 {
        lemma_encode_sections_prefix(a, b, (n - 1) as nat);
    }
}

/// The `corestack` sections encode to what is written for the threads.
pub proof fn lemma_stack_sections(threads: Seq<CoreStackV>, n: nat)
    requires
        n <= threads.len(),
    ensures
        stack_section_list(threads, n).len() == n,
        encode_sections(stack_section_list(threads, n), n) == stack_sections(threads, n),
        forall|k: int|
            0 <= k < n ==> section_canonical((#[trigger] stack_section_list(threads, n)[k]).value),
    decreases n,
{
    if n > 0 {
        lemma_stack_sections(threads, (n - 1) as nat);
        let before = stack_section_list(threads, (n - 1) as nat);
        let last = built(
            SectionV::Custom(no_size(), CustomSectionV::CoredumpCoreStack(threads[n - 1])),
        );
        let all = stack_section_list(threads, n);
        assert(all == before.push(last));
        lemma_encode_sections_prefix(all, before, (n - 1) as nat);
        assert(encode_sections(all, n) =~= stack_sections(threads, n));
        assert forall|k: int| 0 <= k < n implies section_canonical((#[trigger] all[k]).value) by {
            if k < n - 1 {
                assert(all[k] == before[k]);
            }
        }
    } else {
        assert(encode_sections(stack_section_list(threads, 0), 0) =~= stack_sections(threads, 0));
    }
}

/// The section of the memory of a coredump.
pub open spec fn memory_section(memory: (u32, Option<u32>)) -> SectionV {
    SectionV::Memory(no_size(), seq![Memory { min: no_size_of(memory.0), max: memory.1 }])
}

/// The section of the image of a coredump.
pub open spec fn data_section(data: Seq<u8>) -> SectionV {
    SectionV::Data(
        no_size(),
        seq![DataSegmentV { offset: Some(const_expr(0)), bytes: data, mode: DataSegmentMode::Active }],
    )
}

/// The section of the process of a coredump.
pub open spec fn core_section(name: Seq<char>) -> SectionV {
    SectionV::Custom(
        no_size(),
        CustomSectionV::CoredumpCore(ProcessInfoV { executable_name: name }),
    )
}

/// The memory section encodes to what is written for the memory.
pub proof fn lemma_memory_section(memory: (u32, Option<u32>))
    ensures
        encode_section(memory_section(memory)) == seq![5u8] + sized(
            unsigned_leb128(1) + encode_limits(memory.0, memory.1),
        ),
        section_canonical(memory_section(memory)),
{
    lemma_one_item::<Memory>(Memory { min: no_size_of(memory.0), max: memory.1 });
}

/// The data section encodes to what is written for the image.
pub proof fn lemma_data_section(data: Seq<u8>)
    ensures
        encode_section(data_section(data)) == seq![11u8] + sized(
            unsigned_leb128(1) + (seq![0x00u8, 0x41u8, 0x00u8, 0x0bu8] + encode_byte_vec(data)),
        ),
        section_canonical(data_section(data)),
{
    let segment = DataSegmentV {
        offset: Some(const_expr(0)),
        bytes: data,
        mode: DataSegmentMode::Active,
    };
    lemma_one_item::<DataSegment>(segment);
    lemma_const_expr();
    assert(encode_data(segment) =~= seq![0x00u8, 0x41u8, 0x00u8, 0x0bu8]
        + encode_byte_vec(data));
    assert(body_canonical(const_expr(0).value, 0)) by {
        let nodes = const_expr(0).value;
        assert(nodes.len() == 2);
        assert(nodes[0].value == InstrV::Leaf(Instr::i32_const(0)));
        assert(nodes[1].value == InstrV::Leaf(Instr::end));
        assert(opcode(Instr::i32_const(0)) == Some(0x41u8));
        assert(leaf_encodable(Instr::i32_const(0)));
        assert(instr_canonical(nodes[0].value));
        assert(!is_end(nodes[0].value));
        assert(is_end(nodes[1].value));
        assert(body_canonical(nodes, 1));
    }
    assert forall|k: int| 0 <= k < seq![segment].len() implies <DataSegment as Roundtrip>::canonical(
        #[trigger] seq![segment][k],
    ) by {
        assert(seq![segment][k] == segment);
    }
}

/// The sections of a coredump in two parts: those of the process and of
/// the threads, and those of the memory and of the image.
pub proof fn lemma_as_module(b: CoredumpBuilder)
    ensures
        b.as_module().sections == (seq![built(core_section(b.executable_name@))]
            + stack_section_list(b.threads.deep_view(), b.threads@.len())) + seq![
            built(memory_section(b.memory)),
            built(data_section(b.data@)),
        ],
{
}

/// What `serialize` writes is the encoding of the coredump as a module.
pub proof fn lemma_serialized(b: CoredumpBuilder)
    ensures
        b.serialized() == encode_module(b.as_module()),
{
    let threads = b.threads.deep_view();
    let n = b.threads@.len();
    lemma_stack_sections(threads, n);
    lemma_memory_section(b.memory);
    lemma_data_section(b.data@);
    lemma_as_module(b);
    let core = built(core_section(b.executable_name@));
    let stacks = stack_section_list(threads, n);
    let memory = built(memory_section(b.memory));
    let data = built(data_section(b.data@));
    let head = seq![core];
    let tail = seq![memory, data];
    lemma_encode_sections_concat(head + stacks, tail, 2);
    lemma_encode_sections_concat(head, stacks, n);
    assert(encode_sections(head, 1) =~= encode_section(core.value)) by {
        assert(encode_sections(head, 0) =~= Seq::<u8>::empty());
    }
    assert(encode_sections(tail, 2) =~= encode_section(memory.value) + encode_section(data.value))
        by {
        assert(encode_sections(tail, 0) =~= Seq::<u8>::empty());
        assert(encode_sections(tail, 1) =~= encode_section(memory.value));
    }
    let all = b.as_module().sections;
    assert(all.len() == (head + stacks).len() + 2);
    assert(encode_sections(all, all.len()) == (encode_section(core.value) + stack_sections(
        threads,
        n,
    )) + (encode_section(memory.value) + encode_section(data.value)));
    let process = sized(
        encode_name("core"@) + encode_process_info(
            ProcessInfoV { executable_name: b.executable_name@ },
        ),
    );
    assert(encode_section(core.value) == seq![0u8] + process);
    lemma_eight(
        header(),
        seq![0u8],
        process,
        stack_sections(threads, n),
        seq![5u8],
        sized(unsigned_leb128(1) + encode_limits(b.memory.0, b.memory.1)),
        seq![11u8],
        sized(
            unsigned_leb128(1) + (seq![0x00u8, 0x41u8, 0x00u8, 0x0bu8] + encode_byte_vec(b.data@)),
        ),
    );
}

/// Eight runs of bytes written one after the other are the first, then the
/// others section by section.
proof fn lemma_eight(
    h: Seq<u8>,
    a: Seq<u8>,
    b: Seq<u8>,
    c: Seq<u8>,
    d: Seq<u8>,
    e: Seq<u8>,
    f: Seq<u8>,
    g: Seq<u8>,
)
    ensures
        h + a + b + c + d + e + f + g == h + (((a + b) + c) + ((d + e) + (f + g))),
{
    assert(h + a + b + c + d + e + f + g =~= h + (((a + b) + c) + ((d + e) + (f + g))));
}

/// The coredump as a module is one that the decoder reads back.
pub proof fn lemma_as_module_canonical(b: CoredumpBuilder)
    ensures
        module_canonical(b.as_module()),
{
    let threads = b.threads.deep_view();
    let n = b.threads@.len();
    lemma_stack_sections(threads, n);
    lemma_memory_section(b.memory);
    lemma_data_section(b.data@);
    lemma_as_module(b);
    let stacks = stack_section_list(threads, n);
    let all = b.as_module().sections;
    assert forall|k: int| 0 <= k < all.len() implies section_canonical(
        (#[trigger] all[k]).value,
    ) by {
        if k == 0 {
        } else if k <= n {
            assert(all[k] == stacks[k - 1]);
        } else if k == n + 1 {
            assert(all[k] == built(memory_section(b.memory)));
        } else {
            assert(all[k] == built(data_section(b.data@)));
        }
    }
}

/// The encoding of one item as a vector: the number 1, then the item.
pub proof fn lemma_one_item<T: Encode>(x: T::V)
    ensures
        encode_vec::<T>(seq![x]) == unsigned_leb128(1) + T::encoding(x),
{
    let items = seq![x];
    assert(items.drop_last() =~= Seq::<T::V>::empty());
    assert(encode_items::<T>(Seq::<T::V>::empty()) =~= Seq::<u8>::empty());
    assert(encode_items::<T>(items) =~= T::encoding(x));
}

/// The expression `i32.const 0; end` is written as three bytes, and the
/// number 0 as one.
pub proof fn lemma_const_expr()
    ensures
        encode_expr(const_expr(0)) == seq![0x41u8, 0x00u8, 0x0bu8],
        unsigned_leb128(0) == seq![0x00u8],
{
    let nodes = const_expr(0).value;
    assert(nodes.len() == 2);
    assert(nodes[0].value == InstrV::Leaf(Instr::i32_const(0)));
    assert(nodes[1].value == InstrV::Leaf(Instr::end));
    assert(signed_leb128(0) =~= seq![0x00u8]);
    assert(immediates(Instr::i32_const(0)) == signed_leb128(0));
    assert(opcode(Instr::i32_const(0)) == Some(0x41u8));
    assert(opcode(Instr::end) == Some(0x0bu8));
    assert(encode_instr(nodes[0].value) =~= seq![0x41u8, 0x00u8]);
    assert(encode_instr(nodes[1].value) =~= seq![0x0bu8]);
    assert(encode_nodes(nodes, 0) =~= Seq::<u8>::empty());
    assert(encode_nodes(nodes, 1) =~= seq![0x41u8, 0x00u8]);
    assert(encode_nodes(nodes, 2) =~= seq![0x41u8, 0x00u8, 0x0bu8]);
    assert(unsigned_leb128(0) =~= seq![0x00u8]);
}

/// A coredump that was written is decoded: where what `serialize` writes
/// is shorter than 2^32 bytes, it decodes to a module that encodes to the
/// same bytes.
pub proof fn lemma_serialized_decodes(b: CoredumpBuilder)
    requires
        b.serialized().len() < 0x1_0000_0000,
    ensures
        decode_module(b.serialized()) matches Ok(w) && module_encodable(w) && encode_module(w)
            == b.serialized(),
{
    lemma_serialized(b);
    lemma_as_module_canonical(b);
    lemma_encode_decode_encode(b.as_module());
}

/// Where the first stacks fit, fewer of them fit.
pub proof fn lemma_stacks_fit(threads: Seq<CoreStackV>, k: nat, n: nat)
    requires
        k <= n <= threads.len(),
        stacks_fit(threads, n),
    ensures
        stacks_fit(threads, k),
    decreases n,
{
    if k < n {
        lemma_stacks_fit(threads, k, (n - 1) as nat);
    }
}

} // verus!
