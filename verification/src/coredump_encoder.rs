//! The encoding of the two custom sections of a coredump.

use crate::coredump_types::{CoreStack, CoreStackV, ProcessInfo, ProcessInfoV, StackFrameV};
use crate::varint::{unsigned_leb128, write_unsigned_leb128};
use vstd::prelude::*;
use vstd::utf8::encode_utf8;

verus! {

/// A string: the length of its UTF-8 form as LEB128, then that form.
pub open spec fn encode_string(text: Seq<char>) -> Seq<u8> {
    unsigned_leb128(encode_utf8(text).len()) + encode_utf8(text)
}

fn write_utf8(buffer: &mut Vec<u8>, v: &str)
    ensures
        final(buffer)@ == old(buffer)@ + encode_string(v@),
{
    let bytes = v.as_bytes();
    write_unsigned_leb128(buffer, bytes.len() as u64);
    let mut k: usize = 0;
    let ghost start = buffer@;
    while k < bytes.len()
        invariant
            k <= bytes.len(),
            buffer@ == start + bytes@.subrange(0, k as int),
        decreases bytes.len() - k,
    {
        buffer.push(bytes[k]);
        k += 1;
        assert(buffer@ =~= start + bytes@.subrange(0, k as int));
    }
    assert(bytes@.subrange(0, k as int) =~= bytes@);
    assert(buffer@ =~= old(buffer)@ + encode_string(v@));
}

/// The process of a coredump: a zero byte, then the name of the executable.
pub open spec fn encode_process_info(info: ProcessInfoV) -> Seq<u8> {
    seq![0x0u8] + encode_string(info.executable_name)
}

/// Appends the encoding of `process_info` to `buffer`.
pub fn encode_coredump_process(buffer: &mut Vec<u8>, process_info: &ProcessInfo)
    ensures
        final(buffer)@ == old(buffer)@ + encode_process_info(process_info.deep_view()),
{
    buffer.push(0x0);
    write_utf8(buffer, process_info.executable_name.as_str());
    assert(buffer@ =~= old(buffer)@ + encode_process_info(process_info.deep_view()));
}

/// A stack frame: a zero byte, the function's index, the offset in its code,
/// and two zeros for the numbers of locals and of stack values, which are
/// not written.
pub open spec fn encode_frame(frame: StackFrameV) -> Seq<u8> {
    seq![0x0u8] + unsigned_leb128(frame.funcidx as nat) + unsigned_leb128(frame.codeoffset as nat)
        + unsigned_leb128(0) + unsigned_leb128(0)
}

/// The encodings of the first `n` of `frames`, one after the other.
pub open spec fn encode_frames(frames: Seq<StackFrameV>, n: nat) -> Seq<u8>
    decreases n,
{
    if n == 0 || n > frames.len() {
        Seq::empty()
    } else {
        encode_frames(frames, (n - 1) as nat) + encode_frame(frames[n - 1])
    }
}

/// The stack of a thread: a zero byte, the thread's name, the number of
/// frames, the frames.
pub open spec fn encode_core_stack(stack: CoreStackV) -> Seq<u8> {
    seq![0x0u8] + encode_string(stack.thread_info.thread_name) + unsigned_leb128(
        stack.frames.len(),
    ) + encode_frames(stack.frames, stack.frames.len())
}

/// Appends the encoding of `stack` to `buffer`.
pub fn encode_coredump_stack(buffer: &mut Vec<u8>, stack: &CoreStack)
    ensures
        final(buffer)@ == old(buffer)@ + encode_core_stack(stack.deep_view()),
{
    buffer.push(0x0);
    write_utf8(buffer, stack.thread_info.thread_name.as_str());
    write_unsigned_leb128(buffer, stack.frames.len() as u64);
    let ghost frames = stack.frames.deep_view();
    let ghost start = buffer@;
    let mut k: usize = 0;
    assert(buffer@ =~= start + encode_frames(frames, 0));
    while k < stack.frames.len()
        invariant
            k <= stack.frames.len(),
            frames == stack.frames.deep_view(),
            frames.len() == stack.frames@.len(),
            buffer@ == start + encode_frames(frames, k as nat),
        decreases stack.frames.len() - k,
    {
        let frame = &stack.frames[k];
        assert(frames[k as int] == frame.deep_view());
        buffer.push(0x0);
        write_unsigned_leb128(buffer, frame.funcidx as u64);
        write_unsigned_leb128(buffer, frame.codeoffset as u64);
        write_unsigned_leb128(buffer, 0);
        write_unsigned_leb128(buffer, 0);
        k += 1;
        assert(buffer@ =~= start + encode_frames(frames, k as nat));
    }
    assert(buffer@ =~= old(buffer)@ + encode_core_stack(stack.deep_view()));
}

} // verus!
