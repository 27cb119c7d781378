//! The text form of a coredump.

use crate::coredump_types::{
    CoreStack, CoreStackV, Coredump, CoredumpV, ProcessInfo, ProcessInfoV, StackFrame, StackFrameV,
    Value,
};
use vstd::prelude::*;
use vstd::string::StringExecFns;

verus! {

/// The character of a digit.
pub open spec fn digit(d: nat) -> char {
    if d == 0 {
        '0'
    } else if d == 1 {
        '1'
    } else if d == 2 {
        '2'
    } else if d == 3 {
        '3'
    } else if d == 4 {
        '4'
    } else if d == 5 {
        '5'
    } else if d == 6 {
        '6'
    } else if d == 7 {
        '7'
    } else if d == 8 {
        '8'
    } else if d == 9 {
        '9'
    } else if d == 10 {
        'a'
    } else if d == 11 {
        'b'
    } else if d == 12 {
        'c'
    } else if d == 13 {
        'd'
    } else if d == 14 {
        'e'
    } else {
        'f'
    }
}

/// The digits of `n` to the base `base`, the most significant first.
pub open spec fn digits(n: nat, base: nat) -> Seq<char>
    decreases n,
{
    if base < 2 || n < base {
        seq![digit(n)]
    } else {
        proof {
            assert(n / base < n) by (nonlinear_arith)
                requires
                    base >= 2,
                    n >= base,
            ;
        }
        digits(n / base, base).push(digit(n % base))
    }
}

/// The decimal form of `n`.
pub open spec fn decimal(n: nat) -> Seq<char> {
    digits(n, 10)
}

/// The decimal form of `v`, with a minus sign where it is negative.
pub open spec fn signed_decimal(v: int) -> Seq<char> {
    if v < 0 {
        seq!['-'] + decimal((-v) as nat)
    } else {
        decimal(v as nat)
    }
}

/// The hexadecimal form of `n`, behind `0x`.
pub open spec fn hexadecimal(n: nat) -> Seq<char> {
    seq!['0', 'x'] + digits(n, 16)
}

fn digit_text(d: u8) -> (r: &'static str)
    requires
        d < 16,
    ensures
        r@ == seq![digit(d as nat)],
{
    proof {
        reveal_strlit("0");
        reveal_strlit("1");
        reveal_strlit("2");
        reveal_strlit("3");
        reveal_strlit("4");
        reveal_strlit("5");
        reveal_strlit("6");
        reveal_strlit("7");
        reveal_strlit("8");
        reveal_strlit("9");
        reveal_strlit("a");
        reveal_strlit("b");
        reveal_strlit("c");
        reveal_strlit("d");
        reveal_strlit("e");
        reveal_strlit("f");
    }
    let r = match d {
        0 => "0",
        1 => "1",
        2 => "2",
        3 => "3",
        4 => "4",
        5 => "5",
        6 => "6",
        7 => "7",
        8 => "8",
        9 => "9",
        10 => "a",
        11 => "b",
        12 => "c",
        13 => "d",
        14 => "e",
        _ => "f",
    };
    assert(r@ =~= seq![digit(d as nat)]);
    r
}

/// Appends the digits of `n` to the base `base` to `out`.
pub fn write_digits(out: &mut String, n: u64, base: u64)
    requires
        2 <= base <= 16,
    ensures
        final(out)@ == old(out)@ + digits(n as nat, base as nat),
{
    let mut stack: Vec<u8> = Vec::new();
    let mut rest = n;
    while rest >= base
        invariant
            2 <= base <= 16,
            forall|k: int| 0 <= k < stack@.len() ==> #[trigger] stack@[k] < 16,
            digits(n as nat, base as nat) == digits(rest as nat, base as nat) + stack@.reverse().map_values(
                |d: u8| digit(d as nat),
            ),
        decreases rest,
    {
        let ghost before = stack@;
        let d = (rest % base) as u8;
        stack.push(d);
        proof {
            let f = |d: u8| digit(d as nat);
            assert(stack@.reverse().map_values(f) =~= seq![digit(d as nat)] + before.reverse().map_values(f));
            assert(digits(rest as nat, base as nat) == digits((rest / base) as nat, base as nat).push(
                digit((rest % base) as nat),
            ));
            assert(digits((rest / base) as nat, base as nat).push(digit(d as nat)) + before.reverse().map_values(f)
                =~= digits((rest / base) as nat, base as nat) + (seq![digit(d as nat)]
                + before.reverse().map_values(f)));
        }
        rest = rest / base;
    }
    out.append(digit_text(rest as u8));
    let ghost start = out@;
    let ghost all = stack@;
    let ghost f = |d: u8| digit(d as nat);
    assert(all.subrange(all.len() as int, all.len() as int).reverse().map_values(f) =~= Seq::<char>::empty());
    while stack.len() > 0
        invariant
            stack@.len() <= all.len(),
            stack@ == all.subrange(0, stack@.len() as int),
            forall|k: int| 0 <= k < all.len() ==> #[trigger] all[k] < 16,
            f == |d: u8| digit(d as nat),
            out@ == start + all.subrange(stack@.len() as int, all.len() as int).reverse().map_values(f),
        decreases stack@.len(),
    {
        let ghost n0 = stack@.len();
        let d = stack.pop().unwrap();
        assert(d == all[n0 - 1]);
        out.append(digit_text(d));
        assert(stack@ =~= all.subrange(0, stack@.len() as int));
        assert(all.subrange(n0 - 1, all.len() as int).reverse().map_values(f) =~= all.subrange(
            n0 as int,
            all.len() as int,
        ).reverse().map_values(f).push(digit(d as nat)));
    }
    assert(all.subrange(0, all.len() as int) =~= all);
    assert(out@ =~= old(out)@ + digits(n as nat, base as nat));
}

/// Appends the decimal form of `n` to `out`.
pub fn write_decimal(out: &mut String, n: u64)
    ensures
        final(out)@ == old(out)@ + decimal(n as nat),
{
    write_digits(out, n, 10);
}

/// Appends the decimal form of `v` to `out`.
pub fn write_signed_decimal(out: &mut String, v: i64)
    ensures
        final(out)@ == old(out)@ + signed_decimal(v as int),
{
    if v < 0 {
        proof {
            reveal_strlit("-");
        }
        out.append("-");
        let magnitude: u64 = if v == i64::MIN {
            0x8000_0000_0000_0000
        } else {
            (-v) as u64
        };
        write_decimal(out, magnitude);
        assert(out@ =~= old(out)@ + signed_decimal(v as int));
    } else {
        write_decimal(out, v as u64);
    }
}

/// Appends the hexadecimal form of `n` to `out`.
pub fn write_hexadecimal(out: &mut String, n: u64)
    ensures
        final(out)@ == old(out)@ + hexadecimal(n as nat),
{
    proof {
        reveal_strlit("0x");
    }
    out.append("0x");
    write_digits(out, n, 16);
    assert(out@ =~= old(out)@ + hexadecimal(n as nat));
}

/// Four spaces for each level of `depth`.
pub open spec fn indent(depth: nat) -> Seq<char>
    decreases depth,
{
    if depth == 0 {
        Seq::empty()
    } else {
        indent((depth - 1) as nat) + "    "@
    }
}

fn write_indent(out: &mut String, depth: usize)
    ensures
        final(out)@ == old(out)@ + indent(depth as nat),
{
    let mut k: usize = 0;
    assert(out@ =~= old(out)@ + indent(0));
    while k < depth
        invariant
            k <= depth,
            out@ == old(out)@ + indent(k as nat),
        decreases depth - k,
    {
        out.append("    ");
        k += 1;
        assert(out@ =~= old(out)@ + indent(k as nat));
    }
}

/// The line of the process.
pub open spec fn process_text(depth: nat, info: ProcessInfoV) -> Seq<char> {
    indent(depth) + "(process"@ + " (name \""@ + info.executable_name + "\")"@ + ")\n"@
}

/// Appends the text of the process to `out`, `depth` steps from the margin.
pub fn dump_process_info(out: &mut String, depth: usize, process_info: &ProcessInfo)
    ensures
        final(out)@ == old(out)@ + process_text(depth as nat, process_info.deep_view()),
{
    write_indent(out, depth);
    out.append("(process");
    out.append(" (name \"");
    out.append(process_info.executable_name.as_str());
    out.append("\")");
    out.append(")\n");
    assert(out@ =~= old(out)@ + process_text(depth as nat, process_info.deep_view()));
}

/// The name of the type of a captured value.
pub open spec fn value_type_text(v: Value) -> Seq<char> {
    match v {
        Value::Missing => ""@,
        Value::I32(_) => "i32"@,
        Value::I64(_) => "i64"@,
        Value::F32(_) => "f32"@,
        Value::F64(_) => "f64"@,
    }
}

/// Appends the name of the type of `value` to `out`.
pub fn dump_value_type(out: &mut String, value: &Value)
    ensures
        final(out)@ == old(out)@ + value_type_text(*value),
{
    let v = match value {
        Value::Missing => "",
        Value::I32(_) => "i32",
        Value::I64(_) => "i64",
        Value::F32(_) => "f32",
        Value::F64(_) => "f64",
    };
    out.append(v);
}

/// The text of a captured value: an integer in decimal, a floating-point
/// number by its bits in hexadecimal.
pub open spec fn value_text(v: Value) -> Seq<char> {
    match v {
        Value::Missing => "(optimized out)"@,
        Value::I32(x) => signed_decimal(x as int),
        Value::I64(x) => signed_decimal(x as int),
        Value::F32(bits) => hexadecimal(bits as nat),
        Value::F64(bits) => hexadecimal(bits as nat),
    }
}

/// Appends the text of `value` to `out`.
pub fn dump_value(out: &mut String, value: &Value)
    ensures
        final(out)@ == old(out)@ + value_text(*value),
{
    match value {
        Value::Missing => {
            out.append("(optimized out)");
        },
        Value::I32(v) => {
            write_signed_decimal(out, *v as i64);
        },
        Value::I64(v) => {
            write_signed_decimal(out, *v);
        },
        Value::F32(bits) => {
            write_hexadecimal(out, *bits as u64);
        },
        Value::F64(bits) => {
            write_hexadecimal(out, *bits);
        },
    }
}

/// The line of a captured local.
pub open spec fn local_text(depth: nat, v: Value) -> Seq<char> {
    indent(depth) + "(local "@ + value_type_text(v) + " "@ + value_text(v) + ")\n"@
}

/// The lines of the first `n` of `locals`.
pub open spec fn locals_text(depth: nat, locals: Seq<Value>, n: nat) -> Seq<char>
    decreases n,
{
    if n == 0 || n > locals.len() {
        Seq::empty()
    } else {
        locals_text(depth, locals, (n - 1) as nat) + local_text(depth, locals[n - 1])
    }
}

/// The text of a frame: the function and the offset on one line where
/// there are no locals, and else the locals on lines of their own.
pub open spec fn frame_text(depth: nat, frame: StackFrameV) -> Seq<char> {
    let head = indent(depth) + "(func "@ + decimal(frame.funcidx as nat) + " (offset "@ + decimal(
        frame.codeoffset as nat,
    ) + ")"@;
    if frame.locals.len() > 0 {
        head + "\n"@ + locals_text(depth + 1, frame.locals, frame.locals.len()) + indent(depth)
            + ")\n"@
    } else {
        head + ")\n"@
    }
}

/// Appends the text of a frame to `out`, `depth` steps from the margin.
pub fn dump_frame(out: &mut String, depth: usize, frame: &StackFrame)
    requires
        depth < usize::MAX,
    ensures
        final(out)@ == old(out)@ + frame_text(depth as nat, frame.deep_view()),
{
    write_indent(out, depth);
    out.append("(func ");
    write_decimal(out, frame.funcidx as u64);
    out.append(" (offset ");
    write_decimal(out, frame.codeoffset as u64);
    out.append(")");
    if frame.locals.len() > 0 {
        out.append("\n");
        let ghost start = out@;
        let mut k: usize = 0;
        assert(out@ =~= start + locals_text((depth + 1) as nat, frame.locals@, 0));
        while k < frame.locals.len()
            invariant
                k <= frame.locals.len(),
                depth < usize::MAX,
                out@ == start + locals_text((depth + 1) as nat, frame.locals@, k as nat),
            decreases frame.locals.len() - k,
        {
            let local = &frame.locals[k];
            write_indent(out, depth + 1);
            out.append("(local ");
            dump_value_type(out, local);
            out.append(" ");
            dump_value(out, local);
            out.append(")\n");
            k += 1;
            assert(out@ =~= start + locals_text((depth + 1) as nat, frame.locals@, k as nat));
        }
        write_indent(out, depth);
        out.append(")\n");
        assert(out@ =~= old(out)@ + frame_text(depth as nat, frame.deep_view()));
    } else {
        out.append(")\n");
        assert(out@ =~= old(out)@ + frame_text(depth as nat, frame.deep_view()));
    }
}

/// The texts of the first `n` of `frames`.
pub open spec fn frames_text(depth: nat, frames: Seq<StackFrameV>, n: nat) -> Seq<char>
    decreases n,
{
    if n == 0 || n > frames.len() {
        Seq::empty()
    } else {
        frames_text(depth, frames, (n - 1) as nat) + frame_text(depth, frames[n - 1])
    }
}

/// The text of the stack of a thread: its name, then its frames.
pub open spec fn stack_text(depth: nat, stack: CoreStackV) -> Seq<char> {
    indent(depth) + "(thread"@ + " (name \""@ + stack.thread_info.thread_name + "\")\n"@ + frames_text(
        depth + 1,
        stack.frames,
        stack.frames.len(),
    ) + indent(depth) + ")\n"@
}

/// Appends the text of the stack of a thread to `out`, `depth` steps from the
/// margin.
pub fn dump_stack(out: &mut String, depth: usize, stack: &CoreStack)
    requires
        depth < usize::MAX - 1,
    ensures
        final(out)@ == old(out)@ + stack_text(depth as nat, stack.deep_view()),
{
    write_indent(out, depth);
    out.append("(thread");
    out.append(" (name \"");
    out.append(stack.thread_info.thread_name.as_str());
    out.append("\")\n");
    let ghost start = out@;
    let ghost frames = stack.frames.deep_view();
    let mut k: usize = 0;
    assert(out@ =~= start + frames_text((depth + 1) as nat, frames, 0));
    while k < stack.frames.len()
        invariant
            k <= stack.frames.len(),
            depth < usize::MAX - 1,
            frames == stack.frames.deep_view(),
            frames.len() == stack.frames@.len(),
            out@ == start + frames_text((depth + 1) as nat, frames, k as nat),
        decreases stack.frames.len() - k,
    {
        assert(frames[k as int] == stack.frames@[k as int].deep_view());
        dump_frame(out, depth + 1, &stack.frames[k]);
        k += 1;
        assert(out@ =~= start + frames_text((depth + 1) as nat, frames, k as nat));
    }
    write_indent(out, depth);
    out.append(")\n");
    assert(out@ =~= old(out)@ + stack_text(depth as nat, stack.deep_view()));
}

/// The line of the memory image: its length.
pub open spec fn data_text(depth: nat, len: nat) -> Seq<char> {
    indent(depth) + "(data"@ + " (i32.const 0)"@ + " \"..."@ + decimal(len) + " bytes\""@ + ")\n"@
}

/// Appends the text of the memory image to `out`, `depth` steps from the
/// margin.
pub fn dump_data(out: &mut String, depth: usize, data: &[u8])
    ensures
        final(out)@ == old(out)@ + data_text(depth as nat, data@.len()),
{
    write_indent(out, depth);
    out.append("(data");
    out.append(" (i32.const 0)");
    out.append(" \"...");
    write_decimal(out, data.len() as u64);
    out.append(" bytes\"");
    out.append(")\n");
    assert(out@ =~= old(out)@ + data_text(depth as nat, data@.len()));
}

/// The line of a memory: its minimum, and its maximum where it has one.
pub open spec fn memory_text(depth: nat, memory: (u32, Option<u32>)) -> Seq<char> {
    indent(depth) + "(memory "@ + decimal(memory.0 as nat) + match memory.1 {
        Some(max) => " "@ + decimal(max as nat) + ")\n"@,
        None => ")\n"@,
    }
}

/// The lines of the first `n` of `memories`.
pub open spec fn memories_text(depth: nat, memories: Seq<(u32, Option<u32>)>, n: nat) -> Seq<char>
    decreases n,
{
    if n == 0 || n > memories.len() {
        Seq::empty()
    } else {
        memories_text(depth, memories, (n - 1) as nat) + memory_text(depth, memories[n - 1])
    }
}

/// Appends the text of the memories to `out`, `depth` steps from the margin.
pub fn dump_memory(out: &mut String, depth: usize, memories: &Vec<(u32, Option<u32>)>)
    ensures
        final(out)@ == old(out)@ + memories_text(depth as nat, memories@, memories@.len()),
{
    let mut k: usize = 0;
    assert(out@ =~= old(out)@ + memories_text(depth as nat, memories@, 0));
    while k < memories.len()
        invariant
            k <= memories.len(),
            out@ == old(out)@ + memories_text(depth as nat, memories@, k as nat),
        decreases memories.len() - k,
    {
        let memory = memories[k];
        let ghost before = out@;
        write_indent(out, depth);
        out.append("(memory ");
        write_decimal(out, memory.0 as u64);
        if let Some(max) = memory.1 {
            out.append(" ");
            write_decimal(out, max as u64);
            out.append(")\n");
        } else {
            out.append(")\n");
        }
        assert(out@ =~= before + memory_text(depth as nat, memory));
        k += 1;
        assert(out@ =~= old(out)@ + memories_text(depth as nat, memories@, k as nat));
    }
}

/// The texts of the first `n` of `stacks`.
pub open spec fn stacks_text(stacks: Seq<CoreStackV>, n: nat) -> Seq<char>
    decreases n,
{
    if n == 0 || n > stacks.len() {
        Seq::empty()
    } else {
        stacks_text(stacks, (n - 1) as nat) + stack_text(1, stacks[n - 1])
    }
}

/// The text of a coredump: the process, the stack of each thread, the
/// memory image where it is not empty, and the memories.
pub open spec fn coredump_text(c: CoredumpV) -> Seq<char> {
    "(module (coredump)\n"@ + process_text(1, c.process_info) + stacks_text(c.stacks, c.stacks.len())
        + (if c.data.len() > 0 {
        data_text(1, c.data.len())
    } else {
        Seq::empty()
    }) + memories_text(1, c.memory, c.memory.len()) + ")"@
}

/// Six texts written one after the other are their concatenation, written
/// at once.
proof fn lemma_six(
    x: Seq<char>,
    a: Seq<char>,
    b: Seq<char>,
    c: Seq<char>,
    d: Seq<char>,
    e: Seq<char>,
    f: Seq<char>,
)
    ensures
        (((((x + a) + b) + c) + d) + e) + f == x + (a + b + c + d + e + f),
{
    assert((((((x + a) + b) + c) + d) + e) + f =~= x + (a + b + c + d + e + f));
}

/// Appends the text of `coredump` to `out`.
pub fn dump_coredump(out: &mut String, coredump: &Coredump)
    ensures
        final(out)@ == old(out)@ + coredump_text(coredump.deep_view()),
{
    let ghost view = coredump.deep_view();
    out.append("(module (coredump)\n");
    dump_process_info(out, 1, &coredump.process_info);
    let ghost start = out@;
    let ghost stacks = coredump.stacks.deep_view();
    let mut k: usize = 0;
    assert(out@ =~= start + stacks_text(stacks, 0));
    while k < coredump.stacks.len()
        invariant
            k <= coredump.stacks.len(),
            stacks == coredump.stacks.deep_view(),
            stacks.len() == coredump.stacks@.len(),
            out@ == start + stacks_text(stacks, k as nat),
        decreases coredump.stacks.len() - k,
    {
        assert(stacks[k as int] == coredump.stacks@[k as int].deep_view());
        dump_stack(out, 1, &coredump.stacks[k]);
        k += 1;
        assert(out@ =~= start + stacks_text(stacks, k as nat));
    }
    let ghost middle = out@;
    let ghost data = if view.data.len() > 0 {
        data_text(1, view.data.len())
    } else {
        Seq::empty()
    };
    if coredump.data.len() > 0 {
        dump_data(out, 1, coredump.data.as_slice());
    } else {
        assert(out@ =~= middle + Seq::<char>::empty());
    }
    assert(out@ == middle + data);
    dump_memory(out, 1, &coredump.memory);
    out.append(")");
    proof {
        lemma_six(
            old(out)@,
            "(module (coredump)\n"@,
            process_text(1, view.process_info),
            stacks_text(view.stacks, view.stacks.len()),
            data,
            memories_text(1, view.memory, view.memory.len()),
            ")"@,
        );
    }
}

} // verus!
