//! What a coredump holds: the process, the stack of each thread, the memory.

use vstd::prelude::*;
use vstd::slice::slice_to_vec;

verus! {

/// The process that a coredump was taken of.
#[derive(Debug, PartialEq)]
pub struct ProcessInfo {
    pub executable_name: String,
}

/// What a `ProcessInfo` holds.
pub struct ProcessInfoV {
    pub executable_name: Seq<char>,
}

impl DeepView for ProcessInfo {
    type V = ProcessInfoV;

    open spec fn deep_view(&self) -> ProcessInfoV {
        ProcessInfoV { executable_name: self.executable_name@ }
    }
}

impl Clone for ProcessInfo {
    fn clone(&self) -> (r: Self)
        ensures
            r.deep_view() == self.deep_view(),
    {
        ProcessInfo { executable_name: self.executable_name.clone() }
    }
}

/// A thread of the process.
#[derive(Debug, PartialEq)]
pub struct ThreadInfo {
    pub thread_name: String,
}

/// What a `ThreadInfo` holds.
pub struct ThreadInfoV {
    pub thread_name: Seq<char>,
}

impl DeepView for ThreadInfo {
    type V = ThreadInfoV;

    open spec fn deep_view(&self) -> ThreadInfoV {
        ThreadInfoV { thread_name: self.thread_name@ }
    }
}

impl Clone for ThreadInfo {
    fn clone(&self) -> (r: Self)
        ensures
            r.deep_view() == self.deep_view(),
    {
        ThreadInfo { thread_name: self.thread_name.clone() }
    }
}

/// A captured value of a local or of the operand stack. A floating-point value
/// holds the bits of its IEEE 754 form.
#[derive(Debug, Clone, Copy, PartialEq, Eq, Structural)]
pub enum Value {
    Missing,
    I32(i32),
    I64(i64),
    F32(u32),
    F64(u64),
}

impl DeepView for Value {
    type V = Value;

    open spec fn deep_view(&self) -> Value {
        *self
    }
}

impl Value {
    /// The number that an `I32` holds.
    pub fn as_i32(&self) -> (r: i32)
        requires
            self is I32,
        ensures
            *self == Value::I32(r),
    {
        match self {
            Value::I32(v) => *v,
            _ => 0,
        }
    }
}

/// One frame of a thread's stack: the function and the place in its code,
/// with the values that were captured.
#[derive(Debug, PartialEq)]
pub struct StackFrame {
    pub funcidx: u32,
    pub codeoffset: u32,
    pub locals: Vec<Value>,
    pub stack: Vec<Value>,
}

/// What a `StackFrame` holds.
pub struct StackFrameV {
    pub funcidx: u32,
    pub codeoffset: u32,
    pub locals: Seq<Value>,
    pub stack: Seq<Value>,
}

impl DeepView for StackFrame {
    type V = StackFrameV;

    open spec fn deep_view(&self) -> StackFrameV {
        StackFrameV {
            funcidx: self.funcidx,
            codeoffset: self.codeoffset,
            locals: self.locals@,
            stack: self.stack@,
        }
    }
}

impl Clone for StackFrame {
    fn clone(&self) -> (r: Self)
        ensures
            r.deep_view() == self.deep_view(),
    {
        StackFrame {
            funcidx: self.funcidx,
            codeoffset: self.codeoffset,
            locals: slice_to_vec(self.locals.as_slice()),
            stack: slice_to_vec(self.stack.as_slice()),
        }
    }
}

/// The stack of a thread: the thread and its frames.
#[derive(Debug, PartialEq)]
pub struct CoreStack {
    pub thread_info: ThreadInfo,
    pub frames: Vec<StackFrame>,
}

/// What a `CoreStack` holds.
pub struct CoreStackV {
    pub thread_info: ThreadInfoV,
    pub frames: Seq<StackFrameV>,
}

impl DeepView for CoreStack {
    type V = CoreStackV;

    open spec fn deep_view(&self) -> CoreStackV {
        CoreStackV {
            thread_info: self.thread_info.deep_view(),
            frames: self.frames.deep_view(),
        }
    }
}

impl Clone for CoreStack {
    fn clone(&self) -> (r: Self)
        ensures
            r.deep_view() == self.deep_view(),
    {
        let mut frames: Vec<StackFrame> = Vec::new();
        let mut k: usize = 0;
        while k < self.frames.len()
            invariant
                k <= self.frames.len(),
                frames@.len() == k,
                forall|j: int|
                    0 <= j < k ==> (#[trigger] frames@[j]).deep_view()
                        == self.frames@[j].deep_view(),
            decreases self.frames.len() - k,
        {
            frames.push(self.frames[k].clone());
            k += 1;
        }
        assert(frames.deep_view() =~= self.frames.deep_view());
        CoreStack { thread_info: self.thread_info.clone(), frames }
    }
}

/// A decoded coredump. `memory` holds the limits of each memory, `data` the
/// memory image from address zero.
#[derive(Debug, Clone, PartialEq)]
pub struct Coredump {
    pub process_info: ProcessInfo,
    pub stacks: Vec<CoreStack>,
    pub memory: Vec<(u32, Option<u32>)>,
    pub data: Vec<u8>,
}

/// What a `Coredump` holds.
pub struct CoredumpV {
    pub process_info: ProcessInfoV,
    pub stacks: Seq<CoreStackV>,
    pub memory: Seq<(u32, Option<u32>)>,
    pub data: Seq<u8>,
}

impl DeepView for Coredump {
    type V = CoredumpV;

    open spec fn deep_view(&self) -> CoredumpV {
        CoredumpV {
            process_info: self.process_info.deep_view(),
            stacks: self.stacks.deep_view(),
            memory: self.memory@,
            data: self.data@,
        }
    }
}

} // verus!
