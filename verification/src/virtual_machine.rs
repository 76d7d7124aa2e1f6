//! The virtual machine: a fetch-execute loop over an operand stack, a call
//! stack of frames, a global variable table, and a lazily filled function
//! table. Stores go to the innermost frame when one is active; loads read
//! the global table first and fall back to the innermost frame. Calls push
//! a frame, tail calls clear and reuse the current one, returns pop one.
//! Printed values are collected in an output list. The spec function
//! `spec_step` is the machine's small-step semantics; `run` is proved to
//! iterate it exactly.

use vstd::prelude::*;

use crate::code_generator::{OpCode, OpV, ops_view};
use crate::optimizer::div_trunc;
use crate::table::{FnTable, VarTable};

verus! {

/// The most instructions one `run` executes; no real program reaches it.
pub const MAX_STEPS: u64 = u64::MAX;

/// A runtime failure; execution halts immediately.
#[derive(Debug, PartialEq)]
pub enum RuntimeError {
    /// A pop found the operand stack empty.
    StackUnderflow,
    /// A load of a name bound neither globally nor in the innermost frame.
    UndefinedVariable { name: String },
    /// A call or tail call of a function that was never declared.
    UndefinedFunction { name: String },
    /// A return with no active frame.
    ReturnWithoutFrame,
    /// A tail call with no active frame to reuse.
    NoFrameForTailCall,
    /// A function entry marker reached with no active frame.
    NoFrameOnEnter,
    /// An integer division by zero.
    DivisionByZero,
    /// A function declaration whose inline body has no end marker.
    MissingFunctionEnd,
    /// The step budget ran out.
    StepLimitExceeded,
}

/// Ghost mirror of `RuntimeError`.
pub enum RunErrV {
    StackUnderflow,
    UndefinedVariable { name: Seq<char> },
    UndefinedFunction { name: Seq<char> },
    ReturnWithoutFrame,
    NoFrameForTailCall,
    NoFrameOnEnter,
    DivisionByZero,
    MissingFunctionEnd,
    StepLimitExceeded,
}

/// The view of a runtime failure.
pub open spec fn rerr_view(e: RuntimeError) -> RunErrV {
    match e {
        RuntimeError::StackUnderflow => RunErrV::StackUnderflow,
        RuntimeError::UndefinedVariable { name } => RunErrV::UndefinedVariable { name: name@ },
        RuntimeError::UndefinedFunction { name } => RunErrV::UndefinedFunction { name: name@ },
        RuntimeError::ReturnWithoutFrame => RunErrV::ReturnWithoutFrame,
        RuntimeError::NoFrameForTailCall => RunErrV::NoFrameForTailCall,
        RuntimeError::NoFrameOnEnter => RunErrV::NoFrameOnEnter,
        RuntimeError::DivisionByZero => RunErrV::DivisionByZero,
        RuntimeError::MissingFunctionEnd => RunErrV::MissingFunctionEnd,
        RuntimeError::StepLimitExceeded => RunErrV::StepLimitExceeded,
    }
}

/// One function activation: its local variables and where to resume.
#[derive(Debug)]
struct Frame {
    local_variables: VarTable,
    return_address: usize,
}

/// Ghost mirror of a frame.
pub struct FrameV {
    pub locals: Map<Seq<char>, i64>,
    pub return_address: usize,
}

/// The view of one frame.
spec fn frame_view(f: Frame) -> FrameV {
    FrameV { locals: f.local_variables@, return_address: f.return_address }
}

/// The view of the frame stack, elementwise.
spec fn frames_view(fs: Seq<Frame>) -> Seq<FrameV> {
    Seq::new(fs.len(), |i: int| frame_view(fs[i]))
}

/// Ghost state of the machine: operand stack, globals, instruction
/// pointer, call frames, function table, and everything printed so far.
pub struct VmV {
    pub stack: Seq<i64>,
    pub globals: Map<Seq<char>, i64>,
    pub ip: int,
    pub frames: Seq<FrameV>,
    pub functions: Map<Seq<char>, usize>,
    pub output: Seq<i64>,
}

/// The machine's starting state.
pub open spec fn initial_vm() -> VmV {
    VmV {
        stack: Seq::empty(),
        globals: Map::empty(),
        ip: 0,
        frames: Seq::empty(),
        functions: Map::empty(),
        output: Seq::empty(),
    }
}

/// The first end-of-function marker at or after `i`.
pub open spec fn find_exit(code: Seq<OpV>, i: int) -> Option<int>
    decreases code.len() - i,
    when 0 <= i <= code.len()
{
    if i >= code.len() {
        None
    } else if code[i] is EXIT {
        Some(i)
    } else {
        find_exit(code, i + 1)
    }
}

/// The state after a binary operation: both operands popped, the result
/// pushed, the pointer advanced.
pub open spec fn spec_binary(s: VmV, r: i64) -> VmV
    recommends
        s.stack.len() >= 2,
{
    VmV { stack: s.stack.subrange(0, s.stack.len() - 2).push(r), ip: s.ip + 1, ..s }
}

/// The value a load of `name` yields: the global table first, then the
/// innermost frame's locals.
pub open spec fn spec_load(s: VmV, name: Seq<char>) -> Option<i64> {
    if s.globals.contains_key(name) {
        Some(s.globals[name])
    } else if s.frames.len() > 0 && s.frames.last().locals.contains_key(name) {
        Some(s.frames.last().locals[name])
    } else {
        None
    }
}

/// One step of the machine: the meaning of the instruction at the pointer.
pub open spec fn spec_step(code: Seq<OpV>, s: VmV) -> Result<VmV, RunErrV>
    recommends
        0 <= s.ip < code.len(),
{
    match code[s.ip] {
        OpV::PUSH(v) => Ok(VmV { stack: s.stack.push(v), ip: s.ip + 1, ..s }),
        OpV::PRINT => if s.stack.len() == 0 {
            Err(RunErrV::StackUnderflow)
        } else {
            Ok(
                VmV {
                    stack: s.stack.subrange(0, s.stack.len() - 1),
                    output: s.output.push(s.stack.last()),
                    ip: s.ip + 1,
                    ..s
                },
            )
        },
        OpV::ADD => if s.stack.len() < 2 {
            Err(RunErrV::StackUnderflow)
        } else {
            Ok(spec_binary(s, s.stack[s.stack.len() - 2].wrapping_add(s.stack.last())))
        },
        OpV::SUB => if s.stack.len() < 2 {
            Err(RunErrV::StackUnderflow)
        } else {
            Ok(spec_binary(s, s.stack[s.stack.len() - 2].wrapping_sub(s.stack.last())))
        },
        OpV::MUL => if s.stack.len() < 2 {
            Err(RunErrV::StackUnderflow)
        } else {
            Ok(spec_binary(s, s.stack[s.stack.len() - 2].wrapping_mul(s.stack.last())))
        },
        OpV::DIV => if s.stack.len() < 2 {
            Err(RunErrV::StackUnderflow)
        } else if s.stack.last() == 0 {
            Err(RunErrV::DivisionByZero)
        } else {
            Ok(spec_binary(s, div_trunc(s.stack[s.stack.len() - 2], s.stack.last())))
        },
        OpV::EQUAL => if s.stack.len() < 2 {
            Err(RunErrV::StackUnderflow)
        } else {
            Ok(
                spec_binary(
                    s,
                    if s.stack[s.stack.len() - 2] == s.stack.last() {
                        1
                    } else {
                        0
                    },
                ),
            )
        },
        OpV::NotEqual => if s.stack.len() < 2 {
            Err(RunErrV::StackUnderflow)
        } else {
            Ok(
                spec_binary(
                    s,
                    if s.stack[s.stack.len() - 2] == s.stack.last() {
                        0
                    } else {
                        1
                    },
                ),
            )
        },
        OpV::STORE(name) => if s.stack.len() == 0 {
            Err(RunErrV::StackUnderflow)
        } else {
            let value = s.stack.last();
            let popped = s.stack.subrange(0, s.stack.len() - 1);
            if s.frames.len() > 0 {
                let fr = s.frames.last();
                Ok(
                    VmV {
                        stack: popped,
                        frames: s.frames.update(
                            s.frames.len() - 1,
                            FrameV { locals: fr.locals.insert(name, value), ..fr },
                        ),
                        ip: s.ip + 1,
                        ..s
                    },
                )
            } else {
                Ok(VmV { stack: popped, globals: s.globals.insert(name, value), ip: s.ip + 1, ..s })
            }
        },
        OpV::LOAD(name) => match spec_load(s, name) {
            Some(value) => Ok(VmV { stack: s.stack.push(value), ip: s.ip + 1, ..s }),
            None => Err(RunErrV::UndefinedVariable { name }),
        },
        OpV::DECLARE(name) => {
            let functions = s.functions.insert(name, (s.ip + 1) as usize);
            match find_exit(code, s.ip) {
                Some(j) => Ok(VmV { functions, ip: j + 1, ..s }),
                None => Err(RunErrV::MissingFunctionEnd),
            }
        },
        OpV::CALL(name) => if s.functions.contains_key(name) {
            Ok(
                VmV {
                    frames: s.frames.push(
                        FrameV { locals: Map::empty(), return_address: (s.ip + 1) as usize },
                    ),
                    ip: s.functions[name] as int,
                    ..s
                },
            )
        } else {
            Err(RunErrV::UndefinedFunction { name })
        },
        OpV::TailCall(name) => if s.frames.len() == 0 {
            Err(RunErrV::NoFrameForTailCall)
        } else if s.functions.contains_key(name) {
            Ok(
                VmV {
                    frames: s.frames.update(
                        s.frames.len() - 1,
                        FrameV {
                            locals: Map::empty(),
                            return_address: s.frames.last().return_address,
                        },
                    ),
                    ip: s.functions[name] as int,
                    ..s
                },
            )
        } else {
            Err(RunErrV::UndefinedFunction { name })
        },
        OpV::RET => if s.frames.len() == 0 {
            Err(RunErrV::ReturnWithoutFrame)
        } else {
            Ok(
                VmV {
                    frames: s.frames.subrange(0, s.frames.len() - 1),
                    ip: s.frames.last().return_address as int,
                    ..s
                },
            )
        },
        OpV::ENTER => if s.frames.len() == 0 {
            Err(RunErrV::NoFrameOnEnter)
        } else {
            Ok(VmV { ip: s.ip + 1, ..s })
        },
        OpV::EXIT => Ok(VmV { ip: s.ip + 1, ..s }),
        OpV::JUMP(a) => Ok(VmV { ip: a as int, ..s }),
        OpV::JmpIfFalse(a) => if s.stack.len() == 0 {
            Err(RunErrV::StackUnderflow)
        } else if s.stack.last() == 0 {
            Ok(VmV { stack: s.stack.subrange(0, s.stack.len() - 1), ip: a as int, ..s })
        } else {
            Ok(VmV { stack: s.stack.subrange(0, s.stack.len() - 1), ip: s.ip + 1, ..s })
        },
    }
}

/// The machine after `n` steps: still running, halted past the end of the
/// instructions, or failed.
pub enum RunV {
    Running(VmV),
    Done(VmV),
    Failed(RunErrV),
}

/// Iterating the step function `n` times from `s`.
pub open spec fn spec_run_n(code: Seq<OpV>, s: VmV, n: nat) -> RunV
    decreases n,
{
    if !(0 <= s.ip < code.len()) {
        RunV::Done(s)
    } else if n == 0 {
        RunV::Running(s)
    } else {
        match spec_step(code, s) {
            Ok(s2) => spec_run_n(code, s2, (n - 1) as nat),
            Err(e) => RunV::Failed(e),
        }
    }
}

/// Taking one more specified step from wherever `n` steps arrived.
pub proof fn lemma_run_extend(code: Seq<OpV>, s0: VmV, n: nat, s: VmV)
    requires
        spec_run_n(code, s0, n) == RunV::Running(s),
    ensures
        match spec_step(code, s) {
            Ok(s2) => spec_run_n(code, s0, n + 1) == (if 0 <= s2.ip < code.len() {
                RunV::Running(s2)
            } else {
                RunV::Done(s2)
            }),
            Err(e) => spec_run_n(code, s0, n + 1) == RunV::Failed(e),
        },
    decreases n,
{
    reveal_with_fuel(spec_run_n, 3);
    if n == 0 {
    } else {
        match spec_step(code, s0) {
            Ok(s1) => {
                lemma_run_extend(code, s1, (n - 1) as nat, s);
            },
            Err(_) => {},
        }
    }
}

/// A settled outcome is stable: a machine that has halted or failed within
/// some number of steps shows that same outcome at every later count.
pub proof fn lemma_outcome_stable(code: Seq<OpV>, s: VmV, n: nat, m: nat)
    requires
        n <= m,
        !(spec_run_n(code, s, n) is Running),
    ensures
        spec_run_n(code, s, m) == spec_run_n(code, s, n),
    decreases n,
{
    if !(0 <= s.ip < code.len()) {
    } else if n == 0 {
    } else {
        match spec_step(code, s) {
            Ok(s2) => {
                lemma_outcome_stable(code, s2, (n - 1) as nat, (m - 1) as nat);
            },
            Err(_) => {},
        }
    }
}

/// Execution is deterministic: two runs of the same bytecode from the same
/// state that both settle, settle on exactly the same outcome — the same
/// printed output, the same variables, the same failure.
pub proof fn lemma_run_deterministic(code: Seq<OpV>, s: VmV, n: nat, m: nat)
    requires
        !(spec_run_n(code, s, n) is Running),
        !(spec_run_n(code, s, m) is Running),
    ensures
        spec_run_n(code, s, n) == spec_run_n(code, s, m),
{
    if n <= m {
        lemma_outcome_stable(code, s, n, m);
    } else {
        lemma_outcome_stable(code, s, m, n);
    }
}

/// A tail call never grows the frame stack: it reuses the innermost frame,
/// clearing its locals and keeping its return address.
pub proof fn lemma_tail_call_reuses_frame(code: Seq<OpV>, s: VmV)
    requires
        0 <= s.ip < code.len(),
        code[s.ip] is TailCall,
    ensures
        match spec_step(code, s) {
            Ok(s2) => {
                &&& s2.frames.len() == s.frames.len()
                &&& s2.frames.last().locals == Map::<Seq<char>, i64>::empty()
                &&& s2.frames.last().return_address == s.frames.last().return_address
            },
            Err(_) => true,
        },
{
}

/// An ordinary call pushes exactly one frame, empty and returning to the
/// next instruction.
pub proof fn lemma_call_pushes_frame(code: Seq<OpV>, s: VmV)
    requires
        0 <= s.ip < code.len(),
        code[s.ip] is CALL,
    ensures
        match spec_step(code, s) {
            Ok(s2) => s2.frames == s.frames.push(
                FrameV { locals: Map::empty(), return_address: (s.ip + 1) as usize },
            ) && s2.frames.len() == s.frames.len() + 1,
            Err(_) => true,
        },
{
}

/// A return pops exactly one frame and resumes at its return address.
pub proof fn lemma_return_pops_frame(code: Seq<OpV>, s: VmV)
    requires
        0 <= s.ip < code.len(),
        code[s.ip] is RET,
    ensures
        match spec_step(code, s) {
            Ok(s2) => s2.frames == s.frames.subrange(0, s.frames.len() - 1) && s2.frames.len()
                + 1 == s.frames.len() && s2.ip == s.frames.last().return_address as int,
            Err(_) => true,
        },
{
}

/// A load reads the global table first: a globally bound name yields its
/// global value even while an innermost frame binds the same name.
pub proof fn lemma_load_prefers_global(code: Seq<OpV>, s: VmV, name: Seq<char>)
    requires
        0 <= s.ip < code.len(),
        code[s.ip] == OpV::LOAD(name),
        s.globals.contains_key(name),
    ensures
        spec_step(code, s) == Ok::<VmV, RunErrV>(
            VmV { stack: s.stack.push(s.globals[name]), ip: s.ip + 1, ..s },
        ),
{
}

/// The virtual machine.
#[derive(Debug)]
pub struct VirtualMachine {
    stack: Vec<i64>,
    variables: VarTable,
    instructions: Vec<OpCode>,
    instruction_pointer: usize,
    stack_frames: Vec<Frame>,
    functions: FnTable,
    output: Vec<i64>,
}

impl VirtualMachine {
    /// The views of the machine's instructions.
    pub closed spec fn code(&self) -> Seq<OpV> {
        ops_view(self.instructions@)
    }

    /// The machine's ghost state.
    pub closed spec fn vm_view(&self) -> VmV {
        VmV {
            stack: self.stack@,
            globals: self.variables@,
            ip: self.instruction_pointer as int,
            frames: frames_view(self.stack_frames@),
            functions: self.functions@,
            output: self.output@,
        }
    }

    /// A machine over the given instructions, in the starting state.
    pub fn new(instructions: Vec<OpCode>) -> (r: VirtualMachine)
        ensures
            r.code() == ops_view(instructions@),
            r.vm_view() == initial_vm(),
    {
        let r = VirtualMachine {
            stack: Vec::new(),
            variables: VarTable::new(),
            instructions,
            instruction_pointer: 0,
            stack_frames: Vec::new(),
            functions: FnTable::new(),
            output: Vec::new(),
        };
        proof {
            assert(r.vm_view().stack =~= initial_vm().stack);
            assert(r.vm_view().frames =~= initial_vm().frames);
            assert(r.vm_view().output =~= initial_vm().output);
            assert(r.vm_view() =~= initial_vm());
        }
        r
    }

    /// Everything the machine has printed, in order.
    pub fn output(&self) -> (r: &Vec<i64>)
        ensures
            r@ == self.vm_view().output,
    {
        &self.output
    }

    /// How many frames are active.
    pub fn frame_depth(&self) -> (r: usize)
        ensures
            r == self.vm_view().frames.len(),
    {
        self.stack_frames.len()
    }

    /// The value a load of `name` would yield: the global table first,
    /// falling back to the innermost frame's locals.
    pub fn get_variable(&self, name: &str) -> (r: Option<i64>)
        ensures
            r == spec_load(self.vm_view(), name@),
    {
        match self.variables.get(name) {
            Some(value) => Some(value),
            None => {
                let depth = self.stack_frames.len();
                if depth > 0 {
                    self.stack_frames[depth - 1].local_variables.get(name)
                } else {
                    None
                }
            },
        }
    }

    /// The entry address of a declared function.
    fn find_function_start(&self, name: &str) -> (r: Option<usize>)
        ensures
            match r {
                Some(a) => self.vm_view().functions.contains_key(name@) && self.vm_view()
                    .functions[name@] == a,
                None => !self.vm_view().functions.contains_key(name@),
            },
    {
        self.functions.get(name)
    }

    /// Advances past the current instruction.
    fn next_instruction(&mut self)
        requires
            old(self).instruction_pointer < old(self).instructions@.len(),
        ensures
            final(self).instructions@ == old(self).instructions@,
            final(self).instruction_pointer == old(self).instruction_pointer + 1,
            final(self).stack@ == old(self).stack@,
            final(self).variables@ == old(self).variables@,
            final(self).stack_frames@ == old(self).stack_frames@,
            final(self).functions@ == old(self).functions@,
            final(self).output@ == old(self).output@,
    {
        let n = self.instructions.len();
        self.instruction_pointer = self.instruction_pointer + 1;
    }

    /// Executes the instruction at the pointer: one specified step.
    #[verifier::loop_isolation(false)]
    #[verifier::rlimit(100)]
    fn execute(&mut self) -> (r: Result<(), RuntimeError>)
        requires
            old(self).instruction_pointer < old(self).instructions@.len(),
        ensures
            final(self).instructions@ == old(self).instructions@,
            match r {
                Ok(_) => spec_step(old(self).code(), old(self).vm_view()) == Ok::<VmV, RunErrV>(
                    final(self).vm_view(),
                ),
                Err(e) => spec_step(old(self).code(), old(self).vm_view()) == Err::<
                    VmV,
                    RunErrV,
                >(rerr_view(e)),
            },
    {
        let n = self.instructions.len();
        let ip = self.instruction_pointer;
        match &self.instructions[ip] {
            OpCode::PUSH(value) => {
                self.stack.push(*value);
                self.next_instruction();
                Ok(())
            },
            OpCode::PRINT => {
                let value = match self.stack.pop() {
                    Some(v) => v,
                    None => return Err(RuntimeError::StackUnderflow),
                };
                self.output.push(value);
                self.next_instruction();
                Ok(())
            },
            OpCode::ADD => {
                let (a, b) = match self.pop_two() {
                    Ok(pair) => pair,
                    Err(e) => return Err(e),
                };
                self.stack.push(a.wrapping_add(b));
                self.next_instruction();
                Ok(())
            },
            OpCode::SUB => {
                let (a, b) = match self.pop_two() {
                    Ok(pair) => pair,
                    Err(e) => return Err(e),
                };
                self.stack.push(a.wrapping_sub(b));
                self.next_instruction();
                Ok(())
            },
            OpCode::MUL => {
                let (a, b) = match self.pop_two() {
                    Ok(pair) => pair,
                    Err(e) => return Err(e),
                };
                self.stack.push(a.wrapping_mul(b));
                self.next_instruction();
                Ok(())
            },
            OpCode::DIV => {
                let (a, b) = match self.pop_two() {
                    Ok(pair) => pair,
                    Err(e) => return Err(e),
                };
                if b == 0 {
                    return Err(RuntimeError::DivisionByZero);
                }
                let q = match a.checked_div(b) {
                    Some(q) => q,
                    None => i64::MIN,
                };
                self.stack.push(q);
                self.next_instruction();
                Ok(())
            },
            OpCode::EQUAL => {
                let (a, b) = match self.pop_two() {
                    Ok(pair) => pair,
                    Err(e) => return Err(e),
                };
                self.stack.push(if a == b { 1 } else { 0 });
                self.next_instruction();
                Ok(())
            },
            OpCode::NotEqual => {
                let (a, b) = match self.pop_two() {
                    Ok(pair) => pair,
                    Err(e) => return Err(e),
                };
                self.stack.push(if a != b { 1 } else { 0 });
                self.next_instruction();
                Ok(())
            },
            OpCode::STORE(name) => {
                let value = match self.stack.pop() {
                    Some(v) => v,
                    None => return Err(RuntimeError::StackUnderflow),
                };
                if self.stack_frames.len() > 0 {
                    let mut frame = match self.stack_frames.pop() {
                        Some(f) => f,
                        None => return Err(RuntimeError::StackUnderflow),
                    };
                    frame.local_variables.insert(name.clone(), value);
                    proof {
                        assert(frames_view(old(self).stack_frames@).update(
                            old(self).stack_frames@.len() - 1,
                            frame_view(frame),
                        ) =~= frames_view(
                            old(self).stack_frames@.subrange(
                                0,
                                old(self).stack_frames@.len() - 1,
                            ).push(frame),
                        ));
                    }
                    self.stack_frames.push(frame);
                } else {
                    self.variables.insert(name.clone(), value);
                }
                self.next_instruction();
                Ok(())
            },
            OpCode::LOAD(name) => {
                let value = match self.get_variable(name.as_str()) {
                    Some(v) => v,
                    None => return Err(RuntimeError::UndefinedVariable { name: name.clone() }),
                };
                self.stack.push(value);
                self.next_instruction();
                Ok(())
            },
            OpCode::DECLARE(name) => {
                self.functions.insert(name.clone(), ip + 1);
                let ghost code = self.code();
                let mut k: usize = ip;
                while k < n && !matches!(&self.instructions[k], OpCode::EXIT)
                    invariant
                        ip <= k <= n,
                        find_exit(code, ip as int) == find_exit(code, k as int),
                    decreases n - k,
                {
                    k = k + 1;
                }
                if k >= n {
                    return Err(RuntimeError::MissingFunctionEnd);
                }
                self.instruction_pointer = k + 1;
                Ok(())
            },
            OpCode::CALL(name) => {
                let entry = match self.find_function_start(name.as_str()) {
                    Some(a) => a,
                    None => return Err(RuntimeError::UndefinedFunction { name: name.clone() }),
                };
                let frame = Frame { local_variables: VarTable::new(), return_address: ip + 1 };
                proof {
                    assert(frames_view(self.stack_frames@.push(frame)) =~= frames_view(
                        self.stack_frames@,
                    ).push(frame_view(frame)));
                }
                self.stack_frames.push(frame);
                self.instruction_pointer = entry;
                Ok(())
            },
            OpCode::TailCall(name) => {
                let mut frame = match self.stack_frames.pop() {
                    Some(f) => f,
                    None => return Err(RuntimeError::NoFrameForTailCall),
                };
                frame.local_variables.clear();
                let entry = match self.find_function_start(name.as_str()) {
                    Some(a) => a,
                    None => return Err(RuntimeError::UndefinedFunction { name: name.clone() }),
                };
                proof {
                    assert(frames_view(old(self).stack_frames@).update(
                        old(self).stack_frames@.len() - 1,
                        frame_view(frame),
                    ) =~= frames_view(
                        old(self).stack_frames@.subrange(
                            0,
                            old(self).stack_frames@.len() - 1,
                        ).push(frame),
                    ));
                }
                self.stack_frames.push(frame);
                self.instruction_pointer = entry;
                Ok(())
            },
            OpCode::RET => {
                let frame = match self.stack_frames.pop() {
                    Some(f) => f,
                    None => return Err(RuntimeError::ReturnWithoutFrame),
                };
                proof {
                    assert(frames_view(
                        old(self).stack_frames@.subrange(0, old(self).stack_frames@.len() - 1),
                    ) =~= frames_view(old(self).stack_frames@).subrange(
                        0,
                        old(self).stack_frames@.len() - 1,
                    ));
                }
                self.instruction_pointer = frame.return_address;
                Ok(())
            },
            OpCode::ENTER => {
                if self.stack_frames.len() == 0 {
                    return Err(RuntimeError::NoFrameOnEnter);
                }
                self.next_instruction();
                Ok(())
            },
            OpCode::EXIT => {
                self.next_instruction();
                Ok(())
            },
            OpCode::JUMP(address) => {
                self.instruction_pointer = *address;
                Ok(())
            },
            OpCode::JmpIfFalse(address) => {
                let condition = match self.stack.pop() {
                    Some(v) => v,
                    None => return Err(RuntimeError::StackUnderflow),
                };
                if condition == 0 {
                    self.instruction_pointer = *address;
                } else {
                    self.next_instruction();
                }
                Ok(())
            },
        }
    }

    /// Pops the right operand, then the left operand.
    fn pop_two(&mut self) -> (r: Result<(i64, i64), RuntimeError>)
        ensures
            final(self).instructions@ == old(self).instructions@,
            final(self).variables@ == old(self).variables@,
            final(self).stack_frames@ == old(self).stack_frames@,
            final(self).functions@ == old(self).functions@,
            final(self).output@ == old(self).output@,
            final(self).instruction_pointer == old(self).instruction_pointer,
            match r {
                Ok((a, b)) => old(self).stack@.len() >= 2 && a == old(self).stack@[old(self).stack@.len() - 2] && b == old(self).stack@[old(self).stack@.len() - 1] && final(self).stack@ == old(self).stack@.subrange(0, old(self).stack@.len() - 2),
                Err(e) => old(self).stack@.len() < 2 && e == RuntimeError::StackUnderflow,
            },
    {
        let b = match self.stack.pop() {
            Some(v) => v,
            None => return Err(RuntimeError::StackUnderflow),
        };
        let a = match self.stack.pop() {
            Some(v) => v,
            None => return Err(RuntimeError::StackUnderflow),
        };
        proof {
            assert(old(self).stack@.subrange(0, old(self).stack@.len() - 1).subrange(
                0,
                old(self).stack@.len() - 2,
            ) =~= old(self).stack@.subrange(0, old(self).stack@.len() - 2));
        }
        Ok((a, b))
    }

    /// The fetch-execute loop: runs until the pointer leaves the
    /// instruction sequence, a runtime failure occurs, or the step budget
    /// runs out.
    #[verifier::loop_isolation(false)]
    pub fn run(&mut self) -> (r: Result<(), RuntimeError>)
        ensures
            final(self).code() == old(self).code(),
            match r {
                Ok(_) => exists|m: nat|
                    spec_run_n(old(self).code(), old(self).vm_view(), m) == RunV::Done(
                        final(self).vm_view(),
                    ),
                Err(e) => (exists|m: nat|
                    spec_run_n(old(self).code(), old(self).vm_view(), m) == RunV::Failed(
                        rerr_view(e),
                    )) || (e == RuntimeError::StepLimitExceeded && spec_run_n(
                    old(self).code(),
                    old(self).vm_view(),
                    MAX_STEPS as nat,
                ) is Running),
            },
    {
        let ghost code = self.code();
        let ghost s0 = self.vm_view();
        let ghost mut n: nat = 0;
        let mut budget: u64 = MAX_STEPS;
        while self.instruction_pointer < self.instructions.len()
            invariant
                self.instructions@ == old(self).instructions@,
                n + budget == MAX_STEPS,
                (if self.instruction_pointer < self.instructions@.len() {
                    spec_run_n(code, s0, n) == RunV::Running(self.vm_view())
                } else {
                    spec_run_n(code, s0, n) == RunV::Done(self.vm_view())
                }),
            decreases budget,
        {
            if budget == 0 {
                proof {
                    assert(spec_run_n(code, s0, MAX_STEPS as nat) is Running);
                }
                return Err(RuntimeError::StepLimitExceeded);
            }
            let ghost pre = self.vm_view();
            let r = self.execute();
            proof {
                lemma_run_extend(code, s0, n, pre);
                n = n + 1;
            }
            match r {
                Ok(_) => {},
                Err(e) => {
                    return Err(e);
                },
            }
            budget = budget - 1;
        }
        Ok(())
    }
}

} // verus!
