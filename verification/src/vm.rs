use vstd::prelude::*;
use crate::arith::{bit_and, bit_not, bit_or, char_code, glyph, to_number, wrapping_add, wrapping_mod, wrapping_mul};
use crate::error::VmError;
use crate::machine::{lemma_apply_wf, lemma_clear_next, lemma_run_next, lemma_run_stays, lemma_step_wf, Bypass, Effect, Machine, Run, Status, CHECK_ENTRY, CHECK_R0, CHECK_R1, PRESET_AT};
use crate::op_parser::{words_of, Addr, FillSlice, IntoUsize, Op, Reg, Val, MEM_SIZE, NUM_MAX, REG_COUNT};
use crate::screen::{gathered, look_text, search, sweep, Screen};
use crate::transcript::{joined, texts};

verus! {

/// A copy of an engine's whole state, as plain values.
#[derive(Clone)]
pub struct EnvSnapshot {
    /// The stack, top last.
    pub stack: Vec<u16>,
    /// The memory cells; an engine needs exactly 32768 of them.
    pub memory: Vec<u16>,
    /// The eight registers.
    pub registers: [u16; 8],
    /// Address of the next instruction; an engine needs it below 32768.
    pub curr_point: u16,
    /// Value that goes into register 7 at the preset's moment, if any.
    pub register_8_preset: Option<u16>,
    /// Number of instructions executed.
    pub operation_count: u64,
    /// Treatment of the integrity check.
    pub bypass: Bypass,
}

/// An engine: the machine's state and the engine's end of the character
/// conduit.
pub struct ExecutionEnv {
    pub(crate) stack: Vec<u16>,
    pub(crate) memory: [u16; 32768],
    pub(crate) registers: [u16; 8],
    pub(crate) curr_point: u16,
    pub(crate) screen: Screen,
    pub(crate) register_8_preset: Option<u16>,
    pub(crate) operation_count: u64,
    pub(crate) bypass: Bypass,
}

/// Memory right after loading: the image's words, then zeros.
pub open spec fn loaded(words: Seq<u16>) -> Seq<u16> {
    Seq::new(MEM_SIZE as nat, |i: int| if i < words.len() { words[i] } else { 0u16 })
}

impl View for EnvSnapshot {
    type V = Machine;

    open spec fn view(&self) -> Machine {
        Machine {
            stack: self.stack@,
            memory: self.memory@,
            registers: self.registers@,
            ip: self.curr_point,
            preset: self.register_8_preset,
            count: self.operation_count,
            bypass: self.bypass,
        }
    }
}

impl View for ExecutionEnv {
    type V = Machine;

    closed spec fn view(&self) -> Machine {
        Machine {
            stack: self.stack@,
            memory: self.memory@,
            registers: self.registers@,
            ip: self.curr_point,
            preset: self.register_8_preset,
            count: self.operation_count,
            bypass: self.bypass,
        }
    }
}

impl Default for EnvSnapshot {
    /// The snapshot that holds nothing: no memory, so no engine comes of it.
    fn default() -> (r: Self)
        ensures
            r@.stack.len() == 0,
            r@.memory.len() == 0,
            r@.registers == seq![0u16, 0u16, 0u16, 0u16, 0u16, 0u16, 0u16, 0u16],
            r@.ip == 0,
            r@.preset is None,
            r@.count == 0,
            r@.bypass == Bypass::Disabled,
    {
        let r = EnvSnapshot {
            stack: Vec::new(),
            memory: Vec::new(),
            registers: [0u16; 8],
            curr_point: 0,
            register_8_preset: None,
            operation_count: 0,
            bypass: Bypass::Disabled,
        };
        assert(r.registers@ =~= seq![0u16, 0u16, 0u16, 0u16, 0u16, 0u16, 0u16, 0u16]);
        r
    }
}

impl EnvSnapshot {
    /// Copies an engine's state.
    pub fn new(env: &ExecutionEnv) -> (r: Self)
        requires
            env.wf(),
        ensures
            r@ == env@,
            r@.wf(),
    {
        let mut memory: Vec<u16> = Vec::with_capacity(MEM_SIZE);
        let mut i: usize = 0;
        while i < MEM_SIZE
            invariant
                i <= MEM_SIZE,
                memory@ == env.memory@.take(i as int),
            decreases MEM_SIZE - i,
        {
            memory.push(env.memory[i]);
            assert(env.memory@.take(i + 1) =~= env.memory@.take(i as int).push(env.memory@[i as int]));
            i = i + 1;
        }
        assert(memory@ =~= env.memory@);
        let mut stack: Vec<u16> = Vec::with_capacity(env.stack.len());
        let mut j: usize = 0;
        while j < env.stack.len()
            invariant
                j <= env.stack@.len(),
                stack@ == env.stack@.take(j as int),
            decreases env.stack@.len() - j,
        {
            stack.push(env.stack[j]);
            assert(env.stack@.take(j + 1) =~= env.stack@.take(j as int).push(env.stack@[j as int]));
            j = j + 1;
        }
        assert(stack@ =~= env.stack@);
        EnvSnapshot {
            stack,
            memory,
            registers: env.registers,
            curr_point: env.curr_point,
            register_8_preset: env.register_8_preset,
            operation_count: env.operation_count,
            bypass: env.bypass,
        }
    }

    /// Builds an engine in this state around `screen`.
    ///
    /// A snapshot whose memory does not have 32768 words is rejected, and so
    /// is one whose instruction pointer is no address.
    pub fn to_env(&self, screen: Screen) -> (r: Result<ExecutionEnv, VmError>)
        ensures
            self@.memory.len() != MEM_SIZE <==> r == Err::<ExecutionEnv, VmError>(
                VmError::MemoryLength,
            ),
            self@.memory.len() == MEM_SIZE && self@.ip > NUM_MAX <==> r == Err::<
                ExecutionEnv,
                VmError,
            >(VmError::AddressOutOfRange),
            self@.wf() <==> r is Ok,
            r is Ok ==> r->Ok_0@ == self@ && r->Ok_0.wf() && r->Ok_0.channel() == screen,
    {
        if self.memory.len() != MEM_SIZE {
            return Err(VmError::MemoryLength);
        }
        if self.curr_point > NUM_MAX {
            return Err(VmError::AddressOutOfRange);
        }
        let mut memory: [u16; 32768] = [0u16; 32768];
        let mut i: usize = 0;
        while i < MEM_SIZE
            invariant
                i <= MEM_SIZE,
                self.memory@.len() == MEM_SIZE,
                forall|k: int| 0 <= k < i ==> memory@[k] == self.memory@[k],
            decreases MEM_SIZE - i,
        {
            memory[i] = self.memory[i];
            i = i + 1;
        }
        assert(memory@ =~= self.memory@);
        let mut stack: Vec<u16> = Vec::with_capacity(self.stack.len());
        let mut j: usize = 0;
        while j < self.stack.len()
            invariant
                j <= self.stack@.len(),
                stack@ == self.stack@.take(j as int),
            decreases self.stack@.len() - j,
        {
            stack.push(self.stack[j]);
            assert(self.stack@.take(j + 1) =~= self.stack@.take(j as int).push(
                self.stack@[j as int],
            ));
            j = j + 1;
        }
        assert(stack@ =~= self.stack@);
        Ok(
            ExecutionEnv {
                stack,
                memory,
                registers: self.registers,
                curr_point: self.curr_point,
                screen,
                register_8_preset: self.register_8_preset,
                operation_count: self.operation_count,
                bypass: self.bypass,
            },
        )
    }
}

impl ExecutionEnv {
    /// The instruction pointer is an address.
    pub closed spec fn wf(&self) -> bool {
        self.curr_point <= NUM_MAX
    }

    /// The engine's end of the conduit.
    pub closed spec fn channel(&self) -> Screen {
        self.screen
    }

    /// A well-formed engine is a well-formed machine.
    pub proof fn lemma_wf(&self)
        requires
            self.wf(),
        ensures
            self@.wf(),
    {
    }

    /// Loads a program image at address 0 of a zeroed machine, with the
    /// instruction pointer at 0, an empty stack and the bypass off.
    ///
    /// An image with an odd number of bytes is rejected, and so is one with
    /// more than 32768 words.
    pub fn new(content: &[u8], screen: Screen, register_preset: Option<u16>) -> (r: Result<
        Self,
        VmError,
    >)
        ensures
            content@.len() % 2 == 1 <==> r == Err::<Self, VmError>(VmError::OddImageLength),
            content@.len() % 2 == 0 && content@.len() > 2 * MEM_SIZE <==> r == Err::<
                Self,
                VmError,
            >(VmError::ImageTooLong),
            content@.len() % 2 == 0 && content@.len() <= 2 * MEM_SIZE <==> r is Ok,
            r is Ok ==> r->Ok_0.wf() && r->Ok_0.channel() == screen && r->Ok_0@ == (Machine {
                stack: Seq::empty(),
                memory: loaded(words_of(content@)),
                registers: seq![0u16, 0u16, 0u16, 0u16, 0u16, 0u16, 0u16, 0u16],
                ip: 0,
                preset: register_preset,
                count: 0,
                bypass: Bypass::Disabled,
            }),
    {
        let words = match Op::convert_bytes(content) {
            Ok(w) => w,
            Err(e) => {
                return Err(e);
            },
        };
        if words.len() > MEM_SIZE {
            return Err(VmError::ImageTooLong);
        }
        let mut rv = ExecutionEnv {
            stack: Vec::new(),
            memory: [0u16; 32768],
            registers: [0u16; 8],
            curr_point: 0,
            screen,
            register_8_preset: register_preset,
            operation_count: 0,
            bypass: Bypass::Disabled,
        };
        rv.memory.copy_first(words.as_slice());
        assert(rv.memory@ =~= loaded(words_of(content@)));
        assert(rv.registers@ =~= seq![0u16, 0u16, 0u16, 0u16, 0u16, 0u16, 0u16, 0u16]);
        Ok(rv)
    }

    /// Chooses what happens at the integrity check.
    pub fn set_bypass(&mut self, mode: Bypass)
        requires
            old(self).wf(),
        ensures
            final(self).wf(),
            final(self)@ == (Machine { bypass: mode, ..old(self)@ }),
            final(self).channel() == old(self).channel(),
    {
        self.bypass = mode;
    }

    /// Number of instructions executed so far.
    pub fn operation_count(&self) -> (r: u64)
        ensures
            r == self@.count,
    {
        self.operation_count
    }

    /// Address of the next instruction.
    pub fn curr_point(&self) -> (r: u16)
        ensures
            r == self@.ip,
    {
        self.curr_point
    }

    /// The eight registers.
    pub fn registers(&self) -> (r: [u16; 8])
        ensures
            r@ == self@.registers,
    {
        self.registers
    }

    /// Number of words on the stack.
    pub fn stack_depth(&self) -> (r: usize)
        ensures
            r == self@.stack.len(),
    {
        self.stack.len()
    }

    /// A copy of the engine's state.
    pub fn snapshot(&self) -> (r: EnvSnapshot)
        requires
            self.wf(),
        ensures
            r@ == self@,
            r@.wf(),
    {
        EnvSnapshot::new(self)
    }

    /// The number that an operand stands for.
    pub fn resolve(&self, v: Val) -> (r: u16)
        requires
            v.wf(),
        ensures
            r == self@.resolve(v),
            r <= NUM_MAX,
    {
        match v {
            Val::Num(n) => n,
            Val::Reg(r) => to_number(self.registers[r.to_usize()]),
        }
    }

    /// Stores a word in a memory cell or a register, as it is.
    fn set_mem(&mut self, mem: Addr, val: u16)
        requires
            mem.wf(),
            old(self).wf(),
        ensures
            final(self)@ == old(self)@.write(mem, val),
            final(self).wf(),
            final(self).channel() == old(self).channel(),
    {
        match mem {
            Addr::Mem(m) => {
                self.memory[m as usize] = val;
            },
            Addr::Reg(r) => {
                self.registers[r.to_usize()] = val;
            },
        }
    }

    /// Stores the number that `val` stands for.
    fn set_mem_from(&mut self, mem: Addr, val: Val)
        requires
            mem.wf(),
            val.wf(),
            old(self).wf(),
        ensures
            final(self)@ == old(self)@.write(mem, old(self)@.resolve(val)),
            final(self).wf(),
            final(self).channel() == old(self).channel(),
    {
        let value: u16 = self.resolve(val);
        self.set_mem(mem, value);
    }

    /// Decodes the instruction that the next step executes: the one at the
    /// instruction pointer, or `ret` at a bypassed integrity check.
    pub fn fetch(&self) -> (r: Result<Op, VmError>)
        requires
            self.wf(),
        ensures
            r == self@.fetch(),
            r is Ok ==> r->Ok_0.wf(),
    {
        if self.curr_point == CHECK_ENTRY && !matches!(self.bypass, Bypass::Disabled) {
            return Ok(Op::Ret);
        }
        let from: usize = self.curr_point as usize;
        let to: usize = if from + 4 <= MEM_SIZE {
            from + 4
        } else {
            MEM_SIZE
        };
        let window = vstd::array::array_as_slice(&self.memory);
        let words = vstd::slice::slice_subrange(window, from, to);
        Op::parse(words)
    }

    /// Begins an instruction: counts it, and puts into registers 0, 1 and 7
    /// what the bypass and the preset ask for.
    fn prepare(&mut self)
        requires
            old(self).wf(),
            old(self)@.count < u64::MAX,
        ensures
            final(self)@ == old(self)@.prepare(),
            final(self).wf(),
            final(self).channel() == old(self).channel(),
    {
        self.operation_count = self.operation_count + 1;
        if self.curr_point == CHECK_ENTRY && matches!(self.bypass, Bypass::ReturnWithResult) {
            self.registers[0] = CHECK_R0;
            self.registers[1] = CHECK_R1;
        }
        if self.operation_count == PRESET_AT {
            if let Some(x) = self.register_8_preset {
                self.registers[7] = x;
            }
        }
        assert(self@ =~= old(self)@.prepare());
    }

    /// Moves the instruction pointer behind an instruction of `size` words.
    fn advance(&mut self, size: u8)
        requires
            old(self).wf(),
            old(self)@.ip + size <= NUM_MAX,
        ensures
            final(self)@ == (Machine { ip: (old(self)@.ip + size) as u16, ..old(self)@ }),
            final(self).wf(),
            final(self).channel() == old(self).channel(),
    {
        self.curr_point = self.curr_point + size as u16;
    }

    /// Executes one instruction of the instruction set on a machine whose
    /// counter has been advanced. The conduit is not touched: `input` is the
    /// character that it gave, and what the instruction writes is in the
    /// result.
    fn execute(&mut self, op: Op, input: Option<char>) -> (r: Result<Effect, VmError>)
        requires
            old(self).wf(),
            op.wf(),
        ensures
            final(self)@ =~= old(self)@.execute(op, input).0,
            r == old(self)@.execute(op, input).1,
            final(self).wf(),
            final(self).channel() == old(self).channel(),
    {
        let size: u8 = op.param_bytes();
        let fits: bool = self.curr_point + size as u16 <= NUM_MAX;
        let quiet = Effect { halted: false, output: None };
        match op {
            Op::Halt => Ok(Effect { halted: true, output: None }),
            Op::Jmp(t) => {
                self.curr_point = self.resolve(t);
                Ok(quiet)
            },
            Op::Jt(c, t) => {
                if self.resolve(c) != 0 {
                    self.curr_point = self.resolve(t);
                    Ok(quiet)
                } else if fits {
                    self.advance(size);
                    Ok(quiet)
                } else {
                    Err(VmError::AddressOutOfRange)
                }
            },
            Op::Jf(c, t) => {
                if self.resolve(c) == 0 {
                    self.curr_point = self.resolve(t);
                    Ok(quiet)
                } else if fits {
                    self.advance(size);
                    Ok(quiet)
                } else {
                    Err(VmError::AddressOutOfRange)
                }
            },
            Op::Call(t) => {
                if fits {
                    let target: u16 = self.resolve(t);
                    self.stack.push(self.curr_point + size as u16);
                    self.curr_point = target;
                    Ok(quiet)
                } else {
                    Err(VmError::AddressOutOfRange)
                }
            },
            Op::Ret => {
                let depth: usize = self.stack.len();
                if depth == 0 {
                    Ok(Effect { halted: true, output: None })
                } else if self.stack[depth - 1] > NUM_MAX {
                    Err(VmError::AddressOutOfRange)
                } else {
                    let target: u16 = self.stack[depth - 1];
                    self.stack.pop();
                    self.curr_point = target;
                    Ok(quiet)
                }
            },
            Op::Pop(d) => {
                let depth: usize = self.stack.len();
                if depth == 0 {
                    Err(VmError::StackUnderflow)
                } else if fits {
                    let top: u16 = self.stack[depth - 1];
                    self.stack.pop();
                    self.set_mem(d, top);
                    self.advance(size);
                    Ok(quiet)
                } else {
                    Err(VmError::AddressOutOfRange)
                }
            },
            Op::Mod(d, a, b) => {
                let divisor: u16 = self.resolve(b);
                if divisor == 0 {
                    Err(VmError::DivisionByZero)
                } else if fits {
                    let w: u16 = wrapping_mod(self.resolve(a), divisor);
                    self.set_mem(d, w);
                    self.advance(size);
                    Ok(quiet)
                } else {
                    Err(VmError::AddressOutOfRange)
                }
            },
            Op::In(d) => {
                match input {
                    None => Err(VmError::Disconnected),
                    Some(c) => {
                        if fits {
                            self.set_mem(d, char_code(c));
                            self.advance(size);
                            Ok(quiet)
                        } else {
                            Err(VmError::AddressOutOfRange)
                        }
                    },
                }
            },
            _ => {
                if !fits {
                    return Err(VmError::AddressOutOfRange);
                }
                let mut output: Option<char> = None;
                match op {
                    Op::SetReg(r, v) => {
                        self.set_mem_from(Addr::Reg(r), v);
                    },
                    Op::Push(v) => {
                        let w: u16 = self.resolve(v);
                        self.stack.push(w);
                    },
                    Op::Eq(d, a, b) => {
                        let w: u16 = if self.resolve(a) == self.resolve(b) {
                            1
                        } else {
                            0
                        };
                        self.set_mem(d, w);
                    },
                    Op::Gt(d, a, b) => {
                        let w: u16 = if self.resolve(a) > self.resolve(b) {
                            1
                        } else {
                            0
                        };
                        self.set_mem(d, w);
                    },
                    Op::Add(d, a, b) => {
                        let w: u16 = wrapping_add(self.resolve(a), self.resolve(b));
                        self.set_mem(d, w);
                    },
                    Op::Mult(d, a, b) => {
                        let w: u16 = wrapping_mul(self.resolve(a), self.resolve(b));
                        self.set_mem(d, w);
                    },
                    Op::And(d, a, b) => {
                        let w: u16 = bit_and(self.resolve(a), self.resolve(b));
                        self.set_mem(d, w);
                    },
                    Op::Or(d, a, b) => {
                        let w: u16 = bit_or(self.resolve(a), self.resolve(b));
                        self.set_mem(d, w);
                    },
                    Op::Not(d, a) => {
                        let w: u16 = bit_not(self.resolve(a));
                        self.set_mem(d, w);
                    },
                    Op::Rmem(d, a) => {
                        let at: u16 = self.resolve(a);
                        let w: u16 = self.memory[at as usize];
                        self.set_mem(d, w);
                    },
                    Op::Wmem(a, v) => {
                        let at: u16 = self.resolve(a);
                        let w: u16 = self.resolve(v);
                        self.set_mem(Addr::Mem(at), w);
                    },
                    Op::Out(v) => {
                        output = Some(glyph(self.resolve(v)));
                    },
                    _ => {},
                }
                self.advance(size);
                Ok(Effect { halted: false, output })
            },
        }
    }

    /// Executes one step on a given instruction and leaves the conduit
    /// alone: `input` is the character that `in` reads, and what `out`
    /// writes is in the result. The outcome is `Machine::apply`.
    ///
    /// `in` without a character fails as a conduit without a peer does.
    pub fn apply(&mut self, op: Op, input: Option<char>) -> (r: Result<Effect, VmError>)
        requires
            old(self).wf(),
            op.wf(),
        ensures
            (final(self)@, r) == old(self)@.apply(op, input),
            final(self).wf(),
            final(self).channel() == old(self).channel(),
    {
        if self.operation_count == u64::MAX {
            return Err(VmError::CounterExhausted);
        }
        let bypassed: bool = self.curr_point == CHECK_ENTRY && !matches!(
            self.bypass,
            Bypass::Disabled
        );
        self.prepare();
        if bypassed {
            self.execute(Op::Ret, input)
        } else {
            self.execute(op, input)
        }
    }

    /// Executes the step that the machine is about to make and leaves the
    /// conduit alone. The outcome is `Machine::step`.
    pub fn step(&mut self, input: Option<char>) -> (r: Result<Effect, VmError>)
        requires
            old(self).wf(),
        ensures
            (final(self)@, r) == old(self)@.step(input),
            final(self).wf(),
            final(self).channel() == old(self).channel(),
    {
        if self.operation_count == u64::MAX {
            return Err(VmError::CounterExhausted);
        }
        let fetched = self.fetch();
        self.prepare();
        match fetched {
            Ok(op) => self.execute(op, input),
            Err(e) => Err(e),
        }
    }

    /// Every character that the engine has read from its conduit.
    pub open spec fn taken(&self) -> Seq<char> {
        self.channel().taken()
    }

    /// Every character that the engine has written to its conduit.
    pub open spec fn sent(&self) -> Seq<char> {
        self.channel().sent()
    }

    /// The characters that have arrived at the engine and were not read.
    pub open spec fn pending(&self) -> Seq<char> {
        self.channel().pending()
    }

    /// The engine `after` is where a run of `n` steps ends that began at a
    /// machine `start`, when the engine had read `taken` and written
    /// `sent`: the run read what the engine has read since, and wrote what
    /// the engine has written since.
    pub open spec fn tracks(
        start: Machine,
        taken: Seq<char>,
        sent: Seq<char>,
        after: &ExecutionEnv,
        n: nat,
        status: Status,
    ) -> bool {
        &&& taken.is_prefix_of(after.taken())
        &&& sent.is_prefix_of(after.sent())
        &&& start.run(after.taken().skip(taken.len() as int), n) == (Run {
            machine: after@,
            used: (after.taken().len() - taken.len()) as nat,
            output: after.sent().skip(sent.len() as int),
            status,
        })
    }

    /// The engine `after` is this engine at the end of a run of `n` steps,
    /// none of which failed to send what it wrote.
    pub open spec fn ran(&self, after: &ExecutionEnv, n: nat, status: Status) -> bool {
        &&& Self::tracks(self@, self.taken(), self.sent(), after, n, status)
        &&& after.channel().unsent() == self.channel().unsent()
    }

    /// The engine `after` is this engine at the end of some run.
    pub open spec fn ends(&self, after: &ExecutionEnv, status: Status) -> bool {
        exists|n: nat| self.ran(after, n, status)
    }

    /// The engine `after` is this engine where its conduit failed after a
    /// run of `n` steps, in one of three ways. The engine is one step
    /// further, and the step wanted a character: its looks into the queue
    /// brought none. Or the engine is one step further, and the step wrote
    /// a character: the conduit could not send it. Or the engine is at the
    /// end of the run and its next step wants a character: the last look
    /// into the queue found the peer gone. An engine whose next step
    /// neither reads nor writes has not stalled.
    pub open spec fn stalled_at(&self, after: &ExecutionEnv, n: nat) -> bool {
        let run = self@.run(after.taken().skip(self.taken().len() as int), n);
        let seen = after.channel().seen_since(&self.channel());
        let next = run.machine.step(None);
        &&& self.taken().is_prefix_of(after.taken())
        &&& self.sent().is_prefix_of(after.sent())
        &&& self.channel().looks().is_prefix_of(after.channel().looks())
        &&& run.status == Status::Running
        &&& run.used == after.taken().len() - self.taken().len()
        &&& run.output == after.sent().skip(self.sent().len() as int)
        &&& {
            ||| {
                &&& after@ == next.0
                &&& run.machine.wants_input()
                &&& seen.len() > 0
                &&& !(seen.last() is Empty)
                &&& look_text(seen.last()).len() == 0
                &&& after.channel().unsent() == self.channel().unsent()
            }
            ||| {
                &&& after@ == next.0
                &&& run.machine.writes()
                &&& after.channel().unsent() == self.channel().unsent().push(next.1->Ok_0.text())
            }
            ||| {
                &&& after@ == run.machine
                &&& run.machine.wants_input()
                &&& seen.len() > 0
                &&& seen.last() is Disconnected
                &&& after.channel().unsent() == self.channel().unsent()
            }
        }
    }

    /// The engine `after` is this engine where its conduit failed after
    /// some run.
    pub open spec fn stalled(&self, after: &ExecutionEnv) -> bool {
        exists|n: nat| self.stalled_at(after, n)
    }

    /// None of the first `n` states of the run that began at a machine
    /// `start`, when the engine had read `taken`, was about to call the
    /// integrity check.
    pub open spec fn clear_before(
        start: Machine,
        taken: Seq<char>,
        after: &ExecutionEnv,
        n: nat,
    ) -> bool {
        forall|k: nat|
            k < n ==> !(#[trigger] start.run(
                after.taken().skip(taken.len() as int),
                k,
            )).machine.calls_check()
    }

    /// None of the first `n` states of the run from this engine to `after`
    /// was about to call the integrity check. The first state is this
    /// engine's own.
    pub open spec fn unchecked(&self, after: &ExecutionEnv, n: nat) -> bool {
        Self::clear_before(self@, self.taken(), after, n)
    }

    /// `trail` holds the engine as it was after each of the first steps of a
    /// run from this engine, one state for each step; the run could go on
    /// from each of them, and `condition` was asked of each and answered
    /// `false`.
    pub open spec fn refused<F: Fn(&ExecutionEnv) -> bool>(
        &self,
        trail: Seq<ExecutionEnv>,
        condition: F,
    ) -> bool {
        forall|i: int|
            0 <= i < trail.len() ==> {
                &&& self.ran(&#[trigger] trail[i], (i + 1) as nat, Status::Running)
                &&& call_ensures(condition, (&trail[i],), false)
            }
    }

    /// Since it was this engine, the engine `after` has looked into its
    /// queue for a character to read, and its last look brought none and
    /// did not find the queue merely empty: the peer was gone, or the looks
    /// were given up.
    pub open spec fn could_not_read(&self, after: &ExecutionEnv) -> bool {
        let seen = after.channel().seen_since(&self.channel());
        &&& self.channel().looks().is_prefix_of(after.channel().looks())
        &&& seen.len() > 0
        &&& !(seen.last() is Empty)
        &&& look_text(seen.last()).len() == 0
    }

    /// Since it was this engine, the engine `after` has looked into its
    /// queue, and its last look found the peer there and brought no
    /// character.
    pub open spec fn looked_in_vain(&self, after: &ExecutionEnv) -> bool {
        let seen = after.channel().seen_since(&self.channel());
        &&& self.channel().looks().is_prefix_of(after.channel().looks())
        &&& seen.len() > 0
        &&& !(seen.last() is Disconnected)
        &&& look_text(seen.last()).len() == 0
    }

    /// The character that the engine read between two moments one step
    /// apart, if it read one.
    pub open spec fn heard(&self, after: &ExecutionEnv) -> Option<char> {
        if after.taken().len() > self.taken().len() {
            Some(after.taken().last())
        } else {
            None
        }
    }

    /// Executes one step on a given instruction, with the conduit: `in`
    /// waits for a character and `out` sends one.
    ///
    /// The machine moves as `Machine::apply` says for the character that was
    /// read, and only `in` reads: one character, the first that is pending
    /// where one is, else the first that its looks into the queue bring.
    /// The result is whether the engine halted. `Disconnected` comes where
    /// the looks of `in` brought no character or the conduit could not send
    /// what `out` wrote; every other error is the instruction's own.
    pub fn run_op(&mut self, op: Op) -> (r: Result<bool, VmError>)
        requires
            old(self).wf(),
            op.wf(),
        ensures
            final(self).wf(),
            old(self).channel().looks().is_prefix_of(final(self).channel().looks()),
            ({
                let reads = old(self)@.effective(op) is In;
                let heard = old(self).heard(final(self));
                let (machine, pure) = old(self)@.apply(op, heard);
                &&& final(self)@ == machine
                &&& final(self).taken() == match heard {
                    Some(c) => old(self).taken().push(c),
                    None => old(self).taken(),
                }
                &&& heard is Some ==> reads
                &&& reads && old(self).pending().len() > 0 ==> heard == Some(
                    old(self).pending()[0],
                ) && final(self).pending() == old(self).pending().skip(1)
                &&& reads && old(self).pending().len() == 0 ==> {
                    let seen = final(self).channel().seen_since(&old(self).channel());
                    &&& search(seen)
                    &&& heard is Some <==> look_text(seen.last()).len() > 0
                    &&& heard is Some ==> heard == Some(look_text(seen.last())[0]) && final(self).pending() == look_text(seen.last()).skip(1)
                }
                &&& !reads ==> final(self).pending() == old(self).pending()
                    && final(self).channel().looks() == old(self).channel().looks()
                &&& match r {
                    Ok(halted) => {
                        &&& pure is Ok
                        &&& pure->Ok_0.halted == halted
                        &&& final(self).sent() == old(self).sent() + pure->Ok_0.text()
                    },
                    Err(VmError::Disconnected) => {
                        &&& final(self).sent() == old(self).sent()
                        &&& {
                            ||| {
                                &&& reads
                                &&& heard is None
                                &&& old(self).could_not_read(final(self))
                                &&& final(self).channel().unsent() == old(self).channel().unsent()
                            }
                            ||| {
                                &&& pure is Ok
                                &&& pure->Ok_0.output is Some
                                &&& final(self).channel().unsent() == old(self).channel().unsent().push(pure->Ok_0.text())
                            }
                        }
                    },
                    Err(e) => {
                        &&& final(self).sent() == old(self).sent()
                        &&& pure == Err::<Effect, VmError>(e)
                        &&& !(reads && heard is None)
                    },
                }
                &&& !(r == Err::<bool, VmError>(VmError::Disconnected)) ==> final(self).channel().unsent() == old(self).channel().unsent()
            }),
    {
        let bypassed: bool = self.curr_point == CHECK_ENTRY && !matches!(
            self.bypass,
            Bypass::Disabled
        );
        let reads: bool = !bypassed && matches!(op, Op::In(_));
        let mut input: Option<char> = None;
        if reads {
            match self.screen.get_char() {
                Ok(c) => {
                    input = Some(c);
                },
                Err(_) => {},
            }
        }
        assert(input == old(self).heard(self));
        let effect = match self.apply(op, input) {
            Ok(effect) => effect,
            Err(e) => {
                if reads && input.is_none() {
                    return Err(VmError::Disconnected);
                }
                return Err(e);
            },
        };
        match effect.output {
            None => {
                assert(effect.text() =~= Seq::<char>::empty());
                assert(self.sent() =~= old(self).sent() + effect.text());
                Ok(effect.halted)
            },
            Some(c) => {
                match self.screen.send_char(c) {
                    Ok(()) => {
                        assert(self.sent() =~= old(self).sent() + effect.text());
                        Ok(effect.halted)
                    },
                    Err(e) => Err(e),
                }
            },
        }
    }

    /// One step of a run with the conduit, on the instruction just fetched.
    fn pace(
        &mut self,
        op: Op,
        Ghost(start): Ghost<Machine>,
        Ghost(taken): Ghost<Seq<char>>,
        Ghost(sent): Ghost<Seq<char>>,
        Ghost(n): Ghost<nat>,
    ) -> (r: Result<bool, VmError>)
        requires
            old(self).wf(),
            Self::tracks(start, taken, sent, old(self), n, Status::Running),
            old(self)@.fetch() == Ok::<Op, VmError>(op),
        ensures
            final(self).wf(),
            final(self)@.count >= old(self)@.count,
            final(self)@.bypass == old(self)@.bypass,
            final(self)@.preset == old(self)@.preset,
            old(self).channel().looks().is_prefix_of(final(self).channel().looks()),
            old(self).taken().is_prefix_of(final(self).taken()),
            match r {
                Ok(false) => Self::tracks(start, taken, sent, final(self), n + 1, Status::Running)
                    && final(self)@.count == old(self)@.count + 1,
                Ok(true) => Self::tracks(start, taken, sent, final(self), n + 1, Status::Halted),
                Err(VmError::Disconnected) => {
                    &&& final(self).taken() == old(self).taken()
                    &&& final(self).sent() == old(self).sent()
                    &&& final(self)@ == old(self)@.step(None).0
                    &&& {
                        ||| {
                            &&& old(self)@.wants_input()
                            &&& old(self).could_not_read(final(self))
                            &&& final(self).channel().unsent() == old(self).channel().unsent()
                        }
                        ||| {
                            &&& old(self)@.writes()
                            &&& final(self).channel().unsent() == old(self).channel().unsent().push(old(self)@.step(None).1->Ok_0.text())
                        }
                    }
                },
                Err(e) => Self::tracks(start, taken, sent, final(self), n + 1, Status::Failed(e)),
            },
            !(r == Err::<bool, VmError>(VmError::Disconnected)) ==> final(self).channel().unsent()
                == old(self).channel().unsent(),
    {
        proof {
            lemma_step_wf(self@, None);
        }
        let r = self.run_op(op);
        proof {
            let heard = old(self).heard(self);
            let input = old(self).taken().skip(taken.len() as int);
            lemma_step_wf(old(self)@, heard);
            lemma_apply_wf(old(self)@, op, heard);
            if !(r == Err::<bool, VmError>(VmError::Disconnected)) {
                assert(old(self)@.wants_input() <==> heard is Some);
                lemma_run_next(start, input, n, heard);
                let fed = match heard {
                    Some(c) => input.push(c),
                    None => input,
                };
                assert(self.taken().skip(taken.len() as int) =~= fed);
                let pure = old(self)@.apply(op, heard).1;
                if pure is Ok {
                    assert(self.sent().skip(sent.len() as int) =~= old(self).sent().skip(
                        sent.len() as int,
                    ) + pure->Ok_0.text());
                }
            }
        }
        r
    }

    /// The step of a run whose instruction does not decode.
    fn stumble(
        &mut self,
        Ghost(start): Ghost<Machine>,
        Ghost(taken): Ghost<Seq<char>>,
        Ghost(sent): Ghost<Seq<char>>,
        Ghost(n): Ghost<nat>,
    ) -> (e: VmError)
        requires
            old(self).wf(),
            Self::tracks(start, taken, sent, old(self), n, Status::Running),
            old(self)@.fetch() is Err,
        ensures
            final(self).wf(),
            final(self)@.count >= old(self)@.count,
            final(self)@.bypass == old(self)@.bypass,
            final(self)@.preset == old(self)@.preset,
            !(e is Disconnected),
            final(self).channel() == old(self).channel(),
            Self::tracks(start, taken, sent, final(self), n + 1, Status::Failed(e)),
    {
        proof {
            lemma_step_wf(self@, None);
            lemma_run_next(start, self.taken().skip(taken.len() as int), n, None);
        }
        match self.step(None) {
            Err(e) => e,
            Ok(_) => vstd::pervasive::unreached(),
        }
    }

    /// Steps until the engine halts. `in` waits for its character.
    ///
    /// On `Ok` the engine stands at the end of a run that halted, and on an
    /// error of the machine at the end of a run that failed with it; the
    /// run read what the engine took from its conduit and wrote what the
    /// engine sent. `Disconnected` means that the conduit failed at `in` or
    /// `out`.
    #[verifier::rlimit(50)]
    pub fn run(&mut self) -> (r: Result<(), VmError>)
        requires
            old(self).wf(),
        ensures
            final(self).wf(),
            final(self)@.count >= old(self)@.count,
            match r {
                Ok(()) => old(self).ends(final(self), Status::Halted),
                Err(VmError::Disconnected) => old(self).stalled(final(self)),
                Err(e) => old(self).ends(final(self), Status::Failed(e)),
            },
    {
        let ghost start = self@;
        let ghost taken = self.taken();
        let ghost sent = self.sent();
        let ghost mut n: nat = 0;
        assert(self.taken().skip(taken.len() as int) =~= Seq::<char>::empty());
        assert(self.sent().skip(sent.len() as int) =~= Seq::<char>::empty());
        loop
            invariant
                self.wf(),
                start == old(self)@,
                taken == old(self).taken(),
                sent == old(self).sent(),
                self@.count >= old(self)@.count,
                old(self).screen.looks().is_prefix_of(self.screen.looks()),
                old(self).screen.unsent() == self.screen.unsent(),
                Self::tracks(start, taken, sent, self, n, Status::Running),
            decreases u64::MAX - self.operation_count,
        {
            let op = match self.fetch() {
                Ok(op) => op,
                Err(_) => {
                    let e = self.stumble(Ghost(start), Ghost(taken), Ghost(sent), Ghost(n));
                    assert(old(self).ran(self, n + 1, Status::Failed(e)));
                    return Err(e);
                },
            };
            match self.pace(op, Ghost(start), Ghost(taken), Ghost(sent), Ghost(n)) {
                Ok(false) => {},
                Ok(true) => {
                    assert(old(self).ran(self, n + 1, Status::Halted));
                    return Ok(());
                },
                Err(e) => {
                    assert(!(e is Disconnected) ==> old(self).ran(self, n + 1, Status::Failed(e)));
                    assert(e is Disconnected ==> old(self).stalled_at(self, n));
                    return Err(e);
                },
            }
            proof {
                n = n + 1;
            }
        }
    }

    /// Whether the instruction just fetched is a `call` whose target is the
    /// integrity check.
    fn calls_teleporter(&self, fetched: &Result<Op, VmError>) -> (r: bool)
        requires
            self.wf(),
            *fetched == self@.fetch(),
            fetched is Ok ==> fetched->Ok_0.wf(),
        ensures
            r == self@.calls_check(),
    {
        match fetched {
            Ok(Op::Call(target)) => self.resolve(*target) == CHECK_ENTRY,
            _ => false,
        }
    }

    /// Steps until a `call` whose target is the integrity check is about to
    /// run, or the engine halts. The result is `false` either way.
    ///
    /// The engine stops at the first such `call`: no state that the run
    /// passed through before was about to make one.
    #[verifier::rlimit(50)]
    pub fn check_teleporter(&mut self) -> (r: Result<bool, VmError>)
        requires
            old(self).wf(),
        ensures
            final(self).wf(),
            final(self)@.count >= old(self)@.count,
            match r {
                Ok(found) => !found && exists|n: nat|
                    {
                        &&& #[trigger] old(self).unchecked(final(self), n)
                        &&& old(self).ran(final(self), n, Status::Halted) || (old(self).ran(
                            final(self),
                            n,
                            Status::Running,
                        ) && final(self)@.calls_check())
                    },
                Err(VmError::Disconnected) => exists|n: nat| #[trigger]
                    old(self).stalled_at(final(self), n) && old(self).unchecked(
                        final(self),
                        n + 1,
                    ),
                Err(e) => exists|n: nat| #[trigger]
                    old(self).unchecked(final(self), n) && old(self).ran(
                        final(self),
                        n,
                        Status::Failed(e),
                    ),
            },
    {
        let ghost start = self@;
        let ghost taken = self.taken();
        let ghost sent = self.sent();
        let ghost mut n: nat = 0;
        assert(self.taken().skip(taken.len() as int) =~= Seq::<char>::empty());
        assert(self.sent().skip(sent.len() as int) =~= Seq::<char>::empty());
        proof {
            self.lemma_wf();
        }
        loop
            invariant
                self.wf(),
                start == old(self)@,
                start.wf(),
                taken == old(self).taken(),
                sent == old(self).sent(),
                self@.count >= old(self)@.count,
                old(self).screen.looks().is_prefix_of(self.screen.looks()),
                old(self).screen.unsent() == self.screen.unsent(),
                Self::tracks(start, taken, sent, self, n, Status::Running),
                Self::clear_before(start, taken, self, n),
            decreases u64::MAX - self.operation_count,
        {
            let ghost input = self.taken().skip(taken.len() as int);
            let fetched = self.fetch();
            if self.calls_teleporter(&fetched) {
                assert(old(self).ran(self, n, Status::Running));
                assert(old(self).unchecked(self, n));
                return Ok(false);
            }
            let op = match fetched {
                Ok(op) => op,
                Err(_) => {
                    let e = self.stumble(Ghost(start), Ghost(taken), Ghost(sent), Ghost(n));
                    proof {
                        lemma_clear_next(start, input, input, n);
                    }
                    assert(old(self).ran(self, n + 1, Status::Failed(e)));
                    assert(old(self).unchecked(self, n + 1));
                    return Err(e);
                },
            };
            let r = self.pace(op, Ghost(start), Ghost(taken), Ghost(sent), Ghost(n));
            proof {
                let fed = self.taken().skip(taken.len() as int);
                assert(input.is_prefix_of(fed)) by {
                    assert(input =~= fed.subrange(0, input.len() as int));
                }
                lemma_clear_next(start, input, fed, n);
                assert(old(self).unchecked(self, n + 1));
            }
            match r {
                Ok(false) => {},
                Ok(true) => {
                    assert(old(self).ran(self, n + 1, Status::Halted));
                    return Ok(false);
                },
                Err(e) => {
                    assert(!(e is Disconnected) ==> old(self).ran(self, n + 1, Status::Failed(e)));
                    assert(e is Disconnected ==> old(self).stalled_at(self, n));
                    return Err(e);
                },
            }
            proof {
                n = n + 1;
            }
        }
    }

    /// Steps until `condition` holds of the engine after a step, or the
    /// engine halts. At least one step is made.
    ///
    /// The condition is asked after every step that does not end the run,
    /// and the engine stops at the first state of which it holds: of every
    /// state before, it was asked and did not hold.
    #[verifier::rlimit(50)]
    pub fn run_until_condition(&mut self, condition: impl Fn(&ExecutionEnv) -> bool) -> (r: Result<
        (),
        VmError,
    >)
        requires
            old(self).wf(),
            forall|env: &ExecutionEnv| env.wf() ==> call_requires(condition, (env,)),
        ensures
            final(self).wf(),
            final(self)@.count >= old(self)@.count,
            exists|trail: Seq<ExecutionEnv>|
                {
                    &&& #[trigger] old(self).refused(trail, condition)
                    &&& match r {
                        Ok(()) => old(self).ran(final(self), trail.len() + 1, Status::Halted) || (
                        old(self).ran(final(self), trail.len() + 1, Status::Running)
                            && call_ensures(condition, (final(self),), true)),
                        Err(VmError::Disconnected) => old(self).stalled_at(
                            final(self),
                            trail.len(),
                        ),
                        Err(e) => old(self).ran(final(self), trail.len() + 1, Status::Failed(e)),
                    }
                },
    {
        let ghost start = self@;
        let ghost taken = self.taken();
        let ghost sent = self.sent();
        let ghost mut n: nat = 0;
        let ghost mut trail: Seq<ExecutionEnv> = Seq::empty();
        assert(self.taken().skip(taken.len() as int) =~= Seq::<char>::empty());
        assert(self.sent().skip(sent.len() as int) =~= Seq::<char>::empty());
        loop
            invariant
                self.wf(),
                start == old(self)@,
                taken == old(self).taken(),
                sent == old(self).sent(),
                self@.count >= old(self)@.count,
                old(self).screen.looks().is_prefix_of(self.screen.looks()),
                old(self).screen.unsent() == self.screen.unsent(),
                Self::tracks(start, taken, sent, self, n, Status::Running),
                trail.len() == n,
                old(self).refused(trail, condition),
                forall|env: &ExecutionEnv| env.wf() ==> call_requires(condition, (env,)),
            decreases u64::MAX - self.operation_count,
        {
            let op = match self.fetch() {
                Ok(op) => op,
                Err(_) => {
                    let e = self.stumble(Ghost(start), Ghost(taken), Ghost(sent), Ghost(n));
                    assert(old(self).ran(self, n + 1, Status::Failed(e)));
                    return Err(e);
                },
            };
            match self.pace(op, Ghost(start), Ghost(taken), Ghost(sent), Ghost(n)) {
                Ok(false) => {},
                Ok(true) => {
                    assert(old(self).ran(self, n + 1, Status::Halted));
                    return Ok(());
                },
                Err(e) => {
                    assert(!(e is Disconnected) ==> old(self).ran(self, n + 1, Status::Failed(e)));
                    assert(e is Disconnected ==> old(self).stalled_at(self, n));
                    return Err(e);
                },
            }
            assert(old(self).ran(self, n + 1, Status::Running));
            if condition(&*self) {
                return Ok(());
            }
            proof {
                let ghost longer = trail.push(*self);
                assert forall|i: int| 0 <= i < longer.len() implies {
                    &&& old(self).ran(&#[trigger] longer[i], (i + 1) as nat, Status::Running)
                    &&& call_ensures(condition, (&longer[i],), false)
                } by {
                    if i < trail.len() {
                        assert(longer[i] == trail[i]);
                    }
                }
                trail = longer;
                n = n + 1;
            }
        }
    }

    /// Steps until the engine halts, or until the next instruction is `in`
    /// and no character can be had without waiting. The result is `true`
    /// where the engine halted and `false` where it waits for input.
    ///
    /// The engine waits only after it has looked into its queue and found
    /// nothing there: while characters are pending or queued it reads on.
    #[verifier::rlimit(50)]
    pub fn run_until_empty(&mut self) -> (r: Result<bool, VmError>)
        requires
            old(self).wf(),
        ensures
            final(self).wf(),
            final(self)@.count >= old(self)@.count,
            match r {
                Ok(true) => old(self).ends(final(self), Status::Halted),
                Ok(false) => {
                    &&& old(self).ends(final(self), Status::Starved)
                    &&& final(self).pending().len() == 0
                    &&& old(self).looked_in_vain(final(self))
                },
                Err(VmError::Disconnected) => old(self).stalled(final(self)),
                Err(e) => old(self).ends(final(self), Status::Failed(e)),
            },
    {
        let ghost start = self@;
        let ghost taken = self.taken();
        let ghost sent = self.sent();
        let ghost mut n: nat = 0;
        assert(self.taken().skip(taken.len() as int) =~= Seq::<char>::empty());
        assert(self.sent().skip(sent.len() as int) =~= Seq::<char>::empty());
        loop
            invariant
                self.wf(),
                start == old(self)@,
                taken == old(self).taken(),
                sent == old(self).sent(),
                self@.count >= old(self)@.count,
                old(self).screen.looks().is_prefix_of(self.screen.looks()),
                old(self).screen.unsent() == self.screen.unsent(),
                Self::tracks(start, taken, sent, self, n, Status::Running),
            decreases u64::MAX - self.operation_count,
        {
            let op = match self.fetch() {
                Ok(op) => op,
                Err(_) => {
                    let e = self.stumble(Ghost(start), Ghost(taken), Ghost(sent), Ghost(n));
                    assert(old(self).ran(self, n + 1, Status::Failed(e)));
                    return Err(e);
                },
            };
            if let Op::In(_) = op {
                let ghost asked = self.screen;
                let starved = match self.screen.is_empty() {
                    Ok(starved) => starved,
                    Err(e) => {
                        assert(old(self).stalled_at(self, n));
                        return Err(e);
                    },
                };
                if starved {
                    proof {
                        let input = self.taken().skip(taken.len() as int);
                        assert(start.run(input, n + 1) == start.run(input, n).advance(input));
                        assert(old(self).ran(self, n + 1, Status::Starved));
                        let looks = self.screen.looks();
                        assert(self.screen.seen_since(&asked).last() == looks.last());
                        assert(self.screen.seen_since(&old(self).screen).last() == looks.last());
                    }
                    return Ok(false);
                }
            }
            match self.pace(op, Ghost(start), Ghost(taken), Ghost(sent), Ghost(n)) {
                Ok(false) => {},
                Ok(true) => {
                    assert(old(self).ran(self, n + 1, Status::Halted));
                    return Ok(true);
                },
                Err(e) => {
                    assert(!(e is Disconnected) ==> old(self).ran(self, n + 1, Status::Failed(e)));
                    assert(e is Disconnected ==> old(self).stalled_at(self, n));
                    return Err(e);
                },
            }
            proof {
                n = n + 1;
            }
        }
    }
}

/// The preset that a session gives its engine.
pub const SESSION_PRESET: u16 = 25734;

/// A session: an engine, the host's end of its conduit, the lines that the
/// host has entered, and whether the engine is gone.
pub struct StaticExecuter {
    env: ExecutionEnv,
    env_screen: Screen,
    history: Vec<String>,
    ended: bool,
}

impl StaticExecuter {
    /// The engine is well formed.
    pub closed spec fn wf(&self) -> bool {
        self.env.wf()
    }

    /// The session's engine.
    pub closed spec fn engine(&self) -> ExecutionEnv {
        self.env
    }

    /// The host's end of the conduit.
    pub closed spec fn host(&self) -> Screen {
        self.env_screen
    }

    /// The lines entered so far, oldest first.
    pub closed spec fn transcript(&self) -> Seq<Seq<char>> {
        texts(self.history@)
    }

    /// The engine has halted or failed.
    pub closed spec fn finished(&self) -> bool {
        self.ended
    }

    /// A session on a program image: a fresh engine with the session's
    /// preset and with the integrity check bypassed, an empty transcript.
    ///
    /// The image is rejected as `ExecutionEnv::new` rejects it.
    pub fn new(image: &[u8]) -> (r: Result<Self, VmError>)
        ensures
            image@.len() % 2 == 1 <==> r == Err::<Self, VmError>(VmError::OddImageLength),
            image@.len() % 2 == 0 && image@.len() > 2 * MEM_SIZE <==> r == Err::<Self, VmError>(
                VmError::ImageTooLong,
            ),
            image@.len() % 2 == 0 && image@.len() <= 2 * MEM_SIZE <==> r is Ok,
            r is Ok ==> {
                &&& r->Ok_0.wf()
                &&& !r->Ok_0.finished()
                &&& r->Ok_0.transcript() == Seq::<Seq<char>>::empty()
                &&& r->Ok_0.host().sent() == Seq::<char>::empty()
                &&& r->Ok_0.host().taken() == Seq::<char>::empty()
                &&& r->Ok_0.engine().taken() == Seq::<char>::empty()
                &&& r->Ok_0.engine().sent() == Seq::<char>::empty()
                &&& r->Ok_0.engine()@ == (Machine {
                    stack: Seq::empty(),
                    memory: loaded(words_of(image@)),
                    registers: seq![0u16, 0u16, 0u16, 0u16, 0u16, 0u16, 0u16, 0u16],
                    ip: 0,
                    preset: Some(SESSION_PRESET),
                    count: 0,
                    bypass: Bypass::ReturnWithResult,
                })
            },
    {
        let (s1, s2) = Screen::create();
        let mut env = match ExecutionEnv::new(image, s1, Some(SESSION_PRESET)) {
            Ok(env) => env,
            Err(e) => {
                return Err(e);
            },
        };
        env.set_bypass(Bypass::ReturnWithResult);
        let rv = StaticExecuter { env, env_screen: s2, history: Vec::new(), ended: false };
        assert(rv.transcript() =~= Seq::<Seq<char>>::empty());
        Ok(rv)
    }

    /// A copy of the transcript.
    pub fn get_history(&self) -> (r: Vec<String>)
        ensures
            r@.len() == self.transcript().len(),
            forall|i: int| 0 <= i < r@.len() ==> r@[i]@ == self.transcript()[i],
    {
        let mut rv: Vec<String> = Vec::with_capacity(self.history.len());
        let mut i: usize = 0;
        while i < self.history.len()
            invariant
                i <= self.history@.len(),
                rv@.len() == i,
                forall|k: int| 0 <= k < i ==> rv@[k]@ == self.history@[k]@,
            decreases self.history@.len() - i,
        {
            rv.push(self.history[i].clone());
            i = i + 1;
        }
        rv
    }

    /// Whether the engine has halted or failed.
    pub fn is_finished(&self) -> (r: bool)
        ensures
            r == self.finished(),
    {
        self.ended
    }

    /// A session whose engine finds the lines of an earlier transcript
    /// already queued, in order, and whose transcript is those lines.
    ///
    /// The image is rejected as `new` rejects it. `Disconnected` can come
    /// only of queueing a line, so never of an empty transcript.
    pub fn new_from_checkpoint(image: &[u8], history: Vec<String>) -> (r: Result<Self, VmError>)
        ensures
            image@.len() % 2 == 1 ==> r == Err::<Self, VmError>(VmError::OddImageLength),
            image@.len() % 2 == 0 && image@.len() > 2 * MEM_SIZE ==> r == Err::<Self, VmError>(
                VmError::ImageTooLong,
            ),
            r is Err ==> r->Err_0 is OddImageLength || r->Err_0 is ImageTooLong || r->Err_0
                is Disconnected,
            image@.len() % 2 == 0 && image@.len() <= 2 * MEM_SIZE && history@.len() == 0 ==> r
                is Ok,
            r is Err && r->Err_0 is Disconnected ==> image@.len() % 2 == 0 && image@.len() <= 2
                * MEM_SIZE && history@.len() > 0,
            r is Ok ==> {
                &&& r->Ok_0.wf()
                &&& !r->Ok_0.finished()
                &&& r->Ok_0.transcript() == texts(history@)
                &&& r->Ok_0.host().sent() == joined(r->Ok_0.transcript())
                &&& r->Ok_0.host().taken() == Seq::<char>::empty()
                &&& r->Ok_0.engine().taken() == Seq::<char>::empty()
                &&& r->Ok_0.engine().sent() == Seq::<char>::empty()
                &&& r->Ok_0.engine()@ == (Machine {
                    stack: Seq::empty(),
                    memory: loaded(words_of(image@)),
                    registers: seq![0u16, 0u16, 0u16, 0u16, 0u16, 0u16, 0u16, 0u16],
                    ip: 0,
                    preset: Some(SESSION_PRESET),
                    count: 0,
                    bypass: Bypass::ReturnWithResult,
                })
            },
    {
        let mut rv = Self::new(image)?;
        let ghost fresh = rv.env;
        assert(rv.transcript().len() == 0);
        assert(joined(Seq::<Seq<char>>::empty()) =~= Seq::<char>::empty());
        let ghost lines = texts(history@);
        let mut i: usize = 0;
        while i < history.len()
            invariant
                i <= history@.len(),
                lines == texts(history@),
                rv.wf(),
                !rv.ended,
                rv.history@.len() == 0,
                rv.env == fresh,
                image@.len() % 2 == 0,
                image@.len() <= 2 * MEM_SIZE,
                rv.env_screen.sent() == joined(lines.take(i as int)),
                rv.env_screen.taken() == Seq::<char>::empty(),
            decreases history@.len() - i,
        {
            rv.env_screen.send(history[i].clone())?;
            proof {
                assert(lines.take(i + 1).drop_last() =~= lines.take(i as int));
                assert(lines.take(i + 1).last() == history@[i as int]@);
            }
            i = i + 1;
        }
        assert(lines.take(history@.len() as int) =~= lines);
        rv.history = history;
        assert(rv.transcript() =~= lines);
        Ok(rv)
    }

    /// Runs the engine until it waits for input or halts, and returns what
    /// the host's end then holds: what was pending there and what its looks
    /// into the queue brought. A session that is finished only hands out
    /// what is still queued.
    pub fn bootstrap(&mut self) -> (r: Result<String, VmError>)
        requires
            old(self).wf(),
        ensures
            final(self).wf(),
            final(self).transcript() == old(self).transcript(),
            final(self).host().sent() == old(self).host().sent(),
            old(self).finished() ==> final(self).finished() && final(self).engine() == old(self).engine(),
            match r {
                Ok(text) => {
                    &&& final(self).host().taken() == old(self).host().taken() + text@
                    &&& final(self).host().pending().len() == 0
                    &&& sweep(final(self).host().seen_since(&old(self).host()))
                    &&& text@ == old(self).host().pending() + gathered(
                        final(self).host().seen_since(&old(self).host()),
                    )
                    &&& !old(self).finished() ==> if final(self).finished() {
                        old(self).engine().ends(&final(self).engine(), Status::Halted)
                    } else {
                        &&& old(self).engine().ends(&final(self).engine(), Status::Starved)
                        &&& old(self).engine().looked_in_vain(&final(self).engine())
                    }
                },
                Err(VmError::Disconnected) => {
                    &&& final(self).finished()
                    &&& final(self).host().taken() == old(self).host().taken()
                    &&& {
                        ||| !old(self).finished() && old(self).engine().stalled(
                            &final(self).engine(),
                        ) && final(self).host() == old(self).host()
                        ||| final(self).host().seen_since(&old(self).host()).last()
                            is Disconnected && (old(self).finished() || old(self).engine().ends(
                            &final(self).engine(),
                            Status::Starved,
                        ) || old(self).engine().ends(&final(self).engine(), Status::Halted))
                    }
                },
                Err(e) => final(self).finished() && !old(self).finished() && old(self).engine().ends(&final(self).engine(), Status::Failed(e)) && final(self).host()
                    == old(self).host(),
            },
    {
        if !self.ended {
            match self.env.run_until_empty() {
                Ok(halted) => {
                    self.ended = halted;
                },
                Err(e) => {
                    self.ended = true;
                    return Err(e);
                },
            }
        }
        match self.env_screen.get_all() {
            Ok(text) => Ok(text),
            Err(e) => {
                self.ended = true;
                Err(e)
            },
        }
    }

    /// Enters a line: appends it to the transcript, sends it to the engine,
    /// runs the engine until it waits for input or halts, and returns what
    /// the engine wrote, or `None` where the engine halted.
    ///
    /// The text returned is what was pending at the host's end and what its
    /// looks into the queue brought, after the engine had looked into its
    /// own queue and found nothing more to read.
    ///
    /// A finished session returns `None` and does nothing. An error
    /// finishes the session. `Disconnected` means that the line could not
    /// be sent, or that the engine stalled, or that the engine's answer
    /// could not be fetched.
    pub fn execute(&mut self, command: String) -> (r: Result<Option<String>, VmError>)
        requires
            old(self).wf(),
        ensures
            final(self).wf(),
            old(self).finished() ==> r == Ok::<Option<String>, VmError>(None) && final(self).finished() && final(self).transcript() == old(self).transcript() && final(self).engine() == old(self).engine() && final(self).host() == old(self).host(),
            !old(self).finished() ==> {
                &&& final(self).transcript() == old(self).transcript().push(command@)
                &&& match r {
                    Ok(Some(text)) => {
                        &&& !final(self).finished()
                        &&& old(self).engine().ends(&final(self).engine(), Status::Starved)
                        &&& old(self).engine().looked_in_vain(&final(self).engine())
                        &&& final(self).host().sent() == old(self).host().sent() + command@
                        &&& final(self).host().taken() == old(self).host().taken() + text@
                        &&& final(self).host().pending().len() == 0
                        &&& sweep(final(self).host().seen_since(&old(self).host()))
                        &&& text@ == old(self).host().pending() + gathered(
                            final(self).host().seen_since(&old(self).host()),
                        )
                    },
                    Ok(None) => {
                        &&& final(self).finished()
                        &&& old(self).engine().ends(&final(self).engine(), Status::Halted)
                        &&& final(self).host().sent() == old(self).host().sent() + command@
                        &&& final(self).host().taken() == old(self).host().taken()
                    },
                    Err(VmError::Disconnected) => {
                        &&& final(self).finished()
                        &&& final(self).host().taken() == old(self).host().taken()
                        &&& {
                            ||| {
                                &&& final(self).host().sent() == old(self).host().sent()
                                &&& final(self).host().unsent() == old(self).host().unsent().push(
                                    command@,
                                )
                                &&& final(self).engine() == old(self).engine()
                            }
                            ||| {
                                &&& final(self).host().sent() == old(self).host().sent()
                                    + command@
                                &&& final(self).host().unsent() == old(self).host().unsent()
                                &&& old(self).engine().stalled(&final(self).engine())
                            }
                            ||| {
                                &&& final(self).host().sent() == old(self).host().sent()
                                    + command@
                                &&& final(self).host().unsent() == old(self).host().unsent()
                                &&& old(self).engine().ends(
                                    &final(self).engine(),
                                    Status::Starved,
                                )
                                &&& final(self).host().seen_since(&old(self).host()).last()
                                    is Disconnected
                            }
                        }
                    },
                    Err(e) => {
                        &&& final(self).finished()
                        &&& old(self).engine().ends(&final(self).engine(), Status::Failed(e))
                        &&& final(self).host().sent() == old(self).host().sent() + command@
                        &&& final(self).host().taken() == old(self).host().taken()
                    },
                }
            },
    {
        if self.ended {
            return Ok(None);
        }
        self.history.push(command.clone());
        assert(self.transcript() =~= old(self).transcript().push(command@));
        match self.env_screen.send(command) {
            Ok(()) => {},
            Err(e) => {
                self.ended = true;
                return Err(e);
            },
        }
        match self.env.run_until_empty() {
            Ok(true) => {
                self.ended = true;
                Ok(None)
            },
            Ok(false) => {
                match self.env_screen.get_all() {
                    Ok(text) => Ok(Some(text)),
                    Err(e) => {
                        self.ended = true;
                        Err(e)
                    },
                }
            },
            Err(e) => {
                self.ended = true;
                Err(e)
            },
        }
    }
}

/// A snapshot brings back the engine it was taken from: an engine built
/// from the snapshot of a well-formed engine is in the same state, and from
/// there makes the same run on the same input, with the same output.
pub proof fn lemma_snapshot_round_trip(
    env: ExecutionEnv,
    snapshot: EnvSnapshot,
    restored: ExecutionEnv,
    input: Seq<char>,
    n: nat,
)
    requires
        env.wf(),
        snapshot@ == env@,
        restored@ == snapshot@,
    ensures
        snapshot@.wf(),
        restored@ == env@,
        restored@.run(input, n) == env@.run(input, n),
        restored@.run(input, n).output == env@.run(input, n).output,
{
}

/// Two engines that start in the same state and read the same characters
/// until each is over, halted, starved or failed, end alike: in the same
/// way, in the same state, with the same registers and operation counter,
/// and having written the same characters.
pub proof fn lemma_same_run(
    a: ExecutionEnv,
    a_end: ExecutionEnv,
    how_a: Status,
    b: ExecutionEnv,
    b_end: ExecutionEnv,
    how_b: Status,
)
    requires
        a@ == b@,
        a.ends(&a_end, how_a),
        b.ends(&b_end, how_b),
        how_a != Status::Running,
        how_b != Status::Running,
        a_end.taken().skip(a.taken().len() as int) == b_end.taken().skip(b.taken().len() as int),
    ensures
        how_a == how_b,
        a_end@ == b_end@,
        a_end@.registers == b_end@.registers,
        a_end@.count == b_end@.count,
        a_end.sent().skip(a.sent().len() as int) == b_end.sent().skip(b.sent().len() as int),
{
    let input = a_end.taken().skip(a.taken().len() as int);
    let n = choose|n: nat| a.ran(&a_end, n, how_a);
    let k = choose|k: nat| b.ran(&b_end, k, how_b);
    if n <= k {
        lemma_run_stays(a@, input, n, k);
    } else {
        lemma_run_stays(a@, input, k, n);
    }
}

} // verus!
