use vstd::prelude::*;
use crate::arith::{add_mod, and15, code_of, glyph_of, mul_mod, not15, number, or15, rem};
use crate::error::VmError;
use crate::op_parser::{decode, lemma_decode_errors, lemma_decode_wf, Addr, Op, Reg, Val, MEM_SIZE, NUM_MAX, REG_COUNT};

verus! {

/// Address at which the program's integrity check begins.
pub const CHECK_ENTRY: u16 = 6027;

/// What the integrity check leaves in register 0.
pub const CHECK_R0: u16 = 6;

/// What the integrity check leaves in register 1.
pub const CHECK_R1: u16 = 4;

/// Value of the operation counter at which the preset goes into register 7.
pub const PRESET_AT: u64 = 701400;

/// What the engine does when the instruction pointer reaches the integrity
/// check. This is no part of the instruction set.
#[derive(Debug, Clone, Copy, PartialEq, Eq, Structural)]
pub enum Bypass {
    /// The check runs as the program has it.
    Disabled,
    /// The check is replaced by `ret`.
    ReturnOnly,
    /// The check is replaced by `ret`, and registers 0 and 1 get the values
    /// that the check would have left.
    ReturnWithResult,
}

/// What one executed instruction tells its driver.
#[derive(Debug, Clone, Copy)]
pub struct Effect {
    /// The engine has stopped cleanly, on `halt` or on `ret` with an empty
    /// stack.
    pub halted: bool,
    /// The character that the instruction wrote.
    pub output: Option<char>,
}

impl Effect {
    /// The engine goes on and nothing was written.
    pub open spec fn quiet() -> Effect {
        Effect { halted: false, output: None }
    }

    /// The engine has stopped.
    pub open spec fn stop() -> Effect {
        Effect { halted: true, output: None }
    }

    /// What the instruction wrote, as a sequence of at most one character.
    pub open spec fn text(self) -> Seq<char> {
        match self.output {
            Some(c) => seq![c],
            None => Seq::empty(),
        }
    }
}

/// The state of an engine, as mathematics.
pub struct Machine {
    /// The stack, top last.
    pub stack: Seq<u16>,
    /// The 32768 memory cells.
    pub memory: Seq<u16>,
    /// The eight registers.
    pub registers: Seq<u16>,
    /// Address of the next instruction.
    pub ip: u16,
    /// Value that goes into register 7 when the counter reaches `PRESET_AT`.
    pub preset: Option<u16>,
    /// Number of instructions executed.
    pub count: u64,
    /// Treatment of the integrity check.
    pub bypass: Bypass,
}

/// A machine and what became of the instruction that led to it.
pub type Outcome = (Machine, Result<Effect, VmError>);

impl Machine {
    /// Memory and registers have their sizes and the instruction pointer is
    /// an address.
    pub open spec fn wf(self) -> bool {
        &&& self.memory.len() == MEM_SIZE
        &&& self.registers.len() == REG_COUNT
        &&& self.ip <= NUM_MAX
    }

    /// The number that an operand stands for. A literal stands for itself, a
    /// register for its content without the sixteenth bit.
    pub open spec fn resolve(self, v: Val) -> u16 {
        match v {
            Val::Num(n) => n,
            Val::Reg(r) => number(self.registers[r.0 as int]),
        }
    }

    /// The machine after `w` is stored in `d`, as it is.
    pub open spec fn write(self, d: Addr, w: u16) -> Machine {
        match d {
            Addr::Mem(m) => Machine { memory: self.memory.update(m as int, w), ..self },
            Addr::Reg(r) => Machine { registers: self.registers.update(r.0 as int, w), ..self },
        }
    }

    /// The instruction pointer stands at the integrity check and the check
    /// is bypassed.
    pub open spec fn at_check(self) -> bool {
        self.bypass != Bypass::Disabled && self.ip == CHECK_ENTRY
    }

    /// The machine at the moment an instruction begins: the counter is one
    /// higher, and registers 0, 1 and 7 hold what the bypass and the preset
    /// ask for.
    pub open spec fn prepare(self) -> Machine
        recommends
            self.count < u64::MAX,
    {
        let count = (self.count + 1) as u64;
        let checked = if self.bypass == Bypass::ReturnWithResult && self.ip == CHECK_ENTRY {
            self.registers.update(0, CHECK_R0).update(1, CHECK_R1)
        } else {
            self.registers
        };
        let registers = if count == PRESET_AT && self.preset is Some {
            checked.update(7, self.preset->Some_0)
        } else {
            checked
        };
        Machine { count, registers, ..self }
    }

    /// The words from the instruction pointer on, four of them or as many
    /// as memory still has.
    pub open spec fn window(self) -> Seq<u16> {
        self.memory.subrange(
            self.ip as int,
            if self.ip + 4 <= MEM_SIZE {
                self.ip + 4
            } else {
                MEM_SIZE as int
            },
        )
    }

    /// The instruction that runs in place of `op`: `ret` at a bypassed
    /// integrity check, `op` everywhere else.
    pub open spec fn effective(self, op: Op) -> Op {
        if self.at_check() {
            Op::Ret
        } else {
            op
        }
    }

    /// The instruction that the next step executes.
    pub open spec fn fetch(self) -> Result<Op, VmError> {
        if self.at_check() {
            Ok(Op::Ret)
        } else {
            decode(self.window())
        }
    }

    /// The outcome of an instruction that does not jump: the machine `next`
    /// with the instruction pointer behind `op`, or an error where that is
    /// no address.
    pub open spec fn proceed(self, next: Machine, op: Op, output: Option<char>) -> Outcome {
        if self.ip + op.size() > NUM_MAX {
            (self, Err(VmError::AddressOutOfRange))
        } else {
            (
                Machine { ip: (self.ip + op.size()) as u16, ..next },
                Ok(Effect { halted: false, output }),
            )
        }
    }

    /// The instruction set: what `op` does to a machine whose counter has
    /// been advanced. `input` is the character that the channel gave, for
    /// `in`. After an error the machine is as before.
    pub open spec fn execute(self, op: Op, input: Option<char>) -> Outcome {
        match op {
            Op::Halt => (self, Ok(Effect::stop())),
            Op::SetReg(r, v) => self.proceed(self.write(Addr::Reg(r), self.resolve(v)), op, None),
            Op::Push(v) => self.proceed(
                Machine { stack: self.stack.push(self.resolve(v)), ..self },
                op,
                None,
            ),
            Op::Pop(d) => if self.stack.len() == 0 {
                (self, Err(VmError::StackUnderflow))
            } else {
                self.proceed(
                    Machine { stack: self.stack.drop_last(), ..self }.write(d, self.stack.last()),
                    op,
                    None,
                )
            },
            Op::Eq(d, a, b) => self.proceed(
                self.write(
                    d,
                    if self.resolve(a) == self.resolve(b) {
                        1
                    } else {
                        0
                    },
                ),
                op,
                None,
            ),
            Op::Gt(d, a, b) => self.proceed(
                self.write(
                    d,
                    if self.resolve(a) > self.resolve(b) {
                        1
                    } else {
                        0
                    },
                ),
                op,
                None,
            ),
            Op::Jmp(t) => (Machine { ip: self.resolve(t), ..self }, Ok(Effect::quiet())),
            Op::Jt(c, t) => if self.resolve(c) != 0 {
                (Machine { ip: self.resolve(t), ..self }, Ok(Effect::quiet()))
            } else {
                self.proceed(self, op, None)
            },
            Op::Jf(c, t) => if self.resolve(c) == 0 {
                (Machine { ip: self.resolve(t), ..self }, Ok(Effect::quiet()))
            } else {
                self.proceed(self, op, None)
            },
            Op::Add(d, a, b) => self.proceed(
                self.write(d, add_mod(self.resolve(a), self.resolve(b))),
                op,
                None,
            ),
            Op::Mult(d, a, b) => self.proceed(
                self.write(d, mul_mod(self.resolve(a), self.resolve(b))),
                op,
                None,
            ),
            Op::Mod(d, a, b) => if self.resolve(b) == 0 {
                (self, Err(VmError::DivisionByZero))
            } else {
                self.proceed(self.write(d, rem(self.resolve(a), self.resolve(b))), op, None)
            },
            Op::And(d, a, b) => self.proceed(
                self.write(d, and15(self.resolve(a), self.resolve(b))),
                op,
                None,
            ),
            Op::Or(d, a, b) => self.proceed(
                self.write(d, or15(self.resolve(a), self.resolve(b))),
                op,
                None,
            ),
            Op::Not(d, a) => self.proceed(self.write(d, not15(self.resolve(a))), op, None),
            Op::Rmem(d, a) => self.proceed(
                self.write(d, self.memory[self.resolve(a) as int]),
                op,
                None,
            ),
            Op::Wmem(a, v) => self.proceed(
                self.write(Addr::Mem(self.resolve(a)), self.resolve(v)),
                op,
                None,
            ),
            Op::Call(t) => if self.ip + op.size() > NUM_MAX {
                (self, Err(VmError::AddressOutOfRange))
            } else {
                (
                    Machine {
                        stack: self.stack.push((self.ip + op.size()) as u16),
                        ip: self.resolve(t),
                        ..self
                    },
                    Ok(Effect::quiet()),
                )
            },
            Op::Ret => if self.stack.len() == 0 {
                (self, Ok(Effect::stop()))
            } else if self.stack.last() > NUM_MAX {
                (self, Err(VmError::AddressOutOfRange))
            } else {
                (
                    Machine { stack: self.stack.drop_last(), ip: self.stack.last(), ..self },
                    Ok(Effect::quiet()),
                )
            },
            Op::Out(v) => self.proceed(self, op, Some(glyph_of(self.resolve(v)))),
            Op::In(d) => match input {
                None => (self, Err(VmError::Disconnected)),
                Some(c) => self.proceed(self.write(d, code_of(c)), op, None),
            },
            Op::Noop => self.proceed(self, op, None),
        }
    }

    /// One step on a given instruction: the counter advances, the bypass
    /// and the preset act, and the instruction, or `ret` in its place at a
    /// bypassed check, is executed. A counter that cannot advance stops the
    /// machine as it is.
    pub open spec fn apply(self, op: Op, input: Option<char>) -> Outcome {
        if self.count == u64::MAX {
            (self, Err(VmError::CounterExhausted))
        } else {
            self.prepare().execute(self.effective(op), input)
        }
    }

    /// One step: as `apply`, on the instruction at the instruction pointer.
    /// Where that does not decode, the counter has advanced all the same.
    pub open spec fn step(self, input: Option<char>) -> Outcome {
        if self.count == u64::MAX {
            (self, Err(VmError::CounterExhausted))
        } else {
            match self.fetch() {
                Ok(op) => self.prepare().execute(op, input),
                Err(e) => (self.prepare(), Err(e)),
            }
        }
    }

    /// The next step reads a character.
    pub open spec fn wants_input(self) -> bool {
        self.fetch() is Ok && self.fetch()->Ok_0 is In
    }

    /// The next step stores nothing in register 7.
    pub open spec fn spares_preset(self) -> bool {
        self.fetch() is Ok ==> self.fetch()->Ok_0.target() != Some(Addr::Reg(Reg(7)))
    }

    /// The next step, made without a character to read, writes one.
    pub open spec fn writes(self) -> bool {
        self.step(None).1 is Ok && self.step(None).1->Ok_0.output is Some
    }

    /// The next step is a `call` whose target is the integrity check.
    pub open spec fn calls_check(self) -> bool {
        &&& self.fetch() is Ok
        &&& self.fetch()->Ok_0 is Call
        &&& self.resolve(self.fetch()->Ok_0->Call_0) == CHECK_ENTRY
    }
}

/// A well-formed machine stays well formed through every instruction with
/// well-formed operands; the counter, the preset and the bypass stay.
pub proof fn lemma_execute_wf(m: Machine, op: Op, input: Option<char>)
    requires
        m.wf(),
        op.wf(),
    ensures
        m.execute(op, input).0.wf(),
        m.execute(op, input).0.count == m.count,
        m.execute(op, input).0.bypass == m.bypass,
        m.execute(op, input).0.preset == m.preset,
{
    match op {
        Op::Halt => {},
        Op::SetReg(r, v) => {},
        Op::Push(v) => {},
        Op::Pop(d) => {},
        Op::Eq(d, a, b) => {},
        Op::Gt(d, a, b) => {},
        Op::Jmp(t) => {},
        Op::Jt(c, t) => {},
        Op::Jf(c, t) => {},
        Op::Add(d, a, b) => {},
        Op::Mult(d, a, b) => {},
        Op::Mod(d, a, b) => {},
        Op::And(d, a, b) => {},
        Op::Or(d, a, b) => {},
        Op::Not(d, a) => {},
        Op::Rmem(d, a) => {},
        Op::Wmem(a, v) => {},
        Op::Call(t) => {},
        Op::Ret => {},
        Op::Out(v) => {},
        Op::In(d) => {},
        Op::Noop => {},
    }
}

/// The moment an instruction begins keeps a machine well formed and
/// advances its counter by one.
pub proof fn lemma_prepare_wf(m: Machine)
    requires
        m.wf(),
    ensures
        m.prepare().wf(),
        m.prepare().ip == m.ip,
        m.prepare().memory == m.memory,
        m.prepare().stack == m.stack,
        m.prepare().bypass == m.bypass,
        m.prepare().preset == m.preset,
        m.count < u64::MAX ==> m.prepare().count == m.count + 1,
        m.prepare().fetch() == m.fetch(),
{
}

/// A step on a given instruction leaves a well-formed machine well formed.
/// The operation counter never decreases: a step that counts raises it by
/// one, and only a counter at its limit stays.
pub proof fn lemma_apply_wf(m: Machine, op: Op, input: Option<char>)
    requires
        m.wf(),
        op.wf(),
    ensures
        m.apply(op, input).0.wf(),
        m.apply(op, input).0.count >= m.count,
        m.count < u64::MAX ==> m.apply(op, input).0.count == m.count + 1,
        m.count == u64::MAX ==> m.apply(op, input) == (m, Err::<Effect, VmError>(VmError::CounterExhausted)),
        m.apply(op, input).0.bypass == m.bypass,
        m.apply(op, input).0.preset == m.preset,
{
    if m.count < u64::MAX {
        lemma_prepare_wf(m);
        lemma_execute_wf(m.prepare(), m.effective(op), input);
    }
}

/// A step leaves a well-formed machine well formed and never lowers its
/// operation counter. Where the next instruction decodes, the step is that
/// instruction applied.
pub proof fn lemma_step_wf(m: Machine, input: Option<char>)
    requires
        m.wf(),
    ensures
        m.step(input).0.wf(),
        m.step(input).0.count >= m.count,
        m.count < u64::MAX ==> m.step(input).0.count == m.count + 1,
        m.step(input).0.bypass == m.bypass,
        m.step(input).0.preset == m.preset,
        m.fetch() is Ok ==> m.fetch()->Ok_0.wf(),
        m.fetch() is Ok ==> m.step(input) == m.apply(m.fetch()->Ok_0, input),
        m.fetch() is Err ==> m.step(input).1 is Err && !(m.step(input).1->Err_0 is Disconnected),
{
    lemma_decode_wf(m.window());
    lemma_decode_errors(m.window());
    lemma_prepare_wf(m);
    if m.fetch() is Ok {
        lemma_apply_wf(m, m.fetch()->Ok_0, input);
    }
}

/// Where a run stands.
#[derive(Debug, Clone, Copy, PartialEq, Eq, Structural)]
pub enum Status {
    /// The engine can go on.
    Running,
    /// The next instruction is `in` and no character is left.
    Starved,
    /// The engine has stopped cleanly.
    Halted,
    /// An instruction failed.
    Failed(VmError),
}

/// A machine some steps into a run, with what the run has read and written
/// so far.
pub struct Run {
    /// The machine's state.
    pub machine: Machine,
    /// Number of characters read.
    pub used: nat,
    /// Every character written, in order.
    pub output: Seq<char>,
    /// Whether and why the run is over.
    pub status: Status,
}

impl Run {
    /// One more step of a run over the characters `input`. A run that is over
    /// stays as it is. `in` takes the first character not yet read; where
    /// none is left the run is starved, and the machine has not moved.
    pub open spec fn advance(self, input: Seq<char>) -> Run {
        if self.status != Status::Running {
            self
        } else if self.machine.wants_input() && self.used >= input.len() {
            Run { status: Status::Starved, ..self }
        } else {
            let reads = self.machine.wants_input();
            let heard = if reads {
                Some(input[self.used as int])
            } else {
                None
            };
            let used = if reads {
                self.used + 1
            } else {
                self.used
            };
            let (machine, result) = self.machine.step(heard);
            match result {
                Err(e) => Run { machine, used, output: self.output, status: Status::Failed(e) },
                Ok(effect) => Run {
                    machine,
                    used,
                    output: self.output + effect.text(),
                    status: if effect.halted {
                        Status::Halted
                    } else {
                        Status::Running
                    },
                },
            }
        }
    }
}

impl Machine {
    /// The run of at most `n` steps that starts here and reads from `input`.
    pub open spec fn run(self, input: Seq<char>, n: nat) -> Run
        decreases n,
    {
        if n == 0 {
            Run { machine: self, used: 0, output: Seq::empty(), status: Status::Running }
        } else {
            self.run(input, (n - 1) as nat).advance(input)
        }
    }

    /// Some number of steps over `input` leads from here to `end`.
    pub open spec fn reaches(self, input: Seq<char>, end: Run) -> bool {
        exists|n: nat| self.run(input, n) == end
    }
}

/// A run of a well-formed machine stays well formed, never reads more than
/// it was given, and never lowers the operation counter.
pub proof fn lemma_run_wf(m: Machine, input: Seq<char>, n: nat)
    requires
        m.wf(),
    ensures
        m.run(input, n).machine.wf(),
        m.run(input, n).used <= input.len(),
        m.run(input, n).machine.count >= m.count,
        m.run(input, n).machine.bypass == m.bypass,
        m.run(input, n).machine.preset == m.preset,
    decreases n,
{
    if n > 0 {
        let before = m.run(input, (n - 1) as nat);
        lemma_run_wf(m, input, (n - 1) as nat);
        if before.status == Status::Running {
            let heard = if before.machine.wants_input() && before.used < input.len() {
                Some(input[before.used as int])
            } else {
                None
            };
            lemma_step_wf(before.machine, heard);
        }
    }
}

/// `in` reads exactly one character each time it is executed, and no other
/// instruction reads any. A run is starved only once it has read every
/// character that it was given, so `k` characters serve the first `k`
/// executions of `in`.
pub proof fn lemma_input_discipline(run: Run, input: Seq<char>)
    requires
        run.status == Status::Running,
        run.used <= input.len(),
    ensures
        run.machine.wants_input() && run.used < input.len() ==> run.advance(input).used
            == run.used + 1 && run.advance(input).status != Status::Starved,
        !run.machine.wants_input() ==> run.advance(input).used == run.used && run.advance(
            input,
        ).status != Status::Starved,
        run.advance(input).status == Status::Starved <==> run.machine.wants_input() && run.used
            == input.len(),
        run.advance(input).status == Status::Starved ==> run.advance(input).machine
            == run.machine,
{
}

/// Characters that a run has not read do not matter to it: two inputs that
/// agree on what was read give the same run, unless it starved.
pub proof fn lemma_run_prefix(m: Machine, input: Seq<char>, other: Seq<char>, n: nat)
    requires
        m.run(input, n).status != Status::Starved,
        m.run(input, n).used <= input.len(),
        m.run(input, n).used <= other.len(),
        forall|i: int| 0 <= i < m.run(input, n).used ==> input[i] == other[i],
    ensures
        m.run(other, n) == m.run(input, n),
    decreases n,
{
    if n > 0 {
        let before = m.run(input, (n - 1) as nat);
        assert(before.status != Status::Starved);
        assert(before.used <= m.run(input, n).used);
        lemma_run_prefix(m, input, other, (n - 1) as nat);
    }
}

/// A run that is over stays as it is, however many steps are asked for.
pub proof fn lemma_run_stays(m: Machine, input: Seq<char>, n: nat, later: nat)
    requires
        m.run(input, n).status != Status::Running,
        n <= later,
    ensures
        m.run(input, later) == m.run(input, n),
    decreases later - n,
{
    if later > n {
        lemma_run_stays(m, input, n, (later - 1) as nat);
    }
}

/// While a run can still go on after `n` steps, it could go on after each
/// earlier step, and up to there it is the same on every longer input.
pub proof fn lemma_run_earlier(m: Machine, input: Seq<char>, other: Seq<char>, n: nat, k: nat)
    requires
        m.wf(),
        m.run(input, n).status == Status::Running,
        k <= n,
        input.is_prefix_of(other),
    ensures
        m.run(input, k).status == Status::Running,
        m.run(other, k) == m.run(input, k),
{
    if m.run(input, k).status != Status::Running {
        lemma_run_stays(m, input, k, n);
    }
    lemma_run_wf(m, input, k);
    lemma_run_prefix(m, input, other, k);
}

/// Where none of the first `n` states of a run was about to call the
/// integrity check, nor the state that they led to, the same holds of the
/// first `n + 1` states of the run on every longer input.
pub proof fn lemma_clear_next(start: Machine, input: Seq<char>, fed: Seq<char>, n: nat)
    requires
        start.wf(),
        start.run(input, n).status == Status::Running,
        input.is_prefix_of(fed),
        forall|k: nat| k < n ==> !(#[trigger] start.run(input, k)).machine.calls_check(),
        !start.run(input, n).machine.calls_check(),
    ensures
        forall|k: nat| k < n + 1 ==> !(#[trigger] start.run(fed, k)).machine.calls_check(),
{
    assert forall|k: nat| k < n + 1 implies !(#[trigger] start.run(fed, k)).machine.calls_check() by {
        lemma_run_earlier(start, input, fed, n, k);
    }
}

/// Determinism: machines in the same state that read the same characters
/// make the same run: the same output, the same registers, the same
/// operation counter.
pub proof fn lemma_determinism(a: Machine, b: Machine, input: Seq<char>, n: nat)
    requires
        a == b,
    ensures
        a.run(input, n) == b.run(input, n),
        a.run(input, n).output == b.run(input, n).output,
        a.run(input, n).machine.registers == b.run(input, n).machine.registers,
        a.run(input, n).machine.count == b.run(input, n).machine.count,
{
}

/// `call` followed at once by `ret` leaves the instruction pointer behind
/// the `call` and the stack as it was. The `call` must be the instruction
/// that runs, which it is not at a bypassed integrity check.
///
/// The `call` succeeds exactly where the counter can count it and the
/// address behind it is one; the `ret` then succeeds exactly where the
/// counter can count it too.
pub proof fn lemma_call_ret(m: Machine, target: Val, input: Option<char>)
    requires
        m.wf(),
        target.wf(),
        !m.at_check(),
    ensures
        ({
            let called = m.apply(Op::Call(target), input);
            let back = called.0.apply(Op::Ret, input);
            &&& called.1 is Ok <==> m.count < u64::MAX && m.ip + 2 <= NUM_MAX
            &&& called.1 is Ok ==> {
                &&& called.1 == Ok::<Effect, VmError>(Effect::quiet())
                &&& called.0.stack == m.stack.push((m.ip + 2) as u16)
                &&& called.0.ip == m.prepare().resolve(target)
                &&& back.1 is Ok <==> m.count + 2 <= u64::MAX
            }
            &&& called.1 is Ok && back.1 is Ok ==> {
                &&& back.1 == Ok::<Effect, VmError>(Effect::quiet())
                &&& back.0.ip == m.ip + 2
                &&& back.0.stack == m.stack
            }
        }),
{
    let called = m.apply(Op::Call(target), input).0;
    if m.count < u64::MAX && m.ip + 2 <= NUM_MAX {
        assert(called.stack == m.stack.push((m.ip + 2) as u16));
        assert(called.stack.drop_last() =~= m.stack);
    }
}

/// The program that reads a character into register 0 and starts over
/// stands at the start of memory, and the machine at the program's start.
pub open spec fn at_reader(m: Machine) -> bool {
    &&& m.wf()
    &&& m.ip == 0
    &&& m.memory[0] == 20
    &&& m.memory[1] == 32768
    &&& m.memory[2] == 6
    &&& m.memory[3] == 0
}

/// One round of the reading program: `in` takes the character `c`, `jmp`
/// goes back to the start.
pub proof fn lemma_reader_round(m: Machine, c: char)
    requires
        at_reader(m),
        m.count + 2 <= u64::MAX,
    ensures
        m.wants_input(),
        m.step(Some(c)).1 == Ok::<Effect, VmError>(Effect::quiet()),
        !m.step(Some(c)).0.wants_input(),
        m.step(Some(c)).0.step(None).1 == Ok::<Effect, VmError>(Effect::quiet()),
        at_reader(m.step(Some(c)).0.step(None).0),
        m.step(Some(c)).0.step(None).0.count == m.count + 2,
        m.step(Some(c)).0.step(None).0.registers[0] == code_of(c),
{
    assert(m.window() =~= seq![20u16, 32768u16, 6u16, 0u16]);
    assert(m.fetch() == Ok::<Op, VmError>(Op::In(Addr::Reg(Reg(0)))));
    let read = m.step(Some(c)).0;
    assert(read.ip == 2);
    assert(read.memory == m.memory);
    assert(read.window().len() >= 2);
    assert(read.window()[0] == 6 && read.window()[1] == 0);
    assert(read.fetch() == Ok::<Op, VmError>(Op::Jmp(Val::Num(0))));
}

/// Input discipline on the reading program: of `k` characters, `in` takes
/// one in each round, in order; after `j` rounds, which are `2 * j` steps,
/// `j` characters are read, nothing is written, and the machine is back at
/// the program's start. After all `k` the next step finds the run starved.
pub proof fn lemma_reader_reads(m: Machine, input: Seq<char>, j: nat)
    requires
        at_reader(m),
        j <= input.len(),
        m.count + 2 * j <= u64::MAX,
    ensures
        ({
            let run = m.run(input, 2 * j);
            &&& run.status == Status::Running
            &&& run.used == j
            &&& run.output == Seq::<char>::empty()
            &&& at_reader(run.machine)
            &&& run.machine.count == m.count + 2 * j
            &&& j > 0 ==> run.machine.registers[0] == code_of(input[j - 1])
            &&& j == input.len() ==> {
                let last = m.run(input, 2 * j + 1);
                &&& last.status == Status::Starved
                &&& last.machine == run.machine
                &&& last.used == input.len()
            }
        }),
    decreases j,
{
    if j > 0 {
        lemma_reader_reads(m, input, (j - 1) as nat);
        let before = m.run(input, (2 * (j - 1)) as nat);
        let c = input[j - 1];
        lemma_reader_round(before.machine, c);
        let middle = m.run(input, (2 * (j - 1) + 1) as nat);
        assert(middle == before.advance(input));
        assert(middle.machine == before.machine.step(Some(c)).0);
        assert(middle.output =~= Seq::<char>::empty());
        let after = m.run(input, 2 * j);
        assert(after == middle.advance(input));
        assert(after.output =~= Seq::<char>::empty());
    }
    let run = m.run(input, 2 * j);
    if j == input.len() {
        assert(run.machine.window() =~= seq![20u16, 32768u16, 6u16, 0u16]);
        assert(run.machine.fetch() == Ok::<Op, VmError>(Op::In(Addr::Reg(Reg(0)))));
        assert(m.run(input, 2 * j + 1) == run.advance(input));
    }
}

/// The step after a run that has read all of `input` and can go on: the
/// character `heard`, if the step reads one, counts as read, and the step's
/// outcome is the run's new end.
pub proof fn lemma_run_next(start: Machine, input: Seq<char>, n: nat, heard: Option<char>)
    requires
        start.run(input, n).status == Status::Running,
        start.run(input, n).used == input.len(),
        start.run(input, n).machine.wants_input() <==> heard is Some,
    ensures
        ({
            let now = start.run(input, n);
            let fed = match heard {
                Some(c) => input.push(c),
                None => input,
            };
            let (machine, result) = now.machine.step(heard);
            start.run(fed, n + 1) == match result {
                Err(e) => Run { machine, used: fed.len(), output: now.output, status: Status::Failed(e) },
                Ok(effect) => Run {
                    machine,
                    used: fed.len(),
                    output: now.output + effect.text(),
                    status: if effect.halted {
                        Status::Halted
                    } else {
                        Status::Running
                    },
                },
            }
        }),
{
    let fed = match heard {
        Some(c) => input.push(c),
        None => input,
    };
    lemma_run_prefix(start, input, fed, n);
    assert(start.run(fed, n + 1) == start.run(fed, n).advance(fed));
}

/// An instruction that stores nothing in register 7 leaves it as it is.
pub proof fn lemma_execute_spares(m: Machine, op: Op, input: Option<char>)
    requires
        m.wf(),
        op.wf(),
        op.target() != Some(Addr::Reg(Reg(7))),
    ensures
        m.execute(op, input).0.registers[7] == m.registers[7],
{
    match op {
        Op::Halt => {},
        Op::SetReg(r, v) => {},
        Op::Push(v) => {},
        Op::Pop(d) => {},
        Op::Eq(d, a, b) => {},
        Op::Gt(d, a, b) => {},
        Op::Jmp(t) => {},
        Op::Jt(c, t) => {},
        Op::Jf(c, t) => {},
        Op::Add(d, a, b) => {},
        Op::Mult(d, a, b) => {},
        Op::Mod(d, a, b) => {},
        Op::And(d, a, b) => {},
        Op::Or(d, a, b) => {},
        Op::Not(d, a) => {},
        Op::Rmem(d, a) => {},
        Op::Wmem(a, v) => {},
        Op::Call(t) => {},
        Op::Ret => {},
        Op::Out(v) => {},
        Op::In(d) => {},
        Op::Noop => {},
    }
}

/// The preset is in register 7 after the step that brings the operation
/// counter to `PRESET_AT`, whatever the program had stored there, and after
/// every later step, as long as the step itself stores nothing there.
pub proof fn lemma_preset_step(m: Machine, v: u16, input: Option<char>)
    requires
        m.wf(),
        m.preset == Some(v),
        m.count < u64::MAX,
        m.count + 1 >= PRESET_AT,
        m.count + 1 > PRESET_AT ==> m.registers[7] == v,
        m.spares_preset(),
    ensures
        m.prepare().registers[7] == v,
        m.step(input).0.registers[7] == v,
        m.step(input).0.count >= PRESET_AT,
{
    lemma_decode_wf(m.window());
    lemma_prepare_wf(m);
    if m.fetch() is Ok {
        lemma_execute_spares(m.prepare(), m.fetch()->Ok_0, input);
    }
}

/// With a preset `v`, register 7 holds `v` at every point of a run at which
/// the operation counter has reached `PRESET_AT`, provided that no step
/// from that moment on stores anything in register 7.
pub proof fn lemma_preset_holds(m: Machine, v: u16, input: Seq<char>, n: nat)
    requires
        m.wf(),
        m.preset == Some(v),
        m.count >= PRESET_AT ==> m.registers[7] == v,
        forall|k: nat|
            k < n && (#[trigger] m.run(input, k)).machine.count + 1 >= PRESET_AT ==> m.run(
                input,
                k,
            ).machine.spares_preset(),
    ensures
        m.run(input, n).machine.count >= PRESET_AT ==> m.run(input, n).machine.registers[7] == v,
    decreases n,
{
    if n > 0 {
        let before = m.run(input, (n - 1) as nat);
        lemma_preset_holds(m, v, input, (n - 1) as nat);
        lemma_run_wf(m, input, (n - 1) as nat);
        if before.status == Status::Running && !(before.machine.wants_input() && before.used
            >= input.len()) {
            let heard = if before.machine.wants_input() {
                Some(input[before.used as int])
            } else {
                None
            };
            if before.machine.count < u64::MAX && before.machine.count + 1 >= PRESET_AT {
                lemma_preset_step(before.machine, v, heard);
            } else {
                lemma_step_wf(before.machine, heard);
            }
        }
    }
}

} // verus!
