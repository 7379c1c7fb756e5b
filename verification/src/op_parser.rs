use vstd::prelude::*;
use vstd::std_specs::convert::TryFromSpecImpl;
use vstd::std_specs::convert::FromSpecImpl;
use crate::error::VmError;

verus! {

/// Largest number: operand words up to here are literals.
pub const NUM_MAX: u16 = 32767;

/// Operand word that names register 0; the next seven name registers 1 to 7.
pub const REG_BASE: u16 = 32768;

/// Number of registers.
pub const REG_COUNT: u16 = 8;

/// Number of memory cells, and the modulus of all arithmetic.
pub const MEM_SIZE: usize = 32768;

/// `ux::u15::try_from` on a `u16`, with the result handed back as a `u16`:
/// the conversion succeeds exactly on the words up to 32767 and keeps the
/// value.
#[verifier::external_body]
fn number_of_word(word: u16) -> (r: Option<u16>)
    ensures
        r == (if word <= NUM_MAX { Some(word) } else { None::<u16> }),
{
    match ux::u15::try_from(word) {
        Ok(n) => Some(u16::from(n)),
        Err(_) => None,
    }
}

/// `ux::u3::try_from` on a `u16`, with the result handed back as a `u8`:
/// the conversion succeeds exactly on the values below 8 and keeps the value.
#[verifier::external_body]
fn index_of_offset(offset: u16) -> (r: Option<u8>)
    ensures
        r == (if offset < REG_COUNT { Some(offset as u8) } else { None::<u8> }),
{
    match ux::u3::try_from(offset) {
        Ok(i) => Some(u8::from(i)),
        Err(_) => None,
    }
}

/// Conversion to an index into memory or the register file.
pub trait IntoUsize {
    /// The index that the value stands for.
    spec fn as_index(&self) -> usize;

    /// The value as an index.
    fn to_usize(&self) -> (r: usize)
        ensures
            r == self.as_index(),
    ;
}

/// Overwrites the front of a buffer.
pub trait FillSlice<T> {
    /// The buffer's cells, in order.
    spec fn cells(&self) -> Seq<T>;

    /// Copies `x` over the first `x.len()` cells and leaves the others.
    fn copy_first(&mut self, x: &[T])
        requires
            x@.len() <= old(self).cells().len(),
        ensures
            final(self).cells() == x@ + old(self).cells().skip(x@.len() as int),
    ;
}

impl FillSlice<u16> for [u16] {
    open spec fn cells(&self) -> Seq<u16> {
        self@
    }

    fn copy_first(&mut self, x: &[u16]) {
        let n: usize = x.len();
        let mut i: usize = 0;
        while i < n
            invariant
                i <= n,
                n == x@.len(),
                self@.len() == old(self)@.len(),
                n <= self@.len(),
                forall|k: int| 0 <= k < i ==> self@[k] == x@[k],
                forall|k: int| i <= k < self@.len() ==> self@[k] == old(self)@[k],
            decreases n - i,
        {
            self[i] = x[i];
            i = i + 1;
        }
        assert(self@ =~= x@ + old(self)@.skip(x@.len() as int));
    }
}

/// A register selector.
#[derive(Debug, Clone, Copy, PartialEq, Eq, Structural)]
pub struct Reg(pub u8);

impl Reg {
    /// The selector names one of the eight registers.
    pub open spec fn wf(self) -> bool {
        self.0 < REG_COUNT
    }

    /// The register that an operand word names, if it names one.
    pub open spec fn of_word(word: u16) -> Result<Reg, VmError> {
        if REG_BASE <= word && word < REG_BASE + REG_COUNT {
            Ok(Reg((word - REG_BASE) as u8))
        } else {
            Err(VmError::BadOperand(word))
        }
    }
}

impl IntoUsize for Reg {
    open spec fn as_index(&self) -> usize {
        self.0 as usize
    }

    fn to_usize(&self) -> (r: usize) {
        self.0 as usize
    }
}

impl TryFrom<u16> for Reg {
    type Error = VmError;

    fn try_from(value: u16) -> (r: Result<Self, VmError>) {
        if value <= NUM_MAX {
            Err(VmError::BadOperand(value))
        } else {
            match index_of_offset(value - REG_BASE) {
                Some(i) => Ok(Reg(i)),
                None => Err(VmError::BadOperand(value)),
            }
        }
    }
}

impl TryFromSpecImpl<u16> for Reg {
    open spec fn obeys_try_from_spec() -> bool {
        true
    }

    open spec fn try_from_spec(value: u16) -> Result<Self, VmError> {
        Reg::of_word(value)
    }
}

/// A source operand: a literal number or the content of a register.
#[derive(Debug, Clone, Copy, PartialEq, Eq, Structural)]
pub enum Val {
    Reg(Reg),
    Num(u16),
}

impl Val {
    /// A literal is at most 32767 and a register selector is below 8.
    pub open spec fn wf(self) -> bool {
        match self {
            Val::Reg(r) => r.wf(),
            Val::Num(n) => n <= NUM_MAX,
        }
    }

    /// The operand that a word denotes: a literal up to 32767, a register
    /// from 32768 to 32775, nothing above.
    pub open spec fn of_word(word: u16) -> Result<Val, VmError> {
        if word <= NUM_MAX {
            Ok(Val::Num(word))
        } else {
            match Reg::of_word(word) {
                Ok(r) => Ok(Val::Reg(r)),
                Err(e) => Err(e),
            }
        }
    }
}

impl TryFrom<u16> for Val {
    type Error = VmError;

    fn try_from(value: u16) -> (r: Result<Self, VmError>) {
        match number_of_word(value) {
            Some(n) => Ok(Val::Num(n)),
            None => match Reg::try_from(value) {
                Ok(r) => Ok(Val::Reg(r)),
                Err(e) => Err(e),
            },
        }
    }
}

impl TryFromSpecImpl<u16> for Val {
    open spec fn obeys_try_from_spec() -> bool {
        true
    }

    open spec fn try_from_spec(value: u16) -> Result<Self, VmError> {
        Val::of_word(value)
    }
}

impl From<u8> for Val {
    fn from(value: u8) -> (r: Self) {
        Val::Num(value as u16)
    }
}

impl FromSpecImpl<u8> for Val {
    open spec fn obeys_from_spec() -> bool {
        true
    }

    open spec fn from_spec(value: u8) -> Self {
        Val::Num(value as u16)
    }
}

/// A write target: a memory cell or a register.
#[derive(Debug, Clone, Copy, PartialEq, Eq, Structural)]
pub enum Addr {
    Reg(Reg),
    Mem(u16),
}

impl Addr {
    /// A memory address is at most 32767 and a register selector is below 8.
    pub open spec fn wf(self) -> bool {
        match self {
            Addr::Reg(r) => r.wf(),
            Addr::Mem(m) => m <= NUM_MAX,
        }
    }

    /// The same operand read as a source.
    pub open spec fn as_val(self) -> Val {
        match self {
            Addr::Reg(r) => Val::Reg(r),
            Addr::Mem(m) => Val::Num(m),
        }
    }

    /// The target that a word denotes: a memory cell up to 32767, a register
    /// from 32768 to 32775, nothing above.
    pub open spec fn of_word(word: u16) -> Result<Addr, VmError> {
        match Val::of_word(word) {
            Ok(v) => Ok(Addr::of_val(v)),
            Err(e) => Err(e),
        }
    }

    /// The same operand read as a target.
    pub open spec fn of_val(v: Val) -> Addr {
        match v {
            Val::Reg(r) => Addr::Reg(r),
            Val::Num(n) => Addr::Mem(n),
        }
    }
}

impl TryFrom<u16> for Addr {
    type Error = VmError;

    fn try_from(value: u16) -> (r: Result<Self, VmError>) {
        match Val::try_from(value) {
            Ok(Val::Num(n)) => Ok(Addr::Mem(n)),
            Ok(Val::Reg(r)) => Ok(Addr::Reg(r)),
            Err(e) => Err(e),
        }
    }
}

impl TryFromSpecImpl<u16> for Addr {
    open spec fn obeys_try_from_spec() -> bool {
        true
    }

    open spec fn try_from_spec(value: u16) -> Result<Self, VmError> {
        Addr::of_word(value)
    }
}

impl From<u8> for Addr {
    fn from(value: u8) -> (r: Self) {
        Addr::Mem(value as u16)
    }
}

impl FromSpecImpl<u8> for Addr {
    open spec fn obeys_from_spec() -> bool {
        true
    }

    open spec fn from_spec(value: u8) -> Self {
        Addr::Mem(value as u16)
    }
}

impl From<Val> for Addr {
    fn from(value: Val) -> (r: Self) {
        match value {
            Val::Num(x) => Addr::Mem(x),
            Val::Reg(v) => Addr::Reg(v),
        }
    }
}

impl FromSpecImpl<Val> for Addr {
    open spec fn obeys_from_spec() -> bool {
        true
    }

    open spec fn from_spec(value: Val) -> Self {
        Addr::of_val(value)
    }
}

impl From<Addr> for Val {
    fn from(value: Addr) -> (r: Self) {
        match value {
            Addr::Mem(x) => Val::Num(x),
            Addr::Reg(v) => Val::Reg(v),
        }
    }
}

impl FromSpecImpl<Addr> for Val {
    open spec fn obeys_from_spec() -> bool {
        true
    }

    open spec fn from_spec(value: Addr) -> Self {
        value.as_val()
    }
}

/// One decoded instruction.
#[derive(Debug, Clone, Copy, PartialEq, Eq, Structural)]
pub enum Op {
    /// 0: stop execution.
    Halt,
    /// 1: set register `a` to the value of `b`.
    SetReg(Reg, Val),
    /// 2: push `a` onto the stack.
    Push(Val),
    /// 3: remove the top of the stack and write it into `a`.
    Pop(Addr),
    /// 4: set `a` to 1 if `b` equals `c`, to 0 otherwise.
    Eq(Addr, Val, Val),
    /// 5: set `a` to 1 if `b` is greater than `c`, to 0 otherwise.
    Gt(Addr, Val, Val),
    /// 6: jump to `a`.
    Jmp(Val),
    /// 7: if `a` is nonzero, jump to `b`.
    Jt(Val, Val),
    /// 8: if `a` is zero, jump to `b`.
    Jf(Val, Val),
    /// 9: store into `a` the sum of `b` and `c`, modulo 32768.
    Add(Addr, Val, Val),
    /// 10: store into `a` the product of `b` and `c`, modulo 32768.
    Mult(Addr, Val, Val),
    /// 11: store into `a` the remainder of `b` divided by `c`.
    Mod(Addr, Val, Val),
    /// 12: store into `a` the bitwise and of `b` and `c`.
    And(Addr, Val, Val),
    /// 13: store into `a` the bitwise or of `b` and `c`.
    Or(Addr, Val, Val),
    /// 14: store into `a` the fifteen-bit complement of `b`.
    Not(Addr, Val),
    /// 15: read the memory cell at address `b` and write it into `a`.
    Rmem(Addr, Val),
    /// 16: write the value of `b` into the memory cell at address `a`.
    Wmem(Val, Val),
    /// 17: push the address of the next instruction and jump to `a`.
    Call(Val),
    /// 18: remove the top of the stack and jump to it; empty stack: halt.
    Ret,
    /// 19: write the character with code `a` to the channel.
    Out(Val),
    /// 20: read a character from the channel and write its code into `a`.
    In(Addr),
    /// 21: no operation.
    Noop,
}

/// Largest opcode.
pub const OPCODE_MAX: u16 = 21;

/// Number of operand words that follow an opcode.
pub open spec fn arity(opcode: u16) -> nat {
    if opcode == 0 || opcode == 18 || opcode == 21 {
        0
    } else if opcode == 2 || opcode == 3 || opcode == 6 || opcode == 17 || opcode == 19 || opcode
        == 20 {
        1
    } else if opcode == 1 || opcode == 7 || opcode == 8 || opcode == 14 || opcode == 15 || opcode
        == 16 {
        2
    } else {
        3
    }
}

/// Both results, or the first error.
pub open spec fn both<A, B>(a: Result<A, VmError>, b: Result<B, VmError>) -> Result<
    (A, B),
    VmError,
> {
    match a {
        Err(e) => Err(e),
        Ok(x) => match b {
            Err(e) => Err(e),
            Ok(y) => Ok((x, y)),
        },
    }
}

/// A target and two sources, or the first error from left to right.
pub open spec fn target_and_two(a: u16, b: u16, c: u16) -> Result<(Addr, (Val, Val)), VmError> {
    both(Addr::of_word(a), both(Val::of_word(b), Val::of_word(c)))
}

/// The instruction that a run of words starts with. The first word is the
/// opcode, the words after it are its operands, as many as the opcode has;
/// operand errors are reported from left to right.
pub open spec fn decode(words: Seq<u16>) -> Result<Op, VmError> {
    if words.len() == 0 {
        Err(VmError::TruncatedInstruction)
    } else if words[0] > OPCODE_MAX {
        Err(VmError::UnknownOpcode(words[0]))
    } else if words.len() < 1 + arity(words[0]) {
        Err(VmError::TruncatedInstruction)
    } else {
        decode_full(words[0], words[1], words[2], words[3])
    }
}

/// The instruction with opcode `code`, which is at most 21, and operand
/// words `a`, `b`, `c`, of which the opcode's arity says how many count.
pub open spec fn decode_full(code: u16, a: u16, b: u16, c: u16) -> Result<Op, VmError> {
    if code == 0 {
        Ok(Op::Halt)
    } else if code == 1 {
        match both(Reg::of_word(a), Val::of_word(b)) {
            Ok((r, v)) => Ok(Op::SetReg(r, v)),
            Err(e) => Err(e),
        }
    } else if code == 2 {
        match Val::of_word(a) {
            Ok(v) => Ok(Op::Push(v)),
            Err(e) => Err(e),
        }
    } else if code == 3 {
        match Addr::of_word(a) {
            Ok(d) => Ok(Op::Pop(d)),
            Err(e) => Err(e),
        }
    } else if code == 4 {
        match target_and_two(a, b, c) {
            Ok((d, (x, y))) => Ok(Op::Eq(d, x, y)),
            Err(e) => Err(e),
        }
    } else if code == 5 {
        match target_and_two(a, b, c) {
            Ok((d, (x, y))) => Ok(Op::Gt(d, x, y)),
            Err(e) => Err(e),
        }
    } else if code == 6 {
        match Val::of_word(a) {
            Ok(v) => Ok(Op::Jmp(v)),
            Err(e) => Err(e),
        }
    } else if code == 7 {
        match both(Val::of_word(a), Val::of_word(b)) {
            Ok((x, y)) => Ok(Op::Jt(x, y)),
            Err(e) => Err(e),
        }
    } else if code == 8 {
        match both(Val::of_word(a), Val::of_word(b)) {
            Ok((x, y)) => Ok(Op::Jf(x, y)),
            Err(e) => Err(e),
        }
    } else if code == 9 {
        match target_and_two(a, b, c) {
            Ok((d, (x, y))) => Ok(Op::Add(d, x, y)),
            Err(e) => Err(e),
        }
    } else if code == 10 {
        match target_and_two(a, b, c) {
            Ok((d, (x, y))) => Ok(Op::Mult(d, x, y)),
            Err(e) => Err(e),
        }
    } else if code == 11 {
        match target_and_two(a, b, c) {
            Ok((d, (x, y))) => Ok(Op::Mod(d, x, y)),
            Err(e) => Err(e),
        }
    } else if code == 12 {
        match target_and_two(a, b, c) {
            Ok((d, (x, y))) => Ok(Op::And(d, x, y)),
            Err(e) => Err(e),
        }
    } else if code == 13 {
        match target_and_two(a, b, c) {
            Ok((d, (x, y))) => Ok(Op::Or(d, x, y)),
            Err(e) => Err(e),
        }
    } else if code == 14 {
        match both(Addr::of_word(a), Val::of_word(b)) {
            Ok((d, x)) => Ok(Op::Not(d, x)),
            Err(e) => Err(e),
        }
    } else if code == 15 {
        match both(Addr::of_word(a), Val::of_word(b)) {
            Ok((d, x)) => Ok(Op::Rmem(d, x)),
            Err(e) => Err(e),
        }
    } else if code == 16 {
        match both(Val::of_word(a), Val::of_word(b)) {
            Ok((x, y)) => Ok(Op::Wmem(x, y)),
            Err(e) => Err(e),
        }
    } else if code == 17 {
        match Val::of_word(a) {
            Ok(v) => Ok(Op::Call(v)),
            Err(e) => Err(e),
        }
    } else if code == 18 {
        Ok(Op::Ret)
    } else if code == 19 {
        match Val::of_word(a) {
            Ok(v) => Ok(Op::Out(v)),
            Err(e) => Err(e),
        }
    } else if code == 20 {
        match Addr::of_word(a) {
            Ok(d) => Ok(Op::In(d)),
            Err(e) => Err(e),
        }
    } else {
        Ok(Op::Noop)
    }
}

/// The words of a program image: each pair of bytes is one word, low byte
/// first. An odd byte at the end belongs to no word.
pub open spec fn words_of(bytes: Seq<u8>) -> Seq<u16> {
    Seq::new(bytes.len() / 2, |i: int| (bytes[2 * i] + 256 * bytes[2 * i + 1]) as u16)
}

fn target_and_two_sources(a: u16, b: u16, c: u16) -> (r: Result<(Addr, (Val, Val)), VmError>)
    ensures
        r == target_and_two(a, b, c),
{
    let d = Addr::try_from(a)?;
    let x = Val::try_from(b)?;
    let y = Val::try_from(c)?;
    Ok((d, (x, y)))
}

fn two_sources(a: u16, b: u16) -> (r: Result<(Val, Val), VmError>)
    ensures
        r == both(Val::of_word(a), Val::of_word(b)),
{
    let x = Val::try_from(a)?;
    let y = Val::try_from(b)?;
    Ok((x, y))
}

fn target_and_source(a: u16, b: u16) -> (r: Result<(Addr, Val), VmError>)
    ensures
        r == both(Addr::of_word(a), Val::of_word(b)),
{
    let d = Addr::try_from(a)?;
    let x = Val::try_from(b)?;
    Ok((d, x))
}

impl Op {
    /// Every operand is well formed.
    pub open spec fn wf(self) -> bool {
        match self {
            Op::Halt | Op::Ret | Op::Noop => true,
            Op::SetReg(r, v) => r.wf() && v.wf(),
            Op::Push(v) | Op::Jmp(v) | Op::Call(v) | Op::Out(v) => v.wf(),
            Op::Pop(d) | Op::In(d) => d.wf(),
            Op::Eq(d, x, y) | Op::Gt(d, x, y) | Op::Add(d, x, y) | Op::Mult(d, x, y) | Op::Mod(
                d,
                x,
                y,
            ) | Op::And(d, x, y) | Op::Or(d, x, y) => d.wf() && x.wf() && y.wf(),
            Op::Jt(x, y) | Op::Jf(x, y) | Op::Wmem(x, y) => x.wf() && y.wf(),
            Op::Not(d, x) | Op::Rmem(d, x) => d.wf() && x.wf(),
        }
    }

    /// The cell that the instruction stores a value in, if it stores one.
    pub open spec fn target(self) -> Option<Addr> {
        match self {
            Op::SetReg(r, _) => Some(Addr::Reg(r)),
            Op::Pop(d) | Op::In(d) | Op::Not(d, _) | Op::Rmem(d, _) => Some(d),
            Op::Eq(d, _, _) | Op::Gt(d, _, _) | Op::Add(d, _, _) | Op::Mult(d, _, _) | Op::Mod(
                d,
                _,
                _,
            ) | Op::And(d, _, _) | Op::Or(d, _, _) => Some(d),
            _ => None,
        }
    }

    /// Number of words that the instruction occupies: the opcode and its
    /// operands.
    pub open spec fn size(self) -> u8 {
        match self {
            Op::Halt | Op::Ret | Op::Noop => 1,
            Op::Call(_) | Op::Push(_) | Op::Pop(_) | Op::In(_) | Op::Out(_) | Op::Jmp(_) => 2,
            Op::SetReg(_, _) | Op::Jt(_, _) | Op::Jf(_, _) | Op::Rmem(_, _) | Op::Wmem(_, _) | Op::Not(
                _,
                _,
            ) => 3,
            _ => 4,
        }
    }

    /// Number of words that the instruction occupies.
    pub fn param_bytes(&self) -> (r: u8)
        ensures
            r == self.size(),
            1 <= r <= 4,
    {
        match self {
            Op::Halt => 1,
            Op::Ret => 1,
            Op::Noop => 1,
            Op::Call(_) => 2,
            Op::Push(_) => 2,
            Op::Pop(_) => 2,
            Op::In(_) => 2,
            Op::Out(_) => 2,
            Op::Jmp(_) => 2,
            Op::SetReg(_, _) => 3,
            Op::Jt(_, _) => 3,
            Op::Jf(_, _) => 3,
            Op::Rmem(_, _) => 3,
            Op::Wmem(_, _) => 3,
            Op::Not(_, _) => 3,
            Op::Eq(_, _, _) => 4,
            Op::Gt(_, _, _) => 4,
            Op::Add(_, _, _) => 4,
            Op::Mod(_, _, _) => 4,
            Op::Mult(_, _, _) => 4,
            Op::And(_, _, _) => 4,
            Op::Or(_, _, _) => 4,
        }
    }

    /// Reads a program image as little-endian words. An image with an odd
    /// number of bytes is rejected.
    pub fn convert_bytes(val: &[u8]) -> (r: Result<Vec<u16>, VmError>)
        ensures
            val@.len() % 2 == 1 <==> r == Err::<Vec<u16>, VmError>(VmError::OddImageLength),
            val@.len() % 2 == 0 <==> r is Ok,
            r is Ok ==> r->Ok_0@ == words_of(val@),
    {
        let n: usize = val.len() / 2;
        if val.len() % 2 == 1 {
            return Err(VmError::OddImageLength);
        }
        let mut rv: Vec<u16> = Vec::with_capacity(n);
        let mut i: usize = 0;
        while i < n
            invariant
                i <= n,
                n == val@.len() / 2,
                val@.len() == 2 * n,
                2 * n <= usize::MAX,
                rv@.len() == i,
                forall|k: int| 0 <= k < i ==> rv@[k] == words_of(val@)[k],
            decreases n - i,
        {
            let lo: u16 = val[2 * i] as u16;
            let hi: u16 = val[2 * i + 1] as u16;
            rv.push(hi * 256 + lo);
            i = i + 1;
        }
        assert(rv@ =~= words_of(val@));
        Ok(rv)
    }

    /// Decodes the instruction that `val` starts with: `decode` of the words.
    /// An opcode above 21 and an operand word above 32775 are rejected, as is
    /// a literal where `set` wants a register; so is a run of words that ends
    /// before the opcode's last operand.
    pub fn parse(val: &[u16]) -> (r: Result<Self, VmError>)
        ensures
            r == decode(val@),
            r is Ok ==> r->Ok_0.wf(),
    {
        if val.len() == 0 {
            return Err(VmError::TruncatedInstruction);
        }
        let code: u16 = val[0];
        if code > OPCODE_MAX {
            return Err(VmError::UnknownOpcode(code));
        }
        let have: usize = val.len() - 1;
        if code == 0 {
            Ok(Op::Halt)
        } else if code == 18 {
            Ok(Op::Ret)
        } else if code == 21 {
            Ok(Op::Noop)
        } else if code == 2 || code == 3 || code == 6 || code == 17 || code == 19 || code == 20 {
            if have < 1 {
                return Err(VmError::TruncatedInstruction);
            }
            let a: u16 = val[1];
            if code == 2 {
                Ok(Op::Push(Val::try_from(a)?))
            } else if code == 3 {
                Ok(Op::Pop(Addr::try_from(a)?))
            } else if code == 6 {
                Ok(Op::Jmp(Val::try_from(a)?))
            } else if code == 17 {
                Ok(Op::Call(Val::try_from(a)?))
            } else if code == 19 {
                Ok(Op::Out(Val::try_from(a)?))
            } else {
                Ok(Op::In(Addr::try_from(a)?))
            }
        } else if code == 1 || code == 7 || code == 8 || code == 14 || code == 15 || code == 16 {
            if have < 2 {
                return Err(VmError::TruncatedInstruction);
            }
            let a: u16 = val[1];
            let b: u16 = val[2];
            if code == 1 {
                let r = Reg::try_from(a)?;
                let v = Val::try_from(b)?;
                Ok(Op::SetReg(r, v))
            } else if code == 7 {
                let (x, y) = two_sources(a, b)?;
                Ok(Op::Jt(x, y))
            } else if code == 8 {
                let (x, y) = two_sources(a, b)?;
                Ok(Op::Jf(x, y))
            } else if code == 14 {
                let (d, x) = target_and_source(a, b)?;
                Ok(Op::Not(d, x))
            } else if code == 15 {
                let (d, x) = target_and_source(a, b)?;
                Ok(Op::Rmem(d, x))
            } else {
                let (x, y) = two_sources(a, b)?;
                Ok(Op::Wmem(x, y))
            }
        } else {
            if have < 3 {
                return Err(VmError::TruncatedInstruction);
            }
            let (d, (x, y)) = target_and_two_sources(val[1], val[2], val[3])?;
            if code == 4 {
                Ok(Op::Eq(d, x, y))
            } else if code == 5 {
                Ok(Op::Gt(d, x, y))
            } else if code == 9 {
                Ok(Op::Add(d, x, y))
            } else if code == 10 {
                Ok(Op::Mult(d, x, y))
            } else if code == 11 {
                Ok(Op::Mod(d, x, y))
            } else if code == 12 {
                Ok(Op::And(d, x, y))
            } else {
                Ok(Op::Or(d, x, y))
            }
        }
    }
}

/// A decoded instruction has well-formed operands, and occupies its opcode's
/// arity and one word more.
pub proof fn lemma_decode_wf(words: Seq<u16>)
    ensures
        decode(words) is Ok ==> decode(words)->Ok_0.wf() && decode(words)->Ok_0.size() == 1
            + arity(words[0]) && decode(words)->Ok_0.size() <= words.len(),
{
}

/// Decoding fails in three ways only.
pub proof fn lemma_decode_errors(words: Seq<u16>)
    ensures
        decode(words) is Err ==> decode(words)->Err_0 is UnknownOpcode || decode(words)->Err_0
            is BadOperand || decode(words)->Err_0 is TruncatedInstruction,
{
}

} // verus!
