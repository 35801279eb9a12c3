//! The machine: eight registers, the array heap, and the execution cursor,
//! driven one instruction at a time. `spec_step` is the machine's
//! transition function — what one fetch-decode-dispatch step does to the
//! state and what it asks of the outside world — and `act` is proved to
//! implement it exactly. `spec_run` iterates it over a finite input with a
//! step bound, and `run` is proved to implement that.

use vstd::prelude::*;
use crate::errors::VmError;
use crate::instruction::Instruction;
use crate::instruction::RawInstruction;
use crate::instruction::lemma_field_bounds;
use crate::instruction::spec_decode;
use crate::instruction::spec_immediate;
use crate::instruction::spec_opcode;
use crate::instruction::spec_sel_a;
use crate::instruction::spec_sel_b;
use crate::instruction::spec_sel_c;
use crate::instruction::spec_sel_sa;
use crate::memory::MemModel;
use crate::memory::Memory;
use crate::memory::MemoryAddress;
use crate::memory::initial_mem;
use crate::op::Op;
use crate::register::Index;
use crate::register::Register;
use crate::register::Registers;
use crate::register::wrap_add;
use crate::register::wrap_mul;

verus! {

/// What one step asks of the surrounding process.
#[derive(Clone, Copy, PartialEq, Eq, Structural, Debug)]
pub enum Effect {
    /// The step is complete; nothing is asked.
    Continue,
    /// The program requested a clean stop.
    Halted,
    /// Emit this byte on the output stream.
    Output(u8),
    /// Read one byte (or end of input) and hand it to `provide_input`
    /// together with this register selector.
    AwaitInput(u8),
}

/// How a bounded run ended.
#[derive(Clone, Copy, PartialEq, Eq, Structural, Debug)]
pub enum RunOutcome {
    /// The program executed a halt.
    Halted,
    /// A fatal condition stopped the machine.
    Faulted(VmError),
    /// The step bound ran out first.
    OutOfFuel,
}

/// The machine as mathematics: the heap, the cursor, and the eight
/// register values.
#[verifier::ext_equal]
pub struct VmState {
    pub mem: MemModel,
    pub ip: nat,
    pub regs: Seq<u32>,
}

impl VmState {
    pub open spec fn wf(self) -> bool {
        &&& self.mem.wf()
        &&& self.regs.len() == 8
    }
}

/// The state a machine starts in: the empty program array, cursor 0, all
/// registers 0.
pub open spec fn initial_state() -> VmState {
    VmState { mem: initial_mem(), ip: 0, regs: Seq::new(8, |_i: int| 0u32) }
}

/// What one step yields: the state after it, and the result handed back —
/// an effect on success, the fatal condition otherwise. On a fatal
/// condition the state is the state at the fault, untouched.
#[verifier::ext_equal]
pub struct StepRes {
    pub state: VmState,
    pub res: Result<Effect, VmError>,
}

/// The word the cursor names.
pub open spec fn current_word(s: VmState) -> u32 {
    s.mem.words(0)[s.ip as int]
}

/// The effect of operation `op`, decoded from the fetched word `w`, on
/// state `s`. Checks come in the order the machine makes them: for an
/// array access, liveness before bounds.
pub open spec fn spec_dispatch(s: VmState, op: Op, w: u32) -> StepRes {
    let a = spec_sel_a(w) as int;
    let b = spec_sel_b(w) as int;
    let c = spec_sel_c(w) as int;
    let ra = s.regs[a];
    let rb = s.regs[b];
    let rc = s.regs[c];
    let ip1 = (s.ip + 1) as nat;
    match op {
        Op::Move => StepRes {
            state: VmState {
                regs: if rc != 0 {
                    s.regs.update(a, rb)
                } else {
                    s.regs
                },
                ip: ip1,
                mem: s.mem,
            },
            res: Ok(Effect::Continue),
        },
        Op::Index => if !s.mem.live(rb) {
            StepRes { state: s, res: Err(VmError::BadArrayId(rb)) }
        } else if !(rc < s.mem.words(rb).len()) {
            StepRes { state: s, res: Err(VmError::OutOfBounds(rb, rc as u64)) }
        } else {
            StepRes {
                state: VmState {
                    regs: s.regs.update(a, s.mem.words(rb)[rc as int]),
                    ip: ip1,
                    mem: s.mem,
                },
                res: Ok(Effect::Continue),
            }
        },
        Op::Amend => if !s.mem.live(ra) {
            StepRes { state: s, res: Err(VmError::BadArrayId(ra)) }
        } else if !(rb < s.mem.words(ra).len()) {
            StepRes { state: s, res: Err(VmError::OutOfBounds(ra, rb as u64)) }
        } else {
            StepRes {
                state: VmState {
                    mem: s.mem.after_write(ra, rb as int, rc),
                    ip: ip1,
                    regs: s.regs,
                },
                res: Ok(Effect::Continue),
            }
        },
        Op::Add => StepRes {
            state: VmState { regs: s.regs.update(a, wrap_add(rb, rc)), ip: ip1, mem: s.mem },
            res: Ok(Effect::Continue),
        },
        Op::Mult => StepRes {
            state: VmState { regs: s.regs.update(a, wrap_mul(rb, rc)), ip: ip1, mem: s.mem },
            res: Ok(Effect::Continue),
        },
        Op::Div => if rc == 0 {
            StepRes { state: s, res: Err(VmError::DivideByZero) }
        } else {
            StepRes {
                state: VmState {
                    regs: s.regs.update(a, (rb as int / rc as int) as u32),
                    ip: ip1,
                    mem: s.mem,
                },
                res: Ok(Effect::Continue),
            }
        },
        Op::NotAnd => StepRes {
            state: VmState { regs: s.regs.update(a, !(rb & rc)), ip: ip1, mem: s.mem },
            res: Ok(Effect::Continue),
        },
        Op::Halt => StepRes {
            state: VmState { ip: ip1, mem: s.mem, regs: s.regs },
            res: Ok(Effect::Halted),
        },
        Op::Alloc => if !s.mem.can_allocate() {
            StepRes { state: s, res: Err(VmError::HeapExhausted) }
        } else {
            StepRes {
                state: VmState {
                    mem: s.mem.after_alloc(rc as nat).0,
                    regs: s.regs.update(b, s.mem.after_alloc(rc as nat).1),
                    ip: ip1,
                },
                res: Ok(Effect::Continue),
            }
        },
        Op::Aband => if rc == 0 {
            StepRes { state: s, res: Err(VmError::AbandonReserved) }
        } else if !s.mem.live(rc) {
            StepRes { state: s, res: Err(VmError::BadArrayId(rc)) }
        } else {
            StepRes {
                state: VmState { mem: s.mem.after_free(rc), ip: ip1, regs: s.regs },
                res: Ok(Effect::Continue),
            }
        },
        Op::Output => if rc > 255 {
            StepRes { state: s, res: Err(VmError::OutputOverflow(rc)) }
        } else {
            StepRes {
                state: VmState { ip: ip1, mem: s.mem, regs: s.regs },
                res: Ok(Effect::Output(rc as u8)),
            }
        },
        Op::Input => StepRes {
            state: VmState { ip: ip1, mem: s.mem, regs: s.regs },
            res: Ok(Effect::AwaitInput(spec_sel_c(w) as u8)),
        },
        Op::Load => if rb == 0 {
            StepRes {
                state: VmState { ip: rc as nat, mem: s.mem, regs: s.regs },
                res: Ok(Effect::Continue),
            }
        } else if !s.mem.live(rb) {
            StepRes { state: s, res: Err(VmError::BadArrayId(rb)) }
        } else {
            StepRes {
                state: VmState {
                    mem: s.mem.after_install(s.mem.words(rb)),
                    ip: rc as nat,
                    regs: s.regs,
                },
                res: Ok(Effect::Continue),
            }
        },
        Op::Orth => StepRes {
            state: VmState {
                regs: s.regs.update(spec_sel_sa(w) as int, spec_immediate(w)),
                ip: ip1,
                mem: s.mem,
            },
            res: Ok(Effect::Continue),
        },
    }
}

/// One fetch-decode-dispatch step. A cursor at or past the end of array 0
/// is fatal before anything else; an undefined opcode is fatal at
/// dispatch; otherwise the operation's own rule applies.
pub open spec fn spec_step(s: VmState) -> StepRes {
    if !(s.ip < s.mem.words(0).len()) {
        StepRes { state: s, res: Err(VmError::OutOfBounds(0u32, s.ip as u64)) }
    } else {
        let w = current_word(s);
        match Op::spec_from_code(spec_opcode(w) as u8) {
            Some(op) => spec_dispatch(s, op, w),
            None => StepRes { state: s, res: Err(VmError::IllegalOpcode(spec_opcode(w) as u8)) },
        }
    }
}

/// The value the input operation stores: the byte, or all ones at end of
/// input.
pub open spec fn input_word(byte: Option<u8>) -> u32 {
    match byte {
        Some(b) => b as u32,
        None => 0xFFFF_FFFFu32,
    }
}

/// What a bounded run yields: the final state, the bytes emitted in order,
/// and how it ended.
#[verifier::ext_equal]
pub struct RunRes {
    pub state: VmState,
    pub out: Seq<u8>,
    pub outcome: RunOutcome,
}

/// Runs `spec_step` up to `fuel` times from `s`, feeding input operations
/// from the front of `input` (end of input once it is exhausted) and
/// collecting output bytes, until a halt, a fatal condition, or the bound.
pub open spec fn spec_run(s: VmState, input: Seq<u8>, fuel: nat) -> RunRes
    decreases fuel,
{
    if fuel == 0 {
        RunRes { state: s, out: Seq::empty(), outcome: RunOutcome::OutOfFuel }
    } else {
        let st = spec_step(s);
        match st.res {
            Ok(Effect::Continue) => spec_run(st.state, input, (fuel - 1) as nat),
            Ok(Effect::Halted) => RunRes {
                state: st.state,
                out: Seq::empty(),
                outcome: RunOutcome::Halted,
            },
            Ok(Effect::Output(b)) => {
                let r = spec_run(st.state, input, (fuel - 1) as nat);
                RunRes { state: r.state, out: seq![b] + r.out, outcome: r.outcome }
            },
            Ok(Effect::AwaitInput(t)) => {
                let byte: Option<u8> = if input.len() > 0 {
                    Some(input[0])
                } else {
                    None
                };
                let rest = if input.len() > 0 {
                    input.skip(1)
                } else {
                    input
                };
                let s2 = VmState {
                    regs: st.state.regs.update(t as int, input_word(byte)),
                    ip: st.state.ip,
                    mem: st.state.mem,
                };
                spec_run(s2, rest, (fuel - 1) as nat)
            },
            Err(e) => RunRes { state: st.state, out: Seq::empty(), outcome: RunOutcome::Faulted(e) },
        }
    }
}

/// Every step preserves the machine's invariant: identifier 0 stays live,
/// live identifiers stay the distinct slot indices of the heap, abandoned
/// identifiers stay exactly the free list, and there stay eight registers.
pub proof fn lemma_step_preserves_wf(s: VmState)
    requires
        s.wf(),
    ensures
        spec_step(s).state.wf(),
{
    if s.ip < s.mem.words(0).len() {
        let w = current_word(s);
        lemma_field_bounds(w);
        let rb = s.regs[spec_sel_b(w) as int];
        let rc = s.regs[spec_sel_c(w) as int];
        let ra = s.regs[spec_sel_a(w) as int];
        match Op::spec_from_code(spec_opcode(w) as u8) {
            Some(op) => match op {
                Op::Amend => {
                    if s.mem.live(ra) && rb < s.mem.words(ra).len() {
                        crate::memory::lemma_write_properties(s.mem, ra, rb as int, rc);
                    }
                },
                Op::Alloc => {
                    if s.mem.can_allocate() {
                        crate::memory::lemma_alloc_properties(s.mem, rc as nat);
                    }
                },
                Op::Aband => {
                    if rc != 0 && s.mem.live(rc) {
                        crate::memory::lemma_free_properties(s.mem, rc);
                    }
                },
                Op::Load => {
                    if rb != 0 && s.mem.live(rb) {
                        crate::memory::lemma_install_properties(s.mem, s.mem.words(rb));
                    }
                },
                _ => {},
            },
            None => {},
        }
    }
}

/// A word is fetched only while the cursor is below array 0's length: with
/// the cursor at or past the end, the step is fatal and moves nothing.
pub proof fn lemma_fetch_needs_cursor_in_bounds(s: VmState)
    requires
        !(s.ip < s.mem.words(0).len()),
    ensures
        spec_step(s).res == Err::<Effect, VmError>(VmError::OutOfBounds(0u32, s.ip as u64)),
        spec_step(s).state == s,
{
}

/// An add or multiply step stores exactly the wrap-around result: register
/// A receives (B + C) mod 2^32, or (B * C) mod 2^32.
pub proof fn lemma_arithmetic_wraps_around(s: VmState)
    requires
        s.wf(),
        s.ip < s.mem.words(0).len(),
    ensures
        ({
            let w = current_word(s);
            let stored = spec_step(s).state.regs[spec_sel_a(w) as int];
            &&& spec_opcode(w) == 3 ==> stored == wrap_add(
                s.regs[spec_sel_b(w) as int],
                s.regs[spec_sel_c(w) as int],
            )
            &&& spec_opcode(w) == 4 ==> stored == wrap_mul(
                s.regs[spec_sel_b(w) as int],
                s.regs[spec_sel_c(w) as int],
            )
        }),
{
    let w = current_word(s);
    lemma_field_bounds(w);
}

/// The machine: the heap (array 0 is the program array), the execution
/// cursor into array 0, and the eight registers.
pub struct Machine {
    pub mem: Memory,
    pub ip: usize,
    pub r: Registers,
}

impl View for Machine {
    type V = VmState;

    open spec fn view(&self) -> VmState {
        VmState { mem: self.mem@, ip: self.ip as nat, regs: self.r@ }
    }
}

impl Machine {
    pub open spec fn wf(&self) -> bool {
        self@.wf()
    }

    /// A machine with an empty program, cursor 0 and zeroed registers.
    pub fn new() -> (m: Machine)
        ensures
            m.wf(),
            m@ == initial_state(),
    {
        let m = Machine { mem: Memory::new(), ip: 0, r: Registers::new() };
        proof {
            assert(m@ =~= initial_state());
        }
        m
    }

    /// Replaces the contents of array 0 with `program`; the cursor and the
    /// registers keep their values.
    pub fn load(&mut self, program: Vec<u32>)
        requires
            old(self).wf(),
        ensures
            final(self).wf(),
            final(self)@ == (VmState {
                mem: old(self)@.mem.after_install(program@),
                ip: old(self)@.ip,
                regs: old(self)@.regs,
            }),
    {
        self.mem.install_program(program);
    }

    /// The instruction the cursor names, decoded; the cursor does not move.
    pub fn peek(&self) -> (r: Instruction)
        requires
            self.wf(),
            self@.ip < self@.mem.words(0).len(),
            spec_decode(current_word(self@)) is Some,
        ensures
            Some(r) == spec_decode(current_word(self@)),
            r.wf(),
    {
        let w = self.mem.read_word(0, self.ip);
        RawInstruction::new(w).decode().unwrap()
    }

    /// The instruction the cursor names, decoded; the cursor advances past
    /// it.
    pub fn next(&mut self) -> (r: Instruction)
        requires
            old(self).wf(),
            old(self)@.ip < old(self)@.mem.words(0).len(),
            spec_decode(current_word(old(self)@)) is Some,
        ensures
            final(self).wf(),
            Some(r) == spec_decode(current_word(old(self)@)),
            r.wf(),
            final(self)@ == (VmState {
                ip: old(self)@.ip + 1,
                mem: old(self)@.mem,
                regs: old(self)@.regs,
            }),
    {
        let r = self.peek();
        // the cursor is below array 0's length, which fits a usize, so
        // advancing it cannot overflow
        let len0 = self.mem.array_len(0);
        assert(self.ip < len0);
        self.ip = self.ip + 1;
        r
    }

    /// Performs one step: fetch, advance, decode, dispatch — exactly
    /// `spec_step`. On `Ok` the state has moved; on `Err` it is the state
    /// at the fault, untouched, with the cursor still naming the faulting
    /// instruction.
    pub fn act(&mut self) -> (res: Result<Effect, VmError>)
        requires
            old(self).wf(),
        ensures
            final(self).wf(),
            final(self)@ == spec_step(old(self)@).state,
            res == spec_step(old(self)@).res,
    {
        let len0 = self.mem.array_len(0);
        if !(self.ip < len0) {
            return Err(VmError::OutOfBounds(0, self.ip as u64));
        }
        let w = self.mem.read_word(0, self.ip);
        proof {
            lemma_field_bounds(w);
        }
        let i: Instruction = match RawInstruction::new(w).decode() {
            Some(i) => i,
            None => {
                return Err(VmError::IllegalOpcode((w >> 28) as u8));
            },
        };
        let next_ip = self.ip + 1;
        let ra = self.r.read(i.a);
        let rb = self.r.read(i.b);
        let rc = self.r.read(i.c);
        let ghost target = spec_step(old(self)@);
        match i.op {
            Op::Move => {
                if rc.value() != 0 {
                    self.r.write(i.a, rb);
                }
                self.ip = next_ip;
                proof {
                    assert(self@ =~= target.state);
                }
                Ok(Effect::Continue)
            },
            Op::Index => {
                let src = rb.value();
                if !self.mem.is_live(src) {
                    return Err(VmError::BadArrayId(src));
                }
                let alen = self.mem.array_len(src);
                let off = rc.value();
                if !((off as usize) < alen) {
                    return Err(VmError::OutOfBounds(src, off as u64));
                }
                let v = self.mem.read_word(src, off as usize);
                self.r.write(i.a, Register(v));
                self.ip = next_ip;
                proof {
                    assert(self@ =~= target.state);
                }
                Ok(Effect::Continue)
            },
            Op::Amend => {
                let dst = ra.value();
                if !self.mem.is_live(dst) {
                    return Err(VmError::BadArrayId(dst));
                }
                let alen = self.mem.array_len(dst);
                let off = rb.value();
                if !((off as usize) < alen) {
                    return Err(VmError::OutOfBounds(dst, off as u64));
                }
                self.mem.write_word(dst, off as usize, rc.value());
                self.ip = next_ip;
                proof {
                    assert(self@ =~= target.state);
                }
                Ok(Effect::Continue)
            },
            Op::Add => {
                self.r.write(i.a, rb.add(rc));
                self.ip = next_ip;
                proof {
                    assert(self@ =~= target.state);
                }
                Ok(Effect::Continue)
            },
            Op::Mult => {
                self.r.write(i.a, rb.mul(rc));
                self.ip = next_ip;
                proof {
                    assert(self@ =~= target.state);
                }
                Ok(Effect::Continue)
            },
            Op::Div => {
                if rc.value() == 0 {
                    return Err(VmError::DivideByZero);
                }
                self.r.write(i.a, rb.div(rc));
                self.ip = next_ip;
                proof {
                    assert(self@ =~= target.state);
                }
                Ok(Effect::Continue)
            },
            Op::NotAnd => {
                self.r.write(i.a, rb.bitand(rc).not());
                self.ip = next_ip;
                proof {
                    assert(self@ =~= target.state);
                }
                Ok(Effect::Continue)
            },
            Op::Halt => {
                self.ip = next_ip;
                proof {
                    assert(self@ =~= target.state);
                }
                Ok(Effect::Halted)
            },
            Op::Alloc => {
                if !self.mem.can_allocate() {
                    return Err(VmError::HeapExhausted);
                }
                let size = rc.value() as usize;
                let addr = self.mem.allocate(size);
                self.r.write(i.b, Register(addr.0));
                self.ip = next_ip;
                proof {
                    assert(self@ =~= target.state);
                }
                Ok(Effect::Continue)
            },
            Op::Aband => {
                let id = rc.value();
                if id == 0 {
                    return Err(VmError::AbandonReserved);
                }
                if !self.mem.is_live(id) {
                    return Err(VmError::BadArrayId(id));
                }
                self.mem.free(MemoryAddress(id));
                self.ip = next_ip;
                proof {
                    assert(self@ =~= target.state);
                }
                Ok(Effect::Continue)
            },
            Op::Output => {
                let v = rc.value();
                if v > 255 {
                    return Err(VmError::OutputOverflow(v));
                }
                self.ip = next_ip;
                proof {
                    assert(self@ =~= target.state);
                }
                Ok(Effect::Output(v as u8))
            },
            Op::Input => {
                self.ip = next_ip;
                proof {
                    assert(self@ =~= target.state);
                }
                Ok(Effect::AwaitInput(i.c.value()))
            },
            Op::Load => {
                let src = rb.value();
                if src == 0 {
                    self.ip = rc.value() as usize;
                    proof {
                        assert(self@ =~= target.state);
                    }
                    Ok(Effect::Continue)
                } else {
                    if !self.mem.is_live(src) {
                        return Err(VmError::BadArrayId(src));
                    }
                    let copy = self.mem.duplicate(src);
                    self.mem.install_program(copy);
                    self.ip = rc.value() as usize;
                    proof {
                        assert(self@ =~= target.state);
                    }
                    Ok(Effect::Continue)
                }
            },
            Op::Orth => {
                self.r.write(i.sa, Register(i.value.value()));
                self.ip = next_ip;
                proof {
                    assert(self@ =~= target.state);
                }
                Ok(Effect::Continue)
            },
        }
    }

    /// Stores an input byte — or the end-of-input pattern of all ones —
    /// into the register an `AwaitInput` effect named.
    pub fn provide_input(&mut self, target: u8, byte: Option<u8>)
        requires
            old(self).wf(),
            target < 8,
        ensures
            final(self).wf(),
            final(self)@ == (VmState {
                regs: old(self)@.regs.update(target as int, input_word(byte)),
                ip: old(self)@.ip,
                mem: old(self)@.mem,
            }),
    {
        let v: u32 = match byte {
            Some(b) => b as u32,
            None => 0xFFFF_FFFF,
        };
        self.r.write(Index::new(target), Register(v));
    }

    /// Runs the machine for at most `fuel` steps — exactly `spec_run` —
    /// feeding input operations from `input` and end of input once it is
    /// exhausted. Returns the bytes emitted, in order, and how the run
    /// ended.
    pub fn run(&mut self, input: &Vec<u8>, fuel: u64) -> (r: (Vec<u8>, RunOutcome))
        requires
            old(self).wf(),
        ensures
            final(self).wf(),
            ({
                let rr = spec_run(old(self)@, input@, fuel as nat);
                final(self)@ == rr.state && r.0@ == rr.out && r.1 == rr.outcome
            }),
    {
        let mut out: Vec<u8> = Vec::new();
        let mut pos: usize = 0;
        let mut used: u64 = 0;
        proof {
            assert(input@.skip(0) =~= input@);
            let total = spec_run(old(self)@, input@, fuel as nat);
            assert(Seq::<u8>::empty() + total.out =~= total.out);
        }
        loop
            invariant
                self.wf(),
                pos <= input@.len(),
                used <= fuel,
                ({
                    let total = spec_run(old(self)@, input@, fuel as nat);
                    let rest = spec_run(self@, input@.skip(pos as int), (fuel - used) as nat);
                    total.state == rest.state && total.out == out@ + rest.out && total.outcome
                        == rest.outcome
                }),
            decreases fuel - used,
        {
            if used == fuel {
                proof {
                    let total = spec_run(old(self)@, input@, fuel as nat);
                    assert(total.out =~= out@);
                }
                return (out, RunOutcome::OutOfFuel);
            }
            let ghost pre = self@;
            let ghost rest_in = input@.skip(pos as int);
            let ghost rem = (fuel - used) as nat;
            let res = self.act();
            match res {
                Ok(Effect::Continue) => {
                    used = used + 1;
                },
                Ok(Effect::Halted) => {
                    proof {
                        let total = spec_run(old(self)@, input@, fuel as nat);
                        assert(total.out =~= out@);
                    }
                    return (out, RunOutcome::Halted);
                },
                Ok(Effect::Output(b)) => {
                    let ghost out_pre = out@;
                    out.push(b);
                    used = used + 1;
                    proof {
                        let r2 = spec_run(self@, rest_in, (rem - 1) as nat);
                        assert(out_pre + (seq![b] + r2.out) =~= out@ + r2.out);
                    }
                },
                Ok(Effect::AwaitInput(t)) => {
                    proof {
                        if pre.ip < pre.mem.words(0).len() {
                            lemma_field_bounds(current_word(pre));
                        }
                    }
                    if pos < input.len() {
                        let byte = input[pos];
                        pos = pos + 1;
                        self.provide_input(t, Some(byte));
                        proof {
                            assert(input@.skip(pos as int) =~= rest_in.skip(1));
                        }
                    } else {
                        self.provide_input(t, None);
                    }
                    used = used + 1;
                },
                Err(e) => {
                    proof {
                        let total = spec_run(old(self)@, input@, fuel as nat);
                        assert(total.out =~= out@);
                    }
                    return (out, RunOutcome::Faulted(e));
                },
            }
        }
    }
}

} // verus!
