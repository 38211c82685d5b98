//! The execution engine: the fetch-decode-execute loop over a machine.

use vstd::prelude::*;
use crate::machine::{VirtualMachine, VmState, write_reg, read_reg};
use crate::isa::{Instr, known_opcode, instr_len, decode_known, OP_NOP, OP_SET, OP_ADD, OP_SUB,
    OP_LD, OP_STO, OP_LDR, OP_STR, OP_LSL, OP_LSR, OP_JMP, OP_JLT, OP_JLE, OP_JGT, OP_JGE,
    OP_JEQ, OP_JNE, OP_JPR, OP_PUSH, OP_POP, OP_CALL, OP_RET, OP_TX, OP_RX, OP_HLT};

verus! {

/// Why a run ended abnormally.
#[derive(Clone, Copy, Debug, PartialEq, Eq, Structural)]
pub enum FaultKind {
    /// The opcode byte matched no instruction.
    UnknownOpcode,
    /// A fetch, load or store reached past the end of the address space.
    MemoryOutOfRange,
    /// A register operand byte named no register slot.
    RegisterOutOfRange,
    /// A pop or return found the stack empty.
    StackUnderflow,
    /// A receive found the input channel exhausted.
    InputExhausted,
}

/// A terminal execution error: its kind, the address of the
/// instruction that raised it, and that instruction's opcode byte
/// (0 when no opcode could be fetched at all).
#[derive(Clone, Copy, Debug, PartialEq, Eq, Structural)]
pub struct Fault {
    pub kind: FaultKind,
    pub at: u32,
    pub opcode: u8,
}

/// What a step or a run left the machine doing.
#[derive(Clone, Copy, Debug, PartialEq, Eq, Structural)]
pub enum Status {
    Running,
    Halted,
    Faulted(Fault),
}

/// The low byte of a 64-bit value.
pub open spec fn low_byte(v: u64) -> u8 {
    (v % 256) as u8
}

/// The low 32 bits of a 64-bit value: what reaches the program counter.
pub open spec fn to_u32(v: u64) -> u32 {
    (v % 0x1_0000_0000) as u32
}

/// 64-bit addition, wrapping on overflow.
pub open spec fn wrap_add(a: u64, b: u64) -> u64 {
    ((a + b) % 0x1_0000_0000_0000_0000) as u64
}

/// 64-bit subtraction, wrapping on underflow.
pub open spec fn wrap_sub(a: u64, b: u64) -> u64 {
    if a >= b {
        (a - b) as u64
    } else {
        (a - b + 0x1_0000_0000_0000_0000) as u64
    }
}

/// Logical left shift; shifting by 64 or more clears every bit.
pub open spec fn shl64(v: u64, amount: u64) -> u64 {
    if amount >= 64 {
        0
    } else {
        v << amount
    }
}

/// Logical right shift; shifting by 64 or more clears every bit.
pub open spec fn shr64(v: u64, amount: u64) -> u64 {
    if amount >= 64 {
        0
    } else {
        v >> amount
    }
}

/// A fault outcome: the machine as it stood when the instruction began.
pub open spec fn faulted(s: VmState, kind: FaultKind, at: u32, opcode: u8) -> (VmState, Status) {
    (s, Status::Faulted(Fault { kind, at, opcode }))
}

/// Whether every register operand of the instruction names a slot.
pub open spec fn regs_in_range(i: Instr) -> bool {
    match i {
        Instr::Nop => true,
        Instr::SetReg { reg, lit } => reg < 16,
        Instr::Add { dst, a, b } => dst < 16 && a < 16 && b < 16,
        Instr::Sub { dst, a, b } => dst < 16 && a < 16 && b < 16,
        Instr::Ld { reg, addr } => reg < 16,
        Instr::Sto { reg, addr } => reg < 16,
        Instr::Ldr { dst, ptr } => dst < 16 && ptr < 16,
        Instr::Str { val, ptr } => val < 16 && ptr < 16,
        Instr::Lsl { reg, amount } => reg < 16 && amount < 16,
        Instr::Lsr { reg, amount } => reg < 16 && amount < 16,
        Instr::Jmp { addr } => true,
        Instr::Jlt { a, b, addr } => a < 16 && b < 16,
        Instr::Jle { a, b, addr } => a < 16 && b < 16,
        Instr::Jgt { a, b, addr } => a < 16 && b < 16,
        Instr::Jge { a, b, addr } => a < 16 && b < 16,
        Instr::Jeq { a, b, addr } => a < 16 && b < 16,
        Instr::Jne { a, b, addr } => a < 16 && b < 16,
        Instr::Jpr { ptr } => ptr < 16,
        Instr::Push { reg } => reg < 16,
        Instr::Pop { reg } => reg < 16,
        Instr::Call { addr } => true,
        Instr::Ret => true,
        Instr::Tx { reg } => reg < 16,
        Instr::Rx { reg } => reg < 16,
        Instr::Hlt => true,
    }
}

/// The effect of one decoded instruction. `s0` is the machine as the
/// instruction began (what a fault leaves behind); `s1` is `s0` with
/// the program counter already advanced past the operands, which is
/// the state the instruction's own semantics act on.
pub open spec fn instr_effect(s0: VmState, s1: VmState, i: Instr, op: u8) -> (VmState, Status) {
    let at = s0.pc;
    if !regs_in_range(i) {
        faulted(s0, FaultKind::RegisterOutOfRange, at, op)
    } else {
        match i {
            Instr::Nop => (s1, Status::Running),
            Instr::SetReg { reg, lit } => (write_reg(s1, reg, lit), Status::Running),
            Instr::Add { dst, a, b } => (
                write_reg(s1, dst, wrap_add(read_reg(s1, a), read_reg(s1, b))),
                Status::Running,
            ),
            Instr::Sub { dst, a, b } => (
                write_reg(s1, dst, wrap_sub(read_reg(s1, a), read_reg(s1, b))),
                Status::Running,
            ),
            Instr::Ld { reg, addr } => {
                if addr >= s1.mem.len() {
                    faulted(s0, FaultKind::MemoryOutOfRange, at, op)
                } else {
                    (write_reg(s1, reg, s1.mem[addr as int] as u64), Status::Running)
                }
            },
            Instr::Sto { reg, addr } => {
                if addr >= s1.mem.len() {
                    faulted(s0, FaultKind::MemoryOutOfRange, at, op)
                } else {
                    (
                        VmState {
                            mem: s1.mem.update(addr as int, low_byte(read_reg(s1, reg))),
                            ..s1
                        },
                        Status::Running,
                    )
                }
            },
            Instr::Ldr { dst, ptr } => {
                let p = read_reg(s1, ptr);
                if p >= s1.mem.len() {
                    faulted(s0, FaultKind::MemoryOutOfRange, at, op)
                } else {
                    (write_reg(s1, dst, s1.mem[p as int] as u64), Status::Running)
                }
            },
            Instr::Str { val, ptr } => {
                let p = read_reg(s1, ptr);
                if p >= s1.mem.len() {
                    faulted(s0, FaultKind::MemoryOutOfRange, at, op)
                } else {
                    (
                        VmState {
                            mem: s1.mem.update(p as int, low_byte(read_reg(s1, val))),
                            ..s1
                        },
                        Status::Running,
                    )
                }
            },
            Instr::Lsl { reg, amount } => (
                write_reg(s1, reg, shl64(read_reg(s1, reg), read_reg(s1, amount))),
                Status::Running,
            ),
            Instr::Lsr { reg, amount } => (
                write_reg(s1, reg, shr64(read_reg(s1, reg), read_reg(s1, amount))),
                Status::Running,
            ),
            Instr::Jmp { addr } => (VmState { pc: to_u32(addr), ..s1 }, Status::Running),
            Instr::Jlt { a, b, addr } => (
                if read_reg(s1, a) < read_reg(s1, b) {
                    VmState { pc: to_u32(addr), ..s1 }
                } else {
                    s1
                },
                Status::Running,
            ),
            Instr::Jle { a, b, addr } => (
                if read_reg(s1, a) <= read_reg(s1, b) {
                    VmState { pc: to_u32(addr), ..s1 }
                } else {
                    s1
                },
                Status::Running,
            ),
            Instr::Jgt { a, b, addr } => (
                if read_reg(s1, a) > read_reg(s1, b) {
                    VmState { pc: to_u32(addr), ..s1 }
                } else {
                    s1
                },
                Status::Running,
            ),
            Instr::Jge { a, b, addr } => (
                if read_reg(s1, a) >= read_reg(s1, b) {
                    VmState { pc: to_u32(addr), ..s1 }
                } else {
                    s1
                },
                Status::Running,
            ),
            Instr::Jeq { a, b, addr } => (
                if read_reg(s1, a) == read_reg(s1, b) {
                    VmState { pc: to_u32(addr), ..s1 }
                } else {
                    s1
                },
                Status::Running,
            ),
            Instr::Jne { a, b, addr } => (
                if read_reg(s1, a) != read_reg(s1, b) {
                    VmState { pc: to_u32(addr), ..s1 }
                } else {
                    s1
                },
                Status::Running,
            ),
            Instr::Jpr { ptr } => (
                VmState { pc: to_u32(read_reg(s1, ptr)), ..s1 },
                Status::Running,
            ),
            Instr::Push { reg } => (
                VmState { stack: s1.stack.push(read_reg(s1, reg)), ..s1 },
                Status::Running,
            ),
            Instr::Pop { reg } => {
                if s1.stack.len() == 0 {
                    faulted(s0, FaultKind::StackUnderflow, at, op)
                } else {
                    (
                        write_reg(
                            VmState { stack: s1.stack.drop_last(), ..s1 },
                            reg,
                            s1.stack.last(),
                        ),
                        Status::Running,
                    )
                }
            },
            Instr::Call { addr } => (
                VmState { pc: to_u32(addr), stack: s1.stack.push(s1.pc as u64), ..s1 },
                Status::Running,
            ),
            Instr::Ret => {
                if s1.stack.len() == 0 {
                    faulted(s0, FaultKind::StackUnderflow, at, op)
                } else {
                    (
                        VmState {
                            pc: to_u32(s1.stack.last()),
                            stack: s1.stack.drop_last(),
                            ..s1
                        },
                        Status::Running,
                    )
                }
            },
            Instr::Tx { reg } => (
                VmState { output: s1.output.push(low_byte(read_reg(s1, reg))), ..s1 },
                Status::Running,
            ),
            Instr::Rx { reg } => {
                if s1.in_pos < s1.input.len() {
                    (
                        write_reg(
                            VmState { in_pos: s1.in_pos + 1, ..s1 },
                            reg,
                            s1.input[s1.in_pos] as u64,
                        ),
                        Status::Running,
                    )
                } else {
                    faulted(s0, FaultKind::InputExhausted, at, op)
                }
            },
            Instr::Hlt => (s1, Status::Halted),
        }
    }
}

/// One step of the fetch-decode-execute loop: fetch the opcode at the
/// program counter, decode, consume the operand bytes, execute. A
/// fault leaves the machine as the step found it.
pub open spec fn step_spec(s: VmState) -> (VmState, Status) {
    if s.pc >= s.mem.len() {
        faulted(s, FaultKind::MemoryOutOfRange, s.pc, 0)
    } else {
        let op = s.mem[s.pc as int];
        if !known_opcode(op) {
            faulted(s, FaultKind::UnknownOpcode, s.pc, op)
        } else if s.pc + instr_len(op) > s.mem.len() {
            faulted(s, FaultKind::MemoryOutOfRange, s.pc, op)
        } else {
            let i = decode_known(s.mem, s.pc as int);
            let s1 = VmState { pc: (s.pc + instr_len(op)) as u32, ..s };
            instr_effect(s, s1, i, op)
        }
    }
}

/// Running for at most `fuel` steps: stops early at a halt or fault;
/// reports `Running` when the budget is exhausted first.
pub open spec fn run_spec(s: VmState, fuel: nat) -> (VmState, Status)
    decreases fuel,
{
    if fuel == 0 {
        (s, Status::Running)
    } else {
        let (s1, st) = step_spec(s);
        if st is Running {
            run_spec(s1, (fuel - 1) as nat)
        } else {
            (s1, st)
        }
    }
}

/// Running over no-op bytes only advances the program counter: one
/// step per zero byte, and nothing else in the machine moves.
pub proof fn lemma_noop_run(s: VmState, n: nat)
    requires
        s.pc + n <= s.mem.len(),
        s.mem.len() <= u32::MAX,
        forall|k: int| 0 <= k < n ==> #[trigger] s.mem[s.pc + k] == 0,
    ensures
        run_spec(s, n) == (VmState { pc: (s.pc + n) as u32, ..s }, Status::Running),
    decreases n,
{
    if n == 0 {
        assert(VmState { pc: s.pc, ..s } =~= s);
    } else {
        assert(s.mem[s.pc + 0] == 0);
        let s1 = VmState { pc: (s.pc + 1) as u32, ..s };
        assert(step_spec(s) == (s1, Status::Running));
        assert forall|k: int| 0 <= k < n - 1 implies #[trigger] s1.mem[s1.pc + k] == 0 by {
            assert(s.mem[s.pc + (k + 1)] == 0);
        }
        lemma_noop_run(s1, (n - 1) as nat);
        assert(VmState { pc: (s1.pc + (n - 1)) as u32, ..s1 } =~= VmState {
            pc: (s.pc + n) as u32,
            ..s
        });
    }
}

/// A program whose 9-byte entry slot was patched with a jump to `k`
/// begins execution by jumping there at once.
pub proof fn lemma_entry_jump_step(s: VmState, k: u64)
    requires
        s.pc == 0,
        9 <= s.mem.len() <= u32::MAX,
        s.mem.subrange(0, 9) == seq![OP_JMP] + crate::bytes::be_bytes(k as nat, 8),
    ensures
        step_spec(s) == (VmState { pc: to_u32(k), ..s }, Status::Running),
        k <= u32::MAX ==> step_spec(s).0.pc == k,
{
    crate::bytes::lemma_be_bytes_len(k as nat, 8);
    assert(s.mem[0] == s.mem.subrange(0, 9)[0]);
    assert(s.mem[0] == OP_JMP);
    assert(s.mem.subrange(1, 9) =~= s.mem.subrange(0, 9).subrange(1, 9));
    assert(s.mem.subrange(1, 9) =~= crate::bytes::be_bytes(k as nat, 8));
    crate::bytes::lemma_be_roundtrip_u64(k);
    assert(crate::isa::lit_at(s.mem, 1) == k);
    let s1 = VmState { pc: 9u32, ..s };
    assert(step_spec(s) == (VmState { pc: to_u32(k), ..s1 }, Status::Running));
    assert(VmState { pc: to_u32(k), ..s1 } =~= VmState { pc: to_u32(k), ..s });
}

/// A call pushes exactly the address of the byte after its operand —
/// the return address — and jumps to its target.
pub proof fn lemma_call_pushes_return(s: VmState)
    requires
        s.pc + 9 <= s.mem.len(),
        s.mem.len() <= u32::MAX,
        s.mem[s.pc as int] == OP_CALL,
    ensures
        step_spec(s).1 == Status::Running,
        step_spec(s).0.stack == s.stack.push((s.pc + 9) as u64),
        step_spec(s).0.pc == to_u32(crate::isa::lit_at(s.mem, s.pc + 1)),
        step_spec(s).0.mem == s.mem,
        step_spec(s).0.regs == s.regs,
{
}

/// A return pops the top of the stack into the program counter.
pub proof fn lemma_ret_restores(t: VmState)
    requires
        t.pc < t.mem.len(),
        t.mem.len() <= u32::MAX,
        t.mem[t.pc as int] == OP_RET,
        t.stack.len() > 0,
    ensures
        step_spec(t).1 == Status::Running,
        step_spec(t).0.pc == to_u32(t.stack.last()),
        step_spec(t).0.stack == t.stack.drop_last(),
{
}

/// Call/return round trip: whatever ran in between, a return that
/// finds the call's pushed address on top of the stack restores the
/// program counter to exactly the byte after the call's operand.
pub proof fn lemma_call_ret_roundtrip(s: VmState, t: VmState)
    requires
        s.pc + 9 <= s.mem.len(),
        s.mem.len() <= u32::MAX,
        s.mem[s.pc as int] == OP_CALL,
        t.pc < t.mem.len(),
        t.mem.len() <= u32::MAX,
        t.mem[t.pc as int] == OP_RET,
        t.stack == step_spec(s).0.stack,
    ensures
        step_spec(t).1 == Status::Running,
        step_spec(t).0.pc == s.pc + 9,
        step_spec(t).0.stack == s.stack,
{
    lemma_call_pushes_return(s);
    lemma_ret_restores(t);
    assert(t.stack.last() == (s.pc + 9) as u64);
    assert(s.stack.push((s.pc + 9) as u64).drop_last() =~= s.stack);
}

/// A push followed at once by a pop hands the pushed value to the
/// target register, leaving the stack as it began; the register-file
/// slots receive it whole, and slot 15 keeps its low 32 bits as the
/// program counter does.
pub proof fn lemma_push_pop(s: VmState, r1: u8, r2: u8)
    requires
        s.pc + 4 <= s.mem.len(),
        s.mem.len() <= u32::MAX,
        s.regs.len() == 16,
        s.mem[s.pc as int] == OP_PUSH,
        s.mem[s.pc + 1] == r1,
        r1 <= 15,
        s.mem[s.pc + 2] == OP_POP,
        s.mem[s.pc + 3] == r2,
        r2 <= 15,
    ensures
        ({
            let v = read_reg(VmState { pc: (s.pc + 2) as u32, ..s }, r1);
            let after = step_spec(step_spec(s).0).0;
            &&& step_spec(s).1 == Status::Running
            &&& step_spec(step_spec(s).0).1 == Status::Running
            &&& after.stack == s.stack
            &&& read_reg(after, r2) == (if r2 < 15 { v } else { (v as u32) as u64 })
        }),
{
    let s1 = VmState { pc: (s.pc + 2) as u32, ..s };
    let v = read_reg(s1, r1);
    assert(step_spec(s) == (VmState { stack: s1.stack.push(v), ..s1 }, Status::Running));
    let sa = VmState { stack: s1.stack.push(v), ..s1 };
    assert(sa.stack.len() > 0);
    let sb = write_reg(VmState { stack: sa.stack.drop_last(), ..VmState { pc: (sa.pc + 2) as u32, ..sa } }, r2, v);
    assert(step_spec(sa).0 == sb);
    assert(sa.stack.drop_last() =~= s.stack);
}

/// Popping — by `pop` or by `return` — with an empty stack is a fault,
/// and the machine is left exactly as the step found it.
pub proof fn lemma_pop_empty_faults(s: VmState)
    requires
        s.pc + 2 <= s.mem.len(),
        s.mem.len() <= u32::MAX,
        s.mem[s.pc as int] == OP_POP,
        s.mem[s.pc + 1] <= 15,
        s.stack.len() == 0,
    ensures
        step_spec(s) == faulted(s, FaultKind::StackUnderflow, s.pc, OP_POP),
{
}

/// Conditional branches decide exactly by 64-bit unsigned comparison:
/// an equality branch is taken iff the operands are bit-for-bit equal,
/// and the ordered branches use unsigned order, with no sign
/// interpretation; an untaken branch falls through to the next
/// instruction.
pub proof fn lemma_branch_conditions(s: VmState, a: u8, b: u8)
    requires
        s.pc + 11 <= s.mem.len(),
        s.mem.len() <= u32::MAX,
        s.regs.len() == 16,
        s.mem[s.pc + 1] == a,
        a <= 15,
        s.mem[s.pc + 2] == b,
        b <= 15,
    ensures
        ({
            let s1 = VmState { pc: (s.pc + 11) as u32, ..s };
            let va = read_reg(s1, a);
            let vb = read_reg(s1, b);
            let target = to_u32(crate::isa::lit_at(s.mem, s.pc + 3));
            let through = (s.pc + 11) as u32;
            &&& (s.mem[s.pc as int] == OP_JEQ ==> step_spec(s) == (
                VmState { pc: if va == vb { target } else { through }, ..s },
                Status::Running,
            ))
            &&& (s.mem[s.pc as int] == OP_JNE ==> step_spec(s) == (
                VmState { pc: if va != vb { target } else { through }, ..s },
                Status::Running,
            ))
            &&& (s.mem[s.pc as int] == OP_JLT ==> step_spec(s) == (
                VmState { pc: if va < vb { target } else { through }, ..s },
                Status::Running,
            ))
            &&& (s.mem[s.pc as int] == OP_JLE ==> step_spec(s) == (
                VmState { pc: if va <= vb { target } else { through }, ..s },
                Status::Running,
            ))
            &&& (s.mem[s.pc as int] == OP_JGT ==> step_spec(s) == (
                VmState { pc: if va > vb { target } else { through }, ..s },
                Status::Running,
            ))
            &&& (s.mem[s.pc as int] == OP_JGE ==> step_spec(s) == (
                VmState { pc: if va >= vb { target } else { through }, ..s },
                Status::Running,
            ))
        }),
{
    let s1 = VmState { pc: (s.pc + 11) as u32, ..s };
    assert(VmState { pc: s1.pc, ..s1 } =~= s1);
}

impl VirtualMachine {
    /// One step of the fetch-decode-execute loop, exactly as
    /// `step_spec` describes it.
    #[verifier::rlimit(100)]
    #[verifier::spinoff_prover]
    pub fn step(&mut self) -> (r: Status)
        requires
            old(self)@.wf(),
        ensures
            final(self)@ == step_spec(old(self)@).0,
            r == step_spec(old(self)@).1,
            final(self)@.wf(),
    {
        let ghost s0 = old(self)@;
        let at = self.pc;
        let memlen = self.memory.len();
        if !((at as u64) < (memlen as u64)) {
            return Status::Faulted(Fault { kind: FaultKind::MemoryOutOfRange, at, opcode: 0 });
        }
        let op = self.next();
        let size: u32 = if op == OP_NOP || op == OP_RET || op == OP_HLT {
            1
        } else if op == OP_JPR || op == OP_PUSH || op == OP_POP || op == OP_TX || op == OP_RX {
            2
        } else if op == OP_LDR || op == OP_STR || op == OP_LSL || op == OP_LSR {
            3
        } else if op == OP_ADD || op == OP_SUB {
            4
        } else if op == OP_JMP || op == OP_CALL {
            9
        } else if op == OP_SET || op == OP_LD || op == OP_STO {
            10
        } else if op == OP_JLT || op == OP_JLE || op == OP_JGT || op == OP_JGE || op == OP_JEQ
            || op == OP_JNE {
            11
        } else {
            self.set_pc(at);
            return Status::Faulted(Fault { kind: FaultKind::UnknownOpcode, at, opcode: op });
        };
        if (at as u64) + (size as u64) > (memlen as u64) {
            self.set_pc(at);
            return Status::Faulted(Fault { kind: FaultKind::MemoryOutOfRange, at, opcode: op });
        }
        if op == OP_NOP {
            Status::Running
        } else if op == OP_SET {
            let reg = self.next();
            let lit = self.get_u64();
            if reg >= 16 {
                self.set_pc(at);
                return Status::Faulted(Fault { kind: FaultKind::RegisterOutOfRange, at, opcode: op });
            }
            self.to_register(lit, reg);
            Status::Running
        } else if op == OP_ADD || op == OP_SUB {
            let dst = self.next();
            let a = self.next();
            let b = self.next();
            if dst >= 16 || a >= 16 || b >= 16 {
                self.set_pc(at);
                return Status::Faulted(Fault { kind: FaultKind::RegisterOutOfRange, at, opcode: op });
            }
            let va = self.from_register(a);
            let vb = self.from_register(b);
            let v: u64 = if op == OP_ADD {
                if va <= u64::MAX - vb {
                    va + vb
                } else {
                    va - (u64::MAX - vb) - 1
                }
            } else {
                if va >= vb {
                    va - vb
                } else {
                    u64::MAX - (vb - va) + 1
                }
            };
            self.to_register(v, dst);
            Status::Running
        } else if op == OP_LD || op == OP_STO {
            let reg = self.next();
            let addr = self.get_u64();
            if reg >= 16 {
                self.set_pc(at);
                return Status::Faulted(Fault { kind: FaultKind::RegisterOutOfRange, at, opcode: op });
            }
            if addr >= memlen as u64 {
                self.set_pc(at);
                return Status::Faulted(Fault { kind: FaultKind::MemoryOutOfRange, at, opcode: op });
            }
            if op == OP_LD {
                let b = self.get(addr as u32);
                self.to_register(b as u64, reg);
            } else {
                let v = self.from_register(reg);
                self.store((v % 256) as u8, addr as u32);
            }
            Status::Running
        } else if op == OP_LDR || op == OP_STR {
            let x = self.next();
            let ptr = self.next();
            if x >= 16 || ptr >= 16 {
                self.set_pc(at);
                return Status::Faulted(Fault { kind: FaultKind::RegisterOutOfRange, at, opcode: op });
            }
            let p = self.from_register(ptr);
            if p >= memlen as u64 {
                self.set_pc(at);
                return Status::Faulted(Fault { kind: FaultKind::MemoryOutOfRange, at, opcode: op });
            }
            if op == OP_LDR {
                let b = self.get(p as u32);
                self.to_register(b as u64, x);
            } else {
                let v = self.from_register(x);
                self.store((v % 256) as u8, p as u32);
            }
            Status::Running
        } else if op == OP_LSL || op == OP_LSR {
            let reg = self.next();
            let amount = self.next();
            if reg >= 16 || amount >= 16 {
                self.set_pc(at);
                return Status::Faulted(Fault { kind: FaultKind::RegisterOutOfRange, at, opcode: op });
            }
            let v = self.from_register(reg);
            let amt = self.from_register(amount);
            let r: u64 = if amt >= 64 {
                0
            } else if op == OP_LSL {
                v << amt
            } else {
                v >> amt
            };
            self.to_register(r, reg);
            Status::Running
        } else if op == OP_JMP {
            let addr = self.get_u64();
            self.set_pc((addr % 0x1_0000_0000) as u32);
            Status::Running
        } else if op == OP_JLT || op == OP_JLE || op == OP_JGT || op == OP_JGE || op == OP_JEQ
            || op == OP_JNE {
            let a = self.next();
            let b = self.next();
            let addr = self.get_u64();
            if a >= 16 || b >= 16 {
                self.set_pc(at);
                return Status::Faulted(Fault { kind: FaultKind::RegisterOutOfRange, at, opcode: op });
            }
            let va = self.from_register(a);
            let vb = self.from_register(b);
            let taken: bool = if op == OP_JLT {
                va < vb
            } else if op == OP_JLE {
                va <= vb
            } else if op == OP_JGT {
                va > vb
            } else if op == OP_JGE {
                va >= vb
            } else if op == OP_JEQ {
                va == vb
            } else {
                va != vb
            };
            if taken {
                self.set_pc((addr % 0x1_0000_0000) as u32);
            }
            Status::Running
        } else if op == OP_JPR {
            let ptr = self.next();
            if ptr >= 16 {
                self.set_pc(at);
                return Status::Faulted(Fault { kind: FaultKind::RegisterOutOfRange, at, opcode: op });
            }
            let p = self.from_register(ptr);
            self.set_pc((p % 0x1_0000_0000) as u32);
            Status::Running
        } else if op == OP_PUSH {
            let reg = self.next();
            if reg >= 16 {
                self.set_pc(at);
                return Status::Faulted(Fault { kind: FaultKind::RegisterOutOfRange, at, opcode: op });
            }
            let v = self.from_register(reg);
            self.push(v);
            Status::Running
        } else if op == OP_POP {
            let reg = self.next();
            if reg >= 16 {
                self.set_pc(at);
                return Status::Faulted(Fault { kind: FaultKind::RegisterOutOfRange, at, opcode: op });
            }
            if self.stack.len() == 0 {
                self.set_pc(at);
                return Status::Faulted(Fault { kind: FaultKind::StackUnderflow, at, opcode: op });
            }
            let v = self.pop();
            self.to_register(v, reg);
            Status::Running
        } else if op == OP_CALL {
            let addr = self.get_u64();
            let ret = self.pc;
            self.push(ret as u64);
            self.set_pc((addr % 0x1_0000_0000) as u32);
            Status::Running
        } else if op == OP_RET {
            if self.stack.len() == 0 {
                self.set_pc(at);
                return Status::Faulted(Fault { kind: FaultKind::StackUnderflow, at, opcode: op });
            }
            let v = self.pop();
            self.set_pc((v % 0x1_0000_0000) as u32);
            Status::Running
        } else if op == OP_TX {
            let reg = self.next();
            if reg >= 16 {
                self.set_pc(at);
                return Status::Faulted(Fault { kind: FaultKind::RegisterOutOfRange, at, opcode: op });
            }
            let v = self.from_register(reg);
            self.output.push((v % 256) as u8);
            Status::Running
        } else if op == OP_RX {
            let reg = self.next();
            if reg >= 16 {
                self.set_pc(at);
                return Status::Faulted(Fault { kind: FaultKind::RegisterOutOfRange, at, opcode: op });
            }
            if self.input_pos >= self.input.len() {
                self.set_pc(at);
                return Status::Faulted(Fault { kind: FaultKind::InputExhausted, at, opcode: op });
            }
            let b = self.input[self.input_pos];
            self.input_pos = self.input_pos + 1;
            self.to_register(b as u64, reg);
            Status::Running
        } else {
            Status::Halted
        }
    }

    /// Runs the fetch-decode-execute loop for at most `max_steps`
    /// steps: to a halt, to a fault, or until the budget runs out,
    /// in which case the machine is still `Running`.
    pub fn interpret(&mut self, max_steps: u64) -> (r: Status)
        requires
            old(self)@.wf(),
        ensures
            final(self)@ == run_spec(old(self)@, max_steps as nat).0,
            r == run_spec(old(self)@, max_steps as nat).1,
            final(self)@.wf(),
    {
        let mut fuel = max_steps;
        while fuel > 0
            invariant
                self@.wf(),
                run_spec(old(self)@, max_steps as nat) == run_spec(self@, fuel as nat),
            decreases fuel,
        {
            let ghost pre = self@;
            let st = self.step();
            fuel = fuel - 1;
            match st {
                Status::Running => {},
                _ => {
                    return st;
                },
            }
        }
        Status::Running
    }
}

} // verus!
