//! The instruction set: opcodes, operand layouts, and the binary
//! encoding/decoding rules the assembler and engine agree on.

use vstd::prelude::*;
use crate::bytes::{be_val, be_bytes, pow256, lemma_be_bytes_len, lemma_be_roundtrip_u64,
    lemma_be_val_bound, lemma_pow256_8, reverse_bytes};

verus! {

pub const OP_NOP: u8 = 0x00;
pub const OP_SET: u8 = 0x01;
pub const OP_ADD: u8 = 0x02;
pub const OP_SUB: u8 = 0x03;
pub const OP_LD: u8 = 0x11;
pub const OP_STO: u8 = 0x12;
pub const OP_LDR: u8 = 0x21;
pub const OP_STR: u8 = 0x22;
pub const OP_LSL: u8 = 0x31;
pub const OP_LSR: u8 = 0x32;
pub const OP_JMP: u8 = 0x41;
pub const OP_JLT: u8 = 0x42;
pub const OP_JLE: u8 = 0x43;
pub const OP_JGT: u8 = 0x44;
pub const OP_JGE: u8 = 0x45;
pub const OP_JEQ: u8 = 0x46;
pub const OP_JNE: u8 = 0x47;
pub const OP_JPR: u8 = 0x48;
pub const OP_PUSH: u8 = 0x51;
pub const OP_POP: u8 = 0x52;
pub const OP_CALL: u8 = 0x61;
pub const OP_RET: u8 = 0x62;
pub const OP_TX: u8 = 0xA1;
pub const OP_RX: u8 = 0xA2;
pub const OP_HLT: u8 = 0xFF;

/// One decoded instruction: a mnemonic with its operands. Register
/// operands are raw index bytes; literals are 64-bit values.
#[derive(Clone, Copy, Debug, PartialEq, Eq, Structural)]
pub enum Instr {
    Nop,
    SetReg { reg: u8, lit: u64 },
    Add { dst: u8, a: u8, b: u8 },
    Sub { dst: u8, a: u8, b: u8 },
    Ld { reg: u8, addr: u64 },
    Sto { reg: u8, addr: u64 },
    Ldr { dst: u8, ptr: u8 },
    Str { val: u8, ptr: u8 },
    Lsl { reg: u8, amount: u8 },
    Lsr { reg: u8, amount: u8 },
    Jmp { addr: u64 },
    Jlt { a: u8, b: u8, addr: u64 },
    Jle { a: u8, b: u8, addr: u64 },
    Jgt { a: u8, b: u8, addr: u64 },
    Jge { a: u8, b: u8, addr: u64 },
    Jeq { a: u8, b: u8, addr: u64 },
    Jne { a: u8, b: u8, addr: u64 },
    Jpr { ptr: u8 },
    Push { reg: u8 },
    Pop { reg: u8 },
    Call { addr: u64 },
    Ret,
    Tx { reg: u8 },
    Rx { reg: u8 },
    Hlt,
}

/// Whether a byte is the opcode of some instruction.
pub open spec fn known_opcode(op: u8) -> bool {
    ||| op == OP_NOP
    ||| op == OP_SET
    ||| op == OP_ADD
    ||| op == OP_SUB
    ||| op == OP_LD
    ||| op == OP_STO
    ||| op == OP_LDR
    ||| op == OP_STR
    ||| op == OP_LSL
    ||| op == OP_LSR
    ||| op == OP_JMP
    ||| op == OP_JLT
    ||| op == OP_JLE
    ||| op == OP_JGT
    ||| op == OP_JGE
    ||| op == OP_JEQ
    ||| op == OP_JNE
    ||| op == OP_JPR
    ||| op == OP_PUSH
    ||| op == OP_POP
    ||| op == OP_CALL
    ||| op == OP_RET
    ||| op == OP_TX
    ||| op == OP_RX
    ||| op == OP_HLT
}

/// Total byte length of the instruction with the given opcode,
/// opcode byte included; 0 for an unknown opcode.
pub open spec fn instr_len(op: u8) -> nat {
    if op == OP_NOP || op == OP_RET || op == OP_HLT {
        1
    } else if op == OP_JPR || op == OP_PUSH || op == OP_POP || op == OP_TX || op == OP_RX {
        2
    } else if op == OP_LDR || op == OP_STR || op == OP_LSL || op == OP_LSR {
        3
    } else if op == OP_ADD || op == OP_SUB {
        4
    } else if op == OP_JMP || op == OP_CALL {
        9
    } else if op == OP_SET || op == OP_LD || op == OP_STO {
        10
    } else if op == OP_JLT || op == OP_JLE || op == OP_JGT || op == OP_JGE || op == OP_JEQ
        || op == OP_JNE {
        11
    } else {
        0
    }
}

/// The 64-bit big-endian literal stored at `at`.
pub open spec fn lit_at(mem: Seq<u8>, at: int) -> u64 {
    be_val(mem.subrange(at, at + 8)) as u64
}

/// The instruction whose opcode sits at `at`; meaningful only when the
/// opcode is known and all its operand bytes are inside `mem`.
pub open spec fn decode_known(mem: Seq<u8>, at: int) -> Instr {
    let op = mem[at];
    if op == OP_NOP {
        Instr::Nop
    } else if op == OP_SET {
        Instr::SetReg { reg: mem[at + 1], lit: lit_at(mem, at + 2) }
    } else if op == OP_ADD {
        Instr::Add { dst: mem[at + 1], a: mem[at + 2], b: mem[at + 3] }
    } else if op == OP_SUB {
        Instr::Sub { dst: mem[at + 1], a: mem[at + 2], b: mem[at + 3] }
    } else if op == OP_LD {
        Instr::Ld { reg: mem[at + 1], addr: lit_at(mem, at + 2) }
    } else if op == OP_STO {
        Instr::Sto { reg: mem[at + 1], addr: lit_at(mem, at + 2) }
    } else if op == OP_LDR {
        Instr::Ldr { dst: mem[at + 1], ptr: mem[at + 2] }
    } else if op == OP_STR {
        Instr::Str { val: mem[at + 1], ptr: mem[at + 2] }
    } else if op == OP_LSL {
        Instr::Lsl { reg: mem[at + 1], amount: mem[at + 2] }
    } else if op == OP_LSR {
        Instr::Lsr { reg: mem[at + 1], amount: mem[at + 2] }
    } else if op == OP_JMP {
        Instr::Jmp { addr: lit_at(mem, at + 1) }
    } else if op == OP_JLT {
        Instr::Jlt { a: mem[at + 1], b: mem[at + 2], addr: lit_at(mem, at + 3) }
    } else if op == OP_JLE {
        Instr::Jle { a: mem[at + 1], b: mem[at + 2], addr: lit_at(mem, at + 3) }
    } else if op == OP_JGT {
        Instr::Jgt { a: mem[at + 1], b: mem[at + 2], addr: lit_at(mem, at + 3) }
    } else if op == OP_JGE {
        Instr::Jge { a: mem[at + 1], b: mem[at + 2], addr: lit_at(mem, at + 3) }
    } else if op == OP_JEQ {
        Instr::Jeq { a: mem[at + 1], b: mem[at + 2], addr: lit_at(mem, at + 3) }
    } else if op == OP_JNE {
        Instr::Jne { a: mem[at + 1], b: mem[at + 2], addr: lit_at(mem, at + 3) }
    } else if op == OP_JPR {
        Instr::Jpr { ptr: mem[at + 1] }
    } else if op == OP_PUSH {
        Instr::Push { reg: mem[at + 1] }
    } else if op == OP_POP {
        Instr::Pop { reg: mem[at + 1] }
    } else if op == OP_CALL {
        Instr::Call { addr: lit_at(mem, at + 1) }
    } else if op == OP_RET {
        Instr::Ret
    } else if op == OP_TX {
        Instr::Tx { reg: mem[at + 1] }
    } else if op == OP_RX {
        Instr::Rx { reg: mem[at + 1] }
    } else {
        Instr::Hlt
    }
}

/// Decodes the instruction at `at`, or nothing when the opcode is
/// unknown or its operand bytes run past the end of `mem`.
pub open spec fn spec_decode(mem: Seq<u8>, at: int) -> Option<Instr> {
    if 0 <= at < mem.len() && known_opcode(mem[at]) && at + instr_len(mem[at]) <= mem.len() {
        Some(decode_known(mem, at))
    } else {
        None
    }
}

/// The binary encoding of an instruction: its opcode byte followed by
/// register index bytes and 8-byte big-endian literals.
pub open spec fn spec_encode(i: Instr) -> Seq<u8> {
    match i {
        Instr::Nop => seq![OP_NOP],
        Instr::SetReg { reg, lit } => seq![OP_SET, reg] + be_bytes(lit as nat, 8),
        Instr::Add { dst, a, b } => seq![OP_ADD, dst, a, b],
        Instr::Sub { dst, a, b } => seq![OP_SUB, dst, a, b],
        Instr::Ld { reg, addr } => seq![OP_LD, reg] + be_bytes(addr as nat, 8),
        Instr::Sto { reg, addr } => seq![OP_STO, reg] + be_bytes(addr as nat, 8),
        Instr::Ldr { dst, ptr } => seq![OP_LDR, dst, ptr],
        Instr::Str { val, ptr } => seq![OP_STR, val, ptr],
        Instr::Lsl { reg, amount } => seq![OP_LSL, reg, amount],
        Instr::Lsr { reg, amount } => seq![OP_LSR, reg, amount],
        Instr::Jmp { addr } => seq![OP_JMP] + be_bytes(addr as nat, 8),
        Instr::Jlt { a, b, addr } => seq![OP_JLT, a, b] + be_bytes(addr as nat, 8),
        Instr::Jle { a, b, addr } => seq![OP_JLE, a, b] + be_bytes(addr as nat, 8),
        Instr::Jgt { a, b, addr } => seq![OP_JGT, a, b] + be_bytes(addr as nat, 8),
        Instr::Jge { a, b, addr } => seq![OP_JGE, a, b] + be_bytes(addr as nat, 8),
        Instr::Jeq { a, b, addr } => seq![OP_JEQ, a, b] + be_bytes(addr as nat, 8),
        Instr::Jne { a, b, addr } => seq![OP_JNE, a, b] + be_bytes(addr as nat, 8),
        Instr::Jpr { ptr } => seq![OP_JPR, ptr],
        Instr::Push { reg } => seq![OP_PUSH, reg],
        Instr::Pop { reg } => seq![OP_POP, reg],
        Instr::Call { addr } => seq![OP_CALL] + be_bytes(addr as nat, 8),
        Instr::Ret => seq![OP_RET],
        Instr::Tx { reg } => seq![OP_TX, reg],
        Instr::Rx { reg } => seq![OP_RX, reg],
        Instr::Hlt => seq![OP_HLT],
    }
}

/// The opcode byte an instruction encodes to.
pub open spec fn opcode_of(i: Instr) -> u8 {
    spec_encode(i)[0]
}

/// Every instruction's encoding opens with a known opcode and has
/// exactly the length that opcode announces.
pub proof fn lemma_encode_shape(i: Instr)
    ensures
        spec_encode(i).len() == instr_len(opcode_of(i)),
        known_opcode(opcode_of(i)),
{
    match i {
        Instr::SetReg { reg, lit } => lemma_be_bytes_len(lit as nat, 8),
        Instr::Ld { reg, addr } => lemma_be_bytes_len(addr as nat, 8),
        Instr::Sto { reg, addr } => lemma_be_bytes_len(addr as nat, 8),
        Instr::Jmp { addr } => lemma_be_bytes_len(addr as nat, 8),
        Instr::Jlt { a, b, addr } => lemma_be_bytes_len(addr as nat, 8),
        Instr::Jle { a, b, addr } => lemma_be_bytes_len(addr as nat, 8),
        Instr::Jgt { a, b, addr } => lemma_be_bytes_len(addr as nat, 8),
        Instr::Jge { a, b, addr } => lemma_be_bytes_len(addr as nat, 8),
        Instr::Jeq { a, b, addr } => lemma_be_bytes_len(addr as nat, 8),
        Instr::Jne { a, b, addr } => lemma_be_bytes_len(addr as nat, 8),
        Instr::Call { addr } => lemma_be_bytes_len(addr as nat, 8),
        _ => (),
    }
}

/// Round-trip: decoding the encoding of any instruction yields that
/// instruction again, whatever its operands.
pub proof fn lemma_decode_encode_roundtrip(i: Instr)
    ensures
        spec_decode(spec_encode(i), 0) == Some(i),
{
    let e = spec_encode(i);
    lemma_encode_shape(i);
    match i {
        Instr::SetReg { reg, lit } => {
            assert(e.subrange(2, 10) =~= be_bytes(lit as nat, 8));
            lemma_be_roundtrip_u64(lit);
        },
        Instr::Ld { reg, addr } => {
            assert(e.subrange(2, 10) =~= be_bytes(addr as nat, 8));
            lemma_be_roundtrip_u64(addr);
        },
        Instr::Sto { reg, addr } => {
            assert(e.subrange(2, 10) =~= be_bytes(addr as nat, 8));
            lemma_be_roundtrip_u64(addr);
        },
        Instr::Jmp { addr } => {
            assert(e.subrange(1, 9) =~= be_bytes(addr as nat, 8));
            lemma_be_roundtrip_u64(addr);
        },
        Instr::Jlt { a, b, addr } => {
            assert(e.subrange(3, 11) =~= be_bytes(addr as nat, 8));
            lemma_be_roundtrip_u64(addr);
        },
        Instr::Jle { a, b, addr } => {
            assert(e.subrange(3, 11) =~= be_bytes(addr as nat, 8));
            lemma_be_roundtrip_u64(addr);
        },
        Instr::Jgt { a, b, addr } => {
            assert(e.subrange(3, 11) =~= be_bytes(addr as nat, 8));
            lemma_be_roundtrip_u64(addr);
        },
        Instr::Jge { a, b, addr } => {
            assert(e.subrange(3, 11) =~= be_bytes(addr as nat, 8));
            lemma_be_roundtrip_u64(addr);
        },
        Instr::Jeq { a, b, addr } => {
            assert(e.subrange(3, 11) =~= be_bytes(addr as nat, 8));
            lemma_be_roundtrip_u64(addr);
        },
        Instr::Jne { a, b, addr } => {
            assert(e.subrange(3, 11) =~= be_bytes(addr as nat, 8));
            lemma_be_roundtrip_u64(addr);
        },
        Instr::Call { addr } => {
            assert(e.subrange(1, 9) =~= be_bytes(addr as nat, 8));
            lemma_be_roundtrip_u64(addr);
        },
        _ => (),
    }
}

/// Encodes an instruction into its binary form.
pub fn encode_instr(i: &Instr) -> (r: Vec<u8>)
    ensures
        r@ == spec_encode(*i),
{
    let mut r: Vec<u8> = Vec::new();
    match *i {
        Instr::Nop => {
            r.push(OP_NOP);
        },
        Instr::SetReg { reg, lit } => {
            r.push(OP_SET);
            r.push(reg);
            let mut t = reverse_bytes(lit);
            r.append(&mut t);
        },
        Instr::Add { dst, a, b } => {
            r.push(OP_ADD);
            r.push(dst);
            r.push(a);
            r.push(b);
        },
        Instr::Sub { dst, a, b } => {
            r.push(OP_SUB);
            r.push(dst);
            r.push(a);
            r.push(b);
        },
        Instr::Ld { reg, addr } => {
            r.push(OP_LD);
            r.push(reg);
            let mut t = reverse_bytes(addr);
            r.append(&mut t);
        },
        Instr::Sto { reg, addr } => {
            r.push(OP_STO);
            r.push(reg);
            let mut t = reverse_bytes(addr);
            r.append(&mut t);
        },
        Instr::Ldr { dst, ptr } => {
            r.push(OP_LDR);
            r.push(dst);
            r.push(ptr);
        },
        Instr::Str { val, ptr } => {
            r.push(OP_STR);
            r.push(val);
            r.push(ptr);
        },
        Instr::Lsl { reg, amount } => {
            r.push(OP_LSL);
            r.push(reg);
            r.push(amount);
        },
        Instr::Lsr { reg, amount } => {
            r.push(OP_LSR);
            r.push(reg);
            r.push(amount);
        },
        Instr::Jmp { addr } => {
            r.push(OP_JMP);
            let mut t = reverse_bytes(addr);
            r.append(&mut t);
        },
        Instr::Jlt { a, b, addr } => {
            r.push(OP_JLT);
            r.push(a);
            r.push(b);
            let mut t = reverse_bytes(addr);
            r.append(&mut t);
        },
        Instr::Jle { a, b, addr } => {
            r.push(OP_JLE);
            r.push(a);
            r.push(b);
            let mut t = reverse_bytes(addr);
            r.append(&mut t);
        },
        Instr::Jgt { a, b, addr } => {
            r.push(OP_JGT);
            r.push(a);
            r.push(b);
            let mut t = reverse_bytes(addr);
            r.append(&mut t);
        },
        Instr::Jge { a, b, addr } => {
            r.push(OP_JGE);
            r.push(a);
            r.push(b);
            let mut t = reverse_bytes(addr);
            r.append(&mut t);
        },
        Instr::Jeq { a, b, addr } => {
            r.push(OP_JEQ);
            r.push(a);
            r.push(b);
            let mut t = reverse_bytes(addr);
            r.append(&mut t);
        },
        Instr::Jne { a, b, addr } => {
            r.push(OP_JNE);
            r.push(a);
            r.push(b);
            let mut t = reverse_bytes(addr);
            r.append(&mut t);
        },
        Instr::Jpr { ptr } => {
            r.push(OP_JPR);
            r.push(ptr);
        },
        Instr::Push { reg } => {
            r.push(OP_PUSH);
            r.push(reg);
        },
        Instr::Pop { reg } => {
            r.push(OP_POP);
            r.push(reg);
        },
        Instr::Call { addr } => {
            r.push(OP_CALL);
            let mut t = reverse_bytes(addr);
            r.append(&mut t);
        },
        Instr::Ret => {
            r.push(OP_RET);
        },
        Instr::Tx { reg } => {
            r.push(OP_TX);
            r.push(reg);
        },
        Instr::Rx { reg } => {
            r.push(OP_RX);
            r.push(reg);
        },
        Instr::Hlt => {
            r.push(OP_HLT);
        },
    }
    proof {
        assert(r@ =~= spec_encode(*i));
    }
    r
}

/// Reads the 64-bit big-endian literal at `at`.
fn be_u64_at(bytes: &Vec<u8>, at: usize) -> (r: u64)
    requires
        at + 8 <= bytes.len(),
    ensures
        r == lit_at(bytes@, at as int),
{
    let ghost s = bytes@.subrange(at as int, at + 8);
    let mut result: u64 = 0;
    let mut i: usize = 0;
    while i < 8
        invariant
            i <= 8,
            at + 8 <= bytes.len(),
            s == bytes@.subrange(at as int, at + 8),
            result as nat == be_val(s.take(i as int)),
        decreases 8 - i,
    {
        proof {
            lemma_be_val_bound(s.take(i as int));
            reveal_with_fuel(pow256, 9);
            assert(s.take(i + 1).drop_last() =~= s.take(i as int));
            assert(s.take(i + 1).last() == bytes@[at + i]);
        }
        let b = bytes[at + i];
        result = result * 256 + b as u64;
        i += 1;
    }
    proof {
        assert(s.take(8) =~= s);
        lemma_be_val_bound(s);
        lemma_pow256_8();
    }
    result
}

/// Decodes the instruction at `at`, or `None` when the opcode is
/// unknown or its operands run past the end of the buffer.
pub fn decode_instr(bytes: &Vec<u8>, at: usize) -> (r: Option<Instr>)
    ensures
        r == spec_decode(bytes@, at as int),
{
    let n = bytes.len();
    if at >= n {
        return None;
    }
    let op = bytes[at];
    let size: usize = if op == OP_NOP || op == OP_RET || op == OP_HLT {
        1
    } else if op == OP_JPR || op == OP_PUSH || op == OP_POP || op == OP_TX || op == OP_RX {
        2
    } else if op == OP_LDR || op == OP_STR || op == OP_LSL || op == OP_LSR {
        3
    } else if op == OP_ADD || op == OP_SUB {
        4
    } else if op == OP_JMP || op == OP_CALL {
        9
    } else if op == OP_SET || op == OP_LD || op == OP_STO {
        10
    } else if op == OP_JLT || op == OP_JLE || op == OP_JGT || op == OP_JGE || op == OP_JEQ
        || op == OP_JNE {
        11
    } else {
        return None;
    };
    if size > n || at > n - size {
        return None;
    }
    let r = if op == OP_NOP {
        Instr::Nop
    } else if op == OP_SET {
        Instr::SetReg { reg: bytes[at + 1], lit: be_u64_at(bytes, at + 2) }
    } else if op == OP_ADD {
        Instr::Add { dst: bytes[at + 1], a: bytes[at + 2], b: bytes[at + 3] }
    } else if op == OP_SUB {
        Instr::Sub { dst: bytes[at + 1], a: bytes[at + 2], b: bytes[at + 3] }
    } else if op == OP_LD {
        Instr::Ld { reg: bytes[at + 1], addr: be_u64_at(bytes, at + 2) }
    } else if op == OP_STO {
        Instr::Sto { reg: bytes[at + 1], addr: be_u64_at(bytes, at + 2) }
    } else if op == OP_LDR {
        Instr::Ldr { dst: bytes[at + 1], ptr: bytes[at + 2] }
    } else if op == OP_STR {
        Instr::Str { val: bytes[at + 1], ptr: bytes[at + 2] }
    } else if op == OP_LSL {
        Instr::Lsl { reg: bytes[at + 1], amount: bytes[at + 2] }
    } else if op == OP_LSR {
        Instr::Lsr { reg: bytes[at + 1], amount: bytes[at + 2] }
    } else if op == OP_JMP {
        Instr::Jmp { addr: be_u64_at(bytes, at + 1) }
    } else if op == OP_JLT {
        Instr::Jlt { a: bytes[at + 1], b: bytes[at + 2], addr: be_u64_at(bytes, at + 3) }
    } else if op == OP_JLE {
        Instr::Jle { a: bytes[at + 1], b: bytes[at + 2], addr: be_u64_at(bytes, at + 3) }
    } else if op == OP_JGT {
        Instr::Jgt { a: bytes[at + 1], b: bytes[at + 2], addr: be_u64_at(bytes, at + 3) }
    } else if op == OP_JGE {
        Instr::Jge { a: bytes[at + 1], b: bytes[at + 2], addr: be_u64_at(bytes, at + 3) }
    } else if op == OP_JEQ {
        Instr::Jeq { a: bytes[at + 1], b: bytes[at + 2], addr: be_u64_at(bytes, at + 3) }
    } else if op == OP_JNE {
        Instr::Jne { a: bytes[at + 1], b: bytes[at + 2], addr: be_u64_at(bytes, at + 3) }
    } else if op == OP_JPR {
        Instr::Jpr { ptr: bytes[at + 1] }
    } else if op == OP_PUSH {
        Instr::Push { reg: bytes[at + 1] }
    } else if op == OP_POP {
        Instr::Pop { reg: bytes[at + 1] }
    } else if op == OP_CALL {
        Instr::Call { addr: be_u64_at(bytes, at + 1) }
    } else if op == OP_RET {
        Instr::Ret
    } else if op == OP_TX {
        Instr::Tx { reg: bytes[at + 1] }
    } else if op == OP_RX {
        Instr::Rx { reg: bytes[at + 1] }
    } else {
        Instr::Hlt
    };
    Some(r)
}

} // verus!
