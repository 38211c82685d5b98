use boron::isa::{Instr, encode_instr, decode_instr};
use boron::bytes::reverse_bytes;

fn round_trip(i: Instr) {
    let e = encode_instr(&i);
    let n = e.len();
    assert_eq!(decode_instr(&e, 0), Some(i));
    // decoding must consume exactly the encoded bytes
    assert_eq!(decode_instr(&e, n), None);
}

#[test]
fn encode_decode_round_trips() {
    round_trip(Instr::Nop);
    round_trip(Instr::SetReg { reg: 3, lit: 700 });
    round_trip(Instr::Add { dst: 2, a: 0, b: 1 });
    round_trip(Instr::Sub { dst: 14, a: 13, b: 12 });
    round_trip(Instr::Ld { reg: 1, addr: 0x0403_0201 });
    round_trip(Instr::Sto { reg: 9, addr: u64::MAX });
    round_trip(Instr::Ldr { dst: 4, ptr: 5 });
    round_trip(Instr::Str { val: 6, ptr: 7 });
    round_trip(Instr::Lsl { reg: 0, amount: 1 });
    round_trip(Instr::Lsr { reg: 1, amount: 0 });
    round_trip(Instr::Jmp { addr: 9 });
    round_trip(Instr::Jlt { a: 0, b: 1, addr: 42 });
    round_trip(Instr::Jle { a: 1, b: 2, addr: 43 });
    round_trip(Instr::Jgt { a: 2, b: 3, addr: 44 });
    round_trip(Instr::Jge { a: 3, b: 4, addr: 45 });
    round_trip(Instr::Jeq { a: 4, b: 5, addr: 46 });
    round_trip(Instr::Jne { a: 5, b: 6, addr: 47 });
    round_trip(Instr::Jpr { ptr: 8 });
    round_trip(Instr::Push { reg: 0 });
    round_trip(Instr::Pop { reg: 15 });
    round_trip(Instr::Call { addr: 18 });
    round_trip(Instr::Ret);
    round_trip(Instr::Tx { reg: 2 });
    round_trip(Instr::Rx { reg: 3 });
    round_trip(Instr::Hlt);
}

#[test]
fn encoding_layout_is_big_endian() {
    let e = encode_instr(&Instr::SetReg { reg: 5, lit: 0x0102030405060708 });
    assert_eq!(e, vec![0x01, 5, 1, 2, 3, 4, 5, 6, 7, 8]);
}

#[test]
fn decode_rejects_unknown_opcode() {
    assert_eq!(decode_instr(&vec![0x99], 0), None);
}

#[test]
fn decode_rejects_truncated_operands() {
    // a set instruction needs 10 bytes
    assert_eq!(decode_instr(&vec![0x01, 0, 0, 0], 0), None);
}

#[test]
fn reverse_bytes_is_big_endian() {
    assert_eq!(reverse_bytes(0x0102030405060708), vec![1, 2, 3, 4, 5, 6, 7, 8]);
    assert_eq!(reverse_bytes(5), vec![0, 0, 0, 0, 0, 0, 0, 5]);
    assert_eq!(reverse_bytes(u64::MAX), vec![255; 8]);
}
