use boron::machine::{initialize, MEM_SIZE, NUM_REGISTERS};
use boron::engine::{Status, FaultKind};

#[test]
fn initialize_shape() {
    let mut vm = initialize();
    assert_eq!(vm.memory.len(), MEM_SIZE);
    assert_eq!(vm.registers.len(), NUM_REGISTERS);
    assert_eq!(vm.pc, 0);
    assert!(vm.stack.is_empty());
    assert_eq!(vm.get(0), 0);
    assert_eq!(vm.get((MEM_SIZE - 1) as u32), 0);
}

#[test]
fn store_and_get() {
    let mut vm = initialize();
    vm.store(0xAB, 12345);
    assert_eq!(vm.get(12345), 0xAB);
    assert_eq!(vm.get(12344), 0);
}

#[test]
fn load_program_overwrites_prefix() {
    let mut vm = initialize();
    vm.store(7, 4);
    vm.load_program(vec![1, 2, 3]);
    assert_eq!(vm.get(0), 1);
    assert_eq!(vm.get(1), 2);
    assert_eq!(vm.get(2), 3);
    assert_eq!(vm.get(4), 7);
}

#[test]
fn register_file_and_pc_alias() {
    let mut vm = initialize();
    vm.to_register(99, 3);
    assert_eq!(vm.from_register(3), 99);
    assert_eq!(vm.registers[3], 99);
    vm.to_register(123, 15);
    assert_eq!(vm.pc, 123);
    assert_eq!(vm.from_register(15), 123);
    vm.set_pc(77);
    assert_eq!(vm.from_register(15), 77);
}

#[test]
fn register_15_write_truncates_to_32_bits() {
    let mut vm = initialize();
    vm.to_register(0x1_0000_0000u64 + 5, 15);
    assert_eq!(vm.pc, 5);
    assert_eq!(vm.from_register(15), 5);
}

#[test]
fn next_peek_inc() {
    let mut vm = initialize();
    vm.load_program(vec![10, 20, 30]);
    assert_eq!(vm.peek(), 10);
    assert_eq!(vm.next(), 10);
    assert_eq!(vm.peek(), 20);
    assert_eq!(vm.next(), 20);
    vm.inc(1);
    assert_eq!(vm.pc, 3);
}

#[test]
fn get_u64_is_big_endian() {
    let mut vm = initialize();
    vm.load_program(vec![1, 2, 3, 4, 5, 6, 7, 8]);
    assert_eq!(vm.get_u64(), 0x0102030405060708);
    assert_eq!(vm.pc, 8);
}

#[test]
fn get_u32_is_big_endian() {
    let mut vm = initialize();
    vm.load_program(vec![0xDE, 0xAD, 0xBE, 0xEF]);
    assert_eq!(vm.get_u32(), 0xDEADBEEF);
    assert_eq!(vm.pc, 4);
}

#[test]
fn push_pop_round_trip() {
    let mut vm = initialize();
    vm.push(41);
    vm.push(42);
    assert_eq!(vm.pop(), 42);
    assert_eq!(vm.pop(), 41);
    assert!(vm.stack.is_empty());
}

#[test]
fn step_unknown_opcode_faults() {
    let mut vm = initialize();
    vm.load_program(vec![0x99]);
    let st = vm.step();
    match st {
        Status::Faulted(f) => {
            assert_eq!(f.kind, FaultKind::UnknownOpcode);
            assert_eq!(f.at, 0);
            assert_eq!(f.opcode, 0x99);
        },
        _ => panic!("expected a fault"),
    }
}

#[test]
fn step_register_out_of_range_faults() {
    let mut vm = initialize();
    // push with a register operand byte past the register file
    vm.load_program(vec![0x51, 0x20]);
    let st = vm.step();
    match st {
        Status::Faulted(f) => {
            assert_eq!(f.kind, FaultKind::RegisterOutOfRange);
            assert_eq!(f.at, 0);
            assert_eq!(f.opcode, 0x51);
        },
        _ => panic!("expected a fault"),
    }
    assert_eq!(vm.pc, 0);
}
