use boron::assembler::assemble;
use boron::machine::initialize;
use boron::engine::{Status, FaultKind};

fn run(lines: Vec<&str>) -> (boron::machine::VirtualMachine, Status) {
    let code = assemble(lines).unwrap();
    let mut vm = initialize();
    vm.load_program(code);
    let st = vm.interpret(100000);
    (vm, st)
}

#[test]
fn add_and_transmit() {
    let (vm, st) = run(vec!["set r0 5", "set r1 3", "add r2 r0 r1", "tx r2", "halt"]);
    assert_eq!(st, Status::Halted);
    assert_eq!(vm.output, vec![8]);
    assert_eq!(vm.registers[2], 8);
}

#[test]
fn entry_slot_defaults_to_noop_fallthrough() {
    // with no entry directive the 9 zero bytes run as no-ops and
    // execution falls through into the first real instruction
    let (vm, st) = run(vec!["set r0 9", "halt"]);
    assert_eq!(st, Status::Halted);
    assert_eq!(vm.registers[0], 9);
}

#[test]
fn entry_directive_jumps_over_earlier_code() {
    // the entry jump targets the buffer length at the directive, so
    // the instruction before it never runs
    let (vm, st) = run(vec!["set r0 9", "start", "tx r0", "halt"]);
    assert_eq!(st, Status::Halted);
    assert_eq!(vm.registers[0], 0);
    assert_eq!(vm.output, vec![0]);
}

#[test]
fn call_and_return_round_trip() {
    // jump over the function body so the call runs first; the return
    // then lands just after the call's operand
    let (vm, st) = run(vec!["jmp 29", "name f", "set r0 1", "return", "call f", "halt"]);
    assert_eq!(st, Status::Halted);
    assert_eq!(vm.registers[0], 1);
    assert!(vm.stack.is_empty());
}

#[test]
fn fallthrough_into_function_body_underflows_on_return() {
    // with no entry directive, execution falls through into the
    // function body first, and its return finds an empty stack
    let (vm, st) = run(vec!["name foo", "set r0 1", "return", "call foo", "halt"]);
    assert_eq!(vm.registers[0], 1);
    match st {
        Status::Faulted(f) => {
            assert_eq!(f.kind, FaultKind::StackUnderflow);
            assert_eq!(f.at, 19);
            assert_eq!(f.opcode, 0x62);
        },
        _ => panic!("expected a stack underflow fault"),
    }
}

#[test]
fn push_then_pop_yields_pushed_value() {
    let (vm, st) = run(vec!["set r0 42", "push r0", "pop r1", "halt"]);
    assert_eq!(st, Status::Halted);
    assert_eq!(vm.registers[1], 42);
    assert!(vm.stack.is_empty());
}

#[test]
fn pop_on_empty_stack_faults() {
    let (vm, st) = run(vec!["pop r0"]);
    match st {
        Status::Faulted(f) => {
            assert_eq!(f.kind, FaultKind::StackUnderflow);
            assert_eq!(f.at, 9);
            assert_eq!(f.opcode, 0x52);
        },
        _ => panic!("expected a stack underflow fault"),
    }
    assert_eq!(vm.registers[0], 0);
}

#[test]
fn jeq_taken_only_on_equal_values() {
    let (vm, st) = run(vec!["set r0 5", "set r1 5", "jeq r0 r1 50", "set r2 1", "halt"]);
    assert_eq!(st, Status::Halted);
    assert_eq!(vm.registers[2], 0);
    let (vm2, st2) = run(vec!["set r0 5", "set r1 6", "jeq r0 r1 50", "set r2 1", "halt"]);
    assert_eq!(st2, Status::Halted);
    assert_eq!(vm2.registers[2], 1);
}

#[test]
fn jlt_uses_unsigned_comparison() {
    // 2^63 would be negative under a signed reading; unsigned it is
    // larger than 1, so the branch must fall through
    let (vm, st) = run(vec![
        "set r0 9223372036854775808",
        "set r1 1",
        "jlt r0 r1 50",
        "set r2 1",
        "halt",
    ]);
    assert_eq!(st, Status::Halted);
    assert_eq!(vm.registers[2], 1);
    let (vm2, st2) = run(vec![
        "set r0 1",
        "set r1 9223372036854775808",
        "jlt r0 r1 50",
        "set r2 1",
        "halt",
    ]);
    assert_eq!(st2, Status::Halted);
    assert_eq!(vm2.registers[2], 0);
}

#[test]
fn jgt_uses_unsigned_comparison() {
    let (vm, st) = run(vec![
        "set r0 9223372036854775808",
        "set r1 1",
        "jgt r0 r1 50",
        "set r2 1",
        "halt",
    ]);
    assert_eq!(st, Status::Halted);
    assert_eq!(vm.registers[2], 0);
}

#[test]
fn reading_register_15_observes_pc() {
    // the push sits at 19 with its operand at 20, so the pushed
    // program counter is 21
    let (vm, st) = run(vec!["set r1 30", "push r15", "pop r0", "halt"]);
    assert_eq!(st, Status::Halted);
    assert_eq!(vm.registers[0], 21);
}

#[test]
fn add_wraps_on_overflow() {
    let (vm, st) = run(vec![
        "set r0 18446744073709551615",
        "set r1 1",
        "add r2 r0 r1",
        "halt",
    ]);
    assert_eq!(st, Status::Halted);
    assert_eq!(vm.registers[2], 0);
}

#[test]
fn sub_wraps_on_underflow() {
    let (vm, st) = run(vec!["set r0 0", "set r1 1", "sub r2 r0 r1", "halt"]);
    assert_eq!(st, Status::Halted);
    assert_eq!(vm.registers[2], u64::MAX);
}

#[test]
fn logical_shifts() {
    let (vm, st) = run(vec!["set r0 1", "set r1 3", "lsl r0 r1", "halt"]);
    assert_eq!(st, Status::Halted);
    assert_eq!(vm.registers[0], 8);
    let (vm2, st2) = run(vec!["set r0 80", "set r1 4", "lsr r0 r1", "halt"]);
    assert_eq!(st2, Status::Halted);
    assert_eq!(vm2.registers[0], 5);
}

#[test]
fn store_and_load_through_memory() {
    let (vm, st) = run(vec!["set r0 333", "sto r0 100000", "ld r1 100000", "halt"]);
    assert_eq!(st, Status::Halted);
    // sto keeps only the low byte of the register
    assert_eq!(vm.registers[1], 333 % 256);
    assert_eq!(vm.memory[100000], (333 % 256) as u8);
}

#[test]
fn store_and_load_through_pointer_registers() {
    let (vm, st) = run(vec![
        "set r0 77",
        "set r1 200000",
        "str r0 r1",
        "ldr r2 r1",
        "halt",
    ]);
    assert_eq!(st, Status::Halted);
    assert_eq!(vm.registers[2], 77);
}

#[test]
fn jpr_jumps_to_register_value() {
    let (vm, st) = run(vec!["set r0 32", "jpr r0", "set r2 9", "halt"]);
    assert_eq!(st, Status::Halted);
    assert_eq!(vm.registers[2], 0);
}

#[test]
fn receive_reads_input_channel() {
    let code = assemble(vec!["rx r3", "tx r3", "halt"]).unwrap();
    let mut vm = initialize();
    vm.load_program(code);
    vm.input = vec![7];
    let st = vm.interpret(100000);
    assert_eq!(st, Status::Halted);
    assert_eq!(vm.registers[3], 7);
    assert_eq!(vm.output, vec![7]);
}

#[test]
fn receive_on_exhausted_input_faults() {
    let (_, st) = run(vec!["rx r3"]);
    match st {
        Status::Faulted(f) => {
            assert_eq!(f.kind, FaultKind::InputExhausted);
            assert_eq!(f.at, 9);
            assert_eq!(f.opcode, 0xA2);
        },
        _ => panic!("expected an input fault"),
    }
}

#[test]
fn out_of_budget_run_reports_running() {
    let code = assemble(vec!["jmp 9"]).unwrap();
    let mut vm = initialize();
    vm.load_program(code);
    let st = vm.interpret(50);
    assert_eq!(st, Status::Running);
}
