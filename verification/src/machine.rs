//! Machine state: address space, register file, program counter, stack,
//! and the byte channels the transmit/receive instructions talk to.

use vstd::prelude::*;
use vstd::pervasive::VecAdditionalExecFns;
use crate::bytes::{be_val, pow256, lemma_be_val_bound};

verus! {

/// Bytes of addressable storage: a program region in low addresses and
/// general read/write data above it.
pub const MEM_SIZE: usize = 335544319;

/// Register-file slots; index 15 is not separate storage but an alias
/// of the program counter.
pub const NUM_REGISTERS: usize = 16;

/// The machine: a flat byte address space, 64-bit registers, a 32-bit
/// program counter, a last-in-first-out value stack, and the buffered
/// input/output byte channels of the receive and transmit instructions.
pub struct VirtualMachine {
    pub memory: Vec<u8>,
    pub registers: Vec<u64>,
    pub pc: u32,
    pub stack: Vec<u64>,
    /// Bytes the receive instruction has yet to consume sit at
    /// `input[input_pos..]`.
    pub input: Vec<u8>,
    pub input_pos: usize,
    /// Bytes the transmit instruction has emitted, oldest first.
    pub output: Vec<u8>,
}

/// The mathematical value of a machine.
#[verifier::ext_equal]
pub ghost struct VmState {
    pub mem: Seq<u8>,
    pub regs: Seq<u64>,
    pub pc: u32,
    pub stack: Seq<u64>,
    pub input: Seq<u8>,
    pub in_pos: int,
    pub output: Seq<u8>,
}

impl View for VirtualMachine {
    type V = VmState;

    open spec fn view(&self) -> VmState {
        VmState {
            mem: self.memory@,
            regs: self.registers@,
            pc: self.pc,
            stack: self.stack@,
            input: self.input@,
            in_pos: self.input_pos as int,
            output: self.output@,
        }
    }
}

impl VmState {
    /// Shape every machine keeps: full address space, 16 register slots,
    /// and an input cursor inside the input buffer.
    pub open spec fn wf(self) -> bool {
        &&& self.mem.len() == MEM_SIZE
        &&& self.regs.len() == NUM_REGISTERS
        &&& 0 <= self.in_pos <= self.input.len()
    }
}

/// The state after storing `value` in register `register`: slots 0-14
/// are the register file, slot 15 is the program counter, which keeps
/// only the low 32 bits of the value.
pub open spec fn write_reg(s: VmState, register: u8, value: u64) -> VmState {
    if register < 15 {
        VmState { regs: s.regs.update(register as int, value), ..s }
    } else {
        VmState { pc: value as u32, ..s }
    }
}

/// The value read from register `register`: slots 0-14 are the register
/// file, slot 15 yields the program counter widened to 64 bits.
pub open spec fn read_reg(s: VmState, register: u8) -> u64 {
    if register < 15 {
        s.regs[register as int]
    } else {
        s.pc as u64
    }
}

/// A fresh machine: zeroed storage and registers, program counter 0,
/// empty stack and empty channels.
pub fn initialize() -> (r: VirtualMachine)
    ensures
        r@.wf(),
        r@.mem =~= Seq::new(MEM_SIZE as nat, |i: int| 0u8),
        r@.regs =~= Seq::new(NUM_REGISTERS as nat, |i: int| 0u64),
        r@.pc == 0,
        r@.stack =~= Seq::<u64>::empty(),
        r@.input =~= Seq::<u8>::empty(),
        r@.in_pos == 0,
        r@.output =~= Seq::<u8>::empty(),
{
    VirtualMachine {
        memory: vec![0u8; MEM_SIZE],
        registers: vec![0u64; NUM_REGISTERS],
        pc: 0,
        stack: Vec::new(),
        input: Vec::new(),
        input_pos: 0,
        output: Vec::new(),
    }
}

impl VirtualMachine {
    /// Copies a program image over the start of the address space.
    pub fn load_program(&mut self, program: Vec<u8>)
        requires
            program.len() <= old(self)@.mem.len(),
        ensures
            final(self)@ == (VmState {
                mem: program@ + old(self)@.mem.skip(program.len() as int),
                ..old(self)@
            }),
    {
        let ghost m0 = self.memory@;
        let n = program.len();
        let mut i: usize = 0;
        while i < n
            invariant
                n == program.len() <= self.memory.len(),
                i <= n,
                self.memory@.len() == m0.len(),
                self.memory@ =~= program@.take(i as int) + m0.skip(i as int),
                self.registers == old(self).registers,
                self.pc == old(self).pc,
                self.stack == old(self).stack,
                self.input == old(self).input,
                self.input_pos == old(self).input_pos,
                self.output == old(self).output,
            decreases n - i,
        {
            self.memory.set(i, program[i]);
            proof {
                let l = self.memory@;
                let r = program@.take(i + 1) + m0.skip(i + 1);
                assert(l.len() == r.len());
                assert forall|j: int| 0 <= j < l.len() implies l[j] == r[j] by {
                    if j < i {
                    } else if j == i {
                    } else {
                    }
                }
                assert(l =~= r);
            }
            i += 1;
        }
        proof {
            assert(m0 == old(self)@.mem);
        }
        assert(program@.take(n as int) =~= program@);
        assert(final(self)@ =~= (VmState {
            mem: program@ + old(self)@.mem.skip(program.len() as int),
            ..old(self)@
        }));
    }

    /// The byte stored at an absolute address.
    pub fn get(&mut self, pointer: u32) -> (r: u8)
        requires
            pointer < old(self)@.mem.len(),
        ensures
            r == old(self)@.mem[pointer as int],
            final(self)@ == old(self)@,
    {
        self.memory[pointer as usize]
    }

    /// Stores a byte at an absolute address.
    pub fn store(&mut self, value: u8, pointer: u32)
        requires
            pointer < old(self)@.mem.len(),
        ensures
            final(self)@ == (VmState {
                mem: old(self)@.mem.update(pointer as int, value),
                ..old(self)@
            }),
    {
        self.memory.set(pointer as usize, value);
    }

    /// The byte at the address held in a register-file slot.
    pub fn get_register(&mut self, register: u8) -> (r: u8)
        requires
            register < old(self)@.regs.len(),
            old(self)@.regs[register as int] < old(self)@.mem.len(),
        ensures
            r == old(self)@.mem[old(self)@.regs[register as int] as int],
            final(self)@ == old(self)@,
    {
        let memlen: usize = self.memory.len();
        let p: u64 = self.registers[register as usize];
        assert(p < memlen);
        let pointer: usize = p as usize;
        self.memory[pointer]
    }

    /// Stores a byte at the address held in a register-file slot.
    pub fn store_register(&mut self, value: u8, register: u8)
        requires
            register < old(self)@.regs.len(),
            old(self)@.regs[register as int] < old(self)@.mem.len(),
        ensures
            final(self)@ == (VmState {
                mem: old(self)@.mem.update(
                    old(self)@.regs[register as int] as int,
                    value,
                ),
                ..old(self)@
            }),
    {
        let memlen: usize = self.memory.len();
        let p: u64 = self.registers[register as usize];
        assert(p < memlen);
        let pointer: usize = p as usize;
        self.memory.set(pointer, value);
    }

    /// Writes a register: indices 0-14 are register-file slots; index 15
    /// sets the program counter, truncating the value to 32 bits.
    pub fn to_register(&mut self, value: u64, register: u8)
        requires
            register < NUM_REGISTERS,
            old(self)@.regs.len() == NUM_REGISTERS,
        ensures
            final(self)@ == write_reg(old(self)@, register, value),
    {
        if register < 15 {
            self.registers.set(register as usize, value);
        } else {
            self.pc = value as u32;
        }
    }

    /// Reads a register: indices 0-14 are register-file slots; index 15
    /// yields the program counter widened to 64 bits.
    pub fn from_register(&mut self, register: u8) -> (r: u64)
        requires
            register < NUM_REGISTERS,
            old(self)@.regs.len() == NUM_REGISTERS,
        ensures
            r == read_reg(old(self)@, register),
            final(self)@ == old(self)@,
    {
        if register < 15 {
            self.registers[register as usize]
        } else {
            self.pc as u64
        }
    }

    /// The byte at the program counter; the program counter advances past it.
    pub fn next(&mut self) -> (r: u8)
        requires
            old(self)@.pc < old(self)@.mem.len(),
            old(self)@.mem.len() <= u32::MAX,
        ensures
            r == old(self)@.mem[old(self)@.pc as int],
            final(self)@ == (VmState { pc: (old(self)@.pc + 1) as u32, ..old(self)@ }),
    {
        let value = self.memory[self.pc as usize];
        self.inc(1);
        value
    }

    /// The byte at the program counter, without advancing.
    pub fn peek(&mut self) -> (r: u8)
        requires
            old(self)@.pc < old(self)@.mem.len(),
        ensures
            r == old(self)@.mem[old(self)@.pc as int],
            final(self)@ == old(self)@,
    {
        let value = self.memory[self.pc as usize];
        value
    }

    /// Advances the program counter.
    pub fn inc(&mut self, increment: u32)
        requires
            old(self)@.pc + increment <= u32::MAX,
        ensures
            final(self)@ == (VmState {
                pc: (old(self)@.pc + increment) as u32,
                ..old(self)@
            }),
    {
        self.pc += increment;
    }

    /// Sets the program counter.
    pub fn set_pc(&mut self, new_pc: u32)
        ensures
            final(self)@ == (VmState { pc: new_pc, ..old(self)@ }),
    {
        self.pc = new_pc;
    }

    /// Reads 4 bytes at the program counter as one big-endian 32-bit
    /// value, advancing the program counter past them.
    pub fn get_u32(&mut self) -> (r: u32)
        requires
            old(self)@.pc + 4 <= old(self)@.mem.len(),
            old(self)@.mem.len() <= u32::MAX,
        ensures
            r as nat == be_val(old(self)@.mem.subrange(
                old(self)@.pc as int,
                old(self)@.pc + 4,
            )),
            final(self)@ == (VmState { pc: (old(self)@.pc + 4) as u32, ..old(self)@ }),
    {
        let ghost s = old(self)@.mem.subrange(old(self)@.pc as int, old(self)@.pc + 4);
        let mut result: u32 = 0;
        let mut i: u32 = 0;
        while i < 4
            invariant
                i <= 4,
                self@.mem.len() <= u32::MAX,
                old(self)@.pc + 4 <= self@.mem.len(),
                self@ == (VmState { pc: (old(self)@.pc + i) as u32, ..old(self)@ }),
                s == old(self)@.mem.subrange(old(self)@.pc as int, old(self)@.pc + 4),
                result as nat == be_val(s.take(i as int)),
            decreases 4 - i,
        {
            proof {
                lemma_be_val_bound(s.take(i as int));
                reveal_with_fuel(pow256, 5);
                assert(s.take(i + 1).drop_last() =~= s.take(i as int));
                assert(s.take(i + 1).last() == self@.mem[self@.pc as int]);
            }
            let b = self.next();
            result = result * 256 + b as u32;
            i += 1;
        }
        proof {
            assert(s.take(4) =~= s);
        }
        result
    }

    /// Reads 8 bytes at the program counter as one big-endian 64-bit
    /// value, advancing the program counter past them.
    pub fn get_u64(&mut self) -> (r: u64)
        requires
            old(self)@.pc + 8 <= old(self)@.mem.len(),
            old(self)@.mem.len() <= u32::MAX,
        ensures
            r as nat == be_val(old(self)@.mem.subrange(
                old(self)@.pc as int,
                old(self)@.pc + 8,
            )),
            final(self)@ == (VmState { pc: (old(self)@.pc + 8) as u32, ..old(self)@ }),
    {
        let ghost s = old(self)@.mem.subrange(old(self)@.pc as int, old(self)@.pc + 8);
        let mut result: u64 = 0;
        let mut i: u32 = 0;
        while i < 8
            invariant
                i <= 8,
                self@.mem.len() <= u32::MAX,
                old(self)@.pc + 8 <= self@.mem.len(),
                self@ == (VmState { pc: (old(self)@.pc + i) as u32, ..old(self)@ }),
                s == old(self)@.mem.subrange(old(self)@.pc as int, old(self)@.pc + 8),
                result as nat == be_val(s.take(i as int)),
            decreases 8 - i,
        {
            proof {
                lemma_be_val_bound(s.take(i as int));
                reveal_with_fuel(pow256, 9);
                assert(s.take(i + 1).drop_last() =~= s.take(i as int));
                assert(s.take(i + 1).last() == self@.mem[self@.pc as int]);
            }
            let b = self.next();
            result = result * 256 + b as u64;
            i += 1;
        }
        proof {
            assert(s.take(8) =~= s);
        }
        result
    }

    /// Pushes a value onto the stack.
    pub fn push(&mut self, value: u64)
        ensures
            final(self)@ == (VmState { stack: old(self)@.stack.push(value), ..old(self)@ }),
    {
        self.stack.push(value);
    }

    /// Pops the most recently pushed value off the stack.
    pub fn pop(&mut self) -> (r: u64)
        requires
            old(self)@.stack.len() > 0,
        ensures
            r == old(self)@.stack.last(),
            final(self)@ == (VmState { stack: old(self)@.stack.drop_last(), ..old(self)@ }),
    {
        self.stack.pop().unwrap()
    }
}

/// Writing a 32-bit-representable value through register index 15 is
/// observable as the program counter, and reading index 15 back yields
/// exactly that value; larger values keep only their low 32 bits.
pub proof fn lemma_register_15_aliases_pc(s: VmState, value: u64)
    ensures
        write_reg(s, 15, value).pc == value as u32,
        read_reg(write_reg(s, 15, value), 15) == (value as u32) as u64,
        value <= u32::MAX ==> read_reg(write_reg(s, 15, value), 15) == value,
        read_reg(s, 15) == s.pc as u64,
        write_reg(s, 15, read_reg(s, 15)) == s,
{
    assert(write_reg(s, 15, read_reg(s, 15)) == s);
}

} // verus!
