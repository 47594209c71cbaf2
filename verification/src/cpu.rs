//! The execution engine: the register file, program counter, status
//! register and memory, with the fetch-decode-execute step, the program
//! loader, and the driver loop that runs a loaded image until it halts.

use vstd::prelude::*;
use crate::VmError;
use crate::console::read_console_byte;
use crate::console::write_console_byte;
use crate::console::write_console_chars;
use crate::console::write_console_text;
use crate::isa::HALT_SENTINEL;
use crate::isa::KBSR;
use crate::isa::MachineView;
use crate::isa::add_effect;
use crate::isa::and_effect;
use crate::isa::br_effect;
use crate::isa::be_word;
use crate::isa::image_words;
use crate::isa::instr_effect;
use crate::isa::jmp_effect;
use crate::isa::jsr_effect;
use crate::isa::ld_effect;
use crate::isa::ldi_effect;
use crate::isa::ldr_effect;
use crate::isa::lea_effect;
use crate::isa::lemma_run_reaches_refl;
use crate::isa::lemma_run_reaches_step;
use crate::isa::run_reaches;
use crate::isa::mem_step;
use crate::isa::not_effect;
use crate::isa::puts_seq;
use crate::isa::putsp_seq;
use crate::isa::sign_ext;
use crate::isa::st_effect;
use crate::isa::sti_effect;
use crate::isa::store_seq;
use crate::isa::str_effect;
use crate::isa::tick_effect;
use crate::isa::trap_effect;
use crate::isa::wadd;
use crate::isa::with_flags;
use crate::memory::Memory;

verus! {

/// The machine: eight general registers, the program counter, the
/// processor status register (whose low three bits are the condition
/// codes), and the 64K-word memory.
pub struct CPU {
    pub registers: Vec<u16>,
    pub program_counter: u16,
    pub processor_status_register: u16,
    pub memory: Memory,
}

impl View for CPU {
    type V = MachineView;

    open spec fn view(&self) -> MachineView {
        MachineView {
            regs: self.registers@,
            pc: self.program_counter,
            psr: self.processor_status_register,
            mem: self.memory@,
        }
    }
}

impl CPU {
    /// Well-formedness: the register file has exactly eight registers and
    /// the memory covers the whole address space.
    pub open spec fn wf(&self) -> bool {
        self.registers@.len() == 8 && self.memory.wf()
    }

    /// A fresh machine: zeroed registers and memory, the PC at the
    /// conventional origin 0x3000, and the condition code Z, the sign of
    /// the zero the registers start with.
    pub fn new() -> (r: CPU)
        ensures
            r.wf(),
            r@.pc == 0x3000,
            r@.psr == 0x2,
            forall|i: int| 0 <= i < 8 ==> r@.regs[i] == 0,
            forall|a: int| 0 <= a < 0x10000 ==> r@.mem[a] == 0,
    {
        let registers: Vec<u16> = vec![0u16; 8];
        assert forall|i: int| 0 <= i < 8 implies registers@[i] == 0u16 by {
            assert(cloned(0u16, registers@[i]));
        }
        CPU {
            registers,
            program_counter: 0x3000,
            processor_status_register: 0x2,
            memory: Memory::new(),
        }
    }

    /// Widens the low `bit_count` bits of `bits` to a full word by
    /// replicating the field's sign bit; a field whose sign bit is clear
    /// comes back unchanged.
    pub fn sign_extension(&self, bits: u16, bit_count: usize) -> (r: u16)
        requires
            1 <= bit_count <= 15,
        ensures
            r == sign_ext(bits, bit_count as u16),
            (bits >> ((bit_count - 1) as u16)) & 1 == 0 ==> r == bits,
    {
        let n: u16 = bit_count as u16;
        if (bits >> (n - 1)) & 1 == 1 {
            bits | (0xFFFFu16 << n)
        } else {
            bits
        }
    }

    /// NOT: the destination register takes the bitwise complement of the
    /// source register, and the condition codes follow the result.
    pub fn not(&mut self, operation: u16)
        requires
            old(self).wf(),
        ensures
            final(self).wf(),
            not_effect(old(self)@, final(self)@, operation),
    {
        proof {
            assert((operation >> 9) & 0x7 < 8 && (operation >> 6) & 0x7 < 8) by (bit_vector);
        }
        let dst = ((operation >> 9) & 0x7) as usize;
        let src = ((operation >> 6) & 0x7) as usize;
        let result = !self.registers[src];
        self.registers[dst] = result;
        self.set_condition_codes(result);
    }

    /// ADD: the destination takes the first source plus either the second
    /// source register or the sign-extended imm5 field, modulo 2^16, and
    /// the condition codes follow the result.
    pub fn add(&mut self, operation: u16)
        requires
            old(self).wf(),
        ensures
            final(self).wf(),
            add_effect(old(self)@, final(self)@, operation),
    {
        proof {
            assert((operation >> 9) & 0x7 < 8 && (operation >> 6) & 0x7 < 8
                && operation & 0x7 < 8) by (bit_vector);
        }
        let dst = ((operation >> 9) & 0x7) as usize;
        let src1 = ((operation >> 6) & 0x7) as usize;
        let result: u16;
        if operation & 0x20 != 0 {
            let immediate = self.sign_extension(operation & 0x1F, 5);
            result = self.registers[src1].wrapping_add(immediate);
        } else {
            let src2 = (operation & 0x7) as usize;
            result = self.registers[src1].wrapping_add(self.registers[src2]);
        }
        self.registers[dst] = result;
        self.set_condition_codes(result);
    }

    /// AND: like ADD, with bitwise conjunction in place of addition.
    pub fn and(&mut self, operation: u16)
        requires
            old(self).wf(),
        ensures
            final(self).wf(),
            and_effect(old(self)@, final(self)@, operation),
    {
        proof {
            assert((operation >> 9) & 0x7 < 8 && (operation >> 6) & 0x7 < 8
                && operation & 0x7 < 8) by (bit_vector);
        }
        let dst = ((operation >> 9) & 0x7) as usize;
        let src1 = ((operation >> 6) & 0x7) as usize;
        let result: u16;
        if operation & 0x20 != 0 {
            let immediate = self.sign_extension(operation & 0x1F, 5);
            result = self.registers[src1] & immediate;
        } else {
            let src2 = (operation & 0x7) as usize;
            result = self.registers[src1] & self.registers[src2];
        }
        self.registers[dst] = result;
        self.set_condition_codes(result);
    }

    /// LD: a PC-relative load into the destination register; the loaded
    /// word sets the condition codes.
    pub fn load(&mut self, operation: u16)
        requires
            old(self).wf(),
        ensures
            final(self).wf(),
            ld_effect(old(self)@, final(self)@, operation),
    {
        proof {
            assert((operation >> 9) & 0x7 < 8) by (bit_vector);
        }
        let dst = ((operation >> 9) & 0x7) as usize;
        let offset = self.sign_extension(operation & 0x1FF, 9);
        let address = self.program_counter.wrapping_add(offset);
        let result = self.memory.read(address);
        self.registers[dst] = result;
        self.set_condition_codes(result);
    }

    /// LDI: an indirect load; the word found PC-relative names the address
    /// the destination register is loaded from.
    pub fn load_indirect(&mut self, operation: u16)
        requires
            old(self).wf(),
        ensures
            final(self).wf(),
            ldi_effect(old(self)@, final(self)@, operation),
    {
        proof {
            assert((operation >> 9) & 0x7 < 8) by (bit_vector);
        }
        let dst = ((operation >> 9) & 0x7) as usize;
        let offset = self.sign_extension(operation & 0x1FF, 9);
        let indirect_address = self.program_counter.wrapping_add(offset);
        let target = self.memory.read(indirect_address);
        let ghost m1 = self.memory@;
        let result = self.memory.read(target);
        self.registers[dst] = result;
        self.set_condition_codes(result);
        proof {
            let pre = old(self)@;
            let post = self@;
            let addr = wadd(pre.pc, crate::isa::off9(operation));
            assert(mem_step(pre.mem, m1, addr));
            assert(target == m1[addr as int]);
            assert(mem_step(m1, post.mem, target));
            assert(post.regs == pre.regs.update(crate::isa::reg9(operation) as int,
                post.mem[target as int]));
            assert(ldi_effect(pre, post, operation));
        }
    }

    /// LDR: a base-plus-offset load into the destination register; the
    /// loaded word sets the condition codes.
    pub fn load_offset(&mut self, operation: u16)
        requires
            old(self).wf(),
        ensures
            final(self).wf(),
            ldr_effect(old(self)@, final(self)@, operation),
    {
        proof {
            assert((operation >> 9) & 0x7 < 8 && (operation >> 6) & 0x7 < 8) by (bit_vector);
        }
        let dst = ((operation >> 9) & 0x7) as usize;
        let base = ((operation >> 6) & 0x7) as usize;
        let offset = self.sign_extension(operation & 0x3F, 6);
        let address = self.registers[base].wrapping_add(offset);
        let result = self.memory.read(address);
        self.registers[dst] = result;
        self.set_condition_codes(result);
    }

    /// LEA: the destination register takes the PC-relative effective
    /// address itself, and the condition codes follow that address.
    pub fn load_immediate(&mut self, operation: u16)
        requires
            old(self).wf(),
        ensures
            final(self).wf(),
            lea_effect(old(self)@, final(self)@, operation),
    {
        proof {
            assert((operation >> 9) & 0x7 < 8) by (bit_vector);
        }
        let dst = ((operation >> 9) & 0x7) as usize;
        let offset = self.sign_extension(operation & 0x1FF, 9);
        let address = self.program_counter.wrapping_add(offset);
        self.registers[dst] = address;
        self.set_condition_codes(address);
    }

    /// ST: the source register is stored at the PC-relative address; the
    /// condition codes are left alone.
    pub fn store(&mut self, operation: u16)
        requires
            old(self).wf(),
        ensures
            final(self).wf(),
            st_effect(old(self)@, final(self)@, operation),
    {
        proof {
            assert((operation >> 9) & 0x7 < 8) by (bit_vector);
        }
        let src = ((operation >> 9) & 0x7) as usize;
        let offset = self.sign_extension(operation & 0x1FF, 9);
        let address = self.program_counter.wrapping_add(offset);
        let value = self.registers[src];
        self.memory.write(address, value);
    }

    /// STI: the word found PC-relative names the address the source
    /// register is stored to; the condition codes are left alone.
    pub fn store_indirect(&mut self, operation: u16)
        requires
            old(self).wf(),
        ensures
            final(self).wf(),
            sti_effect(old(self)@, final(self)@, operation),
    {
        proof {
            assert((operation >> 9) & 0x7 < 8) by (bit_vector);
        }
        let src = ((operation >> 9) & 0x7) as usize;
        let offset = self.sign_extension(operation & 0x1FF, 9);
        let indirect_address = self.program_counter.wrapping_add(offset);
        let target = self.memory.read(indirect_address);
        let ghost m1 = self.memory@;
        let value = self.registers[src];
        self.memory.write(target, value);
        proof {
            let pre = old(self)@;
            let post = self@;
            let addr = wadd(pre.pc, crate::isa::off9(operation));
            assert(mem_step(pre.mem, m1, addr));
            assert(target == m1[addr as int]);
            assert(post.mem == m1.update(m1[addr as int] as int,
                pre.regs[crate::isa::reg9(operation) as int]));
            assert(sti_effect(pre, post, operation));
        }
    }

    /// STR: the source register is stored at base plus offset; the
    /// condition codes are left alone.
    pub fn store_offset(&mut self, operation: u16)
        requires
            old(self).wf(),
        ensures
            final(self).wf(),
            str_effect(old(self)@, final(self)@, operation),
    {
        proof {
            assert((operation >> 9) & 0x7 < 8 && (operation >> 6) & 0x7 < 8) by (bit_vector);
        }
        let src = ((operation >> 9) & 0x7) as usize;
        let base = ((operation >> 6) & 0x7) as usize;
        let offset = self.sign_extension(operation & 0x3F, 6);
        let address = self.registers[base].wrapping_add(offset);
        let value = self.registers[src];
        self.memory.write(address, value);
    }

    /// BR: the PC moves by the sign-extended offset exactly when the
    /// instruction's condition mask meets the current condition bits;
    /// otherwise the machine is left as it stood after the fetch.
    pub fn branch(&mut self, operation: u16)
        requires
            old(self).wf(),
        ensures
            final(self).wf(),
            br_effect(old(self)@, final(self)@, operation),
    {
        let mask = (operation >> 9) & 0x7;
        let offset = self.sign_extension(operation & 0x1FF, 9);
        let current = self.processor_status_register & 0x7;
        if mask & current > 0 {
            self.program_counter = self.program_counter.wrapping_add(offset);
        }
    }

    /// JMP: the PC takes the base register's value; RET is the special
    /// case whose base register is R7.
    pub fn jump(&mut self, operation: u16)
        requires
            old(self).wf(),
        ensures
            final(self).wf(),
            jmp_effect(old(self)@, final(self)@, operation),
    {
        proof {
            assert((operation >> 6) & 0x7 < 8) by (bit_vector);
        }
        let base = ((operation >> 6) & 0x7) as usize;
        self.program_counter = self.registers[base];
    }

    /// JSR/JSRR: R7 takes the return address (the PC as it stands after
    /// the fetch), then the PC moves by the sign-extended 11-bit offset or
    /// to the base register, which may be R7 itself.
    pub fn jump_register(&mut self, operation: u16)
        requires
            old(self).wf(),
        ensures
            final(self).wf(),
            jsr_effect(old(self)@, final(self)@, operation),
    {
        proof {
            assert((operation >> 6) & 0x7 < 8) by (bit_vector);
        }
        self.registers[7] = self.program_counter;
        if operation & 0x800 != 0 {
            let offset = self.sign_extension(operation & 0x7FF, 11);
            self.program_counter = self.program_counter.wrapping_add(offset);
        } else {
            let base = ((operation >> 6) & 0x7) as usize;
            self.program_counter = self.registers[base];
        }
    }

    /// Collects the bytes the PUTS trap prints: the low byte of each
    /// successive word from `start` up, until a zero word or the top of
    /// the address space stops the walk.
    pub fn string_bytes(&self, start: u16) -> (r: Vec<u8>)
        requires
            self.wf(),
        ensures
            r@ == puts_seq(self@.mem, start),
    {
        let mut bytes: Vec<u8> = Vec::new();
        let mut idx: u16 = start;
        while idx < 0xFFFF && self.memory.0[idx as usize] != 0
            invariant
                self.wf(),
                puts_seq(self@.mem, start) == bytes@ + puts_seq(self@.mem, idx),
            decreases 0xFFFF - idx,
        {
            let word = self.memory.0[idx as usize];
            bytes.push((word & 0xFF) as u8);
            proof {
                assert(puts_seq(self@.mem, idx) == seq![(word & 0xFF) as u8] + puts_seq(
                    self@.mem,
                    (idx + 1) as u16,
                ));
                assert(bytes@ + puts_seq(self@.mem, (idx + 1) as u16) == puts_seq(
                    self@.mem,
                    start,
                )) by {
                    assert(bytes@ =~= bytes@.subrange(0, bytes@.len() - 1) + seq![
                        (word & 0xFF) as u8,
                    ]);
                    assert(bytes@.subrange(0, bytes@.len() - 1) + (seq![(word & 0xFF) as u8]
                        + puts_seq(self@.mem, (idx + 1) as u16)) =~= bytes@ + puts_seq(
                        self@.mem,
                        (idx + 1) as u16,
                    ));
                }
            }
            idx = idx + 1;
        }
        proof {
            assert(puts_seq(self@.mem, idx) =~= Seq::<u8>::empty());
            assert(bytes@ + Seq::<u8>::empty() =~= bytes@);
        }
        bytes
    }

    /// Collects the bytes the PUTSP trap prints: each successive word from
    /// `start` up packs two characters, low byte first, the high byte only
    /// when nonzero; a zero word or the top of the address space stops the
    /// walk.
    pub fn packed_bytes(&self, start: u16) -> (r: Vec<u8>)
        requires
            self.wf(),
        ensures
            r@ == putsp_seq(self@.mem, start),
    {
        let mut bytes: Vec<u8> = Vec::new();
        let mut idx: u16 = start;
        while idx < 0xFFFF && self.memory.0[idx as usize] != 0
            invariant
                self.wf(),
                putsp_seq(self@.mem, start) == bytes@ + putsp_seq(self@.mem, idx),
            decreases 0xFFFF - idx,
        {
            let word = self.memory.0[idx as usize];
            let ghost pair = (if word >> 8 == 0 {
                seq![(word & 0xFF) as u8]
            } else {
                seq![(word & 0xFF) as u8, (word >> 8) as u8]
            });
            let ghost before = bytes@;
            bytes.push((word & 0xFF) as u8);
            if word >> 8 != 0 {
                bytes.push((word >> 8) as u8);
            }
            proof {
                assert(bytes@ =~= before + pair);
                assert(putsp_seq(self@.mem, idx) == pair + putsp_seq(self@.mem, (idx + 1) as u16));
                assert((before + pair) + putsp_seq(self@.mem, (idx + 1) as u16) =~= before + (pair
                    + putsp_seq(self@.mem, (idx + 1) as u16)));
            }
            idx = idx + 1;
        }
        proof {
            assert(putsp_seq(self@.mem, idx) =~= Seq::<u8>::empty());
            assert(bytes@ + Seq::<u8>::empty() =~= bytes@);
        }
        bytes
    }

    /// TRAP: dispatches on the 8-bit service vector.  GETC and IN latch
    /// one console byte into R0; OUT, PUTS and PUTSP write to the console
    /// and leave the machine as it stood; HALT parks the PC at the
    /// terminal sentinel; any other vector is the fatal unknown-vector
    /// error.  A failed console read or write surfaces as
    /// `ConsoleIOFailure`.
    pub fn trap(&mut self, operation: u16) -> (r: Result<(), VmError>)
        requires
            old(self).wf(),
        ensures
            final(self).wf(),
            trap_effect(old(self)@, final(self)@, operation, r),
    {
        let vector = operation & 0xFF;
        if vector == 0x20 {
            match read_console_byte() {
                Some(b) => {
                    self.registers[0] = b as u16;
                    proof {
                        assert(self@.regs == old(self)@.regs.update(0, b as u16));
                    }
                    Ok(())
                },
                None => Err(VmError::ConsoleIOFailure),
            }
        } else if vector == 0x21 {
            let b = (self.registers[0] & 0xFF) as u8;
            if write_console_byte(b) {
                Ok(())
            } else {
                Err(VmError::ConsoleIOFailure)
            }
        } else if vector == 0x22 {
            let start = self.registers[0];
            let bytes = self.string_bytes(start);
            if write_console_chars(&bytes) {
                Ok(())
            } else {
                Err(VmError::ConsoleIOFailure)
            }
        } else if vector == 0x23 {
            if !write_console_text("Please enter a character.") {
                return Err(VmError::ConsoleIOFailure);
            }
            match read_console_byte() {
                Some(b) => {
                    self.registers[0] = b as u16;
                    proof {
                        assert(self@.regs == old(self)@.regs.update(0, b as u16));
                    }
                    Ok(())
                },
                None => Err(VmError::ConsoleIOFailure),
            }
        } else if vector == 0x24 {
            let start = self.registers[0];
            let bytes = self.packed_bytes(start);
            if write_console_chars(&bytes) {
                Ok(())
            } else {
                Err(VmError::ConsoleIOFailure)
            }
        } else if vector == 0x25 {
            let _ = write_console_text("\nHALT\n");
            self.program_counter = HALT_SENTINEL;
            Ok(())
        } else {
            Err(VmError::UnknownTrapVector)
        }
    }

    /// One fetch-decode-execute step: reads the word under the PC (a
    /// device read, if the PC sits on the keyboard-status address), steps
    /// the PC past it, and executes the instruction.  Opcodes 0x8 and 0xD
    /// have no defined operation and fail as the reserved opcode.
    pub fn tick(&mut self) -> (r: Result<(), VmError>)
        requires
            old(self).wf(),
        ensures
            final(self).wf(),
            tick_effect(old(self)@, final(self)@, r),
            old(self).program_counter != KBSR ==> instr_effect(
                (MachineView {
                    regs: old(self)@.regs,
                    pc: wadd(old(self)@.pc, 1),
                    psr: old(self)@.psr,
                    mem: old(self)@.mem,
                }),
                final(self)@,
                old(self)@.mem[old(self)@.pc as int],
                r,
            ),
    {
        let curr_op = self.memory.read(self.program_counter);
        let ghost m1 = self.memory@;
        self.program_counter = self.program_counter.wrapping_add(1);
        let ghost pre1 = self@;
        let op_code = curr_op >> 12;
        let r: Result<(), VmError> = match op_code {
            0x9 => {
                self.not(curr_op);
                Ok(())
            },
            0x1 => {
                self.add(curr_op);
                Ok(())
            },
            0x5 => {
                self.and(curr_op);
                Ok(())
            },
            0x2 => {
                self.load(curr_op);
                Ok(())
            },
            0x3 => {
                self.store(curr_op);
                Ok(())
            },
            0xA => {
                self.load_indirect(curr_op);
                Ok(())
            },
            0xB => {
                self.store_indirect(curr_op);
                Ok(())
            },
            0x6 => {
                self.load_offset(curr_op);
                Ok(())
            },
            0x7 => {
                self.store_offset(curr_op);
                Ok(())
            },
            0xE => {
                self.load_immediate(curr_op);
                Ok(())
            },
            0x0 => {
                self.branch(curr_op);
                Ok(())
            },
            0xC => {
                self.jump(curr_op);
                Ok(())
            },
            0x4 => {
                self.jump_register(curr_op);
                Ok(())
            },
            0xF => self.trap(curr_op),
            _ => Err(VmError::ReservedOpcode),
        };
        proof {
            assert(mem_step(old(self)@.mem, m1, old(self)@.pc));
            assert(curr_op == m1[old(self)@.pc as int]);
            assert(instr_effect(pre1, self@, curr_op, r));
            assert(tick_effect(old(self)@, self@, r));
        }
        r
    }

    /// Parses a big-endian program image and stores it.  The first word is
    /// the origin: the PC is set to it and every following word is stored
    /// from the origin up, the store address wrapping at the top of the
    /// address space.  An image with an odd byte count, or too short to
    /// hold the origin word, is rejected as malformed before anything is
    /// written.
    pub fn load_image(&mut self, image: &Vec<u8>) -> (r: Result<u16, VmError>)
        requires
            old(self).wf(),
        ensures
            final(self).wf(),
            (r == Err::<u16, VmError>(VmError::ImageMalformed) <==> (image@.len() < 2
                || image@.len() % 2 != 0)),
            image@.len() >= 2 && image@.len() % 2 == 0 ==> r == Ok::<u16, VmError>(
                be_word(image@[0], image@[1]),
            ),
            r matches Err(_) ==> final(self)@ == old(self)@,
            r matches Ok(origin) ==> {
                &&& origin == be_word(image@[0], image@[1])
                &&& final(self)@.pc == origin
                &&& final(self)@.mem == store_seq(old(self)@.mem, origin, image_words(image@))
                &&& final(self)@.regs == old(self)@.regs
                &&& final(self)@.psr == old(self)@.psr
            },
    {
        if image.len() < 2 || image.len() % 2 != 0 {
            return Err(VmError::ImageMalformed);
        }
        let origin: u16 = (image[0] as u16) * 256 + (image[1] as u16);
        self.program_counter = origin;
        let ghost m0 = self.memory@;
        let ghost ws = image_words(image@);
        let mut addr: u16 = origin;
        let mut i: usize = 2;
        proof {
            assert(ws.subrange(0, ws.len() as int) =~= ws);
        }
        while i < image.len()
            invariant
                self.wf(),
                2 <= i <= image@.len(),
                i % 2 == 0,
                image@.len() % 2 == 0,
                image@.len() >= 2,
                ws == image_words(image@),
                ws.len() == image@.len() / 2 - 1,
                self@.regs == old(self)@.regs,
                self@.psr == old(self)@.psr,
                self@.pc == origin,
                store_seq(m0, origin, ws) == store_seq(
                    self@.mem,
                    addr,
                    ws.subrange((i - 2) as int / 2, ws.len() as int),
                ),
            decreases image@.len() - i,
        {
            let ghost k = (i - 2) as int / 2;
            let word: u16 = (image[i] as u16) * 256 + (image[i + 1] as u16);
            proof {
                let rest = ws.subrange(k, ws.len() as int);
                assert(rest.len() > 0);
                assert(rest[0] == ws[k]);
                assert(ws[k] == be_word(image@[2 * k + 2], image@[2 * k + 3]));
                assert(word == ws[k]);
                assert(rest.subrange(1, rest.len() as int) =~= ws.subrange(
                    k + 1,
                    ws.len() as int,
                ));
            }
            self.memory.write(addr, word);
            addr = addr.wrapping_add(1);
            i = i + 2;
        }
        proof {
            assert(ws.subrange(((image@.len() - 2) as int) / 2, ws.len() as int)
                =~= Seq::<u16>::empty());
        }
        Ok(origin)
    }

    /// Loads the image, then runs fetch-decode-execute steps until the
    /// HALT trap parks the PC at the terminal sentinel or a fatal
    /// condition ends the run.  On a well-formed image the machine first
    /// takes the loader's post-state — PC at the origin, the program words
    /// stored from it — and the final state is reached from there by
    /// successful steps, the last of which either parks the PC at the
    /// sentinel (`Ok`) or fails with the error returned.  The step count
    /// is bounded by the range of a 64-bit counter; every practical
    /// program halts or fails astronomically sooner.
    pub fn execute_program(&mut self, image: &Vec<u8>) -> (r: Result<(), VmError>)
        requires
            old(self).wf(),
        ensures
            final(self).wf(),
            (r == Err::<(), VmError>(VmError::ImageMalformed) <==> (image@.len() < 2
                || image@.len() % 2 != 0)),
            r == Err::<(), VmError>(VmError::ImageMalformed) ==> final(self)@ == old(self)@,
            r == Ok::<(), VmError>(()) ==> final(self)@.pc == HALT_SENTINEL,
            image@.len() >= 2 && image@.len() % 2 == 0 ==> ({
                let loaded = (MachineView {
                    regs: old(self)@.regs,
                    pc: be_word(image@[0], image@[1]),
                    psr: old(self)@.psr,
                    mem: store_seq(
                        old(self)@.mem,
                        be_word(image@[0], image@[1]),
                        image_words(image@),
                    ),
                });
                &&& (r == Ok::<(), VmError>(()) ==> run_reaches(loaded, final(self)@))
                &&& (r == Err::<(), VmError>(VmError::StepLimitReached) ==> run_reaches(
                    loaded,
                    final(self)@,
                ))
                &&& ((r matches Err(e) && e != VmError::StepLimitReached) ==> (exists|
                    s: MachineView,
                |
                    run_reaches(loaded, s) && s.pc < HALT_SENTINEL && #[trigger] tick_effect(
                        s,
                        final(self)@,
                        r,
                    )))
            }),
    {
        match self.load_image(image) {
            Ok(_) => {},
            Err(e) => {
                return Err(e);
            },
        }
        let ghost loaded = self@;
        proof {
            lemma_run_reaches_refl(loaded);
        }
        let mut steps: u64 = 0;
        while self.program_counter < 0xFFFF
            invariant
                self.wf(),
                image@.len() >= 2,
                image@.len() % 2 == 0,
                loaded == (MachineView {
                    regs: old(self)@.regs,
                    pc: be_word(image@[0], image@[1]),
                    psr: old(self)@.psr,
                    mem: store_seq(
                        old(self)@.mem,
                        be_word(image@[0], image@[1]),
                        image_words(image@),
                    ),
                }),
                run_reaches(loaded, self@),
            decreases u64::MAX - steps,
        {
            if steps == u64::MAX {
                return Err(VmError::StepLimitReached);
            }
            let ghost pre = self@;
            match self.tick() {
                Ok(()) => {
                    proof {
                        lemma_run_reaches_step(loaded, pre, self@);
                    }
                },
                Err(e) => {
                    proof {
                        assert(run_reaches(loaded, pre) && pre.pc < HALT_SENTINEL);
                        assert(tick_effect(pre, self@, Err::<(), VmError>(e)));
                        assert(e != VmError::ImageMalformed);
                        assert(e != VmError::StepLimitReached);
                    }
                    return Err(e);
                },
            }
            steps = steps + 1;
        }
        Ok(())
    }

    /// Replaces the condition codes with the sign class of `result`:
    /// N for a word with the high bit set, Z for zero, P otherwise.  The
    /// thirteen high bits of the status register are kept.
    pub fn set_condition_codes(&mut self, result: u16)
        requires
            old(self).wf(),
        ensures
            final(self).wf(),
            final(self).processor_status_register == with_flags(
                old(self).processor_status_register,
                result,
            ),
            final(self).registers == old(self).registers,
            final(self).program_counter == old(self).program_counter,
            final(self).memory == old(self).memory,
    {
        let cleared = self.processor_status_register & 0xFFF8;
        if result >> 15 == 1 {
            proof {
                assert(result >> 15 == 1 ==> result >= 0x8000) by (bit_vector);
            }
            self.processor_status_register = cleared | 0x4;
        } else if result == 0 {
            self.processor_status_register = cleared | 0x2;
        } else {
            proof {
                assert(result >> 15 != 1 ==> result < 0x8000) by (bit_vector);
            }
            self.processor_status_register = cleared | 0x1;
        }
    }
}

} // verus!
