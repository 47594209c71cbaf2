//! The mathematical model of the instruction set: instruction field
//! extraction, 16-bit wraparound arithmetic, sign extension, condition
//! codes, and the effect of each instruction on a machine snapshot.

use vstd::prelude::*;

verus! {

/// The keyboard-status device register address.
pub const KBSR: u16 = 0xFE00;
/// The keyboard-data device register address.
pub const KBDR: u16 = 0xFE02;
/// The program counter value that means "halted".
pub const HALT_SENTINEL: u16 = 0xFFFF;

/// A ghost snapshot of the whole machine: register file, program counter,
/// status register and memory contents.
pub struct MachineView {
    pub regs: Seq<u16>,
    pub pc: u16,
    pub psr: u16,
    pub mem: Seq<u16>,
}

/// Addition modulo 2^16, the only arithmetic the machine performs.
pub open spec fn wadd(a: u16, b: u16) -> u16 {
    if a + b > 0xFFFF {
        (a + b - 0x10000) as u16
    } else {
        (a + b) as u16
    }
}

/// Widens the low `n` bits of `bits` to 16 bits by replicating bit `n - 1`
/// into all higher positions when it is set, and leaving `bits` unchanged
/// when it is clear.
pub open spec fn sign_ext(bits: u16, n: u16) -> u16
    recommends
        1 <= n <= 15,
{
    if (bits >> ((n - 1) as u16)) & 1 == 1 {
        bits | (0xFFFFu16 << n)
    } else {
        bits
    }
}

/// The condition-code bit set by a result: N (100) for a negative value,
/// Z (010) for zero, P (001) for a positive value.  Exactly one is set.
pub open spec fn cond_flags(result: u16) -> u16 {
    if result >= 0x8000 {
        4
    } else if result == 0 {
        2
    } else {
        1
    }
}

/// The status register after a result-producing instruction: the low three
/// bits are replaced by the result's condition code, the high thirteen bits
/// are kept.
pub open spec fn with_flags(psr: u16, result: u16) -> u16 {
    (psr & 0xFFF8) | cond_flags(result)
}

/// The 4-bit opcode, bits 15-12.
pub open spec fn opcode(op: u16) -> u16 {
    op >> 12
}

/// The destination (or, for stores and BR, source/mask) field, bits 11-9.
pub open spec fn reg9(op: u16) -> u16 {
    (op >> 9) & 0x7
}

/// The first source / base register field, bits 8-6.
pub open spec fn reg6(op: u16) -> u16 {
    (op >> 6) & 0x7
}

/// The second source register field, bits 2-0.
pub open spec fn reg0(op: u16) -> u16 {
    op & 0x7
}

/// True when ADD/AND take their second operand from the imm5 field.
pub open spec fn imm_mode(op: u16) -> bool {
    op & 0x20 != 0
}

/// True when JSR is PC-relative; false for the JSRR register form.
pub open spec fn jsr_relative(op: u16) -> bool {
    op & 0x800 != 0
}

/// The sign-extended 5-bit immediate operand.
pub open spec fn imm5(op: u16) -> u16 {
    sign_ext(op & 0x1F, 5)
}

/// The sign-extended 6-bit base-register offset.
pub open spec fn off6(op: u16) -> u16 {
    sign_ext(op & 0x3F, 6)
}

/// The sign-extended 9-bit PC-relative offset.
pub open spec fn off9(op: u16) -> u16 {
    sign_ext(op & 0x1FF, 9)
}

/// The sign-extended 11-bit JSR offset.
pub open spec fn off11(op: u16) -> u16 {
    sign_ext(op & 0x7FF, 11)
}

/// The 8-bit trap service vector.
pub open spec fn trap_vector(op: u16) -> u16 {
    op & 0xFF
}

/// The 16-bit word read big-endian from two bytes.
pub open spec fn be_word(hi: u8, lo: u8) -> u16 {
    (hi * 256 + lo) as u16
}

/// The program words of an image: every big-endian word after the origin
/// word.
pub open spec fn image_words(bytes: Seq<u8>) -> Seq<u16>
    recommends
        bytes.len() % 2 == 0,
        bytes.len() >= 2,
{
    Seq::new((bytes.len() / 2 - 1) as nat, |i: int| be_word(bytes[2 * i + 2], bytes[2 * i + 3]))
}

/// Memory after the words `ws` are stored one by one from `addr` up, the
/// store address wrapping at the top of the address space; a later word
/// wins over an earlier one stored at the same address.
pub open spec fn store_seq(mem: Seq<u16>, addr: u16, ws: Seq<u16>) -> Seq<u16>
    decreases ws.len(),
{
    if ws.len() == 0 {
        mem
    } else {
        store_seq(mem.update(addr as int, ws[0]), wadd(addr, 1), ws.subrange(1, ws.len() as int))
    }
}

/// The bytes the PUTS trap prints: the low byte of each successive word
/// from `idx` up, until a zero word or the top of the address space stops
/// the walk.
pub open spec fn puts_seq(mem: Seq<u16>, idx: u16) -> Seq<u8>
    decreases 0xFFFF - idx,
{
    if idx >= 0xFFFF || mem[idx as int] == 0 {
        Seq::empty()
    } else {
        seq![(mem[idx as int] & 0xFF) as u8] + puts_seq(mem, (idx + 1) as u16)
    }
}

/// The bytes the PUTSP trap prints: each successive word from `idx` up
/// packs two characters, low byte first, the high byte only when nonzero;
/// a zero word or the top of the address space stops the walk.
pub open spec fn putsp_seq(mem: Seq<u16>, idx: u16) -> Seq<u8>
    decreases 0xFFFF - idx,
{
    if idx >= 0xFFFF || mem[idx as int] == 0 {
        Seq::empty()
    } else {
        (if mem[idx as int] >> 8 == 0 {
            seq![(mem[idx as int] & 0xFF) as u8]
        } else {
            seq![(mem[idx as int] & 0xFF) as u8, (mem[idx as int] >> 8) as u8]
        }) + putsp_seq(mem, (idx + 1) as u16)
    }
}

/// Relates memory before and after one `Memory::read` of `addr`.  A read of
/// any plain address leaves memory untouched; a read of the keyboard-status
/// address polls the console and either reports not-ready (status cleared)
/// or ready (status bit set, the polled byte latched into the data
/// register).  The value the read returns is in either case the word stored
/// at `addr` afterwards.
pub open spec fn mem_step(m0: Seq<u16>, m1: Seq<u16>, addr: u16) -> bool {
    if addr != KBSR {
        m1 == m0
    } else {
        m1 == m0.update(KBSR as int, 0) || (exists|b: u8|
            b != 0 && m1 == m0.update(KBSR as int, 0x8000).update(KBDR as int, #[trigger] (b as u16)))
    }
}

/// The effect of an instruction that writes `result` to register `reg9(op)`
/// and sets the condition codes from it, leaving PC and memory alone.
pub open spec fn alu_effect(pre: MachineView, post: MachineView, op: u16, result: u16) -> bool {
    &&& post.regs == pre.regs.update(reg9(op) as int, result)
    &&& post.psr == with_flags(pre.psr, result)
    &&& post.pc == pre.pc
    &&& post.mem == pre.mem
}

/// ADD: the destination takes src1 plus either src2 or the immediate,
/// modulo 2^16.
pub open spec fn add_result(pre: MachineView, op: u16) -> u16 {
    if imm_mode(op) {
        wadd(pre.regs[reg6(op) as int], imm5(op))
    } else {
        wadd(pre.regs[reg6(op) as int], pre.regs[reg0(op) as int])
    }
}

pub open spec fn add_effect(pre: MachineView, post: MachineView, op: u16) -> bool {
    alu_effect(pre, post, op, add_result(pre, op))
}

/// AND: like ADD with bitwise conjunction.
pub open spec fn and_result(pre: MachineView, op: u16) -> u16 {
    if imm_mode(op) {
        pre.regs[reg6(op) as int] & imm5(op)
    } else {
        pre.regs[reg6(op) as int] & pre.regs[reg0(op) as int]
    }
}

pub open spec fn and_effect(pre: MachineView, post: MachineView, op: u16) -> bool {
    alu_effect(pre, post, op, and_result(pre, op))
}

/// NOT: the destination takes the bitwise complement of the source.
pub open spec fn not_effect(pre: MachineView, post: MachineView, op: u16) -> bool {
    alu_effect(pre, post, op, !pre.regs[reg6(op) as int])
}

/// LD: a PC-relative load; the loaded word also sets the condition codes.
/// The load goes through the device-aware read, so the loaded word is the
/// word stored at the effective address after that read.
pub open spec fn ld_effect(pre: MachineView, post: MachineView, op: u16) -> bool {
    let addr = wadd(pre.pc, off9(op));
    &&& mem_step(pre.mem, post.mem, addr)
    &&& post.regs == pre.regs.update(reg9(op) as int, post.mem[addr as int])
    &&& post.psr == with_flags(pre.psr, post.mem[addr as int])
    &&& post.pc == pre.pc
}

/// LDR: a base-plus-offset load, otherwise as LD.
pub open spec fn ldr_effect(pre: MachineView, post: MachineView, op: u16) -> bool {
    let addr = wadd(pre.regs[reg6(op) as int], off6(op));
    &&& mem_step(pre.mem, post.mem, addr)
    &&& post.regs == pre.regs.update(reg9(op) as int, post.mem[addr as int])
    &&& post.psr == with_flags(pre.psr, post.mem[addr as int])
    &&& post.pc == pre.pc
}

/// LDI: an indirect load; the first read fetches the target address, the
/// second the value.  `m1` is the memory between the two reads.
pub open spec fn ldi_effect(pre: MachineView, post: MachineView, op: u16) -> bool {
    let addr = wadd(pre.pc, off9(op));
    exists|m1: Seq<u16>|
        {
            let target = m1[addr as int];
            &&& #[trigger] mem_step(pre.mem, m1, addr)
            &&& mem_step(m1, post.mem, target)
            &&& post.regs == pre.regs.update(reg9(op) as int, post.mem[target as int])
            &&& post.psr == with_flags(pre.psr, post.mem[target as int])
            &&& post.pc == pre.pc
        }
}

/// LEA: the destination takes the effective address itself, and the
/// condition codes are set from that address.
pub open spec fn lea_effect(pre: MachineView, post: MachineView, op: u16) -> bool {
    alu_effect(pre, post, op, wadd(pre.pc, off9(op)))
}

/// ST: the source register is stored PC-relative; condition codes are kept.
pub open spec fn st_effect(pre: MachineView, post: MachineView, op: u16) -> bool {
    &&& post.mem == pre.mem.update(wadd(pre.pc, off9(op)) as int, pre.regs[reg9(op) as int])
    &&& post.regs == pre.regs
    &&& post.psr == pre.psr
    &&& post.pc == pre.pc
}

/// STR: the source register is stored at base plus offset.
pub open spec fn str_effect(pre: MachineView, post: MachineView, op: u16) -> bool {
    &&& post.mem == pre.mem.update(
        wadd(pre.regs[reg6(op) as int], off6(op)) as int,
        pre.regs[reg9(op) as int],
    )
    &&& post.regs == pre.regs
    &&& post.psr == pre.psr
    &&& post.pc == pre.pc
}

/// STI: the word read PC-relative names the address stored to.  `m1` is the
/// memory after that read.
pub open spec fn sti_effect(pre: MachineView, post: MachineView, op: u16) -> bool {
    let addr = wadd(pre.pc, off9(op));
    exists|m1: Seq<u16>|
        {
            &&& #[trigger] mem_step(pre.mem, m1, addr)
            &&& post.mem == m1.update(m1[addr as int] as int, pre.regs[reg9(op) as int])
            &&& post.regs == pre.regs
            &&& post.psr == pre.psr
            &&& post.pc == pre.pc
        }
}

/// BR: the PC moves by the offset exactly when the instruction's condition
/// mask meets the current condition bits; nothing else changes.
pub open spec fn br_effect(pre: MachineView, post: MachineView, op: u16) -> bool {
    &&& post.pc == if reg9(op) & (pre.psr & 0x7) != 0 {
        wadd(pre.pc, off9(op))
    } else {
        pre.pc
    }
    &&& post.regs == pre.regs
    &&& post.psr == pre.psr
    &&& post.mem == pre.mem
}

/// JMP: the PC takes the base register's value.
pub open spec fn jmp_effect(pre: MachineView, post: MachineView, op: u16) -> bool {
    &&& post.pc == pre.regs[reg6(op) as int]
    &&& post.regs == pre.regs
    &&& post.psr == pre.psr
    &&& post.mem == pre.mem
}

/// JSR/JSRR: R7 takes the return address (the PC after fetch), then the PC
/// moves by the offset or to the base register, which may be R7 itself.
pub open spec fn jsr_effect(pre: MachineView, post: MachineView, op: u16) -> bool {
    let linked = pre.regs.update(7, pre.pc);
    &&& post.regs == linked
    &&& post.pc == if jsr_relative(op) {
        wadd(pre.pc, off11(op))
    } else {
        linked[reg6(op) as int]
    }
    &&& post.psr == pre.psr
    &&& post.mem == pre.mem
}

/// The unchanged-machine predicate shared by the trap arms.
pub open spec fn same_machine(pre: MachineView, post: MachineView) -> bool {
    &&& post.regs == pre.regs
    &&& post.pc == pre.pc
    &&& post.psr == pre.psr
    &&& post.mem == pre.mem
}

/// TRAP: the service routines.  GETC and IN latch one console byte into R0;
/// OUT, PUTS and PUTSP only write to the console; HALT parks the PC at the
/// terminal sentinel; every other vector is the fatal unknown-vector error.
/// Console reads and writes may always fail, which surfaces as
/// `ConsoleIOFailure` with the machine otherwise unchanged.
pub open spec fn trap_effect(
    pre: MachineView,
    post: MachineView,
    op: u16,
    r: Result<(), crate::VmError>,
) -> bool {
    let vect = trap_vector(op);
    if vect == 0x20 || vect == 0x23 {
        &&& post.pc == pre.pc
        &&& post.psr == pre.psr
        &&& post.mem == pre.mem
        &&& (
            (r == Ok::<(), crate::VmError>(()) && (exists|b: u8|
                post.regs == pre.regs.update(0, #[trigger] (b as u16))))
            || (r == Err::<(), crate::VmError>(crate::VmError::ConsoleIOFailure)
                && post.regs == pre.regs)
        )
    } else if vect == 0x21 || vect == 0x22 || vect == 0x24 {
        &&& same_machine(pre, post)
        &&& (r == Ok::<(), crate::VmError>(()) || r == Err::<(), crate::VmError>(
            crate::VmError::ConsoleIOFailure,
        ))
    } else if vect == 0x25 {
        &&& post.pc == HALT_SENTINEL
        &&& post.regs == pre.regs
        &&& post.psr == pre.psr
        &&& post.mem == pre.mem
        &&& r == Ok::<(), crate::VmError>(())
    } else {
        &&& same_machine(pre, post)
        &&& r == Err::<(), crate::VmError>(crate::VmError::UnknownTrapVector)
    }
}

/// The effect of executing the already-fetched instruction `op` on a
/// machine whose PC has already been stepped past it.  Opcodes 0x8 and 0xD
/// have no defined operation and fail as the reserved opcode, leaving the
/// machine exactly as it stood after the fetch.
pub open spec fn instr_effect(
    pre: MachineView,
    post: MachineView,
    op: u16,
    r: Result<(), crate::VmError>,
) -> bool {
    let code = opcode(op);
    if code == 0x0 {
        r == Ok::<(), crate::VmError>(()) && br_effect(pre, post, op)
    } else if code == 0x1 {
        r == Ok::<(), crate::VmError>(()) && add_effect(pre, post, op)
    } else if code == 0x2 {
        r == Ok::<(), crate::VmError>(()) && ld_effect(pre, post, op)
    } else if code == 0x3 {
        r == Ok::<(), crate::VmError>(()) && st_effect(pre, post, op)
    } else if code == 0x4 {
        r == Ok::<(), crate::VmError>(()) && jsr_effect(pre, post, op)
    } else if code == 0x5 {
        r == Ok::<(), crate::VmError>(()) && and_effect(pre, post, op)
    } else if code == 0x6 {
        r == Ok::<(), crate::VmError>(()) && ldr_effect(pre, post, op)
    } else if code == 0x7 {
        r == Ok::<(), crate::VmError>(()) && str_effect(pre, post, op)
    } else if code == 0x9 {
        r == Ok::<(), crate::VmError>(()) && not_effect(pre, post, op)
    } else if code == 0xA {
        r == Ok::<(), crate::VmError>(()) && ldi_effect(pre, post, op)
    } else if code == 0xB {
        r == Ok::<(), crate::VmError>(()) && sti_effect(pre, post, op)
    } else if code == 0xC {
        r == Ok::<(), crate::VmError>(()) && jmp_effect(pre, post, op)
    } else if code == 0xE {
        r == Ok::<(), crate::VmError>(()) && lea_effect(pre, post, op)
    } else if code == 0xF {
        trap_effect(pre, post, op, r)
    } else {
        r == Err::<(), crate::VmError>(crate::VmError::ReservedOpcode) && same_machine(pre, post)
    }
}

/// One whole fetch-decode-execute step: the fetch reads the word under the
/// PC (a device read, if the program counter sits on the keyboard-status
/// address), the PC steps past it, and the fetched instruction takes
/// effect.
pub open spec fn tick_effect(
    pre: MachineView,
    post: MachineView,
    r: Result<(), crate::VmError>,
) -> bool {
    exists|m1: Seq<u16>|
        {
            let op = m1[pre.pc as int];
            &&& #[trigger] mem_step(pre.mem, m1, pre.pc)
            &&& instr_effect(
                MachineView { regs: pre.regs, pc: wadd(pre.pc, 1), psr: pre.psr, mem: m1 },
                post,
                op,
                r,
            )
        }
}

/// A run fragment: consecutive snapshots of the trace are successful
/// fetch-decode-execute steps, each taken while the PC was still short of
/// the terminal sentinel.
pub open spec fn run_steps(trace: Seq<MachineView>) -> bool {
    forall|i: int|
        #![trigger trace[i]]
        0 <= i < trace.len() - 1 ==> trace[i].pc < HALT_SENTINEL && tick_effect(
            trace[i],
            trace[i + 1],
            Ok::<(), crate::VmError>(()),
        )
}

/// `to` is reachable from `from` by zero or more successful
/// fetch-decode-execute steps, stepping only while the PC is short of the
/// terminal sentinel.
pub open spec fn run_reaches(from: MachineView, to: MachineView) -> bool {
    exists|trace: Seq<MachineView>|
        trace.len() >= 1 && trace[0] == from && trace.last() == to && #[trigger] run_steps(trace)
}

/// Every machine reaches itself by the empty run.
pub proof fn lemma_run_reaches_refl(s: MachineView)
    ensures
        run_reaches(s, s),
{
    let trace = seq![s];
    assert(run_steps(trace));
    assert(trace.last() == s);
}

/// A reachable machine that takes one more successful step is still
/// reachable.
pub proof fn lemma_run_reaches_step(a: MachineView, b: MachineView, c: MachineView)
    requires
        run_reaches(a, b),
        b.pc < HALT_SENTINEL,
        tick_effect(b, c, Ok::<(), crate::VmError>(())),
    ensures
        run_reaches(a, c),
{
    let trace = choose|t: Seq<MachineView>|
        t.len() >= 1 && t[0] == a && t.last() == b && #[trigger] run_steps(t);
    let extended = trace.push(c);
    assert forall|i: int| 0 <= i < extended.len() - 1 implies extended[i].pc < HALT_SENTINEL
        && #[trigger] tick_effect(extended[i], extended[i + 1], Ok::<(), crate::VmError>(())) by {
        if i < trace.len() - 1 {
            assert(extended[i] == trace[i]);
            assert(extended[i + 1] == trace[i + 1]);
            assert(trace[i].pc < HALT_SENTINEL && tick_effect(
                trace[i],
                trace[i + 1],
                Ok::<(), crate::VmError>(()),
            ));
        } else {
            assert(extended[i] == trace.last());
            assert(extended[i + 1] == c);
        }
    }
    assert(run_steps(extended));
    assert(extended[0] == a && extended.last() == c);
}

/// Sign extension is idempotent, and the identity on every field whose
/// sign bit is clear: extending an already-extended value changes nothing.
pub proof fn lemma_sign_ext_idempotent(bits: u16, n: u16)
    requires
        1 <= n <= 15,
    ensures
        sign_ext(sign_ext(bits, n), n) == sign_ext(bits, n),
        (bits >> ((n - 1) as u16)) & 1 == 0 ==> sign_ext(bits, n) == bits,
{
    let m: u16 = (n - 1) as u16;
    if (bits >> m) & 1 == 1 {
        let r = bits | (0xFFFFu16 << n);
        assert((r >> m) & 1 == 1 && (r | (0xFFFFu16 << n)) == r) by (bit_vector)
            requires
                n <= 15 && m + 1 == n && (bits >> m) & 1 == 1 && r == bits | (0xFFFFu16 << n),
        ;
    }
}

/// Setting the condition codes picks exactly one of the three flags N, Z,
/// P, places it in the low three bits, and leaves the thirteen high bits
/// of the status register exactly as they were.
pub proof fn lemma_condition_codes(psr: u16, result: u16)
    ensures
        with_flags(psr, result) >> 3 == psr >> 3,
        with_flags(psr, result) & 0x7 == cond_flags(result),
        cond_flags(result) == 1 || cond_flags(result) == 2 || cond_flags(result) == 4,
{
    let f = cond_flags(result);
    assert(((psr & 0xFFF8) | f) >> 3 == psr >> 3 && ((psr & 0xFFF8) | f) & 0x7 == f)
        by (bit_vector)
        requires
            f == 1 || f == 2 || f == 4,
    ;
}

} // verus!
