use crate::bytes::{be_value, be_word, le_bytes, le_word};
use crate::error::Error;
use crate::instruction::{decode, regs_in_range, spec_decode, Instruction, Operand};
use crate::memory::{Endianness, Memory};
use vstd::prelude::*;

verus! {

/// Index of the first general-purpose register.
pub const REG_R0: usize = 0;
/// Index of the register that receives return addresses.
pub const REG_R7: usize = 7;
/// Index of the program counter.
pub const REG_PC: usize = 8;
/// Index of the condition-flag register.
pub const REG_COND: usize = 9;
/// Number of register slots, two of them reserved.
pub const REG_COUNT: usize = 12;

/// Where execution begins.
pub const PC_START: u16 = 0x3000;
/// Number of addresses of the machine, address 0 included.
pub const MEMORY_SIZE: usize = 0x10000;

/// Condition flag: last result was positive.
pub const FL_POS: u16 = 1;
/// Condition flag: last result was zero.
pub const FL_ZRO: u16 = 2;
/// Condition flag: last result was negative.
pub const FL_NEG: u16 = 4;

/// Keyboard status register (the canonical LC-3 address).
pub const MR_KBSR: u16 = 0xFE00;
/// Keyboard data register.
pub const MR_KBDR: u16 = 0xFE02;

/// Trap vector: read one byte into R0 without echo.
pub const TRAP_GETC: u16 = 0x20;
/// Trap vector: write the low byte of R0.
pub const TRAP_OUT: u16 = 0x21;
/// Trap vector: write a string of one character per word.
pub const TRAP_PUTS: u16 = 0x22;
/// Trap vector: prompt, read one byte into R0 and echo it.
pub const TRAP_IN: u16 = 0x23;
/// Trap vector: write a string of two bytes per word.
pub const TRAP_PUTSP: u16 = 0x24;
/// Trap vector: stop the machine.
pub const TRAP_HALT: u16 = 0x25;


/// The machine as a mathematical value.
#[verifier::ext_equal]
pub struct Machine {
    /// R0..R7, PC, COND and two reserved slots.
    pub regs: Seq<u16>,
    /// The word at every address.
    pub mem: Seq<u16>,
    /// The run flag.
    pub running: bool,
    /// Host input bytes that have arrived and are not consumed yet.
    pub input: Seq<u8>,
    /// Whether the host input has ended.
    pub input_closed: bool,
    /// Whether the IN prompt has been written for the read still pending.
    pub prompted: bool,
    /// Host output bytes not yet taken.
    pub output: Seq<u8>,
}

/// What one call of `step` did.
#[derive(Debug, Clone, Copy, PartialEq, Eq, Structural)]
pub enum Step {
    /// One instruction ran to completion.
    Executed,
    /// The instruction at PC reads a byte and none has arrived: feed input or
    /// close it, then step again. PC still names that instruction.
    NeedsInput,
}

/// The condition flag that a result `v` sets.
pub open spec fn flag_of(v: u16) -> u16 {
    if v == 0 {
        FL_ZRO
    } else if v >= 0x8000 {
        FL_NEG
    } else {
        FL_POS
    }
}

/// The text that IN writes before it reads: "Enter a character: ".
pub open spec fn in_prompt() -> Seq<u8> {
    seq![69u8, 110, 116, 101, 114, 32, 97, 32, 99, 104, 97, 114, 97, 99, 116, 101, 114, 58, 32]
}

/// The text that HALT writes: "HALT".
pub open spec fn halt_marker() -> Seq<u8> {
    seq![72u8, 65, 76, 84]
}

/// `s` with register `r` set to `v`.
pub open spec fn with_reg(s: Machine, r: int, v: u16) -> Machine {
    Machine { regs: s.regs.update(r, v), ..s }
}

/// Writes `v` to register `r` and sets COND from it.
pub open spec fn with_result(s: Machine, r: int, v: u16) -> Machine {
    with_reg(with_reg(s, r, v), REG_COND as int, flag_of(v))
}

/// `s` with `bytes` written to the host output.
pub open spec fn with_output(s: Machine, bytes: Seq<u8>) -> Machine {
    Machine { output: s.output + bytes, ..s }
}

/// The keyboard poll that a read of the status register makes first: with a
/// whole word of input waiting, it moves into the data register and the status
/// gets its high bit; otherwise the status is cleared.
pub open spec fn kb_poll(s: Machine) -> Machine {
    if s.input.len() >= 2 {
        Machine {
            mem: s.mem.update(MR_KBSR as int, 0x8000).update(
                MR_KBDR as int,
                be_value(s.input[1], s.input[0]),
            ),
            input: s.input.subrange(2, s.input.len() as int),
            ..s
        }
    } else {
        Machine { mem: s.mem.update(MR_KBSR as int, 0), ..s }
    }
}

/// A memory read as the running program sees it.
pub open spec fn mread(s: Machine, addr: u16) -> (Machine, Result<u16, Error>) {
    let s1 = if addr == MR_KBSR {
        kb_poll(s)
    } else {
        s
    };
    if addr == 0 {
        (s1, Err(Error::InvalidMemoryAddress))
    } else {
        (s1, Ok(s1.mem[addr as int]))
    }
}

/// A memory write as the running program sees it.
pub open spec fn mwrite(s: Machine, addr: u16, v: u16) -> (Machine, Result<(), Error>) {
    if addr == 0 {
        (s, Err(Error::InvalidMemoryAddress))
    } else {
        (Machine { mem: s.mem.update(addr as int, v), ..s }, Ok(()))
    }
}

/// The value of an ADD or AND second operand.
pub open spec fn operand_value(s: Machine, o: Operand) -> u16 {
    match o {
        Operand::Imm(v) => v,
        Operand::Reg(r) => s.regs[r as int],
    }
}

/// Moves a loaded word into `dr` and sets COND, or passes a failed read on.
pub open spec fn load_into(p: (Machine, Result<u16, Error>), dr: usize) -> (Machine, Result<
    (),
    Error,
>) {
    match p.1 {
        Ok(v) => (with_result(p.0, dr as int, v), Ok(())),
        Err(e) => (p.0, Err(e)),
    }
}

/// Consumes the first pending input byte.
pub open spec fn take_input(s: Machine) -> Machine {
    Machine { input: s.input.subrange(1, s.input.len() as int), ..s }
}

/// Writes the IN prompt unless it is already out.
pub open spec fn show_prompt(s: Machine) -> Machine {
    if s.prompted {
        s
    } else {
        Machine { prompted: true, ..with_output(s, in_prompt()) }
    }
}

/// PUTS from `addr` on: the low byte of each word up to a zero word. The
/// address that follows 0xFFFF is 0, which no read accepts.
pub open spec fn puts(s: Machine, addr: int) -> (Machine, Result<(), Error>)
    decreases 0x10000 - addr,
{
    if addr <= 0 || addr >= 0x10000 {
        (s, Err(Error::InvalidMemoryAddress))
    } else {
        let p = mread(s, addr as u16);
        match p.1 {
            Err(e) => (p.0, Err(e)),
            Ok(w) => if w == 0 {
                (p.0, Ok(()))
            } else {
                puts(with_output(p.0, seq![w as u8]), addr + 1)
            },
        }
    }
}

/// PUTSP from `addr` on: both bytes of each word, low byte first, up to a
/// zero word.
pub open spec fn putsp(s: Machine, addr: int) -> (Machine, Result<(), Error>)
    decreases 0x10000 - addr,
{
    if addr <= 0 || addr >= 0x10000 {
        (s, Err(Error::InvalidMemoryAddress))
    } else {
        let p = mread(s, addr as u16);
        match p.1 {
            Err(e) => (p.0, Err(e)),
            Ok(w) => if w == 0 {
                (p.0, Ok(()))
            } else {
                putsp(with_output(p.0, seq![(w % 256) as u8, (w / 256) as u8]), addr + 1)
            },
        }
    }
}

/// A trap routine, run once its input (if any) can be had.
pub open spec fn trap(s: Machine, vector: u16) -> (Machine, Result<(), Error>) {
    if vector == TRAP_GETC {
        if s.input.len() > 0 {
            (with_reg(take_input(s), REG_R0 as int, s.input[0] as u16), Ok(()))
        } else {
            (s, Err(Error::IOError))
        }
    } else if vector == TRAP_OUT {
        (with_output(s, seq![s.regs[REG_R0 as int] as u8]), Ok(()))
    } else if vector == TRAP_PUTS {
        puts(s, s.regs[REG_R0 as int] as int)
    } else if vector == TRAP_IN {
        let s1 = show_prompt(s);
        if s1.input.len() > 0 {
            let c = s1.input[0];
            (
                with_output(
                    Machine { prompted: false, ..with_reg(take_input(s1), REG_R0 as int, c as u16) },
                    seq![c],
                ),
                Ok(()),
            )
        } else {
            (s1, Err(Error::IOError))
        }
    } else if vector == TRAP_PUTSP {
        putsp(s, s.regs[REG_R0 as int] as int)
    } else if vector == TRAP_HALT {
        (Machine { running: false, ..with_output(s, halt_marker()) }, Ok(()))
    } else {
        (s, Ok(()))
    }
}

/// What `ins` does to a machine whose PC already names the next instruction.
pub open spec fn execute(s: Machine, ins: Instruction) -> (Machine, Result<(), Error>) {
    let pc = s.regs[REG_PC as int];
    match ins {
        Instruction::Add { dr, sr1, src2 } => (
            with_result(s, dr as int, s.regs[sr1 as int].wrapping_add(operand_value(s, src2))),
            Ok(()),
        ),
        Instruction::And { dr, sr1, src2 } => (
            with_result(s, dr as int, s.regs[sr1 as int] & operand_value(s, src2)),
            Ok(()),
        ),
        Instruction::Not { dr, sr } => (with_result(s, dr as int, !s.regs[sr as int]), Ok(())),
        Instruction::Lea { dr, offset } => (
            with_result(s, dr as int, pc.wrapping_add(offset)),
            Ok(()),
        ),
        Instruction::Br { nzp, offset } => if nzp & s.regs[REG_COND as int] != 0 {
            (with_reg(s, REG_PC as int, pc.wrapping_add(offset)), Ok(()))
        } else {
            (s, Ok(()))
        },
        Instruction::Jmp { base } => (with_reg(s, REG_PC as int, s.regs[base as int]), Ok(())),
        Instruction::Jsr { offset } => (
            with_reg(with_reg(s, REG_R7 as int, pc), REG_PC as int, pc.wrapping_add(offset)),
            Ok(()),
        ),
        Instruction::Jsrr { base } => {
            let s1 = with_reg(s, REG_R7 as int, pc);
            (with_reg(s1, REG_PC as int, s1.regs[base as int]), Ok(()))
        },
        Instruction::Ld { dr, offset } => load_into(mread(s, pc.wrapping_add(offset)), dr),
        Instruction::Ldi { dr, offset } => {
            let p = mread(s, pc.wrapping_add(offset));
            match p.1 {
                Ok(a) => load_into(mread(p.0, a), dr),
                Err(e) => (p.0, Err(e)),
            }
        },
        Instruction::Ldr { dr, base, offset } => load_into(
            mread(s, s.regs[base as int].wrapping_add(offset)),
            dr,
        ),
        Instruction::St { sr, offset } => mwrite(s, pc.wrapping_add(offset), s.regs[sr as int]),
        Instruction::Sti { sr, offset } => {
            let p = mread(s, pc.wrapping_add(offset));
            match p.1 {
                Ok(a) => mwrite(p.0, a, p.0.regs[sr as int]),
                Err(e) => (p.0, Err(e)),
            }
        },
        Instruction::Str { sr, base, offset } => mwrite(
            s,
            s.regs[base as int].wrapping_add(offset),
            s.regs[sr as int],
        ),
        Instruction::Rti | Instruction::Res => (s, Ok(())),
        Instruction::Trap { vector } => trap(s, vector),
    }
}

/// Whether `ins` reads a host byte that has not arrived while more may come.
pub open spec fn awaits_input(s: Machine, ins: Instruction) -> bool {
    &&& ins matches Instruction::Trap { vector } && (vector == TRAP_GETC || vector == TRAP_IN)
    &&& s.input.len() == 0
    &&& !s.input_closed
}

/// The state left while waiting for input: IN has written its prompt.
pub open spec fn paused(s: Machine, ins: Instruction) -> Machine {
    if ins == (Instruction::Trap { vector: TRAP_IN }) {
        show_prompt(s)
    } else {
        s
    }
}

/// One fetch-decode-execute cycle.
pub open spec fn spec_step(s: Machine) -> (Machine, Result<Step, Error>) {
    let p = mread(s, s.regs[REG_PC as int]);
    match p.1 {
        Err(e) => (p.0, Err(e)),
        Ok(w) => {
            let ins = spec_decode(w);
            if awaits_input(p.0, ins) {
                (paused(p.0, ins), Ok(Step::NeedsInput))
            } else {
                let q = execute(
                    with_reg(p.0, REG_PC as int, p.0.regs[REG_PC as int].wrapping_add(1)),
                    ins,
                );
                (
                    q.0,
                    match q.1 {
                        Ok(_) => Ok(Step::Executed),
                        Err(e) => Err(e),
                    },
                )
            }
        },
    }
}

/// The origin word of an object image.
pub open spec fn image_origin(b: Seq<u8>) -> u16 {
    be_value(b[0], b[1])
}

/// The payload words of an object image; a trailing odd byte is not read.
pub open spec fn image_words(b: Seq<u8>) -> Seq<u16> {
    Seq::new(
        ((b.len() - 2) / 2) as nat,
        |k: int| be_value(b[2 + 2 * k], b[2 + 2 * k + 1]),
    )
}

/// `mem` with `words` written from `origin` on, at the valid addresses that a
/// write in order reaches before the first invalid one.
pub open spec fn loaded_mem(mem: Seq<u16>, origin: int, words: Seq<u16>) -> Seq<u16> {
    Seq::new(
        mem.len(),
        |a: int|
            if 0 < origin <= a < origin + words.len() {
                words[a - origin]
            } else {
                mem[a]
            },
    )
}

/// Whether loading `b` fails on an address: payload words that would go to
/// address 0 or past the end of memory.
pub open spec fn image_overflows(b: Seq<u8>) -> bool {
    let n = image_words(b).len();
    let o = image_origin(b) as int;
    n > 0 && (o == 0 || o + n > MEMORY_SIZE)
}

/// The machine: memory, registers, run flag and the host byte streams.
pub struct VM {
    memory: Memory<u16>,
    reg: [u16; 12],
    running: bool,
    input: Vec<u8>,
    input_closed: bool,
    prompted: bool,
    output: Vec<u8>,
}

impl View for VM {
    type V = Machine;

    closed spec fn view(&self) -> Machine {
        Machine {
            regs: self.reg@,
            mem: self.memory@,
            running: self.running,
            input: self.input@,
            input_closed: self.input_closed,
            prompted: self.prompted,
            output: self.output@,
        }
    }
}

/// A machine with zeroed registers and memory, stopped, with no input or output.
pub fn new() -> (r: VM)
    ensures
        r.wf(),
        r@.regs == Seq::new(REG_COUNT as nat, |i: int| 0u16),
        r@.mem == Seq::new(MEMORY_SIZE as nat, |i: int| 0u16),
        !r@.running,
        r@.input.len() == 0,
        !r@.input_closed,
        !r@.prompted,
        r@.output.len() == 0,
{
    let r = VM {
        memory: Memory::new(MEMORY_SIZE, MEMORY_SIZE, Endianness::LittleEndian),
        reg: [0; 12],
        running: false,
        input: Vec::new(),
        input_closed: false,
        prompted: false,
        output: Vec::new(),
    };
    proof {
        assert(r@.regs =~= Seq::new(REG_COUNT as nat, |i: int| 0u16));
        assert(r@.mem =~= Seq::new(MEMORY_SIZE as nat, |i: int| 0u16));
    }
    r
}

impl VM {
    /// The memory spans the whole 16-bit address space.
    pub closed spec fn wf(&self) -> bool {
        &&& self.memory.capacity_limit() == MEMORY_SIZE
        &&& self.memory@.len() == MEMORY_SIZE
    }

    /// A well-formed machine has the full register file and address space.
    pub proof fn lemma_wf(&self)
        requires
            self.wf(),
        ensures
            self@.mem.len() == MEMORY_SIZE,
            self@.regs.len() == REG_COUNT,
    {
    }

    /// The value of register `r`.
    pub fn get_reg(&self, r: usize) -> (v: u16)
        requires
            r < REG_COUNT,
        ensures
            v == self@.regs[r as int],
    {
        self.reg[r]
    }

    /// Sets register `r` to `v`.
    pub fn set_reg(&mut self, r: usize, v: u16)
        requires
            old(self).wf(),
            r < REG_COUNT,
        ensures
            final(self).wf(),
            final(self)@ == with_reg(old(self)@, r as int, v),
    {
        self.reg.set(r, v);
        assert(self@ =~= with_reg(old(self)@, r as int, v));
    }

    /// Adds `delta` to register `r`, wrapping.
    fn inc_reg(&mut self, r: usize, delta: u16)
        requires
            old(self).wf(),
            r < REG_COUNT,
        ensures
            final(self).wf(),
            final(self)@ == with_reg(old(self)@, r as int, old(self)@.regs[r as int].wrapping_add(delta)),
    {
        let v = self.reg[r].wrapping_add(delta);
        self.set_reg(r, v);
    }

    /// Sets COND from the value of register `r`.
    fn update_flags(&mut self, r: usize)
        requires
            old(self).wf(),
            r < REG_COUNT,
        ensures
            final(self).wf(),
            final(self)@ == with_reg(old(self)@, REG_COND as int, flag_of(old(self)@.regs[r as int])),
    {
        let v = self.reg[r];
        assert((v >> 15u16) > 0 <==> v >= 0x8000) by (bit_vector);
        if v == 0 {
            self.set_reg(REG_COND, FL_ZRO);
        } else if (v >> 15u16) > 0 {
            self.set_reg(REG_COND, FL_NEG);
        } else {
            self.set_reg(REG_COND, FL_POS);
        }
    }

    /// Writes `v` to register `r` and sets COND from it.
    fn set_result(&mut self, r: usize, v: u16)
        requires
            old(self).wf(),
            r < REG_COUNT,
            r != REG_COND,
        ensures
            final(self).wf(),
            final(self)@ == with_result(old(self)@, r as int, v),
    {
        self.set_reg(r, v);
        self.update_flags(r);
    }

    fn emit(&mut self, b: u8)
        requires
            old(self).wf(),
        ensures
            final(self).wf(),
            final(self)@ == with_output(old(self)@, seq![b]),
    {
        self.output.push(b);
        assert(self@ =~= with_output(old(self)@, seq![b]));
    }

    fn emit_all(&mut self, bytes: &[u8])
        requires
            old(self).wf(),
        ensures
            final(self).wf(),
            final(self)@ == with_output(old(self)@, bytes@),
    {
        let mut i: usize = 0;
        while i < bytes.len()
            invariant
                self.wf(),
                i <= bytes@.len(),
                self@ == with_output(old(self)@, bytes@.subrange(0, i as int)),
            decreases bytes@.len() - i,
        {
            self.emit(bytes[i]);
            assert(bytes@.subrange(0, i + 1) =~= bytes@.subrange(0, i as int) + seq![bytes@[i as int]]);
            assert(self@ =~= with_output(old(self)@, bytes@.subrange(0, i + 1)));
            i = i + 1;
        }
        assert(bytes@.subrange(0, i as int) =~= bytes@);
    }

    /// Stores `v` at `addr`.
    fn mem_write(&mut self, addr: u16, v: u16) -> (r: Result<(), Error>)
        requires
            old(self).wf(),
        ensures
            final(self).wf(),
            (final(self)@, r) == mwrite(old(self)@, addr, v),
    {
        let r = self.memory.write(addr as usize, v);
        assert(self@ =~= mwrite(old(self)@, addr, v).0);
        r
    }

    /// Reads `addr`, polling the keyboard first when it is the status register.
    fn mem_read(&mut self, addr: u16) -> (r: Result<u16, Error>)
        requires
            old(self).wf(),
        ensures
            final(self).wf(),
            (final(self)@, r) == mread(old(self)@, addr),
    {
        if addr == MR_KBSR {
            if self.input.len() >= 2 {
                let ch = le_word(self.input[0], self.input[1]);
                self.input.remove(0);
                self.input.remove(0);
                let _ = self.memory.write(MR_KBSR as usize, 0x8000);
                let _ = self.memory.write(MR_KBDR as usize, ch);
            } else {
                let _ = self.memory.write(MR_KBSR as usize, 0);
            }
            assert(self@ =~= kb_poll(old(self)@));
        }
        self.memory.read(addr as usize)
    }
}

impl VM {
    fn show_prompt(&mut self)
        requires
            old(self).wf(),
        ensures
            final(self).wf(),
            final(self)@ == show_prompt(old(self)@),
    {
        if !self.prompted {
            // "Enter a character: "
            let text: [u8; 19] = [
                69, 110, 116, 101, 114, 32, 97, 32, 99, 104, 97, 114, 97, 99, 116, 101, 114, 58, 32,
            ];
            assert(text@ =~= in_prompt());
            self.emit_all(&text);
            self.prompted = true;
            assert(self@ =~= show_prompt(old(self)@));
        }
    }

    fn exec_operate(&mut self, ins: Instruction)
        requires
            old(self).wf(),
            regs_in_range(ins),
            ins is Add || ins is And || ins is Not || ins is Lea,
        ensures
            final(self).wf(),
            final(self)@ == execute(old(self)@, ins).0,
            execute(old(self)@, ins).1 == Ok::<(), Error>(()),
    {
        match ins {
            Instruction::Add { dr, sr1, src2 } => {
                let b = match src2 {
                    Operand::Imm(v) => v,
                    Operand::Reg(r) => self.reg[r],
                };
                let v = self.reg[sr1].wrapping_add(b);
                self.set_result(dr, v);
            },
            Instruction::And { dr, sr1, src2 } => {
                let b = match src2 {
                    Operand::Imm(v) => v,
                    Operand::Reg(r) => self.reg[r],
                };
                let v = self.reg[sr1] & b;
                self.set_result(dr, v);
            },
            Instruction::Not { dr, sr } => {
                let v = !self.reg[sr];
                self.set_result(dr, v);
            },
            Instruction::Lea { dr, offset } => {
                let v = self.reg[REG_PC].wrapping_add(offset);
                self.set_result(dr, v);
            },
            _ => {},
        }
    }

    fn exec_control(&mut self, ins: Instruction)
        requires
            old(self).wf(),
            regs_in_range(ins),
            ins is Br || ins is Jmp || ins is Jsr || ins is Jsrr,
        ensures
            final(self).wf(),
            final(self)@ == execute(old(self)@, ins).0,
            execute(old(self)@, ins).1 == Ok::<(), Error>(()),
    {
        match ins {
            Instruction::Br { nzp, offset } => {
                if nzp & self.reg[REG_COND] != 0 {
                    self.inc_reg(REG_PC, offset);
                }
            },
            Instruction::Jmp { base } => {
                let v = self.reg[base];
                self.set_reg(REG_PC, v);
            },
            Instruction::Jsr { offset } => {
                let pc = self.reg[REG_PC];
                self.set_reg(REG_R7, pc);
                self.inc_reg(REG_PC, offset);
            },
            Instruction::Jsrr { base } => {
                let pc = self.reg[REG_PC];
                self.set_reg(REG_R7, pc);
                let v = self.reg[base];
                self.set_reg(REG_PC, v);
            },
            _ => {},
        }
    }

    fn exec_load(&mut self, ins: Instruction) -> (r: Result<(), Error>)
        requires
            old(self).wf(),
            regs_in_range(ins),
            ins is Ld || ins is Ldi || ins is Ldr,
        ensures
            final(self).wf(),
            (final(self)@, r) == execute(old(self)@, ins),
    {
        let (dr, addr) = match ins {
            Instruction::Ld { dr, offset } => (dr, self.reg[REG_PC].wrapping_add(offset)),
            Instruction::Ldi { dr, offset } => {
                let a = self.reg[REG_PC].wrapping_add(offset);
                match self.mem_read(a) {
                    Ok(p) => (dr, p),
                    Err(e) => return Err(e),
                }
            },
            Instruction::Ldr { dr, base, offset } => (dr, self.reg[base].wrapping_add(offset)),
            _ => (0, 0),
        };
        match self.mem_read(addr) {
            Ok(v) => {
                self.set_result(dr, v);
                Ok(())
            },
            Err(e) => Err(e),
        }
    }

    fn exec_store(&mut self, ins: Instruction) -> (r: Result<(), Error>)
        requires
            old(self).wf(),
            regs_in_range(ins),
            ins is St || ins is Sti || ins is Str,
        ensures
            final(self).wf(),
            (final(self)@, r) == execute(old(self)@, ins),
    {
        let (sr, addr) = match ins {
            Instruction::St { sr, offset } => (sr, self.reg[REG_PC].wrapping_add(offset)),
            Instruction::Sti { sr, offset } => {
                let a = self.reg[REG_PC].wrapping_add(offset);
                match self.mem_read(a) {
                    Ok(p) => (sr, p),
                    Err(e) => return Err(e),
                }
            },
            Instruction::Str { sr, base, offset } => (sr, self.reg[base].wrapping_add(offset)),
            _ => (0, 0),
        };
        let v = self.reg[sr];
        self.mem_write(addr, v)
    }

    fn trap_puts(&mut self) -> (r: Result<(), Error>)
        requires
            old(self).wf(),
        ensures
            final(self).wf(),
            (final(self)@, r) == puts(old(self)@, old(self)@.regs[REG_R0 as int] as int),
    {
        let mut a: u32 = self.reg[REG_R0] as u32;
        loop
            invariant
                self.wf(),
                a <= 0x10000,
                puts(self@, a as int) == puts(old(self)@, old(self)@.regs[REG_R0 as int] as int),
            decreases 0x10000 - a,
        {
            if a == 0 || a >= 0x10000 {
                return Err(Error::InvalidMemoryAddress);
            }
            let w = match self.mem_read(a as u16) {
                Ok(w) => w,
                Err(e) => return Err(e),
            };
            if w == 0 {
                return Ok(());
            }
            self.emit(w as u8);
            a = a + 1;
        }
    }

    fn trap_putsp(&mut self) -> (r: Result<(), Error>)
        requires
            old(self).wf(),
        ensures
            final(self).wf(),
            (final(self)@, r) == putsp(old(self)@, old(self)@.regs[REG_R0 as int] as int),
    {
        let mut a: u32 = self.reg[REG_R0] as u32;
        loop
            invariant
                self.wf(),
                a <= 0x10000,
                putsp(self@, a as int) == putsp(old(self)@, old(self)@.regs[REG_R0 as int] as int),
            decreases 0x10000 - a,
        {
            if a == 0 || a >= 0x10000 {
                return Err(Error::InvalidMemoryAddress);
            }
            let w = match self.mem_read(a as u16) {
                Ok(w) => w,
                Err(e) => return Err(e),
            };
            if w == 0 {
                return Ok(());
            }
            let (lo, hi) = le_bytes(w);
            let ghost before = self@;
            self.emit(lo);
            self.emit(hi);
            assert(self@ =~= with_output(before, seq![(w % 256) as u8, (w / 256) as u8]));
            a = a + 1;
        }
    }

    fn exec_trap(&mut self, vector: u16) -> (r: Result<(), Error>)
        requires
            old(self).wf(),
        ensures
            final(self).wf(),
            (final(self)@, r) == trap(old(self)@, vector),
    {
        if vector == TRAP_GETC {
            if self.input.len() > 0 {
                let c = self.input.remove(0);
                assert(self@ =~= take_input(old(self)@));
                self.set_reg(REG_R0, c as u16);
                Ok(())
            } else {
                Err(Error::IOError)
            }
        } else if vector == TRAP_OUT {
            let c = self.reg[REG_R0] as u8;
            self.emit(c);
            Ok(())
        } else if vector == TRAP_PUTS {
            self.trap_puts()
        } else if vector == TRAP_IN {
            self.show_prompt();
            if self.input.len() > 0 {
                let ghost s1 = self@;
                let c = self.input.remove(0);
                assert(self@ =~= take_input(s1));
                self.set_reg(REG_R0, c as u16);
                self.prompted = false;
                self.emit(c);
                Ok(())
            } else {
                Err(Error::IOError)
            }
        } else if vector == TRAP_PUTSP {
            self.trap_putsp()
        } else if vector == TRAP_HALT {
            // "HALT"
            let text: [u8; 4] = [72, 65, 76, 84];
            assert(text@ =~= halt_marker());
            self.emit_all(&text);
            self.running = false;
            Ok(())
        } else {
            Ok(())
        }
    }

    fn execute(&mut self, ins: Instruction) -> (r: Result<(), Error>)
        requires
            old(self).wf(),
            regs_in_range(ins),
        ensures
            final(self).wf(),
            (final(self)@, r) == execute(old(self)@, ins),
    {
        match ins {
            Instruction::Add { .. } | Instruction::And { .. } | Instruction::Not { .. }
            | Instruction::Lea { .. } => {
                self.exec_operate(ins);
                Ok(())
            },
            Instruction::Br { .. } | Instruction::Jmp { .. } | Instruction::Jsr { .. }
            | Instruction::Jsrr { .. } => {
                self.exec_control(ins);
                Ok(())
            },
            Instruction::Ld { .. } | Instruction::Ldi { .. } | Instruction::Ldr { .. } => {
                self.exec_load(ins)
            },
            Instruction::St { .. } | Instruction::Sti { .. } | Instruction::Str { .. } => {
                self.exec_store(ins)
            },
            Instruction::Rti | Instruction::Res => Ok(()),
            Instruction::Trap { vector } => self.exec_trap(vector),
        }
    }

    /// Runs one fetch-decode-execute cycle. A fault stops the cycle where it
    /// happened: what the instruction already changed stays changed.
    pub fn step(&mut self) -> (r: Result<Step, Error>)
        requires
            old(self).wf(),
        ensures
            final(self).wf(),
            (final(self)@, r) == spec_step(old(self)@),
    {
        let pc = self.reg[REG_PC];
        let w = match self.mem_read(pc) {
            Ok(w) => w,
            Err(e) => return Err(e),
        };
        let ins = decode(w);
        if let Instruction::Trap { vector } = ins {
            if (vector == TRAP_GETC || vector == TRAP_IN) && self.input.len() == 0
                && !self.input_closed {
                if vector == TRAP_IN {
                    self.show_prompt();
                }
                return Ok(Step::NeedsInput);
            }
        }
        self.inc_reg(REG_PC, 1);
        match self.execute(ins) {
            Ok(()) => Ok(Step::Executed),
            Err(e) => Err(e),
        }
    }
}

impl VM {
    /// Puts the machine in the running state with PC at the load address.
    pub fn start(&mut self)
        requires
            old(self).wf(),
        ensures
            final(self).wf(),
            final(self)@ == (Machine {
                running: true,
                ..with_reg(old(self)@, REG_PC as int, PC_START)
            }),
    {
        self.set_reg(REG_PC, PC_START);
        self.running = true;
    }

    /// Asks the machine to stop; nothing else changes, so the registers and
    /// memory stay as the last finished instruction left them.
    pub fn interrupt(&mut self)
        requires
            old(self).wf(),
        ensures
            final(self).wf(),
            final(self)@ == (Machine { running: false, ..old(self)@ }),
    {
        self.running = false;
    }

    /// The run flag.
    pub fn is_running(&self) -> (r: bool)
        ensures
            r == self@.running,
    {
        self.running
    }

    /// The memory, for inspection.
    pub fn memory(&self) -> (r: &Memory<u16>)
        requires
            self.wf(),
        ensures
            r@ == self@.mem,
            r.capacity_limit() == MEMORY_SIZE,
    {
        &self.memory
    }

    /// Hands host input bytes to the machine, after those already waiting.
    pub fn feed_input(&mut self, bytes: &[u8])
        requires
            old(self).wf(),
        ensures
            final(self).wf(),
            final(self)@ == (Machine { input: old(self)@.input + bytes@, ..old(self)@ }),
    {
        let mut i: usize = 0;
        while i < bytes.len()
            invariant
                self.wf(),
                i <= bytes@.len(),
                self@ == (Machine {
                    input: old(self)@.input + bytes@.subrange(0, i as int),
                    ..old(self)@
                }),
            decreases bytes@.len() - i,
        {
            self.input.push(bytes[i]);
            assert(old(self)@.input + bytes@.subrange(0, i + 1) =~= self.input@);
            i = i + 1;
        }
        assert(bytes@.subrange(0, i as int) =~= bytes@);
        assert(self@ =~= (Machine { input: old(self)@.input + bytes@, ..old(self)@ }));
    }

    /// Records that the host input has ended: a byte read that finds none fails.
    pub fn close_input(&mut self)
        requires
            old(self).wf(),
        ensures
            final(self).wf(),
            final(self)@ == (Machine { input_closed: true, ..old(self)@ }),
    {
        self.input_closed = true;
    }

    /// Returns the output written since the last call and forgets it.
    pub fn take_output(&mut self) -> (r: Vec<u8>)
        requires
            old(self).wf(),
        ensures
            final(self).wf(),
            r@ == old(self)@.output,
            final(self)@ == (Machine { output: Seq::empty(), ..old(self)@ }),
    {
        let mut out: Vec<u8> = Vec::new();
        core::mem::swap(&mut out, &mut self.output);
        assert(self@ =~= (Machine { output: Seq::empty(), ..old(self)@ }));
        out
    }

    /// Loads an object image: a big-endian origin word, then big-endian words
    /// written from the origin on. An image shorter than one word is an
    /// `IOError`; a word bound for an invalid address is an
    /// `InvalidMemoryAddress`, with the words before it written.
    pub fn load_image(&mut self, image: &Vec<u8>) -> (r: Result<(), Error>)
        requires
            old(self).wf(),
        ensures
            final(self).wf(),
            image@.len() < 2 ==> r == Err::<(), Error>(Error::IOError) && final(self)@ == old(
                self,
            )@,
            image@.len() >= 2 ==> {
                &&& final(self)@ == (Machine {
                    mem: loaded_mem(
                        old(self)@.mem,
                        image_origin(image@) as int,
                        image_words(image@),
                    ),
                    ..old(self)@
                })
                &&& r == if image_overflows(image@) {
                    Err(Error::InvalidMemoryAddress)
                } else {
                    Ok(())
                }
            },
    {
        if image.len() < 2 {
            return Err(Error::IOError);
        }
        let origin = be_word(image[0], image[1]) as usize;
        let n: usize = (image.len() - 2) / 2;
        let ghost words = image_words(image@);
        let ghost s0 = self@;
        assert(loaded_mem(s0.mem, origin as int, words.take(0)) =~= s0.mem);
        assert(self@ =~= (Machine { mem: loaded_mem(s0.mem, origin as int, words.take(0)), ..s0 }));
        let mut k: usize = 0;
        while k < n
            invariant
                self.wf(),
                s0 == old(self)@,
                s0.mem.len() == MEMORY_SIZE,
                words == image_words(image@),
                origin == image_origin(image@),
                n == words.len(),
                k <= n,
                image@.len() >= 2,
                n == (image@.len() - 2) / 2,
                k > 0 ==> 0 < origin && origin + k <= MEMORY_SIZE,
                self@ == (Machine { mem: loaded_mem(s0.mem, origin as int, words.take(k as int)), ..s0 }),
            decreases n - k,
        {
            let w = be_word(image[2 + 2 * k], image[2 + 2 * k + 1]);
            assert(w == words[k as int]);
            let ghost before = self@;
            match self.memory.write(origin + k, w) {
                Ok(()) => {},
                Err(e) => {
                    assert(loaded_mem(s0.mem, origin as int, words) =~= loaded_mem(
                        s0.mem,
                        origin as int,
                        words.take(k as int),
                    ));
                    return Err(e);
                },
            }
            assert(loaded_mem(s0.mem, origin as int, words.take(k + 1)) =~= before.mem.update(
                (origin + k) as int,
                w,
            ));
            assert(self@ =~= (Machine {
                mem: loaded_mem(s0.mem, origin as int, words.take(k + 1)),
                ..s0
            }));
            k = k + 1;
        }
        assert(words.take(n as int) =~= words);
        Ok(())
    }
}

/// The destination register of an instruction that sets the condition flags.
pub open spec fn flag_dest(ins: Instruction) -> Option<usize> {
    match ins {
        Instruction::Add { dr, .. } | Instruction::And { dr, .. } | Instruction::Not { dr, .. }
        | Instruction::Ld { dr, .. } | Instruction::Ldi { dr, .. } | Instruction::Ldr { dr, .. }
        | Instruction::Lea { dr, .. } => Some(dr),
        _ => None,
    }
}

/// After ADD, AND, NOT, LD, LDI, LDR or LEA completes, COND is the flag of the
/// value now in the destination register: ZRO for 0, NEG for a value with the
/// high bit set (0x8000 among them), POS otherwise (1 among them).
pub proof fn law_flags_follow_result(s: Machine, ins: Instruction, dr: usize)
    requires
        s.regs.len() == REG_COUNT,
        s.mem.len() == MEMORY_SIZE,
        regs_in_range(ins),
        flag_dest(ins) == Some(dr),
        execute(s, ins).1 is Ok,
    ensures
        execute(s, ins).0.regs[REG_COND as int] == flag_of(execute(s, ins).0.regs[dr as int]),
        flag_of(0) == FL_ZRO,
        flag_of(0x8000) == FL_NEG,
        flag_of(1) == FL_POS,
{
}

/// A TRAP HALT at PC completes without error and clears the run flag.
pub proof fn law_halt_stops(s: Machine)
    requires
        s.regs.len() == REG_COUNT,
        s.mem.len() == MEMORY_SIZE,
        s.regs[REG_PC as int] != 0,
        s.regs[REG_PC as int] != MR_KBSR,
        s.mem[s.regs[REG_PC as int] as int] == 0xF025,
    ensures
        spec_step(s).1 == Ok::<Step, Error>(Step::Executed),
        !spec_step(s).0.running,
{
    assert(0xF025u16 >> 12u16 == 15u16 && 0xF025u16 & 0xFFu16 == 0x25u16) by (bit_vector);
}

} // verus!
