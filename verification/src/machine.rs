use crate::display::{blank, blit, collides, grid_wf, Grid};
use crate::instruction::{spec_decode, Instruction};
use vstd::prelude::*;

verus! {

/// Number of addressable bytes.
pub const MEMORY_SIZE: usize = 4096;

/// Address at which a loaded program starts, and the initial program
/// counter.
pub const PROGRAM_START: usize = 0x200;

/// Number of return addresses the call stack can hold.
pub const STACK_CAPACITY: usize = 16;

/// The built-in glyphs for the digits `0` to `F`, five bytes each, held at
/// the bottom of memory.
pub const FONT: [u8; 80] = [
    0xF0, 0x90, 0x90, 0x90, 0xF0,
    0x20, 0x60, 0x20, 0x20, 0x70,
    0xF0, 0x10, 0xF0, 0x80, 0xF0,
    0xF0, 0x10, 0xF0, 0x10, 0xF0,
    0x90, 0x90, 0xF0, 0x10, 0x10,
    0xF0, 0x80, 0xF0, 0x10, 0xF0,
    0xF0, 0x80, 0xF0, 0x90, 0xF0,
    0xF0, 0x10, 0x20, 0x40, 0x40,
    0xF0, 0x90, 0xF0, 0x90, 0xF0,
    0xF0, 0x90, 0xF0, 0x10, 0xF0,
    0xF0, 0x90, 0xF0, 0x90, 0x90,
    0xE0, 0x90, 0xE0, 0x90, 0xE0,
    0xF0, 0x80, 0x80, 0x80, 0xF0,
    0xE0, 0x90, 0x90, 0x90, 0xE0,
    0xF0, 0x80, 0xF0, 0x80, 0xF0,
    0xF0, 0x80, 0xF0, 0x80, 0x80,
];

/// Why a step could not be carried out. A failed step changes nothing.
#[derive(Clone, Copy, Debug, PartialEq, Eq)]
pub enum CpuError {
    /// The fetched word matches no instruction.
    UnimplementedOpcode { opcode: u16 },
    /// A call with the call stack already full.
    StackOverflow,
    /// A return with the call stack empty.
    StackUnderflow,
    /// A fetch or a memory transfer that starts at `address` and reaches
    /// past the last byte of memory.
    OutOfBounds { address: u16 },
}

/// What a fallible operation reports and leaves behind, given the machine
/// `before` it and its `outcome` in the model: on success the machine that
/// the model gives, on failure the model's error and the machine untouched.
pub open spec fn settles(
    before: Machine,
    outcome: Result<Machine, CpuError>,
    report: Result<(), CpuError>,
    after: Machine,
) -> bool {
    match outcome {
        Ok(m) => report is Ok && after == m,
        Err(e) => report == Err::<(), CpuError>(e) && after == before,
    }
}

/// The state of the machine as a mathematical value.
#[verifier::ext_equal]
pub struct Machine {
    /// The `MEMORY_SIZE` bytes of memory.
    pub memory: Seq<u8>,
    /// The framebuffer.
    pub display: Grid,
    /// Address of the next instruction.
    pub pc: u16,
    /// The index register `I`.
    pub index: u16,
    /// The sixteen registers `V0` to `VF`.
    pub registers: Seq<u8>,
    /// The return addresses of the calls in progress, oldest first.
    pub stack: Seq<u16>,
    /// The delay timer.
    pub delay_timer: u8,
}

impl Machine {
    /// Memory, registers and framebuffer have their fixed sizes and the
    /// call stack is within its capacity.
    pub open spec fn wf(self) -> bool {
        &&& self.memory.len() == MEMORY_SIZE
        &&& grid_wf(self.display)
        &&& self.registers.len() == 16
        &&& self.stack.len() <= STACK_CAPACITY
    }

    /// The machine at power-on: the font at the bottom of memory, all else
    /// zero, and the program counter at `PROGRAM_START`.
    pub open spec fn initial() -> Machine {
        Machine {
            memory: Seq::new(
                MEMORY_SIZE as nat,
                |a: int| if a < 80 { FONT@[a] } else { 0u8 },
            ),
            display: blank(),
            pc: PROGRAM_START as u16,
            index: 0,
            registers: Seq::new(16, |r: int| 0u8),
            stack: Seq::empty(),
            delay_timer: 0,
        }
    }

    /// How many bytes of a program of `len` bytes find no room in memory.
    pub open spec fn dropped(len: int) -> int {
        if len > MEMORY_SIZE - PROGRAM_START {
            len - (MEMORY_SIZE - PROGRAM_START)
        } else {
            0
        }
    }

    /// The machine after `rom` has been copied to memory from
    /// `PROGRAM_START` on. Bytes that would lie past the end of memory are
    /// dropped; nothing but memory changes.
    pub open spec fn load(self, rom: Seq<u8>) -> Machine {
        Machine {
            memory: Seq::new(
                MEMORY_SIZE as nat,
                |a: int|
                    if PROGRAM_START <= a < PROGRAM_START + rom.len() {
                        rom[a - PROGRAM_START]
                    } else {
                        self.memory[a]
                    },
            ),
            ..self
        }
    }

    /// The big-endian instruction word at the program counter.
    pub open spec fn fetch(self) -> u16 {
        (self.memory[self.pc as int] * 256 + self.memory[self.pc + 1]) as u16
    }

    /// The delay timer counts down by one unless it is already zero.
    pub open spec fn tick_timer(self) -> Machine {
        Machine {
            delay_timer: if self.delay_timer > 0 {
                (self.delay_timer - 1) as u8
            } else {
                0
            },
            ..self
        }
    }

    /// The program counter moves on to the next instruction.
    pub open spec fn next(self) -> Machine {
        Machine { pc: (self.pc + 2) as u16, ..self }
    }

    /// The program counter moves on by one instruction, or by two where
    /// `skip` holds.
    pub open spec fn next_skip_if(self, skip: bool) -> Machine {
        Machine { pc: (self.pc + if skip { 4int } else { 2int }) as u16, ..self }
    }

    /// Register `x` holds `value`.
    pub open spec fn with_register(self, x: u8, value: u8) -> Machine {
        Machine { registers: self.registers.update(x as int, value), ..self }
    }

    /// The flag register `VF` holds `value`.
    pub open spec fn with_flag(self, value: u8) -> Machine {
        self.with_register(0xF, value)
    }

    /// The content of register `x`.
    pub open spec fn v(self, x: u8) -> u8 {
        self.registers[x as int]
    }

    /// Whether the `len` bytes from the index register on lie in memory.
    pub open spec fn index_in_bounds(self, len: int) -> bool {
        self.index + len <= MEMORY_SIZE
    }

    /// The `n` bytes from the index register on.
    pub open spec fn sprite(self, n: u8) -> Seq<u8> {
        Seq::new(n as nat, |row: int| self.memory[self.index + row])
    }

    /// The sum of two registers: the low eight bits go to `Vx`, and then
    /// the carry goes to `VF`.
    pub open spec fn add_with_carry(self, x: u8, y: u8) -> Machine {
        let sum = self.v(x) + self.v(y);
        self.with_register(x, (sum % 256) as u8).with_flag(
            if sum > 255 {
                1
            } else {
                0
            },
        ).next()
    }

    /// The sprite of `n` rows at the index register is XORed onto the
    /// framebuffer at `(Vx, Vy)`, and then `VF` is one where that turned a
    /// lit pixel off and zero where it did not.
    pub open spec fn draw(self, x: u8, y: u8, n: u8) -> Machine {
        let sprite = self.sprite(n);
        let vx = self.v(x) as int;
        let vy = self.v(y) as int;
        Machine { display: blit(self.display, sprite, vx, vy), ..self }.with_flag(
            if collides(self.display, sprite, vx, vy) {
                1
            } else {
                0
            },
        ).next()
    }

    /// The outcome of carrying out one instruction: the machine after it,
    /// or the reason why it cannot be carried out.
    ///
    /// Register operands are read before anything is written, and an
    /// instruction that reports a carry, a shifted-out value or a collision
    /// writes it to `VF` last.
    pub open spec fn execute(self, i: Instruction) -> Result<Machine, CpuError> {
        match i {
            Instruction::ClearScreen => Ok(Machine { display: blank(), ..self }.next()),
            Instruction::Return => if self.stack.len() == 0 {
                Err(CpuError::StackUnderflow)
            } else {
                Ok(Machine { pc: self.stack.last(), stack: self.stack.drop_last(), ..self })
            },
            Instruction::Jump { nnn } => Ok(Machine { pc: nnn, ..self }),
            Instruction::Call { nnn } => if self.stack.len() >= STACK_CAPACITY {
                Err(CpuError::StackOverflow)
            } else {
                Ok(Machine { pc: nnn, stack: self.stack.push((self.pc + 2) as u16), ..self })
            },
            Instruction::SkipEqImm { x, nn } => Ok(self.next_skip_if(self.v(x) == nn)),
            Instruction::SkipNeImm { x, nn } => Ok(self.next_skip_if(self.v(x) != nn)),
            Instruction::SkipEq { x, y } => Ok(self.next_skip_if(self.v(x) == self.v(y))),
            Instruction::LoadImm { x, nn } => Ok(self.with_register(x, nn).next()),
            Instruction::AddImm { x, nn } => Ok(
                self.with_register(x, ((self.v(x) + nn) % 256) as u8).next(),
            ),
            Instruction::Move { x, y } => Ok(self.with_register(x, self.v(y)).next()),
            Instruction::Or { x, y } => Ok(self.with_register(x, self.v(x) | self.v(y)).next()),
            Instruction::And { x, y } => Ok(self.with_register(x, self.v(x) & self.v(y)).next()),
            Instruction::Xor { x, y } => Ok(self.with_register(x, self.v(x) ^ self.v(y)).next()),
            Instruction::Add { x, y } => Ok(self.add_with_carry(x, y)),
            Instruction::Sub { x, y } => Ok(self.add_with_carry(x, y)),
            Instruction::ShiftRight { x, y } => Ok(
                self.with_register(x, self.v(x) / 2).with_flag(self.v(x) % 16).next(),
            ),
            Instruction::SubReversed { x, y } => Ok(self.add_with_carry(x, y)),
            Instruction::ShiftLeft { x, y } => Ok(
                self.with_register(x, ((self.v(x) * 2) % 256) as u8).with_flag(
                    self.v(x) / 128,
                ).next(),
            ),
            Instruction::SkipNe { x, y } => Ok(self.next_skip_if(self.v(x) != self.v(y))),
            Instruction::LoadIndex { nnn } => Ok(Machine { index: nnn, ..self }.next()),
            Instruction::JumpOffset { nnn } => Ok(
                Machine { pc: (self.v(0) + nnn) as u16, ..self },
            ),
            Instruction::Draw { x, y, n } => if !self.index_in_bounds(n as int) && n > 0 {
                Err(CpuError::OutOfBounds { address: self.index })
            } else {
                Ok(self.draw(x, y, n))
            },
            Instruction::SetDelay { x } => Ok(Machine { delay_timer: self.v(x), ..self }.next()),
            Instruction::StoreBcd { x } => if !self.index_in_bounds(3) {
                Err(CpuError::OutOfBounds { address: self.index })
            } else {
                let vx = self.v(x);
                Ok(
                    Machine {
                        memory: self.memory.update(self.index as int, vx / 100).update(
                            self.index + 1,
                            (vx % 100) / 10,
                        ).update(self.index + 2, vx % 10),
                        ..self
                    }.next(),
                )
            },
            Instruction::StoreRegisters { x } => if !self.index_in_bounds(x + 1) {
                Err(CpuError::OutOfBounds { address: self.index })
            } else {
                Ok(
                    Machine {
                        memory: Seq::new(
                            MEMORY_SIZE as nat,
                            |a: int|
                                if self.index <= a <= self.index + x {
                                    self.registers[a - self.index]
                                } else {
                                    self.memory[a]
                                },
                        ),
                        ..self
                    }.next(),
                )
            },
            Instruction::LoadRegisters { x } => if !self.index_in_bounds(x + 1) {
                Err(CpuError::OutOfBounds { address: self.index })
            } else {
                Ok(
                    Machine {
                        registers: Seq::new(
                            16,
                            |r: int|
                                if r <= x {
                                    self.memory[self.index + r]
                                } else {
                                    self.registers[r]
                                },
                        ),
                        ..self
                    }.next(),
                )
            },
        }
    }

    /// The outcome of one instruction cycle: the delay timer counts down,
    /// then the word at the program counter is fetched, decoded and carried
    /// out. Where the fetch, the decoding or the instruction fails, the
    /// result is the reason.
    pub open spec fn step(self) -> Result<Machine, CpuError> {
        if self.pc + 2 > MEMORY_SIZE {
            Err(CpuError::OutOfBounds { address: self.pc })
        } else {
            match spec_decode(self.fetch()) {
                None => Err(CpuError::UnimplementedOpcode { opcode: self.fetch() }),
                Some(i) => self.tick_timer().execute(i),
            }
        }
    }
}

} // verus!
