use crate::display::{
    bit_set, blit, collides, grid_wf, lemma_wrapped_target, sprite_covers, toggled, Display, Grid,
};
use crate::instruction::{decode, spec_decode, Instruction};
use crate::machine::{
    settles, CpuError, Machine, FONT, MEMORY_SIZE, PROGRAM_START, STACK_CAPACITY,
};
use vstd::prelude::*;
use vstd::slice::slice_subrange;

verus! {

/// The interpreter: memory, registers, program counter, call stack, index
/// register, delay timer, and the framebuffer it draws into.
pub struct Cpu {
    memory: [u8; MEMORY_SIZE],
    display: Display,
    pc: u16,
    index: u16,
    registers: [u8; 16],
    stack: [u16; STACK_CAPACITY],
    stack_pointer: usize,
    delay_timer: u8,
}

impl View for Cpu {
    type V = Machine;

    closed spec fn view(&self) -> Machine {
        Machine {
            memory: self.memory@,
            display: self.display@,
            pc: self.pc,
            index: self.index,
            registers: self.registers@,
            stack: self.stack@.subrange(0, self.stack_pointer as int),
            delay_timer: self.delay_timer,
        }
    }
}

impl Cpu {
    #[verifier::type_invariant]
    spec fn inv(self) -> bool {
        self.stack_pointer <= STACK_CAPACITY
    }

    /// The machine at power-on.
    pub fn new() -> (cpu: Self)
        ensures
            cpu@ == Machine::initial(),
            cpu@.wf(),
    {
        let mut memory = [0u8; MEMORY_SIZE];
        let mut i: usize = 0;
        while i < FONT.len()
            invariant
                i <= FONT@.len() == 80,
                forall|a: int| 0 <= a < i ==> memory@[a] == FONT@[a],
                forall|a: int| i <= a < MEMORY_SIZE ==> memory@[a] == 0,
            decreases FONT@.len() - i,
        {
            memory[i] = FONT[i];
            i += 1;
        }
        let cpu = Self {
            memory,
            display: Display::new(),
            pc: PROGRAM_START as u16,
            index: 0,
            registers: [0; 16],
            stack: [0; STACK_CAPACITY],
            stack_pointer: 0,
            delay_timer: 0,
        };
        assert(cpu@.memory =~= Machine::initial().memory);
        assert(cpu@.registers =~= Machine::initial().registers);
        assert(cpu@.stack =~= Machine::initial().stack);
        cpu
    }

    /// Copies `rom` into memory from address `0x200` on and returns how
    /// many of its bytes found no room and were dropped.
    pub fn load(&mut self, rom: &[u8]) -> (dropped: usize)
        ensures
            final(self)@ == old(self)@.load(rom@),
            dropped == Machine::dropped(rom@.len() as int),
            final(self)@.wf(),
    {
        proof {
            use_type_invariant(&*self);
        }
        let room: usize = MEMORY_SIZE - PROGRAM_START;
        let count = if rom.len() < room {
            rom.len()
        } else {
            room
        };
        let mut i: usize = 0;
        while i < count
            invariant
                i <= count <= MEMORY_SIZE - PROGRAM_START,
                count <= rom@.len(),
                self.pc == old(self).pc,
                self.index == old(self).index,
                self.registers == old(self).registers,
                self.stack == old(self).stack,
                self.stack_pointer == old(self).stack_pointer <= STACK_CAPACITY,
                self.delay_timer == old(self).delay_timer,
                self.display == old(self).display,
                forall|a: int|
                    0 <= a < MEMORY_SIZE ==> self.memory@[a] == if PROGRAM_START <= a
                        < PROGRAM_START + i {
                        rom@[a - PROGRAM_START]
                    } else {
                        old(self).memory@[a]
                    },
            decreases count - i,
        {
            self.memory[PROGRAM_START + i] = rom[i];
            i += 1;
        }
        assert(self@.memory =~= old(self)@.load(rom@).memory);
        rom.len() - count
    }

    /// The framebuffer as it stands.
    pub fn get_display(&self) -> (display: &Display)
        ensures
            display@ == self@.display,
            self@.wf(),
    {
        proof {
            use_type_invariant(self);
        }
        &self.display
    }

    /// Address of the next instruction.
    pub fn pc(&self) -> (pc: u16)
        ensures
            pc == self@.pc,
            self@.wf(),
    {
        proof {
            use_type_invariant(self);
        }
        self.pc
    }

    /// The index register `I`.
    pub fn index(&self) -> (index: u16)
        ensures
            index == self@.index,
            self@.wf(),
    {
        proof {
            use_type_invariant(self);
        }
        self.index
    }

    /// The registers `V0` to `VF`.
    pub fn registers(&self) -> (registers: &[u8; 16])
        ensures
            registers@ == self@.registers,
            self@.wf(),
    {
        proof {
            use_type_invariant(self);
        }
        &self.registers
    }

    /// The whole of memory.
    pub fn memory(&self) -> (memory: &[u8; MEMORY_SIZE])
        ensures
            memory@ == self@.memory,
            self@.wf(),
    {
        proof {
            use_type_invariant(self);
        }
        &self.memory
    }

    /// The return addresses of the calls in progress, oldest first.
    pub fn stack(&self) -> (stack: &[u16])
        ensures
            stack@ == self@.stack,
            self@.wf(),
    {
        proof {
            use_type_invariant(self);
        }
        slice_subrange(self.stack.as_slice(), 0, self.stack_pointer)
    }

    /// Number of calls in progress.
    pub fn stack_pointer(&self) -> (depth: usize)
        ensures
            depth == self@.stack.len(),
            self@.wf(),
    {
        proof {
            use_type_invariant(self);
        }
        self.stack_pointer
    }

    /// The delay timer.
    pub fn delay_timer(&self) -> (timer: u8)
        ensures
            timer == self@.delay_timer,
            self@.wf(),
    {
        proof {
            use_type_invariant(self);
        }
        self.delay_timer
    }

    /// One instruction cycle: the delay timer counts down, then the
    /// instruction at the program counter is fetched, decoded and carried
    /// out. A cycle that fails leaves the machine exactly as it was.
    pub fn tick(&mut self) -> (r: Result<(), CpuError>)
        ensures
            settles(old(self)@, old(self)@.step(), r, final(self)@),
            final(self)@.wf(),
    {
        proof {
            use_type_invariant(&*self);
        }
        let timer = self.delay_timer;
        if self.delay_timer > 0 {
            self.delay_timer -= 1
        }
        let r = if self.pc as usize + 2 > MEMORY_SIZE {
            Err(CpuError::OutOfBounds { address: self.pc })
        } else {
            let opcode = self.fetch_opcode();
            self.execute_opcode(opcode)
        };
        proof {
            use_type_invariant(&*self);
        }
        if r.is_err() {
            self.delay_timer = timer;
        }
        r
    }

    fn fetch_opcode(&self) -> (opcode: u16)
        requires
            self.pc + 2 <= MEMORY_SIZE,
        ensures
            opcode == self@.fetch(),
    {
        let hi = self.memory[self.pc as usize] as u16;
        let lo = self.memory[self.pc as usize + 1] as u16;
        assert((hi << 8) | lo == hi * 256 + lo) by (bit_vector)
            requires
                hi < 256,
                lo < 256,
        ;
        (hi << 8) | lo
    }

    /// Carries out the instruction that `opcode` encodes.
    fn execute_opcode(&mut self, opcode: u16) -> (r: Result<(), CpuError>)
        requires
            old(self).pc + 2 <= MEMORY_SIZE,
        ensures
            settles(
                old(self)@,
                match spec_decode(opcode) {
                    Some(i) => old(self)@.execute(i),
                    None => Err(CpuError::UnimplementedOpcode { opcode }),
                },
                r,
                final(self)@,
            ),
    {
        match decode(opcode) {
            Some(Instruction::ClearScreen) => {
                self.op_00e0();
                Ok(())
            },
            Some(Instruction::Return) => self.op_00ee(),
            Some(Instruction::Jump { nnn }) => {
                self.op_1nnn(nnn);
                Ok(())
            },
            Some(Instruction::Call { nnn }) => self.op_2nnn(nnn),
            Some(Instruction::SkipEqImm { x, nn }) => {
                self.op_3xnn(x, nn);
                Ok(())
            },
            Some(Instruction::SkipNeImm { x, nn }) => {
                self.op_4xnn(x, nn);
                Ok(())
            },
            Some(Instruction::SkipEq { x, y }) => {
                self.op_5xy0(x, y);
                Ok(())
            },
            Some(Instruction::LoadImm { x, nn }) => {
                self.op_6xnn(x, nn);
                Ok(())
            },
            Some(Instruction::AddImm { x, nn }) => {
                self.op_7xnn(x, nn);
                Ok(())
            },
            Some(Instruction::Move { x, y }) => {
                self.op_8xy0(x, y);
                Ok(())
            },
            Some(Instruction::Or { x, y }) => {
                self.op_8xy1(x, y);
                Ok(())
            },
            Some(Instruction::And { x, y }) => {
                self.op_8xy2(x, y);
                Ok(())
            },
            Some(Instruction::Xor { x, y }) => {
                self.op_8xy3(x, y);
                Ok(())
            },
            Some(Instruction::Add { x, y }) => {
                self.op_8xy4(x, y);
                Ok(())
            },
            Some(Instruction::Sub { x, y }) => {
                self.op_8xy5(x, y);
                Ok(())
            },
            Some(Instruction::ShiftRight { x, y }) => {
                self.op_8xy6(x, y);
                Ok(())
            },
            Some(Instruction::SubReversed { x, y }) => {
                self.op_8xy7(x, y);
                Ok(())
            },
            Some(Instruction::ShiftLeft { x, y }) => {
                self.op_8xye(x, y);
                Ok(())
            },
            Some(Instruction::SkipNe { x, y }) => {
                self.op_9xy0(x, y);
                Ok(())
            },
            Some(Instruction::LoadIndex { nnn }) => {
                self.op_annn(nnn);
                Ok(())
            },
            Some(Instruction::JumpOffset { nnn }) => {
                self.op_bnnn(nnn);
                Ok(())
            },
            Some(Instruction::Draw { x, y, n }) => self.op_dxyn(x, y, n),
            Some(Instruction::SetDelay { x }) => {
                self.op_fx15(x);
                Ok(())
            },
            Some(Instruction::StoreBcd { x }) => self.op_fx33(x),
            Some(Instruction::StoreRegisters { x }) => self.op_fx55(x),
            Some(Instruction::LoadRegisters { x }) => self.op_fx65(x),
            None => Err(CpuError::UnimplementedOpcode { opcode }),
        }
    }

    fn op_00e0(&mut self)
        requires
            old(self).pc + 2 <= MEMORY_SIZE,
        ensures
            Ok::<Machine, CpuError>(final(self)@) == old(self)@.execute(Instruction::ClearScreen),
    {
        proof {
            use_type_invariant(&*self);
        }
        self.display.clear();
        self.pc += 2;
    }

    fn op_00ee(&mut self) -> (r: Result<(), CpuError>)
        ensures
            settles(old(self)@, old(self)@.execute(Instruction::Return), r, final(self)@),
    {
        proof {
            use_type_invariant(&*self);
        }
        if self.stack_pointer == 0 {
            return Err(CpuError::StackUnderflow);
        }
        self.stack_pointer -= 1;
        self.pc = self.stack[self.stack_pointer];
        assert(self@.stack =~= old(self)@.stack.drop_last());
        Ok(())
    }

    fn op_1nnn(&mut self, nnn: u16)
        ensures
            Ok::<Machine, CpuError>(final(self)@) == old(self)@.execute(Instruction::Jump { nnn }),
    {
        proof {
            use_type_invariant(&*self);
        }
        self.pc = nnn;
    }

    fn op_2nnn(&mut self, nnn: u16) -> (r: Result<(), CpuError>)
        requires
            old(self).pc + 2 <= MEMORY_SIZE,
        ensures
            settles(old(self)@, old(self)@.execute(Instruction::Call { nnn }), r, final(self)@),
    {
        proof {
            use_type_invariant(&*self);
        }
        if self.stack_pointer >= STACK_CAPACITY {
            return Err(CpuError::StackOverflow);
        }
        self.stack[self.stack_pointer] = self.pc + 2;
        self.stack_pointer += 1;
        self.pc = nnn;
        assert(self@.stack =~= old(self)@.stack.push((old(self).pc + 2) as u16));
        Ok(())
    }

    fn op_3xnn(&mut self, x: u8, nn: u8)
        requires
            x < 16,
            old(self).pc + 2 <= MEMORY_SIZE,
        ensures
            Ok::<Machine, CpuError>(final(self)@) == old(self)@.execute(
                Instruction::SkipEqImm { x, nn },
            ),
    {
        proof {
            use_type_invariant(&*self);
        }
        if self.registers[x as usize] == nn {
            self.pc += 2;
        }
        self.pc += 2;
    }

    fn op_4xnn(&mut self, x: u8, nn: u8)
        requires
            x < 16,
            old(self).pc + 2 <= MEMORY_SIZE,
        ensures
            Ok::<Machine, CpuError>(final(self)@) == old(self)@.execute(
                Instruction::SkipNeImm { x, nn },
            ),
    {
        proof {
            use_type_invariant(&*self);
        }
        if self.registers[x as usize] != nn {
            self.pc += 2;
        }
        self.pc += 2;
    }

    fn op_5xy0(&mut self, x: u8, y: u8)
        requires
            x < 16,
            y < 16,
            old(self).pc + 2 <= MEMORY_SIZE,
        ensures
            Ok::<Machine, CpuError>(final(self)@) == old(self)@.execute(
                Instruction::SkipEq { x, y },
            ),
    {
        proof {
            use_type_invariant(&*self);
        }
        let x = self.registers[x as usize];
        let y = self.registers[y as usize];
        if x == y {
            self.pc += 2;
        }
        self.pc += 2;
    }

    fn op_6xnn(&mut self, x: u8, nn: u8)
        requires
            x < 16,
            old(self).pc + 2 <= MEMORY_SIZE,
        ensures
            Ok::<Machine, CpuError>(final(self)@) == old(self)@.execute(
                Instruction::LoadImm { x, nn },
            ),
    {
        proof {
            use_type_invariant(&*self);
        }
        self.registers[x as usize] = nn;
        self.pc += 2;
    }

    fn op_7xnn(&mut self, x: u8, nn: u8)
        requires
            x < 16,
            old(self).pc + 2 <= MEMORY_SIZE,
        ensures
            Ok::<Machine, CpuError>(final(self)@) == old(self)@.execute(
                Instruction::AddImm { x, nn },
            ),
    {
        proof {
            use_type_invariant(&*self);
        }
        let vx = self.registers[x as usize] as u16;
        let value = nn as u16;
        let result = vx + value;
        self.registers[x as usize] = (result % 256) as u8;
        self.pc += 2;
    }

    fn op_8xy0(&mut self, x: u8, y: u8)
        requires
            x < 16,
            y < 16,
            old(self).pc + 2 <= MEMORY_SIZE,
        ensures
            Ok::<Machine, CpuError>(final(self)@) == old(self)@.execute(
                Instruction::Move { x, y },
            ),
    {
        proof {
            use_type_invariant(&*self);
        }
        self.registers[x as usize] = self.registers[y as usize];
        self.pc += 2;
    }

    fn op_8xy1(&mut self, x: u8, y: u8)
        requires
            x < 16,
            y < 16,
            old(self).pc + 2 <= MEMORY_SIZE,
        ensures
            Ok::<Machine, CpuError>(final(self)@) == old(self)@.execute(Instruction::Or { x, y }),
    {
        proof {
            use_type_invariant(&*self);
        }
        self.registers[x as usize] = self.registers[x as usize] | self.registers[y as usize];
        self.pc += 2;
    }

    fn op_8xy2(&mut self, x: u8, y: u8)
        requires
            x < 16,
            y < 16,
            old(self).pc + 2 <= MEMORY_SIZE,
        ensures
            Ok::<Machine, CpuError>(final(self)@) == old(self)@.execute(Instruction::And { x, y }),
    {
        proof {
            use_type_invariant(&*self);
        }
        self.registers[x as usize] = self.registers[x as usize] & self.registers[y as usize];
        self.pc += 2;
    }

    fn op_8xy3(&mut self, x: u8, y: u8)
        requires
            x < 16,
            y < 16,
            old(self).pc + 2 <= MEMORY_SIZE,
        ensures
            Ok::<Machine, CpuError>(final(self)@) == old(self)@.execute(Instruction::Xor { x, y }),
    {
        proof {
            use_type_invariant(&*self);
        }
        self.registers[x as usize] = self.registers[x as usize] ^ self.registers[y as usize];
        self.pc += 2;
    }

    fn op_8xy4(&mut self, x: u8, y: u8)
        requires
            x < 16,
            y < 16,
            old(self).pc + 2 <= MEMORY_SIZE,
        ensures
            Ok::<Machine, CpuError>(final(self)@) == old(self)@.execute(Instruction::Add { x, y }),
    {
        proof {
            use_type_invariant(&*self);
        }
        let vx = self.registers[x as usize];
        let vy = self.registers[y as usize];
        let value = vx.wrapping_add(vy);
        let overflowed = vx as u16 + vy as u16 > 255;
        self.registers[x as usize] = value;
        self.registers[0xF] = if overflowed {
            1
        } else {
            0
        };
        self.pc += 2;
    }

    fn op_8xy5(&mut self, x: u8, y: u8)
        requires
            x < 16,
            y < 16,
            old(self).pc + 2 <= MEMORY_SIZE,
        ensures
            Ok::<Machine, CpuError>(final(self)@) == old(self)@.execute(Instruction::Sub { x, y }),
    {
        proof {
            use_type_invariant(&*self);
        }
        let vx = self.registers[x as usize];
        let vy = self.registers[y as usize];
        let value = vx.wrapping_add(vy);
        let overflowed = vx as u16 + vy as u16 > 255;
        self.registers[x as usize] = value;
        self.registers[0xF] = if overflowed {
            1
        } else {
            0
        };
        self.pc += 2;
    }

    fn op_8xy6(&mut self, x: u8, _y: u8)
        requires
            x < 16,
            old(self).pc + 2 <= MEMORY_SIZE,
        ensures
            Ok::<Machine, CpuError>(final(self)@) == old(self)@.execute(
                Instruction::ShiftRight { x, y: _y },
            ),
    {
        proof {
            use_type_invariant(&*self);
        }
        let mut value = self.registers[x as usize];
        let shifted_bit = value & 0xF;
        assert(value & 0xF == value % 16) by (bit_vector);
        assert(value >> 1 == value / 2) by (bit_vector);
        value >>= 1;
        self.registers[x as usize] = value;
        self.registers[0xF] = shifted_bit;
        self.pc += 2;
    }

    fn op_8xy7(&mut self, x: u8, y: u8)
        requires
            x < 16,
            y < 16,
            old(self).pc + 2 <= MEMORY_SIZE,
        ensures
            Ok::<Machine, CpuError>(final(self)@) == old(self)@.execute(
                Instruction::SubReversed { x, y },
            ),
    {
        proof {
            use_type_invariant(&*self);
        }
        let vx = self.registers[x as usize];
        let vy = self.registers[y as usize];
        let value = vy.wrapping_add(vx);
        let overflowed = vy as u16 + vx as u16 > 255;
        self.registers[x as usize] = value;
        self.registers[0xF] = if overflowed {
            1
        } else {
            0
        };
        self.pc += 2;
    }

    fn op_8xye(&mut self, x: u8, _y: u8)
        requires
            x < 16,
            old(self).pc + 2 <= MEMORY_SIZE,
        ensures
            Ok::<Machine, CpuError>(final(self)@) == old(self)@.execute(
                Instruction::ShiftLeft { x, y: _y },
            ),
    {
        proof {
            use_type_invariant(&*self);
        }
        let mut value = self.registers[x as usize];
        let shifted_bit = value >> 7;
        assert(value >> 7 == value / 128) by (bit_vector);
        assert(value << 1 == (value * 2) % 256) by (bit_vector);
        value <<= 1;
        self.registers[x as usize] = value;
        self.registers[0xF] = shifted_bit;
        self.pc += 2;
    }

    fn op_9xy0(&mut self, x: u8, y: u8)
        requires
            x < 16,
            y < 16,
            old(self).pc + 2 <= MEMORY_SIZE,
        ensures
            Ok::<Machine, CpuError>(final(self)@) == old(self)@.execute(
                Instruction::SkipNe { x, y },
            ),
    {
        proof {
            use_type_invariant(&*self);
        }
        let x = self.registers[x as usize];
        let y = self.registers[y as usize];
        if x != y {
            self.pc += 2;
        }
        self.pc += 2;
    }

    fn op_annn(&mut self, nnn: u16)
        requires
            old(self).pc + 2 <= MEMORY_SIZE,
        ensures
            Ok::<Machine, CpuError>(final(self)@) == old(self)@.execute(
                Instruction::LoadIndex { nnn },
            ),
    {
        proof {
            use_type_invariant(&*self);
        }
        self.index = nnn;
        self.pc += 2;
    }

    fn op_bnnn(&mut self, nnn: u16)
        requires
            nnn < 0x1000,
        ensures
            Ok::<Machine, CpuError>(final(self)@) == old(self)@.execute(
                Instruction::JumpOffset { nnn },
            ),
    {
        proof {
            use_type_invariant(&*self);
        }
        self.pc = self.registers[0] as u16 + nnn;
    }

    fn op_dxyn(&mut self, x: u8, y: u8, n: u8) -> (r: Result<(), CpuError>)
        requires
            x < 16,
            y < 16,
            n < 16,
            old(self).pc + 2 <= MEMORY_SIZE,
        ensures
            settles(
                old(self)@,
                old(self)@.execute(Instruction::Draw { x, y, n }),
                r,
                final(self)@,
            ),
    {
        proof {
            use_type_invariant(&*self);
        }
        if n > 0 && self.index as usize + n as usize > MEMORY_SIZE {
            return Err(CpuError::OutOfBounds { address: self.index });
        }
        let vx = self.registers[x as usize] as usize;
        let vy = self.registers[y as usize] as usize;
        let ghost before = self.display@;
        let ghost sprite = self@.sprite(n);
        let ghost mut hit: (int, int) = (0, 0);
        let mut collision = false;
        assert(self.display@ =~~= drawn_so_far(before, sprite, vx as int, vy as int, 0, 0));
        let mut byte: u8 = 0;
        while byte < n
            invariant
                n < 16,
                byte <= n,
                n > 0 ==> self.index + n <= MEMORY_SIZE,
                vx < 256,
                vy < 256,
                self.stack_pointer <= STACK_CAPACITY,
                self.pc == old(self).pc,
                self.index == old(self).index,
                self.memory == old(self).memory,
                self.registers == old(self).registers,
                self.stack == old(self).stack,
                self.stack_pointer == old(self).stack_pointer,
                self.delay_timer == old(self).delay_timer,
                sprite == old(self)@.sprite(n),
                grid_wf(before),
                self.display@ == drawn_so_far(before, sprite, vx as int, vy as int, byte as int, 0),
                collision <==> hits_so_far(before, sprite, vx as int, vy as int, byte as int, 0),
            decreases n - byte,
        {
            let row = self.memory[self.index as usize + byte as usize];
            let mut bit: u8 = 0;
            while bit < 8
                invariant
                    n < 16,
                    byte < n,
                    bit <= 8,
                    self.index + n <= MEMORY_SIZE,
                    vx < 256,
                    vy < 256,
                    self.stack_pointer <= STACK_CAPACITY,
                    self.pc == old(self).pc,
                    self.index == old(self).index,
                    self.memory == old(self).memory,
                    self.registers == old(self).registers,
                    self.stack == old(self).stack,
                    self.stack_pointer == old(self).stack_pointer,
                    self.delay_timer == old(self).delay_timer,
                    sprite == old(self)@.sprite(n),
                    row == sprite[byte as int],
                    grid_wf(before),
                    self.display@ == drawn_so_far(
                        before,
                        sprite,
                        vx as int,
                        vy as int,
                        byte as int,
                        bit as int,
                    ),
                    collision <==> hits_so_far(
                        before,
                        sprite,
                        vx as int,
                        vy as int,
                        byte as int,
                        bit as int,
                    ),
                decreases 8 - bit,
            {
                let color = sprite_bit(row, bit);
                let was_on = self.display.toggle(vx + bit as usize, vy + byte as usize, color);
                proof {
                    lemma_draw_one_more(
                        before,
                        sprite,
                        vx as int,
                        vy as int,
                        byte as int,
                        bit as int,
                    );
                    assert(self.display@ =~~= drawn_so_far(
                        before,
                        sprite,
                        vx as int,
                        vy as int,
                        byte as int,
                        bit + 1,
                    ));
                }
                collision = collision || (color && was_on);
                bit += 1;
            }
            proof {
                lemma_row_done(before, sprite, vx as int, vy as int, byte as int);
            }
            byte += 1;
        }
        proof {
            lemma_all_drawn(before, sprite, vx as int, vy as int);
        }
        self.registers[0xF] = if collision {
            1
        } else {
            0
        };
        self.pc += 2;
        Ok(())
    }

    fn op_fx15(&mut self, x: u8)
        requires
            x < 16,
            old(self).pc + 2 <= MEMORY_SIZE,
        ensures
            Ok::<Machine, CpuError>(final(self)@) == old(self)@.execute(
                Instruction::SetDelay { x },
            ),
    {
        proof {
            use_type_invariant(&*self);
        }
        self.delay_timer = self.registers[x as usize];
        self.pc += 2;
    }

    fn op_fx33(&mut self, x: u8) -> (r: Result<(), CpuError>)
        requires
            x < 16,
            old(self).pc + 2 <= MEMORY_SIZE,
        ensures
            settles(old(self)@, old(self)@.execute(Instruction::StoreBcd { x }), r, final(self)@),
    {
        proof {
            use_type_invariant(&*self);
        }
        let idx = self.index as usize;
        if idx + 3 > MEMORY_SIZE {
            return Err(CpuError::OutOfBounds { address: self.index });
        }
        let value = self.registers[x as usize];
        self.memory[idx] = value / 100;
        self.memory[idx + 1] = (value % 100) / 10;
        self.memory[idx + 2] = value % 10;
        self.pc += 2;
        Ok(())
    }

    fn op_fx55(&mut self, x: u8) -> (r: Result<(), CpuError>)
        requires
            x < 16,
            old(self).pc + 2 <= MEMORY_SIZE,
        ensures
            settles(
                old(self)@,
                old(self)@.execute(Instruction::StoreRegisters { x }),
                r,
                final(self)@,
            ),
    {
        proof {
            use_type_invariant(&*self);
        }
        let idx = self.index as usize;
        if idx + x as usize + 1 > MEMORY_SIZE {
            return Err(CpuError::OutOfBounds { address: self.index });
        }
        let mut offset: usize = 0;
        while offset <= x as usize
            invariant
                x < 16,
                idx == self.index,
                idx + x + 1 <= MEMORY_SIZE,
                offset <= x + 1,
                self.stack_pointer <= STACK_CAPACITY,
                self.pc == old(self).pc,
                self.index == old(self).index,
                self.registers == old(self).registers,
                self.stack == old(self).stack,
                self.stack_pointer == old(self).stack_pointer,
                self.delay_timer == old(self).delay_timer,
                self.display == old(self).display,
                forall|a: int|
                    0 <= a < MEMORY_SIZE ==> self.memory@[a] == if idx <= a < idx + offset {
                        old(self).registers@[a - idx]
                    } else {
                        old(self).memory@[a]
                    },
            decreases x + 1 - offset,
        {
            self.memory[idx + offset] = self.registers[offset];
            offset += 1;
        }
        self.pc += 2;
        assert(self@.memory =~= old(self)@.execute(
            Instruction::StoreRegisters { x },
        )->Ok_0.memory);
        Ok(())
    }

    fn op_fx65(&mut self, x: u8) -> (r: Result<(), CpuError>)
        requires
            x < 16,
            old(self).pc + 2 <= MEMORY_SIZE,
        ensures
            settles(
                old(self)@,
                old(self)@.execute(Instruction::LoadRegisters { x }),
                r,
                final(self)@,
            ),
    {
        proof {
            use_type_invariant(&*self);
        }
        let idx = self.index as usize;
        if idx + x as usize + 1 > MEMORY_SIZE {
            return Err(CpuError::OutOfBounds { address: self.index });
        }
        let mut offset: usize = 0;
        while offset <= x as usize
            invariant
                x < 16,
                idx == self.index,
                idx + x + 1 <= MEMORY_SIZE,
                offset <= x + 1,
                self.stack_pointer <= STACK_CAPACITY,
                self.pc == old(self).pc,
                self.index == old(self).index,
                self.memory == old(self).memory,
                self.stack == old(self).stack,
                self.stack_pointer == old(self).stack_pointer,
                self.delay_timer == old(self).delay_timer,
                self.display == old(self).display,
                forall|r: int|
                    0 <= r < 16 ==> self.registers@[r] == if r < offset {
                        old(self).memory@[idx + r]
                    } else {
                        old(self).registers@[r]
                    },
            decreases x + 1 - offset,
        {
            self.registers[offset] = self.memory[idx + offset];
            offset += 1;
        }
        self.pc += 2;
        assert(self@.registers =~= old(self)@.execute(
            Instruction::LoadRegisters { x },
        )->Ok_0.registers);
        Ok(())
    }
}

/// Reads column `col` of a sprite row, column 0 being the leftmost.
fn sprite_bit(row: u8, col: u8) -> (set: bool)
    requires
        col < 8,
    ensures
        set == bit_set(row, col as int),
{
    (row >> (7 - col)) & 1 == 1
}

/// Whether the draw loop, having finished `rows` whole rows of the sprite
/// and `cols` columns of the next, has handled the sprite bit that lies
/// over `(px, py)` when the sprite is drawn at `(vx, vy)`.
spec fn reached(vx: int, vy: int, px: int, py: int, rows: int, cols: int) -> bool {
    let row = (py - vy) % 32;
    let col = (px - vx) % 64;
    row < rows || (row == rows && col < cols)
}

/// The grid part-way through a draw: `before` with those bits of the
/// sprite XORed in that the loop has handled.
spec fn drawn_so_far(
    before: Grid,
    sprite: Seq<u8>,
    vx: int,
    vy: int,
    rows: int,
    cols: int,
) -> Grid {
    Seq::new(
        32,
        |py: int|
            Seq::new(
                64,
                |px: int|
                    before[py][px] ^ (sprite_covers(sprite, vx, vy, px, py) && reached(
                        vx,
                        vy,
                        px,
                        py,
                        rows,
                        cols,
                    )),
            ),
    )
}

/// Whether `(px, py)` was lit in `before` and lies under a set bit that
/// the loop has handled.
spec fn hit(
    before: Grid,
    sprite: Seq<u8>,
    vx: int,
    vy: int,
    rows: int,
    cols: int,
    px: int,
    py: int,
) -> bool {
    &&& 0 <= px < 64
    &&& 0 <= py < 32
    &&& before[py][px]
    &&& sprite_covers(sprite, vx, vy, px, py)
    &&& reached(vx, vy, px, py, rows, cols)
}

/// Whether a bit that the loop has handled lay over a lit pixel.
spec fn hits_so_far(before: Grid, sprite: Seq<u8>, vx: int, vy: int, rows: int, cols: int) -> bool {
    exists|px: int, py: int| hit(before, sprite, vx, vy, rows, cols, px, py)
}

/// Handling column `col` of row `row` toggles exactly the pixel under it,
/// which until then is as it was before the draw, and adds a hit exactly
/// where that pixel was lit and the bit is set.
proof fn lemma_draw_one_more(before: Grid, sprite: Seq<u8>, vx: int, vy: int, row: int, col: int)
    requires
        grid_wf(before),
        0 <= row < sprite.len() <= 32,
        0 <= col < 8,
        0 <= vx,
        0 <= vy,
    ensures
        toggled(
            drawn_so_far(before, sprite, vx, vy, row, col),
            vx + col,
            vy + row,
            bit_set(sprite[row], col),
        ) =~~= drawn_so_far(before, sprite, vx, vy, row, col + 1),
        drawn_so_far(before, sprite, vx, vy, row, col)[(vy + row) % 32][(vx + col) % 64]
            == before[(vy + row) % 32][(vx + col) % 64],
        hits_so_far(before, sprite, vx, vy, row, col + 1) <==> hits_so_far(
            before,
            sprite,
            vx,
            vy,
            row,
            col,
        ) || (bit_set(sprite[row], col) && before[(vy + row) % 32][(vx + col) % 64]),
{
    let tx = (vx + col) % 64;
    let ty = (vy + row) % 32;
    lemma_wrapped_target(vx, vy, row, col, tx, ty);
    assert forall|px: int, py: int| 0 <= px < 64 && 0 <= py < 32 implies (#[trigger] reached(
        vx,
        vy,
        px,
        py,
        row,
        col + 1,
    ) <==> reached(vx, vy, px, py, row, col) || (px == tx && py == ty)) by {
        lemma_wrapped_target(vx, vy, row, col, px, py);
    }
    let next = col + 1;
    if hits_so_far(before, sprite, vx, vy, row, next) {
        let (px, py) = choose|px: int, py: int| hit(before, sprite, vx, vy, row, next, px, py);
        if !(px == tx && py == ty) {
            assert(hit(before, sprite, vx, vy, row, col, px, py));
        }
    }
    if hits_so_far(before, sprite, vx, vy, row, col) {
        let (px, py) = choose|px: int, py: int| hit(before, sprite, vx, vy, row, col, px, py);
        assert(hit(before, sprite, vx, vy, row, next, px, py));
    }
    if bit_set(sprite[row], col) && before[ty][tx] {
        assert(hit(before, sprite, vx, vy, row, next, tx, ty));
    }
}

/// A row whose eight columns are handled is a finished row.
proof fn lemma_row_done(before: Grid, sprite: Seq<u8>, vx: int, vy: int, row: int)
    ensures
        drawn_so_far(before, sprite, vx, vy, row, 8) =~~= drawn_so_far(
            before,
            sprite,
            vx,
            vy,
            row + 1,
            0,
        ),
        hits_so_far(before, sprite, vx, vy, row, 8) <==> hits_so_far(
            before,
            sprite,
            vx,
            vy,
            row + 1,
            0,
        ),
{
    let next = row + 1;
    if hits_so_far(before, sprite, vx, vy, row, 8) {
        let (px, py) = choose|px: int, py: int| hit(before, sprite, vx, vy, row, 8, px, py);
        assert(hit(before, sprite, vx, vy, next, 0, px, py));
    }
    if hits_so_far(before, sprite, vx, vy, next, 0) {
        let (px, py) = choose|px: int, py: int| hit(before, sprite, vx, vy, next, 0, px, py);
        assert(hit(before, sprite, vx, vy, row, 8, px, py));
    }
}

/// Once every row is handled the grid is the blitted one and the hits are
/// the collisions.
proof fn lemma_all_drawn(before: Grid, sprite: Seq<u8>, vx: int, vy: int)
    ensures
        drawn_so_far(before, sprite, vx, vy, sprite.len() as int, 0) =~~= blit(
            before,
            sprite,
            vx,
            vy,
        ),
        hits_so_far(before, sprite, vx, vy, sprite.len() as int, 0) <==> collides(
            before,
            sprite,
            vx,
            vy,
        ),
{
    let n = sprite.len() as int;
    if hits_so_far(before, sprite, vx, vy, n, 0) {
        let (px, py) = choose|px: int, py: int| hit(before, sprite, vx, vy, n, 0, px, py);
        assert(before[py][px] && sprite_covers(sprite, vx, vy, px, py));
    }
    if collides(before, sprite, vx, vy) {
        let (px, py) = choose|px: int, py: int|
            0 <= px < 64 && 0 <= py < 32 && before[py][px] && #[trigger] sprite_covers(
                sprite,
                vx,
                vy,
                px,
                py,
            );
        assert(hit(before, sprite, vx, vy, n, 0, px, py));
    }
}

} // verus!
