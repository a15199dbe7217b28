//! The machine: its state, its instruction handlers and the interpreter loop.
use crate::isa::{decoded, word_of, Instruction};
use vstd::prelude::*;

verus! {

/// Bytes of addressable memory.
pub const MEMORY_SIZE: usize = 4096;

/// General-purpose registers.
pub const REGISTER_COUNT: usize = 16;

/// Slots of the call stack.
pub const STACK_CAPACITY: usize = 16;

/// The register that arithmetic instructions write their overflow flag to.
pub const FLAG_REGISTER: usize = 15;

/// A condition that stops the machine.
#[derive(Clone, Copy, Debug, PartialEq, Eq, Structural)]
pub enum Fault {
    /// The word fetched names no known instruction.
    UnimplementedOpcode(u16),
    /// A call found every stack slot in use.
    StackOverflow,
    /// A return found the stack empty.
    StackUnderflow,
    /// The instruction at this address does not lie wholly within memory.
    FetchOutOfBounds(usize),
}

/// What a successful step asks of the loop that drives it.
#[derive(Clone, Copy, Debug, PartialEq, Eq, Structural)]
pub enum Flow {
    /// Fetch the next instruction.
    Continue,
    /// A halt instruction was executed.
    Halt,
}

/// The mathematical state of a machine.
pub struct MachineState {
    pub registers: Seq<u8>,
    pub memory: Seq<u8>,
    pub position_in_memory: int,
    pub stack: Seq<u16>,
    pub stack_pointer: int,
}

/// Where a machine stands after some number of steps.
pub enum Progress {
    /// Still executing, in this state.
    Running(MachineState),
    /// Stopped by a halt instruction, in this state.
    Halted(MachineState),
    /// Stopped by a fault, in this state: that of the faulting instruction.
    Faulted(MachineState, Fault),
}

/// The progress that a step's state and result stand for.
pub open spec fn progress_of(s: MachineState, r: Result<Flow, Fault>) -> Progress {
    match r {
        Ok(Flow::Continue) => Progress::Running(s),
        Ok(Flow::Halt) => Progress::Halted(s),
        Err(f) => Progress::Faulted(s, f),
    }
}

/// The progress that a finished run's state and result stand for.
pub open spec fn finished(s: MachineState, r: Result<(), Fault>) -> Progress {
    match r {
        Ok(()) => Progress::Halted(s),
        Err(f) => Progress::Faulted(s, f),
    }
}

impl MachineState {
    pub open spec fn wf(self) -> bool {
        &&& self.registers.len() == REGISTER_COUNT
        &&& self.memory.len() == MEMORY_SIZE
        &&& self.stack.len() == STACK_CAPACITY
        &&& 0 <= self.stack_pointer <= STACK_CAPACITY
        &&& 0 <= self.position_in_memory
    }

    /// Both bytes of the next instruction lie within memory.
    pub open spec fn can_fetch(self) -> bool {
        0 <= self.position_in_memory && self.position_in_memory + 1 < MEMORY_SIZE
    }

    /// The instruction word at the program counter, most significant byte first.
    pub open spec fn fetched(self) -> u16 {
        word_of(
            self.memory[self.position_in_memory],
            self.memory[self.position_in_memory + 1],
        )
    }

    /// The state with the program counter moved past one instruction word.
    pub open spec fn advanced(self) -> MachineState {
        MachineState { position_in_memory: self.position_in_memory + 2, ..self }
    }

    /// The state after adding register `y` into register `x`: the sum wraps
    /// at 256 and the flags register says whether it did.
    pub open spec fn added(self, x: int, y: int) -> MachineState {
        let sum = self.registers[x] + self.registers[y];
        MachineState {
            registers: self.registers.update(x, (sum % 256) as u8).update(
                FLAG_REGISTER as int,
                if sum > 255 { 1u8 } else { 0u8 },
            ),
            ..self
        }
    }

    /// The state after pushing the program counter and jumping to `address`.
    pub open spec fn called(self, address: int) -> MachineState {
        MachineState {
            stack: self.stack.update(self.stack_pointer, self.position_in_memory as u16),
            stack_pointer: self.stack_pointer + 1,
            position_in_memory: address,
            ..self
        }
    }

    /// The state after popping the top return address into the program counter.
    pub open spec fn returned(self) -> MachineState {
        MachineState {
            stack_pointer: self.stack_pointer - 1,
            position_in_memory: self.stack[self.stack_pointer - 1] as int,
            ..self
        }
    }

    /// One fetch-decode-execute step. A faulting instruction leaves the state as it was.
    pub open spec fn step(self) -> Progress {
        if !self.can_fetch() {
            Progress::Faulted(self, Fault::FetchOutOfBounds(self.position_in_memory as usize))
        } else {
            let next = self.advanced();
            match decoded(self.fetched()) {
                Instruction::Halt => Progress::Halted(next),
                Instruction::Return => if self.stack_pointer == 0 {
                    Progress::Faulted(self, Fault::StackUnderflow)
                } else {
                    Progress::Running(next.returned())
                },
                Instruction::Call(a) => if self.stack_pointer >= STACK_CAPACITY {
                    Progress::Faulted(self, Fault::StackOverflow)
                } else {
                    Progress::Running(next.called(a as int))
                },
                Instruction::AddRegisters(x, y) => Progress::Running(next.added(x as int, y as int)),
                Instruction::Unknown(w) => Progress::Faulted(self, Fault::UnimplementedOpcode(w)),
            }
        }
    }

    /// The progress after at most `n` steps: a stopped machine stays stopped.
    pub open spec fn run_for(self, n: nat) -> Progress
        decreases n,
    {
        if n == 0 {
            Progress::Running(self)
        } else {
            match self.run_for((n - 1) as nat) {
                Progress::Running(t) => t.step(),
                p => p,
            }
        }
    }

    /// The value that stack level `i` contributes to the progress measure of the
    /// interpreter loop: a saved return address below the stack pointer, the
    /// program counter at it, and a value above every address beyond it.
    pub open spec fn level_mark(self, i: int) -> int {
        if i < self.stack_pointer {
            self.stack[i] as int
        } else if i == self.stack_pointer {
            self.position_in_memory
        } else {
            0x10000
        }
    }
}

/// The machine: registers, memory, program counter and call stack.
#[derive(Debug)]
pub struct CPU {
    pub registers: [u8; 16],
    pub position_in_memory: usize,
    pub memory: [u8; 4096],
    pub stack: [u16; 16],
    pub stack_pointer: usize,
}

impl View for CPU {
    type V = MachineState;

    open spec fn view(&self) -> MachineState {
        MachineState {
            registers: self.registers@,
            memory: self.memory@,
            position_in_memory: self.position_in_memory as int,
            stack: self.stack@,
            stack_pointer: self.stack_pointer as int,
        }
    }
}

impl CPU {
    /// The stack pointer lies within the stack.
    pub open spec fn wf(&self) -> bool {
        self.stack_pointer <= STACK_CAPACITY
    }

    /// A machine with every register, byte and stack slot zero.
    pub fn new() -> (r: CPU)
        ensures
            r.wf(),
            r@.registers == Seq::new(REGISTER_COUNT as nat, |i: int| 0u8),
            r@.memory == Seq::new(MEMORY_SIZE as nat, |i: int| 0u8),
            r@.stack == Seq::new(STACK_CAPACITY as nat, |i: int| 0u16),
            r@.position_in_memory == 0,
            r@.stack_pointer == 0,
    {
        let r = CPU {
            registers: [0u8; 16],
            position_in_memory: 0,
            memory: [0u8; 4096],
            stack: [0u16; 16],
            stack_pointer: 0,
        };
        assert(r@.registers =~= Seq::new(REGISTER_COUNT as nat, |i: int| 0u8));
        assert(r@.memory =~= Seq::new(MEMORY_SIZE as nat, |i: int| 0u8));
        assert(r@.stack =~= Seq::new(STACK_CAPACITY as nat, |i: int| 0u16));
        r
    }

    /// The instruction word at the program counter, most significant byte first.
    pub fn read_opcode(&self) -> (r: u16)
        requires
            self.position_in_memory + 1 < MEMORY_SIZE,
        ensures
            r == self@.fetched(),
    {
        let p = self.position_in_memory;
        let b1 = self.memory[p] as u16;
        let b2 = self.memory[p + 1] as u16;
        let r: u16 = b1 << 8 | b2;
        assert(r == b1 * 256 + b2) by (bit_vector)
            requires
                r == b1 << 8 | b2,
                b1 < 256,
                b2 < 256,
        ;
        r
    }

    /// Adds register `y` into register `x`, wrapping at 256, and sets the flags
    /// register to 1 where the sum exceeded 255, else to 0.
    pub fn add_xy(&mut self, x: u8, y: u8)
        requires
            x < REGISTER_COUNT,
            y < REGISTER_COUNT,
        ensures
            final(self)@ == old(self)@.added(x as int, y as int),
            x != FLAG_REGISTER ==> final(self).registers[x as int] == (old(self).registers[x as int]
                + old(self).registers[y as int]) % 256,
            final(self).registers[FLAG_REGISTER as int] == if old(self).registers[x as int]
                + old(self).registers[y as int] > 255 {
                1u8
            } else {
                0u8
            },
            forall|i: int|
                0 <= i < REGISTER_COUNT && i != x && i != FLAG_REGISTER
                    ==> final(self).registers[i] == old(self).registers[i],
    {
        let arg1 = self.registers[x as usize];
        let arg2 = self.registers[y as usize];
        let sum: u16 = arg1 as u16 + arg2 as u16;
        self.registers[x as usize] = (sum % 256) as u8;
        if sum > 255 {
            self.registers[FLAG_REGISTER] = 1;
        } else {
            self.registers[FLAG_REGISTER] = 0;
        }
        assert(self.registers@ =~= old(self)@.added(x as int, y as int).registers);
    }

    /// Pushes the program counter and jumps to `address`; fails, changing
    /// nothing, when every stack slot is in use.
    pub fn call(&mut self, address: u16) -> (r: Result<(), Fault>)
        requires
            old(self).wf(),
            old(self).position_in_memory <= u16::MAX,
        ensures
            final(self).wf(),
            old(self).stack_pointer < STACK_CAPACITY ==> r is Ok && final(self)@ == old(
                self,
            )@.called(address as int),
            old(self).stack_pointer == STACK_CAPACITY ==> r == Err::<(), Fault>(
                Fault::StackOverflow,
            ) && final(self)@ == old(self)@,
    {
        let pointer = self.stack_pointer;
        if pointer >= STACK_CAPACITY {
            return Err(Fault::StackOverflow);
        }
        self.stack[pointer] = self.position_in_memory as u16;
        self.stack_pointer = pointer + 1;
        self.position_in_memory = address as usize;
        assert(self.stack@ =~= old(self)@.called(address as int).stack);
        Ok(())
    }

    /// Pops the top return address into the program counter; fails, changing
    /// nothing, when the stack is empty.
    pub fn ret(&mut self) -> (r: Result<(), Fault>)
        requires
            old(self).wf(),
        ensures
            final(self).wf(),
            old(self).stack_pointer > 0 ==> r is Ok && final(self)@ == old(self)@.returned(),
            old(self).stack_pointer == 0 ==> r == Err::<(), Fault>(Fault::StackUnderflow)
                && final(self)@ == old(self)@,
    {
        if self.stack_pointer == 0 {
            return Err(Fault::StackUnderflow);
        }
        self.stack_pointer = self.stack_pointer - 1;
        let call_address = self.stack[self.stack_pointer];
        self.position_in_memory = call_address as usize;
        Ok(())
    }

    /// One fetch-decode-execute step: fetches the word at the program counter,
    /// advances the counter by 2, then executes the instruction. A fault leaves
    /// the machine as it was, with the counter at the faulting instruction.
    pub fn step(&mut self) -> (r: Result<Flow, Fault>)
        requires
            old(self).wf(),
        ensures
            final(self).wf(),
            old(self)@.step() == progress_of(final(self)@, r),
    {
        let pc = self.position_in_memory;
        if pc >= MEMORY_SIZE - 1 {
            return Err(Fault::FetchOutOfBounds(pc));
        }
        let opcode = self.read_opcode();
        self.position_in_memory = pc + 2;
        match Instruction::decode(opcode) {
            Instruction::Halt => Ok(Flow::Halt),
            Instruction::Return => match self.ret() {
                Ok(()) => Ok(Flow::Continue),
                Err(f) => {
                    self.position_in_memory = pc;
                    Err(f)
                },
            },
            Instruction::Call(address) => match self.call(address) {
                Ok(()) => Ok(Flow::Continue),
                Err(f) => {
                    self.position_in_memory = pc;
                    Err(f)
                },
            },
            Instruction::AddRegisters(x, y) => {
                self.add_xy(x, y);
                Ok(Flow::Continue)
            },
            Instruction::Unknown(word) => {
                self.position_in_memory = pc;
                Err(Fault::UnimplementedOpcode(word))
            },
        }
    }

    /// Steps until a halt instruction or a fault. Every program stops: the
    /// saved return addresses and the program counter, read from the bottom
    /// of the stack up, grow in lexicographic order with every step.
    pub fn run(&mut self) -> (r: Result<(), Fault>)
        requires
            old(self).wf(),
        ensures
            final(self).wf(),
            exists|n: nat| #[trigger] old(self)@.run_for(n) == finished(final(self)@, r),
    {
        let ghost start = self@;
        let ghost mut n: nat = 0;
        loop
            invariant
                self.wf(),
                start == old(self)@,
                start.run_for(n) == Progress::Running(self@),
            decreases
                0x10000 - self@.level_mark(0),
                0x10000 - self@.level_mark(1),
                0x10000 - self@.level_mark(2),
                0x10000 - self@.level_mark(3),
                0x10000 - self@.level_mark(4),
                0x10000 - self@.level_mark(5),
                0x10000 - self@.level_mark(6),
                0x10000 - self@.level_mark(7),
                0x10000 - self@.level_mark(8),
                0x10000 - self@.level_mark(9),
                0x10000 - self@.level_mark(10),
                0x10000 - self@.level_mark(11),
                0x10000 - self@.level_mark(12),
                0x10000 - self@.level_mark(13),
                0x10000 - self@.level_mark(14),
                0x10000 - self@.level_mark(15),
                0x10000 - self@.level_mark(16),
        {
            let ghost before = self@;
            let result = self.step();
            assert(start.run_for(n + 1) == before.step());
            proof {
                n = n + 1;
            }
            match result {
                Ok(Flow::Continue) => {},
                Ok(Flow::Halt) => {
                    assert(start.run_for(n) == finished(self@, Ok(())));
                    return Ok(());
                },
                Err(f) => {
                    assert(start.run_for(n) == finished(self@, Err(f)));
                    return Err(f);
                },
            }
        }
    }
}

} // verus!
