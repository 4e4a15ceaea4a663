//! The CPU: memory, register file, call stack, program counter and the
//! display, driven one instruction at a time by a fetch-decode-execute
//! cycle over the fixed two-byte instruction format.

use vstd::prelude::*;
use rand::Rng;
use crate::display::{Screen, blank_rows, pixel_at, toggled};

verus! {

/// A terminal execution fault: the interpreter has no recovery path for
/// a malformed program, so every fault halts execution and is reported
/// to the driver.
#[derive(Clone, Copy, Debug, PartialEq, Eq, Structural)]
pub enum Fault {
    /// A program image larger than the memory region reserved for it.
    RomTooLarge,
    /// The program counter addresses bytes outside the 4096-byte memory.
    ProgramCounterOutOfRange,
    /// The fetched byte pair is not a recognized instruction.
    UnknownInstruction { instruction: u16, program_counter: u16 },
    /// A return was executed with an empty call stack.
    StackUnderflow,
    /// A call was executed with a full call stack.
    StackOverflow,
    /// A sprite draw was requested for more than 15 rows.
    SpriteTooTall,
    /// The requested sprite data extends past the end of memory.
    SpriteOutOfBounds,
}

/// A decoded instruction.  Register selectors are 4-bit fields, so they
/// are always below 16; addresses are 12-bit fields, below 4096.
#[derive(Clone, Copy, Debug, PartialEq, Eq, Structural)]
pub enum Instr {
    /// The encoding 0x0_00: no operation.
    Nop,
    ClearScreen,
    Return,
    Jump { address: u16 },
    Call { address: u16 },
    SkipEqualImm { x: u8, value: u8 },
    SkipNotEqualImm { x: u8, value: u8 },
    SkipEqualReg { x: u8, y: u8 },
    LoadImm { x: u8, value: u8 },
    AddImm { x: u8, value: u8 },
    LoadReg { x: u8, y: u8 },
    Or { x: u8, y: u8 },
    And { x: u8, y: u8 },
    Xor { x: u8, y: u8 },
    AddReg { x: u8, y: u8 },
    SubtractFirst { x: u8, y: u8 },
    ShiftRight { x: u8 },
    SubtractSecond { x: u8, y: u8 },
    ShiftLeft { x: u8 },
    SkipNotEqualReg { x: u8, y: u8 },
    LoadI { address: u16 },
    JumpOffset { address: u16 },
    Random { x: u8, mask: u8 },
    Draw { x: u8, y: u8, rows: u8 },
    SkipPressed { x: u8 },
    SkipNotPressed { x: u8 },
    AddI { x: u8 },
}

/// Decode the two fetched bytes: the top nibble selects the operation
/// family; `x` and `y` select registers, `lo` is the byte immediate,
/// the low nibble of `lo` the short immediate, and the low 12 bits an
/// address.
pub open spec fn decode(hi: u8, lo: u8) -> Option<Instr> {
    let opcode = hi / 16;
    let x = (hi % 16) as u8;
    let y = (lo / 16) as u8;
    let n = (lo % 16) as u8;
    let address = (x * 256 + lo) as u16;
    if opcode == 0 {
        if lo == 0xE0 {
            Some(Instr::ClearScreen)
        } else if lo == 0xEE {
            Some(Instr::Return)
        } else if lo == 0x00 {
            Some(Instr::Nop)
        } else {
            None
        }
    } else if opcode == 1 {
        Some(Instr::Jump { address })
    } else if opcode == 2 {
        Some(Instr::Call { address })
    } else if opcode == 3 {
        Some(Instr::SkipEqualImm { x, value: lo })
    } else if opcode == 4 {
        Some(Instr::SkipNotEqualImm { x, value: lo })
    } else if opcode == 5 {
        Some(Instr::SkipEqualReg { x, y })
    } else if opcode == 6 {
        Some(Instr::LoadImm { x, value: lo })
    } else if opcode == 7 {
        Some(Instr::AddImm { x, value: lo })
    } else if opcode == 8 {
        if n == 0 {
            Some(Instr::LoadReg { x, y })
        } else if n == 1 {
            Some(Instr::Or { x, y })
        } else if n == 2 {
            Some(Instr::And { x, y })
        } else if n == 3 {
            Some(Instr::Xor { x, y })
        } else if n == 4 {
            Some(Instr::AddReg { x, y })
        } else if n == 5 {
            Some(Instr::SubtractFirst { x, y })
        } else if n == 6 {
            Some(Instr::ShiftRight { x })
        } else if n == 7 {
            Some(Instr::SubtractSecond { x, y })
        } else if n == 0xE {
            Some(Instr::ShiftLeft { x })
        } else {
            None
        }
    } else if opcode == 9 {
        Some(Instr::SkipNotEqualReg { x, y })
    } else if opcode == 0xA {
        Some(Instr::LoadI { address })
    } else if opcode == 0xB {
        Some(Instr::JumpOffset { address })
    } else if opcode == 0xC {
        Some(Instr::Random { x, mask: lo })
    } else if opcode == 0xD {
        Some(Instr::Draw { x, y, rows: n })
    } else if opcode == 0xE {
        if lo == 0x9E {
            Some(Instr::SkipPressed { x })
        } else if lo == 0xA1 {
            Some(Instr::SkipNotPressed { x })
        } else {
            None
        }
    } else {
        if lo == 0x1E {
            Some(Instr::AddI { x })
        } else {
            None
        }
    }
}

/// Every register selector a decoded instruction carries is below 16,
/// and every address below 4096.
pub open spec fn operands_bounded(instr: Instr) -> bool {
    match instr {
        Instr::Nop => true,
        Instr::ClearScreen => true,
        Instr::Return => true,
        Instr::Jump { address } => address < 4096,
        Instr::Call { address } => address < 4096,
        Instr::SkipEqualImm { x, value } => x < 16,
        Instr::SkipNotEqualImm { x, value } => x < 16,
        Instr::SkipEqualReg { x, y } => x < 16 && y < 16,
        Instr::LoadImm { x, value } => x < 16,
        Instr::AddImm { x, value } => x < 16,
        Instr::LoadReg { x, y } => x < 16 && y < 16,
        Instr::Or { x, y } => x < 16 && y < 16,
        Instr::And { x, y } => x < 16 && y < 16,
        Instr::Xor { x, y } => x < 16 && y < 16,
        Instr::AddReg { x, y } => x < 16 && y < 16,
        Instr::SubtractFirst { x, y } => x < 16 && y < 16,
        Instr::ShiftRight { x } => x < 16,
        Instr::SubtractSecond { x, y } => x < 16 && y < 16,
        Instr::ShiftLeft { x } => x < 16,
        Instr::SkipNotEqualReg { x, y } => x < 16 && y < 16,
        Instr::LoadI { address } => address < 4096,
        Instr::JumpOffset { address } => address < 4096,
        Instr::Random { x, mask } => x < 16,
        Instr::Draw { x, y, rows } => x < 16 && y < 16 && rows < 16,
        Instr::SkipPressed { x } => x < 16,
        Instr::SkipNotPressed { x } => x < 16,
        Instr::AddI { x } => x < 16,
    }
}

proof fn lemma_decode_bounded(hi: u8, lo: u8)
    ensures
        decode(hi, lo) matches Some(instr) ==> operands_bounded(instr),
{
}

/// Decode the two fetched bytes into an instruction, or nothing where
/// the byte pair is not a recognized encoding.
pub fn decode_bytes(hi: u8, lo: u8) -> (r: Option<Instr>)
    ensures
        r == decode(hi, lo),
{
    let opcode: u8 = hi / 16;
    let x: u8 = hi % 16;
    let y: u8 = lo / 16;
    let n: u8 = lo % 16;
    let address: u16 = (x as u16) * 256 + (lo as u16);
    if opcode == 0 {
        if lo == 0xE0 {
            Some(Instr::ClearScreen)
        } else if lo == 0xEE {
            Some(Instr::Return)
        } else if lo == 0x00 {
            Some(Instr::Nop)
        } else {
            None
        }
    } else if opcode == 1 {
        Some(Instr::Jump { address })
    } else if opcode == 2 {
        Some(Instr::Call { address })
    } else if opcode == 3 {
        Some(Instr::SkipEqualImm { x, value: lo })
    } else if opcode == 4 {
        Some(Instr::SkipNotEqualImm { x, value: lo })
    } else if opcode == 5 {
        Some(Instr::SkipEqualReg { x, y })
    } else if opcode == 6 {
        Some(Instr::LoadImm { x, value: lo })
    } else if opcode == 7 {
        Some(Instr::AddImm { x, value: lo })
    } else if opcode == 8 {
        if n == 0 {
            Some(Instr::LoadReg { x, y })
        } else if n == 1 {
            Some(Instr::Or { x, y })
        } else if n == 2 {
            Some(Instr::And { x, y })
        } else if n == 3 {
            Some(Instr::Xor { x, y })
        } else if n == 4 {
            Some(Instr::AddReg { x, y })
        } else if n == 5 {
            Some(Instr::SubtractFirst { x, y })
        } else if n == 6 {
            Some(Instr::ShiftRight { x })
        } else if n == 7 {
            Some(Instr::SubtractSecond { x, y })
        } else if n == 0xE {
            Some(Instr::ShiftLeft { x })
        } else {
            None
        }
    } else if opcode == 9 {
        Some(Instr::SkipNotEqualReg { x, y })
    } else if opcode == 0xA {
        Some(Instr::LoadI { address })
    } else if opcode == 0xB {
        Some(Instr::JumpOffset { address })
    } else if opcode == 0xC {
        Some(Instr::Random { x, mask: lo })
    } else if opcode == 0xD {
        Some(Instr::Draw { x, y, rows: n })
    } else if opcode == 0xE {
        if lo == 0x9E {
            Some(Instr::SkipPressed { x })
        } else if lo == 0xA1 {
            Some(Instr::SkipNotPressed { x })
        } else {
            None
        }
    } else {
        if lo == 0x1E {
            Some(Instr::AddI { x })
        } else {
            None
        }
    }
}

/// The mathematical model of the whole machine state.
#[verifier::ext_equal]
pub struct CpuState {
    pub memory: Seq<u8>,
    pub program_counter: u16,
    pub stack: Seq<u16>,
    pub stack_pointer: int,
    pub registers: Seq<u8>,
    pub flag_register: bool,
    pub i_register: u16,
    pub screen: Seq<u64>,
    pub keys: Seq<bool>,
}

/// The structural invariant of the machine state: fixed sizes for
/// memory, stack, register file, framebuffer and key set, and a stack
/// pointer that never leaves the stack.
pub open spec fn state_wf(s: CpuState) -> bool {
    &&& s.memory.len() == 4096
    &&& s.stack.len() == 16
    &&& s.registers.len() == 16
    &&& 0 <= s.stack_pointer <= 16
    &&& s.screen.len() == 32
    &&& s.keys.len() == 16
}

/// The machine state at construction: zeroed memory and registers, the
/// program counter at the program region's base, and a dark display.
pub open spec fn initial_state() -> CpuState {
    CpuState {
        memory: Seq::new(4096, |i: int| 0u8),
        program_counter: 0x200,
        stack: Seq::new(16, |i: int| 0u16),
        stack_pointer: 0,
        registers: Seq::new(16, |i: int| 0u8),
        flag_register: false,
        i_register: 0,
        screen: blank_rows(),
        keys: Seq::new(16, |i: int| false),
    }
}

/// `s` with the program counter replaced.
pub open spec fn with_pc(s: CpuState, pc: u16) -> CpuState {
    CpuState { program_counter: pc, ..s }
}

/// `s` with the program counter advanced past the current instruction.
pub open spec fn advanced(s: CpuState) -> CpuState {
    with_pc(s, (s.program_counter + 2) as u16)
}

/// Where a conditional skip lands, measured from the pre-fetch counter:
/// four bytes ahead when the condition holds, two otherwise.
pub open spec fn skip_target(pc: u16, condition: bool) -> u16 {
    if condition {
        (pc + 4) as u16
    } else {
        (pc + 2) as u16
    }
}

/// Whether the key selected by the low nibble of `value` is down.
pub open spec fn key_down(s: CpuState, value: u8) -> bool {
    s.keys[value as int % 16]
}

/// Whether a sprite byte's bit is set, counting bits from the
/// most significant: bit 0 is drawn leftmost.
pub open spec fn sprite_bit(byte: u8, bit: u8) -> bool {
    (byte >> ((7 - bit % 8) as u8)) & 1 == 1
}

/// The framebuffer after drawing the first `nbits` bits of one sprite
/// byte onto row `y`, leftmost bit first, starting at column `base_x`;
/// each set bit toggles its pixel, wrapping at the screen edge.
pub open spec fn draw_bits(rows: Seq<u64>, byte: u8, base_x: u8, y: u8, nbits: int) -> Seq<u64>
    decreases nbits,
{
    if nbits <= 0 {
        rows
    } else {
        let prev = draw_bits(rows, byte, base_x, y, nbits - 1);
        let bit = (nbits - 1) as u8;
        if sprite_bit(byte, bit) {
            toggled(prev, ((base_x + bit) % 64) as u8, y)
        } else {
            prev
        }
    }
}

/// The framebuffer after drawing the first `n` sprite rows read from
/// `mem[base ..]`, each row starting again at column `base_x` and one
/// row further down, wrapping at the screen's bottom edge.
pub open spec fn draw_rows(rows: Seq<u64>, mem: Seq<u8>, base: int, base_x: u8, base_y: u8, n: int) -> Seq<u64>
    decreases n,
{
    if n <= 0 {
        rows
    } else {
        let prev = draw_rows(rows, mem, base, base_x, base_y, n - 1);
        draw_bits(prev, mem[base + n - 1], base_x, ((base_y + n - 1) % 32) as u8, 8)
    }
}

/// The effect of the sprite-draw operation (program counter untouched):
/// `n` rows of sprite data at the address register are composited onto
/// the screen by pixel toggling, from the position held by registers
/// `x` and `y`; a sprite taller than 15 rows or extending past the end
/// of memory is a fault and draws nothing.
pub open spec fn spec_draw(s: CpuState, x: int, y: int, n: u8) -> Result<CpuState, Fault> {
    if n > 15 {
        Err(Fault::SpriteTooTall)
    } else if s.i_register + n > 4096 {
        Err(Fault::SpriteOutOfBounds)
    } else {
        Ok(
            CpuState {
                screen: draw_rows(
                    s.screen,
                    s.memory,
                    s.i_register as int,
                    s.registers[x],
                    s.registers[y],
                    n as int,
                ),
                ..s
            },
        )
    }
}

/// The effect of one decoded instruction on the machine state.  Every
/// instruction advances the program counter two bytes past itself,
/// except that jump, call, return and jump-with-offset replace the
/// counter outright and a taken skip advances four.  `rnd` is the byte
/// drawn from the randomness source; only the random-and-mask
/// instruction reads it.
pub open spec fn exec_instr(s: CpuState, instr: Instr, rnd: u8) -> Result<CpuState, Fault> {
    match instr {
        Instr::Nop => Ok(advanced(s)),
        Instr::ClearScreen => Ok(advanced(CpuState { screen: blank_rows(), ..s })),
        Instr::Return => if s.stack_pointer == 0 {
            Err(Fault::StackUnderflow)
        } else {
            Ok(
                CpuState {
                    stack_pointer: s.stack_pointer - 1,
                    program_counter: s.stack[s.stack_pointer - 1],
                    ..s
                },
            )
        },
        Instr::Jump { address } => Ok(with_pc(s, address)),
        Instr::Call { address } => if s.stack_pointer >= 16 {
            Err(Fault::StackOverflow)
        } else {
            Ok(
                CpuState {
                    stack: s.stack.update(s.stack_pointer, s.program_counter),
                    stack_pointer: s.stack_pointer + 1,
                    program_counter: address,
                    ..s
                },
            )
        },
        Instr::SkipEqualImm { x, value } => Ok(
            with_pc(s, skip_target(s.program_counter, s.registers[x as int] == value)),
        ),
        Instr::SkipNotEqualImm { x, value } => Ok(
            with_pc(s, skip_target(s.program_counter, s.registers[x as int] != value)),
        ),
        Instr::SkipEqualReg { x, y } => Ok(
            with_pc(
                s,
                skip_target(s.program_counter, s.registers[x as int] == s.registers[y as int]),
            ),
        ),
        Instr::LoadImm { x, value } => Ok(
            advanced(CpuState { registers: s.registers.update(x as int, value), ..s }),
        ),
        Instr::AddImm { x, value } => Ok(
            advanced(
                CpuState {
                    registers: s.registers.update(
                        x as int,
                        ((s.registers[x as int] + value) % 256) as u8,
                    ),
                    ..s
                },
            ),
        ),
        Instr::LoadReg { x, y } => Ok(
            advanced(
                CpuState { registers: s.registers.update(x as int, s.registers[y as int]), ..s },
            ),
        ),
        Instr::Or { x, y } => Ok(
            advanced(
                CpuState {
                    registers: s.registers.update(
                        x as int,
                        s.registers[x as int] | s.registers[y as int],
                    ),
                    ..s
                },
            ),
        ),
        Instr::And { x, y } => Ok(
            advanced(
                CpuState {
                    registers: s.registers.update(
                        x as int,
                        s.registers[x as int] & s.registers[y as int],
                    ),
                    ..s
                },
            ),
        ),
        Instr::Xor { x, y } => Ok(
            advanced(
                CpuState {
                    registers: s.registers.update(
                        x as int,
                        s.registers[x as int] ^ s.registers[y as int],
                    ),
                    ..s
                },
            ),
        ),
        Instr::AddReg { x, y } => Ok(
            advanced(
                CpuState {
                    registers: s.registers.update(
                        x as int,
                        ((s.registers[x as int] + s.registers[y as int]) % 256) as u8,
                    ),
                    flag_register: s.registers[x as int] + s.registers[y as int] > 255,
                    ..s
                },
            ),
        ),
        Instr::SubtractFirst { x, y } => Ok(
            advanced(
                CpuState {
                    registers: s.registers.update(
                        x as int,
                        ((s.registers[x as int] + 256 - s.registers[y as int]) % 256) as u8,
                    ),
                    flag_register: s.registers[x as int] > s.registers[y as int],
                    ..s
                },
            ),
        ),
        Instr::ShiftRight { x } => Ok(
            advanced(
                CpuState {
                    registers: s.registers.update(x as int, (s.registers[x as int] / 2) as u8),
                    flag_register: s.registers[x as int] % 2 == 1,
                    ..s
                },
            ),
        ),
        Instr::SubtractSecond { x, y } => Ok(
            advanced(
                CpuState {
                    registers: s.registers.update(
                        x as int,
                        ((s.registers[y as int] + 256 - s.registers[x as int]) % 256) as u8,
                    ),
                    flag_register: s.registers[y as int] > s.registers[x as int],
                    ..s
                },
            ),
        ),
        Instr::ShiftLeft { x } => Ok(
            advanced(
                CpuState {
                    registers: s.registers.update(
                        x as int,
                        ((s.registers[x as int] * 2) % 256) as u8,
                    ),
                    flag_register: s.registers[x as int] >= 128,
                    ..s
                },
            ),
        ),
        Instr::SkipNotEqualReg { x, y } => Ok(
            with_pc(
                s,
                skip_target(s.program_counter, s.registers[x as int] != s.registers[y as int]),
            ),
        ),
        Instr::LoadI { address } => Ok(advanced(CpuState { i_register: address, ..s })),
        Instr::JumpOffset { address } => Ok(
            with_pc(s, (s.registers[0] + address) as u16),
        ),
        Instr::Random { x, mask } => Ok(
            advanced(CpuState { registers: s.registers.update(x as int, rnd & mask), ..s }),
        ),
        Instr::Draw { x, y, rows } => match spec_draw(s, x as int, y as int, rows) {
            Ok(s2) => Ok(advanced(s2)),
            Err(f) => Err(f),
        },
        Instr::SkipPressed { x } => Ok(
            with_pc(s, skip_target(s.program_counter, key_down(s, s.registers[x as int]))),
        ),
        Instr::SkipNotPressed { x } => Ok(
            with_pc(s, skip_target(s.program_counter, !key_down(s, s.registers[x as int]))),
        ),
        Instr::AddI { x } => Ok(
            advanced(
                CpuState {
                    i_register: ((s.i_register + s.registers[x as int]) % 0x10000) as u16,
                    ..s
                },
            ),
        ),
    }
}

/// One whole fetch-decode-execute cycle on the machine state: fetch the
/// byte pair at the program counter (a fault if it reaches outside
/// memory), decode it (a fault if unrecognized), and execute it.
pub open spec fn step_spec(s: CpuState, rnd: u8) -> Result<CpuState, Fault> {
    if s.program_counter + 1 >= 4096 {
        Err(Fault::ProgramCounterOutOfRange)
    } else {
        let hi = s.memory[s.program_counter as int];
        let lo = s.memory[s.program_counter as int + 1];
        match decode(hi, lo) {
            Some(instr) => exec_instr(s, instr, rnd),
            None => Err(
                Fault::UnknownInstruction {
                    instruction: (hi * 256 + lo) as u16,
                    program_counter: s.program_counter,
                },
            ),
        }
    }
}

/// How one executed cycle relates the state before (`pre`) to the state
/// after (`post`) and to the reported result: a successful cycle leaves
/// the state that `step_spec` gives, a fault reports its kind and
/// leaves the state untouched.
pub open spec fn step_result(pre: CpuState, post: CpuState, r: Result<(), Fault>, rnd: u8) -> bool {
    match step_spec(pre, rnd) {
        Ok(s2) => r == Ok::<(), Fault>(()) && post == s2,
        Err(f) => r == Err::<(), Fault>(f) && post == pre,
    }
}

/// Whether the cycle about to execute reads the randomness source: it
/// does exactly when it fetches a random-and-mask instruction.
pub open spec fn uses_randomness(s: CpuState) -> bool {
    &&& s.program_counter + 1 < 4096
    &&& decode(
        s.memory[s.program_counter as int],
        s.memory[s.program_counter as int + 1],
    ) matches Some(Instr::Random { .. })
}

/// Relies on rand::thread_rng and rand::Rng::gen for a uniformly
/// distributed byte; nothing is promised of the value drawn.
#[verifier::external_body]
fn random_byte() -> u8 {
    rand::thread_rng().gen()
}

fn filled<T: Copy>(value: T, count: usize) -> (r: Vec<T>)
    ensures
        r@ == Seq::new(count as nat, |i: int| value),
{
    let mut v: Vec<T> = Vec::new();
    let mut i: usize = 0;
    while i < count
        invariant
            i == v@.len(),
            i <= count,
            forall|k: int| 0 <= k < i ==> v@[k] == value,
        decreases count - i,
    {
        v.push(value);
        i = i + 1;
    }
    proof {
        assert(v@ =~= Seq::new(count as nat, |i: int| value));
    }
    v
}

/// The CPU owns the whole machine state, display included.
pub struct Cpu {
    screen: Screen,
    memory: Vec<u8>,
    program_counter: u16,
    stack: Vec<u16>,
    stack_pointer: usize,
    registers: Vec<u8>,
    flag_register: bool,
    i_register: u16,
    keys: Vec<bool>,
}

impl View for Cpu {
    type V = CpuState;

    closed spec fn view(&self) -> CpuState {
        CpuState {
            memory: self.memory@,
            program_counter: self.program_counter,
            stack: self.stack@,
            stack_pointer: self.stack_pointer as int,
            registers: self.registers@,
            flag_register: self.flag_register,
            i_register: self.i_register,
            screen: self.screen@,
            keys: self.keys@,
        }
    }
}

impl Cpu {
    pub open spec fn wf(&self) -> bool {
        state_wf(self@)
    }

    /// A freshly constructed machine: zeroed state, dark display, and
    /// the program counter at the program region's base.
    pub fn new() -> (r: Cpu)
        ensures
            r.wf(),
            r@ == initial_state(),
    {
        let r = Cpu {
            screen: Screen::new(),
            memory: filled(0u8, 4096),
            program_counter: 0x200,
            stack: filled(0u16, 16),
            stack_pointer: 0,
            registers: filled(0u8, 16),
            flag_register: false,
            i_register: 0,
            keys: filled(false, 16),
        };
        proof {
            assert(r@ =~= initial_state());
        }
        r
    }

    /// The raw memory-write primitive used by an external loader to
    /// place a program image or glyph data.
    pub fn edit_memory(&mut self, address: usize, data: u8)
        requires
            old(self).wf(),
            address < 4096,
        ensures
            final(self).wf(),
            final(self)@ == (CpuState { memory: old(self)@.memory.update(address as int, data), ..old(self)@ }),
    {
        self.memory[address] = data;
    }

    /// Record whether the given key is currently down; the keyboard
    /// collaborator calls this as input state changes.
    pub fn set_key(&mut self, key: usize, pressed: bool)
        requires
            old(self).wf(),
            key < 16,
        ensures
            final(self).wf(),
            final(self)@ == (CpuState { keys: old(self)@.keys.update(key as int, pressed), ..old(self)@ }),
    {
        self.keys[key] = pressed;
    }

    /// Turn every pixel of the display off.
    pub fn clear_screen(&mut self)
        requires
            old(self).wf(),
        ensures
            final(self).wf(),
            final(self)@ == (CpuState { screen: blank_rows(), ..old(self)@ }),
    {
        self.screen.clear_screen();
    }

    /// Replace the program counter: an unconditional jump.
    pub fn jump(&mut self, address: u16)
        requires
            old(self).wf(),
        ensures
            final(self).wf(),
            final(self)@ == with_pc(old(self)@, address),
    {
        self.program_counter = address;
    }

    /// Load an immediate into a register.
    pub fn load(&mut self, register: usize, value: u8)
        requires
            old(self).wf(),
            register < 16,
        ensures
            final(self).wf(),
            final(self)@ == (CpuState { registers: old(self)@.registers.update(register as int, value), ..old(self)@ }),
    {
        self.registers[register] = value;
    }

    /// Copy the second register into the first.
    pub fn load_register(&mut self, first_register: usize, second_register: usize)
        requires
            old(self).wf(),
            first_register < 16,
            second_register < 16,
        ensures
            final(self).wf(),
            final(self)@ == (CpuState {
                registers: old(self)@.registers.update(
                    first_register as int,
                    old(self)@.registers[second_register as int],
                ),
                ..old(self)@
            }),
    {
        let value = self.registers[second_register];
        self.registers[first_register] = value;
    }

    /// Load an address into the address register.
    pub fn load_i(&mut self, address: u16)
        requires
            old(self).wf(),
        ensures
            final(self).wf(),
            final(self)@ == (CpuState { i_register: address, ..old(self)@ }),
    {
        self.i_register = address;
    }

    /// Store into a register the given random byte masked by `value`.
    /// The randomness source is injectable: the caller supplies the
    /// drawn byte.
    pub fn random(&mut self, register: usize, value: u8, random_value: u8)
        requires
            old(self).wf(),
            register < 16,
        ensures
            final(self).wf(),
            final(self)@ == (CpuState {
                registers: old(self)@.registers.update(register as int, random_value & value),
                ..old(self)@
            }),
    {
        self.registers[register] = random_value & value;
    }

    /// Pop the return address into the program counter; a return with
    /// an empty stack is a fault.
    pub fn return_from_subroutine(&mut self) -> (r: Result<(), Fault>)
        requires
            old(self).wf(),
        ensures
            final(self).wf(),
            old(self)@.stack_pointer == 0 ==> r == Err::<(), Fault>(Fault::StackUnderflow)
                && final(self)@ == old(self)@,
            old(self)@.stack_pointer > 0 ==> r == Ok::<(), Fault>(()) && final(self)@ == (CpuState {
                stack_pointer: old(self)@.stack_pointer - 1,
                program_counter: old(self)@.stack[old(self)@.stack_pointer - 1],
                ..old(self)@
            }),
    {
        if self.stack_pointer == 0 {
            return Err(Fault::StackUnderflow);
        }
        self.stack_pointer = self.stack_pointer - 1;
        self.program_counter = self.stack[self.stack_pointer];
        Ok(())
    }

    /// Push the current program counter and jump to the target; a call
    /// with a full stack is a fault.
    pub fn call_subroutine(&mut self, address: u16) -> (r: Result<(), Fault>)
        requires
            old(self).wf(),
        ensures
            final(self).wf(),
            old(self)@.stack_pointer >= 16 ==> r == Err::<(), Fault>(Fault::StackOverflow)
                && final(self)@ == old(self)@,
            old(self)@.stack_pointer < 16 ==> r == Ok::<(), Fault>(()) && final(self)@ == (CpuState {
                stack: old(self)@.stack.update(old(self)@.stack_pointer, old(self)@.program_counter),
                stack_pointer: old(self)@.stack_pointer + 1,
                program_counter: address,
                ..old(self)@
            }),
    {
        if self.stack_pointer >= 16 {
            return Err(Fault::StackOverflow);
        }
        self.stack[self.stack_pointer] = self.program_counter;
        self.program_counter = address;
        self.stack_pointer = self.stack_pointer + 1;
        Ok(())
    }

    /// Skip the next instruction (two extra bytes) when the register
    /// equals the immediate.
    pub fn skip_equal(&mut self, register: usize, value: u8)
        requires
            old(self).wf(),
            register < 16,
            old(self)@.program_counter + 2 < 0x10000,
        ensures
            final(self).wf(),
            final(self)@ == with_pc(
                old(self)@,
                if old(self)@.registers[register as int] == value {
                    (old(self)@.program_counter + 2) as u16
                } else {
                    old(self)@.program_counter
                },
            ),
    {
        if self.registers[register] == value {
            self.program_counter = self.program_counter + 2;
        }
    }

    /// Skip the next instruction when the register differs from the
    /// immediate.
    pub fn skip_not_equal(&mut self, register: usize, value: u8)
        requires
            old(self).wf(),
            register < 16,
            old(self)@.program_counter + 2 < 0x10000,
        ensures
            final(self).wf(),
            final(self)@ == with_pc(
                old(self)@,
                if old(self)@.registers[register as int] != value {
                    (old(self)@.program_counter + 2) as u16
                } else {
                    old(self)@.program_counter
                },
            ),
    {
        if self.registers[register] != value {
            self.program_counter = self.program_counter + 2;
        }
    }

    /// Skip the next instruction when the two registers are equal.
    pub fn skip_equal_register(&mut self, first_register: usize, second_register: usize)
        requires
            old(self).wf(),
            first_register < 16,
            second_register < 16,
            old(self)@.program_counter + 2 < 0x10000,
        ensures
            final(self).wf(),
            final(self)@ == with_pc(
                old(self)@,
                if old(self)@.registers[first_register as int] == old(self)@.registers[second_register as int] {
                    (old(self)@.program_counter + 2) as u16
                } else {
                    old(self)@.program_counter
                },
            ),
    {
        if self.registers[first_register] == self.registers[second_register] {
            self.program_counter = self.program_counter + 2;
        }
    }

    /// Skip the next instruction when the two registers differ.
    pub fn skip_not_equal_register(&mut self, first_register: usize, second_register: usize)
        requires
            old(self).wf(),
            first_register < 16,
            second_register < 16,
            old(self)@.program_counter + 2 < 0x10000,
        ensures
            final(self).wf(),
            final(self)@ == with_pc(
                old(self)@,
                if old(self)@.registers[first_register as int] != old(self)@.registers[second_register as int] {
                    (old(self)@.program_counter + 2) as u16
                } else {
                    old(self)@.program_counter
                },
            ),
    {
        if self.registers[first_register] != self.registers[second_register] {
            self.program_counter = self.program_counter + 2;
        }
    }

    /// Skip the next instruction when the key selected by the register
    /// is down.
    pub fn skip_pressed(&mut self, register: usize)
        requires
            old(self).wf(),
            register < 16,
            old(self)@.program_counter + 2 < 0x10000,
        ensures
            final(self).wf(),
            final(self)@ == with_pc(
                old(self)@,
                if key_down(old(self)@, old(self)@.registers[register as int]) {
                    (old(self)@.program_counter + 2) as u16
                } else {
                    old(self)@.program_counter
                },
            ),
    {
        let key = (self.registers[register] % 16) as usize;
        if self.keys[key] {
            self.program_counter = self.program_counter + 2;
        }
    }

    /// Skip the next instruction when the key selected by the register
    /// is up.
    pub fn skip_not_pressed(&mut self, register: usize)
        requires
            old(self).wf(),
            register < 16,
            old(self)@.program_counter + 2 < 0x10000,
        ensures
            final(self).wf(),
            final(self)@ == with_pc(
                old(self)@,
                if !key_down(old(self)@, old(self)@.registers[register as int]) {
                    (old(self)@.program_counter + 2) as u16
                } else {
                    old(self)@.program_counter
                },
            ),
    {
        let key = (self.registers[register] % 16) as usize;
        if !self.keys[key] {
            self.program_counter = self.program_counter + 2;
        }
    }

    /// Add an immediate to a register, wrapping modulo 256; the flag
    /// register is not touched.
    pub fn add(&mut self, register: usize, value: u8)
        requires
            old(self).wf(),
            register < 16,
        ensures
            final(self).wf(),
            final(self)@ == (CpuState {
                registers: old(self)@.registers.update(
                    register as int,
                    ((old(self)@.registers[register as int] + value) % 256) as u8,
                ),
                ..old(self)@
            }),
    {
        let sum: u16 = self.registers[register] as u16 + value as u16;
        self.registers[register] = (sum % 256) as u8;
    }

    /// Bitwise or of the two registers into the first.
    pub fn or(&mut self, first_register: usize, second_register: usize)
        requires
            old(self).wf(),
            first_register < 16,
            second_register < 16,
        ensures
            final(self).wf(),
            final(self)@ == (CpuState {
                registers: old(self)@.registers.update(
                    first_register as int,
                    old(self)@.registers[first_register as int]
                        | old(self)@.registers[second_register as int],
                ),
                ..old(self)@
            }),
    {
        let value = self.registers[first_register] | self.registers[second_register];
        self.registers[first_register] = value;
    }

    /// Bitwise and of the two registers into the first.
    pub fn and(&mut self, first_register: usize, second_register: usize)
        requires
            old(self).wf(),
            first_register < 16,
            second_register < 16,
        ensures
            final(self).wf(),
            final(self)@ == (CpuState {
                registers: old(self)@.registers.update(
                    first_register as int,
                    old(self)@.registers[first_register as int]
                        & old(self)@.registers[second_register as int],
                ),
                ..old(self)@
            }),
    {
        let value = self.registers[first_register] & self.registers[second_register];
        self.registers[first_register] = value;
    }

    /// Bitwise exclusive or of the two registers into the first.
    pub fn xor(&mut self, first_register: usize, second_register: usize)
        requires
            old(self).wf(),
            first_register < 16,
            second_register < 16,
        ensures
            final(self).wf(),
            final(self)@ == (CpuState {
                registers: old(self)@.registers.update(
                    first_register as int,
                    old(self)@.registers[first_register as int]
                        ^ old(self)@.registers[second_register as int],
                ),
                ..old(self)@
            }),
    {
        let value = self.registers[first_register] ^ self.registers[second_register];
        self.registers[first_register] = value;
    }

    /// Add the second register into the first, truncated to 8 bits; the
    /// flag register records whether the mathematical sum exceeded 255.
    pub fn add_register(&mut self, first_register: usize, second_register: usize)
        requires
            old(self).wf(),
            first_register < 16,
            second_register < 16,
        ensures
            final(self).wf(),
            final(self)@ == (CpuState {
                registers: old(self)@.registers.update(
                    first_register as int,
                    ((old(self)@.registers[first_register as int]
                        + old(self)@.registers[second_register as int]) % 256) as u8,
                ),
                flag_register: old(self)@.registers[first_register as int]
                    + old(self)@.registers[second_register as int] > 255,
                ..old(self)@
            }),
    {
        let sum: u16 = self.registers[first_register] as u16
            + self.registers[second_register] as u16;
        self.flag_register = sum > 255;
        self.registers[first_register] = (sum % 256) as u8;
    }

    /// Subtract the second register from the first, wrapping modulo
    /// 256; the flag register is 1 exactly when no borrow occurred,
    /// that is, when the minuend exceeds the subtrahend.
    pub fn subtract_first(&mut self, first_register: usize, second_register: usize)
        requires
            old(self).wf(),
            first_register < 16,
            second_register < 16,
        ensures
            final(self).wf(),
            final(self)@ == (CpuState {
                registers: old(self)@.registers.update(
                    first_register as int,
                    ((old(self)@.registers[first_register as int] + 256
                        - old(self)@.registers[second_register as int]) % 256) as u8,
                ),
                flag_register: old(self)@.registers[first_register as int]
                    > old(self)@.registers[second_register as int],
                ..old(self)@
            }),
    {
        let minuend = self.registers[first_register];
        let subtrahend = self.registers[second_register];
        self.flag_register = minuend > subtrahend;
        let difference: u16 = (minuend as u16 + 256) - (subtrahend as u16);
        self.registers[first_register] = (difference % 256) as u8;
    }

    /// Subtract the first register from the second, storing into the
    /// first, wrapping modulo 256; the flag register is 1 exactly when
    /// no borrow occurred.
    pub fn subtract_second(&mut self, first_register: usize, second_register: usize)
        requires
            old(self).wf(),
            first_register < 16,
            second_register < 16,
        ensures
            final(self).wf(),
            final(self)@ == (CpuState {
                registers: old(self)@.registers.update(
                    first_register as int,
                    ((old(self)@.registers[second_register as int] + 256
                        - old(self)@.registers[first_register as int]) % 256) as u8,
                ),
                flag_register: old(self)@.registers[second_register as int]
                    > old(self)@.registers[first_register as int],
                ..old(self)@
            }),
    {
        let minuend = self.registers[second_register];
        let subtrahend = self.registers[first_register];
        self.flag_register = minuend > subtrahend;
        let difference: u16 = (minuend as u16 + 256) - (subtrahend as u16);
        self.registers[first_register] = (difference % 256) as u8;
    }

    /// Shift the register right one bit, storing the result back; the
    /// flag register captures the bit shifted out.
    pub fn shift_right(&mut self, register: usize)
        requires
            old(self).wf(),
            register < 16,
        ensures
            final(self).wf(),
            final(self)@ == (CpuState {
                registers: old(self)@.registers.update(
                    register as int,
                    (old(self)@.registers[register as int] / 2) as u8,
                ),
                flag_register: old(self)@.registers[register as int] % 2 == 1,
                ..old(self)@
            }),
    {
        let value = self.registers[register];
        self.flag_register = value % 2 == 1;
        self.registers[register] = value / 2;
    }

    /// Shift the register left one bit, truncated to 8 bits and stored
    /// back; the flag register captures the bit shifted out.
    pub fn shift_left(&mut self, register: usize)
        requires
            old(self).wf(),
            register < 16,
        ensures
            final(self).wf(),
            final(self)@ == (CpuState {
                registers: old(self)@.registers.update(
                    register as int,
                    ((old(self)@.registers[register as int] * 2) % 256) as u8,
                ),
                flag_register: old(self)@.registers[register as int] >= 128,
                ..old(self)@
            }),
    {
        let value = self.registers[register];
        self.flag_register = value >= 128;
        let doubled: u16 = (value as u16) * 2;
        self.registers[register] = (doubled % 256) as u8;
    }

    /// Jump to the target address offset by register 0.
    pub fn jump_offset(&mut self, address: u16)
        requires
            old(self).wf(),
            old(self)@.registers[0] + address < 0x10000,
        ensures
            final(self).wf(),
            final(self)@ == with_pc(old(self)@, (old(self)@.registers[0] + address) as u16),
    {
        self.program_counter = self.registers[0] as u16 + address;
    }

    /// Add the register into the address register, a 16-bit add
    /// wrapping modulo 65536; no flag effect.
    pub fn add_i(&mut self, register: usize)
        requires
            old(self).wf(),
            register < 16,
        ensures
            final(self).wf(),
            final(self)@ == (CpuState {
                i_register: ((old(self)@.i_register + old(self)@.registers[register as int])
                    % 0x10000) as u16,
                ..old(self)@
            }),
    {
        let sum: u32 = self.i_register as u32 + self.registers[register] as u32;
        self.i_register = (sum % 0x10000) as u16;
    }

    /// Draw a sprite of `sprite_rows` rows read from memory at the
    /// address register, at the screen position held by the two
    /// registers: each sprite byte is walked most-significant bit
    /// first, each set bit toggles its pixel, each row starts again at
    /// the sprite's base column one row further down, and coordinates
    /// wrap per pixel at the screen edges.  A sprite taller than 15
    /// rows, or one whose data would reach past the end of memory, is a
    /// fault and draws nothing.
    pub fn draw(&mut self, first_register: usize, second_register: usize, sprite_rows: u8) -> (r:
        Result<(), Fault>)
        requires
            old(self).wf(),
            first_register < 16,
            second_register < 16,
        ensures
            final(self).wf(),
            match spec_draw(old(self)@, first_register as int, second_register as int, sprite_rows) {
                Ok(s2) => r == Ok::<(), Fault>(()) && final(self)@ == s2,
                Err(f) => r == Err::<(), Fault>(f) && final(self)@ == old(self)@,
            },
    {
        if sprite_rows > 15 {
            return Err(Fault::SpriteTooTall);
        }
        let base: usize = self.i_register as usize;
        if base + sprite_rows as usize > 4096 {
            return Err(Fault::SpriteOutOfBounds);
        }
        let base_x = self.registers[first_register];
        let base_y = self.registers[second_register];
        let mut row: u8 = 0;
        while row < sprite_rows
            invariant
                state_wf(old(self)@),
                self.wf(),
                row <= sprite_rows,
                sprite_rows <= 15,
                base == old(self)@.i_register,
                base + sprite_rows <= 4096,
                base_x == old(self)@.registers[first_register as int],
                base_y == old(self)@.registers[second_register as int],
                self@ == (CpuState {
                    screen: draw_rows(
                        old(self)@.screen,
                        old(self)@.memory,
                        base as int,
                        base_x,
                        base_y,
                        row as int,
                    ),
                    ..old(self)@
                }),
            decreases sprite_rows - row,
        {
            let byte = self.memory[base + row as usize];
            let ycor = ((base_y as u16 + row as u16) % 32) as u8;
            let ghost rows_before = self@.screen;
            let mut bit: u8 = 0;
            while bit < 8
                invariant
                    state_wf(old(self)@),
                    self.wf(),
                    bit <= 8,
                    row < sprite_rows,
                    sprite_rows <= 15,
                    base == old(self)@.i_register,
                    base + sprite_rows <= 4096,
                    byte == old(self)@.memory[base + row as int],
                    ycor == ((base_y + row) % 32) as u8,
                    rows_before == draw_rows(
                        old(self)@.screen,
                        old(self)@.memory,
                        base as int,
                        base_x,
                        base_y,
                        row as int,
                    ),
                    self@ == (CpuState {
                        screen: draw_bits(rows_before, byte, base_x, ycor, bit as int),
                        ..old(self)@
                    }),
                decreases 8 - bit,
            {
                let shift: u8 = 7 - bit;
                proof {
                    assert(shift == (7 - bit % 8) as u8);
                }
                if (byte >> shift) & 1 == 1 {
                    let xcor = ((base_x as u16 + bit as u16) % 64) as u8;
                    proof {
                        assert(xcor == ((base_x + bit) % 64) as u8);
                    }
                    self.screen.toggle_pixel(xcor, ycor);
                }
                bit = bit + 1;
            }
            proof {
                assert(self@.screen == draw_rows(
                    old(self)@.screen,
                    old(self)@.memory,
                    base as int,
                    base_x,
                    base_y,
                    row as int + 1,
                ));
            }
            row = row + 1;
        }
        Ok(())
    }

    /// One fetch-decode-execute cycle with the randomness injected:
    /// `random_value` stands in for the byte the random-and-mask
    /// instruction draws, which makes the cycle a function of its
    /// arguments alone.
    pub fn process_with_random(&mut self, random_value: u8) -> (r: Result<(), Fault>)
        requires
            old(self).wf(),
        ensures
            final(self).wf(),
            step_result(old(self)@, final(self)@, r, random_value),
    {
        if self.program_counter >= 4095 {
            return Err(Fault::ProgramCounterOutOfRange);
        }
        let pc = self.program_counter;
        let hi = self.memory[pc as usize];
        let lo = self.memory[pc as usize + 1];
        proof {
            lemma_decode_bounded(hi, lo);
        }
        match decode_bytes(hi, lo) {
            None => Err(
                Fault::UnknownInstruction {
                    instruction: (hi as u16) * 256 + (lo as u16),
                    program_counter: pc,
                },
            ),
            Some(instr) => match instr {
                Instr::Nop => {
                    self.program_counter = pc + 2;
                    Ok(())
                },
                Instr::ClearScreen => {
                    self.clear_screen();
                    self.program_counter = pc + 2;
                    Ok(())
                },
                Instr::Return => self.return_from_subroutine(),
                Instr::Jump { address } => {
                    self.jump(address);
                    Ok(())
                },
                Instr::Call { address } => self.call_subroutine(address),
                Instr::SkipEqualImm { x, value } => {
                    self.skip_equal(x as usize, value);
                    self.program_counter = self.program_counter + 2;
                    Ok(())
                },
                Instr::SkipNotEqualImm { x, value } => {
                    self.skip_not_equal(x as usize, value);
                    self.program_counter = self.program_counter + 2;
                    Ok(())
                },
                Instr::SkipEqualReg { x, y } => {
                    self.skip_equal_register(x as usize, y as usize);
                    self.program_counter = self.program_counter + 2;
                    Ok(())
                },
                Instr::LoadImm { x, value } => {
                    self.load(x as usize, value);
                    self.program_counter = pc + 2;
                    Ok(())
                },
                Instr::AddImm { x, value } => {
                    self.add(x as usize, value);
                    self.program_counter = pc + 2;
                    Ok(())
                },
                Instr::LoadReg { x, y } => {
                    self.load_register(x as usize, y as usize);
                    self.program_counter = pc + 2;
                    Ok(())
                },
                Instr::Or { x, y } => {
                    self.or(x as usize, y as usize);
                    self.program_counter = pc + 2;
                    Ok(())
                },
                Instr::And { x, y } => {
                    self.and(x as usize, y as usize);
                    self.program_counter = pc + 2;
                    Ok(())
                },
                Instr::Xor { x, y } => {
                    self.xor(x as usize, y as usize);
                    self.program_counter = pc + 2;
                    Ok(())
                },
                Instr::AddReg { x, y } => {
                    self.add_register(x as usize, y as usize);
                    self.program_counter = pc + 2;
                    Ok(())
                },
                Instr::SubtractFirst { x, y } => {
                    self.subtract_first(x as usize, y as usize);
                    self.program_counter = pc + 2;
                    Ok(())
                },
                Instr::ShiftRight { x } => {
                    self.shift_right(x as usize);
                    self.program_counter = pc + 2;
                    Ok(())
                },
                Instr::SubtractSecond { x, y } => {
                    self.subtract_second(x as usize, y as usize);
                    self.program_counter = pc + 2;
                    Ok(())
                },
                Instr::ShiftLeft { x } => {
                    self.shift_left(x as usize);
                    self.program_counter = pc + 2;
                    Ok(())
                },
                Instr::SkipNotEqualReg { x, y } => {
                    self.skip_not_equal_register(x as usize, y as usize);
                    self.program_counter = self.program_counter + 2;
                    Ok(())
                },
                Instr::LoadI { address } => {
                    self.load_i(address);
                    self.program_counter = pc + 2;
                    Ok(())
                },
                Instr::JumpOffset { address } => {
                    self.jump_offset(address);
                    Ok(())
                },
                Instr::Random { x, mask } => {
                    self.random(x as usize, mask, random_value);
                    self.program_counter = pc + 2;
                    Ok(())
                },
                Instr::Draw { x, y, rows } => match self.draw(x as usize, y as usize, rows) {
                    Ok(()) => {
                        self.program_counter = pc + 2;
                        Ok(())
                    },
                    Err(f) => Err(f),
                },
                Instr::SkipPressed { x } => {
                    self.skip_pressed(x as usize);
                    self.program_counter = self.program_counter + 2;
                    Ok(())
                },
                Instr::SkipNotPressed { x } => {
                    self.skip_not_pressed(x as usize);
                    self.program_counter = self.program_counter + 2;
                    Ok(())
                },
                Instr::AddI { x } => {
                    self.add_i(x as usize);
                    self.program_counter = pc + 2;
                    Ok(())
                },
            },
        }
    }

    /// One fetch-decode-execute cycle, drawing from the process-wide
    /// randomness source.  Some byte relates the states before and
    /// after as `step_result` says; every cycle that does not fetch a
    /// random-and-mask instruction is deterministic.
    pub fn process_instruction(&mut self) -> (r: Result<(), Fault>)
        requires
            old(self).wf(),
        ensures
            final(self).wf(),
            exists|b: u8| step_result(old(self)@, final(self)@, r, b),
            !uses_randomness(old(self)@) ==> forall|b: u8|
                step_result(old(self)@, final(self)@, r, b),
    {
        let drawn = random_byte();
        let r = self.process_with_random(drawn);
        proof {
            assert(step_result(old(self)@, self@, r, drawn));
            if !uses_randomness(old(self)@) {
                assert forall|b: u8| step_result(old(self)@, self@, r, b) by {
                    lemma_step_ignores_randomness(old(self)@, drawn, b);
                }
            }
        }
        r
    }

    /// Read the pixel at column `xcor mod 64`, row `ycor mod 32` of the
    /// display.
    pub fn get_pixel(&self, xcor: u8, ycor: u8) -> (r: bool)
        requires
            self.wf(),
        ensures
            r == pixel_at(self@.screen, xcor, ycor),
    {
        self.screen.get_pixel(xcor, ycor)
    }

    /// A pure projection of the display for an external presentation
    /// layer: for each of the 32 rows, the 64 pixel states left to
    /// right.
    pub fn render(&self) -> (r: Vec<Vec<bool>>)
        requires
            self.wf(),
        ensures
            r@.len() == 32,
            forall|j: int| 0 <= j < 32 ==> (#[trigger] r@[j])@.len() == 64,
            forall|i: u8, j: u8| i < 64 && j < 32 ==> r@[j as int]@[i as int] == pixel_at(
                self@.screen,
                i,
                j,
            ),
    {
        self.screen.render()
    }

    /// The value of a general-purpose register.
    pub fn register(&self, index: usize) -> (r: u8)
        requires
            self.wf(),
            index < 16,
        ensures
            r == self@.registers[index as int],
    {
        self.registers[index]
    }

    /// The flag register.
    pub fn flag(&self) -> (r: bool)
        ensures
            r == self@.flag_register,
    {
        self.flag_register
    }

    /// The program counter.
    pub fn pc(&self) -> (r: u16)
        ensures
            r == self@.program_counter,
    {
        self.program_counter
    }

    /// The address register.
    pub fn index_register(&self) -> (r: u16)
        ensures
            r == self@.i_register,
    {
        self.i_register
    }

    /// How many return addresses the call stack currently holds.
    pub fn stack_depth(&self) -> (r: usize)
        ensures
            r == self@.stack_pointer,
    {
        self.stack_pointer
    }

    /// A slot of the call stack; slots at or above the current depth
    /// hold leftover values that a return merely ignores.
    pub fn stack_entry(&self, index: usize) -> (r: u16)
        requires
            self.wf(),
            index < 16,
        ensures
            r == self@.stack[index as int],
    {
        self.stack[index]
    }
}

/// Law: a call pushes the current program counter and jumps to the
/// target, and the matching return restores both the program counter
/// and the stack depth.  From any well-formed state `s` whose stack has
/// room, executing a call to `target` leaves the counter at `target`,
/// the old counter on top of the stack, and the depth one greater;
/// executing a return from there brings the counter back to
/// `s.program_counter` and the depth back to its prior value.
pub proof fn lemma_call_then_return(s: CpuState, target: u16)
    requires
        state_wf(s),
        s.stack_pointer < 16,
    ensures
        exec_instr(s, Instr::Call { address: target }, 0) matches Ok(s1) && {
            &&& s1.program_counter == target
            &&& s1.stack_pointer == s.stack_pointer + 1
            &&& s1.stack[s1.stack_pointer - 1] == s.program_counter
            &&& exec_instr(s1, Instr::Return, 0) matches Ok(s2) && {
                &&& s2.program_counter == s.program_counter
                &&& s2.stack_pointer == s.stack_pointer
                &&& s2.registers == s.registers
                &&& s2.memory == s.memory
                &&& s2.screen == s.screen
            }
        },
{
}

/// A cycle that does not fetch a random-and-mask instruction gives the
/// same outcome whatever byte the randomness source returned.
pub proof fn lemma_step_ignores_randomness(s: CpuState, b1: u8, b2: u8)
    requires
        !uses_randomness(s),
    ensures
        step_spec(s, b1) == step_spec(s, b2),
{
    if s.program_counter + 1 < 4096 {
        let hi = s.memory[s.program_counter as int];
        let lo = s.memory[s.program_counter as int + 1];
        match decode(hi, lo) {
            Some(instr) => {
                assert(exec_instr(s, instr, b1) == exec_instr(s, instr, b2));
            },
            None => {},
        }
    }
}

} // verus!
