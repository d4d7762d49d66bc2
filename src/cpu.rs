use crate::display::{blank, draw_collides, draw_sprite, Display, PIXELS};
use crate::keypad::{key_down, Keypad, KEY_COUNT};
use vstd::prelude::*;

verus! {

/// Number of addressable bytes of memory.
pub const MEMORY_SIZE: usize = 4096;

/// Address at which programs are loaded and execution starts.
pub const PROGRAM_START: usize = 0x200;

/// Number of general-purpose registers.
pub const REGISTER_COUNT: usize = 16;

/// Register overwritten with the carry, borrow and collision flags.
pub const FLAG_REGISTER: usize = 0xF;

/// Greatest number of return addresses the stack holds.
pub const STACK_DEPTH: usize = 16;

/// Number of bytes of the built-in font: five per hexadecimal digit.
pub const FONT_SIZE: usize = 80;

/// Bytes of one glyph of the built-in font.
pub const GLYPH_SIZE: usize = 5;

/// The built-in font: the glyphs of the digits 0 to F, five rows each.
pub open spec fn font() -> Seq<u8> {
    seq![
        0xF0u8, 0x90, 0x90, 0x90, 0xF0,
        0x20, 0x60, 0x20, 0x20, 0x70,
        0xF0, 0x10, 0xF0, 0x80, 0xF0,
        0xF0, 0x10, 0xF0, 0x10, 0xF0,
        0x90, 0x90, 0xF0, 0x10, 0x10,
        0xF0, 0x80, 0xF0, 0x10, 0xF0,
        0xF0, 0x80, 0xF0, 0x90, 0xF0,
        0xF0, 0x10, 0x20, 0x40, 0x40,
        0xF0, 0x90, 0xF0, 0x90, 0xF0,
        0xF0, 0x90, 0xF0, 0x10, 0xF0,
        0xF0, 0x90, 0xF0, 0x90, 0x90,
        0xE0, 0x90, 0xE0, 0x90, 0xE0,
        0xF0, 0x80, 0x80, 0x80, 0xF0,
        0xE0, 0x90, 0x90, 0x90, 0xE0,
        0xF0, 0x80, 0xF0, 0x80, 0xF0,
        0xF0, 0x80, 0xF0, 0x80, 0x80,
    ]
}

fn font_table() -> (r: [u8; 80])
    ensures
        r@ == font(),
{
    let r: [u8; 80] = [
        0xF0, 0x90, 0x90, 0x90, 0xF0,
        0x20, 0x60, 0x20, 0x20, 0x70,
        0xF0, 0x10, 0xF0, 0x80, 0xF0,
        0xF0, 0x10, 0xF0, 0x10, 0xF0,
        0x90, 0x90, 0xF0, 0x10, 0x10,
        0xF0, 0x80, 0xF0, 0x10, 0xF0,
        0xF0, 0x80, 0xF0, 0x90, 0xF0,
        0xF0, 0x10, 0x20, 0x40, 0x40,
        0xF0, 0x90, 0xF0, 0x90, 0xF0,
        0xF0, 0x90, 0xF0, 0x10, 0xF0,
        0xF0, 0x90, 0xF0, 0x90, 0x90,
        0xE0, 0x90, 0xE0, 0x90, 0xE0,
        0xF0, 0x80, 0x80, 0x80, 0xF0,
        0xE0, 0x90, 0x90, 0x90, 0xE0,
        0xF0, 0x80, 0xF0, 0x80, 0xF0,
        0xF0, 0x80, 0xF0, 0x80, 0x80,
    ];
    assert(r@ =~= font());
    r
}


/// Abstract machine state: what one instruction reads and writes.
#[verifier::ext_equal]
pub struct CpuState {
    /// All of memory, `MEMORY_SIZE` bytes.
    pub memory: Seq<u8>,
    /// The general-purpose registers.
    pub registers: Seq<u8>,
    /// The index register.
    pub index: u16,
    /// Address of the next instruction to fetch.
    pub program_counter: int,
    /// The pending return addresses, the most recent last.
    pub stack: Seq<u16>,
    pub delay_timer: u8,
    pub sound_timer: u8,
    /// The instruction word last fetched.
    pub opcode: u16,
    /// Level state of the keypad.
    pub keys: Seq<bool>,
    /// The framebuffer's pixels.
    pub screen: Seq<bool>,
    /// Whether the framebuffer changed since it was last shown.
    pub dirty: bool,
}

/// Sizes of the parts of a machine state.
pub open spec fn valid(s: CpuState) -> bool {
    &&& s.memory.len() == MEMORY_SIZE
    &&& s.registers.len() == REGISTER_COUNT
    &&& s.stack.len() <= STACK_DEPTH
    &&& s.keys.len() == KEY_COUNT
    &&& s.screen.len() == PIXELS
}

/// Register operand `x`: bits 8 to 11.
pub open spec fn op_x_of(op: u16) -> int {
    (op as int / 0x100) % 0x10
}

/// Register operand `y`: bits 4 to 7.
pub open spec fn op_y_of(op: u16) -> int {
    (op as int / 0x10) % 0x10
}

/// 4-bit immediate `n`: bits 0 to 3.
pub open spec fn op_n_of(op: u16) -> int {
    op as int % 0x10
}

/// 8-bit immediate `nn`: bits 0 to 7.
pub open spec fn op_nn_of(op: u16) -> u8 {
    (op as int % 0x100) as u8
}

/// 12-bit address `nnn`: bits 0 to 11.
pub open spec fn op_nnn_of(op: u16) -> u16 {
    (op as int % 0x1000) as u16
}

/// Instruction family: bits 12 to 15.
pub open spec fn family_of(op: u16) -> int {
    op as int / 0x1000
}

/// Memory address `k` bytes past `index`, wrapping at the end of memory.
pub open spec fn address(index: u16, k: int) -> int {
    (index + k) % (MEMORY_SIZE as int)
}

/// The index register moved past `x + 1` bytes, as a 16-bit register.
pub open spec fn index_after(index: u16, x: int) -> u16 {
    ((index + x + 1) % 0x10000) as u16
}

/// The `n` bytes of memory that start at `index`.
pub open spec fn sprite_at(memory: Seq<u8>, index: u16, n: int) -> Seq<u8> {
    Seq::new(n as nat, |k: int| memory[address(index, k)])
}

/// Memory after the three decimal digits of `v` (hundreds, tens, ones) are
/// stored from `index` on.
pub open spec fn bcd_stored(memory: Seq<u8>, index: u16, v: u8) -> Seq<u8> {
    memory.update(address(index, 0), v / 100).update(address(index, 1), (v / 10) % 10).update(
        address(index, 2),
        v % 10,
    )
}

/// Memory after registers `0..=x` are stored from `index` on.
pub open spec fn registers_stored(memory: Seq<u8>, registers: Seq<u8>, index: u16, x: int) -> Seq<
    u8,
> {
    Seq::new(
        memory.len(),
        |a: int|
            {
                let k = (a - index) % (MEMORY_SIZE as int);
                if k <= x {
                    registers[k]
                } else {
                    memory[a]
                }
            },
    )
}

/// Registers after `0..=x` are loaded from memory at `index` on.
pub open spec fn registers_loaded(memory: Seq<u8>, registers: Seq<u8>, index: u16, x: int) -> Seq<
    u8,
> {
    Seq::new(
        registers.len(),
        |k: int|
            if k <= x {
                memory[address(index, k)]
            } else {
                registers[k]
            },
    )
}

/// `s` with the program counter moved on by `by` bytes.
pub open spec fn advanced(s: CpuState, by: int) -> CpuState {
    CpuState { program_counter: s.program_counter + by, ..s }
}

/// `0x00E0`, `0x00EE`, `0x1nnn`, `0x2nnn`: clear, return, jump and call.
/// A return with no pending call and a call with a full stack leave the
/// stack alone and only advance, like an unrecognized instruction.
pub open spec fn flow_spec(s: CpuState) -> CpuState {
    let op = s.opcode;
    if op == 0x00E0 {
        CpuState { screen: blank(), dirty: true, ..advanced(s, 2) }
    } else if op == 0x00EE && s.stack.len() > 0 {
        CpuState {
            program_counter: s.stack.last() + 2,
            stack: s.stack.drop_last(),
            ..s
        }
    } else if family_of(op) == 1 {
        CpuState { program_counter: op_nnn_of(op) as int, ..s }
    } else if family_of(op) == 2 && s.stack.len() < STACK_DEPTH {
        CpuState {
            program_counter: op_nnn_of(op) as int,
            stack: s.stack.push(s.program_counter as u16),
            ..s
        }
    } else {
        advanced(s, 2)
    }
}

/// `0x8xyN`: copy, AND, add with carry, subtract with borrow. The flag is
/// written before the result, so with `x == 0xF` the result stays.
pub open spec fn alu_spec(s: CpuState) -> CpuState {
    let op = s.opcode;
    let x = op_x_of(op);
    let vx = s.registers[x];
    let vy = s.registers[op_y_of(op)];
    let regs = if op_n_of(op) == 0 {
        s.registers.update(x, vy)
    } else if op_n_of(op) == 2 {
        s.registers.update(x, vx & vy)
    } else if op_n_of(op) == 4 {
        s.registers.update(FLAG_REGISTER as int, if vx + vy > 0xFF { 1u8 } else { 0u8 }).update(
            x,
            ((vx + vy) % 0x100) as u8,
        )
    } else if op_n_of(op) == 5 {
        s.registers.update(FLAG_REGISTER as int, if vx < vy { 0u8 } else { 1u8 }).update(
            x,
            ((vx - vy + 0x100) % 0x100) as u8,
        )
    } else {
        s.registers
    };
    CpuState { registers: regs, ..advanced(s, 2) }
}

/// `0xDxyn`: XOR the `n` bytes at the index register onto the screen at
/// (`registers[x]`, `registers[y]`); the flag register tells of a collision.
pub open spec fn draw_spec(s: CpuState) -> CpuState {
    let op = s.opcode;
    let vx = s.registers[op_x_of(op)] as int;
    let vy = s.registers[op_y_of(op)] as int;
    let sprite = sprite_at(s.memory, s.index, op_n_of(op));
    CpuState {
        screen: draw_sprite(s.screen, vx, vy, sprite),
        dirty: true,
        registers: s.registers.update(
            FLAG_REGISTER as int,
            if draw_collides(s.screen, vx, vy, sprite) { 1u8 } else { 0u8 },
        ),
        ..advanced(s, 2)
    }
}

/// `0xFxNN`: timers, font address, decimal digits, register block transfer.
pub open spec fn misc_spec(s: CpuState) -> CpuState {
    let op = s.opcode;
    let x = op_x_of(op);
    let vx = s.registers[x];
    let nn = op_nn_of(op);
    let t = advanced(s, 2);
    if nn == 0x07 {
        CpuState { registers: s.registers.update(x, s.delay_timer), ..t }
    } else if nn == 0x15 {
        CpuState { delay_timer: vx, ..t }
    } else if nn == 0x18 {
        CpuState { sound_timer: vx, ..t }
    } else if nn == 0x29 {
        CpuState { index: (vx * GLYPH_SIZE) as u16, ..t }
    } else if nn == 0x33 {
        CpuState { memory: bcd_stored(s.memory, s.index, vx), ..t }
    } else if nn == 0x55 {
        CpuState {
            memory: registers_stored(s.memory, s.registers, s.index, x),
            index: index_after(s.index, x),
            ..t
        }
    } else if nn == 0x65 {
        CpuState {
            registers: registers_loaded(s.memory, s.registers, s.index, x),
            index: index_after(s.index, x),
            ..t
        }
    } else {
        t
    }
}

/// The state after executing the instruction word `s.opcode`, with `random`
/// the byte drawn for `0xCxnn`. Unrecognized words advance by one instruction.
pub open spec fn execute_spec(s: CpuState, random: u8) -> CpuState {
    let op = s.opcode;
    let f = family_of(op);
    let x = op_x_of(op);
    let vx = s.registers[x];
    let nn = op_nn_of(op);
    if f == 0 || f == 1 || f == 2 {
        flow_spec(s)
    } else if f == 3 {
        advanced(s, if vx == nn { 4 } else { 2 })
    } else if f == 4 {
        advanced(s, if vx != nn { 4 } else { 2 })
    } else if f == 6 {
        CpuState { registers: s.registers.update(x, nn), ..advanced(s, 2) }
    } else if f == 7 {
        CpuState { registers: s.registers.update(x, ((vx + nn) % 0x100) as u8), ..advanced(s, 2) }
    } else if f == 8 {
        alu_spec(s)
    } else if f == 0xA {
        CpuState { index: op_nnn_of(op), ..advanced(s, 2) }
    } else if f == 0xC {
        CpuState { registers: s.registers.update(x, random & nn), ..advanced(s, 2) }
    } else if f == 0xD {
        draw_spec(s)
    } else if f == 0xE && nn == 0x9E {
        advanced(s, if key_down(s.keys, vx as int) { 4 } else { 2 })
    } else if f == 0xE && nn == 0xA1 {
        advanced(s, if key_down(s.keys, vx as int) { 2 } else { 4 })
    } else if f == 0xF {
        misc_spec(s)
    } else {
        advanced(s, 2)
    }
}

/// The instruction word stored big-endian at the program counter.
pub open spec fn fetched(s: CpuState) -> u16 {
    (s.memory[s.program_counter] as int * 0x100 + s.memory[s.program_counter + 1] as int) as u16
}

/// The state after the once-per-cycle timer tick.
pub open spec fn ticked(s: CpuState) -> CpuState {
    CpuState {
        delay_timer: if s.delay_timer > 0 { (s.delay_timer - 1) as u8 } else { 0u8 },
        sound_timer: if s.sound_timer > 0 { (s.sound_timer - 1) as u8 } else { 0u8 },
        ..s
    }
}

/// Fetch and execute, with `random` as the drawn byte.
pub open spec fn executed(s: CpuState, random: u8) -> CpuState {
    execute_spec(with_opcode(s, fetched(s)), random)
}

/// One full cycle: fetch, execute with `random` as the drawn byte, tick.
pub open spec fn cycle_spec(s: CpuState, random: u8) -> CpuState {
    ticked(executed(s, random))
}

/// Whether the cycle's timer tick takes the sound timer from 1 to 0.
pub open spec fn cycle_stops_tone(s: CpuState, random: u8) -> bool {
    executed(s, random).sound_timer == 1
}

/// The state in which the machine starts: font in low memory, the rest of
/// memory zero, counters at the program start, stack and timers empty.
pub open spec fn initial_state() -> CpuState {
    CpuState {
        memory: Seq::new(
            MEMORY_SIZE as nat,
            |a: int|
                if a < FONT_SIZE {
                    font()[a]
                } else {
                    0u8
                },
        ),
        registers: Seq::new(REGISTER_COUNT as nat, |_k: int| 0u8),
        index: PROGRAM_START as u16,
        program_counter: PROGRAM_START as int,
        stack: Seq::empty(),
        delay_timer: 0,
        sound_timer: 0,
        opcode: 0,
        keys: Seq::new(KEY_COUNT as nat, |_k: int| false),
        screen: blank(),
        dirty: true,
    }
}


/// Why a program could not be loaded.
#[derive(Debug, Clone, Copy, PartialEq, Eq, Structural)]
pub enum LoadError {
    /// The program does not fit in memory after `PROGRAM_START`.
    TooLarge,
}

/// Memory after `program` is copied in at `PROGRAM_START`.
pub open spec fn loaded(memory: Seq<u8>, program: Seq<u8>) -> Seq<u8> {
    Seq::new(
        memory.len(),
        |a: int|
            if PROGRAM_START <= a < PROGRAM_START + program.len() {
                program[a - PROGRAM_START]
            } else {
                memory[a]
            },
    )
}

/// `s` with `program` copied into memory at `PROGRAM_START`.
pub open spec fn program_loaded(s: CpuState, program: Seq<u8>) -> CpuState {
    CpuState { memory: loaded(s.memory, program), ..s }
}

/// `s` with `op` as the current instruction word.
pub open spec fn with_opcode(s: CpuState, op: u16) -> CpuState {
    CpuState { opcode: op, ..s }
}

/// An address past `idx` is `k` bytes on exactly when `k` is its offset.
pub proof fn lemma_offset(idx: int, k: int, a: int)
    requires
        0 <= idx,
        0 <= k < MEMORY_SIZE,
        0 <= a < MEMORY_SIZE,
    ensures
        (a == (idx + k) % (MEMORY_SIZE as int)) <==> ((a - idx) % (MEMORY_SIZE as int) == k),
{
}

/// The CHIP-8 machine: memory, registers, stack, timers, and the keypad
/// and framebuffer that instructions read and write.
pub struct Cpu {
    program: usize,
    opcode: u16,
    stack: [u16; 16],
    stack_pointer: usize,
    delay_timer: u8,
    sound_timer: u8,
    v: [u8; 16],
    i: u16,
    memory: [u8; 4096],
    pub keypad: Keypad,
    pub display: Display,
}

impl View for Cpu {
    type V = CpuState;

    closed spec fn view(&self) -> CpuState {
        CpuState {
            memory: self.memory@,
            registers: self.v@,
            index: self.i,
            program_counter: self.program as int,
            stack: self.stack@.subrange(0, self.stack_pointer as int),
            delay_timer: self.delay_timer,
            sound_timer: self.sound_timer,
            opcode: self.opcode,
            keys: self.keypad@,
            screen: self.display@,
            dirty: self.display.dirty(),
        }
    }
}

impl Cpu {
    /// The stack pointer stays within the stack.
    pub closed spec fn wf(&self) -> bool {
        self.stack_pointer <= STACK_DEPTH
    }

    /// A machine in its start-up state.
    pub fn new() -> (r: Cpu)
        ensures
            r@ == initial_state(),
            r.wf(),
    {
        let fonts = font_table();
        let mut memory: [u8; 4096] = [0; 4096];
        let mut k: usize = 0;
        while k < FONT_SIZE
            invariant
                k <= FONT_SIZE,
                fonts@ == font(),
                forall|a: int| 0 <= a < k ==> memory@[a] == font()[a],
                forall|a: int| k <= a < MEMORY_SIZE ==> memory@[a] == 0,
            decreases FONT_SIZE - k,
        {
            memory[k] = fonts[k];
            k = k + 1;
        }
        let r = Cpu {
            program: PROGRAM_START,
            opcode: 0,
            stack: [0; 16],
            stack_pointer: 0,
            delay_timer: 0,
            sound_timer: 0,
            v: [0; 16],
            i: PROGRAM_START as u16,
            memory,
            keypad: Keypad::new(),
            display: Display::new(),
        };
        assert(r@.memory =~= initial_state().memory);
        assert(r@.registers =~= initial_state().registers);
        assert(r@.stack =~= initial_state().stack);
        assert(r@ =~= initial_state());
        r
    }

    /// Copies `game` into memory from `PROGRAM_START` on. A program that does
    /// not fit is refused and nothing changes.
    pub fn load_game(&mut self, game: &[u8]) -> (r: Result<(), LoadError>)
        requires
            old(self).wf(),
        ensures
            final(self).wf(),
            game@.len() <= MEMORY_SIZE - PROGRAM_START ==> (r is Ok && final(self)@ == program_loaded(
                old(self)@,
                game@,
            )),
            game@.len() > MEMORY_SIZE - PROGRAM_START ==> (r == Err::<(), LoadError>(
                LoadError::TooLarge,
            ) && final(self)@ == old(self)@),
    {
        if game.len() > MEMORY_SIZE - PROGRAM_START {
            return Err(LoadError::TooLarge);
        }
        let ghost m0 = self.memory@;
        let mut k: usize = 0;
        while k < game.len()
            invariant
                k <= game@.len() <= MEMORY_SIZE - PROGRAM_START,
                m0.len() == MEMORY_SIZE,
                self.memory@.len() == MEMORY_SIZE,
                forall|a: int|
                    0 <= a < MEMORY_SIZE ==> self.memory@[a] == loaded(m0, game@.subrange(0, k as int))[a],
                self.program == old(self).program,
                self.opcode == old(self).opcode,
                self.stack == old(self).stack,
                self.stack_pointer == old(self).stack_pointer <= STACK_DEPTH,
                self.delay_timer == old(self).delay_timer,
                self.sound_timer == old(self).sound_timer,
                self.v == old(self).v,
                self.i == old(self).i,
                self.keypad == old(self).keypad,
                self.display == old(self).display,
                m0 == old(self).memory@,
            decreases game@.len() - k,
        {
            self.memory[PROGRAM_START + k] = game[k];
            k = k + 1;
            assert(game@.subrange(0, k as int).drop_last() =~= game@.subrange(0, k - 1));
        }
        assert(game@.subrange(0, k as int) =~= game@);
        assert(self@.memory =~= loaded(old(self)@.memory, game@));
        assert(self@ =~= program_loaded(old(self)@, game@));
        Ok(())
    }

    /// Address of the next instruction to fetch.
    pub fn program_counter(&self) -> (r: usize)
        ensures
            r == self@.program_counter,
    {
        self.program
    }

    /// The instruction word last fetched.
    pub fn opcode(&self) -> (r: u16)
        ensures
            r == self@.opcode,
    {
        self.opcode
    }

    /// The value of register `r`.
    pub fn register(&self, r: usize) -> (v: u8)
        requires
            r < REGISTER_COUNT,
        ensures
            v == self@.registers[r as int],
    {
        self.v[r]
    }

    /// The index register.
    pub fn index(&self) -> (r: u16)
        ensures
            r == self@.index,
    {
        self.i
    }

    /// The byte of memory at `address`.
    pub fn memory_at(&self, address: usize) -> (r: u8)
        requires
            address < MEMORY_SIZE,
        ensures
            r == self@.memory[address as int],
    {
        self.memory[address]
    }

    /// Number of pending return addresses.
    pub fn stack_depth(&self) -> (r: usize)
        requires
            self.wf(),
        ensures
            r == self@.stack.len(),
    {
        self.stack_pointer
    }

    /// The delay timer.
    pub fn delay_timer(&self) -> (r: u8)
        ensures
            r == self@.delay_timer,
    {
        self.delay_timer
    }

    /// The sound timer.
    pub fn sound_timer(&self) -> (r: u8)
        ensures
            r == self@.sound_timer,
    {
        self.sound_timer
    }

    /// Reads the instruction word at the program counter into the opcode.
    pub fn fetch_opcode(&mut self)
        requires
            old(self).wf(),
            old(self)@.program_counter + 1 < MEMORY_SIZE,
        ensures
            final(self).wf(),
            final(self)@ == with_opcode(old(self)@, fetched(old(self)@)),
    {
        let hi = self.memory[self.program];
        let lo = self.memory[self.program + 1];
        self.opcode = (hi as u16) * 0x100 + lo as u16;
        assert(self@ =~= with_opcode(old(self)@, fetched(old(self)@)));
    }

    fn op_x(&self) -> (r: usize)
        ensures
            r == op_x_of(self.opcode),
            r < REGISTER_COUNT,
    {
        let op = self.opcode;
        assert((op & 0x0F00u16) >> 8u16 == (op / 0x100u16) % 0x10u16) by (bit_vector);
        ((op & 0x0F00) >> 8) as usize
    }

    fn op_y(&self) -> (r: usize)
        ensures
            r == op_y_of(self.opcode),
            r < REGISTER_COUNT,
    {
        let op = self.opcode;
        assert((op & 0x00F0u16) >> 4u16 == (op / 0x10u16) % 0x10u16) by (bit_vector);
        ((op & 0x00F0) >> 4) as usize
    }

    fn op_n(&self) -> (r: u8)
        ensures
            r == op_n_of(self.opcode),
    {
        let op = self.opcode;
        assert(op & 0x000Fu16 == op % 0x10u16) by (bit_vector);
        (op & 0x000F) as u8
    }

    fn op_nn(&self) -> (r: u8)
        ensures
            r == op_nn_of(self.opcode),
    {
        let op = self.opcode;
        assert(op & 0x00FFu16 == op % 0x100u16) by (bit_vector);
        (op & 0x00FF) as u8
    }

    fn op_nnn(&self) -> (r: u16)
        ensures
            r == op_nnn_of(self.opcode),
    {
        let op = self.opcode;
        assert(op & 0x0FFFu16 == op % 0x1000u16) by (bit_vector);
        op & 0x0FFF
    }

    fn op_family(&self) -> (r: u16)
        ensures
            r == family_of(self.opcode),
    {
        let op = self.opcode;
        assert(op >> 12u16 == op / 0x1000u16) by (bit_vector);
        op >> 12
    }

    /// Clear, return, jump and call.
    fn exec_flow(&mut self)
        requires
            old(self).wf(),
            old(self)@.program_counter < MEMORY_SIZE,
        ensures
            final(self).wf(),
            final(self)@ == flow_spec(old(self)@),
    {
        let op = self.opcode;
        let family = self.op_family();
        if op == 0x00E0 {
            self.display.clear();
            self.program = self.program + 2;
        } else if op == 0x00EE && self.stack_pointer > 0 {
            self.stack_pointer = self.stack_pointer - 1;
            self.program = self.stack[self.stack_pointer] as usize + 2;
            assert(self@.stack =~= old(self)@.stack.drop_last());
        } else if family == 1 {
            self.program = self.op_nnn() as usize;
        } else if family == 2 && self.stack_pointer < STACK_DEPTH {
            let target = self.op_nnn() as usize;
            self.stack[self.stack_pointer] = self.program as u16;
            self.stack_pointer = self.stack_pointer + 1;
            self.program = target;
            assert(self@.stack =~= old(self)@.stack.push(old(self)@.program_counter as u16));
        } else {
            self.program = self.program + 2;
        }
        assert(self@ =~= flow_spec(old(self)@));
    }

    /// Register-to-register arithmetic and logic.
    fn exec_alu(&mut self)
        requires
            old(self).wf(),
            old(self)@.program_counter < MEMORY_SIZE,
        ensures
            final(self).wf(),
            final(self)@ == alu_spec(old(self)@),
    {
        let x = self.op_x();
        let y = self.op_y();
        let n = self.op_n();
        let vx = self.v[x];
        let vy = self.v[y];
        if n == 0 {
            self.v[x] = vy;
        } else if n == 2 {
            self.v[x] = vx & vy;
        } else if n == 4 {
            let sum = vx as u16 + vy as u16;
            self.v[FLAG_REGISTER] = if sum > 0xFF {
                1
            } else {
                0
            };
            self.v[x] = (sum % 0x100) as u8;
        } else if n == 5 {
            self.v[FLAG_REGISTER] = if vx < vy {
                0
            } else {
                1
            };
            self.v[x] = ((vx as u16 + 0x100 - vy as u16) % 0x100) as u8;
        }
        self.program = self.program + 2;
        assert(self@.registers =~= alu_spec(old(self)@).registers);
        assert(self@ =~= alu_spec(old(self)@));
    }

    /// Sprite drawing from the index register.
    fn exec_draw(&mut self)
        requires
            old(self).wf(),
            old(self)@.program_counter < MEMORY_SIZE,
        ensures
            final(self).wf(),
            final(self)@ == draw_spec(old(self)@),
    {
        let x = self.op_x();
        let y = self.op_y();
        let n = self.op_n() as usize;
        let mut sprite: Vec<u8> = Vec::new();
        let mut k: usize = 0;
        while k < n
            invariant
                k <= n,
                n == op_n_of(self.opcode),
                self == old(self),
                sprite@ == sprite_at(self.memory@, self.i, k as int),
            decreases n - k,
        {
            sprite.push(self.memory[(self.i as usize + k) % MEMORY_SIZE]);
            k = k + 1;
            assert(sprite@ =~= sprite_at(self.memory@, self.i, k as int));
        }
        let collision = self.display.draw(self.v[x] as usize, self.v[y] as usize, sprite.as_slice());
        self.v[FLAG_REGISTER] = collision;
        self.program = self.program + 2;
        assert(self@ =~= draw_spec(old(self)@));
    }

    /// Stores registers `0..=x` from the index register on.
    fn store_registers(&mut self, x: usize)
        requires
            old(self).wf(),
            x < REGISTER_COUNT,
        ensures
            final(self).wf(),
            final(self)@ == (CpuState {
                memory: registers_stored(old(self)@.memory, old(self)@.registers, old(self)@.index, x as int),
                ..old(self)@
            }),
    {
        let ghost m0 = self.memory@;
        let idx = self.i as usize;
        let mut k: usize = 0;
        while k <= x
            invariant
                k <= x + 1,
                x < REGISTER_COUNT,
                idx == old(self).i,
                m0 == old(self).memory@,
                self.program == old(self).program,
                self.opcode == old(self).opcode,
                self.stack == old(self).stack,
                self.stack_pointer == old(self).stack_pointer <= STACK_DEPTH,
                self.delay_timer == old(self).delay_timer,
                self.sound_timer == old(self).sound_timer,
                self.v == old(self).v,
                self.i == old(self).i,
                self.keypad == old(self).keypad,
                self.display == old(self).display,
                forall|a: int|
                    #![trigger self.memory@[a]]
                    0 <= a < MEMORY_SIZE ==> self.memory@[a] == (if (a - idx) % (MEMORY_SIZE as int)
                        < k {
                        self.v@[(a - idx) % (MEMORY_SIZE as int)]
                    } else {
                        m0[a]
                    }),
            decreases x + 1 - k,
        {
            let a = (idx + k) % MEMORY_SIZE;
            self.memory[a] = self.v[k];
            proof {
                assert forall|b: int| 0 <= b < MEMORY_SIZE implies self.memory@[b] == (if (b - idx)
                    % (MEMORY_SIZE as int) < k + 1 {
                    self.v@[(b - idx) % (MEMORY_SIZE as int)]
                } else {
                    m0[b]
                }) by {
                    lemma_offset(idx as int, k as int, b);
                }
            }
            k = k + 1;
        }
        assert(self@.memory =~= registers_stored(m0, self.v@, self.i, x as int));
        assert(self@ =~= (CpuState {
            memory: registers_stored(old(self)@.memory, old(self)@.registers, old(self)@.index, x as int),
            ..old(self)@
        }));
    }

    /// Loads registers `0..=x` from the index register on.
    fn load_registers(&mut self, x: usize)
        requires
            old(self).wf(),
            x < REGISTER_COUNT,
        ensures
            final(self).wf(),
            final(self)@ == (CpuState {
                registers: registers_loaded(old(self)@.memory, old(self)@.registers, old(self)@.index, x as int),
                ..old(self)@
            }),
    {
        let ghost r0 = self.v@;
        let idx = self.i as usize;
        let mut k: usize = 0;
        while k <= x
            invariant
                k <= x + 1,
                x < REGISTER_COUNT,
                idx == old(self).i,
                r0 == old(self).v@,
                self.program == old(self).program,
                self.opcode == old(self).opcode,
                self.stack == old(self).stack,
                self.stack_pointer == old(self).stack_pointer <= STACK_DEPTH,
                self.delay_timer == old(self).delay_timer,
                self.sound_timer == old(self).sound_timer,
                self.memory == old(self).memory,
                self.i == old(self).i,
                self.keypad == old(self).keypad,
                self.display == old(self).display,
                self.v@ == Seq::new(
                    REGISTER_COUNT as nat,
                    |j: int|
                        if j < k {
                            self.memory@[address(self.i, j)]
                        } else {
                            r0[j]
                        },
                ),
            decreases x + 1 - k,
        {
            self.v[k] = self.memory[(idx + k) % MEMORY_SIZE];
            k = k + 1;
            assert(self.v@ =~= Seq::new(
                REGISTER_COUNT as nat,
                |j: int|
                    if j < k {
                        self.memory@[address(self.i, j)]
                    } else {
                        r0[j]
                    },
            ));
        }
        assert(self@.registers =~= registers_loaded(self.memory@, r0, self.i, x as int));
        assert(self@ =~= (CpuState {
            registers: registers_loaded(old(self)@.memory, old(self)@.registers, old(self)@.index, x as int),
            ..old(self)@
        }));
    }

    /// Timers, font address, decimal digits and register block transfer.
    fn exec_misc(&mut self)
        requires
            old(self).wf(),
            old(self)@.program_counter < MEMORY_SIZE,
        ensures
            final(self).wf(),
            final(self)@ == misc_spec(old(self)@),
    {
        let x = self.op_x();
        let nn = self.op_nn();
        let vx = self.v[x];
        if nn == 0x07 {
            self.v[x] = self.delay_timer;
        } else if nn == 0x15 {
            self.delay_timer = vx;
        } else if nn == 0x18 {
            self.sound_timer = vx;
        } else if nn == 0x29 {
            let glyph = vx as u16 * 5;
            self.i = glyph;
        } else if nn == 0x33 {
            let idx = self.i as usize;
            self.memory[idx % MEMORY_SIZE] = vx / 100;
            self.memory[(idx + 1) % MEMORY_SIZE] = (vx / 10) % 10;
            self.memory[(idx + 2) % MEMORY_SIZE] = vx % 10;
        } else if nn == 0x55 {
            self.store_registers(x);
            self.i = ((self.i as u32 + x as u32 + 1) % 0x10000) as u16;
        } else if nn == 0x65 {
            self.load_registers(x);
            self.i = ((self.i as u32 + x as u32 + 1) % 0x10000) as u16;
        }
        self.program = self.program + 2;
        assert(self@.registers =~= misc_spec(old(self)@).registers);
        assert(self@.memory =~= misc_spec(old(self)@).memory);
        assert(self@ =~= misc_spec(old(self)@));
    }

    /// Executes the current instruction word, with `random` as the byte that
    /// `0xCxnn` draws.
    pub fn execute_opcode_with(&mut self, random: u8)
        requires
            old(self).wf(),
            old(self)@.program_counter < MEMORY_SIZE,
        ensures
            final(self).wf(),
            final(self)@ == execute_spec(old(self)@, random),
    {
        let family = self.op_family();
        let x = self.op_x();
        let nn = self.op_nn();
        let vx = self.v[x];
        if family <= 2 {
            self.exec_flow();
        } else if family == 3 {
            self.program = self.program + if vx == nn {
                4
            } else {
                2
            };
        } else if family == 4 {
            self.program = self.program + if vx != nn {
                4
            } else {
                2
            };
        } else if family == 6 {
            self.v[x] = nn;
            self.program = self.program + 2;
        } else if family == 7 {
            self.v[x] = ((vx as u16 + nn as u16) % 0x100) as u8;
            self.program = self.program + 2;
        } else if family == 8 {
            self.exec_alu();
        } else if family == 0xA {
            self.i = self.op_nnn();
            self.program = self.program + 2;
        } else if family == 0xC {
            self.v[x] = random & nn;
            self.program = self.program + 2;
        } else if family == 0xD {
            self.exec_draw();
        } else if family == 0xE && nn == 0x9E {
            self.program = self.program + if self.keypad.is_pressed(vx as usize) {
                4
            } else {
                2
            };
        } else if family == 0xE && nn == 0xA1 {
            self.program = self.program + if self.keypad.is_pressed(vx as usize) {
                2
            } else {
                4
            };
        } else if family == 0xF {
            self.exec_misc();
        } else {
            self.program = self.program + 2;
        }
        assert(self@.registers =~= execute_spec(old(self)@, random).registers);
        assert(self@ =~= execute_spec(old(self)@, random));
    }

    /// Executes the current instruction word; `0xCxnn` draws its byte at
    /// random, so the new state is the one for some drawn byte.
    pub fn execute_opcode(&mut self)
        requires
            old(self).wf(),
            old(self)@.program_counter < MEMORY_SIZE,
        ensures
            final(self).wf(),
            exists|random: u8| final(self)@ == execute_spec(old(self)@, random),
    {
        let random = if self.op_family() == 0xC {
            random_byte()
        } else {
            0
        };
        self.execute_opcode_with(random);
    }

    /// Executes the instruction word `opcode` at the current program counter,
    /// with `random` as the byte that `0xCxnn` draws.
    pub fn execute_instruction(&mut self, opcode: u16, random: u8)
        requires
            old(self).wf(),
            old(self)@.program_counter < MEMORY_SIZE,
        ensures
            final(self).wf(),
            final(self)@ == execute_spec(with_opcode(old(self)@, opcode), random),
    {
        self.opcode = opcode;
        assert(self@ =~= with_opcode(old(self)@, opcode));
        self.execute_opcode_with(random);
    }

    /// Counts both timers down by one where they are above zero. Returns
    /// whether the sound timer went from 1 to 0, which stops the tone.
    pub fn tick_timers(&mut self) -> (tone_stop: bool)
        requires
            old(self).wf(),
        ensures
            final(self).wf(),
            final(self)@ == ticked(old(self)@),
            tone_stop == (old(self)@.sound_timer == 1),
    {
        if self.delay_timer > 0 {
            self.delay_timer = self.delay_timer - 1;
        }
        let tone_stop = self.sound_timer == 1;
        if self.sound_timer > 0 {
            self.sound_timer = self.sound_timer - 1;
        }
        assert(self@ =~= ticked(old(self)@));
        tone_stop
    }

    /// One cycle: fetch, execute with `random` as the byte that `0xCxnn`
    /// draws, tick the timers. Returns whether the tone stops.
    pub fn step(&mut self, random: u8) -> (tone_stop: bool)
        requires
            old(self).wf(),
            old(self)@.program_counter + 1 < MEMORY_SIZE,
        ensures
            final(self).wf(),
            final(self)@ == cycle_spec(old(self)@, random),
            tone_stop == cycle_stops_tone(old(self)@, random),
    {
        self.fetch_opcode();
        self.execute_opcode_with(random);
        self.tick_timers()
    }

    /// One cycle: fetch, execute, tick the timers. Returns whether the tone
    /// stops. `0xCxnn` draws its byte at random.
    pub fn cpu_cycle(&mut self) -> (tone_stop: bool)
        requires
            old(self).wf(),
            old(self)@.program_counter + 1 < MEMORY_SIZE,
        ensures
            final(self).wf(),
            exists|random: u8|
                final(self)@ == cycle_spec(old(self)@, random) && tone_stop == cycle_stops_tone(
                    old(self)@,
                    random,
                ),
    {
        self.fetch_opcode();
        let ghost fetched_state = self@;
        self.execute_opcode();
        let ghost executed_state = self@;
        let tone_stop = self.tick_timers();
        proof {
            let random = choose|random: u8| executed_state == execute_spec(fetched_state, random);
            assert(fetched_state == with_opcode(old(self)@, fetched(old(self)@)));
            assert(executed_state == executed(old(self)@, random));
            assert(self@ == cycle_spec(old(self)@, random));
            assert(tone_stop == cycle_stops_tone(old(self)@, random));
        }
        tone_stop
    }
}

/// Relies on `rand::random::<u8>`, which draws a byte from the thread-local
/// generator; nothing is known of its value.
#[verifier::external_body]
fn random_byte() -> (r: u8) {
    rand::random::<u8>()
}

} // verus!
