//! The CHIP-8 CPU core: memory, registers, stack, timers, and the
//! fetch/decode/execute loop.

use vstd::prelude::*;

use crate::display::{pixel_index, Display, DISPLAY_SIZE};
use crate::font::{FONT_SET, FONT_START};
use crate::machine::{
    initial_machine, program_bytes, sprite_col, sprite_covers, sprite_row, Machine,
};
use crate::{MEMORY_SIZE, NUM_KEYS, NUM_REGISTERS, PROGRAM_START, STACK_SIZE};

pub use crate::rng::{FixedRandSource, RandSource, StdRandSource};

verus! {

/// The fields of an opcode, as the machine decodes them.
proof fn lemma_decode(op: u16)
    ensures
        op >> 12u16 == op / 0x1000,
        op & 0x0FFFu16 == op % 0x1000,
        op & 0x000Fu16 == op % 0x10,
        op & 0x00FFu16 == op % 0x100,
        (op & 0x0F00u16) >> 8u16 == (op / 0x100) % 0x10,
        (op & 0x00F0u16) >> 4u16 == (op / 0x10) % 0x10,
{
    assert(op >> 12u16 == op / 0x1000) by (bit_vector);
    assert(op & 0x0FFFu16 == op % 0x1000) by (bit_vector);
    assert(op & 0x000Fu16 == op % 0x10) by (bit_vector);
    assert(op & 0x00FFu16 == op % 0x100) by (bit_vector);
    assert((op & 0x0F00u16) >> 8u16 == (op / 0x100) % 0x10) by (bit_vector);
    assert((op & 0x00F0u16) >> 4u16 == (op / 0x10) % 0x10) by (bit_vector);
}

/// Holds a CPU's random source. A `Box<dyn RandSource>` is kept inside this
/// generic holder so that contracts can name it through `get`.
pub struct RandSlot<R> {
    source: R,
}

impl<R> RandSlot<R> {
    /// A holder of `source`.
    pub fn new(source: R) -> (s: Self)
        ensures
            s.get() == source,
    {
        RandSlot { source }
    }

    /// The random source held.
    pub closed spec fn get(self) -> R {
        self.source
    }
}

pub struct Cpu {
    pub memory: [u8; MEMORY_SIZE],
    pub v: [u8; NUM_REGISTERS],
    pub i: u16,
    pub pc: u16,
    pub stack: [u16; STACK_SIZE],
    pub sp: usize,
    pub delay_timer: u8,
    pub sound_timer: u8,
    pub keys: [bool; NUM_KEYS],
    pub display: Display,
    pub waiting_for_key: Option<u8>,
    /// The source of the bytes that `CXNN` masks.
    pub rng: RandSlot<Box<dyn RandSource>>,
}

impl Cpu {
    /// The machine state the CPU holds (everything but its random source).
    pub open spec fn view(&self) -> Machine {
        Machine {
            memory: self.memory@,
            v: self.v@,
            i: self.i,
            pc: self.pc,
            stack: self.stack@,
            sp: self.sp,
            delay_timer: self.delay_timer,
            sound_timer: self.sound_timer,
            keys: self.keys@,
            display: self.display@,
            waiting_for_key: self.waiting_for_key,
        }
    }

    /// The source the CPU draws the bytes that `CXNN` masks from.
    pub open spec fn random_source(&self) -> RandSlot<Box<dyn RandSource>> {
        self.rng
    }

    /// Every CPU holds a machine whose parts have their fixed sizes.
    pub proof fn lemma_wf(&self)
        ensures
            self@.wf(),
    {
        Display::lemma_view_len(&self.display);
    }

    /// A CPU whose `CXNN` bytes come from a generator seeded from
    /// operating-system entropy, or `None` where the operating system cannot
    /// supply it.
    pub fn new() -> (c: Option<Self>)
        ensures
            c matches Some(c) ==> c@ == initial_machine() && c.random_source().get().seed() is None,
    {
        match StdRandSource::from_entropy() {
            Some(source) => {
                let ghost none: Option<u64> = None;
                assert(source.seed() == none);
                let boxed: Box<dyn RandSource> = Box::new(source);
                let slot = RandSlot { source: boxed };
                assert(slot.get().seed() == none);
                let c = Self::with_rand_slot(slot);
                assert(c.random_source().get().seed() == none);
                Some(c)
            },
            None => None,
        }
    }

    /// A CPU whose `CXNN` bytes come from a generator seeded with `seed`.
    pub fn with_seed(seed: u64) -> (c: Self)
        ensures
            c@ == initial_machine(),
            c.random_source().get().seed() == Some(seed),
    {
        let source = StdRandSource::from_seed(seed);
        let boxed: Box<dyn RandSource> = Box::new(source);
        let slot = RandSlot { source: boxed };
        assert(slot.get().seed() == Some(seed));
        Self::with_rand_slot(slot)
    }

    /// A CPU whose `CXNN` bytes come from `rng`.
    pub fn with_rand_source(rng: Box<dyn RandSource>) -> (c: Self)
        ensures
            c@ == initial_machine(),
            c.random_source().get() == rng,
    {
        let ghost given = rng;
        let slot = RandSlot { source: rng };
        assert(slot.get() == given);
        let c = Self::with_rand_slot(slot);
        assert(given == rng);
        c
    }

    /// A CPU whose `CXNN` bytes come from the source `slot` holds. Verified
    /// callers that need to know the CPU holds their source use this with
    /// `RandSlot::new`: Verus relates a `Box<dyn RandSource>` passed there to
    /// the one held, but not one passed to `with_rand_source`.
    pub fn with_rand_slot(slot: RandSlot<Box<dyn RandSource>>) -> (c: Self)
        ensures
            c@ == initial_machine(),
            c.random_source() == slot,
    {
        let mut memory = [0u8; MEMORY_SIZE];
        let mut k: usize = 0;
        while k < FONT_SET.len()
            invariant
                k <= FONT_SET@.len(),
                forall|a: int|
                    0 <= a < MEMORY_SIZE ==> #[trigger] memory@[a] == if FONT_START <= a < FONT_START
                        + k {
                        FONT_SET@[a - FONT_START]
                    } else {
                        0u8
                    },
            decreases FONT_SET@.len() - k,
        {
            memory[FONT_START + k] = FONT_SET[k];
            k += 1;
        }
        let c = Cpu {
            memory,
            v: [0; NUM_REGISTERS],
            i: 0,
            pc: PROGRAM_START,
            stack: [0; STACK_SIZE],
            sp: 0,
            delay_timer: 0,
            sound_timer: 0,
            keys: [false; NUM_KEYS],
            display: Display::new(),
            waiting_for_key: None,
            rng: slot,
        };
        assert(c@ =~= initial_machine());
        c
    }

    /// Copies `rom` into memory from `PROGRAM_START` on; the ROM must fit.
    pub fn load_rom(&mut self, rom: &[u8])
        requires
            PROGRAM_START + rom@.len() <= MEMORY_SIZE,
        ensures
            final(self)@ == old(self)@.load(rom@),
            final(self).random_source() == old(self).random_source(),
    {
        let start = PROGRAM_START as usize;
        let mut k: usize = 0;
        while k < rom.len()
            invariant
                start == PROGRAM_START,
                start + rom@.len() <= MEMORY_SIZE,
                k <= rom@.len(),
                self@ == (Machine {
                    memory: self@.memory,
                    ..old(self)@
                }),
                self.rng == old(self).rng,
                forall|a: int|
                    0 <= a < MEMORY_SIZE ==> #[trigger] self@.memory[a] == if start <= a < start
                        + k {
                        rom@[a - start]
                    } else {
                        old(self)@.memory[a]
                    },
            decreases rom@.len() - k,
        {
            self.memory[start + k] = rom[k];
            k += 1;
        }
        assert(self@ =~= old(self)@.load(rom@));
    }

    /// Loads opcodes at `PROGRAM_START`, each stored big-endian.
    pub fn load_program(&mut self, opcodes: &[u16])
        requires
            PROGRAM_START + 2 * opcodes@.len() <= MEMORY_SIZE,
        ensures
            final(self)@ == old(self)@.load(program_bytes(opcodes@)),
            final(self).random_source() == old(self).random_source(),
    {
        let mut bytes: Vec<u8> = Vec::with_capacity(opcodes.len() * 2);
        let mut k: usize = 0;
        while k < opcodes.len()
            invariant
                2 * opcodes@.len() <= MEMORY_SIZE,
                k <= opcodes@.len(),
                bytes@ == program_bytes(opcodes@.take(k as int)),
            decreases opcodes@.len() - k,
        {
            let op = opcodes[k];
            let hi = (op >> 8) as u8;
            let lo = (op & 0xFF) as u8;
            assert(hi == op / 256 && lo == op % 256) by (bit_vector)
                requires
                    hi == (op >> 8) as u8,
                    lo == (op & 0xFF) as u8,
            ;
            bytes.push(hi);
            bytes.push(lo);
            k += 1;
            assert(bytes@ =~= program_bytes(opcodes@.take(k as int)));
        }
        assert(opcodes@.take(opcodes@.len() as int) =~= opcodes@);
        self.load_rom(bytes.as_slice());
    }

    /// Decrements each timer that is above zero.
    pub fn tick_timers(&mut self)
        ensures
            final(self)@ == old(self)@.tick(),
            final(self).random_source() == old(self).random_source(),
    {
        if self.delay_timer > 0 {
            self.delay_timer -= 1;
        }
        if self.sound_timer > 0 {
            self.sound_timer -= 1;
        }
    }

    /// The opcode stored big-endian at the program counter.
    fn fetch(&self) -> (op: u16)
        requires
            self.pc + 1 < MEMORY_SIZE,
        ensures
            op == self@.fetch(),
    {
        let hi = self.memory[self.pc as usize] as u16;
        let lo = self.memory[self.pc as usize + 1] as u16;
        assert((hi << 8u16) | lo == hi * 256 + lo) by (bit_vector)
            requires
                hi < 256,
                lo < 256,
        ;
        (hi << 8) | lo
    }

    /// Whether `opcode` is a conditional skip whose condition holds.
    fn skip_taken(&self, opcode: u16) -> (taken: bool)
        ensures
            taken == self@.skip_taken(opcode),
    {
        proof {
            lemma_decode(opcode);
        }
        let kind = opcode >> 12;
        let n = opcode & 0x000F;
        let nn = (opcode & 0x00FF) as u8;
        let x = ((opcode & 0x0F00) >> 8) as usize;
        let y = ((opcode & 0x00F0) >> 4) as usize;
        let vx = self.v[x];
        let key = (vx & 0x0F) as usize;
        assert(vx & 0x0F == vx % 16) by (bit_vector);
        match kind {
            0x3 => vx == nn,
            0x4 => vx != nn,
            0x5 => n == 0 && vx == self.v[y],
            0x9 => n == 0 && vx != self.v[y],
            0xE => (nn == 0x9E && self.keys[key]) || (nn == 0xA1 && !self.keys[key]),
            _ => false,
        }
    }

    /// Feeds a key press into the CPU; a CPU blocked on `FX0A` stores the
    /// key in the waiting register and resumes.
    pub fn key_press(&mut self, key: u8)
        requires
            old(self)@.waiting_for_key matches Some(x) ==> x < NUM_REGISTERS,
        ensures
            final(self)@ == old(self)@.press(key),
            final(self).random_source() == old(self).random_source(),
    {
        assert(key & 0x0F == key % 16) by (bit_vector);
        self.keys[(key & 0x0F) as usize] = true;
        if let Some(vx) = self.waiting_for_key {
            self.v[vx as usize] = key;
            self.waiting_for_key = None;
        }
        assert(self@ =~= old(self)@.press(key));
    }

    /// Records that a key went up.
    pub fn key_release(&mut self, key: u8)
        ensures
            final(self)@ == old(self)@.release(key),
            final(self).random_source() == old(self).random_source(),
    {
        assert(key & 0x0F == key % 16) by (bit_vector);
        self.keys[(key & 0x0F) as usize] = false;
        assert(self@ =~= old(self)@.release(key));
    }

    /// Executes one opcode whose bytes have already been fetched and passed
    /// over; `random` is the byte that `CXNN` masks, and no other opcode
    /// reads it.
    #[verifier::spinoff_prover]
    #[verifier::rlimit(60)]
    pub fn execute(&mut self, opcode: u16, random: u8)
        requires
            old(self)@.can_execute(opcode),
        ensures
            final(self)@ == old(self)@.execute(opcode, random),
            final(self).random_source() == old(self).random_source(),
    {
        proof {
            lemma_decode(opcode);
            self.lemma_wf();
        }
        let nnn = opcode & 0x0FFF;
        let n = (opcode & 0x000F) as u8;
        let x = ((opcode & 0x0F00) >> 8) as usize;
        let y = ((opcode & 0x00F0) >> 4) as usize;
        let nn = (opcode & 0x00FF) as u8;
        let kind = opcode >> 12;
        let ghost before = self@;
        match kind {
            0x0 => {
                if opcode == 0x00E0 {
                    self.display.clear();
                } else if opcode == 0x00EE {
                    self.sp -= 1;
                    self.pc = self.stack[self.sp];
                }
                assert(self@ =~= before.execute(opcode, random));
            },
            0x1 => {
                self.pc = nnn;
                assert(self@ =~= before.execute(opcode, random));
            },
            0x2 => {
                self.stack[self.sp] = self.pc;
                self.sp += 1;
                self.pc = nnn;
                assert(self@ =~= before.execute(opcode, random));
            },
            0x3 | 0x4 | 0x5 | 0x9 | 0xE => {
                if self.skip_taken(opcode) {
                    self.pc += 2;
                }
                assert(self@ =~= before.execute(opcode, random));
            },
            0x6 => {
                self.v[x] = nn;
                assert(self@ =~= before.execute(opcode, random));
            },
            0x7 => {
                self.v[x] = self.v[x].wrapping_add(nn);
                assert(self@ =~= before.execute(opcode, random));
            },
            0x8 => {
                self.execute_8xy(n, x, y);
                assert(self@ =~= before.execute(opcode, random));
            },
            0xA => {
                self.i = nnn;
                assert(self@ =~= before.execute(opcode, random));
            },
            0xB => {
                self.pc = nnn.wrapping_add(self.v[0] as u16);
                assert(self@ =~= before.execute(opcode, random));
            },
            0xC => {
                self.v[x] = random & nn;
                assert(self@ =~= before.execute(opcode, random));
            },
            0xD => {
                self.draw_sprite(x, y, n);
                assert(self@ =~= before.execute(opcode, random));
            },
            _ => {
                self.execute_fx(x, nn);
                assert(self@ =~= before.execute(opcode, random));
            },
        }
    }

    /// The register operations `8XYN`.
    #[verifier::spinoff_prover]
    #[verifier::rlimit(30)]
    fn execute_8xy(&mut self, n: u8, x: usize, y: usize)
        requires
            x < NUM_REGISTERS,
            y < NUM_REGISTERS,
        ensures
            final(self)@ == old(self)@.alu(x as int, y as int, n as int),
            final(self).random_source() == old(self).random_source(),
    {
        let vx = self.v[x];
        let vy = self.v[y];
        match n {
            0x0 => self.v[x] = vy,
            0x1 => {
                self.v[x] = vx | vy;
                self.v[0xF] = 0;
            },
            0x2 => {
                self.v[x] = vx & vy;
                self.v[0xF] = 0;
            },
            0x3 => {
                self.v[x] = vx ^ vy;
                self.v[0xF] = 0;
            },
            0x4 => {
                let carry = vx as u16 + vy as u16 > 0xFF;
                self.v[x] = vx.wrapping_add(vy);
                self.v[0xF] = if carry { 1 } else { 0 };
            },
            0x5 => {
                let borrow = vx < vy;
                self.v[x] = vx.wrapping_sub(vy);
                self.v[0xF] = if borrow { 0 } else { 1 };
            },
            0x6 => {
                let dropped = vx & 0x1;
                assert(dropped == vx % 2 && vx >> 1u8 == vx / 2) by (bit_vector)
                    requires
                        dropped == vx & 0x1,
                ;
                self.v[x] = vx >> 1;
                self.v[0xF] = dropped;
            },
            0x7 => {
                let borrow = vy < vx;
                self.v[x] = vy.wrapping_sub(vx);
                self.v[0xF] = if borrow { 0 } else { 1 };
            },
            0xE => {
                let dropped = (vx & 0x80) >> 7;
                assert(dropped == vx / 128 && vx << 1u8 == (vx * 2) % 256) by (bit_vector)
                    requires
                        dropped == (vx & 0x80) >> 7,
                ;
                self.v[x] = vx << 1;
                self.v[0xF] = dropped;
            },
            _ => {},
        }
        assert(self@ =~= old(self)@.alu(x as int, y as int, n as int));
    }

    /// The timer, key, font, BCD and register-dump operations `FXNN`.
    #[verifier::spinoff_prover]
    #[verifier::rlimit(30)]
    fn execute_fx(&mut self, x: usize, nn: u8)
        requires
            x < NUM_REGISTERS,
            nn == 0x33 ==> old(self).i + 2 < MEMORY_SIZE,
            nn == 0x55 || nn == 0x65 ==> old(self).i + x < MEMORY_SIZE,
        ensures
            final(self)@ == old(self)@.misc(x as int, nn),
            final(self).random_source() == old(self).random_source(),
    {
        proof {
            self.lemma_wf();
        }
        match nn {
            0x07 => self.v[x] = self.delay_timer,
            0x0A => self.waiting_for_key = Some(x as u8),
            0x15 => self.delay_timer = self.v[x],
            0x18 => self.sound_timer = self.v[x],
            0x1E => self.i = self.i.wrapping_add(self.v[x] as u16),
            0x29 => {
                let vx = self.v[x];
                let digit = vx as u16 & 0x0F;
                assert(digit == vx % 16) by (bit_vector)
                    requires
                        digit == vx as u16 & 0x0F,
                ;
                self.i = (FONT_START as u16) + digit * 5;
            },
            0x33 => {
                let val = self.v[x];
                let addr = self.i as usize;
                self.memory[addr] = val / 100;
                self.memory[addr + 1] = (val / 10) % 10;
                self.memory[addr + 2] = val % 10;
            },
            0x55 => {
                let base = self.i as usize;
                let mut reg: usize = 0;
                while reg <= x
                    invariant
                        x < NUM_REGISTERS,
                        base == old(self).i,
                        base + x < MEMORY_SIZE,
                        reg <= x + 1,
                        self@ == (Machine { memory: self@.memory, ..old(self)@ }),
                        self.rng == old(self).rng,
                        self@.memory.len() == MEMORY_SIZE,
                        forall|a: int|
                            0 <= a < MEMORY_SIZE ==> #[trigger] self@.memory[a] == if base <= a
                                < base + reg {
                                old(self)@.v[a - base]
                            } else {
                                old(self)@.memory[a]
                            },
                    decreases x + 1 - reg,
                {
                    self.memory[base + reg] = self.v[reg];
                    reg += 1;
                }
                self.i += x as u16 + 1;
            },
            0x65 => {
                let base = self.i as usize;
                let mut reg: usize = 0;
                while reg <= x
                    invariant
                        x < NUM_REGISTERS,
                        base == old(self).i,
                        base + x < MEMORY_SIZE,
                        reg <= x + 1,
                        self@ == (Machine { v: self@.v, ..old(self)@ }),
                        self.rng == old(self).rng,
                        self@.v.len() == NUM_REGISTERS,
                        forall|k: int|
                            0 <= k < NUM_REGISTERS ==> #[trigger] self@.v[k] == if k < reg {
                                old(self)@.memory[base + k]
                            } else {
                                old(self)@.v[k]
                            },
                    decreases x + 1 - reg,
                {
                    self.v[reg] = self.memory[base + reg];
                    reg += 1;
                }
                self.i += x as u16 + 1;
            },
            _ => {},
        }
        assert(self@ =~= old(self)@.misc(x as int, nn));
    }

    /// `DXYN`: XORs an `n`-row sprite from memory at `I` onto the display at
    /// `(VX, VY)`, wrapping at the edges, and records a collision in `VF`.
    #[verifier::spinoff_prover]
    #[verifier::rlimit(30)]
    fn draw_sprite(&mut self, x: usize, y: usize, n: u8)
        requires
            x < NUM_REGISTERS,
            y < NUM_REGISTERS,
            n < 16,
            n > 0 ==> old(self).i + n <= MEMORY_SIZE,
        ensures
            final(self)@ == old(self)@.draw(x as int, y as int, n as int),
            final(self).random_source() == old(self).random_source(),
    {
        proof {
            self.lemma_wf();
        }
        let vx = self.v[x];
        let vy = self.v[y];
        let ghost memory = self@.memory;
        let ghost base = self.i;
        let ghost before = self@.display;
        let mut collision = false;
        let mut row: usize = 0;
        while row < n as usize
            invariant
                x < NUM_REGISTERS,
                y < NUM_REGISTERS,
                n < 16,
                row <= n,
                n > 0 ==> base + n <= MEMORY_SIZE,
                memory == old(self)@.memory,
                base == old(self)@.i,
                before == old(self)@.display,
                vx == old(self)@.v[x as int],
                vy == old(self)@.v[y as int],
                self@ == (Machine { display: self@.display, ..old(self)@ }),
                self.rng == old(self).rng,
                self@.display.len() == DISPLAY_SIZE,
                forall|p: int|
                    0 <= p < DISPLAY_SIZE ==> #[trigger] self@.display[p] == (before[p] != (
                    sprite_covers(memory, base, vx, vy, n as int, p) && sprite_row(vy, p)
                        < row)),
                collision == exists|p: int|
                    0 <= p < DISPLAY_SIZE && before[p] && #[trigger] sprite_covers(
                        memory,
                        base,
                        vx,
                        vy,
                        n as int,
                        p,
                    ) && sprite_row(vy, p) < row,
            decreases n - row,
        {
            let byte = self.memory[self.i as usize + row];
            let mut col: usize = 0;
            while col < 8
                invariant
                    x < NUM_REGISTERS,
                    y < NUM_REGISTERS,
                    n < 16,
                    row < n,
                    col <= 8,
                    base + n <= MEMORY_SIZE,
                    memory == old(self)@.memory,
                    base == old(self)@.i,
                    before == old(self)@.display,
                    vx == old(self)@.v[x as int],
                    vy == old(self)@.v[y as int],
                    byte == memory[base + row],
                    self@ == (Machine { display: self@.display, ..old(self)@ }),
                    self.rng == old(self).rng,
                    self@.display.len() == DISPLAY_SIZE,
                    forall|p: int|
                        0 <= p < DISPLAY_SIZE ==> #[trigger] self@.display[p] == (before[p] != (
                        sprite_covers(memory, base, vx, vy, n as int, p) && drawn_before(
                            vx,
                            vy,
                            row as int,
                            col as int,
                            p,
                        ))),
                    collision == exists|p: int|
                        0 <= p < DISPLAY_SIZE && before[p] && #[trigger] sprite_covers(
                            memory,
                            base,
                            vx,
                            vy,
                            n as int,
                            p,
                        ) && drawn_before(vx, vy, row as int, col as int, p),
                decreases 8 - col,
            {
                let shift = (7 - col) as u8;
                let bit = (byte >> shift) & 1;
                let ghost q = pixel_index(vx + col, vy + row);
                let ghost shown = self@.display;
                let ghost collided = collision;
                proof {
                    lemma_sprite_cell(vx, vy, row as int, col as int);
                    assert(sprite_covers(memory, base, vx, vy, n as int, q) == (bit == 1));
                    assert(shown[q] == before[q]);
                }
                if bit == 1 {
                    if self.display.xor_pixel(vx as usize + col, vy as usize + row, true) {
                        collision = true;
                    }
                }
                proof {
                    assert forall|p: int|
                        0 <= p < DISPLAY_SIZE && p != q implies drawn_before(
                        vx,
                        vy,
                        row as int,
                        (col + 1) as int,
                        p,
                    ) == drawn_before(vx, vy, row as int, col as int, p) by {
                        if sprite_row(vy, p) == row && sprite_col(vx, p) == col {
                            lemma_sprite_cell_unique(vx, vy, row as int, col as int, p);
                        }
                    }
                    assert(drawn_before(vx, vy, row as int, (col + 1) as int, q));
                    assert(!drawn_before(vx, vy, row as int, col as int, q));
                    if collision {
                        if !collided {
                            assert(before[q] && sprite_covers(memory, base, vx, vy, n as int, q));
                        } else {
                            let w = choose|p: int|
                                0 <= p < DISPLAY_SIZE && before[p] && #[trigger] sprite_covers(
                                    memory,
                                    base,
                                    vx,
                                    vy,
                                    n as int,
                                    p,
                                ) && drawn_before(vx, vy, row as int, col as int, p);
                            assert(w != q);
                        }
                    } else {
                        assert forall|p: int|
                            0 <= p < DISPLAY_SIZE && before[p] && #[trigger] sprite_covers(
                                memory,
                                base,
                                vx,
                                vy,
                                n as int,
                                p,
                            ) implies !drawn_before(vx, vy, row as int, (col + 1) as int, p) by {
                            if p != q {
                                assert(!drawn_before(vx, vy, row as int, col as int, p));
                            }
                        }
                    }
                }
                col += 1;
            }
            proof {
                assert forall|p: int|
                    0 <= p < DISPLAY_SIZE implies (sprite_covers(memory, base, vx, vy, n as int, p)
                    && drawn_before(vx, vy, row as int, 8, p)) == (sprite_covers(
                    memory,
                    base,
                    vx,
                    vy,
                    n as int,
                    p,
                ) && sprite_row(vy, p) < row + 1) by {
                }
            }
            row += 1;
        }
        self.v[0xF] = if collision { 1 } else { 0 };
        assert(self@ =~= old(self)@.draw(x as int, y as int, n as int));
    }

    /// Whether executing `opcode` stays within the machine (see
    /// `Machine::can_execute`).
    pub fn can_execute(&self, opcode: u16) -> (ok: bool)
        ensures
            ok == self@.can_execute(opcode),
    {
        proof {
            lemma_decode(opcode);
        }
        let kind = opcode >> 12;
        let x = ((opcode & 0x0F00) >> 8) as usize;
        let n = (opcode & 0x000F) as usize;
        let nn = (opcode & 0x00FF) as u8;
        let i = self.i as usize;
        if opcode == 0x00EE && !(0 < self.sp && self.sp <= STACK_SIZE) {
            false
        } else if kind == 0x2 && self.sp >= STACK_SIZE {
            false
        } else if self.skip_taken(opcode) && self.pc > u16::MAX - 2 {
            false
        } else if kind == 0xD && n > 0 && i + n > MEMORY_SIZE {
            false
        } else if kind == 0xF && nn == 0x33 && i + 2 >= MEMORY_SIZE {
            false
        } else if kind == 0xF && (nn == 0x55 || nn == 0x65) && i + x >= MEMORY_SIZE {
            false
        } else {
            true
        }
    }

    /// Whether the next `step` stays within the machine (see
    /// `Machine::can_step`); a front end tests this before each step.
    pub fn can_step(&self) -> (ok: bool)
        ensures
            ok == self@.can_step(),
    {
        if self.waiting_for_key.is_some() {
            return true;
        }
        if self.pc as usize + 1 >= MEMORY_SIZE {
            return false;
        }
        let opcode = self.fetch();
        let ok = self.can_execute(opcode);
        proof {
            lemma_decode(opcode);
        }
        ok
    }

    /// One frame: `speed` steps, then one timer tick. Stops before a step
    /// that would leave the machine, and then returns false without ticking.
    /// The steps use bytes that the CPU's random source allowed, in order.
    pub fn run_frame(&mut self, speed: u32) -> (completed: bool)
        ensures
            exists|randoms: Seq<u8>, sources: Seq<RandSlot<Box<dyn RandSource>>>|
                {
                    &&& randoms.len() <= speed
                    &&& #[trigger] old(self)@.can_run(randoms)
                    &&& #[trigger] drawn_from(old(self)@, randoms, sources)
                    &&& sources[0] == old(self).random_source()
                    &&& sources.last() == final(self).random_source()
                    &&& completed ==> randoms.len() == speed && final(self)@ == old(self)@.run(
                        randoms,
                    ).tick()
                    &&& !completed ==> randoms.len() < speed && !old(self)@.run(randoms).can_step()
                        && final(self)@ == old(self)@.run(randoms)
                },
    {
        let ghost mut randoms: Seq<u8> = Seq::empty();
        let ghost mut sources: Seq<RandSlot<Box<dyn RandSource>>> = seq![self.random_source()];
        let mut k: u32 = 0;
        while k < speed
            invariant
                k <= speed,
                randoms.len() == k,
                old(self)@.can_run(randoms),
                self@ == old(self)@.run(randoms),
                drawn_from(old(self)@, randoms, sources),
                sources[0] == old(self).random_source(),
                sources.last() == self.random_source(),
            decreases speed - k,
        {
            if !self.can_step() {
                assert(old(self)@.can_run(randoms));
                return false;
            }
            let ghost before = self@;
            let ghost source_before = self.random_source();
            let ghost prev = randoms;
            let ghost prev_sources = sources;
            self.step();
            proof {
                let r = if before.step_reads_random() {
                    choose|r: u8| source_before.get().may_yield(r) && self@ == before.step(r)
                } else {
                    0u8
                };
                randoms = randoms.push(r);
                sources = sources.push(self.random_source());
                assert(randoms.drop_last() == prev);
                assert(randoms.take(k as int) == prev);
                assert forall|j: int| 0 <= j < k implies randoms.take(j) == prev.take(j) by {
                    assert(randoms.take(j) =~= prev.take(j));
                }
                assert forall|j: int| 0 <= j < randoms.len() implies if #[trigger] old(
                    self,
                )@.run(randoms.take(j)).step_reads_random() {
                    sources[j].get().may_yield(randoms[j])
                } else {
                    sources[j + 1] == sources[j]
                } by {
                    if j < k {
                        assert(randoms.take(j) == prev.take(j));
                    }
                }
            }
            k += 1;
        }
        self.tick_timers();
        assert(old(self)@.can_run(randoms));
        assert(drawn_from(old(self)@, randoms, sources));
        true
    }

    /// Fetches, decodes, and executes exactly one opcode. A CPU blocked on
    /// `FX0A` does nothing. Only `CXNN` draws a byte from the random source.
    pub fn step(&mut self)
        requires
            old(self)@.can_step(),
        ensures
            exists|random: u8| final(self)@ == old(self)@.step(random),
            old(self)@.step_reads_random() ==> exists|random: u8|
                old(self).random_source().get().may_yield(random) && final(self)@ == old(
                    self,
                )@.step(random),
            !old(self)@.step_reads_random() ==> final(self)@ == old(self)@.step(0),
            !old(self)@.step_reads_random() ==> final(self).random_source()
                == old(self).random_source(),
    {
        if self.waiting_for_key.is_some() {
            assert(self@ == old(self)@.step(0));
            return;
        }
        let opcode = self.fetch();
        self.pc += 2;
        proof {
            lemma_decode(opcode);
            assert(self@ == old(self)@.advance_pc());
        }
        if opcode >> 12 == 0xC {
            let random = self.rng.source.next_byte();
            assert(old(self).random_source().get().may_yield(random));
            self.execute(opcode, random);
            assert(self@ == old(self)@.step(random));
        } else {
            self.execute(opcode, 0);
            assert(self@ == old(self)@.step(0));
        }
    }
}


/// Whether `randoms` are bytes that the successive random sources `sources`
/// allowed, on a run from `m`: each step that reads a byte used one its
/// source may yield, and each step that reads none left the source alone.
pub open spec fn drawn_from(
    m: Machine,
    randoms: Seq<u8>,
    sources: Seq<RandSlot<Box<dyn RandSource>>>,
) -> bool {
    &&& sources.len() == randoms.len() + 1
    &&& forall|j: int|
        0 <= j < randoms.len() ==> if #[trigger] m.run(randoms.take(j)).step_reads_random() {
            sources[j].get().may_yield(randoms[j])
        } else {
            sources[j + 1] == sources[j]
        }
}

/// Whether sprite cell `p` comes before cell `(row, col)` in drawing order.
spec fn drawn_before(vx: u8, vy: u8, row: int, col: int, p: int) -> bool {
    sprite_row(vy, p) < row || (sprite_row(vy, p) == row && sprite_col(vx, p) < col)
}

/// The pixel that sprite cell `(row, col)` lands on lies on the display and
/// falls in that same row and column.
pub proof fn lemma_sprite_cell(vx: u8, vy: u8, row: int, col: int)
    requires
        0 <= row < 32,
        0 <= col < 64,
    ensures
        0 <= pixel_index(vx + col, vy + row) < DISPLAY_SIZE,
        sprite_row(vy, pixel_index(vx + col, vy + row)) == row,
        sprite_col(vx, pixel_index(vx + col, vy + row)) == col,
{
}

/// A pixel is determined by the sprite row and column it falls in.
pub proof fn lemma_sprite_cell_unique(vx: u8, vy: u8, row: int, col: int, p: int)
    requires
        0 <= row < 32,
        0 <= col < 64,
        0 <= p < DISPLAY_SIZE,
        sprite_row(vy, p) == row,
        sprite_col(vx, p) == col,
    ensures
        p == pixel_index(vx + col, vy + row),
{
    let px = p % 64;
    let py = p / 64;
    vstd::arithmetic::div_mod::lemma_fundamental_div_mod(p, 64);
    let kx = (px - vx) / 64;
    vstd::arithmetic::div_mod::lemma_fundamental_div_mod(px - vx, 64);
    vstd::arithmetic::div_mod::lemma_fundamental_div_mod_converse_mod(vx + col, 64, -kx, px);
    let ky = (py - vy) / 32;
    vstd::arithmetic::div_mod::lemma_fundamental_div_mod(py - vy, 32);
    vstd::arithmetic::div_mod::lemma_fundamental_div_mod_converse_mod(vy + row, 32, -ky, py);
}

} // verus!
