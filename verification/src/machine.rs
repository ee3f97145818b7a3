//! The abstract CHIP-8 machine: the state a `Cpu` holds, and what each opcode
//! does to it. Every executable operation of the crate is specified against
//! these definitions.

use vstd::prelude::*;

use crate::display::{blank_display, DISPLAY_HEIGHT, DISPLAY_SIZE, DISPLAY_WIDTH};
use crate::font::{FONT_SET, FONT_START, GLYPH_BYTES};
use crate::{MEMORY_SIZE, NUM_KEYS, NUM_REGISTERS, PROGRAM_START, STACK_SIZE};

verus! {

/// The state of a CHIP-8 machine.
#[verifier::ext_equal]
pub struct Machine {
    pub memory: Seq<u8>,
    pub v: Seq<u8>,
    pub i: u16,
    pub pc: u16,
    pub stack: Seq<u16>,
    pub sp: usize,
    pub delay_timer: u8,
    pub sound_timer: u8,
    pub keys: Seq<bool>,
    pub display: Seq<bool>,
    pub waiting_for_key: Option<u8>,
}

/// The index of the flag register `VF`.
pub open spec fn flag_reg() -> int {
    0xF
}

/// The high nibble of an opcode, which selects its instruction group.
pub open spec fn op_kind(op: u16) -> int {
    op as int / 0x1000
}

/// The `X` nibble of an opcode.
pub open spec fn op_x(op: u16) -> int {
    (op as int / 0x100) % 0x10
}

/// The `Y` nibble of an opcode.
pub open spec fn op_y(op: u16) -> int {
    (op as int / 0x10) % 0x10
}

/// The low nibble `N` of an opcode.
pub open spec fn op_n(op: u16) -> int {
    op as int % 0x10
}

/// The low byte `NN` of an opcode.
pub open spec fn op_nn(op: u16) -> u8 {
    (op as int % 0x100) as u8
}

/// The low twelve bits `NNN` of an opcode.
pub open spec fn op_nnn(op: u16) -> u16 {
    (op as int % 0x1000) as u16
}

/// Whether bit `col` of a sprite row is set, counting from the most
/// significant bit (the leftmost pixel).
pub open spec fn sprite_bit(byte: u8, col: int) -> bool {
    (byte >> ((7 - col) as u8)) & 1u8 == 1u8
}

/// The sprite column that pixel `p` falls in when a sprite is drawn at
/// horizontal position `vx` (wrapping at the right edge).
pub open spec fn sprite_col(vx: u8, p: int) -> int {
    (p % DISPLAY_WIDTH as int - vx) % DISPLAY_WIDTH as int
}

/// The sprite row that pixel `p` falls in when a sprite is drawn at
/// vertical position `vy` (wrapping at the bottom edge).
pub open spec fn sprite_row(vy: u8, p: int) -> int {
    (p / DISPLAY_WIDTH as int - vy) % DISPLAY_HEIGHT as int
}

/// Whether an `n`-row sprite read from `memory` at `i` and drawn at
/// `(vx, vy)` has a set bit over pixel `p`.
pub open spec fn sprite_covers(memory: Seq<u8>, i: u16, vx: u8, vy: u8, n: int, p: int) -> bool {
    let row = sprite_row(vy, p);
    let col = sprite_col(vx, p);
    row < n && col < 8 && sprite_bit(memory[i + row], col)
}

/// The three decimal digits of a byte, most significant first.
pub open spec fn bcd_digits(val: u8) -> (u8, u8, u8) {
    (val / 100, (val / 10) % 10, val % 10)
}

/// A machine as freshly built: the font at `FONT_START`, everything else
/// zeroed, execution starting at `PROGRAM_START`.
pub open spec fn initial_machine() -> Machine {
    Machine {
        memory: Seq::new(
            MEMORY_SIZE as nat,
            |a: int|
                if FONT_START <= a < FONT_START + FONT_SET@.len() {
                    FONT_SET@[a - FONT_START]
                } else {
                    0u8
                },
        ),
        v: Seq::new(NUM_REGISTERS as nat, |k: int| 0u8),
        i: 0,
        pc: PROGRAM_START,
        stack: Seq::new(STACK_SIZE as nat, |k: int| 0u16),
        sp: 0,
        delay_timer: 0,
        sound_timer: 0,
        keys: Seq::new(NUM_KEYS as nat, |k: int| false),
        display: blank_display(),
        waiting_for_key: None,
    }
}

/// The bytes of a program given as opcodes, each stored big-endian.
pub open spec fn program_bytes(opcodes: Seq<u16>) -> Seq<u8> {
    Seq::new(
        2 * opcodes.len(),
        |j: int|
            if j % 2 == 0 {
                (opcodes[j / 2] / 256) as u8
            } else {
                (opcodes[j / 2] % 256) as u8
            },
    )
}

impl Machine {
    /// Every part of the machine has its fixed size.
    pub open spec fn wf(self) -> bool {
        &&& self.memory.len() == MEMORY_SIZE
        &&& self.v.len() == NUM_REGISTERS
        &&& self.stack.len() == STACK_SIZE
        &&& self.keys.len() == NUM_KEYS
        &&& self.display.len() == DISPLAY_SIZE
    }

    /// The machine with register `x` set to `val`.
    pub open spec fn set_v(self, x: int, val: u8) -> Machine {
        Machine { v: self.v.update(x, val), ..self }
    }

    /// The machine with register `x` set to `val` and then `VF` set to `flag`
    /// (so the flag wins when `x` is `VF`).
    pub open spec fn set_v_and_flag(self, x: int, val: u8, flag: u8) -> Machine {
        Machine { v: self.v.update(x, val).update(flag_reg(), flag), ..self }
    }

    /// The machine with the program counter moved past the next instruction
    /// when `cond` holds.
    pub open spec fn skip_if(self, cond: bool) -> Machine {
        if cond {
            Machine { pc: (self.pc + 2) as u16, ..self }
        } else {
            self
        }
    }

    /// The opcode stored big-endian at the program counter.
    pub open spec fn fetch(self) -> u16 {
        (self.memory[self.pc as int] * 256 + self.memory[self.pc + 1]) as u16
    }

    /// Whether `op` is a conditional skip whose condition holds.
    pub open spec fn skip_taken(self, op: u16) -> bool {
        let kind = op_kind(op);
        let vx = self.v[op_x(op)];
        let vy = self.v[op_y(op)];
        let nn = op_nn(op);
        if kind == 0x3 {
            vx == nn
        } else if kind == 0x4 {
            vx != nn
        } else if kind == 0x5 {
            op_n(op) == 0 && vx == vy
        } else if kind == 0x9 {
            op_n(op) == 0 && vx != vy
        } else if kind == 0xE {
            (nn == 0x9E && self.keys[(vx % 16) as int]) || (nn == 0xA1 && !self.keys[(vx % 16) as int])
        } else {
            false
        }
    }

    /// The register operations `8XYN`.
    pub open spec fn alu(self, x: int, y: int, n: int) -> Machine {
        let vx = self.v[x];
        let vy = self.v[y];
        if n == 0x0 {
            self.set_v(x, vy)
        } else if n == 0x1 {
            self.set_v_and_flag(x, vx | vy, 0)
        } else if n == 0x2 {
            self.set_v_and_flag(x, vx & vy, 0)
        } else if n == 0x3 {
            self.set_v_and_flag(x, vx ^ vy, 0)
        } else if n == 0x4 {
            self.set_v_and_flag(x, ((vx + vy) % 256) as u8, if vx + vy > 255 { 1 } else { 0 })
        } else if n == 0x5 {
            self.set_v_and_flag(x, ((vx - vy) % 256) as u8, if vx >= vy { 1 } else { 0 })
        } else if n == 0x6 {
            self.set_v_and_flag(x, vx / 2, vx % 2)
        } else if n == 0x7 {
            self.set_v_and_flag(x, ((vy - vx) % 256) as u8, if vy >= vx { 1 } else { 0 })
        } else if n == 0xE {
            self.set_v_and_flag(x, ((vx * 2) % 256) as u8, vx / 128)
        } else {
            self
        }
    }

    /// `DXYN`: XORs an `n`-row sprite read from memory at `I` onto the
    /// display at `(VX, VY)`, wrapping at the edges; `VF` becomes 1 exactly
    /// when a set pixel was turned off.
    pub open spec fn draw(self, x: int, y: int, n: int) -> Machine {
        let vx = self.v[x];
        let vy = self.v[y];
        let collision = exists|p: int|
            0 <= p < DISPLAY_SIZE && self.display[p] && #[trigger] sprite_covers(
                self.memory,
                self.i,
                vx,
                vy,
                n,
                p,
            );
        Machine {
            display: Seq::new(
                DISPLAY_SIZE as nat,
                |p: int| self.display[p] != sprite_covers(self.memory, self.i, vx, vy, n, p),
            ),
            v: self.v.update(flag_reg(), if collision { 1 } else { 0 }),
            ..self
        }
    }

    /// The timer, key, font, BCD and register-dump operations `FXNN`.
    pub open spec fn misc(self, x: int, nn: u8) -> Machine {
        let vx = self.v[x];
        let i = self.i as int;
        if nn == 0x07 {
            self.set_v(x, self.delay_timer)
        } else if nn == 0x0A {
            Machine { waiting_for_key: Some(x as u8), ..self }
        } else if nn == 0x15 {
            Machine { delay_timer: vx, ..self }
        } else if nn == 0x18 {
            Machine { sound_timer: vx, ..self }
        } else if nn == 0x1E {
            Machine { i: ((i + vx) % 0x10000) as u16, ..self }
        } else if nn == 0x29 {
            Machine { i: (FONT_START + (vx % 16) * GLYPH_BYTES) as u16, ..self }
        } else if nn == 0x33 {
            let (hundreds, tens, ones) = bcd_digits(vx);
            Machine {
                memory: self.memory.update(i, hundreds).update(i + 1, tens).update(i + 2, ones),
                ..self
            }
        } else if nn == 0x55 {
            Machine {
                memory: Seq::new(
                    self.memory.len(),
                    |a: int|
                        if i <= a <= i + x {
                            self.v[a - i]
                        } else {
                            self.memory[a]
                        },
                ),
                i: (i + x + 1) as u16,
                ..self
            }
        } else if nn == 0x65 {
            Machine {
                v: Seq::new(
                    self.v.len(),
                    |k: int|
                        if k <= x {
                            self.memory[i + k]
                        } else {
                            self.v[k]
                        },
                ),
                i: (i + x + 1) as u16,
                ..self
            }
        } else {
            self
        }
    }

    /// What executing `op` does, once the program counter has moved past it.
    /// `random` is the byte that `CXNN` masks; no other opcode reads it.
    pub open spec fn execute(self, op: u16, random: u8) -> Machine {
        let kind = op_kind(op);
        let x = op_x(op);
        let y = op_y(op);
        let n = op_n(op);
        let nn = op_nn(op);
        let nnn = op_nnn(op);
        if kind == 0x0 {
            if op == 0x00E0 {
                Machine { display: blank_display(), ..self }
            } else if op == 0x00EE {
                Machine { sp: (self.sp - 1) as usize, pc: self.stack[self.sp - 1], ..self }
            } else {
                self
            }
        } else if kind == 0x1 {
            Machine { pc: nnn, ..self }
        } else if kind == 0x2 {
            Machine {
                stack: self.stack.update(self.sp as int, self.pc),
                sp: (self.sp + 1) as usize,
                pc: nnn,
                ..self
            }
        } else if kind == 0x3 || kind == 0x4 || kind == 0x5 || kind == 0x9 || kind == 0xE {
            self.skip_if(self.skip_taken(op))
        } else if kind == 0x6 {
            self.set_v(x, nn)
        } else if kind == 0x7 {
            self.set_v(x, ((self.v[x] + nn) % 256) as u8)
        } else if kind == 0x8 {
            self.alu(x, y, n)
        } else if kind == 0xA {
            Machine { i: nnn, ..self }
        } else if kind == 0xB {
            Machine { pc: (nnn + self.v[0]) as u16, ..self }
        } else if kind == 0xC {
            self.set_v(x, random & nn)
        } else if kind == 0xD {
            self.draw(x, y, n)
        } else {
            self.misc(x, nn)
        }
    }

    /// Whether executing `op` stays within the machine: the stack neither
    /// underflows nor overflows, every memory access is in range, and the
    /// program counter does not pass the end of the address space.
    pub open spec fn can_execute(self, op: u16) -> bool {
        let kind = op_kind(op);
        let x = op_x(op);
        let nn = op_nn(op);
        &&& op == 0x00EE ==> 0 < self.sp <= STACK_SIZE
        &&& kind == 0x2 ==> self.sp < STACK_SIZE
        &&& self.skip_taken(op) ==> self.pc + 2 <= u16::MAX
        &&& kind == 0xD && op_n(op) > 0 ==> self.i + op_n(op) <= MEMORY_SIZE
        &&& kind == 0xF && nn == 0x33 ==> self.i + 2 < MEMORY_SIZE
        &&& kind == 0xF && (nn == 0x55 || nn == 0x65) ==> self.i + x < MEMORY_SIZE
    }

    /// The machine with the program counter moved past the current opcode.
    pub open spec fn advance_pc(self) -> Machine {
        Machine { pc: (self.pc + 2) as u16, ..self }
    }

    /// Whether the next step reads a random byte (the opcode is `CXNN`).
    pub open spec fn step_reads_random(self) -> bool {
        self.waiting_for_key is None && op_kind(self.fetch()) == 0xC
    }

    /// One fetch/decode/execute cycle; a machine waiting for a key does nothing.
    pub open spec fn step(self, random: u8) -> Machine {
        if self.waiting_for_key is Some {
            self
        } else {
            self.advance_pc().execute(self.fetch(), random)
        }
    }

    /// Whether the next step stays within the machine.
    pub open spec fn can_step(self) -> bool {
        self.waiting_for_key is Some || (self.pc + 1 < MEMORY_SIZE
            && self.advance_pc().can_execute(self.fetch()))
    }

    /// The machine after one step with each byte of `randoms` in turn.
    pub open spec fn run(self, randoms: Seq<u8>) -> Machine
        decreases randoms.len(),
    {
        if randoms.len() == 0 {
            self
        } else {
            self.run(randoms.drop_last()).step(randoms.last())
        }
    }

    /// Whether every step of `run(randoms)` stays within the machine.
    pub open spec fn can_run(self, randoms: Seq<u8>) -> bool
        decreases randoms.len(),
    {
        if randoms.len() == 0 {
            true
        } else {
            self.can_run(randoms.drop_last()) && self.run(randoms.drop_last()).can_step()
        }
    }

    /// One timer tick: each timer above zero goes down by one.
    pub open spec fn tick(self) -> Machine {
        Machine {
            delay_timer: if self.delay_timer > 0 { (self.delay_timer - 1) as u8 } else { 0 },
            sound_timer: if self.sound_timer > 0 { (self.sound_timer - 1) as u8 } else { 0 },
            ..self
        }
    }

    /// `k` timer ticks in a row.
    pub open spec fn ticks(self, k: nat) -> Machine
        decreases k,
    {
        if k == 0 {
            self
        } else {
            self.ticks((k - 1) as nat).tick()
        }
    }

    /// A key goes down; a machine waiting for a key stores it and resumes.
    pub open spec fn press(self, key: u8) -> Machine {
        let keys = self.keys.update((key % 16) as int, true);
        match self.waiting_for_key {
            Some(x) => Machine { keys, v: self.v.update(x as int, key), waiting_for_key: None, ..self },
            None => Machine { keys, ..self },
        }
    }

    /// A key goes up.
    pub open spec fn release(self, key: u8) -> Machine {
        Machine { keys: self.keys.update((key % 16) as int, false), ..self }
    }

    /// The machine with `rom` copied into memory from `PROGRAM_START` on.
    pub open spec fn load(self, rom: Seq<u8>) -> Machine {
        Machine {
            memory: Seq::new(
                self.memory.len(),
                |a: int|
                    if PROGRAM_START <= a < PROGRAM_START + rom.len() {
                        rom[a - PROGRAM_START]
                    } else {
                        self.memory[a]
                    },
            ),
            ..self
        }
    }
}

} // verus!
