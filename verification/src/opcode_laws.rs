//! What each opcode does, stated directly in terms of the opcode's bits and
//! the machine's registers, memory and display.

use vstd::prelude::*;

use crate::cpu::{lemma_sprite_cell, lemma_sprite_cell_unique};
use crate::display::{pixel_index, DISPLAY_SIZE};
use crate::machine::Machine;

verus! {

/// `DXYN` XORs bit `7 - col` of the byte at `I + row` onto the pixel at
/// `(VX + col, VY + row)` (wrapping): row `row` of the sprite is the byte at
/// `I + row`, drawn `row` lines below `VY`, its most significant bit leftmost.
#[verifier::spinoff_prover]
pub proof fn lemma_draw_places_sprite_bits(m: Machine, op: u16, random: u8, row: int, col: int)
    requires
        m.wf(),
        op as int / 0x1000 == 0xD,
        0 <= row < op as int % 0x10,
        0 <= col < 8,
        m.i + op as int % 0x10 <= 0x1000,
    ensures
        ({
            let vx = m.v[(op as int / 0x100) % 0x10];
            let vy = m.v[(op as int / 0x10) % 0x10];
            let p = ((vy + row) % 32) * 64 + (vx + col) % 64;
            let bit = (m.memory[m.i + row] >> ((7 - col) as u8)) & 1u8 == 1u8;
            m.execute(op, random).display[p] == (m.display[p] != bit)
        }),
{
    let vx = m.v[(op as int / 0x100) % 0x10];
    let vy = m.v[(op as int / 0x10) % 0x10];
    lemma_sprite_cell(vx, vy, row, col);
}

/// `DXYN` leaves alone every pixel that no cell of the sprite lands on.
#[verifier::spinoff_prover]
pub proof fn lemma_draw_leaves_other_pixels(m: Machine, op: u16, random: u8, p: int)
    requires
        m.wf(),
        op as int / 0x1000 == 0xD,
        m.i + op as int % 0x10 <= 0x1000,
        0 <= p < DISPLAY_SIZE,
        forall|row: int, col: int|
            0 <= row < op as int % 0x10 && 0 <= col < 8 ==> p != #[trigger] pixel_index(
                m.v[(op as int / 0x100) % 0x10] + col,
                m.v[(op as int / 0x10) % 0x10] + row,
            ),
    ensures
        m.execute(op, random).display[p] == m.display[p],
{
    let vx = m.v[(op as int / 0x100) % 0x10];
    let vy = m.v[(op as int / 0x10) % 0x10];
    let row = crate::machine::sprite_row(vy, p);
    let col = crate::machine::sprite_col(vx, p);
    if crate::machine::sprite_covers(m.memory, m.i, vx, vy, op as int % 0x10, p) {
        lemma_sprite_cell_unique(vx, vy, row, col, p);
        assert(p != pixel_index(vx + col, vy + row));
    }
}

/// `DXYN` sets `VF` to 1 exactly when some set bit of the sprite lands on a
/// pixel that was lit, and to 0 otherwise.
#[verifier::spinoff_prover]
pub proof fn lemma_draw_flags_collision(m: Machine, op: u16, random: u8)
    requires
        m.wf(),
        op as int / 0x1000 == 0xD,
        m.i + op as int % 0x10 <= 0x1000,
    ensures
        ({
            let vx = m.v[(op as int / 0x100) % 0x10];
            let vy = m.v[(op as int / 0x10) % 0x10];
            let n = op as int % 0x10;
            let hit = exists|row: int, col: int|
                0 <= row < n && 0 <= col < 8 && (m.memory[m.i + row] >> ((7 - col) as u8)) & 1u8
                    == 1u8 && m.display[#[trigger] pixel_index(vx + col, vy + row)];
            m.execute(op, random).v[0xF] == if hit { 1u8 } else { 0u8 }
        }),
{
    let vx = m.v[(op as int / 0x100) % 0x10];
    let vy = m.v[(op as int / 0x10) % 0x10];
    let n = op as int % 0x10;
    let hit = exists|row: int, col: int|
        0 <= row < n && 0 <= col < 8 && (m.memory[m.i + row] >> ((7 - col) as u8)) & 1u8 == 1u8
            && m.display[#[trigger] pixel_index(vx + col, vy + row)];
    let collision = exists|p: int|
        0 <= p < DISPLAY_SIZE && m.display[p] && #[trigger] crate::machine::sprite_covers(
            m.memory,
            m.i,
            vx,
            vy,
            n,
            p,
        );
    if hit {
        let (row, col) = choose|row: int, col: int|
            0 <= row < n && 0 <= col < 8 && (m.memory[m.i + row] >> ((7 - col) as u8)) & 1u8
                == 1u8 && m.display[#[trigger] pixel_index(vx + col, vy + row)];
        lemma_sprite_cell(vx, vy, row, col);
        assert(crate::machine::sprite_covers(
            m.memory,
            m.i,
            vx,
            vy,
            n,
            pixel_index(vx + col, vy + row),
        ));
    }
    if collision {
        let p = choose|p: int|
            0 <= p < DISPLAY_SIZE && m.display[p] && #[trigger] crate::machine::sprite_covers(
                m.memory,
                m.i,
                vx,
                vy,
                n,
                p,
            );
        let row = crate::machine::sprite_row(vy, p);
        let col = crate::machine::sprite_col(vx, p);
        lemma_sprite_cell_unique(vx, vy, row, col, p);
        assert(m.display[pixel_index(vx + col, vy + row)]);
    }
    assert(hit == collision);
}

/// The conditional skips move the program counter past the next
/// instruction exactly when their condition holds, and change nothing else:
/// `3XNN` when `VX == NN`, `4XNN` when `VX != NN`, `5XY0` when `VX == VY`,
/// `9XY0` when `VX != VY`, `EX9E` when key `VX` (low nibble) is down, `EXA1`
/// when it is up.
#[verifier::spinoff_prover]
pub proof fn lemma_skip_conditions(m: Machine, op: u16, random: u8)
    requires
        m.wf(),
        m.pc + 2 <= 0xFFFF,
    ensures
        ({
            let kind = op as int / 0x1000;
            let vx = m.v[(op as int / 0x100) % 0x10];
            let vy = m.v[(op as int / 0x10) % 0x10];
            let nn = op as int % 0x100;
            let low = op as int % 0x10;
            let taken = if kind == 0x3 {
                vx == nn
            } else if kind == 0x4 {
                vx != nn
            } else if kind == 0x5 {
                low == 0 && vx == vy
            } else if kind == 0x9 {
                low == 0 && vx != vy
            } else if kind == 0xE && nn == 0x9E {
                m.keys[vx as int % 16]
            } else {
                kind == 0xE && nn == 0xA1 && !m.keys[vx as int % 16]
            };
            (kind == 0x3 || kind == 0x4 || kind == 0x5 || kind == 0x9 || kind == 0xE)
                ==> m.execute(op, random) == (Machine {
                pc: if taken { (m.pc + 2) as u16 } else { m.pc },
                ..m
            })
        }),
{
}

/// Jumps, calls, returns, loads and the clear: `1NNN` jumps to `NNN`, `BNNN`
/// to `NNN + V0`, `2NNN` pushes the program counter and jumps to `NNN`,
/// `00EE` pops it back, `6XNN` sets `VX` to `NN`, `7XNN` adds `NN` to `VX`
/// modulo 256, `ANNN` sets `I` to `NNN`, `CXNN` sets `VX` to the random
/// byte masked by `NN`, and `00E0` turns every pixel off.
#[verifier::spinoff_prover]
pub proof fn lemma_jumps_loads_and_clear(m: Machine, op: u16, random: u8)
    requires
        m.wf(),
    ensures
        ({
            let r = m.execute(op, random);
            let kind = op as int / 0x1000;
            let x = (op as int / 0x100) % 0x10;
            let nn = op as int % 0x100;
            let nnn = op as int % 0x1000;
            &&& kind == 0x1 ==> r == (Machine { pc: nnn as u16, ..m })
            &&& kind == 0xB ==> r == (Machine { pc: (nnn + m.v[0]) as u16, ..m }) && r.pc == nnn
                + m.v[0]
            &&& kind == 0x2 && m.sp < 16 ==> r.pc == nnn && r.sp == m.sp + 1 && r.stack == m.stack.update(
                m.sp as int,
                m.pc,
            ) && r.v == m.v && r.memory == m.memory && r.i == m.i
            &&& op == 0x00EE && 0 < m.sp <= 16 ==> r.pc == m.stack[m.sp - 1] && r.sp == m.sp - 1
                && r.stack == m.stack && r.v == m.v
            &&& kind == 0x6 ==> r == (Machine { v: m.v.update(x, nn as u8), ..m })
            &&& kind == 0x7 ==> r == (Machine { v: m.v.update(x, ((m.v[x] + nn) % 256) as u8), ..m })
            &&& kind == 0xA ==> r == (Machine { i: nnn as u16, ..m })
            &&& kind == 0xC ==> r == (Machine { v: m.v.update(x, random & (nn as u8)), ..m })
            &&& op == 0x00E0 ==> r.v == m.v && r.pc == m.pc && forall|p: int|
                0 <= p < DISPLAY_SIZE ==> !#[trigger] r.display[p]
        }),
{
}

/// The `FXNN` operations: `FX07` reads the delay timer into `VX`, `FX0A`
/// waits for a key into `VX`, `FX15` and `FX18` set the delay and sound
/// timers from `VX`, `FX1E` adds `VX` (as an unsigned byte) to `I` modulo
/// 0x10000, `FX29` points `I` at the five-byte glyph of the low nibble of
/// `VX` from 0x50 on, and `FX33` writes the hundreds, tens and ones digits of
/// `VX` at `I`, `I + 1`, `I + 2`.
#[verifier::spinoff_prover]
pub proof fn lemma_timer_key_font_and_bcd_ops(m: Machine, op: u16, random: u8)
    requires
        m.wf(),
        op as int / 0x1000 == 0xF,
    ensures
        ({
            let r = m.execute(op, random);
            let x = (op as int / 0x100) % 0x10;
            let vx = m.v[x];
            let nn = op as int % 0x100;
            let i = m.i as int;
            &&& nn == 0x07 ==> r == (Machine { v: m.v.update(x, m.delay_timer), ..m })
            &&& nn == 0x0A ==> r == (Machine { waiting_for_key: Some(x as u8), ..m })
            &&& nn == 0x15 ==> r == (Machine { delay_timer: vx, ..m })
            &&& nn == 0x18 ==> r == (Machine { sound_timer: vx, ..m })
            &&& nn == 0x1E ==> r == (Machine { i: ((i + vx) % 0x10000) as u16, ..m })
                && (i + vx < 0x10000 ==> r.i == i + vx)
            &&& nn == 0x29 ==> r == (Machine { i: (0x50 + (vx % 16) * 5) as u16, ..m })
            &&& nn == 0x33 && i + 2 < 0x1000 ==> r.memory[i] * 100 + r.memory[i + 1] * 10
                + r.memory[i + 2] == vx && r.memory[i] < 10 && r.memory[i + 1] < 10 && r.memory[i
                + 2] < 10 && r.v == m.v && r.i == m.i && (forall|a: int|
                0 <= a < 0x1000 && (a < i || a > i + 2) ==> #[trigger] r.memory[a]
                    == m.memory[a])
        }),
{
    let x = (op as int / 0x100) % 0x10;
    let vx = m.v[x];
    assert(vx / 100 < 10 && (vx / 10) % 10 < 10 && vx % 10 < 10 && (vx / 100) * 100 + ((vx / 10)
        % 10) * 10 + vx % 10 == vx) by (bit_vector);
}

/// `FX55` stores `V0..=VX` at `I..=I + X` and `FX65` loads them from there;
/// both then advance `I` past them, and change nothing else.
#[verifier::spinoff_prover]
pub proof fn lemma_register_store_and_load(m: Machine, op: u16, random: u8)
    requires
        m.wf(),
        op as int / 0x1000 == 0xF,
        m.i + (op as int / 0x100) % 0x10 < 0x1000,
    ensures
        ({
            let r = m.execute(op, random);
            let x = (op as int / 0x100) % 0x10;
            let nn = op as int % 0x100;
            let i = m.i as int;
            &&& nn == 0x55 ==> r.i == i + x + 1 && r.v == m.v && (forall|a: int|
                0 <= a < 0x1000 ==> #[trigger] r.memory[a] == if i <= a <= i + x {
                    m.v[a - i]
                } else {
                    m.memory[a]
                })
            &&& nn == 0x65 ==> r.i == i + x + 1 && r.memory == m.memory && (forall|k: int|
                0 <= k < 16 ==> #[trigger] r.v[k] == if k <= x {
                    m.memory[i + k]
                } else {
                    m.v[k]
                })
        }),
{
}

/// `8XY0` copies `VY` into `VX`; `8XY1`, `8XY2` and `8XY3` put `VX | VY`,
/// `VX & VY` and `VX ^ VY` in `VX` and then clear `VF`.
#[verifier::spinoff_prover]
pub proof fn lemma_register_logic(m: Machine, op: u16, random: u8)
    requires
        m.wf(),
        op as int / 0x1000 == 0x8,
    ensures
        ({
            let r = m.execute(op, random);
            let x = (op as int / 0x100) % 0x10;
            let vx = m.v[x];
            let vy = m.v[(op as int / 0x10) % 0x10];
            let n = op as int % 0x10;
            &&& n == 0x0 ==> r == (Machine { v: m.v.update(x, vy), ..m })
            &&& n == 0x1 ==> r == (Machine { v: m.v.update(x, vx | vy).update(0xF, 0), ..m })
            &&& n == 0x2 ==> r == (Machine { v: m.v.update(x, vx & vy).update(0xF, 0), ..m })
            &&& n == 0x3 ==> r == (Machine { v: m.v.update(x, vx ^ vy).update(0xF, 0), ..m })
        }),
{
}

/// A key press marks key `K` (low nibble) down and, on a machine waiting
/// for a key, stores `K` in the waiting register and resumes; a release
/// marks the key up. Nothing else changes.
#[verifier::spinoff_prover]
pub proof fn lemma_key_events(m: Machine, key: u8)
    requires
        m.wf(),
    ensures
        m.release(key) == (Machine { keys: m.keys.update(key as int % 16, false), ..m }),
        m.press(key).keys == m.keys.update(key as int % 16, true),
        m.waiting_for_key is None ==> m.press(key) == (Machine {
            keys: m.keys.update(key as int % 16, true),
            ..m
        }),
        m.waiting_for_key matches Some(x) ==> m.press(key).v == m.v.update(x as int, key)
            && m.press(key).waiting_for_key is None,
{
}

/// A fresh machine holds the font's eighty bytes from address 0x50 on and
/// zeroes elsewhere, starts at 0x200 with an empty stack, cleared registers,
/// timers and keys, a dark display, and does not wait for a key.
pub proof fn lemma_initial_machine()
    ensures
        ({
            let m = crate::machine::initial_machine();
            &&& m.wf()
            &&& forall|k: int| 0 <= k < 80 ==> #[trigger] m.memory[0x50 + k] == crate::font::FONT_SET@[k]
            &&& forall|a: int|
                0 <= a < 0x1000 && !(0x50 <= a < 0xA0) ==> #[trigger] m.memory[a] == 0
            &&& m.pc == 0x200 && m.i == 0 && m.sp == 0
            &&& forall|k: int| 0 <= k < 16 ==> #[trigger] m.v[k] == 0 && m.stack[k] == 0 && !m.keys[k]
            &&& m.delay_timer == 0 && m.sound_timer == 0
            &&& forall|p: int| 0 <= p < DISPLAY_SIZE ==> !#[trigger] m.display[p]
            &&& m.waiting_for_key is None
        }),
{
}

} // verus!
