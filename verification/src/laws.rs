//! Properties of the machine that span several operations.

use vstd::prelude::*;

use crate::display::DISPLAY_SIZE;
use crate::font::{FONT_SET, FONT_START, GLYPH_BYTES};
use crate::rng::RandSource;
use crate::machine::{
    flag_reg, op_kind, op_n, op_nn, op_nnn, op_x, op_y, program_bytes, sprite_covers, Machine,
};
use crate::{MEMORY_SIZE, PROGRAM_START, STACK_SIZE};

verus! {

/// A machine blocked on `FX0A` does nothing when stepped.
#[verifier::spinoff_prover]
pub proof fn lemma_step_while_waiting_is_noop(m: Machine, random: u8)
    requires
        m.waiting_for_key is Some,
    ensures
        m.step(random) == m,
{
}

/// `FX0A` blocks the machine; the next key press stores the key in `VX` and
/// resumes it.
#[verifier::spinoff_prover]
pub proof fn lemma_wait_then_key_press(m: Machine, op: u16, key: u8, random: u8)
    requires
        m.wf(),
        op_kind(op) == 0xF,
        op_nn(op) == 0x0A,
    ensures
        ({
            let x = op_x(op);
            let waiting = m.execute(op, random);
            let resumed = waiting.press(key);
            &&& waiting.waiting_for_key == Some(x as u8)
            &&& resumed.waiting_for_key is None
            &&& resumed.v == m.v.update(x, key)
            &&& resumed.keys[(key % 16) as int]
        }),
{
    assert(m.execute(op, random) == m.misc(op_x(op), op_nn(op)));
}

/// A step that does not execute `CXNN` does not depend on the random byte:
/// apart from `CXNN`, the machine is deterministic.
#[verifier::spinoff_prover]
pub proof fn lemma_step_ignores_random(m: Machine, r1: u8, r2: u8)
    requires
        !m.step_reads_random(),
    ensures
        m.step(r1) == m.step(r2),
{
}

/// A step is determined by the machine and, for `CXNN`, by the bits of the
/// random byte that `NN` keeps: two equal machines given bytes that agree on
/// those bits step to equal machines.
#[verifier::spinoff_prover]
pub proof fn lemma_step_determined_by_masked_byte(m: Machine, r1: u8, r2: u8)
    requires
        m.step_reads_random() ==> r1 & op_nn(m.fetch()) == r2 & op_nn(m.fetch()),
    ensures
        m.step(r1) == m.step(r2),
{
}

/// Two equal machines whose random sources allow the same bytes, and at most
/// one byte each time, step to equal machines: the CPU depends on nothing but
/// its state and its source.
#[verifier::spinoff_prover]
pub proof fn lemma_equal_sources_step_alike(
    m: Machine,
    first: Box<dyn RandSource>,
    second: Box<dyn RandSource>,
    r1: u8,
    r2: u8,
)
    requires
        forall|b: u8| first.may_yield(b) == second.may_yield(b),
        forall|b1: u8, b2: u8| first.may_yield(b1) && first.may_yield(b2) ==> b1 == b2,
        m.step_reads_random() ==> first.may_yield(r1) && second.may_yield(r2),
    ensures
        m.step(r1) == m.step(r2),
{
}

/// A return undoes a call even when other operations run in between, as
/// long as they leave the stack and the stack pointer alone.
#[verifier::spinoff_prover]
pub proof fn lemma_return_undoes_call(m: Machine, target: u16, between: Machine, random: u8)
    requires
        m.wf(),
        m.sp < STACK_SIZE,
        target < 0x1000,
        between.sp == m.execute((0x2000 + target) as u16, random).sp,
        between.stack == m.execute((0x2000 + target) as u16, random).stack,
    ensures
        between.can_execute(0x00EE),
        between.execute(0x00EE, random).pc == m.pc,
        between.execute(0x00EE, random).sp == m.sp,
{
    let op = (0x2000 + target) as u16;
    assert(op_kind(op) == 0x2 && op_nnn(op) == target);
}

/// `FX65` loads back the registers that `FX55` stored, even when the
/// registers were overwritten in between, as long as `I` is set back and the
/// stored bytes are left alone.
#[verifier::spinoff_prover]
pub proof fn lemma_load_restores_stored_registers(
    m: Machine,
    store: u16,
    between: Machine,
    load: u16,
    random: u8,
)
    requires
        m.wf(),
        between.wf(),
        op_kind(store) == 0xF,
        op_nn(store) == 0x55,
        op_kind(load) == 0xF,
        op_nn(load) == 0x65,
        op_x(store) == op_x(load),
        m.i + op_x(store) < MEMORY_SIZE,
        between.i == m.i,
        forall|a: int|
            m.i <= a <= m.i + op_x(store) ==> #[trigger] between.memory[a] == m.execute(
                store,
                random,
            ).memory[a],
    ensures
        ({
            let loaded = between.execute(load, random);
            &&& forall|k: int| 0 <= k <= op_x(store) ==> #[trigger] loaded.v[k] == m.v[k]
            &&& loaded.i == m.i + op_x(store) + 1
        }),
{
    let stored = m.execute(store, random);
    assert(stored == m.misc(op_x(store), op_nn(store)));
    let loaded = between.execute(load, random);
    assert(loaded == between.misc(op_x(load), op_nn(load)));
    assert forall|k: int| 0 <= k <= op_x(store) implies #[trigger] loaded.v[k] == m.v[k] by {
        assert(between.memory[m.i + k] == stored.memory[m.i + k]);
    }
}

/// `FX07` reads back the value that `FX15` put in the delay timer, into any
/// register, as long as the timer was not ticked or written in between.
#[verifier::spinoff_prover]
pub proof fn lemma_delay_timer_read_back(
    m: Machine,
    set_op: u16,
    between: Machine,
    read_op: u16,
    random: u8,
)
    requires
        m.wf(),
        between.wf(),
        op_kind(set_op) == 0xF,
        op_nn(set_op) == 0x15,
        op_kind(read_op) == 0xF,
        op_nn(read_op) == 0x07,
        between.delay_timer == m.execute(set_op, random).delay_timer,
    ensures
        m.execute(set_op, random).delay_timer == m.v[op_x(set_op)],
        between.execute(read_op, random).v == between.v.update(op_x(read_op), m.v[op_x(set_op)]),
        between.execute(read_op, random).delay_timer == m.v[op_x(set_op)],
{
    assert(m.execute(set_op, random) == m.misc(op_x(set_op), op_nn(set_op)));
    assert(between.execute(read_op, random) == between.misc(op_x(read_op), op_nn(read_op)));
}

/// `CXNN` leaves in `VX` only bits that are set in `NN`.
#[verifier::spinoff_prover]
pub proof fn lemma_random_is_masked(m: Machine, op: u16, random: u8)
    requires
        m.wf(),
        op_kind(op) == 0xC,
    ensures
        m.execute(op, random).v[op_x(op)] & op_nn(op) == m.execute(op, random).v[op_x(op)],
{
    let nn = op_nn(op);
    assert((random & nn) & nn == random & nn) by (bit_vector);
}

/// `2NNN` followed by `00EE` returns to the instruction after the call, with
/// the stack pointer restored.
#[verifier::spinoff_prover]
pub proof fn lemma_call_then_return(m: Machine, target: u16, random: u8)
    requires
        m.wf(),
        m.sp < STACK_SIZE,
        target < 0x1000,
    ensures
        ({
            let called = m.execute((0x2000 + target) as u16, random);
            let returned = called.execute(0x00EE, random);
            &&& called.pc == target
            &&& called.sp == m.sp + 1
            &&& called.can_execute(0x00EE)
            &&& returned.pc == m.pc
            &&& returned.sp == m.sp
        }),
{
    let op = (0x2000 + target) as u16;
    assert(op_kind(op) == 0x2 && op_nnn(op) == target);
}

/// `FX55` followed by `FX65` from the same `I` loads back exactly the
/// registers that were stored.
#[verifier::spinoff_prover]
pub proof fn lemma_store_then_load_registers(m: Machine, store: u16, load: u16, random: u8)
    requires
        m.wf(),
        op_kind(store) == 0xF,
        op_nn(store) == 0x55,
        op_kind(load) == 0xF,
        op_nn(load) == 0x65,
        op_x(store) == op_x(load),
        m.i + op_x(store) < MEMORY_SIZE,
    ensures
        ({
            let stored = m.execute(store, random);
            let loaded = (Machine { i: m.i, ..stored }).execute(load, random);
            &&& stored.i == m.i + op_x(store) + 1
            &&& loaded.v == m.v
            &&& loaded.i == stored.i
        }),
{
    let stored = m.execute(store, random);
    assert(stored == m.misc(op_x(store), op_nn(store)));
    let restored = Machine { i: m.i, ..stored };
    let loaded = restored.execute(load, random);
    assert(loaded == restored.misc(op_x(load), op_nn(load)));
    assert(loaded.v =~= m.v);
}

/// `FX15` followed by `FX07` sets the delay timer from `VX` and reads the
/// same value back, leaving the registers as they were.
#[verifier::spinoff_prover]
pub proof fn lemma_delay_timer_roundtrip(m: Machine, set_op: u16, read_op: u16, random: u8)
    requires
        m.wf(),
        op_kind(set_op) == 0xF,
        op_nn(set_op) == 0x15,
        op_kind(read_op) == 0xF,
        op_nn(read_op) == 0x07,
        op_x(set_op) == op_x(read_op),
    ensures
        ({
            let set = m.execute(set_op, random);
            let read = set.execute(read_op, random);
            &&& set.delay_timer == m.v[op_x(set_op)]
            &&& read.v == m.v
        }),
{
    let set = m.execute(set_op, random);
    assert(set == m.misc(op_x(set_op), op_nn(set_op)));
    let read = set.execute(read_op, random);
    assert(read == set.misc(op_x(read_op), op_nn(read_op)));
    assert(read.v =~= m.v);
}

/// `FX33` writes the decimal digits of `VX`: each below ten, and together
/// they make up `VX`.
#[verifier::spinoff_prover]
pub proof fn lemma_bcd_digits_make_up_value(m: Machine, op: u16, random: u8)
    requires
        m.wf(),
        op_kind(op) == 0xF,
        op_nn(op) == 0x33,
        m.i + 2 < MEMORY_SIZE,
    ensures
        ({
            let x = op_x(op);
            let r = m.execute(op, random);
            let i = m.i as int;
            &&& r.memory[i] < 10 && r.memory[i + 1] < 10 && r.memory[i + 2] < 10
            &&& r.memory[i] * 100 + r.memory[i + 1] * 10 + r.memory[i + 2] == m.v[x]
        }),
{
    let vx = m.v[op_x(op)];
    assert(vx / 100 < 10 && (vx / 10) % 10 < 10 && vx % 10 < 10 && (vx / 100) * 100 + ((vx / 10)
        % 10) * 10 + vx % 10 == vx) by (bit_vector);
    assert(m.execute(op, random) == m.misc(op_x(op), op_nn(op)));
}

/// `FX29` points `I` at the five-byte glyph of the low nibble of `VX`, which
/// lies within the font.
#[verifier::spinoff_prover]
pub proof fn lemma_font_glyph_address(m: Machine, op: u16, random: u8)
    requires
        m.wf(),
        op_kind(op) == 0xF,
        op_nn(op) == 0x29,
    ensures
        ({
            let r = m.execute(op, random);
            &&& r.i == FONT_START + (m.v[op_x(op)] % 16) * GLYPH_BYTES
            &&& FONT_START <= r.i
            &&& r.i + GLYPH_BYTES <= FONT_START + FONT_SET@.len()
        }),
{
    assert(m.execute(op, random) == m.misc(op_x(op), op_nn(op)));
}

/// `8XY4`: the result and the carry in `VF` together make up the full sum.
#[verifier::spinoff_prover]
pub proof fn lemma_add_with_carry(m: Machine, op: u16, random: u8)
    requires
        m.wf(),
        op_kind(op) == 0x8,
        op_n(op) == 0x4,
        op_x(op) != flag_reg(),
    ensures
        ({
            let r = m.execute(op, random);
            &&& r.v[flag_reg()] <= 1
            &&& r.v[op_x(op)] + 256 * r.v[flag_reg()] == m.v[op_x(op)] + m.v[op_y(op)]
        }),
{
    let x = op_x(op);
    let sum = m.v[x] + m.v[op_y(op)];
    let flag: u8 = if sum > 255 { 1 } else { 0 };
    assert(m.execute(op, random) == m.alu(x, op_y(op), op_n(op)));
    assert(m.execute(op, random) == m.set_v_and_flag(x, (sum % 256) as u8, flag));
    vstd::arithmetic::div_mod::lemma_fundamental_div_mod(sum, 256);
}

/// `8XY5` and `8XY7`: `VF` is 1 exactly when no borrow occurred, and the
/// result plus the borrow makes up the difference.
#[verifier::spinoff_prover]
pub proof fn lemma_sub_with_borrow(m: Machine, op: u16, random: u8)
    requires
        m.wf(),
        op_kind(op) == 0x8,
        op_n(op) == 0x5 || op_n(op) == 0x7,
        op_x(op) != flag_reg(),
    ensures
        ({
            let r = m.execute(op, random);
            let a = if op_n(op) == 0x5 { m.v[op_x(op)] } else { m.v[op_y(op)] };
            let b = if op_n(op) == 0x5 { m.v[op_y(op)] } else { m.v[op_x(op)] };
            &&& r.v[flag_reg()] == if a >= b { 1u8 } else { 0u8 }
            &&& r.v[op_x(op)] == a - b + 256 * (1 - r.v[flag_reg()])
        }),
{
    let x = op_x(op);
    let y = op_y(op);
    let a: int = if op_n(op) == 0x5 { m.v[x] as int } else { m.v[y] as int };
    let b: int = if op_n(op) == 0x5 { m.v[y] as int } else { m.v[x] as int };
    if a >= b {
        vstd::arithmetic::div_mod::lemma_fundamental_div_mod_converse_mod(a - b, 256, 0, a - b);
    } else {
        vstd::arithmetic::div_mod::lemma_fundamental_div_mod_converse_mod(a - b, 256, -1, a - b + 256);
    }
    assert(m.execute(op, random) == m.alu(x, y, op_n(op)));
}

/// `8XY6` and `8XYE`: the shifted-out bit lands in `VF`, so the result and
/// `VF` together make up the shifted value.
#[verifier::spinoff_prover]
pub proof fn lemma_shifts_keep_dropped_bit(m: Machine, op: u16, random: u8)
    requires
        m.wf(),
        op_kind(op) == 0x8,
        op_n(op) == 0x6 || op_n(op) == 0xE,
        op_x(op) != flag_reg(),
    ensures
        ({
            let r = m.execute(op, random);
            let vx = m.v[op_x(op)];
            &&& r.v[flag_reg()] <= 1
            &&& op_n(op) == 0x6 ==> 2 * r.v[op_x(op)] + r.v[flag_reg()] == vx
            &&& op_n(op) == 0xE ==> r.v[op_x(op)] + 256 * r.v[flag_reg()] == 2 * vx
        }),
{
    let x = op_x(op);
    let vx = m.v[x];
    let r = m.execute(op, random);
    assert(r == m.alu(x, op_y(op), op_n(op)));
    if op_n(op) == 0x6 {
        assert(r == m.set_v_and_flag(x, vx / 2, vx % 2));
        assert(2 * (vx / 2) + vx % 2 == vx);
    } else {
        assert(r == m.set_v_and_flag(x, ((vx * 2) % 256) as u8, vx / 128));
        vstd::arithmetic::div_mod::lemma_fundamental_div_mod(vx * 2, 256);
        assert((vx * 2) / 256 == vx / 128);
    }
}

/// `7XNN` adds without touching `VF` (unless `VF` is its target).
#[verifier::spinoff_prover]
pub proof fn lemma_add_immediate_keeps_flag(m: Machine, op: u16, random: u8)
    requires
        m.wf(),
        op_kind(op) == 0x7,
        op_x(op) != flag_reg(),
    ensures
        m.execute(op, random).v[flag_reg()] == m.v[flag_reg()],
        m.execute(op, random).v[op_x(op)] == (m.v[op_x(op)] + op_nn(op)) % 256,
{
    assert(m.execute(op, random) == m.set_v(op_x(op), ((m.v[op_x(op)] + op_nn(op)) % 256) as u8));
}

/// Only `00E0` and `DXYN` change the display.
#[verifier::spinoff_prover]
pub proof fn lemma_only_clear_and_draw_touch_display(m: Machine, op: u16, random: u8)
    requires
        op != 0x00E0,
        op_kind(op) != 0xD,
    ensures
        m.execute(op, random).display == m.display,
{
}

/// Drawing the same sprite twice at the same place restores the display
/// (XOR drawing), and the second draw reports a collision exactly when the
/// sprite covers some pixel that was dark before the first.
#[verifier::spinoff_prover]
pub proof fn lemma_draw_twice_restores_display(m: Machine, op: u16, random: u8)
    requires
        m.wf(),
        op_kind(op) == 0xD,
        op_x(op) != flag_reg(),
        op_y(op) != flag_reg(),
        m.can_execute(op),
    ensures
        ({
            let once = m.execute(op, random);
            let twice = once.execute(op, random);
            &&& once.can_execute(op)
            &&& twice.display == m.display
            &&& (twice.v[flag_reg()] == 1) == exists|p: int|
                0 <= p < DISPLAY_SIZE && !m.display[p] && #[trigger] sprite_covers(
                    m.memory,
                    m.i,
                    m.v[op_x(op)],
                    m.v[op_y(op)],
                    op_n(op),
                    p,
                )
        }),
{
    let once = m.execute(op, random);
    let twice = once.execute(op, random);
    let vx = m.v[op_x(op)];
    let vy = m.v[op_y(op)];
    assert(once.v[op_x(op)] == vx && once.v[op_y(op)] == vy);
    assert(once.memory == m.memory && once.i == m.i);
    assert(twice.display =~= m.display);
    if exists|p: int|
        0 <= p < DISPLAY_SIZE && !m.display[p] && #[trigger] sprite_covers(
            m.memory,
            m.i,
            vx,
            vy,
            op_n(op),
            p,
        ) {
        let p = choose|p: int|
            0 <= p < DISPLAY_SIZE && !m.display[p] && #[trigger] sprite_covers(
                m.memory,
                m.i,
                vx,
                vy,
                op_n(op),
                p,
            );
        assert(once.display[p]);
    }
    if exists|p: int|
        0 <= p < DISPLAY_SIZE && once.display[p] && #[trigger] sprite_covers(
            once.memory,
            once.i,
            vx,
            vy,
            op_n(op),
            p,
        ) {
        let p = choose|p: int|
            0 <= p < DISPLAY_SIZE && once.display[p] && #[trigger] sprite_covers(
                once.memory,
                once.i,
                vx,
                vy,
                op_n(op),
                p,
            );
        assert(!m.display[p]);
    }
}

/// The timers count down by one per tick and stop at zero.
#[verifier::spinoff_prover]
pub proof fn lemma_timers_count_down(m: Machine, k: nat)
    ensures
        m.ticks(k).delay_timer == if m.delay_timer >= k { m.delay_timer - k } else { 0 },
        m.ticks(k).sound_timer == if m.sound_timer >= k { m.sound_timer - k } else { 0 },
        m.ticks(k) == (Machine {
            delay_timer: m.ticks(k).delay_timer,
            sound_timer: m.ticks(k).sound_timer,
            ..m
        }),
    decreases k,
{
    if k > 0 {
        lemma_timers_count_down(m, (k - 1) as nat);
    }
}

/// A program is loaded high byte first, and the opcode fetched at each
/// instruction slot is the opcode that was loaded there.
#[verifier::spinoff_prover]
pub proof fn lemma_loaded_program_fetches_back(m: Machine, opcodes: Seq<u16>, k: int)
    requires
        m.wf(),
        PROGRAM_START + 2 * opcodes.len() <= MEMORY_SIZE,
        0 <= k < opcodes.len(),
    ensures
        (Machine { pc: (PROGRAM_START + 2 * k) as u16, ..m.load(program_bytes(opcodes)) }).fetch()
            == opcodes[k],
        m.load(program_bytes(opcodes)).memory[PROGRAM_START + 2 * k] == opcodes[k] / 256,
        m.load(program_bytes(opcodes)).memory[PROGRAM_START + 2 * k + 1] == opcodes[k] % 256,
{
    let bytes = program_bytes(opcodes);
    assert(bytes[2 * k] == opcodes[k] / 256);
    assert(bytes[2 * k + 1] == opcodes[k] % 256);
}

/// Each fetch moves past the two-byte opcode: unless the opcode is a jump, a
/// call or a return, a step advances the program counter by 2, or by 4 when a
/// conditional skip is taken.
#[verifier::spinoff_prover]
pub proof fn lemma_step_advances_pc(m: Machine, random: u8)
    requires
        m.wf(),
        m.waiting_for_key is None,
        m.pc + 1 < MEMORY_SIZE,
        m.fetch() != 0x00EE,
        op_kind(m.fetch()) != 0x1,
        op_kind(m.fetch()) != 0x2,
        op_kind(m.fetch()) != 0xB,
    ensures
        m.step(random).pc == m.pc + if m.skip_taken(m.fetch()) { 4int } else { 2int },
{
    assert(m.advance_pc().skip_taken(m.fetch()) == m.skip_taken(m.fetch()));
}

/// A step that stays within the machine keeps it well formed and keeps the
/// stack pointer within the stack.
#[verifier::spinoff_prover]
pub proof fn lemma_step_preserves_wf(m: Machine, random: u8)
    requires
        m.wf(),
        m.sp <= STACK_SIZE,
        m.can_step(),
    ensures
        m.step(random).wf(),
        m.step(random).sp <= STACK_SIZE,
{
}

} // verus!
