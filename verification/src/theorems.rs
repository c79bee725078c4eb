//! Laws of the machine, proved from its model.

use crate::display::{
    bit_set, blank, blit, collides, grid_wf, lemma_wrapped_target, sprite_covers, Grid,
};
use crate::instruction::{spec_decode, Instruction};
use crate::machine::{settles, CpuError, Machine};
use vstd::prelude::*;

verus! {

/// Carrying out a well-formed instruction on a well-formed machine gives a
/// well-formed machine: the sizes of memory, registers and framebuffer stay
/// fixed, and the call stack stays within its sixteen entries.
pub proof fn execute_preserves_wf(m: Machine, i: Instruction)
    requires
        m.wf(),
        i.wf(),
    ensures
        m.execute(i) matches Ok(after) ==> after.wf(),
{
}

/// One instruction cycle of a well-formed machine gives a well-formed
/// machine.
pub proof fn step_preserves_wf(m: Machine)
    requires
        m.wf(),
    ensures
        m.step() matches Ok(after) ==> after.wf(),
{
    if m.pc + 2 <= 4096 {
        let opcode = m.fetch();
        decode_is_wf(opcode);
        if let Some(i) = spec_decode(opcode) {
            execute_preserves_wf(m.tick_timer(), i);
        }
    }
}

/// Every instruction that a word decodes to has its operands within their
/// fields: register numbers and row counts below sixteen, addresses below
/// `0x1000`.
pub proof fn decode_is_wf(opcode: u16)
    ensures
        spec_decode(opcode) matches Some(i) ==> i.wf(),
{
}

/// A cycle that neither jumps, calls, returns nor skips moves the program
/// counter on by exactly two; a skip moves it by four. In every successful
/// cycle the delay timer has counted down by one, or stayed at zero, unless
/// the instruction set it.
pub proof fn step_advances(m: Machine)
    requires
        m.wf(),
    ensures
        m.step() matches Ok(after) ==> {
            let i = spec_decode(m.fetch())->Some_0;
            &&& (i is Jump || i is Call || i is Return || i is JumpOffset || after.pc == m.pc + 2
                || after.pc == m.pc + 4)
            &&& (after.pc == m.pc + 4 ==> i is SkipEqImm || i is SkipNeImm || i is SkipEq
                || i is SkipNe || i is Jump || i is Call || i is Return || i is JumpOffset)
            &&& (i is SetDelay || after.delay_timer == if m.delay_timer > 0 {
                m.delay_timer - 1
            } else {
                0
            })
        },
{
}

/// Loading a program changes memory from address `0x200` on and nothing
/// else: the font below stays, and so do the registers, the program
/// counter, the call stack, the timer and the framebuffer. A program
/// longer than the room above `0x200` is cut off at the last address.
pub proof fn load_fills_program_area(m: Machine, rom: Seq<u8>)
    requires
        m.wf(),
    ensures
        m.load(rom).wf(),
        m.load(rom) == (Machine { memory: m.load(rom).memory, ..m }),
        forall|a: int| 0 <= a < 0x200 ==> m.load(rom).memory[a] == m.memory[a],
        forall|k: int|
            0 <= k < rom.len() && 0x200 + k < 4096 ==> m.load(rom).memory[0x200 + k] == rom[k],
        forall|a: int| 0x200 + rom.len() <= a < 4096 ==> m.load(rom).memory[a] == m.memory[a],
        0 <= Machine::dropped(rom.len() as int) <= rom.len(),
        rom.len() - Machine::dropped(rom.len() as int) <= 4096 - 0x200,
        Machine::dropped(rom.len() as int) == 0 <==> 0x200 + rom.len() <= 4096,
{
}

/// Storing `V0..=Vx` and loading them again gives back what was stored,
/// whatever the registers held in between: after the store, memory from `I`
/// on holds the registers, and a load from the same `I` restores each of
/// them exactly. Registers above `Vx` are left as the load found them.
pub proof fn store_then_load_restores_registers(m: Machine, x: u8, scratch: Seq<u8>)
    requires
        m.wf(),
        x < 16,
        m.index_in_bounds(x + 1),
        scratch.len() == 16,
    ensures
        m.execute(Instruction::StoreRegisters { x }) is Ok,
        ({
            let stored = m.execute(Instruction::StoreRegisters { x })->Ok_0;
            let reloaded = (Machine { registers: scratch, ..stored }).execute(
                Instruction::LoadRegisters { x },
            );
            &&& stored.registers == m.registers
            &&& stored.index == m.index
            &&& forall|r: int| 0 <= r <= x ==> stored.memory[m.index + r] == m.registers[r]
            &&& forall|a: int|
                0 <= a < 4096 && !(m.index <= a <= m.index + x) ==> stored.memory[a]
                    == m.memory[a]
            &&& reloaded is Ok
            &&& forall|r: int| 0 <= r <= x ==> reloaded->Ok_0.registers[r] == m.registers[r]
            &&& forall|r: int| x < r < 16 ==> reloaded->Ok_0.registers[r] == scratch[r]
            &&& reloaded->Ok_0.memory == stored.memory
        }),
{
}

/// A value put into register `r` by `6xnn` survives a store of `V0..=Vx`
/// followed by a load of `V0..=Vx` from the same `I`, for every `r <= x`:
/// memory at `I + r` holds it after the store, and register `r` holds it
/// after the load.
pub proof fn immediate_survives_store_and_load(m: Machine, r: u8, nn: u8, x: u8)
    requires
        m.wf(),
        r <= x < 16,
        m.index_in_bounds(x + 1),
    ensures
        ({
            let set = m.execute(Instruction::LoadImm { x: r, nn });
            let stored = set->Ok_0.execute(Instruction::StoreRegisters { x });
            let loaded = stored->Ok_0.execute(Instruction::LoadRegisters { x });
            &&& set is Ok
            &&& stored is Ok
            &&& loaded is Ok
            &&& stored->Ok_0.memory[m.index + r] == nn
            &&& loaded->Ok_0.registers[r as int] == nn
            &&& loaded->Ok_0.registers == set->Ok_0.registers
        }),
{
    let set = m.execute(Instruction::LoadImm { x: r, nn })->Ok_0;
    store_then_load_restores_registers(set, x, set.registers);
    let stored = set.execute(Instruction::StoreRegisters { x })->Ok_0;
    assert(stored == (Machine { registers: set.registers, ..stored }));
    let loaded = stored.execute(Instruction::LoadRegisters { x })->Ok_0;
    assert(loaded.registers =~= set.registers);
}

/// `8xy4` leaves in `VF` exactly the carry of `Vx + Vy`: one where the sum
/// exceeds 255, zero otherwise; and, unless `Vx` is `VF` itself, the low
/// eight bits of the sum in `Vx`. `8xy5` and `8xy7` do the very same: their
/// flag is the carry of the sum, not a borrow.
pub proof fn add_flags_carry(m: Machine, x: u8, y: u8)
    requires
        m.wf(),
        x < 16,
        y < 16,
    ensures
        m.execute(Instruction::Add { x, y }) is Ok,
        ({
            let after = m.execute(Instruction::Add { x, y })->Ok_0;
            &&& after.v(0xF) == 1 <==> m.v(x) + m.v(y) > 255
            &&& after.v(0xF) == 0 <==> m.v(x) + m.v(y) <= 255
            &&& x != 0xF ==> after.v(x) == (m.v(x) + m.v(y)) % 256
            &&& forall|r: int| 0 <= r < 15 && r != x ==> after.registers[r] == m.registers[r]
        }),
        m.execute(Instruction::Sub { x, y }) == m.execute(Instruction::Add { x, y }),
        m.execute(Instruction::SubReversed { x, y }) == m.execute(Instruction::Add { x, y }),
{
}

/// `8xy6` leaves in `VF` the low nibble of `Vx` as it was before the
/// shift, all four bits of it, and, unless `Vx` is `VF` itself, `Vx`
/// shifted right by one in `Vx`.
pub proof fn shift_right_flags_low_nibble(m: Machine, x: u8, y: u8)
    requires
        m.wf(),
        x < 16,
    ensures
        m.execute(Instruction::ShiftRight { x, y }) is Ok,
        ({
            let after = m.execute(Instruction::ShiftRight { x, y })->Ok_0;
            &&& after.v(0xF) == m.v(x) % 16
            &&& after.v(0xF) == m.v(x) & 0x0F
            &&& x != 0xF ==> after.v(x) == m.v(x) / 2 && after.v(x) == m.v(x) >> 1
        }),
{
    let vx = m.v(x);
    assert(vx & 0x0F == vx % 16) by (bit_vector);
    assert(vx >> 1 == vx / 2) by (bit_vector);
}

/// `8xyE` leaves in `VF` the top bit of `Vx` as it was before the shift
/// and, unless `Vx` is `VF` itself, `Vx` shifted left by one, the top bit
/// lost, in `Vx`.
pub proof fn shift_left_flags_top_bit(m: Machine, x: u8, y: u8)
    requires
        m.wf(),
        x < 16,
    ensures
        m.execute(Instruction::ShiftLeft { x, y }) is Ok,
        ({
            let after = m.execute(Instruction::ShiftLeft { x, y })->Ok_0;
            &&& after.v(0xF) == m.v(x) >> 7
            &&& x != 0xF ==> after.v(x) == m.v(x) << 1
        }),
{
    let vx = m.v(x);
    assert(vx >> 7 == vx / 128) by (bit_vector);
    assert(vx << 1 == (vx * 2) % 256) by (bit_vector);
}

/// A sprite drawn at `(vx, vy)` wraps at the edges of the grid: the bit in
/// row `row`, column `col` of the sprite is XORed onto the pixel
/// `((vx + col) mod 64, (vy + row) mod 32)`, and a pixel outside the eight
/// columns and `sprite.len()` rows that start at `(vx, vy)` is left as it
/// was.
pub proof fn blit_wraps(g: Grid, sprite: Seq<u8>, vx: int, vy: int)
    requires
        grid_wf(g),
        sprite.len() <= 32,
        0 <= vx,
        0 <= vy,
    ensures
        grid_wf(blit(g, sprite, vx, vy)),
        forall|row: int, col: int|
            0 <= row < sprite.len() && 0 <= col < 8 ==> blit(g, sprite, vx, vy)[(vy + row)
                % 32][(vx + col) % 64] == (g[(vy + row) % 32][(vx + col) % 64] ^ #[trigger] bit_set(
                sprite[row],
                col,
            )),
        forall|px: int, py: int|
            0 <= px < 64 && 0 <= py < 32 && ((py - vy) % 32 >= sprite.len() || (px - vx) % 64
                >= 8) ==> #[trigger] blit(g, sprite, vx, vy)[py][px] == g[py][px],
{
    assert forall|row: int, col: int| 0 <= row < sprite.len() && 0 <= col < 8 implies blit(
        g,
        sprite,
        vx,
        vy,
    )[(vy + row) % 32][(vx + col) % 64] == (g[(vy + row) % 32][(vx + col) % 64] ^ #[trigger] bit_set(
        sprite[row],
        col,
    )) by {
        let px = (vx + col) % 64;
        let py = (vy + row) % 32;
        lemma_wrapped_target(vx, vy, row, col, px, py);
    }
}

/// `Dxyn` draws with wraparound and changes only the framebuffer, `VF` and
/// the program counter. Bit `col` of the byte at `I + row` is XORed onto
/// the pixel `((Vx + col) mod 64, (Vy + row) mod 32)`, so a sprite drawn at
/// `Vx = 63` has its second to eighth columns in columns 0 to 6. `VF` is 1
/// where a lit pixel was turned off and 0 where none was.
pub proof fn draw_wraps(m: Machine, x: u8, y: u8, n: u8)
    requires
        m.wf(),
        x < 16,
        y < 16,
        n < 16,
    ensures
        ({
            let after = m.draw(x, y, n);
            let vx = m.v(x) as int;
            let vy = m.v(y) as int;
            &&& after.wf()
            &&& forall|row: int, col: int|
                0 <= row < n && 0 <= col < 8 ==> after.display[(vy + row) % 32][(vx + col) % 64]
                    == (m.display[(vy + row) % 32][(vx + col) % 64] ^ #[trigger] bit_set(
                    m.sprite(n)[row],
                    col,
                ))
            &&& forall|row: int| 0 <= row < n ==> m.sprite(n)[row] == m.memory[m.index + row]
            &&& forall|px: int, py: int|
                0 <= px < 64 && 0 <= py < 32 && ((py - vy) % 32 >= n || (px - vx) % 64 >= 8)
                    ==> #[trigger] after.display[py][px] == m.display[py][px]
            &&& after.v(0xF) == 1 <==> collides(m.display, m.sprite(n), vx, vy)
            &&& after.v(0xF) == 0 <==> !collides(m.display, m.sprite(n), vx, vy)
            &&& forall|r: int| 0 <= r < 15 ==> after.registers[r] == m.registers[r]
            &&& after.pc == (m.pc + 2) as u16
            &&& after.memory == m.memory
            &&& after.index == m.index
            &&& after.stack == m.stack
            &&& after.delay_timer == m.delay_timer
        }),
{
    blit_wraps(m.display, m.sprite(n), m.v(x) as int, m.v(y) as int);
}

/// Drawing a sprite twice in the same place undoes the first draw: the
/// grid is as it was before. The second draw reports a collision exactly
/// where the sprite has a set bit over a pixel that was off before the
/// first draw, a pixel which the first draw lit and the second turns off.
pub proof fn blit_twice_restores(g: Grid, sprite: Seq<u8>, vx: int, vy: int)
    requires
        grid_wf(g),
    ensures
        blit(blit(g, sprite, vx, vy), sprite, vx, vy) == g,
        collides(blit(g, sprite, vx, vy), sprite, vx, vy) <==> exists|px: int, py: int|
            0 <= px < 64 && 0 <= py < 32 && !g[py][px] && #[trigger] sprite_covers(
                sprite,
                vx,
                vy,
                px,
                py,
            ),
{
    let once = blit(g, sprite, vx, vy);
    assert(blit(once, sprite, vx, vy) =~~= g);
    if collides(once, sprite, vx, vy) {
        let (px, py) = choose|px: int, py: int|
            0 <= px < 64 && 0 <= py < 32 && once[py][px] && #[trigger] sprite_covers(
                sprite,
                vx,
                vy,
                px,
                py,
            );
        assert(!g[py][px] && sprite_covers(sprite, vx, vy, px, py));
    }
    if exists|px: int, py: int|
        0 <= px < 64 && 0 <= py < 32 && !g[py][px] && #[trigger] sprite_covers(
            sprite,
            vx,
            vy,
            px,
            py,
        ) {
        let (px, py) = choose|px: int, py: int|
            0 <= px < 64 && 0 <= py < 32 && !g[py][px] && #[trigger] sprite_covers(
                sprite,
                vx,
                vy,
                px,
                py,
            );
        assert(once[py][px] && sprite_covers(sprite, vx, vy, px, py));
    }
}

/// A sprite with a set bit, drawn where none of its set bits lies over a
/// lit pixel, lights at least one pixel, and drawing it there again
/// collides.
pub proof fn blit_on_clear_ground_then_collides(g: Grid, sprite: Seq<u8>, vx: int, vy: int)
    requires
        grid_wf(g),
        sprite.len() <= 32,
        exists|row: int, col: int|
            0 <= row < sprite.len() && 0 <= col < 8 && #[trigger] bit_set(sprite[row], col),
        !collides(g, sprite, vx, vy),
    ensures
        collides(blit(g, sprite, vx, vy), sprite, vx, vy),
{
    let (row, col) = choose|row: int, col: int|
        0 <= row < sprite.len() && 0 <= col < 8 && #[trigger] bit_set(sprite[row], col);
    let px = (vx + col) % 64;
    let py = (vy + row) % 32;
    lemma_wrapped_target(vx, vy, row, col, px, py);
    assert(sprite_covers(sprite, vx, vy, px, py));
    assert(!g[py][px]);
    assert(blit(g, sprite, vx, vy)[py][px]);
}

/// `Dxyn` carried out twice in the same place, that is with `Vx` and `Vy`
/// the same at the second draw as at the first, leaves the framebuffer as
/// it was before the first. The second draw sets `VF` to 1 exactly where
/// the sprite has a set bit over a pixel that was off before the first
/// draw. So where the sprite has a set bit and none of its set bits lay
/// over a lit pixel, as on a blank screen, the first draw reports no
/// collision, and the second clears every pixel that the first lit and
/// reports one.
pub proof fn draw_twice_clears_and_collides(m: Machine, x: u8, y: u8, n: u8)
    requires
        m.wf(),
        x < 16,
        y < 16,
        n < 16,
        n > 0 ==> m.index_in_bounds(n as int),
    ensures
        m.execute(Instruction::Draw { x, y, n }) == Ok::<Machine, CpuError>(m.draw(x, y, n)),
        m.draw(x, y, n).execute(Instruction::Draw { x, y, n }) == Ok::<Machine, CpuError>(
            m.draw(x, y, n).draw(x, y, n),
        ),
        x != 0xF && y != 0xF ==> m.draw(x, y, n).v(x) == m.v(x) && m.draw(x, y, n).v(y) == m.v(y),
        m.draw(x, y, n).v(x) == m.v(x) && m.draw(x, y, n).v(y) == m.v(y) ==> {
            let again = m.draw(x, y, n).draw(x, y, n);
            let sprite = m.sprite(n);
            let vx = m.v(x) as int;
            let vy = m.v(y) as int;
            &&& again.display == m.display
            &&& again.v(0xF) == 1 <==> exists|px: int, py: int|
                0 <= px < 64 && 0 <= py < 32 && !m.display[py][px] && #[trigger] sprite_covers(
                    sprite,
                    vx,
                    vy,
                    px,
                    py,
                )
            &&& (exists|row: int, col: int|
                0 <= row < n && 0 <= col < 8 && #[trigger] bit_set(sprite[row], col)) && !collides(
                m.display,
                sprite,
                vx,
                vy,
            ) ==> m.draw(x, y, n).v(0xF) == 0 && again.v(0xF) == 1
            &&& (exists|row: int, col: int|
                0 <= row < n && 0 <= col < 8 && #[trigger] bit_set(sprite[row], col))
                && m.display == blank() ==> again.display == blank() && again.v(0xF) == 1
        },
{
    let first = m.draw(x, y, n);
    let sprite = m.sprite(n);
    let vx = m.v(x) as int;
    let vy = m.v(y) as int;
    assert(first.memory == m.memory && first.index == m.index);
    assert(first.sprite(n) =~= sprite);
    assert(first.display == blit(m.display, sprite, vx, vy));
    if first.v(x) == m.v(x) && first.v(y) == m.v(y) {
        let again = first.draw(x, y, n);
        blit_twice_restores(m.display, sprite, vx, vy);
        if m.display == blank() {
            assert(!collides(m.display, sprite, vx, vy));
        }
        assert(again.display == blit(first.display, sprite, vx, vy));
        assert(again.v(0xF) == 1 <==> collides(first.display, sprite, vx, vy));
        if (exists|row: int, col: int|
            0 <= row < n && 0 <= col < 8 && #[trigger] bit_set(sprite[row], col)) && !collides(
            m.display,
            sprite,
            vx,
            vy,
        ) {
            blit_on_clear_ground_then_collides(m.display, sprite, vx, vy);
        }
    }
}

/// `00E0` leaves a framebuffer 64 pixels wide and 32 high with every pixel
/// off, whatever it showed before.
pub proof fn clear_screen_blanks(m: Machine)
    ensures
        m.execute(Instruction::ClearScreen) is Ok,
        ({
            let after = m.execute(Instruction::ClearScreen)->Ok_0;
            &&& after.display == blank()
            &&& after.display.len() == 32
            &&& forall|y: int| 0 <= y < 32 ==> (#[trigger] after.display[y]).len() == 64
            &&& forall|x: int, y: int|
                0 <= x < 64 && 0 <= y < 32 ==> !(#[trigger] after.display[y][x])
        }),
{
}

/// A return with the call stack empty is the underflow error, in the
/// instruction alone and in a whole cycle that fetches it; a call with the
/// stack full is the overflow error. Otherwise both succeed.
pub proof fn stack_misuse_is_an_error(m: Machine, nnn: u16)
    requires
        m.wf(),
    ensures
        m.stack.len() == 0 <==> m.execute(Instruction::Return) == Err::<Machine, CpuError>(
            CpuError::StackUnderflow,
        ),
        m.stack.len() > 0 <==> m.execute(Instruction::Return) is Ok,
        m.stack.len() == 16 <==> m.execute(Instruction::Call { nnn }) == Err::<Machine, CpuError>(
            CpuError::StackOverflow,
        ),
        m.stack.len() < 16 <==> m.execute(Instruction::Call { nnn }) is Ok,
        m.stack.len() == 0 && m.pc + 2 <= 4096 && m.fetch() == 0x00EE ==> m.step() == Err::<
            Machine,
            CpuError,
        >(CpuError::StackUnderflow),
{
}

/// A cycle that fails changes nothing: whatever settles a failing step
/// reports the step's error and leaves the machine that was there, timer
/// included. So a return with the call stack empty reports the underflow
/// and leaves program counter, stack, registers, memory, timer and
/// framebuffer as they were.
pub proof fn failed_cycle_changes_nothing(
    before: Machine,
    report: Result<(), CpuError>,
    after: Machine,
)
    requires
        before.step() is Err,
        settles(before, before.step(), report, after),
    ensures
        after == before,
        report == Err::<(), CpuError>(before.step()->Err_0),
        before.stack.len() == 0 && before.pc + 2 <= 4096 && before.fetch() == 0x00EE ==> report
            == Err::<(), CpuError>(CpuError::StackUnderflow),
{
}

/// A call followed at once by a return comes back to the instruction
/// after the call, with the call stack as it was.
pub proof fn call_then_return(m: Machine, nnn: u16)
    requires
        m.wf(),
        m.stack.len() < 16,
        m.pc + 2 <= 4096,
    ensures
        ({
            let called = m.execute(Instruction::Call { nnn });
            let back = called->Ok_0.execute(Instruction::Return);
            &&& called is Ok
            &&& back is Ok
            &&& back->Ok_0 == (Machine { pc: (m.pc + 2) as u16, ..m })
        }),
{
    let called = m.execute(Instruction::Call { nnn })->Ok_0;
    assert(called.stack.drop_last() =~= m.stack);
}

} // verus!
