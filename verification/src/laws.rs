//! Laws of the machine: what holds of every state and every input, proved
//! from the definitions that the contracts of the library use.

use crate::display::{
    blank_screen, collides, drawn, landing, layout_for, lemma_touched_on_screen, lit_count,
    lit_in_row, ones, screen_wf, sprite_bit, sprite_drawn, touched, Screen,
};
use crate::instruction::decoded;
use crate::keypad::{
    key_code, left_over, lemma_first_stop, quit_seen, released_key, stops, taken, HostEvent,
};
use crate::machine::{
    after_add_reg_reg, after_draw, after_logic, after_read_regs_from_mem, after_shift_left,
    after_shift_right, after_sub_reg_reg, after_subn_reg_reg, after_write_regs_to_mem, bcd,
    machine_wf, next_word, shift_source, sprite_rows, step, ticked, Machine,
};
use vstd::prelude::*;

verus! {

/// Where an instruction that writes Vx and then VF names VF itself as Vx,
/// VF ends up with the flag, not with the result: the carry of an addition,
/// the no-borrow of a subtraction, the bit that a shift pushed out, and 0
/// after OR, AND and XOR under the `logic` quirk.
pub proof fn law_flag_wins(m: Machine, y: int, value: u8)
    requires
        machine_wf(m),
        0 <= y < 16,
    ensures
        after_add_reg_reg(m, 0xF, y).regs[0xF] == (if m.regs[0xF] + m.regs[y] > 255 {
            1u8
        } else {
            0u8
        }),
        after_sub_reg_reg(m, 0xF, y).regs[0xF] == (if m.regs[0xF] >= m.regs[y] {
            1u8
        } else {
            0u8
        }),
        after_subn_reg_reg(m, 0xF, y).regs[0xF] == (if m.regs[y] >= m.regs[0xF] {
            1u8
        } else {
            0u8
        }),
        after_shift_right(m, 0xF, y).regs[0xF] == m.regs[shift_source(m, 0xF, y)] % 2,
        after_shift_left(m, 0xF, y).regs[0xF] == m.regs[shift_source(m, 0xF, y)] / 128,
        m.config.logic ==> after_logic(m, 0xF, value).regs[0xF] == 0,
{
}

/// The lit pixels of two runs add up.
proof fn lemma_lit_in_joined(a: Seq<bool>, b: Seq<bool>)
    ensures
        lit_in_row(a + b) == lit_in_row(a) + lit_in_row(b),
    decreases b.len(),
{
    if b.len() == 0 {
        assert(a + b =~= a);
    } else {
        lemma_lit_in_joined(a, b.drop_last());
        assert((a + b).drop_last() =~= a + b.drop_last());
    }
}

/// A run without a lit pixel counts 0.
proof fn lemma_lit_in_dark(row: Seq<bool>)
    requires
        forall|k: int| 0 <= k < row.len() ==> !row[k],
    ensures
        lit_in_row(row) == 0,
    decreases row.len(),
{
    if row.len() > 0 {
        lemma_lit_in_dark(row.drop_last());
    }
}

/// On a screen that is dark outside row `y`, the lit pixels are those of
/// row `y`.
proof fn lemma_lit_count_one_row(screen: Screen, y: int)
    requires
        forall|py: int| 0 <= py < screen.len() && py != y ==> lit_in_row(#[trigger] screen[py]) == 0,
    ensures
        lit_count(screen) == if 0 <= y < screen.len() {
            lit_in_row(screen[y])
        } else {
            0
        },
    decreases screen.len(),
{
    if screen.len() > 0 {
        let rest = screen.drop_last();
        assert forall|py: int| 0 <= py < rest.len() && py != y implies lit_in_row(
            #[trigger] rest[py],
        ) == 0 by {
            assert(rest[py] == screen[py]);
        }
        lemma_lit_count_one_row(rest, y);
        if 0 <= y < rest.len() {
            assert(rest[y] == screen[y]);
        }
    }
}

/// A row drawn on the blank screen, where all of its 8 pixels fall on the
/// screen, collides with nothing and lights exactly as many pixels as the
/// row has set bits.
pub proof fn law_draw_on_blank(x: int, y: int, row: u8, wrap: bool)
    requires
        0 <= x,
        x + 8 <= 64,
        0 <= y < 32,
    ensures
        !collides(blank_screen(), x, y, row, wrap),
        lit_count(drawn(blank_screen(), x, y, row, wrap)) == ones(row),
{
    let after = drawn(blank_screen(), x, y, row, wrap);
    let bits = Seq::new(8, |i: int| sprite_bit(row, i));
    let left = Seq::new(x as nat, |k: int| false);
    let right = Seq::new((56 - x) as nat, |k: int| false);
    assert forall|px: int, py: int| 0 <= px < 64 && 0 <= py < 32 implies after[py][px] == (py == y
        && x <= px < x + 8 && sprite_bit(row, px - x)) by {
        if touched(x, y, row, wrap, px, py) {
            lemma_touched_on_screen(x, y, row, wrap, px, py);
        }
        if py == y && x <= px < x + 8 && sprite_bit(row, px - x) {
            assert(landing(x, y, px - x, wrap) == Some((px, py)));
        }
    }
    assert forall|py: int| 0 <= py < after.len() && py != y implies lit_in_row(
        #[trigger] after[py],
    ) == 0 by {
        lemma_lit_in_dark(after[py]);
    }
    lemma_lit_count_one_row(after, y);
    assert(after[y] =~= left + bits + right);
    lemma_lit_in_joined(left + bits, right);
    lemma_lit_in_joined(left, bits);
    lemma_lit_in_dark(left);
    lemma_lit_in_dark(right);
}

/// Drawing a row turns on at least one pixel that was off.
pub open spec fn turns_on(screen: Screen, x: int, y: int, row: u8, wrap: bool) -> bool {
    exists|px: int, py: int|
        0 <= px < 64 && 0 <= py < 32 && !screen[py][px] && #[trigger] touched(
            x,
            y,
            row,
            wrap,
            px,
            py,
        )
}

/// Drawing the same row twice at the same place gives the screen back as
/// it was, and the second drawing collides exactly if the first turned a
/// pixel on.
pub proof fn law_draw_twice(screen: Screen, x: int, y: int, row: u8, wrap: bool)
    requires
        screen_wf(screen),
        0 <= x,
        0 <= y,
    ensures
        drawn(drawn(screen, x, y, row, wrap), x, y, row, wrap) == screen,
        collides(drawn(screen, x, y, row, wrap), x, y, row, wrap) == turns_on(
            screen,
            x,
            y,
            row,
            wrap,
        ),
{
    let once = drawn(screen, x, y, row, wrap);
    assert(drawn(once, x, y, row, wrap) =~~= screen);
    if collides(once, x, y, row, wrap) {
        let i = choose|i: int|
            0 <= i < 8 && sprite_bit(row, i) && match #[trigger] landing(x, y, i, wrap) {
                Some((tx, ty)) => once[ty][tx],
                None => false,
            };
        match landing(x, y, i, wrap) {
            Some((tx, ty)) => {
                assert(touched(x, y, row, wrap, tx, ty));
                lemma_touched_on_screen(x, y, row, wrap, tx, ty);
            },
            None => {},
        }
    }
    if turns_on(screen, x, y, row, wrap) {
        let (px, py) = choose|px: int, py: int|
            0 <= px < 64 && 0 <= py < 32 && !screen[py][px] && #[trigger] touched(
                x,
                y,
                row,
                wrap,
                px,
                py,
            );
        let i = choose|i: int|
            0 <= i < 8 && sprite_bit(row, i) && #[trigger] landing(x, y, i, wrap) == Some(
                (px, py),
            );
        assert(once[py][px]);
    }
}

/// A sprite is placed by Vx modulo 64 and Vy modulo 32, with or without
/// the `wrap` quirk: two machines that differ in Vx by a multiple of 64 and
/// in Vy by a multiple of 32 draw the same picture and report the same
/// collision.
pub proof fn law_draw_origin_is_reduced(a: Machine, b: Machine, x: int, y: int, n: int)
    requires
        machine_wf(a),
        machine_wf(b),
        0 <= x < 16,
        0 <= y < 16,
        a.screen == b.screen,
        a.ram == b.ram,
        a.i == b.i,
        a.config == b.config,
        a.regs[x] % 64 == b.regs[x] % 64,
        a.regs[y] % 32 == b.regs[y] % 32,
    ensures
        after_draw(a, x, y, n).screen == after_draw(b, x, y, n).screen,
        after_draw(a, x, y, n).regs[0xF] == after_draw(b, x, y, n).regs[0xF],
{
    assert(sprite_rows(a, n) =~= sprite_rows(b, n));
}

/// The three digits of a byte are decimal digits, and they are its value.
pub proof fn law_bcd_digits(value: u8)
    ensures
        bcd(value).len() == 3,
        forall|k: int| 0 <= k < 3 ==> 0 <= #[trigger] bcd(value)[k] <= 9,
        100 * bcd(value)[0] + 10 * bcd(value)[1] + bcd(value)[2] == value,
{
}

/// After V0 to Vx have been stored, memory from I on holds them. A load of
/// V0 to Vx from the same place, whatever has become of the registers and
/// of I in between, brings back what was stored.
pub proof fn law_store_then_load(m: Machine, x: int, later: Machine)
    requires
        machine_wf(m),
        0 <= x < 16,
        m.i + x < 4096,
        later.ram == after_write_regs_to_mem(m, x).ram,
        later.i == m.i,
    ensures
        forall|k: int|
            0 <= k <= x ==> #[trigger] after_write_regs_to_mem(m, x).ram[m.i + k] == m.regs[k],
        forall|k: int|
            0 <= k <= x ==> #[trigger] after_read_regs_from_mem(later, x).regs[k] == m.regs[k],
{
    assert forall|k: int| 0 <= k <= x implies #[trigger] after_read_regs_from_mem(
        later,
        x,
    ).regs[k] == m.regs[k] by {
        assert(later.ram[m.i + k] == m.regs[k]);
    }
}

/// A cycle on a wait-for-key instruction, Fx0A, never faults. Without the
/// release of a hex key among the waiting events it leaves the program
/// counter on the instruction and the processor as it was: registers,
/// memory, stack, I, timers and screen. With one, the program counter
/// moves on, Vx holds the key, and nothing else of the processor changes.
pub proof fn law_wait_key_idles(m: Machine, random: u8)
    requires
        machine_wf(m),
        m.pc + 1 < 4096,
        decoded(next_word(m)).parts.0 == 0xF,
        decoded(next_word(m)).parts.2 == 0x0,
        decoded(next_word(m)).parts.3 == 0xA,
    ensures
        step(m, random) is Ok,
        ({
            let next = step(m, random)->Ok_0;
            let x = decoded(next_word(m)).x as int;
            &&& next.ram == m.ram
            &&& next.stack == m.stack
            &&& next.sp == m.sp
            &&& next.i == m.i
            &&& next.delay == m.delay
            &&& next.sound == m.sound
            &&& next.screen == m.screen
            &&& match released_key(m.pending) {
                Some(key) => next.pc == m.pc + 2 && next.regs == m.regs.update(x, key)
                    && !next.waiting_key,
                None => next.pc == m.pc && next.regs == m.regs && next.waiting_key,
            }
        }),
{
}

/// A read of the keypad returns the first release of a hex key: where event
/// `m` is such a release and neither a quit nor another such release comes
/// before it, the read gives the key of event `m`, takes the events up to
/// and including it, leaves those after it on the queue, and sees no quit.
/// Keys that went down before it do not end the read.
pub proof fn law_first_release_is_read(events: Seq<HostEvent>, m: int)
    requires
        0 <= m < events.len(),
        events[m] is KeyUp,
        key_code(events[m]->KeyUp_0) is Some,
        forall|i: int| 0 <= i < m ==> !stops(#[trigger] events[i], true),
    ensures
        released_key(events) == key_code(events[m]->KeyUp_0),
        taken(events, true) == events.take(m + 1),
        left_over(events, true) == events.skip(m + 1),
        !quit_seen(events, true),
{
    lemma_first_stop(events, true);
}

/// Without the release of a hex key among the waiting events a read of the
/// keypad returns no key, whatever keys went down.
pub proof fn law_no_release_no_key(events: Seq<HostEvent>)
    requires
        forall|i: int|
            0 <= i < events.len() ==> !(#[trigger] events[i] is KeyUp && key_code(
                events[i]->KeyUp_0,
            ) is Some),
    ensures
        released_key(events) is None,
{
    lemma_first_stop(events, true);
}

/// A timer above 0 is less by exactly 1 after a frame, and a timer at 0
/// stays at 0: it never wraps around.
pub proof fn law_timers_count_down(m: Machine)
    ensures
        m.delay > 0 ==> ticked(m).delay == m.delay - 1,
        m.delay == 0 ==> ticked(m).delay == 0,
        m.sound > 0 ==> ticked(m).sound == m.sound - 1,
        m.sound == 0 ==> ticked(m).sound == 0,
        ticked(m).tone == (m.sound > 0),
{
}

/// Drawing the same sprite twice at the same place gives the screen back
/// as it was.
pub proof fn law_sprite_twice_restores(screen: Screen, x: int, y: int, rows: Seq<u8>, wrap: bool)
    requires
        screen_wf(screen),
    ensures
        sprite_drawn(sprite_drawn(screen, x, y, rows, wrap), x, y, rows, wrap) == screen,
{
    assert(sprite_drawn(sprite_drawn(screen, x, y, rows, wrap), x, y, rows, wrap) =~~= screen);
}

/// The screen is shown at the largest whole block size that fits the
/// window, and in its middle: the block size of `layout_for` fits, no larger
/// one does, and the margins on opposite sides differ by at most one window
/// pixel.
pub proof fn law_layout_is_largest_fit(window_width: u32, window_height: u32)
    ensures
        ({
            let layout = layout_for(window_width, window_height);
            let right = window_width - layout.start_x - 64 * layout.block;
            let bottom = window_height - layout.start_y - 32 * layout.block;
            &&& 64 * layout.block <= window_width
            &&& 32 * layout.block <= window_height
            &&& 64 * (layout.block + 1) > window_width || 32 * (layout.block + 1) > window_height
            &&& layout.start_x <= right <= layout.start_x + 1
            &&& layout.start_y <= bottom <= layout.start_y + 1
        }),
{
}

} // verus!
