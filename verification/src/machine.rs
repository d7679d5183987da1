//! The machine as a mathematical value, and what each instruction does to it.

use crate::config::{adjusted, Config};
use crate::display::{blank_screen, screen_wf, sprite_collides, sprite_drawn, Screen};
use crate::instruction::{decoded, Instruction};
use crate::keypad::{absorb_all, left_over, quit_seen, released_key, taken, Controls, HostEvent};
use vstd::prelude::*;

verus! {

/// The whole state of a machine.
pub struct Machine {
    pub config: Config,
    /// The processor sits on a wait-for-key instruction.
    pub waiting_key: bool,
    /// A sprite has been drawn since the frame began.
    pub drew_on_frame: bool,
    /// No quit has been seen yet.
    pub keep_running: bool,
    /// 4096 bytes of memory.
    pub ram: Seq<u8>,
    /// 16 return addresses.
    pub stack: Seq<u16>,
    /// The registers V0 to VF.
    pub regs: Seq<u8>,
    /// The address register I.
    pub i: int,
    /// The delay timer.
    pub delay: u8,
    /// The sound timer.
    pub sound: u8,
    /// The address of the next instruction.
    pub pc: int,
    /// The number of return addresses on the stack.
    pub sp: int,
    pub screen: Screen,
    /// Which of the 16 keys are held down.
    pub pressed: Seq<bool>,
    /// Host events that have arrived and not been looked at.
    pub pending: Seq<HostEvent>,
    /// The tone sounds.
    pub tone: bool,
}

/// Why a machine cannot go on.
#[derive(Clone, Copy, Debug, PartialEq, Eq, Structural)]
pub enum Fault {
    /// A return with no return address on the stack.
    StackUnderflow,
    /// A call with 16 return addresses on the stack.
    StackOverflow,
    /// An access beyond the end of memory, or an address that the address
    /// register cannot hold.
    MemoryOutOfRange,
}

/// The hex font: 16 glyphs of 5 rows each, for the digits 0 to F.
pub open spec fn font() -> Seq<u8> {
    seq![
        0xF0u8, 0x90u8, 0x90u8, 0x90u8, 0xF0u8,
        0x20u8, 0x60u8, 0x20u8, 0x20u8, 0x70u8,
        0xF0u8, 0x10u8, 0xF0u8, 0x80u8, 0xF0u8,
        0xF0u8, 0x10u8, 0xF0u8, 0x10u8, 0xF0u8,
        0x90u8, 0x90u8, 0xF0u8, 0x10u8, 0x10u8,
        0xF0u8, 0x80u8, 0xF0u8, 0x10u8, 0xF0u8,
        0xF0u8, 0x80u8, 0xF0u8, 0x90u8, 0xF0u8,
        0xF0u8, 0x10u8, 0x20u8, 0x40u8, 0x40u8,
        0xF0u8, 0x90u8, 0xF0u8, 0x90u8, 0xF0u8,
        0xF0u8, 0x90u8, 0xF0u8, 0x10u8, 0xF0u8,
        0xF0u8, 0x90u8, 0xF0u8, 0x90u8, 0x90u8,
        0xE0u8, 0x90u8, 0xE0u8, 0x90u8, 0xE0u8,
        0xF0u8, 0x80u8, 0x80u8, 0x80u8, 0xF0u8,
        0xE0u8, 0x90u8, 0x90u8, 0x90u8, 0xE0u8,
        0xF0u8, 0x80u8, 0xF0u8, 0x80u8, 0xF0u8,
        0xF0u8, 0x80u8, 0xF0u8, 0x80u8, 0x80u8,
    ]
}

/// Memory with the font at its start and nothing else in it.
pub open spec fn initial_ram() -> Seq<u8> {
    Seq::new(
        4096,
        |a: int|
            if a < 80 {
                font()[a]
            } else {
                0u8
            },
    )
}

/// The machine as it is switched on: the font in memory, the program
/// counter at 0x200, everything else zero, empty or off.
pub open spec fn initial_machine() -> Machine {
    Machine {
        config: Config::initial(),
        waiting_key: false,
        drew_on_frame: false,
        keep_running: true,
        ram: initial_ram(),
        stack: Seq::new(16, |k: int| 0u16),
        regs: Seq::new(16, |k: int| 0u8),
        i: 0,
        delay: 0,
        sound: 0,
        pc: 0x200,
        sp: 0,
        screen: blank_screen(),
        pressed: Seq::new(16, |k: int| false),
        pending: Seq::empty(),
        tone: false,
    }
}

/// The shape every machine has, and the bounds it keeps: at most 16 return
/// addresses, pacing knobs of at least 1, and pacing knobs that the waiting
/// events cannot drive past what they can hold.
pub open spec fn machine_wf(m: Machine) -> bool {
    &&& m.ram.len() == 4096
    &&& m.stack.len() == 16
    &&& m.regs.len() == 16
    &&& m.pressed.len() == 16
    &&& screen_wf(m.screen)
    &&& 0 <= m.i <= usize::MAX
    &&& 0 <= m.pc <= usize::MAX
    &&& 0 <= m.sp <= 16
    &&& m.config.wf()
    &&& m.config.has_room_for(m.pending.len())
}

/// The machine with register `x` set to `value`.
pub open spec fn with_reg(m: Machine, x: int, value: u8) -> Machine {
    Machine { regs: m.regs.update(x, value), ..m }
}

/// The machine with the flag register VF set to 1 or 0.
pub open spec fn with_flag(m: Machine, flag: bool) -> Machine {
    with_reg(m, 0xF, if flag { 1u8 } else { 0u8 })
}

/// The machine after it passed over the next instruction, if `skip` holds.
pub open spec fn skipped(m: Machine, skip: bool) -> Machine {
    Machine { pc: if skip { m.pc + 2 } else { m.pc }, ..m }
}

/// 00E0: every pixel off.
pub open spec fn after_cls(m: Machine) -> Machine {
    Machine { screen: blank_screen(), ..m }
}

/// 00EE: back to the address on top of the stack.
pub open spec fn after_ret(m: Machine) -> Machine {
    Machine { sp: m.sp - 1, pc: m.stack[m.sp - 1] as int, ..m }
}

/// 1nnn: on to `addr`.
pub open spec fn after_jump(m: Machine, addr: u16) -> Machine {
    Machine { pc: addr as int, ..m }
}

/// 2nnn: the address of the next instruction goes on the stack, then on
/// to `addr`.
pub open spec fn after_call(m: Machine, addr: u16) -> Machine {
    Machine { stack: m.stack.update(m.sp, m.pc as u16), sp: m.sp + 1, pc: addr as int, ..m }
}

/// 8xy1, 8xy2, 8xy3: Vx becomes `value`; under the `logic` quirk VF is
/// then cleared.
pub open spec fn after_logic(m: Machine, x: int, value: u8) -> Machine {
    let combined = with_reg(m, x, value);
    if m.config.logic {
        with_flag(combined, false)
    } else {
        combined
    }
}

/// 8xy4: Vx + Vy, the carry in VF.
pub open spec fn after_add_reg_reg(m: Machine, x: int, y: int) -> Machine {
    let sum = m.regs[x] + m.regs[y];
    with_flag(with_reg(m, x, (sum % 256) as u8), sum > 255)
}

/// 8xy5: Vx - Vy, VF set when nothing had to be borrowed.
pub open spec fn after_sub_reg_reg(m: Machine, x: int, y: int) -> Machine {
    with_flag(with_reg(m, x, ((m.regs[x] - m.regs[y]) % 256) as u8), m.regs[x] >= m.regs[y])
}

/// 8xy7: Vy - Vx, VF set when nothing had to be borrowed.
pub open spec fn after_subn_reg_reg(m: Machine, x: int, y: int) -> Machine {
    with_flag(with_reg(m, x, ((m.regs[y] - m.regs[x]) % 256) as u8), m.regs[y] >= m.regs[x])
}

/// The register that a shift reads: Vy, or under the `shift` quirk Vx.
pub open spec fn shift_source(m: Machine, x: int, y: int) -> int {
    if m.config.shift {
        x
    } else {
        y
    }
}

/// 8xy6: the source halved, the bit shifted out in VF.
pub open spec fn after_shift_right(m: Machine, x: int, y: int) -> Machine {
    let value = m.regs[shift_source(m, x, y)];
    with_flag(with_reg(m, x, (value / 2) as u8), value % 2 == 1)
}

/// 8xyE: the source doubled, the bit shifted out in VF.
pub open spec fn after_shift_left(m: Machine, x: int, y: int) -> Machine {
    let value = m.regs[shift_source(m, x, y)];
    with_flag(with_reg(m, x, (value * 2 % 256) as u8), value >= 128)
}

/// Annn: I becomes `addr`.
pub open spec fn after_load_to_i_reg(m: Machine, addr: u16) -> Machine {
    Machine { i: addr as int, ..m }
}

/// Bnnn: on to `addr` plus V0, or under the `jump` quirk plus Vx.
pub open spec fn after_jump_with_offset(m: Machine, x: int, addr: u16) -> Machine {
    let offset = m.regs[if m.config.jump { x } else { 0 }];
    Machine { pc: addr + offset, ..m }
}

/// The rows of an `n`-row sprite at I.
pub open spec fn sprite_rows(m: Machine, n: int) -> Seq<u8> {
    Seq::new(n as nat, |k: int| m.ram[m.i + k])
}

/// Dxyn: the sprite at I is XORed onto the screen with its top left corner
/// at column Vx mod 64, row Vy mod 32, whatever the `wrap` quirk says; VF
/// tells whether a lit pixel went out.
pub open spec fn after_draw(m: Machine, x: int, y: int, n: int) -> Machine {
    let left = m.regs[x] as int % 64;
    let top = m.regs[y] as int % 32;
    let rows = sprite_rows(m, n);
    with_flag(
        Machine {
            drew_on_frame: true,
            screen: sprite_drawn(m.screen, left, top, rows, m.config.wrap),
            ..m
        },
        sprite_collides(m.screen, left, top, rows, m.config.wrap),
    )
}

/// Whether the key named by `code` is held down. Codes above 15 name no key.
pub open spec fn key_down(m: Machine, code: u8) -> bool {
    code < 16 && m.pressed[code as int]
}

/// Fx0A: the waiting events are taken in up to the first release of a hex
/// key. With such a release, Vx becomes the key and the wait is over;
/// without, the program counter goes back to this instruction and nothing
/// else of the processor changes.
pub open spec fn after_wait_key(m: Machine, x: int) -> Machine {
    let controls = absorb_all(
        Controls { pressed: m.pressed, config: m.config },
        taken(m.pending, true),
    );
    let listened = Machine {
        pressed: controls.pressed,
        config: controls.config,
        pending: left_over(m.pending, true),
        keep_running: m.keep_running && !quit_seen(m.pending, true),
        ..m
    };
    match released_key(m.pending) {
        Some(key) => Machine { waiting_key: false, regs: m.regs.update(x, key), ..listened },
        None => Machine { waiting_key: true, pc: m.pc - 2, ..listened },
    }
}

/// Fx1E: I + Vx.
pub open spec fn after_add_to_i(m: Machine, x: int) -> Machine {
    Machine { i: m.i + m.regs[x], ..m }
}

/// Fx29: I becomes the address of the glyph for the low nibble of Vx.
pub open spec fn after_i_to_digit_sprite(m: Machine, x: int) -> Machine {
    Machine { i: 5 * (m.regs[x] % 16), ..m }
}

/// The decimal digits of a byte: hundreds, tens, ones.
pub open spec fn bcd(value: u8) -> Seq<u8> {
    seq![(value / 100) as u8, (value / 10 % 10) as u8, (value % 10) as u8]
}

/// Fx33: the three decimal digits of Vx go to memory at I.
pub open spec fn after_decimal_reg_to_memory(m: Machine, x: int) -> Machine {
    let digits = bcd(m.regs[x]);
    Machine {
        ram: m.ram.update(m.i, digits[0]).update(m.i + 1, digits[1]).update(m.i + 2, digits[2]),
        ..m
    }
}

/// I after a block transfer of V0 to Vx: untouched under
/// `memory_leave_i_unchanged`, else advanced by x under
/// `memory_increment_by_x` and by x + 1 without it.
pub open spec fn advanced_i(m: Machine, x: int) -> int {
    if m.config.memory_leave_i_unchanged {
        m.i
    } else if m.config.memory_increment_by_x {
        m.i + x
    } else {
        m.i + x + 1
    }
}

/// Fx55: V0 to Vx go to memory at I.
pub open spec fn after_write_regs_to_mem(m: Machine, x: int) -> Machine {
    Machine {
        ram: Seq::new(
            4096,
            |a: int|
                if m.i <= a <= m.i + x {
                    m.regs[a - m.i]
                } else {
                    m.ram[a]
                },
        ),
        i: advanced_i(m, x),
        ..m
    }
}

/// Fx65: V0 to Vx are read from memory at I.
pub open spec fn after_read_regs_from_mem(m: Machine, x: int) -> Machine {
    Machine {
        regs: Seq::new(
            16,
            |r: int|
                if r <= x {
                    m.ram[m.i + r]
                } else {
                    m.regs[r]
                },
        ),
        i: advanced_i(m, x),
        ..m
    }
}

/// The instruction word at the program counter, high byte first.
pub open spec fn next_word(m: Machine) -> u16 {
    (m.ram[m.pc] * 256 + m.ram[m.pc + 1]) as u16
}

/// The machine with the program counter past the instruction it points at.
pub open spec fn fetched(m: Machine) -> Machine {
    Machine { pc: m.pc + 2, ..m }
}

/// What keeps a fetched instruction from being carried out: a return from
/// an empty stack, a call onto a full one, an access beyond the end of
/// memory, or a sum that the address register cannot hold.
pub open spec fn fault_of(m: Machine, ins: Instruction) -> Option<Fault> {
    match ins.parts {
        (0x0, 0x0, 0xE, 0xE) => if m.sp == 0 {
            Some(Fault::StackUnderflow)
        } else {
            None
        },
        (0x2, _, _, _) => if m.sp == 16 {
            Some(Fault::StackOverflow)
        } else {
            None
        },
        (0xD, _, _, _) => if ins.n > 0 && m.i + ins.n > 4096 {
            Some(Fault::MemoryOutOfRange)
        } else {
            None
        },
        (0xF, _, 0x1, 0xE) => if m.i + m.regs[ins.x as int] > usize::MAX {
            Some(Fault::MemoryOutOfRange)
        } else {
            None
        },
        (0xF, _, 0x3, 0x3) => if m.i + 2 >= 4096 {
            Some(Fault::MemoryOutOfRange)
        } else {
            None
        },
        (0xF, _, 0x5, 0x5) | (0xF, _, 0x6, 0x5) => if m.i + ins.x >= 4096 {
            Some(Fault::MemoryOutOfRange)
        } else {
            None
        },
        _ => None,
    }
}

/// The machine after a fetched instruction has been carried out. `random`
/// is the byte that Cxkk draws. A word that is no instruction changes
/// nothing.
pub open spec fn executed(m: Machine, ins: Instruction, random: u8) -> Machine {
    let x = ins.x as int;
    let y = ins.y as int;
    match ins.parts {
        (0x0, 0x0, 0xE, 0x0) => after_cls(m),
        (0x0, 0x0, 0xE, 0xE) => after_ret(m),
        (0x1, _, _, _) => after_jump(m, ins.nnn),
        (0x2, _, _, _) => after_call(m, ins.nnn),
        (0x3, _, _, _) => skipped(m, m.regs[x] == ins.kk),
        (0x4, _, _, _) => skipped(m, m.regs[x] != ins.kk),
        (0x5, _, _, 0x0) => skipped(m, m.regs[x] == m.regs[y]),
        (0x6, _, _, _) => with_reg(m, x, ins.kk),
        (0x7, _, _, _) => with_reg(m, x, ((m.regs[x] + ins.kk) % 256) as u8),
        (0x8, _, _, 0x0) => with_reg(m, x, m.regs[y]),
        (0x8, _, _, 0x1) => after_logic(m, x, m.regs[x] | m.regs[y]),
        (0x8, _, _, 0x2) => after_logic(m, x, m.regs[x] & m.regs[y]),
        (0x8, _, _, 0x3) => after_logic(m, x, m.regs[x] ^ m.regs[y]),
        (0x8, _, _, 0x4) => after_add_reg_reg(m, x, y),
        (0x8, _, _, 0x5) => after_sub_reg_reg(m, x, y),
        (0x8, _, _, 0x6) => after_shift_right(m, x, y),
        (0x8, _, _, 0x7) => after_subn_reg_reg(m, x, y),
        (0x8, _, _, 0xE) => after_shift_left(m, x, y),
        (0x9, _, _, 0x0) => skipped(m, m.regs[x] != m.regs[y]),
        (0xA, _, _, _) => after_load_to_i_reg(m, ins.nnn),
        (0xB, _, _, _) => after_jump_with_offset(m, x, ins.nnn),
        (0xC, _, _, _) => with_reg(m, x, random & ins.kk),
        (0xD, _, _, _) => after_draw(m, x, y, ins.n as int),
        (0xE, _, 0x9, 0xE) => skipped(m, key_down(m, m.regs[x])),
        (0xE, _, 0xA, 0x1) => skipped(m, !key_down(m, m.regs[x])),
        (0xF, _, 0x0, 0x7) => with_reg(m, x, m.delay),
        (0xF, _, 0x0, 0xA) => after_wait_key(m, x),
        (0xF, _, 0x1, 0x5) => Machine { delay: m.regs[x], ..m },
        (0xF, _, 0x1, 0x8) => Machine { sound: m.regs[x], ..m },
        (0xF, _, 0x1, 0xE) => after_add_to_i(m, x),
        (0xF, _, 0x2, 0x9) => after_i_to_digit_sprite(m, x),
        (0xF, _, 0x3, 0x3) => after_decimal_reg_to_memory(m, x),
        (0xF, _, 0x5, 0x5) => after_write_regs_to_mem(m, x),
        (0xF, _, 0x6, 0x5) => after_read_regs_from_mem(m, x),
        _ => m,
    }
}

/// One cycle of the processor: fetch the word at the program counter, move
/// the program counter past it, and carry the instruction out. `random` is
/// the byte that Cxkk draws.
pub open spec fn step(m: Machine, random: u8) -> Result<Machine, Fault> {
    if m.pc + 1 >= 4096 {
        Err(Fault::MemoryOutOfRange)
    } else {
        let ins = decoded(next_word(m));
        match fault_of(fetched(m), ins) {
            Some(fault) => Err(fault),
            None => Ok(executed(fetched(m), ins, random)),
        }
    }
}

/// `outcome` and `after` are what one cycle with the random byte `random`
/// makes of `before`: on a fault the machine is left as it was.
pub open spec fn stepped(
    before: Machine,
    random: u8,
    outcome: Result<(), Fault>,
    after: Machine,
) -> bool {
    match step(before, random) {
        Ok(next) => outcome is Ok && after == next,
        Err(fault) => outcome == Err::<(), Fault>(fault) && after == before,
    }
}

/// The machine after it has taken in the waiting host events, up to the
/// first quit. While the processor sits on a wait-for-key instruction the
/// events are left for that instruction.
pub open spec fn listened(m: Machine) -> Machine {
    if m.waiting_key {
        m
    } else {
        let controls = absorb_all(
            Controls { pressed: m.pressed, config: m.config },
            taken(m.pending, false),
        );
        Machine {
            pressed: controls.pressed,
            config: controls.config,
            pending: left_over(m.pending, false),
            keep_running: !quit_seen(m.pending, false),
            ..m
        }
    }
}

/// A timer after one frame: one less while it is above 0, never below 0.
pub open spec fn counted_down(timer: u8) -> u8 {
    if timer > 0 {
        (timer - 1) as u8
    } else {
        0
    }
}

/// The machine after the timers have counted one frame. The tone sounds
/// through a frame that began with the sound timer above 0.
pub open spec fn ticked(m: Machine) -> Machine {
    Machine {
        tone: m.sound > 0,
        sound: counted_down(m.sound),
        delay: counted_down(m.delay),
        ..m
    }
}

/// Whether the cycles of a frame end with the one that led to `m`: under
/// the `vblank` quirk they do once a sprite has been drawn in the frame.
pub open spec fn ends_frame(m: Machine) -> bool {
    m.config.vblank && m.drew_on_frame
}

/// Up to `budget` cycles, one after the other and each with some random
/// byte, can take the machine `m` to `end`, stopping there on `fault` or,
/// where that is `None`, because the frame is over.
pub open spec fn cycles_lead(m: Machine, budget: nat, end: Machine, fault: Option<Fault>) -> bool
    decreases budget,
{
    if budget == 0 {
        end == m && fault is None
    } else {
        exists|random: u8|
            match #[trigger] step(m, random) {
                Err(failed) => end == m && fault == Some(failed),
                Ok(next) => if ends_frame(next) {
                    end == next && fault is None
                } else {
                    cycles_lead(next, (budget - 1) as nat, end, fault)
                },
            }
    }
}

/// The pause after a frame, in milliseconds.
pub open spec fn frame_pause(m: Machine) -> u64 {
    (1000int / (m.config.rate as int)) as u64
}

/// `outcome` and `after` are what one frame can make of `before`: the
/// events are taken in, the timers count, then come as many cycles as the
/// settings give a frame. A frame that ends without a fault forgets that a
/// sprite was drawn and asks for its pause; one that ends on a fault leaves
/// the machine at the instruction that could not be carried out.
pub open spec fn framed(before: Machine, outcome: Result<u64, Fault>, after: Machine) -> bool {
    let begun = ticked(listened(before));
    match outcome {
        Err(fault) => cycles_lead(begun, begun.config.ipf as nat, after, Some(fault)),
        Ok(pause) => exists|ran: Machine|
            {
                &&& #[trigger] cycles_lead(begun, begun.config.ipf as nat, ran, None)
                &&& after == (Machine { drew_on_frame: false, ..ran })
                &&& pause == frame_pause(ran)
            },
    }
}

/// The machine with a program image in memory from address 0x200 on, and
/// with the quirks of `platform`, the platform that the quirk database
/// names for the image, if it names one.
pub open spec fn loaded(m: Machine, rom: Seq<u8>, platform: Option<Seq<char>>) -> Machine {
    Machine {
        ram: Seq::new(
            4096,
            |a: int|
                if 0x200 <= a < 0x200 + rom.len() {
                    rom[a - 0x200]
                } else {
                    m.ram[a]
                },
        ),
        config: adjusted(m.config, platform),
        ..m
    }
}

} // verus!
