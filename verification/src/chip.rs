//! The processor: registers, memory, stack, and the fetch, decode and
//! execute cycle.

use crate::config::{platform_of, text_view, Config};
use crate::display::{
    lemma_sprite_by_rows, lemma_sprite_without_rows, screen_wf, sprite_collides, sprite_drawn,
    Display,
};
use crate::instruction::{decoded, Instruction};
use crate::keypad::{
    lemma_absorb_all_keeps, lemma_first_stop, lemma_room_suffices, taken, Controls, HostEvent,
    Keypad,
};
use crate::machine::{
    after_add_reg_reg, after_add_to_i, after_call, after_cls, after_decimal_reg_to_memory,
    after_draw, after_i_to_digit_sprite, after_jump, after_jump_with_offset, after_load_to_i_reg,
    after_logic, after_read_regs_from_mem, after_ret, after_shift_left, after_shift_right,
    after_sub_reg_reg, after_subn_reg_reg, after_wait_key, after_write_regs_to_mem, cycles_lead,
    ends_frame, fault_of, fetched, font, framed, initial_machine, key_down, listened, loaded,
    machine_wf, next_word, skipped, sprite_rows, step, stepped, ticked, with_reg, Fault, Machine,
};
use crate::random::{random_byte, thread_generator};
use crate::speaker::Speaker;
use rand::rngs::ThreadRng;
use vstd::prelude::*;

verus! {

/// A CHIP-8 machine.
pub struct Chip {
    config: Config,
    waiting_key: bool,
    drew_on_frame: bool,
    rng: ThreadRng,
    keep_running: bool,
    ram: [u8; 4096],
    stack: [u16; 16],
    regs: [u8; 16],
    i_reg: usize,
    delay_reg: u8,
    sound_reg: u8,
    pc_reg: usize,
    sp_reg: usize,
    display: Display,
    keypad: Keypad,
    speaker: Speaker,
}

impl View for Chip {
    type V = Machine;

    closed spec fn view(&self) -> Machine {
        Machine {
            config: self.config,
            waiting_key: self.waiting_key,
            drew_on_frame: self.drew_on_frame,
            keep_running: self.keep_running,
            ram: self.ram@,
            stack: self.stack@,
            regs: self.regs@,
            i: self.i_reg as int,
            delay: self.delay_reg,
            sound: self.sound_reg,
            pc: self.pc_reg as int,
            sp: self.sp_reg as int,
            screen: self.display@,
            pressed: self.keypad@.pressed,
            pending: self.keypad@.pending,
            tone: self.speaker.playing(),
        }
    }
}

impl Chip {
    pub const RAM_SIZE: usize = 4096;

    pub const STACK_SIZE: usize = 16;

    pub const GENERAL_REGISTERS: usize = 16;

    pub const PROGRAM_START: usize = 512;

    pub const BYTES_PER_SPRITE: u8 = 5;

    /// The machine keeps the bounds of `machine_wf`.
    pub open spec fn wf(&self) -> bool {
        machine_wf(self@)
    }

    /// A machine as it is switched on.
    pub fn new() -> (chip: Chip)
        ensures
            chip@ == initial_machine(),
            chip.wf(),
    {
        let mut chip = Chip {
            config: Config::new(),
            waiting_key: false,
            drew_on_frame: false,
            keep_running: true,
            rng: thread_generator(),
            ram: [0u8;4096],
            stack: [0u16;16],
            regs: [0u8;16],
            i_reg: 0,
            delay_reg: 0,
            sound_reg: 0,
            pc_reg: Chip::PROGRAM_START,
            sp_reg: 0,
            display: Display::new(),
            keypad: Keypad::new(),
            speaker: Speaker::new(),
        };
        let sprites: [u8; 80] = [
            0xF0, 0x90, 0x90, 0x90, 0xF0,
            0x20, 0x60, 0x20, 0x20, 0x70,
            0xF0, 0x10, 0xF0, 0x80, 0xF0,
            0xF0, 0x10, 0xF0, 0x10, 0xF0,
            0x90, 0x90, 0xF0, 0x10, 0x10,
            0xF0, 0x80, 0xF0, 0x10, 0xF0,
            0xF0, 0x80, 0xF0, 0x90, 0xF0,
            0xF0, 0x10, 0x20, 0x40, 0x40,
            0xF0, 0x90, 0xF0, 0x90, 0xF0,
            0xF0, 0x90, 0xF0, 0x10, 0xF0,
            0xF0, 0x90, 0xF0, 0x90, 0x90,
            0xE0, 0x90, 0xE0, 0x90, 0xE0,
            0xF0, 0x80, 0x80, 0x80, 0xF0,
            0xE0, 0x90, 0x90, 0x90, 0xE0,
            0xF0, 0x80, 0xF0, 0x80, 0xF0,
            0xF0, 0x80, 0xF0, 0x80, 0x80,
        ];
        assert(sprites@ =~= font());
        let ghost blank = chip@;
        let mut a: usize = 0;
        while a < 80
            invariant
                a <= 80,
                sprites@ == font(),
                chip@ == (Machine { ram: chip.ram@, ..blank }),
                forall|k: int| 0 <= k < a ==> chip.ram@[k] == font()[k],
                forall|k: int| a <= k < 4096 ==> chip.ram@[k] == 0,
            decreases 80 - a,
        {
            chip.ram[a] = sprites[a];
            a += 1;
        }
        proof {
            chip.display.lemma_view_wf();
            assert(chip.ram@ =~= initial_machine().ram);
            assert(chip.stack@ =~= initial_machine().stack);
            assert(chip.regs@ =~= initial_machine().regs);
        }
        chip
    }

    /// Copies a program image into memory from address 0x200 on and takes
    /// on the quirks of the platform that the quirk database names for it.
    /// The two texts are the database as the host read it. An image has at
    /// most 4096 - 512 bytes.
    pub fn load(&mut self, rom: &Vec<u8>, hashes_json: Option<&str>, programs_json: Option<&str>)
        requires
            old(self).wf(),
            rom@.len() <= 4096 - 512,
        ensures
            final(self)@ == loaded(
                old(self)@,
                rom@,
                platform_of(rom@, text_view(hashes_json), text_view(programs_json)),
            ),
            final(self).wf(),
    {
        let mut k: usize = 0;
        while k < rom.len()
            invariant
                k <= rom@.len() <= 4096 - 512,
                self@ == (Machine { ram: self.ram@, ..old(self)@ }),
                forall|a: int|
                    0 <= a < 4096 ==> self.ram@[a] == if 0x200 <= a < 0x200 + k {
                        rom@[a - 0x200]
                    } else {
                        old(self)@.ram[a]
                    },
            decreases rom.len() - k,
        {
            self.ram[Chip::PROGRAM_START + k] = rom[k];
            k += 1;
        }
        self.config.adjust_to_rom(rom, hashes_json, programs_json);
        proof {
            assert(self.ram@ =~= loaded(
                old(self)@,
                rom@,
                platform_of(rom@, text_view(hashes_json), text_view(programs_json)),
            ).ram);
        }
    }

    /// Runs the machine for one frame: takes in the host events, lets the
    /// timers count, and runs the cycles of the frame, as many as the
    /// settings say or, under the `vblank` quirk, up to the first that has
    /// drawn. Returns the pause in milliseconds that the host is to keep
    /// before the next frame, or the fault that ended the frame. The host
    /// calls it frame after frame for as long as `is_running` holds, and
    /// between two calls hands over the events that arrived, shows the
    /// screen and switches the tone.
    pub fn run(&mut self) -> (outcome: Result<u64, Fault>)
        requires
            old(self).wf(),
        ensures
            framed(old(self)@, outcome, final(self)@),
            final(self).wf(),
    {
        self.listen();
        self.tick_timers();
        let ghost begun = self@;
        let ipf = self.config.ipf;
        let mut k: u64 = 0;
        let mut over = false;
        while k < ipf && !over
            invariant
                k <= ipf,
                self.wf(),
                begun == ticked(listened(old(self)@)),
                ipf == begun.config.ipf,
                !over ==> forall|end: Machine, fault: Option<Fault>| #[trigger]
                    cycles_lead(self@, (ipf - k) as nat, end, fault) ==> cycles_lead(
                        begun,
                        ipf as nat,
                        end,
                        fault,
                    ),
                over ==> cycles_lead(begun, ipf as nat, self@, None),
            decreases ipf - k + (if over { 0int } else { 1int }),
        {
            let ghost before = self@;
            let (outcome, Ghost(random)) = self.cycle(None);
            match outcome {
                Err(fault) => {
                    proof {
                        lemma_cycle_fails(before, (ipf - k) as nat, random, fault);
                    }
                    return Err(fault);
                },
                Ok(()) => {},
            }
            if self.config.vblank && self.drew_on_frame {
                proof {
                    lemma_cycle_ends_frame(before, (ipf - k) as nat, random, self@);
                }
                over = true;
            } else {
                k += 1;
                proof {
                    assert forall|end: Machine, fault: Option<Fault>| #[trigger]
                        cycles_lead(self@, (ipf - k) as nat, end, fault) implies cycles_lead(
                        begun,
                        ipf as nat,
                        end,
                        fault,
                    ) by {
                        lemma_cycle_goes_on(
                            before,
                            (ipf - k + 1) as nat,
                            random,
                            self@,
                            end,
                            fault,
                        );
                        assert(cycles_lead(before, (ipf - (k - 1)) as nat, end, fault));
                    }
                }
            }
        }
        let ghost ran = self@;
        self.drew_on_frame = false;
        let pause = 1000 / self.config.rate;
        proof {
            if !over {
                assert(cycles_lead(ran, (ipf - k) as nat, ran, None));
            }
            assert(cycles_lead(begun, ipf as nat, ran, None));
        }
        Ok(pause)
    }

    /// Takes in the host events that wait, unless the processor sits on a
    /// wait-for-key instruction, which then takes them itself.
    pub fn listen(&mut self)
        requires
            old(self).wf(),
        ensures
            final(self)@ == listened(old(self)@),
            final(self).wf(),
    {
        if !self.waiting_key {
            let ghost controls = Controls { pressed: self@.pressed, config: self@.config };
            proof {
                lemma_first_stop(self@.pending, false);
                lemma_room_suffices(controls, taken(self@.pending, false));
            }
            self.keep_running = self.keypad.handle_events(&mut self.config);
            proof {
                lemma_absorb_all_keeps(controls, taken(old(self)@.pending, false));
                self.keypad.lemma_view_wf();
            }
        }
    }

    /// Lets both timers count one frame and switches the tone: on for a
    /// frame that begins with the sound timer above 0, off for any other.
    pub fn tick_timers(&mut self)
        requires
            old(self).wf(),
        ensures
            final(self)@ == ticked(old(self)@),
            final(self).wf(),
    {
        if self.sound_reg > 0 {
            self.speaker.start();
            self.sound_reg -= 1;
        } else {
            self.speaker.stop();
        }
        if self.delay_reg > 0 {
            self.delay_reg -= 1;
        }
    }

    /// One cycle of the processor: fetches the instruction at the program
    /// counter and carries it out. A word that is no instruction does
    /// nothing. On a fault the machine is left as it was. The byte that
    /// Cxkk draws comes from the random generator.
    pub fn update(&mut self) -> (outcome: Result<(), Fault>)
        requires
            old(self).wf(),
        ensures
            exists|random: u8| stepped(old(self)@, random, outcome, final(self)@),
            final(self).wf(),
    {
        let (outcome, Ghost(random)) = self.cycle(None);
        assert(stepped(old(self)@, random, outcome, self@));
        outcome
    }

    /// One cycle of the processor, as `update`, with `random` for the byte
    /// that Cxkk draws.
    pub fn step_with(&mut self, random: u8) -> (outcome: Result<(), Fault>)
        requires
            old(self).wf(),
        ensures
            stepped(old(self)@, random, outcome, final(self)@),
            final(self).wf(),
    {
        let (outcome, Ghost(drawn_byte)) = self.cycle(Some(random));
        outcome
    }

    /// One cycle, with the byte that Cxkk draws given, or drawn from the
    /// generator where it is not.
    fn cycle(&mut self, pinned: Option<u8>) -> (outcome: (Result<(), Fault>, Ghost<u8>))
        requires
            old(self).wf(),
        ensures
            stepped(old(self)@, outcome.1@, outcome.0, final(self)@),
            pinned matches Some(random) ==> outcome.1@ == random,
            final(self).wf(),
    {
        let ghost mut drawn_byte: u8 = match pinned {
            Some(random) => random,
            None => 0u8,
        };
        if self.pc_reg >= Chip::RAM_SIZE - 1 {
            return (Err(Fault::MemoryOutOfRange), Ghost(drawn_byte));
        }
        let instruction = self.fetch_and_decode();
        if let Some(fault) = self.fault(&instruction) {
            self.pc_reg -= 2;
            return (Err(fault), Ghost(drawn_byte));
        }
        match instruction.parts {
            (0x0, 0x0, 0xE, 0x0) => self.cls(),
            (0x0, 0x0, 0xE, 0xE) => self.ret(),
            (0x1, _, _, _) => self.jump(instruction.nnn),
            (0x2, _, _, _) => self.call(instruction.nnn),
            (0x3, _, _, _) => self.skip_if_equal_byte(instruction.x, instruction.kk),
            (0x4, _, _, _) => self.skip_if_not_equal_byte(instruction.x, instruction.kk),
            (0x5, _, _, 0x0) => self.skip_if_equal_registers(instruction.x, instruction.y),
            (0x6, _, _, _) => self.load_byte_to_reg(instruction.x, instruction.kk),
            (0x7, _, _, _) => self.add_byte_to_reg(instruction.x, instruction.kk),
            (0x8, _, _, 0x0) => self.load_reg_to_reg(instruction.x, instruction.y),
            (0x8, _, _, 0x1) => self.or_reg_reg(instruction.x, instruction.y),
            (0x8, _, _, 0x2) => self.and_reg_reg(instruction.x, instruction.y),
            (0x8, _, _, 0x3) => self.xor_reg_reg(instruction.x, instruction.y),
            (0x8, _, _, 0x4) => self.add_reg_reg(instruction.x, instruction.y),
            (0x8, _, _, 0x5) => self.sub_reg_reg(instruction.x, instruction.y),
            (0x8, _, _, 0x6) => self.shift_right(instruction.x, instruction.y),
            (0x8, _, _, 0x7) => self.subn_reg_reg(instruction.x, instruction.y),
            (0x8, _, _, 0xE) => self.shift_left(instruction.x, instruction.y),
            (0x9, _, _, 0x0) => self.skip_if_not_equal_registers(instruction.x, instruction.y),
            (0xA, _, _, _) => self.load_to_i_reg(instruction.nnn),
            (0xB, _, _, _) => self.jump_with_offset(instruction.x, instruction.nnn),
            (0xC, _, _, _) => {
                let random = match pinned {
                    Some(random) => random,
                    None => random_byte(&mut self.rng),
                };
                proof {
                    drawn_byte = random;
                }
                self.rand_with(instruction.x, instruction.kk, random)
            },
            (0xD, _, _, _) => self.draw(instruction.x, instruction.y, instruction.n),
            (0xE, _, 0x9, 0xE) => self.skip_if_key(instruction.x),
            (0xE, _, 0xA, 0x1) => self.skip_if_not_key(instruction.x),
            (0xF, _, 0x0, 0x7) => self.set_reg_from_delay_timer(instruction.x),
            (0xF, _, 0x0, 0xA) => self.wait_key(instruction.x),
            (0xF, _, 0x1, 0x5) => self.set_delay_timer_from_reg(instruction.x),
            (0xF, _, 0x1, 0x8) => self.set_sound_timer_from_reg(instruction.x),
            (0xF, _, 0x1, 0xE) => self.add_to_i(instruction.x),
            (0xF, _, 0x2, 0x9) => self.i_to_digit_sprite(instruction.x),
            (0xF, _, 0x3, 0x3) => self.decimal_reg_to_memory(instruction.x),
            (0xF, _, 0x5, 0x5) => self.write_regs_to_mem(instruction.x),
            (0xF, _, 0x6, 0x5) => self.read_regs_from_mem(instruction.x),
            _ => {},
        }
        (Ok(()), Ghost(drawn_byte))
    }

    /// Reads the instruction at the program counter and moves the program
    /// counter past it.
    pub fn fetch_and_decode(&mut self) -> (instruction: Instruction)
        requires
            old(self).wf(),
            old(self)@.pc + 1 < 4096,
        ensures
            instruction == decoded(next_word(old(self)@)),
            final(self)@ == fetched(old(self)@),
            final(self).wf(),
    {
        let high = self.ram[self.pc_reg];
        let low = self.ram[self.pc_reg + 1];
        let raw_instruction = ((high as u16) << 8) | (low as u16);
        assert(((high as u16) << 8) | (low as u16) == high * 256 + low) by (bit_vector);
        self.pc_reg += 2;
        Instruction::new(raw_instruction)
    }

    /// What keeps the fetched instruction from being carried out, if
    /// anything does.
    fn fault(&self, instruction: &Instruction) -> (fault: Option<Fault>)
        requires
            self.wf(),
            instruction.x < 16,
        ensures
            fault == fault_of(self@, *instruction),
    {
        let x = instruction.x as usize;
        let out_of_range = match instruction.parts {
            (0x0, 0x0, 0xE, 0xE) => {
                if self.sp_reg == 0 {
                    return Some(Fault::StackUnderflow);
                }
                false
            },
            (0x2, _, _, _) => {
                if self.sp_reg == Chip::STACK_SIZE {
                    return Some(Fault::StackOverflow);
                }
                false
            },
            (0xD, _, _, _) => instruction.n > 0 && (self.i_reg > Chip::RAM_SIZE
                || instruction.n as usize > Chip::RAM_SIZE - self.i_reg),
            (0xF, _, 0x1, 0xE) => self.regs[x] as usize > usize::MAX - self.i_reg,
            (0xF, _, 0x3, 0x3) => self.i_reg >= Chip::RAM_SIZE - 2,
            (0xF, _, 0x5, 0x5) | (0xF, _, 0x6, 0x5) => self.i_reg >= Chip::RAM_SIZE - x,
            _ => false,
        };
        if out_of_range {
            Some(Fault::MemoryOutOfRange)
        } else {
            None
        }
    }

    /// 00E0: clears the screen.
    pub fn cls(&mut self)
        requires
            old(self).wf(),
        ensures
            final(self)@ == after_cls(old(self)@),
            final(self).wf(),
    {
        self.display.clear();
    }

    /// 00EE: returns from a subroutine.
    pub fn ret(&mut self)
        requires
            old(self).wf(),
            old(self)@.sp > 0,
        ensures
            final(self)@ == after_ret(old(self)@),
            final(self).wf(),
    {
        self.sp_reg -= 1;
        self.pc_reg = self.stack[self.sp_reg] as usize;
    }

    /// 1nnn: jumps to `addr`.
    pub fn jump(&mut self, addr: u16)
        requires
            old(self).wf(),
        ensures
            final(self)@ == after_jump(old(self)@, addr),
            final(self).wf(),
    {
        self.pc_reg = addr as usize;
    }

    /// 2nnn: calls the subroutine at `addr`. The return address has to fit
    /// a stack slot.
    pub fn call(&mut self, addr: u16)
        requires
            old(self).wf(),
            old(self)@.sp < 16,
            old(self)@.pc <= u16::MAX,
        ensures
            final(self)@ == after_call(old(self)@, addr),
            final(self).wf(),
    {
        self.stack[self.sp_reg] = self.pc_reg as u16;
        self.sp_reg += 1;
        self.pc_reg = addr as usize;
    }

    /// 3xkk: skips the next instruction if Vx is `kk`.
    pub fn skip_if_equal_byte(&mut self, x: u8, kk: u8)
        requires
            old(self).wf(),
            x < 16,
            old(self)@.pc + 2 <= usize::MAX,
        ensures
            final(self)@ == skipped(old(self)@, old(self)@.regs[x as int] == kk),
            final(self).wf(),
    {
        if self.regs[x as usize] == kk {
            self.pc_reg += 2;
        }
    }

    /// 4xkk: skips the next instruction if Vx is not `kk`.
    pub fn skip_if_not_equal_byte(&mut self, x: u8, kk: u8)
        requires
            old(self).wf(),
            x < 16,
            old(self)@.pc + 2 <= usize::MAX,
        ensures
            final(self)@ == skipped(old(self)@, old(self)@.regs[x as int] != kk),
            final(self).wf(),
    {
        if self.regs[x as usize] != kk {
            self.pc_reg += 2;
        }
    }

    /// 5xy0: skips the next instruction if Vx and Vy are equal.
    pub fn skip_if_equal_registers(&mut self, x: u8, y: u8)
        requires
            old(self).wf(),
            x < 16,
            y < 16,
            old(self)@.pc + 2 <= usize::MAX,
        ensures
            final(self)@ == skipped(
                old(self)@,
                old(self)@.regs[x as int] == old(self)@.regs[y as int],
            ),
            final(self).wf(),
    {
        if self.regs[x as usize] == self.regs[y as usize] {
            self.pc_reg += 2;
        }
    }

    /// 6xkk: sets Vx to `kk`.
    pub fn load_byte_to_reg(&mut self, x: u8, kk: u8)
        requires
            old(self).wf(),
            x < 16,
        ensures
            final(self)@ == with_reg(old(self)@, x as int, kk),
            final(self).wf(),
    {
        self.regs[x as usize] = kk;
    }

    /// 7xkk: adds `kk` to Vx, modulo 256. VF is left alone.
    pub fn add_byte_to_reg(&mut self, x: u8, kk: u8)
        requires
            old(self).wf(),
            x < 16,
        ensures
            final(self)@ == with_reg(
                old(self)@,
                x as int,
                ((old(self)@.regs[x as int] + kk) % 256) as u8,
            ),
            final(self).wf(),
    {
        self.regs[x as usize] = self.regs[x as usize].wrapping_add(kk);
    }

    /// 8xy0: sets Vx to Vy.
    pub fn load_reg_to_reg(&mut self, x: u8, y: u8)
        requires
            old(self).wf(),
            x < 16,
            y < 16,
        ensures
            final(self)@ == with_reg(old(self)@, x as int, old(self)@.regs[y as int]),
            final(self).wf(),
    {
        self.regs[x as usize] = self.regs[y as usize];
    }

    /// 8xy1: sets Vx to Vx OR Vy.
    pub fn or_reg_reg(&mut self, x: u8, y: u8)
        requires
            old(self).wf(),
            x < 16,
            y < 16,
        ensures
            final(self)@ == after_logic(
                old(self)@,
                x as int,
                old(self)@.regs[x as int] | old(self)@.regs[y as int],
            ),
            final(self).wf(),
    {
        self.regs[x as usize] |= self.regs[y as usize];
        if self.config.logic {
            self.regs[0xF] = 0;
        }
    }

    /// 8xy2: sets Vx to Vx AND Vy.
    pub fn and_reg_reg(&mut self, x: u8, y: u8)
        requires
            old(self).wf(),
            x < 16,
            y < 16,
        ensures
            final(self)@ == after_logic(
                old(self)@,
                x as int,
                old(self)@.regs[x as int] & old(self)@.regs[y as int],
            ),
            final(self).wf(),
    {
        self.regs[x as usize] &= self.regs[y as usize];
        if self.config.logic {
            self.regs[0xF] = 0;
        }
    }

    /// 8xy3: sets Vx to Vx XOR Vy.
    pub fn xor_reg_reg(&mut self, x: u8, y: u8)
        requires
            old(self).wf(),
            x < 16,
            y < 16,
        ensures
            final(self)@ == after_logic(
                old(self)@,
                x as int,
                old(self)@.regs[x as int] ^ old(self)@.regs[y as int],
            ),
            final(self).wf(),
    {
        self.regs[x as usize] ^= self.regs[y as usize];
        if self.config.logic {
            self.regs[0xF] = 0;
        }
    }

    /// 8xy4: adds Vy to Vx, modulo 256, and sets VF to the carry.
    pub fn add_reg_reg(&mut self, x: u8, y: u8)
        requires
            old(self).wf(),
            x < 16,
            y < 16,
        ensures
            final(self)@ == after_add_reg_reg(old(self)@, x as int, y as int),
            final(self).wf(),
    {
        let vx = self.regs[x as usize];
        let vy = self.regs[y as usize];
        let overflow = vy > u8::MAX - vx;
        self.regs[x as usize] = vx.wrapping_add(vy);
        self.regs[0xF] = if overflow { 1 } else { 0 };
    }

    /// 8xy5: subtracts Vy from Vx, modulo 256, and sets VF to 1 if Vx was
    /// at least Vy, to 0 otherwise.
    pub fn sub_reg_reg(&mut self, x: u8, y: u8)
        requires
            old(self).wf(),
            x < 16,
            y < 16,
        ensures
            final(self)@ == after_sub_reg_reg(old(self)@, x as int, y as int),
            final(self).wf(),
    {
        let vx = self.regs[x as usize];
        let vy = self.regs[y as usize];
        let overflow = vx < vy;
        self.regs[x as usize] = vx.wrapping_sub(vy);
        self.regs[0xF] = if overflow { 0 } else { 1 };
    }

    /// 8xy6: sets Vx to the source shifted right by one, and VF to the bit
    /// shifted out. The source is Vy, or under the `shift` quirk Vx.
    pub fn shift_right(&mut self, x: u8, y: u8)
        requires
            old(self).wf(),
            x < 16,
            y < 16,
        ensures
            final(self)@ == after_shift_right(old(self)@, x as int, y as int),
            final(self).wf(),
    {
        let source = if self.config.shift { x } else { y };
        let value = self.regs[source as usize];
        let lsb = value & 0x1;
        assert(value & 0x1 == value % 2 && value >> 1 == value / 2) by (bit_vector);
        self.regs[x as usize] = value >> 1;
        self.regs[0xF] = lsb;
    }

    /// 8xy7: sets Vx to Vy minus Vx, modulo 256, and VF to 1 if Vy was at
    /// least Vx, to 0 otherwise.
    pub fn subn_reg_reg(&mut self, x: u8, y: u8)
        requires
            old(self).wf(),
            x < 16,
            y < 16,
        ensures
            final(self)@ == after_subn_reg_reg(old(self)@, x as int, y as int),
            final(self).wf(),
    {
        let vx = self.regs[x as usize];
        let vy = self.regs[y as usize];
        let overflow = vy < vx;
        self.regs[x as usize] = vy.wrapping_sub(vx);
        self.regs[0xF] = if overflow { 0 } else { 1 };
    }

    /// 8xyE: sets Vx to the source shifted left by one, and VF to the bit
    /// shifted out. The source is Vy, or under the `shift` quirk Vx.
    pub fn shift_left(&mut self, x: u8, y: u8)
        requires
            old(self).wf(),
            x < 16,
            y < 16,
        ensures
            final(self)@ == after_shift_left(old(self)@, x as int, y as int),
            final(self).wf(),
    {
        let source = if self.config.shift { x } else { y };
        let value = self.regs[source as usize];
        let msb = value >> 7;
        assert(value >> 7 == value / 128 && value << 1 == value * 2 % 256) by (bit_vector);
        self.regs[x as usize] = value << 1;
        self.regs[0xF] = msb;
    }

    /// 9xy0: skips the next instruction if Vx and Vy differ.
    pub fn skip_if_not_equal_registers(&mut self, x: u8, y: u8)
        requires
            old(self).wf(),
            x < 16,
            y < 16,
            old(self)@.pc + 2 <= usize::MAX,
        ensures
            final(self)@ == skipped(
                old(self)@,
                old(self)@.regs[x as int] != old(self)@.regs[y as int],
            ),
            final(self).wf(),
    {
        if self.regs[x as usize] != self.regs[y as usize] {
            self.pc_reg += 2;
        }
    }

    /// Annn: sets I to `addr`.
    pub fn load_to_i_reg(&mut self, addr: u16)
        requires
            old(self).wf(),
        ensures
            final(self)@ == after_load_to_i_reg(old(self)@, addr),
            final(self).wf(),
    {
        self.i_reg = addr as usize;
    }

    /// Bnnn: jumps to `addr` plus V0, or under the `jump` quirk plus Vx.
    pub fn jump_with_offset(&mut self, x: u8, addr: u16)
        requires
            old(self).wf(),
            x < 16,
        ensures
            final(self)@ == after_jump_with_offset(old(self)@, x as int, addr),
            final(self).wf(),
    {
        let source = if self.config.jump { x } else { 0 };
        self.pc_reg = addr as usize + self.regs[source as usize] as usize;
    }

    /// Cxkk: sets Vx to a random byte AND `kk`.
    pub fn rand(&mut self, x: u8, kk: u8)
        requires
            old(self).wf(),
            x < 16,
        ensures
            exists|random: u8| final(self)@ == with_reg(old(self)@, x as int, random & kk),
            final(self).wf(),
    {
        let random = random_byte(&mut self.rng);
        self.rand_with(x, kk, random);
    }

    /// Cxkk with the random byte given: sets Vx to `random` AND `kk`.
    pub fn rand_with(&mut self, x: u8, kk: u8, random: u8)
        requires
            old(self).wf(),
            x < 16,
        ensures
            final(self)@ == with_reg(old(self)@, x as int, random & kk),
            final(self).wf(),
    {
        self.regs[x as usize] = random & kk;
    }

    /// Dxyn: draws the `n`-row sprite at I with its top left corner at
    /// column Vx mod 64, row Vy mod 32, and sets VF to 1 if a lit pixel went
    /// out, to 0 otherwise.
    pub fn draw(&mut self, x: u8, y: u8, n: u8)
        requires
            old(self).wf(),
            x < 16,
            y < 16,
            n < 16,
            n == 0 || old(self)@.i + n <= 4096,
        ensures
            final(self)@ == after_draw(old(self)@, x as int, y as int, n as int),
            final(self)@.screen == sprite_drawn(
                old(self)@.screen,
                old(self)@.regs[x as int] as int % 64,
                old(self)@.regs[y as int] as int % 32,
                sprite_rows(old(self)@, n as int),
                old(self)@.config.wrap,
            ),
            final(self).wf(),
    {
        self.drew_on_frame = true;
        let mut collision: u8 = 0;
        let dx = self.regs[x as usize] as usize % Display::WIDTH;
        let dy = self.regs[y as usize] as usize % Display::HEIGHT;
        let ghost rows = sprite_rows(old(self)@, n as int);
        let ghost screen = old(self)@.screen;
        let ghost wrap = self.config.wrap;
        proof {
            old(self).display.lemma_view_wf();
            lemma_sprite_without_rows(screen, dx as int, dy as int, wrap);
            assert(rows.take(0) =~= Seq::<u8>::empty());
        }
        let mut i: u8 = 0;
        while i < n
            invariant
                i <= n < 16,
                dx < 64,
                dy < 32,
                screen_wf(screen),
                screen == old(self)@.screen,
                rows == sprite_rows(old(self)@, n as int),
                wrap == old(self)@.config.wrap,
                n == 0 || old(self)@.i + n <= 4096,
                collision == 0 || collision == 1,
                (collision == 1) == sprite_collides(
                    screen,
                    dx as int,
                    dy as int,
                    rows.take(i as int),
                    wrap,
                ),
                self@ == (Machine {
                    drew_on_frame: true,
                    screen: sprite_drawn(screen, dx as int, dy as int, rows.take(i as int), wrap),
                    ..old(self)@
                }),
            decreases n - i,
        {
            proof {
                let upto = rows.take(i + 1);
                assert(upto.drop_last() =~= rows.take(i as int));
                assert(upto.last() == self.ram@[self.i_reg + i]);
                lemma_sprite_by_rows(screen, dx as int, dy as int, upto, wrap);
            }
            if self.display.draw(
                dx as u8,
                dy as u8 + i,
                self.ram[self.i_reg + i as usize],
                self.config.wrap,
            ) {
                collision = 1;
            }
            i += 1;
        }
        proof {
            assert(rows.take(n as int) =~= rows);
        }
        self.regs[0xF] = collision;
    }

    /// Ex9E: skips the next instruction if the key named by Vx is held down.
    pub fn skip_if_key(&mut self, x: u8)
        requires
            old(self).wf(),
            x < 16,
            old(self)@.pc + 2 <= usize::MAX,
        ensures
            final(self)@ == skipped(old(self)@, key_down(old(self)@, old(self)@.regs[x as int])),
            final(self).wf(),
    {
        if self.keypad.is_pressed(self.regs[x as usize]) {
            self.pc_reg += 2;
        }
    }

    /// ExA1: skips the next instruction if the key named by Vx is not held
    /// down.
    pub fn skip_if_not_key(&mut self, x: u8)
        requires
            old(self).wf(),
            x < 16,
            old(self)@.pc + 2 <= usize::MAX,
        ensures
            final(self)@ == skipped(old(self)@, !key_down(old(self)@, old(self)@.regs[x as int])),
            final(self).wf(),
    {
        if !self.keypad.is_pressed(self.regs[x as usize]) {
            self.pc_reg += 2;
        }
    }

    /// Fx07: sets Vx to the delay timer.
    pub fn set_reg_from_delay_timer(&mut self, x: u8)
        requires
            old(self).wf(),
            x < 16,
        ensures
            final(self)@ == with_reg(old(self)@, x as int, old(self)@.delay),
            final(self).wf(),
    {
        self.regs[x as usize] = self.delay_reg;
    }

    /// Fx0A: waits for a key. The waiting events are taken in up to the
    /// first release of a hex key; with one, Vx becomes that key, without
    /// one the program counter steps back onto this instruction.
    pub fn wait_key(&mut self, x: u8)
        requires
            old(self).wf(),
            x < 16,
            old(self)@.pc >= 2,
        ensures
            final(self)@ == after_wait_key(old(self)@, x as int),
            final(self).wf(),
    {
        let ghost controls = Controls { pressed: self@.pressed, config: self@.config };
        proof {
            lemma_first_stop(self@.pending, true);
            lemma_room_suffices(controls, taken(self@.pending, true));
        }
        self.waiting_key = true;
        if let Some(key) = self.keypad.block_read(&mut self.keep_running, &mut self.config) {
            self.regs[x as usize] = key;
            self.waiting_key = false;
        } else {
            self.pc_reg -= 2;
        }
        proof {
            lemma_absorb_all_keeps(controls, taken(old(self)@.pending, true));
            self.keypad.lemma_view_wf();
        }
    }

    /// Fx15: sets the delay timer to Vx.
    pub fn set_delay_timer_from_reg(&mut self, x: u8)
        requires
            old(self).wf(),
            x < 16,
        ensures
            final(self)@ == (Machine { delay: old(self)@.regs[x as int], ..old(self)@ }),
            final(self).wf(),
    {
        self.delay_reg = self.regs[x as usize];
    }

    /// Fx18: sets the sound timer to Vx.
    pub fn set_sound_timer_from_reg(&mut self, x: u8)
        requires
            old(self).wf(),
            x < 16,
        ensures
            final(self)@ == (Machine { sound: old(self)@.regs[x as int], ..old(self)@ }),
            final(self).wf(),
    {
        self.sound_reg = self.regs[x as usize];
    }

    /// Fx1E: adds Vx to I. The sum has to fit the address register.
    pub fn add_to_i(&mut self, x: u8)
        requires
            old(self).wf(),
            x < 16,
            old(self)@.i + old(self)@.regs[x as int] <= usize::MAX,
        ensures
            final(self)@ == after_add_to_i(old(self)@, x as int),
            final(self).wf(),
    {
        self.i_reg += self.regs[x as usize] as usize;
    }

    /// Fx29: points I at the glyph for the low nibble of Vx.
    pub fn i_to_digit_sprite(&mut self, x: u8)
        requires
            old(self).wf(),
            x < 16,
        ensures
            final(self)@ == after_i_to_digit_sprite(old(self)@, x as int),
            final(self).wf(),
    {
        let value = self.regs[x as usize];
        let digit = value & 0x0F;
        assert(value & 0x0F == value % 16) by (bit_vector);
        let glyph_rows = Chip::BYTES_PER_SPRITE as usize;
        assert(glyph_rows * digit == 5 * digit) by (nonlinear_arith)
            requires
                glyph_rows == 5,
        ;
        self.i_reg = glyph_rows * digit as usize;
    }

    /// Fx33: writes the three decimal digits of Vx to memory at I, I + 1
    /// and I + 2.
    pub fn decimal_reg_to_memory(&mut self, x: u8)
        requires
            old(self).wf(),
            x < 16,
            old(self)@.i + 2 < 4096,
        ensures
            final(self)@ == after_decimal_reg_to_memory(old(self)@, x as int),
            final(self).wf(),
    {
        let value = self.regs[x as usize];
        self.ram[self.i_reg] = value / 100;
        self.ram[self.i_reg + 1] = (value / 10) % 10;
        self.ram[self.i_reg + 2] = value % 10;
    }

    /// Fx55: stores V0 to Vx in memory at I, then moves I as the quirks say.
    pub fn write_regs_to_mem(&mut self, x: u8)
        requires
            old(self).wf(),
            x < 16,
            old(self)@.i + x < 4096,
        ensures
            final(self)@ == after_write_regs_to_mem(old(self)@, x as int),
            final(self).wf(),
    {
        let mut r: u8 = 0;
        while r <= x
            invariant
                r <= x + 1,
                x < 16,
                self.i_reg + x < 4096,
                self@ == (Machine { ram: self.ram@, ..old(self)@ }),
                forall|a: int|
                    0 <= a < 4096 ==> self.ram@[a] == if old(self)@.i <= a < old(self)@.i + r {
                        old(self)@.regs[a - old(self)@.i]
                    } else {
                        old(self)@.ram[a]
                    },
            decreases x + 1 - r,
        {
            self.ram[self.i_reg + r as usize] = self.regs[r as usize];
            r += 1;
        }
        proof {
            assert(self.ram@ =~= after_write_regs_to_mem(old(self)@, x as int).ram);
        }
        if self.config.memory_leave_i_unchanged {
            return ;
        }
        self.i_reg += x as usize;
        if !self.config.memory_increment_by_x {
            self.i_reg += 1;
        }
    }

    /// Fx65: loads V0 to Vx from memory at I, then moves I as the quirks say.
    pub fn read_regs_from_mem(&mut self, x: u8)
        requires
            old(self).wf(),
            x < 16,
            old(self)@.i + x < 4096,
        ensures
            final(self)@ == after_read_regs_from_mem(old(self)@, x as int),
            final(self).wf(),
    {
        let mut r: u8 = 0;
        while r <= x
            invariant
                r <= x + 1,
                x < 16,
                self.i_reg + x < 4096,
                self@ == (Machine { regs: self.regs@, ..old(self)@ }),
                forall|k: int|
                    0 <= k < 16 ==> self.regs@[k] == if k < r {
                        old(self)@.ram[old(self)@.i + k]
                    } else {
                        old(self)@.regs[k]
                    },
            decreases x + 1 - r,
        {
            self.regs[r as usize] = self.ram[self.i_reg + r as usize];
            r += 1;
        }
        proof {
            assert(self.regs@ =~= after_read_regs_from_mem(old(self)@, x as int).regs);
        }
        if self.config.memory_leave_i_unchanged {
            return ;
        }
        self.i_reg += x as usize;
        if !self.config.memory_increment_by_x {
            self.i_reg += 1;
        }
    }

    /// Whether the queue has room for one more event: the arrow keys among
    /// the waiting events must not drive a pacing knob past what it holds.
    pub fn can_accept_event(&self) -> (room: bool)
        requires
            self.wf(),
        ensures
            room == self@.config.has_room_for(self@.pending.len() + 1),
    {
        let waiting = self.keypad.pending_events() as u64;
        waiting < u64::MAX - self.config.rate && waiting < u64::MAX - self.config.ipf
    }

    /// Puts an event that the host delivered at the end of the queue.
    pub fn push_event(&mut self, event: HostEvent)
        requires
            old(self).wf(),
            old(self)@.config.has_room_for(old(self)@.pending.len() + 1),
        ensures
            final(self)@ == (Machine { pending: old(self)@.pending.push(event), ..old(self)@ }),
            final(self).wf(),
    {
        self.keypad.push_event(event);
    }

    /// Whether no quit has been seen yet.
    pub fn is_running(&self) -> (running: bool)
        ensures
            running == self@.keep_running,
    {
        self.keep_running
    }

    /// Whether the processor sits on a wait-for-key instruction.
    pub fn is_waiting_key(&self) -> (waiting: bool)
        ensures
            waiting == self@.waiting_key,
    {
        self.waiting_key
    }

    /// The settings.
    pub fn config(&self) -> (config: &Config)
        ensures
            *config == self@.config,
    {
        &self.config
    }

    /// Replaces the settings.
    pub fn set_config(&mut self, config: Config)
        requires
            old(self).wf(),
            config.wf(),
            config.has_room_for(old(self)@.pending.len()),
        ensures
            final(self)@ == (Machine { config, ..old(self)@ }),
            final(self).wf(),
    {
        self.config = config;
    }

    /// The framebuffer.
    pub fn display(&self) -> (display: &Display)
        ensures
            display@ == self@.screen,
    {
        &self.display
    }

    /// The keypad.
    pub fn keypad(&self) -> (keypad: &Keypad)
        ensures
            keypad@.pressed == self@.pressed,
            keypad@.pending == self@.pending,
    {
        &self.keypad
    }

    /// The tone generator.
    pub fn speaker(&self) -> (speaker: &Speaker)
        ensures
            speaker.playing() == self@.tone,
    {
        &self.speaker
    }

    /// Register Vx.
    pub fn reg(&self, x: u8) -> (value: u8)
        requires
            x < 16,
        ensures
            value == self@.regs[x as int],
    {
        self.regs[x as usize]
    }

    /// Sets register Vx.
    pub fn set_reg(&mut self, x: u8, value: u8)
        requires
            old(self).wf(),
            x < 16,
        ensures
            final(self)@ == with_reg(old(self)@, x as int, value),
            final(self).wf(),
    {
        self.regs[x as usize] = value;
    }

    /// The address register I.
    pub fn i(&self) -> (addr: usize)
        ensures
            addr == self@.i,
    {
        self.i_reg
    }

    /// Sets the address register I.
    pub fn set_i(&mut self, addr: usize)
        requires
            old(self).wf(),
        ensures
            final(self)@ == (Machine { i: addr as int, ..old(self)@ }),
            final(self).wf(),
    {
        self.i_reg = addr;
    }

    /// The program counter.
    pub fn pc(&self) -> (addr: usize)
        ensures
            addr == self@.pc,
    {
        self.pc_reg
    }

    /// The number of return addresses on the stack.
    pub fn sp(&self) -> (depth: usize)
        ensures
            depth == self@.sp,
    {
        self.sp_reg
    }

    /// Slot `k` of the stack.
    pub fn stack_at(&self, k: usize) -> (addr: u16)
        requires
            k < 16,
        ensures
            addr == self@.stack[k as int],
    {
        self.stack[k]
    }

    /// The byte of memory at `addr`.
    pub fn ram_at(&self, addr: usize) -> (byte: u8)
        requires
            addr < 4096,
        ensures
            byte == self@.ram[addr as int],
    {
        self.ram[addr]
    }

    /// The delay timer.
    pub fn delay_timer(&self) -> (value: u8)
        ensures
            value == self@.delay,
    {
        self.delay_reg
    }

    /// The sound timer.
    pub fn sound_timer(&self) -> (value: u8)
        ensures
            value == self@.sound,
    {
        self.sound_reg
    }
}

/// A cycle that faults ends the cycles where they stand.
proof fn lemma_cycle_fails(m: Machine, budget: nat, random: u8, fault: Fault)
    requires
        budget > 0,
        step(m, random) == Err::<Machine, Fault>(fault),
    ensures
        cycles_lead(m, budget, m, Some(fault)),
{
}

/// A cycle after which the frame is over ends the cycles with its result.
proof fn lemma_cycle_ends_frame(m: Machine, budget: nat, random: u8, next: Machine)
    requires
        budget > 0,
        step(m, random) == Ok::<Machine, Fault>(next),
        ends_frame(next),
    ensures
        cycles_lead(m, budget, next, None),
{
}

/// After a cycle that neither faults nor ends the frame, the cycles go on
/// with one less to come.
proof fn lemma_cycle_goes_on(
    m: Machine,
    budget: nat,
    random: u8,
    next: Machine,
    end: Machine,
    fault: Option<Fault>,
)
    requires
        budget > 0,
        step(m, random) == Ok::<Machine, Fault>(next),
        !ends_frame(next),
        cycles_lead(next, (budget - 1) as nat, end, fault),
    ensures
        cycles_lead(m, budget, end, fault),
{
}

} // verus!
