use chip8::chip::Chip;
use chip8::config::Config;
use chip8::keypad::{HostEvent, HostKey};
use chip8::machine::Fault;
use chip8::speaker::Speaker;

fn program(words: &[u16]) -> Vec<u8> {
    let mut rom = Vec::new();
    for word in words {
        rom.push((word >> 8) as u8);
        rom.push((word & 0xFF) as u8);
    }
    rom
}

fn chip_with(words: &[u16]) -> Chip {
    let mut chip = Chip::new();
    chip.load(&program(words), None, None);
    chip
}

#[test]
fn speaker_starts_silent_and_follows_its_switch() {
    let mut speaker = Speaker::new();
    assert!(!speaker.is_playing());
    speaker.start();
    assert!(speaker.is_playing());
    speaker.start();
    assert!(speaker.is_playing());
    speaker.stop();
    assert!(!speaker.is_playing());
}

#[test]
fn timers_count_down_by_one_per_frame() {
    let mut chip = chip_with(&[0x6005, 0x6102, 0xF015, 0xF118]);
    for _ in 0..4 {
        assert_eq!(chip.step_with(0), Ok(()));
    }
    assert_eq!((chip.delay_timer(), chip.sound_timer()), (5, 2));
    assert!(!chip.speaker().is_playing());

    assert_eq!(chip.run(), Ok(16));
    assert_eq!((chip.delay_timer(), chip.sound_timer()), (4, 1));
    assert!(chip.speaker().is_playing());

    assert_eq!(chip.run(), Ok(16));
    assert_eq!((chip.delay_timer(), chip.sound_timer()), (3, 0));
    assert!(chip.speaker().is_playing());

    assert_eq!(chip.run(), Ok(16));
    assert_eq!((chip.delay_timer(), chip.sound_timer()), (2, 0));
    assert!(!chip.speaker().is_playing());

    for _ in 0..5 {
        assert_eq!(chip.run(), Ok(16));
    }
    assert_eq!((chip.delay_timer(), chip.sound_timer()), (0, 0));
}

#[test]
fn tick_never_wraps_a_timer() {
    let mut chip = Chip::new();
    chip.tick_timers();
    assert_eq!((chip.delay_timer(), chip.sound_timer()), (0, 0));
    assert!(!chip.speaker().is_playing());
    chip.set_reg(0, 255);
    chip.set_delay_timer_from_reg(0);
    chip.set_reg(0, 1);
    chip.set_sound_timer_from_reg(0);
    chip.tick_timers();
    assert_eq!((chip.delay_timer(), chip.sound_timer()), (254, 0));
    assert!(chip.speaker().is_playing());
    chip.tick_timers();
    assert_eq!((chip.delay_timer(), chip.sound_timer()), (253, 0));
    assert!(!chip.speaker().is_playing());
}

#[test]
fn frame_runs_ipf_instructions() {
    let mut chip = Chip::new();
    assert_eq!(chip.run(), Ok(16));
    assert_eq!(chip.pc(), 0x200 + 2 * 12);

    let mut chip = Chip::new();
    chip.set_config(Config { ipf: 3, rate: 7, ..Config::new() });
    assert_eq!(chip.run(), Ok(142));
    assert_eq!(chip.pc(), 0x206);

    let mut chip = Chip::new();
    chip.set_config(Config { rate: 1001, ..Config::new() });
    assert_eq!(chip.run(), Ok(0));
    chip.set_config(Config { rate: 1, ..Config::new() });
    assert_eq!(chip.run(), Ok(1000));
}

#[test]
fn vblank_ends_the_frame_after_a_draw() {
    let mut chip = chip_with(&[0x6001, 0xD001, 0x6102, 0xD001, 0x6203]);
    assert_eq!(chip.run(), Ok(16));
    assert_eq!(chip.pc(), 0x204);
    assert_eq!(chip.reg(1), 0);
    assert_eq!(chip.run(), Ok(16));
    assert_eq!(chip.pc(), 0x208);
    assert_eq!(chip.reg(1), 2);
    assert_eq!(chip.reg(2), 0);
    assert_eq!(chip.run(), Ok(16));
    assert_eq!(chip.pc(), 0x208 + 24);
    assert_eq!(chip.reg(2), 3);

    let mut chip = chip_with(&[0x6001, 0xD001, 0x6102, 0xD001, 0x6203]);
    chip.set_config(Config { vblank: false, ..Config::new() });
    assert_eq!(chip.run(), Ok(16));
    assert_eq!(chip.pc(), 0x200 + 24);
    assert_eq!(chip.reg(2), 3);
}

#[test]
fn frame_takes_in_the_host_events() {
    let mut chip = Chip::new();
    assert!(chip.can_accept_event());
    chip.push_event(HostEvent::KeyDown(HostKey::Q));
    chip.push_event(HostEvent::KeyDown(HostKey::Right));
    assert_eq!(chip.keypad().pending_events(), 2);
    assert_eq!(chip.run(), Ok(16));
    assert_eq!(chip.keypad().pending_events(), 0);
    assert!(chip.keypad().is_pressed(0x4));
    assert_eq!(chip.config().ipf, 13);
    assert_eq!(chip.pc(), 0x200 + 2 * 13);
    assert!(chip.is_running());
}

#[test]
fn quit_stops_the_machine_after_the_frame() {
    let mut chip = Chip::new();
    chip.push_event(HostEvent::Quit);
    assert_eq!(chip.run(), Ok(16));
    assert!(!chip.is_running());
    assert_eq!(chip.pc(), 0x200 + 24);
}

#[test]
fn skip_instructions_see_the_held_keys() {
    let mut chip = chip_with(&[0xE09E, 0x0000, 0xE0A1, 0xE19E, 0xE1A1]);
    chip.set_reg(0, 0x7);
    chip.set_reg(1, 0x1F);
    chip.push_event(HostEvent::KeyDown(HostKey::A));
    chip.listen();
    assert_eq!(chip.step_with(0), Ok(()));
    assert_eq!(chip.pc(), 0x204);
    assert_eq!(chip.step_with(0), Ok(()));
    assert_eq!(chip.pc(), 0x206);
    assert_eq!(chip.step_with(0), Ok(()));
    assert_eq!(chip.pc(), 0x208);
    assert_eq!(chip.step_with(0), Ok(()));
    assert_eq!(chip.pc(), 0x20C);
}

#[test]
fn wait_key_idles_until_a_release() {
    let mut chip = chip_with(&[0xF30A, 0x6105]);
    chip.set_reg(3, 0xEE);
    for _ in 0..3 {
        assert_eq!(chip.step_with(0), Ok(()));
        assert_eq!(chip.pc(), 0x200);
        assert!(chip.is_waiting_key());
        assert_eq!(chip.reg(3), 0xEE);
    }
    chip.push_event(HostEvent::KeyDown(HostKey::W));
    assert_eq!(chip.update(), Ok(()));
    assert_eq!(chip.pc(), 0x200);
    assert!(chip.is_waiting_key());
    assert!(chip.keypad().is_pressed(0x5));
    assert_eq!(chip.reg(3), 0xEE);
    for x in 0..16 {
        if x != 3 {
            assert_eq!(chip.reg(x), 0);
        }
    }
    chip.push_event(HostEvent::KeyUp(HostKey::W));
    assert_eq!(chip.update(), Ok(()));
    assert_eq!(chip.pc(), 0x202);
    assert!(!chip.is_waiting_key());
    assert!(!chip.keypad().is_pressed(0x5));
    assert_eq!(chip.reg(3), 0x5);
    assert_eq!(chip.step_with(0), Ok(()));
    assert_eq!(chip.reg(1), 5);
}

#[test]
fn wait_key_spans_frames() {
    let mut chip = chip_with(&[0xF30A, 0x6105]);
    assert_eq!(chip.run(), Ok(16));
    assert_eq!(chip.pc(), 0x200);
    assert!(chip.is_waiting_key());
    chip.push_event(HostEvent::KeyDown(HostKey::V));
    chip.push_event(HostEvent::KeyUp(HostKey::V));
    assert_eq!(chip.run(), Ok(16));
    assert_eq!(chip.reg(3), 0xF);
    assert_eq!(chip.reg(1), 5);
    assert_eq!(chip.pc(), 0x200 + 2 * 12);
    assert!(!chip.is_waiting_key());
    assert!(chip.is_running());
}

#[test]
fn quit_while_waiting_for_a_key() {
    let mut chip = chip_with(&[0xF30A]);
    assert_eq!(chip.run(), Ok(16));
    chip.push_event(HostEvent::Quit);
    assert_eq!(chip.run(), Ok(16));
    assert!(!chip.is_running());
    assert_eq!(chip.pc(), 0x200);
}

#[test]
fn fault_ends_the_frame() {
    let mut chip = chip_with(&[0x6009, 0xF015, 0x00EE]);
    assert_eq!(chip.run(), Err(Fault::StackUnderflow));
    assert_eq!(chip.pc(), 0x204);
    assert_eq!(chip.delay_timer(), 9);

    let mut chip = chip_with(&[0x2200]);
    chip.set_config(Config { ipf: 16, ..Config::new() });
    assert_eq!(chip.run(), Ok(16));
    assert_eq!(chip.sp(), 16);
    assert_eq!(chip.run(), Err(Fault::StackOverflow));

    let mut chip = chip_with(&[0x1FFF]);
    assert_eq!(chip.run(), Err(Fault::MemoryOutOfRange));
    assert_eq!(chip.pc(), 0xFFF);
}
