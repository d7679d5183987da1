use chip8::config::Config;
use chip8::keypad::{HostEvent, HostKey, Keypad};

fn keypad_with(events: &[HostEvent]) -> Keypad {
    let mut keypad = Keypad::new();
    for event in events {
        keypad.push_event(*event);
    }
    keypad
}

fn held(keypad: &Keypad) -> Vec<u8> {
    (0..16).filter(|k| keypad.is_pressed(*k)).collect()
}

#[test]
fn host_keys_map_to_the_hex_pad() {
    let keypad = Keypad::new();
    let layout = [
        (HostKey::Num1, 0x1), (HostKey::Num2, 0x2), (HostKey::Num3, 0x3), (HostKey::Num4, 0xC),
        (HostKey::Q, 0x4), (HostKey::W, 0x5), (HostKey::E, 0x6), (HostKey::R, 0xD),
        (HostKey::A, 0x7), (HostKey::S, 0x8), (HostKey::D, 0x9), (HostKey::F, 0xE),
        (HostKey::Z, 0xA), (HostKey::X, 0x0), (HostKey::C, 0xB), (HostKey::V, 0xF),
    ];
    for (key, code) in layout {
        assert_eq!(keypad.keycode_to_u8(key), Some(code));
    }
    for key in [HostKey::Up, HostKey::Down, HostKey::Left, HostKey::Right, HostKey::Other] {
        assert_eq!(keypad.keycode_to_u8(key), None);
    }
}

#[test]
fn new_keypad_has_nothing_held() {
    let keypad = Keypad::new();
    assert!(held(&keypad).is_empty());
    assert_eq!(keypad.pending_events(), 0);
    assert!(!keypad.is_pressed(16));
    assert!(!keypad.is_pressed(255));
}

#[test]
fn key_down_holds_and_key_up_lets_go() {
    let mut keypad = Keypad::new();
    let mut config = Config::new();
    assert_eq!(keypad.key_pressed(HostKey::Q, &mut config), Some(0x4));
    assert_eq!(keypad.key_pressed(HostKey::V, &mut config), Some(0xF));
    assert_eq!(keypad.key_pressed(HostKey::X, &mut config), Some(0x0));
    assert_eq!(held(&keypad), vec![0x0, 0x4, 0xF]);
    assert_eq!(keypad.key_released(HostKey::Q), Some(0x4));
    assert_eq!(held(&keypad), vec![0x0, 0xF]);
    assert_eq!(keypad.key_released(HostKey::Q), Some(0x4));
    assert_eq!(keypad.key_released(HostKey::Other), None);
    assert_eq!(keypad.key_released(HostKey::Up), None);
    assert_eq!(held(&keypad), vec![0x0, 0xF]);
    assert_eq!(keypad.key_pressed(HostKey::Other, &mut config), None);
    assert_eq!(held(&keypad), vec![0x0, 0xF]);
    assert_eq!((config.rate, config.ipf), (60, 12));
}

#[test]
fn arrow_keys_tune_the_pace_and_hold_nothing() {
    let mut keypad = Keypad::new();
    let mut config = Config::new();
    assert_eq!(keypad.key_pressed(HostKey::Up, &mut config), None);
    assert_eq!((config.rate, config.ipf), (61, 12));
    assert_eq!(keypad.key_pressed(HostKey::Down, &mut config), None);
    assert_eq!(keypad.key_pressed(HostKey::Down, &mut config), None);
    assert_eq!((config.rate, config.ipf), (59, 12));
    assert_eq!(keypad.key_pressed(HostKey::Right, &mut config), None);
    assert_eq!((config.rate, config.ipf), (59, 13));
    assert_eq!(keypad.key_pressed(HostKey::Left, &mut config), None);
    assert_eq!(keypad.key_pressed(HostKey::Left, &mut config), None);
    assert_eq!((config.rate, config.ipf), (59, 11));
    assert!(held(&keypad).is_empty());
    assert!(config.vblank && config.logic && !config.shift);
}

#[test]
fn pace_never_drops_below_one() {
    let mut keypad = Keypad::new();
    let mut config = Config { rate: 2, ipf: 2, ..Config::new() };
    for _ in 0..5 {
        keypad.key_pressed(HostKey::Down, &mut config);
        keypad.key_pressed(HostKey::Left, &mut config);
    }
    assert_eq!((config.rate, config.ipf), (1, 1));
}

#[test]
fn lowering_a_knob_at_its_largest_value() {
    let mut keypad = Keypad::new();
    let mut config = Config { rate: u64::MAX, ipf: u64::MAX, ..Config::new() };
    assert_eq!(keypad.key_pressed(HostKey::Q, &mut config), Some(0x4));
    assert_eq!((config.rate, config.ipf), (u64::MAX, u64::MAX));
    assert_eq!(keypad.key_pressed(HostKey::Down, &mut config), None);
    assert_eq!((config.rate, config.ipf), (u64::MAX - 1, u64::MAX));
    assert_eq!(keypad.key_pressed(HostKey::Left, &mut config), None);
    assert_eq!((config.rate, config.ipf), (u64::MAX - 1, u64::MAX - 1));
    assert_eq!(keypad.key_pressed(HostKey::Up, &mut config), None);
    assert_eq!(keypad.key_pressed(HostKey::Right, &mut config), None);
    assert_eq!((config.rate, config.ipf), (u64::MAX, u64::MAX));

    keypad.push_event(HostEvent::KeyDown(HostKey::Down));
    keypad.push_event(HostEvent::KeyDown(HostKey::Up));
    keypad.push_event(HostEvent::KeyDown(HostKey::W));
    assert!(keypad.handle_events(&mut config));
    assert_eq!((config.rate, config.ipf), (u64::MAX, u64::MAX));
    assert!(keypad.is_pressed(0x5));
}

#[test]
fn handle_events_drains_the_queue() {
    let mut keypad = keypad_with(&[
        HostEvent::KeyDown(HostKey::A),
        HostEvent::Other,
        HostEvent::KeyDown(HostKey::S),
        HostEvent::KeyUp(HostKey::A),
        HostEvent::KeyDown(HostKey::Up),
        HostEvent::KeyUp(HostKey::Up),
        HostEvent::KeyDown(HostKey::Other),
    ]);
    let mut config = Config::new();
    assert_eq!(keypad.pending_events(), 7);
    assert!(keypad.handle_events(&mut config));
    assert_eq!(keypad.pending_events(), 0);
    assert_eq!(held(&keypad), vec![0x8]);
    assert_eq!((config.rate, config.ipf), (61, 12));
    assert!(keypad.handle_events(&mut config));
    assert_eq!(held(&keypad), vec![0x8]);
}

#[test]
fn handle_events_stops_at_a_quit() {
    let mut keypad = keypad_with(&[
        HostEvent::KeyDown(HostKey::A),
        HostEvent::Quit,
        HostEvent::KeyDown(HostKey::S),
    ]);
    let mut config = Config::new();
    assert!(!keypad.handle_events(&mut config));
    assert_eq!(held(&keypad), vec![0x7]);
    assert_eq!(keypad.pending_events(), 1);
    assert!(keypad.handle_events(&mut config));
    assert_eq!(held(&keypad), vec![0x7, 0x8]);
}

#[test]
fn block_read_returns_on_release_not_on_press() {
    let mut keypad = keypad_with(&[HostEvent::KeyDown(HostKey::W)]);
    let mut config = Config::new();
    let mut keep_running = true;
    assert_eq!(keypad.block_read(&mut keep_running, &mut config), None);
    assert!(keep_running);
    assert_eq!(held(&keypad), vec![0x5]);
    assert_eq!(keypad.block_read(&mut keep_running, &mut config), None);

    keypad.push_event(HostEvent::KeyUp(HostKey::W));
    keypad.push_event(HostEvent::KeyDown(HostKey::E));
    assert_eq!(keypad.block_read(&mut keep_running, &mut config), Some(0x5));
    assert!(keep_running);
    assert!(held(&keypad).is_empty());
    assert_eq!(keypad.pending_events(), 1);
    assert_eq!(keypad.block_read(&mut keep_running, &mut config), None);
    assert_eq!(held(&keypad), vec![0x6]);
}

#[test]
fn block_read_passes_over_releases_of_other_keys() {
    let mut keypad = keypad_with(&[
        HostEvent::KeyUp(HostKey::Other),
        HostEvent::KeyUp(HostKey::Left),
        HostEvent::KeyDown(HostKey::Right),
        HostEvent::Other,
        HostEvent::KeyUp(HostKey::X),
        HostEvent::KeyUp(HostKey::C),
    ]);
    let mut config = Config::new();
    let mut keep_running = true;
    assert_eq!(keypad.block_read(&mut keep_running, &mut config), Some(0x0));
    assert_eq!((config.rate, config.ipf), (60, 13));
    assert_eq!(keypad.pending_events(), 1);
    assert_eq!(keypad.block_read(&mut keep_running, &mut config), Some(0xB));
    assert_eq!(keypad.pending_events(), 0);
}

#[test]
fn block_read_gives_up_on_a_quit() {
    let mut keypad = keypad_with(&[
        HostEvent::KeyDown(HostKey::Z),
        HostEvent::Quit,
        HostEvent::KeyUp(HostKey::Z),
    ]);
    let mut config = Config::new();
    let mut keep_running = true;
    assert_eq!(keypad.block_read(&mut keep_running, &mut config), None);
    assert!(!keep_running);
    assert_eq!(held(&keypad), vec![0xA]);
    assert_eq!(keypad.pending_events(), 1);
    assert_eq!(keypad.block_read(&mut keep_running, &mut config), Some(0xA));
    assert!(!keep_running);
}
