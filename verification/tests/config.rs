use chip8::chip::Chip;
use chip8::config::Config;
use chip8::digest::{hex_digit, to_hex};
use chip8::json::{lookup_index, lookup_platform};

fn quirks(config: &Config) -> (bool, bool, bool, bool, bool, bool, bool) {
    (
        config.shift,
        config.memory_increment_by_x,
        config.memory_leave_i_unchanged,
        config.wrap,
        config.jump,
        config.vblank,
        config.logic,
    )
}

fn hashes_for(rom: &Vec<u8>, index: usize) -> String {
    format!("{{\"0000\": 7, \"{}\": {}}}", Config::new().get_sha1(rom), index)
}

fn programs_for(rom: &Vec<u8>, platforms: &str) -> String {
    format!(
        "[{{\"title\": \"first\", \"roms\": {{}}}}, {{\"title\": \"second\", \"roms\": {{\"{}\": {{\"file\": \"a.ch8\", \"platforms\": {}}}}}}}]",
        Config::new().get_sha1(rom),
        platforms
    )
}

#[test]
fn defaults() {
    let config = Config::new();
    assert_eq!(config.rate, 60);
    assert_eq!(config.ipf, 12);
    assert_eq!(quirks(&config), (false, false, false, false, false, true, true));
}

#[test]
fn platforms_select_their_quirks() {
    let table = [
        ("originalChip8", (false, false, false, false, false, true, true)),
        ("hybridVIP", (false, false, false, false, false, true, true)),
        ("chip8x", (false, false, false, false, false, true, true)),
        ("modernChip8", (false, false, false, false, false, false, false)),
        ("chip48", (true, true, false, false, true, false, false)),
        ("superchip1", (true, true, false, false, true, false, false)),
        ("superchip", (true, false, true, false, true, false, false)),
    ];
    for (platform, expected) in table {
        let mut config = Config { rate: 75, ipf: 9, wrap: true, ..Config::new() };
        config.apply_platform(platform);
        assert_eq!(quirks(&config), expected);
        assert_eq!((config.rate, config.ipf), (75, 9));
    }
}

#[test]
fn unknown_platform_keeps_the_profile() {
    for platform in ["", "xochip", "SuperChip", "superchip ", "chip8", "megachip8"] {
        let mut config = Config { wrap: true, shift: true, logic: false, ..Config::new() };
        config.apply_platform(platform);
        assert_eq!(quirks(&config), (true, false, false, true, false, true, false));
    }
}

#[test]
fn hex_digits_are_lowercase() {
    let digits: String = (0..16).map(hex_digit).collect();
    assert_eq!(digits, "0123456789abcdef");
    assert_eq!(to_hex(&vec![]), "");
    assert_eq!(to_hex(&vec![0x00, 0x0F, 0xA0, 0xFF, 0x5C]), "000fa0ff5c");
}

#[test]
fn sha1_of_known_inputs() {
    let config = Config::new();
    assert_eq!(
        config.get_sha1(&vec![]),
        "da39a3ee5e6b4b0d3255bfef95601890afd80709"
    );
    assert_eq!(
        config.get_sha1(&vec![b'a', b'b', b'c']),
        "a9993e364706816aba3e25717850c26c9cd0d89d"
    );
    assert_eq!(config.get_sha1(&vec![0x12, 0x00]).len(), 40);
}

#[test]
fn platform_is_found_through_both_tables() {
    let rom = vec![0x60, 0x01, 0x12, 0x00];
    let hashes = hashes_for(&rom, 1);
    let programs = programs_for(&rom, "[\"superchip\", \"modernChip8\"]");
    let config = Config::new();
    assert_eq!(
        config.get_platform(&rom, Some(&hashes), Some(&programs)),
        Some(String::from("superchip"))
    );
    let other = vec![0x60, 0x02];
    assert_eq!(config.get_platform(&other, Some(&hashes), Some(&programs)), None);
}

#[test]
fn program_index_is_read_from_the_table_of_fingerprints() {
    let rom = vec![0x60, 0x01, 0x12, 0x00];
    let config = Config::new();
    assert_eq!(config.get_program_index(&rom, Some(&hashes_for(&rom, 1))), Some(1));
    assert_eq!(config.get_program_index(&rom, Some(&hashes_for(&rom, 4711))), Some(4711));
    assert_eq!(config.get_program_index(&vec![0x60], Some(&hashes_for(&rom, 1))), None);
    assert_eq!(config.get_program_index(&rom, Some("{\"0000\": 7}")), None);
    assert_eq!(config.get_program_index(&rom, Some("{")), None);
    assert_eq!(config.get_program_index(&rom, None), None);
    let digest = config.get_sha1(&rom);
    assert_eq!(config.get_program_index(&rom, Some(&format!("{{\"{}\": 1.0}}", digest))), None);
    assert_eq!(config.get_program_index(&rom, Some(&format!("{{\"{}\": 1e2}}", digest))), None);
    assert_eq!(config.get_program_index(&rom, Some(&format!("{{\"{}\": -0}}", digest))), None);
    assert_eq!(config.get_program_index(&rom, Some(&format!("{{\"{}\": 0}}", digest))), Some(0));
}

#[test]
fn adjust_to_rom_takes_the_first_platform() {
    let rom = vec![0x60, 0x01, 0x12, 0x00];
    let hashes = hashes_for(&rom, 1);
    for (platforms, expected) in [
        ("[\"superchip\", \"modernChip8\"]", (true, false, true, false, true, false, false)),
        ("[\"modernChip8\"]", (false, false, false, false, false, false, false)),
        ("[\"chip48\"]", (true, true, false, false, true, false, false)),
        ("[\"somethingElse\", \"chip48\"]", (false, false, false, false, false, true, true)),
    ] {
        let mut config = Config::new();
        config.adjust_to_rom(&rom, Some(&hashes), Some(&programs_for(&rom, platforms)));
        assert_eq!(quirks(&config), expected);
        assert_eq!((config.rate, config.ipf), (60, 12));
    }
}

#[test]
fn missing_or_broken_database_keeps_the_defaults() {
    let rom = vec![0x60, 0x01, 0x12, 0x00];
    let hashes = hashes_for(&rom, 1);
    let programs = programs_for(&rom, "[\"superchip\"]");
    let digest = Config::new().get_sha1(&rom);
    let cases: Vec<(Option<String>, Option<String>)> = vec![
        (None, None),
        (None, Some(programs.clone())),
        (Some(hashes.clone()), None),
        (Some(String::from("{ not json")), Some(programs.clone())),
        (Some(hashes.clone()), Some(String::from("[{\"roms\": "))),
        (Some(String::from("")), Some(String::from(""))),
        // the image is not listed
        (Some(String::from("{\"abc\": 1}")), Some(programs.clone())),
        // the table is no object
        (Some(String::from("[1, 2]")), Some(programs.clone())),
        // the index is no whole number from 0 on
        (Some(format!("{{\"{}\": -1}}", digest)), Some(programs.clone())),
        (Some(format!("{{\"{}\": 1.5}}", digest)), Some(programs.clone())),
        (Some(format!("{{\"{}\": \"1\"}}", digest)), Some(programs.clone())),
        // the index is past the end of the list
        (Some(hashes_for(&rom, 2)), Some(programs.clone())),
        // the entry does not list the image
        (Some(hashes_for(&rom, 0)), Some(programs.clone())),
        // the list is no array
        (Some(hashes.clone()), Some(String::from("{\"1\": {}}"))),
        // no platforms, or none that is a string
        (Some(hashes.clone()), Some(programs_for(&rom, "[]"))),
        (Some(hashes.clone()), Some(programs_for(&rom, "[3]"))),
        (Some(hashes.clone()), Some(programs_for(&rom, "\"superchip\""))),
        (Some(hashes.clone()), Some(programs_for(&rom, "{\"0\": \"superchip\"}"))),
    ];
    for (hashes, programs) in cases {
        let mut config = Config::new();
        assert_eq!(config.get_platform(&rom, hashes.as_deref(), programs.as_deref()), None);
        config.adjust_to_rom(&rom, hashes.as_deref(), programs.as_deref());
        assert_eq!(quirks(&config), (false, false, false, false, false, true, true));
    }
}

#[test]
fn lookups_on_parsed_documents() {
    let hashes: serde_json::Value =
        serde_json::from_str("{\"aa\": 0, \"bb\": 3, \"cc\": null, \"dd\": 18446744073709551615}")
            .unwrap();
    assert_eq!(lookup_index(&hashes, "aa"), Some(0));
    assert_eq!(lookup_index(&hashes, "bb"), Some(3));
    assert_eq!(lookup_index(&hashes, "cc"), None);
    assert_eq!(lookup_index(&hashes, "dd"), Some(u64::MAX));
    assert_eq!(lookup_index(&hashes, "ee"), None);
    assert_eq!(lookup_index(&hashes, ""), None);

    let programs: serde_json::Value = serde_json::from_str(
        "[{\"roms\": {\"aa\": {\"platforms\": [\"chip8x\", \"chip48\"]}, \"bb\": {\"platforms\": [null]}}}, {\"roms\": {\"aa\": {\"platforms\": [\"hybridVIP\"]}}}]",
    )
    .unwrap();
    assert_eq!(lookup_platform(&programs, 0, "aa"), Some(String::from("chip8x")));
    assert_eq!(lookup_platform(&programs, 1, "aa"), Some(String::from("hybridVIP")));
    assert_eq!(lookup_platform(&programs, 0, "bb"), None);
    assert_eq!(lookup_platform(&programs, 1, "bb"), None);
    assert_eq!(lookup_platform(&programs, 2, "aa"), None);
    assert_eq!(lookup_platform(&programs, u64::MAX, "aa"), None);
    assert_eq!(lookup_platform(&hashes, 0, "aa"), None);
}

#[test]
fn load_adjusts_the_quirks_to_the_image() {
    let rom = vec![0x00, 0xE0, 0x12, 0x00];
    let hashes = hashes_for(&rom, 1);
    let programs = programs_for(&rom, "[\"chip48\"]");
    let mut chip = Chip::new();
    chip.load(&rom, Some(&hashes), Some(&programs));
    assert_eq!(quirks(chip.config()), (true, true, false, false, true, false, false));
    assert_eq!(chip.ram_at(0x201), 0xE0);

    let mut chip = Chip::new();
    chip.load(&rom, None, Some(&programs));
    assert_eq!(quirks(chip.config()), (false, false, false, false, false, true, true));
}
