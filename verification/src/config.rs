//! The quirk profile: pacing knobs and the flags that select between
//! historically incompatible behaviours of several instructions.

use crate::digest::{hex_text, sha1_bytes, sha1_of, to_hex};
use crate::json::{index_in, lookup_index, lookup_platform, parse_json, parsed_json, platform_at};
use crate::text::same_text;
use vstd::prelude::*;

verus! {

/// The fingerprint of a program image: its SHA-1 digest in lowercase
/// hexadecimal.
pub open spec fn fingerprint(rom: Seq<u8>) -> Seq<char> {
    hex_text(sha1_of(rom))
}

/// The number under which the quirk database lists a program image.
/// `hashes_text` is the table from fingerprints to program numbers as JSON
/// text, or `None` where the host could not read it. A text that is missing
/// or is not JSON, and an image that is not listed, give `None`.
pub open spec fn program_index_of(rom: Seq<u8>, hashes_text: Option<Seq<char>>) -> Option<u64> {
    match hashes_text {
        Some(hashes_text) => match parsed_json(hashes_text) {
            Some(hashes) => index_in(hashes, fingerprint(rom)),
            None => None,
        },
        None => None,
    }
}

/// The platform that the quirk database names for a program image.
/// `hashes_text` is the table from fingerprints to program numbers,
/// `programs_text` the list of programs, each as JSON text, or `None` where
/// the host could not read it. A text that is missing or is not JSON, and
/// an image that is not listed, give `None`.
pub open spec fn platform_of(
    rom: Seq<u8>,
    hashes_text: Option<Seq<char>>,
    programs_text: Option<Seq<char>>,
) -> Option<Seq<char>> {
    match program_index_of(rom, hashes_text) {
        Some(index) => match programs_text {
            Some(programs_text) => match parsed_json(programs_text) {
                Some(programs) => platform_at(programs, index, fingerprint(rom)),
                None => None,
            },
            None => None,
        },
        None => None,
    }
}

/// The characters of a text that may be missing.
pub open spec fn text_view(text: Option<&str>) -> Option<Seq<char>> {
    match text {
        Some(text) => Some(text@),
        None => None,
    }
}

/// The settings with the quirks that programs for `platform` expect. A
/// platform that is not known leaves the settings as they are.
pub open spec fn profile_for(config: Config, platform: Seq<char>) -> Config {
    if platform == "originalChip8"@ || platform == "hybridVIP"@ || platform == "chip8x"@ {
        Config {
            shift: false,
            memory_increment_by_x: false,
            memory_leave_i_unchanged: false,
            wrap: false,
            jump: false,
            vblank: true,
            logic: true,
            ..config
        }
    } else if platform == "modernChip8"@ {
        Config {
            shift: false,
            memory_increment_by_x: false,
            memory_leave_i_unchanged: false,
            wrap: false,
            jump: false,
            vblank: false,
            logic: false,
            ..config
        }
    } else if platform == "chip48"@ || platform == "superchip1"@ {
        Config {
            shift: true,
            memory_increment_by_x: true,
            memory_leave_i_unchanged: false,
            wrap: false,
            jump: true,
            vblank: false,
            logic: false,
            ..config
        }
    } else if platform == "superchip"@ {
        Config {
            shift: true,
            memory_increment_by_x: false,
            memory_leave_i_unchanged: true,
            wrap: false,
            jump: true,
            vblank: false,
            logic: false,
            ..config
        }
    } else {
        config
    }
}

/// The settings after the quirk database has been asked about a program
/// image: those of its platform where the database names one, and the
/// settings as they are where it does not.
pub open spec fn adjusted(config: Config, platform: Option<Seq<char>>) -> Config {
    match platform {
        Some(platform) => profile_for(config, platform),
        None => config,
    }
}

/// Pacing and quirk settings of a running machine.
pub struct Config {
    /// Frames per second.
    pub rate: u64,
    /// Instructions executed per frame.
    pub ipf: u64,
    /// Shifts operate on Vx in place and ignore Vy.
    pub shift: bool,
    /// Block load/store advance I by x instead of x + 1.
    pub memory_increment_by_x: bool,
    /// Block load/store leave I untouched.
    pub memory_leave_i_unchanged: bool,
    /// Sprites wrap around the screen edges instead of being clipped.
    pub wrap: bool,
    /// Bnnn adds Vx (x = high nibble of nnn) instead of V0.
    pub jump: bool,
    /// A draw ends the instruction budget of the current frame.
    pub vblank: bool,
    /// OR, AND and XOR reset VF.
    pub logic: bool,
}

impl Config {
    /// The settings a machine starts with.
    pub open spec fn initial() -> Config {
        Config {
            rate: 60,
            ipf: 12,
            shift: false,
            memory_increment_by_x: false,
            memory_leave_i_unchanged: false,
            wrap: false,
            jump: false,
            vblank: true,
            logic: true,
        }
    }

    /// Both pacing knobs are at least 1.
    pub open spec fn wf(&self) -> bool {
        self.rate >= 1 && self.ipf >= 1
    }

    /// Neither pacing knob overflows when raised `n` more times.
    pub open spec fn has_room_for(&self, n: nat) -> bool {
        self.rate + n <= u64::MAX && self.ipf + n <= u64::MAX
    }

    pub fn new() -> (config: Config)
        ensures
            config == Config::initial(),
            config.wf(),
    {
        Config {
            rate: 60,
            ipf: 12,
            shift: false,
            memory_increment_by_x: false,
            memory_leave_i_unchanged: false,
            wrap: false,
            jump: false,
            vblank: true,
            logic: true,
        }
    }

    /// Sets all seven quirks at once.
    fn set_quirks(&mut self, quirks: (bool, bool, bool, bool, bool, bool, bool))
        ensures
            *final(self) == (Config {
                shift: quirks.0,
                memory_increment_by_x: quirks.1,
                memory_leave_i_unchanged: quirks.2,
                wrap: quirks.3,
                jump: quirks.4,
                vblank: quirks.5,
                logic: quirks.6,
                ..*old(self)
            }),
    {
        self.shift = quirks.0;
        self.memory_increment_by_x = quirks.1;
        self.memory_leave_i_unchanged = quirks.2;
        self.wrap = quirks.3;
        self.jump = quirks.4;
        self.vblank = quirks.5;
        self.logic = quirks.6;
    }

    /// Takes on the quirks that programs for `platform` expect.
    pub fn apply_platform(&mut self, platform: &str)
        ensures
            *final(self) == profile_for(*old(self), platform@),
    {
        if same_text(platform, "originalChip8") || same_text(platform, "hybridVIP") || same_text(
            platform,
            "chip8x",
        ) {
            self.set_quirks((false, false, false, false, false, true, true));
        } else if same_text(platform, "modernChip8") {
            self.set_quirks((false, false, false, false, false, false, false));
        } else if same_text(platform, "chip48") || same_text(platform, "superchip1") {
            self.set_quirks((true, true, false, false, true, false, false));
        } else if same_text(platform, "superchip") {
            self.set_quirks((true, false, true, false, true, false, false));
        }
    }

    /// The fingerprint of a program image.
    pub fn get_sha1(&self, rom: &Vec<u8>) -> (hash: String)
        ensures
            hash@ == fingerprint(rom@),
    {
        let digest = sha1_bytes(rom);
        to_hex(&digest)
    }

    /// The number under which the table of fingerprints lists the image
    /// with fingerprint `hash`.
    fn index_of_fingerprint(hash: &str, hashes_json: Option<&str>) -> (index: Option<u64>)
        ensures
            index == match text_view(hashes_json) {
                Some(hashes_text) => match parsed_json(hashes_text) {
                    Some(hashes) => index_in(hashes, hash@),
                    None => None,
                },
                None => None,
            },
    {
        let data = match hashes_json {
            Some(data) => data,
            None => { return None; },
        };
        let hashes = match parse_json(data) {
            Ok(hashes) => hashes,
            Err(_) => { return None; },
        };
        lookup_index(&hashes, hash)
    }

    /// The number under which the quirk database lists a program image.
    /// The text is the table of fingerprints as the host read it.
    pub fn get_program_index(&self, rom: &Vec<u8>, hashes_json: Option<&str>) -> (index: Option<
        u64,
    >)
        ensures
            index == program_index_of(rom@, text_view(hashes_json)),
    {
        let hash = self.get_sha1(rom);
        Config::index_of_fingerprint(hash.as_str(), hashes_json)
    }

    /// The platform that the quirk database names for a program image.
    /// The two texts are the database as the host read it.
    pub fn get_platform(
        &self,
        rom: &Vec<u8>,
        hashes_json: Option<&str>,
        programs_json: Option<&str>,
    ) -> (platform: Option<String>)
        ensures
            platform is Some == platform_of(
                rom@,
                text_view(hashes_json),
                text_view(programs_json),
            ) is Some,
            platform matches Some(name) ==> platform_of(
                rom@,
                text_view(hashes_json),
                text_view(programs_json),
            ) == Some(name@),
    {
        let hash = self.get_sha1(rom);
        let program_index = match Config::index_of_fingerprint(hash.as_str(), hashes_json) {
            Some(index) => index,
            None => { return None; },
        };
        let data = match programs_json {
            Some(data) => data,
            None => { return None; },
        };
        let programs = match parse_json(data) {
            Ok(programs) => programs,
            Err(_) => { return None; },
        };
        lookup_platform(&programs, program_index, hash.as_str())
    }

    /// Takes on the quirks of the platform that the quirk database names
    /// for a program image. Where the database is missing, is not JSON or
    /// does not list the image, the settings stay as they are.
    pub fn adjust_to_rom(
        &mut self,
        rom: &Vec<u8>,
        hashes_json: Option<&str>,
        programs_json: Option<&str>,
    )
        ensures
            *final(self) == adjusted(
                *old(self),
                platform_of(rom@, text_view(hashes_json), text_view(programs_json)),
            ),
    {
        if let Some(platform) = self.get_platform(rom, hashes_json, programs_json) {
            self.apply_platform(platform.as_str());
        }
    }
}

} // verus!
