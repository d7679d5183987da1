//! The 16-key hex keypad: host events in, key state and released keys out.

use crate::config::Config;
use std::collections::VecDeque;
use vstd::prelude::*;

verus! {

/// A key of the host keyboard, as far as the machine tells keys apart.
#[derive(Clone, Copy, Debug, PartialEq, Eq, Structural)]
pub enum HostKey {
    Num1,
    Num2,
    Num3,
    Num4,
    Q,
    W,
    E,
    R,
    A,
    S,
    D,
    F,
    Z,
    X,
    C,
    V,
    Up,
    Down,
    Left,
    Right,
    Other,
}

/// An input event of the host.
#[derive(Clone, Copy, Debug, PartialEq, Eq, Structural)]
pub enum HostEvent {
    /// The user asked to leave.
    Quit,
    KeyDown(HostKey),
    KeyUp(HostKey),
    /// Anything the machine has no use for.
    Other,
}

/// The hex key that a host key stands for, in the fixed 4×4 layout
/// `1 2 3 4 / Q W E R / A S D F / Z X C V` for `1 2 3 C / 4 5 6 D / 7 8 9 E / A 0 B F`.
pub open spec fn key_code(k: HostKey) -> Option<u8> {
    match k {
        HostKey::Num1 => Some(0x1u8),
        HostKey::Num2 => Some(0x2u8),
        HostKey::Num3 => Some(0x3u8),
        HostKey::Num4 => Some(0xCu8),
        HostKey::Q => Some(0x4u8),
        HostKey::W => Some(0x5u8),
        HostKey::E => Some(0x6u8),
        HostKey::R => Some(0xDu8),
        HostKey::A => Some(0x7u8),
        HostKey::S => Some(0x8u8),
        HostKey::D => Some(0x9u8),
        HostKey::F => Some(0xEu8),
        HostKey::Z => Some(0xAu8),
        HostKey::X => Some(0x0u8),
        HostKey::C => Some(0xBu8),
        HostKey::V => Some(0xFu8),
        _ => None,
    }
}

/// What the host's events act on: which hex keys are held down, and the
/// settings, of which the arrow keys tune the two pacing knobs.
pub struct Controls {
    pub pressed: Seq<bool>,
    pub config: Config,
}

/// The settings after a key went down: Up and Down raise and lower the frame
/// rate, Right and Left the instructions per frame, neither below 1.
pub open spec fn tuned(config: Config, k: HostKey) -> Config {
    match k {
        HostKey::Up => Config { rate: (config.rate + 1) as u64, ..config },
        HostKey::Down => if config.rate > 1 {
            Config { rate: (config.rate - 1) as u64, ..config }
        } else {
            config
        },
        HostKey::Right => Config { ipf: (config.ipf + 1) as u64, ..config },
        HostKey::Left => if config.ipf > 1 {
            Config { ipf: (config.ipf - 1) as u64, ..config }
        } else {
            config
        },
        _ => config,
    }
}

/// The key state after hex key `code`, if any, was set to `down`.
pub open spec fn with_key(pressed: Seq<bool>, code: Option<u8>, down: bool) -> Seq<bool> {
    match code {
        Some(c) => pressed.update(c as int, down),
        None => pressed,
    }
}

/// The effect of one event: a key going down is held and may tune the
/// settings, a key going up is let go, everything else changes nothing.
pub open spec fn absorb(controls: Controls, event: HostEvent) -> Controls {
    match event {
        HostEvent::KeyDown(k) => Controls {
            pressed: with_key(controls.pressed, key_code(k), true),
            config: tuned(controls.config, k),
        },
        HostEvent::KeyUp(k) => Controls {
            pressed: with_key(controls.pressed, key_code(k), false),
            config: controls.config,
        },
        _ => controls,
    }
}

/// Key `k` going down drives no pacing knob past what it can hold: Up
/// finds the frame rate, Right the instructions per frame, below the
/// largest value.
pub open spec fn can_tune(config: Config, k: HostKey) -> bool {
    &&& k == HostKey::Up ==> config.rate < u64::MAX
    &&& k == HostKey::Right ==> config.ipf < u64::MAX
}

/// The effect of a run of events, taken in order.
pub open spec fn absorb_all(controls: Controls, events: Seq<HostEvent>) -> Controls
    decreases events.len(),
{
    if events.len() == 0 {
        controls
    } else {
        absorb(absorb_all(controls, events.drop_last()), events.last())
    }
}

/// No event of a run, taken in order, drives a pacing knob past what it
/// can hold.
pub open spec fn can_absorb_all(controls: Controls, events: Seq<HostEvent>) -> bool
    decreases events.len(),
{
    events.len() == 0 || {
        &&& can_absorb_all(controls, events.drop_last())
        &&& match events.last() {
            HostEvent::KeyDown(k) => can_tune(absorb_all(controls, events.drop_last()).config, k),
            _ => true,
        }
    }
}

/// Whether taking events off the queue ends with this one: a quit always
/// does, and while a key is awaited so does the release of a hex key.
pub open spec fn stops(event: HostEvent, awaiting_key: bool) -> bool {
    match event {
        HostEvent::Quit => true,
        HostEvent::KeyUp(k) => awaiting_key && key_code(k) is Some,
        _ => false,
    }
}

/// The position of the first event that stops the taking, or the number of
/// events where none does.
pub open spec fn first_stop(events: Seq<HostEvent>, awaiting_key: bool) -> int
    decreases events.len(),
{
    if events.len() == 0 || stops(events[0], awaiting_key) {
        0
    } else {
        1 + first_stop(events.drop_first(), awaiting_key)
    }
}

/// The events that one round of taking removes from the queue: all up to
/// and including the first that stops it.
pub open spec fn taken(events: Seq<HostEvent>, awaiting_key: bool) -> Seq<HostEvent> {
    let n = first_stop(events, awaiting_key);
    if n < events.len() {
        events.take(n + 1)
    } else {
        events
    }
}

/// The events that one round of taking leaves on the queue.
pub open spec fn left_over(events: Seq<HostEvent>, awaiting_key: bool) -> Seq<HostEvent> {
    events.skip(taken(events, awaiting_key).len() as int)
}

/// Whether a quit is what stopped the taking.
pub open spec fn quit_seen(events: Seq<HostEvent>, awaiting_key: bool) -> bool {
    let n = first_stop(events, awaiting_key);
    n < events.len() && events[n] == HostEvent::Quit
}

/// The hex key whose release stopped the taking, if one did.
pub open spec fn released_key(events: Seq<HostEvent>) -> Option<u8> {
    let n = first_stop(events, true);
    if n < events.len() {
        match events[n] {
            HostEvent::KeyUp(k) => key_code(k),
            _ => None,
        }
    } else {
        None
    }
}

/// The event that stopped the taking, if one did.
pub open spec fn stopper(events: Seq<HostEvent>, awaiting_key: bool) -> Option<HostEvent> {
    let n = first_stop(events, awaiting_key);
    if n < events.len() {
        Some(events[n])
    } else {
        None
    }
}

/// `first_stop` is the position of the first stopping event: nothing
/// before it stops the taking, and the event at it, if there is one, does.
pub proof fn lemma_first_stop(events: Seq<HostEvent>, awaiting_key: bool)
    ensures
        0 <= first_stop(events, awaiting_key) <= events.len(),
        first_stop(events, awaiting_key) < events.len() ==> stops(
            events[first_stop(events, awaiting_key)],
            awaiting_key,
        ),
        forall|i: int|
            0 <= i < first_stop(events, awaiting_key) ==> !stops(#[trigger] events[i], awaiting_key),
    decreases events.len(),
{
    if events.len() == 0 || stops(events[0], awaiting_key) {
    } else {
        let rest = events.drop_first();
        lemma_first_stop(rest, awaiting_key);
        assert forall|i: int| 0 <= i < first_stop(events, awaiting_key) implies !stops(
            #[trigger] events[i],
            awaiting_key,
        ) by {
            if i > 0 {
                assert(events[i] == rest[i - 1]);
            }
        }
    }
}

/// Events change nothing of the settings but the two pacing knobs, never
/// bring the frame rate or the instructions per frame from 1 or more to 0,
/// raise neither by more than one per event, and leave the number of keys
/// as it is.
pub proof fn lemma_absorb_all_keeps(controls: Controls, events: Seq<HostEvent>)
    requires
        controls.pressed.len() == 16,
        controls.config.has_room_for(events.len()),
    ensures
        ({
            let before = controls.config;
            let after = absorb_all(controls, events).config;
            &&& after == Config { rate: after.rate, ipf: after.ipf, ..before }
            &&& before.rate >= 1 ==> after.rate >= 1
            &&& before.ipf >= 1 ==> after.ipf >= 1
            &&& after.rate <= before.rate + events.len()
            &&& after.ipf <= before.ipf + events.len()
        }),
        absorb_all(controls, events).pressed.len() == 16,
    decreases events.len(),
{
    if events.len() > 0 {
        lemma_absorb_all_keeps(controls, events.drop_last());
    }
}

/// Key `k` of a packed key state, key 0 being the most significant bit.
pub open spec fn key_bit(keys: u16, k: int) -> bool {
    (keys >> ((15 - k) as u16)) & 1 == 1
}

/// What holds of a run of events holds of each of its beginnings.
pub proof fn lemma_can_absorb_beginning(controls: Controls, events: Seq<HostEvent>, n: int)
    requires
        can_absorb_all(controls, events),
        0 <= n <= events.len(),
    ensures
        can_absorb_all(controls, events.take(n)),
    decreases events.len(),
{
    if n == events.len() {
        assert(events.take(n) =~= events);
    } else {
        lemma_can_absorb_beginning(controls, events.drop_last(), n);
        assert(events.drop_last().take(n) =~= events.take(n));
    }
}

/// Knobs with room for as many raises as there are events are driven too
/// far by none of them.
pub proof fn lemma_room_suffices(controls: Controls, events: Seq<HostEvent>)
    requires
        controls.pressed.len() == 16,
        controls.config.has_room_for(events.len()),
    ensures
        can_absorb_all(controls, events),
    decreases events.len(),
{
    if events.len() > 0 {
        lemma_room_suffices(controls, events.drop_last());
        lemma_absorb_all_keeps(controls, events.drop_last());
    }
}

/// OR with the mask of key `c` sets that key of a packed key state and
/// leaves the others.
proof fn lemma_set_key_bit(keys: u16, c: u16, k: u16)
    by (bit_vector)
    requires
        c < 16,
        k < 16,
    ensures
        ((keys | (1u16 << ((15 - c) as u16))) >> ((15 - k) as u16)) & 1 == 1 <==> (k == c || (keys
            >> ((15 - k) as u16)) & 1 == 1),
{
}

/// AND with the inverted mask of key `c` clears that key of a packed key
/// state and leaves the others.
proof fn lemma_clear_key_bit(keys: u16, c: u16, k: u16)
    by (bit_vector)
    requires
        c < 16,
        k < 16,
    ensures
        ((keys & !(1u16 << ((15 - c) as u16))) >> ((15 - k) as u16)) & 1 == 1 <==> (k != c && (keys
            >> ((15 - k) as u16)) & 1 == 1),
{
}

/// A packed key state of 0 has no key held.
proof fn lemma_no_key_bit(k: u16)
    by (bit_vector)
    requires
        k < 16,
    ensures
        (0u16 >> ((15 - k) as u16)) & 1 == 0,
{
}

/// What a keypad stands for: the state of its 16 keys and the events that
/// wait to be taken.
pub struct KeypadView {
    pub pressed: Seq<bool>,
    pub pending: Seq<HostEvent>,
}

/// The keypad: the held keys, packed into 16 bits, and the queue of host
/// events that have arrived and not been looked at yet.
pub struct Keypad {
    event_queue: VecDeque<HostEvent>,
    keys: u16,
}

impl View for Keypad {
    type V = KeypadView;

    closed spec fn view(&self) -> KeypadView {
        KeypadView {
            pressed: Seq::new(16, |k: int| key_bit(self.keys, k)),
            pending: self.event_queue@,
        }
    }
}

impl Keypad {
    /// Every keypad has 16 keys.
    pub proof fn lemma_view_wf(&self)
        ensures
            self@.pressed.len() == 16,
    {
    }

    /// A keypad with no key held and no event waiting.
    pub fn new() -> (keypad: Keypad)
        ensures
            keypad@.pressed == Seq::new(16, |k: int| false),
            keypad@.pending == Seq::<HostEvent>::empty(),
    {
        let keypad = Keypad { event_queue: VecDeque::new(), keys: 0 };
        proof {
            assert forall|k: int| 0 <= k < 16 implies !key_bit(keypad.keys, k) by {
                lemma_no_key_bit(k as u16);
            }
            assert(keypad@.pressed =~= Seq::new(16, |k: int| false));
        }
        keypad
    }

    /// Puts an event that the host delivered at the end of the queue.
    pub fn push_event(&mut self, event: HostEvent)
        ensures
            final(self)@.pressed == old(self)@.pressed,
            final(self)@.pending == old(self)@.pending.push(event),
    {
        self.event_queue.push_back(event);
    }

    /// The number of events that wait to be taken.
    pub fn pending_events(&self) -> (n: usize)
        ensures
            n == self@.pending.len(),
    {
        self.event_queue.len()
    }

    /// Whether hex key `key` is held down. No key has a code above 15.
    pub fn is_pressed(&self, key: u8) -> (down: bool)
        ensures
            down == (key < 16 && self@.pressed[key as int]),
    {
        if key > 15 {
            false
        } else {
            (self.keys >> ((15 - key) as u16)) & 1 == 1
        }
    }

    /// The hex key that a host key stands for.
    pub fn keycode_to_u8(&self, k: HostKey) -> (code: Option<u8>)
        ensures
            code == key_code(k),
            code matches Some(c) ==> c < 16,
    {
        match k {
            HostKey::Num1 => Some(0x1),
            HostKey::Num2 => Some(0x2),
            HostKey::Num3 => Some(0x3),
            HostKey::Num4 => Some(0xC),
            HostKey::Q => Some(0x4),
            HostKey::W => Some(0x5),
            HostKey::E => Some(0x6),
            HostKey::R => Some(0xD),
            HostKey::A => Some(0x7),
            HostKey::S => Some(0x8),
            HostKey::D => Some(0x9),
            HostKey::F => Some(0xE),
            HostKey::Z => Some(0xA),
            HostKey::X => Some(0x0),
            HostKey::C => Some(0xB),
            HostKey::V => Some(0xF),
            _ => None,
        }
    }

    /// Takes note of a key that went down: an arrow key tunes the settings,
    /// a hex key is held from now on and is returned. Up and Right need the
    /// knob that they raise to be below the largest value.
    pub fn key_pressed(&mut self, k: HostKey, config: &mut Config) -> (code: Option<u8>)
        requires
            can_tune(*old(config), k),
        ensures
            code == key_code(k),
            final(self)@.pending == old(self)@.pending,
            final(self)@.pressed == with_key(old(self)@.pressed, key_code(k), true),
            *final(config) == tuned(*old(config), k),
    {
        let mut matched = true;
        match k {
            HostKey::Up => {
                config.rate += 1;
            },
            HostKey::Down => {
                if config.rate > 1 {
                    config.rate -= 1;
                }
            },
            HostKey::Right => {
                config.ipf += 1;
            },
            HostKey::Left => {
                if config.ipf > 1 {
                    config.ipf -= 1;
                }
            },
            _ => {
                matched = false;
            },
        }
        if !matched {
            if let Some(c) = self.keycode_to_u8(k) {
                let ghost before = self.keys;
                self.keys |= 1u16 << ((15 - c) as u16);
                proof {
                    assert forall|j: int| 0 <= j < 16 implies self@.pressed[j] == (j == c
                        || old(self)@.pressed[j]) by {
                        lemma_set_key_bit(before, c as u16, j as u16);
                    }
                    assert(self@.pressed =~= old(self)@.pressed.update(c as int, true));
                }
                return Some(c);
            }
        }
        None
    }

    /// Takes note of a key that went up: a hex key is let go and returned.
    pub fn key_released(&mut self, k: HostKey) -> (code: Option<u8>)
        ensures
            code == key_code(k),
            final(self)@.pending == old(self)@.pending,
            final(self)@.pressed == with_key(old(self)@.pressed, key_code(k), false),
    {
        let released = self.keycode_to_u8(k);
        if let Some(c) = released {
            let ghost before = self.keys;
            self.keys &= !(1u16 << ((15 - c) as u16));
            proof {
                assert forall|j: int| 0 <= j < 16 implies self@.pressed[j] == (j != c
                    && old(self)@.pressed[j]) by {
                    lemma_clear_key_bit(before, c as u16, j as u16);
                }
                assert(self@.pressed =~= old(self)@.pressed.update(c as int, false));
            }
        }
        released
    }

    /// Takes events off the queue, in order, until one stops the taking or
    /// none is left, and hands back the one that stopped it.
    fn take_events(&mut self, awaiting_key: bool, config: &mut Config) -> (last: Option<HostEvent>)
        requires
            can_absorb_all(
                Controls { pressed: old(self)@.pressed, config: *old(config) },
                taken(old(self)@.pending, awaiting_key),
            ),
        ensures
            last == stopper(old(self)@.pending, awaiting_key),
            final(self)@.pending == left_over(old(self)@.pending, awaiting_key),
            (Controls { pressed: final(self)@.pressed, config: *final(config) }) == absorb_all(
                Controls { pressed: old(self)@.pressed, config: *old(config) },
                taken(old(self)@.pending, awaiting_key),
            ),
    {
        let ghost events = self@.pending;
        let ghost start = Controls { pressed: self@.pressed, config: *config };
        let ghost run = taken(events, awaiting_key);
        let ghost mut m: int = 0;
        let mut last: Option<HostEvent> = None;
        proof {
            assert(events.skip(0) =~= events);
            assert(events.take(0) =~= Seq::<HostEvent>::empty());
            lemma_first_stop(events, awaiting_key);
        }
        while last.is_none() && self.event_queue.len() > 0
            invariant
                0 <= m <= events.len(),
                self@.pending == events.skip(m),
                (Controls { pressed: self@.pressed, config: *config }) == absorb_all(
                    start,
                    events.take(m),
                ),
                run == taken(events, awaiting_key),
                can_absorb_all(start, run),
                0 <= first_stop(events, awaiting_key) <= events.len(),
                last is None ==> first_stop(events, awaiting_key) == m + first_stop(
                    events.skip(m),
                    awaiting_key,
                ),
                last matches Some(e) ==> m == first_stop(events, awaiting_key) + 1 && e
                    == events[m - 1],
            decreases events.len() - m + (if last is None { 1int } else { 0int }),
        {
            let event = self.event_queue.pop_front().unwrap();
            proof {
                assert(event == events[m]);
                assert(events.skip(m).drop_first() =~= events.skip(m + 1));
                assert(events.take(m + 1).drop_last() =~= events.take(m));
                assert(events.take(m + 1).last() == events[m]);
                assert(self@.pending =~= events.skip(m + 1));
                lemma_first_stop(events.skip(m), awaiting_key);
                lemma_can_absorb_beginning(start, run, m + 1);
                assert(run.take(m + 1) =~= events.take(m + 1));
            }
            match event {
                HostEvent::Quit => {
                    last = Some(event);
                },
                HostEvent::KeyDown(k) => {
                    self.key_pressed(k, config);
                },
                HostEvent::KeyUp(k) => {
                    let code = self.key_released(k);
                    if awaiting_key && code.is_some() {
                        last = Some(event);
                    }
                },
                HostEvent::Other => {},
            }
            proof {
                m = m + 1;
            }
        }
        proof {
            if last is None {
                assert(events.take(m) =~= events);
            }
        }
        last
    }

    /// Takes in the events that wait on the queue, up to the first quit:
    /// keys that went down are held, keys that went up are let go, arrow
    /// keys tune the settings. Returns `false` when the user asked to leave.
    /// None of the events taken in may raise a pacing knob past the largest
    /// value.
    pub fn handle_events(&mut self, config: &mut Config) -> (keep_running: bool)
        requires
            can_absorb_all(
                Controls { pressed: old(self)@.pressed, config: *old(config) },
                taken(old(self)@.pending, false),
            ),
        ensures
            keep_running == !quit_seen(old(self)@.pending, false),
            final(self)@.pending == left_over(old(self)@.pending, false),
            (Controls { pressed: final(self)@.pressed, config: *final(config) }) == absorb_all(
                Controls { pressed: old(self)@.pressed, config: *old(config) },
                taken(old(self)@.pending, false),
            ),
    {
        proof {
            lemma_first_stop(self@.pending, false);
        }
        let last = self.take_events(false, config);
        last.is_none()
    }

    /// Looks for the release of a hex key: takes in the waiting events as
    /// `handle_events` does, but stops at the first release of a hex key and
    /// returns that key. A key going down is never returned. On a quit,
    /// `keep_running` is cleared; with no release on the queue the result is
    /// `None` and the caller asks again later. None of the events taken in
    /// may raise a pacing knob past the largest value.
    pub fn block_read(&mut self, keep_running: &mut bool, config: &mut Config) -> (key: Option<u8>)
        requires
            can_absorb_all(
                Controls { pressed: old(self)@.pressed, config: *old(config) },
                taken(old(self)@.pending, true),
            ),
        ensures
            key == released_key(old(self)@.pending),
            key matches Some(c) ==> c < 16,
            *final(keep_running) == (*old(keep_running) && !quit_seen(old(self)@.pending, true)),
            final(self)@.pending == left_over(old(self)@.pending, true),
            (Controls { pressed: final(self)@.pressed, config: *final(config) }) == absorb_all(
                Controls { pressed: old(self)@.pressed, config: *old(config) },
                taken(old(self)@.pending, true),
            ),
    {
        match self.take_events(true, config) {
            Some(HostEvent::Quit) => {
                *keep_running = false;
                None
            },
            Some(HostEvent::KeyUp(k)) => self.keycode_to_u8(k),
            _ => None,
        }
    }
}

} // verus!
