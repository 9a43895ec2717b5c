//! The key that switches the pass on and off.

use vstd::prelude::*;

verus! {

/// How long the key map is not asked for again, in nanoseconds. A tap on a key lasts longer.
pub const POLL_INTERVAL: u64 = 50_000_000;

/// The last key code that the key map has a place for.
pub const LAST_CODE: u32 = 247;

/// How far the codes of the key map are shifted.
pub const CODE_OFFSET: u32 = 8;

/// Watches one key.
#[derive(Clone, Copy, Debug, PartialEq, Eq, Structural)]
pub struct Poller {
    /// The display is connected.
    pub connected: bool,
    pub was_pressed: bool,
    /// When the key map was last asked for.
    pub last_poll: Option<u64>,
}

/// What to do to learn whether the key is down.
#[derive(Clone, Copy, Debug, PartialEq, Eq, Structural)]
pub enum PollStep {
    /// Nothing: it counts as not pressed.
    Skip,
    /// Connect to the display, then ask for the key map.
    Connect,
    /// Ask for the key map.
    Query,
}

/// Whether a key code has a place in the key map.
pub open spec fn is_code(code: u32) -> bool {
    0 < code <= LAST_CODE
}

/// Whether the key map was asked for a moment ago.
pub open spec fn is_recent(last: Option<u64>, now: u64) -> bool {
    match last {
        Some(at) => now - at < POLL_INTERVAL,
        None => false,
    }
}

/// Whether a key is down in a key map: one bit for each key.
pub open spec fn is_down(keys: Seq<u8>, code: u32) -> bool {
    let place = (code + CODE_OFFSET) as u32;
    keys[(place / 8) as int] & (1u8 << (place % 8)) != 0
}

/// Whether a key is reported: it is down and was not before.
pub open spec fn is_edge(was_pressed: bool, down: bool) -> bool {
    down && !was_pressed
}

impl Poller {
    /// Nothing is known of the key.
    pub fn new() -> (p: Poller)
        ensures
            p == (Poller { connected: false, was_pressed: false, last_poll: None }),
    {
        Poller { connected: false, was_pressed: false, last_poll: None }
    }

    /// Whether the key map has to be asked for. A code without a place in it counts as a key that
    /// was let go.
    pub fn poll(&mut self, code: u32, now: u64) -> (step: PollStep)
        ensures
            step == (if !is_code(code) || is_recent(old(self).last_poll, now) {
                PollStep::Skip
            } else if old(self).connected {
                PollStep::Query
            } else {
                PollStep::Connect
            }),
            *final(self) == (if !is_code(code) {
                Poller { was_pressed: false, ..*old(self) }
            } else if is_recent(old(self).last_poll, now) {
                *old(self)
            } else {
                Poller { last_poll: Some(now), ..*old(self) }
            }),
    {
        if code == 0 || code > LAST_CODE {
            self.was_pressed = false;
            return PollStep::Skip;
        }
        if let Some(last) = self.last_poll {
            if now < last || now - last < POLL_INTERVAL {
                return PollStep::Skip;
            }
        }
        self.last_poll = Some(now);
        if self.connected {
            PollStep::Query
        } else {
            PollStep::Connect
        }
    }

    /// Takes the outcome of connecting to the display.
    pub fn connect(&mut self, ok: bool) -> (step: PollStep)
        ensures
            *final(self) == (Poller { connected: ok, ..*old(self) }),
            step == (if ok {
                PollStep::Query
            } else {
                PollStep::Skip
            }),
    {
        self.connected = ok;
        if ok {
            PollStep::Query
        } else {
            PollStep::Skip
        }
    }

    /// Whether the key was just pressed, by the key map: it is down and was not before.
    pub fn pressed(&mut self, code: u32, keys: &[u8; 32]) -> (edge: bool)
        requires
            is_code(code),
        ensures
            edge == is_edge(old(self).was_pressed, is_down(keys@, code)),
            edge == reported(old(self).was_pressed, seq![is_down(keys@, code)], 0),
            *final(self) == (Poller { was_pressed: is_down(keys@, code), ..*old(self) }),
    {
        let place: u32 = code + CODE_OFFSET;
        let down: bool = keys[(place / 8) as usize] & (1u8 << (place % 8)) != 0;
        let edge: bool = down && !self.was_pressed;
        self.was_pressed = down;
        edge
    }
}

/// What a poller remembers of the key before the `i`th of a series of key maps: `down[i]` says
/// whether the key was down in the `i`th.
pub open spec fn remembered(was_pressed: bool, down: Seq<bool>, i: int) -> bool {
    if i == 0 {
        was_pressed
    } else {
        down[i - 1]
    }
}

/// Whether a poller reports the key at the `i`th of a series of key maps.
pub open spec fn reported(was_pressed: bool, down: Seq<bool>, i: int) -> bool {
    is_edge(remembered(was_pressed, down, i), down[i])
}

/// A key that is held down is reported once: between two reports it was let go.
pub proof fn a_held_key_is_reported_once(was_pressed: bool, down: Seq<bool>, first: int, second: int)
    requires
        0 <= first < second < down.len(),
        reported(was_pressed, down, first),
        reported(was_pressed, down, second),
    ensures
        exists|i: int| first < i < second && !#[trigger] down[i],
{
    assert(!down[second - 1]);
    assert(down[first]);
}

/// Whether the key is reported depends on its own bit alone, which is bit `(code + 8) % 8` of byte
/// `(code + 8) / 8`: what any other key does is nothing to it, and while the bit is 0 nothing is
/// reported.
pub proof fn only_its_own_bit_decides(was_pressed: bool, keys: Seq<u8>, other: Seq<u8>, code: u32, byte: int, bit: u8)
    requires
        1 <= code <= 247,
        keys.len() == 32,
        other.len() == 32,
        8 * byte + bit == code + 8,
        bit < 8,
        (keys[byte] >> bit) % 2 == (other[byte] >> bit) % 2,
    ensures
        is_down(keys, code) == is_down(other, code),
        is_edge(was_pressed, is_down(keys, code)) == is_edge(was_pressed, is_down(other, code)),
        is_edge(was_pressed, is_down(keys, code)) <==> !was_pressed && (keys[byte] >> bit) % 2 == 1,
        (keys[byte] >> bit) % 2 == 0 ==> !is_edge(was_pressed, is_down(keys, code)),
{
    let place = (code + 8) as u32;
    assert(place / 8 == byte && place % 8 == bit as u32);
    lemma_bit(keys[byte], bit);
    lemma_bit(other[byte], bit);
    let (a, b) = (keys[byte], other[byte]);
    let wide = bit as u32;
    assert(1u8 << bit == 1u8 << wide) by (bit_vector)
        requires
            wide == bit as u32,
            bit < 8,
    ;
}

proof fn lemma_bit(byte: u8, bit: u8)
    requires
        bit < 8,
    ensures
        (byte & (1u8 << bit) != 0) == ((byte >> bit) % 2 == 1),
{
    assert((byte & (1u8 << bit) != 0) == ((byte >> bit) % 2 == 1)) by (bit_vector)
        requires
            bit < 8,
    ;
}

/// The key map is asked for at most once in fifty milliseconds, and only for a key that has a place in
/// it; and for such a key it is asked again as soon as they are over.
pub proof fn the_key_map_is_asked_for_now_and_then(last: Option<u64>, now: u64, code: u32)
    ensures
        is_code(code) <==> 1 <= code && code <= 247,
        last is None ==> !is_recent(last, now),
        last matches Some(at) ==> (is_recent(last, now) <==> now < at + 50_000_000),
{
}

} // verus!
