//! The low-level keyboard hook as the library sees it: a level signal that
//! says whether the push-to-talk combination is held, the rule by which one
//! key event changes it, and the poller that turns the level into edges.
//!
//! The hook thread is the only writer of the signal and the poller its only
//! reader. Installing the hook and pumping its messages is the caller's part.

use vstd::prelude::*;
use crate::coordinator::Trigger;

verus! {

/// The hook code that marks an event to be looked at.
pub const HC_ACTION: i32 = 0;

/// Virtual-key code of F8, the push-to-talk key.
pub const VK_F8: i32 = 0x77;

/// Virtual-key code of F12, push-to-talk together with Control.
pub const VK_F12: i32 = 0x7B;

pub const WM_KEYDOWN: u32 = 0x0100;

pub const WM_KEYUP: u32 = 0x0101;

pub const WM_SYSKEYDOWN: u32 = 0x0104;

pub const WM_SYSKEYUP: u32 = 0x0105;

/// The nominal time between two samples of the level, in milliseconds.
pub const POLL_INTERVAL_MS: u64 = 100;

/// Whether the push-to-talk combination is held. Written by the hook alone,
/// read by the poller alone.
#[derive(Clone, Copy, Debug, PartialEq, Eq, Structural)]
pub struct HookSignal {
    pub held: bool,
}

/// What a key message says of the key.
#[derive(Clone, Copy, Debug, PartialEq, Eq, Structural)]
pub enum KeyMotion {
    Down,
    Up,
    Other,
}

/// What the hook does with one event.
#[derive(Clone, Copy, Debug, PartialEq, Eq, Structural)]
pub struct HookVerdict {
    /// The event is kept from the rest of the system.
    pub swallow: bool,
    /// The event changed the level.
    pub changed: bool,
}

/// The motion that a message type stands for: the plain and the system
/// variants of key-down and key-up, anything else is `Other`.
pub open spec fn motion_of(event_type: u32) -> KeyMotion {
    if event_type == WM_KEYDOWN || event_type == WM_SYSKEYDOWN {
        KeyMotion::Down
    } else if event_type == WM_KEYUP || event_type == WM_SYSKEYUP {
        KeyMotion::Up
    } else {
        KeyMotion::Other
    }
}

/// Whether an event belongs to the monitored combination: F8 alone, or F12
/// while a Control key is held.
pub open spec fn monitored(vk_code: i32, ctrl_held: bool) -> bool {
    vk_code == VK_F8 || (vk_code == VK_F12 && ctrl_held)
}

/// Whether the hook takes the event for itself: an event to be looked at, of
/// the monitored combination, that is a key-down or a key-up.
pub open spec fn intercepted(code: i32, vk_code: i32, event_type: u32, ctrl_held: bool) -> bool {
    code == HC_ACTION && monitored(vk_code, ctrl_held) && motion_of(event_type) != KeyMotion::Other
}

/// The level after an event: held after an intercepted key-down, released
/// after an intercepted key-up, unchanged by any other event.
pub open spec fn level_after(
    held: bool,
    code: i32,
    vk_code: i32,
    event_type: u32,
    ctrl_held: bool,
) -> bool {
    if intercepted(code, vk_code, event_type, ctrl_held) {
        motion_of(event_type) == KeyMotion::Down
    } else {
        held
    }
}

/// Tests what a message type says of the key.
pub fn key_motion(event_type: u32) -> (motion: KeyMotion)
    ensures
        motion == motion_of(event_type),
{
    if event_type == WM_KEYDOWN || event_type == WM_SYSKEYDOWN {
        KeyMotion::Down
    } else if event_type == WM_KEYUP || event_type == WM_SYSKEYUP {
        KeyMotion::Up
    } else {
        KeyMotion::Other
    }
}

/// Whether the state of the Control keys decides what an event of this key
/// means, so that the caller has to query it.
pub fn needs_modifier(vk_code: i32) -> (needed: bool)
    ensures
        needed == (monitored(vk_code, true) != monitored(vk_code, false)),
{
    vk_code == VK_F12
}

/// Handles one event of the hook: updates the level and says whether the
/// event is swallowed.
///
/// Only key-down and key-up of the monitored combination are swallowed; every
/// other event is passed on and leaves the level as it is.
pub fn keyboard_hook_proc(
    signal: &mut HookSignal,
    code: i32,
    vk_code: i32,
    event_type: u32,
    ctrl_held: bool,
) -> (verdict: HookVerdict)
    ensures
        verdict.swallow == intercepted(code, vk_code, event_type, ctrl_held),
        final(signal).held == level_after(old(signal).held, code, vk_code, event_type, ctrl_held),
        verdict.changed == (final(signal).held != old(signal).held),
{
    if code != HC_ACTION {
        return HookVerdict { swallow: false, changed: false };
    }
    if !(vk_code == VK_F8 || (vk_code == VK_F12 && ctrl_held)) {
        return HookVerdict { swallow: false, changed: false };
    }
    match key_motion(event_type) {
        KeyMotion::Down => {
            let changed = !signal.held;
            signal.held = true;
            HookVerdict { swallow: true, changed }
        },
        KeyMotion::Up => {
            let changed = signal.held;
            signal.held = false;
            HookVerdict { swallow: true, changed }
        },
        KeyMotion::Other => HookVerdict { swallow: false, changed: false },
    }
}

/// Whether the combination is currently held.
pub fn is_recording(signal: &HookSignal) -> (held: bool)
    ensures
        held == signal.held,
{
    signal.held
}

/// The edge that a sample of the level makes after the sample before it: a
/// down-edge where it rose, an up-edge where it fell, none where it stayed.
pub open spec fn edge_between(before: bool, now: bool) -> Option<Trigger> {
    if now == before {
        None
    } else if now {
        Some(Trigger::HookDown)
    } else {
        Some(Trigger::HookUp)
    }
}

/// The edges that a run of samples makes, starting from the level `before`,
/// one entry for each sample.
pub open spec fn edges(before: bool, levels: Seq<bool>) -> Seq<Option<Trigger>>
    decreases levels.len(),
{
    if levels.len() == 0 {
        Seq::empty()
    } else {
        edges(before, levels.drop_last()).push(
            edge_between(
                if levels.len() == 1 {
                    before
                } else {
                    levels[levels.len() - 2]
                },
                levels.last(),
            ),
        )
    }
}

/// How many of the entries are the given edge.
pub open spec fn count_of(events: Seq<Option<Trigger>>, edge: Trigger) -> int
    decreases events.len(),
{
    if events.len() == 0 {
        0
    } else {
        count_of(events.drop_last(), edge) + if events.last() == Some(edge) {
            1int
        } else {
            0int
        }
    }
}

/// The adapter that samples the level and reports its changes.
#[derive(Debug)]
pub struct EdgePoller {
    was_recording: bool,
}

impl View for EdgePoller {
    type V = bool;

    /// The level seen at the last sample.
    closed spec fn view(&self) -> bool {
        self.was_recording
    }
}

impl EdgePoller {
    /// A poller that has seen the combination released.
    pub fn new() -> (poller: EdgePoller)
        ensures
            poller@ == false,
    {
        EdgePoller { was_recording: false }
    }

    /// Takes one sample of the level and reports the edge it makes, if any.
    pub fn poll(&mut self, is_recording: bool) -> (edge: Option<Trigger>)
        ensures
            edge == edge_between(old(self)@, is_recording),
            final(self)@ == is_recording,
    {
        if is_recording == self.was_recording {
            return None;
        }
        self.was_recording = is_recording;
        if is_recording {
            Some(Trigger::HookDown)
        } else {
            Some(Trigger::HookUp)
        }
    }
}

/// A level that does not change between two samples raises no event at the
/// second.
pub proof fn lemma_steady_level_is_silent(level: bool)
    ensures
        edge_between(level, level) is None,
{
}

/// Down-edges and up-edges alternate: over any run of samples, the down-edges
/// outnumber the up-edges by one where the run starts released and ends held,
/// the up-edges the down-edges by one where it starts held and ends released,
/// and they are as many where it ends as it started.
pub proof fn lemma_edges_balance(before: bool, levels: Seq<bool>)
    ensures
        edges(before, levels).len() == levels.len(),
        ({
            let events = edges(before, levels);
            let end = if levels.len() == 0 {
                before
            } else {
                levels.last()
            };
            count_of(events, Trigger::HookDown) - count_of(events, Trigger::HookUp) == (if end {
                1int
            } else {
                0int
            }) - (if before {
                1int
            } else {
                0int
            })
        }),
    decreases levels.len(),
{
    if levels.len() > 0 {
        lemma_edges_balance(before, levels.drop_last());
        let events = edges(before, levels);
        let earlier = edges(before, levels.drop_last());
        assert(events.drop_last() =~= earlier);
        if levels.len() >= 2 {
            assert(levels.drop_last().last() == levels[levels.len() - 2]);
        }
    }
}

} // verus!
