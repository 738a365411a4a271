use voice2text::coordinator::Trigger;
use voice2text::keyboard_hook::{
    is_recording, key_motion, keyboard_hook_proc, needs_modifier, EdgePoller, HookSignal, HookVerdict,
    KeyMotion, HC_ACTION, POLL_INTERVAL_MS, VK_F12, VK_F8, WM_KEYDOWN, WM_KEYUP, WM_SYSKEYDOWN,
    WM_SYSKEYUP,
};

const VK_A: i32 = 0x41;
const WM_CHAR: u32 = 0x0102;

#[test]
fn the_constants_are_those_of_the_platform() {
    assert_eq!(HC_ACTION, 0);
    assert_eq!(VK_F8, 119);
    assert_eq!(VK_F12, 123);
    assert_eq!(WM_KEYDOWN, 256);
    assert_eq!(WM_KEYUP, 257);
    assert_eq!(WM_SYSKEYDOWN, 260);
    assert_eq!(WM_SYSKEYUP, 261);
    assert_eq!(POLL_INTERVAL_MS, 100);
}

#[test]
fn key_motion_reads_plain_and_system_messages() {
    assert_eq!(key_motion(WM_KEYDOWN), KeyMotion::Down);
    assert_eq!(key_motion(WM_SYSKEYDOWN), KeyMotion::Down);
    assert_eq!(key_motion(WM_KEYUP), KeyMotion::Up);
    assert_eq!(key_motion(WM_SYSKEYUP), KeyMotion::Up);
    assert_eq!(key_motion(WM_CHAR), KeyMotion::Other);
    assert_eq!(key_motion(0), KeyMotion::Other);
}

#[test]
fn only_f12_needs_the_modifier_state() {
    assert!(needs_modifier(VK_F12));
    assert!(!needs_modifier(VK_F8));
    assert!(!needs_modifier(VK_A));
}

#[test]
fn f8_down_raises_the_level_and_is_swallowed() {
    let mut signal = HookSignal { held: false };
    let verdict = keyboard_hook_proc(&mut signal, HC_ACTION, VK_F8, WM_KEYDOWN, false);
    assert_eq!(verdict, HookVerdict { swallow: true, changed: true });
    assert!(is_recording(&signal));
}

#[test]
fn f8_up_drops_the_level_and_is_swallowed() {
    let mut signal = HookSignal { held: true };
    let verdict = keyboard_hook_proc(&mut signal, HC_ACTION, VK_F8, WM_KEYUP, false);
    assert_eq!(verdict, HookVerdict { swallow: true, changed: true });
    assert!(!is_recording(&signal));
}

#[test]
fn a_repeated_f8_down_is_swallowed_without_a_change() {
    let mut signal = HookSignal { held: true };
    let verdict = keyboard_hook_proc(&mut signal, HC_ACTION, VK_F8, WM_KEYDOWN, false);
    assert_eq!(verdict, HookVerdict { swallow: true, changed: false });
    assert!(is_recording(&signal));
    let mut released = HookSignal { held: false };
    let up = keyboard_hook_proc(&mut released, HC_ACTION, VK_F8, WM_SYSKEYUP, true);
    assert_eq!(up, HookVerdict { swallow: true, changed: false });
    assert!(!is_recording(&released));
}

#[test]
fn f12_counts_only_with_control() {
    let mut signal = HookSignal { held: false };
    let without = keyboard_hook_proc(&mut signal, HC_ACTION, VK_F12, WM_KEYDOWN, false);
    assert_eq!(without, HookVerdict { swallow: false, changed: false });
    assert!(!is_recording(&signal));
    let with = keyboard_hook_proc(&mut signal, HC_ACTION, VK_F12, WM_SYSKEYDOWN, true);
    assert_eq!(with, HookVerdict { swallow: true, changed: true });
    assert!(is_recording(&signal));
    let up_without = keyboard_hook_proc(&mut signal, HC_ACTION, VK_F12, WM_KEYUP, false);
    assert_eq!(up_without, HookVerdict { swallow: false, changed: false });
    assert!(is_recording(&signal));
    let up_with = keyboard_hook_proc(&mut signal, HC_ACTION, VK_F12, WM_KEYUP, true);
    assert_eq!(up_with, HookVerdict { swallow: true, changed: true });
    assert!(!is_recording(&signal));
}

#[test]
fn every_other_event_is_passed_on_unchanged() {
    for held in [false, true] {
        for (code, vk, event, ctrl) in [
            (HC_ACTION, VK_A, WM_KEYDOWN, false),
            (HC_ACTION, VK_A, WM_KEYUP, true),
            (HC_ACTION, VK_F8, WM_CHAR, false),
            (HC_ACTION, VK_F12, WM_CHAR, true),
            (1, VK_F8, WM_KEYDOWN, false),
            (-1, VK_F8, WM_KEYUP, false),
            (3, VK_F12, WM_KEYDOWN, true),
        ] {
            let mut signal = HookSignal { held };
            let verdict = keyboard_hook_proc(&mut signal, code, vk, event, ctrl);
            assert_eq!(verdict, HookVerdict { swallow: false, changed: false });
            assert_eq!(is_recording(&signal), held);
        }
    }
}

#[test]
fn is_recording_reads_the_level() {
    assert!(is_recording(&HookSignal { held: true }));
    assert!(!is_recording(&HookSignal { held: false }));
}

#[test]
fn poll_reports_a_change_once() {
    let mut poller = EdgePoller::new();
    assert_eq!(poller.poll(false), None);
    assert_eq!(poller.poll(true), Some(Trigger::HookDown));
    assert_eq!(poller.poll(true), None);
    assert_eq!(poller.poll(true), None);
    assert_eq!(poller.poll(false), Some(Trigger::HookUp));
    assert_eq!(poller.poll(false), None);
}

#[test]
fn a_flip_is_seen_at_the_next_poll_and_not_before() {
    let level_at = |t: u64| 50 <= t && t < 120;
    let mut poller = EdgePoller::new();
    let mut events: Vec<(u64, Trigger)> = Vec::new();
    let mut t = POLL_INTERVAL_MS;
    while t <= 500 {
        if let Some(edge) = poller.poll(level_at(t)) {
            events.push((t, edge));
        }
        t += POLL_INTERVAL_MS;
    }
    assert_eq!(events, vec![(100, Trigger::HookDown), (200, Trigger::HookUp)]);
    assert!(50 <= events[0].0 && events[0].0 <= 50 + POLL_INTERVAL_MS);
    assert!(120 <= events[1].0 && events[1].0 <= 120 + POLL_INTERVAL_MS);
}

#[test]
fn a_press_shorter_than_the_interval_between_two_polls_is_not_seen() {
    let level_at = |t: u64| 110 <= t && t < 190;
    let mut poller = EdgePoller::new();
    let mut seen = 0;
    let mut t = POLL_INTERVAL_MS;
    while t <= 400 {
        if poller.poll(level_at(t)).is_some() {
            seen += 1;
        }
        t += POLL_INTERVAL_MS;
    }
    assert_eq!(seen, 0);
}

#[test]
fn down_and_up_edges_alternate() {
    let levels = [true, true, false, true, false, false, true, true, false];
    let mut poller = EdgePoller::new();
    let mut downs = 0;
    let mut ups = 0;
    for level in levels {
        match poller.poll(level) {
            Some(Trigger::HookDown) => downs += 1,
            Some(Trigger::HookUp) => ups += 1,
            _ => {}
        }
        assert!(downs == ups || downs == ups + 1);
    }
    assert_eq!(downs, 3);
    assert_eq!(ups, 3);
}
