use poltertype::engine::consts::ECHO_EXPIRY;
use poltertype::engine::switcher::SwitcherEngine;
use poltertype::keys::{KeyDirection, KeyEvent, Modifiers};
use poltertype::time::Instant;

fn at(nanos: u128) -> Instant {
    Instant { nanos }
}

fn event(scancode: u32, direction: KeyDirection) -> KeyEvent {
    KeyEvent {
        vk: scancode,
        scancode,
        direction,
        modifiers: Modifiers::none(),
        injected: false,
        timestamp_ms: 0,
    }
}

fn press(scancode: u32) -> KeyEvent {
    event(scancode, KeyDirection::Press)
}

#[test]
fn each_echo_is_swallowed_once() {
    let mut e = SwitcherEngine::new(false, at(0));
    e.push_echoes(&vec![0x0E, 0x1E, 0x0E], at(10));
    assert!(e.consume_echo(&press(0x0E), at(20)));
    assert!(e.consume_echo(&press(0x0E), at(20)));
    assert!(!e.consume_echo(&press(0x0E), at(20)), "the third is the user's");
    assert!(e.echo_pending(at(20)));
    assert!(e.consume_echo(&press(0x1E), at(20)));
    assert!(!e.echo_pending(at(20)));
}

#[test]
fn a_release_is_nobodys_echo() {
    let mut e = SwitcherEngine::new(false, at(0));
    e.push_echoes(&vec![0x1E], at(0));
    assert!(!e.consume_echo(&event(0x1E, KeyDirection::Release), at(1)));
    assert!(!e.consume_echo(&press(0x1F), at(1)));
    assert!(e.consume_echo(&press(0x1E), at(1)));
}

#[test]
fn an_echo_that_never_comes_is_given_up() {
    let mut e = SwitcherEngine::new(false, at(0));
    e.push_echoes(&vec![0x1E], at(0));
    e.push_echoes(&vec![0x1F], at(5));
    assert!(e.echo_pending(at(ECHO_EXPIRY - 1)));
    assert!(!e.consume_echo(&press(0x1E), at(ECHO_EXPIRY)), "overdue: the user's own press");
    assert!(e.consume_echo(&press(0x1F), at(ECHO_EXPIRY)));
    assert!(!e.echo_pending(at(ECHO_EXPIRY)));
}
