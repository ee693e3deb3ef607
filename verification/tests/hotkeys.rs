use poltertype::engine::consts::{FORCE_SWITCH_REARM, LAST_WORD_TTL, PASTE_GUARD};
use poltertype::engine::hotkeys::{chord_matches, suggestion_digit_index, AcceptedDigit};
use poltertype::engine::run_loop::{
    BufferView, CommandStep, EngineCommand, FeedStep, IdleStep, KeyStep, SwitchLast, WordBoundary,
};
use poltertype::engine::switcher::SwitcherEngine;
use poltertype::engine::types::{
    AcceptModifiers, Binding, Chord, KeystreamHotkeys, LastWord, PendingSuggestion, WindowDrain,
};
use poltertype::engine::window::KeyKind;
use poltertype::input::focus::SensitiveInput;
use poltertype::keys::{
    KeyDirection, KeyEvent, Modifiers, SC_BACKSPACE, SC_POINTER_BUTTON, SC_V,
};
use poltertype::layouts::{LayoutDb, LayoutId};
use poltertype::time::{Duration, Instant};

const F9: u32 = 0x43;

fn at(nanos: u128) -> Instant {
    Instant { nanos }
}

fn ctrl_shift() -> Modifiers {
    Modifiers { control: true, shift: true, ..Modifiers::none() }
}

fn event(scancode: u32, direction: KeyDirection, modifiers: Modifiers) -> KeyEvent {
    KeyEvent { vk: scancode, scancode, direction, modifiers, injected: false, timestamp_ms: 0 }
}

fn chord(scancode: u32) -> Chord {
    Chord { ctrl: true, shift: true, alt: false, meta: false, scancode }
}

fn engine() -> SwitcherEngine {
    SwitcherEngine::new(false, at(0))
}

fn bound() -> SwitcherEngine {
    let mut e = engine();
    e.keystream_hotkeys = KeystreamHotkeys {
        pause: None,
        switch_last: Some(Binding::Key(chord(F9))),
        grabbed: [None, None],
    };
    e
}

fn stash() -> LastWord {
    LastWord {
        keys: Vec::new(),
        rendered: "ab".to_owned(),
        layout: LayoutId::from("en-US"),
        boundary: None,
        corrected_to: None,
        user_placed: false,
    }
}

fn empty_buffer() -> BufferView {
    BufferView {
        keys: Vec::new(),
        completed: Vec::new(),
        boundary_run: Vec::new(),
        poisoned: false,
    }
}

fn no_layouts() -> LayoutDb {
    LayoutDb { layouts: Vec::new() }
}

#[test]
fn a_chord_is_its_key_with_exactly_its_modifiers() {
    let c = chord(F9);
    assert!(chord_matches(&event(F9, KeyDirection::Press, ctrl_shift()), c));
    let more = Modifiers { alt: true, ..ctrl_shift() };
    assert!(!chord_matches(&event(F9, KeyDirection::Press, more), c));
    assert!(!chord_matches(&event(F9 + 1, KeyDirection::Press, ctrl_shift()), c));
}

#[test]
fn the_digit_row_runs_from_one_to_nine() {
    assert_eq!(suggestion_digit_index(0x02), Some(0));
    assert_eq!(suggestion_digit_index(0x0A), Some(8));
    assert_eq!(suggestion_digit_index(0x0B), None);
    assert_eq!(suggestion_digit_index(0x01), None);
}

#[test]
fn a_matched_chord_holds_the_trigger_until_its_key_comes_up() {
    let mut e = bound();
    let hits =
        e.check_keystream_hotkeys(&event(F9, KeyDirection::Press, ctrl_shift()), at(1));
    assert!(hits.switch_last && !hits.pause);
    assert!(e.trigger_key_down());
    let again =
        e.check_keystream_hotkeys(&event(F9, KeyDirection::Press, ctrl_shift()), at(2));
    assert!(!again.switch_last);
    e.check_keystream_hotkeys(&event(F9, KeyDirection::Release, Modifiers::none()), at(3));
    assert!(!e.trigger_key_down());
}

#[test]
fn injected_events_match_nothing() {
    let mut e = bound();
    let ours = KeyEvent { injected: true, ..event(F9, KeyDirection::Press, ctrl_shift()) };
    assert!(!e.check_keystream_hotkeys(&ours, at(1)).switch_last);
    assert!(!e.trigger_key_down());
}

#[test]
fn a_grabbed_chord_is_down_while_exactly_its_modifiers_are() {
    let mut e = engine();
    e.keystream_hotkeys.grabbed = [None, Some(chord(F9))];
    assert!(!e.trigger_key_down());
    e.held_modifiers = ctrl_shift();
    assert!(e.trigger_key_down());
    e.held_modifiers = Modifiers { alt: true, ..ctrl_shift() };
    assert!(!e.trigger_key_down());
    assert!(e.is_own_switch_press(&event(F9, KeyDirection::Press, ctrl_shift())));
    assert!(e.is_own_hotkey_press(&event(F9, KeyDirection::Press, ctrl_shift())));
}

#[test]
fn a_swallowed_release_rearms_the_chord() {
    let mut e = bound();
    assert!(e.check_keystream_hotkeys(&event(F9, KeyDirection::Press, ctrl_shift()), at(1)).switch_last);
    e.observe_swallowed_release(&event(F9, KeyDirection::Release, ctrl_shift()), at(2));
    assert!(!e.chord_state.switch.key_down);
    e.observe_swallowed_release(&event(F9, KeyDirection::Press, ctrl_shift()), at(3));
    assert!(!e.chord_state.switch.key_down);
}

#[test]
fn a_digit_accepts_the_entry_of_its_number_once() {
    let mut e = engine();
    e.pending_suggestion = Some(PendingSuggestion {
        accept: Some(AcceptModifiers { ctrl: true, shift: true, alt: false, meta: false }),
        entries: 2,
        generation: 7,
    });
    let two = event(0x03, KeyDirection::Press, ctrl_shift());
    assert_eq!(e.check_suggestion_chord(&two), Some(AcceptedDigit { generation: 7, index: 1 }));
    assert_eq!(e.check_suggestion_chord(&two), None);
    e.check_suggestion_chord(&event(0x03, KeyDirection::Release, ctrl_shift()));
    assert!(e.check_suggestion_chord(&two).is_some());
    let three = event(0x04, KeyDirection::Press, ctrl_shift());
    assert_eq!(e.check_suggestion_chord(&three), None);
    let bare = event(0x02, KeyDirection::Press, Modifiers::none());
    assert_eq!(e.check_suggestion_chord(&bare), None);
}

// ─── Keys ────────────────────────────────────────────────────────────

fn route(e: &mut SwitcherEngine, ev: &KeyEvent) -> KeyStep {
    e.handle_key(ev, true, SensitiveInput::NotSensitive, at(10))
}

#[test]
fn each_key_has_its_route() {
    let mut e = bound();
    let press = |sc: u32, m: Modifiers| event(sc, KeyDirection::Press, m);
    let ours = KeyEvent { injected: true, ..press(0x1E, Modifiers::none()) };
    assert_eq!(route(&mut e, &ours), KeyStep::Ignore);
    assert_eq!(route(&mut e, &press(F9, ctrl_shift())), KeyStep::OwnSwitch);
    let ctrl = Modifiers { control: true, ..Modifiers::none() };
    assert_eq!(route(&mut e, &press(0x1E, ctrl)), KeyStep::Shortcut);
    assert_eq!(route(&mut e, &press(0x1D, ctrl)), KeyStep::Feed { freeze_offer: false });
    let meta = Modifiers { meta: true, ..Modifiers::none() };
    for win in [0x5B, 0x5C] {
        assert_eq!(route(&mut e, &press(win, meta)), KeyStep::Feed { freeze_offer: false });
    }
    assert_eq!(
        route(&mut e, &press(SC_POINTER_BUTTON, Modifiers::none())),
        KeyStep::Feed { freeze_offer: true }
    );
    e.last_word = Some(stash());
    assert_eq!(route(&mut e, &press(SC_BACKSPACE, ctrl)), KeyStep::WordDelete);
    assert!(e.last_word.is_none());
}

#[test]
fn a_secret_leaves_no_trace() {
    let mut e = engine();
    e.last_word = Some(stash());
    e.word_layout = Some(LayoutId::from("en-US"));
    let key = event(0x1E, KeyDirection::Press, Modifiers::none());
    for state in [SensitiveInput::Sensitive, SensitiveInput::Unknown] {
        assert_eq!(e.handle_key(&key, true, state, at(1)), KeyStep::Forget);
        assert!(e.last_word.is_none() && e.word_layout.is_none());
    }
    assert_eq!(
        e.handle_key(&key, false, SensitiveInput::Sensitive, at(1)),
        KeyStep::Feed { freeze_offer: false }
    );
}

#[test]
fn a_paste_opens_the_guard() {
    let mut e = engine();
    let ctrl = Modifiers { control: true, ..Modifiers::none() };
    route(&mut e, &event(SC_V, KeyDirection::Press, ctrl));
    assert_eq!(e.paste_guard_until, at(10 + PASTE_GUARD));
    let done = WordBoundary::WordCompleted {
        boundary_scancode: 0x39,
        boundary_shift: false,
        tainted: false,
        started_clean: true,
    };
    assert!(matches!(e.after_feed(done, false, at(11)), FeedStep::PasteGuarded));
    assert!(matches!(
        e.after_feed(done, false, at(10 + PASTE_GUARD)),
        FeedStep::Decide { boundary_scancode: 0x39, boundary_shift: false, started_clean: true }
    ));
}

#[test]
fn an_abandoned_or_tainted_word_drops_the_stash() {
    let mut e = engine();
    e.last_word = Some(stash());
    assert!(matches!(
        e.after_feed(WordBoundary::Abandoned, true, at(1)),
        FeedStep::Abandoned { dismiss: false }
    ));
    assert!(e.last_word.is_none());
    e.last_word = Some(stash());
    let tainted = WordBoundary::WordCompleted {
        boundary_scancode: 0x39,
        boundary_shift: false,
        tainted: true,
        started_clean: true,
    };
    assert!(matches!(e.after_feed(tainted, false, at(1)), FeedStep::Tainted { .. }));
    assert!(e.last_word.is_none());
    e.last_word = Some(stash());
    assert!(matches!(e.after_feed(WordBoundary::InProgress, false, at(1)), FeedStep::Nothing));
    assert!(e.last_word.is_some());
}

#[test]
fn a_pause_gives_up_the_word_before_the_stash() {
    let idle = Duration::from_secs(2);
    let mut e = engine();
    e.last_word = Some(stash());
    assert_eq!(e.after_pause(idle, idle, false, true), IdleStep::NotIdle);
    let long = Duration { nanos: idle.nanos + 1 };
    assert_eq!(e.after_pause(long, idle, true, true), IdleStep::OfferLives);
    assert_eq!(e.after_pause(long, idle, true, false), IdleStep::Abandon);
    assert!(e.last_word.is_some());
    let longer = Duration { nanos: LAST_WORD_TTL + 1 };
    assert_eq!(e.after_pause(longer, idle, false, true), IdleStep::Abandon);
    assert!(e.last_word.is_none());
}

#[test]
fn a_word_is_stamped_with_the_layout_of_its_first_key() {
    let mut e = engine();
    e.feed_buffer(true, false, Some(LayoutId::from("uk-UA")));
    assert_eq!(e.word_layout.as_ref().unwrap().as_str(), "uk-UA");
    e.feed_buffer(false, false, Some(LayoutId::from("en-US")));
    assert_eq!(e.word_layout.as_ref().unwrap().as_str(), "uk-UA");
}

// ─── Commands ────────────────────────────────────────────────────────

fn command(e: &mut SwitcherEngine, cmd: EngineCommand, now: Instant) -> CommandStep {
    e.handle_command(cmd, &empty_buffer(), &None, &no_layouts(), now)
}

#[test]
fn pausing_twice_is_no_change() {
    let mut e = engine();
    assert!(matches!(
        command(&mut e, EngineCommand::TogglePause, at(1)),
        CommandStep::PauseChanged { paused: true }
    ));
    assert!(matches!(
        command(&mut e, EngineCommand::SetPaused(true), at(1)),
        CommandStep::Nothing
    ));
    assert!(matches!(
        command(&mut e, EngineCommand::TogglePause, at(1)),
        CommandStep::PauseChanged { paused: false }
    ));
    assert!(!e.paused());
}

#[test]
fn an_echo_of_the_press_is_told_from_a_second_one() {
    let mut e = engine();
    e.last_force_switch = Some(at(1_000));
    e.last_word = Some(stash());
    assert!(matches!(
        command(&mut e, EngineCommand::SwitchLastForcefully, at(1_000 + FORCE_SWITCH_REARM - 1)),
        CommandStep::Switch(SwitchLast::Rearming)
    ));
    assert!(e.last_word.is_some());
    assert!(matches!(
        command(&mut e, EngineCommand::SwitchLastForcefully, at(1_000 + FORCE_SWITCH_REARM)),
        CommandStep::Switch(SwitchLast::Word { in_progress: false, .. })
    ));
    assert!(e.last_word.is_none());
    assert!(matches!(
        command(&mut e, EngineCommand::SwitchLastForcefully, at(2_000 + FORCE_SWITCH_REARM)),
        CommandStep::Switch(SwitchLast::NoWord)
    ));
}

#[test]
fn a_press_that_came_to_nothing_gives_the_word_back() {
    let mut e = engine();
    e.give_back(stash(), false, true);
    assert!(e.last_word.is_none());
    e.give_back(stash(), true, false);
    assert!(e.last_word.is_none());
    e.give_back(stash(), false, false);
    assert!(e.last_word.is_some());
}

#[test]
fn the_selection_is_tried_last() {
    let mut e = engine();
    assert!(!e.after_separator(true, true, at(5)));
    assert_eq!(e.last_force_switch, Some(at(5)));
    assert!(e.after_separator(false, true, at(6)));
    assert!(!e.after_separator(false, false, at(6)));
    assert_eq!(e.last_force_switch, Some(at(5)));
    e.after_selection(false, at(7));
    assert_eq!(e.last_force_switch, Some(at(5)));
    e.after_selection(true, at(8));
    assert_eq!(e.last_force_switch, Some(at(8)));
}

#[test]
fn offers_are_passed_on() {
    let mut e = engine();
    let accept = EngineCommand::AcceptSuggestion {
        generation: 3,
        index: 1,
        typed_digit: true,
        from_pointer: false,
    };
    assert!(matches!(
        command(&mut e, accept, at(1)),
        CommandStep::Accept { generation: 3, index: 1, typed_digit: true, from_pointer: false }
    ));
    assert!(matches!(
        command(&mut e, EngineCommand::DismissSuggestions { generation: 4 }, at(1)),
        CommandStep::Dismiss { generation: 4 }
    ));
    assert!(matches!(
        command(&mut e, EngineCommand::SettingsReloaded, at(1)),
        CommandStep::Reload
    ));
}

// ─── The correction window ───────────────────────────────────────────

#[test]
fn a_look_at_the_key_stream_takes_word_keys_and_stops_at_a_boundary() {
    let mut e = bound();
    let mut out = WindowDrain::new();
    let mut clicks: usize = 1;
    let letter = event(0x1E, KeyDirection::Press, Modifiers::none());
    assert!(e.drain_correction_window(&mut out, &letter, KeyKind::Word, &mut clicks, at(1)));
    let own = event(F9, KeyDirection::Press, ctrl_shift());
    assert!(e.drain_correction_window(&mut out, &own, KeyKind::EndAndDiscard, &mut clicks, at(1)));
    assert!(e.trigger_key_down());
    let click = event(SC_POINTER_BUTTON, KeyDirection::Press, Modifiers::none());
    assert!(e.drain_correction_window(&mut out, &click, KeyKind::EndAndDiscard, &mut clicks, at(1)));
    assert_eq!(clicks, 0);
    assert!(!out.suspicious);
    let space = event(0x39, KeyDirection::Press, Modifiers::none());
    assert!(!e.drain_correction_window(&mut out, &space, KeyKind::Boundary, &mut clicks, at(1)));
    assert_eq!(out.word_keys.len(), 1);
    assert_eq!(out.resume, Some(space));
    let mut next = WindowDrain::new();
    assert!(!e.drain_correction_window(&mut next, &click, KeyKind::EndAndDiscard, &mut clicks, at(1)));
    assert!(next.suspicious && next.stopper.is_none());
    let mut last = WindowDrain::new();
    let back = event(SC_BACKSPACE, KeyDirection::Press, Modifiers::none());
    assert!(!e.drain_correction_window(&mut last, &back, KeyKind::Backspace, &mut clicks, at(1)));
    assert_eq!(last.stopper, Some(back));
}
