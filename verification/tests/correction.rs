use poltertype::engine::events::{selection_announcement, SwitcherEvent};
use poltertype::engine::consts::{
    CHORD_RELEASE_WAIT, LAYOUT_SETTLE, SELECTION_COPY_WAIT,
};
use poltertype::engine::correction::{
    Action, Aftermath, CorrectionRun, KeysOutcome, Readings, Reply,
};
use poltertype::engine::selection::{
    converted, SelectionAction, SelectionPhase, SelectionReply, SelectionRun,
};
use poltertype::engine::types::{Correction, WindowDrain};
use poltertype::keys::{KeyDirection, KeyEvent, Modifiers, ReplayKey};
use poltertype::layouts::{CharKey, KeyLevel, LayoutDb, LayoutId, LayoutMapping};
use poltertype::time::Instant;

fn id(s: &str) -> LayoutId {
    LayoutId::from(s)
}

fn db() -> LayoutDb {
    let mapping = |chars: &str| -> LayoutMapping {
        let mut levels = Vec::new();
        let mut table = Vec::new();
        for (i, ch) in chars.chars().enumerate() {
            let scancode = i as u32 + 1;
            levels.push(KeyLevel { scancode, shift: false, caps: false, ch });
            table.push(CharKey { ch, scancode, shift: false });
        }
        LayoutMapping { levels, chars: table }
    };
    LayoutDb { layouts: vec![(id("en-US"), mapping("ab")), (id("uk-UA"), mapping("фи"))] }
}

fn correction(to: &str) -> Correction {
    Correction {
        from: id("en-US"),
        to: id(to),
        original: "ab".to_owned(),
        corrected: "фи ".to_owned(),
        backspaces: 3,
        reason: "test".to_owned(),
        play_sound: true,
        replay_keys: Some(vec![
            ReplayKey { scancode: 1, shift: false },
            ReplayKey { scancode: 2, shift: false },
            ReplayKey { scancode: 0x39, shift: false },
        ]),
        pointer_click_allowance: 0,
    }
}

fn press(scancode: u32) -> KeyEvent {
    KeyEvent {
        vk: scancode,
        scancode,
        direction: KeyDirection::Press,
        modifiers: Modifiers::none(),
        injected: false,
        timestamp_ms: 0,
    }
}

/// A host that answers everything in the obvious way; what it was asked is
/// written down.
struct Host {
    now: u128,
    trigger_down: bool,
    /// The hotkey comes up with the first look at the key stream.
    lets_go: bool,
    held: Modifiers,
    list: Option<Vec<LayoutId>>,
    gate: bool,
    keys: KeysOutcome,
    fail_delete: Option<usize>,
    deletes: usize,
    verified: Option<bool>,
    shortcut: (bool, Option<usize>),
    windows: Vec<WindowDrain>,
    trace: Vec<String>,
    run: Option<CorrectionRun>,
}

impl Host {
    fn new() -> Self {
        Host {
            now: 1_000_000_000,
            trigger_down: false,
            lets_go: false,
            held: Modifiers::none(),
            list: Some(vec![id("en-US"), id("uk-UA")]),
            gate: false,
            keys: KeysOutcome::Sent,
            fail_delete: None,
            deletes: 0,
            verified: None,
            shortcut: (false, None),
            windows: Vec::new(),
            trace: Vec::new(),
            run: None,
        }
    }

    fn drive(&mut self, c: Correction, live: bool) -> (bool, Aftermath) {
        let mut run = CorrectionRun::new(c, live);
        let mut reply = Reply::Started;
        loop {
            let r = Readings {
                now: Instant { nanos: self.now },
                trigger_down: self.trigger_down,
                held: self.held,
            };
            reply = match run.step(&db(), reply, r) {
                Action::Sleep(n) => {
                    self.now += n;
                    Reply::Slept
                }
                Action::Poll => {
                    self.trigger_down = self.trigger_down && !self.lets_go;
                    let drain = if self.windows.is_empty() {
                        WindowDrain::new()
                    } else {
                        self.windows.remove(0)
                    };
                    Reply::Window { drain, echo_pending: false }
                }
                Action::ListActive => Reply::Layouts(self.list.clone()),
                Action::SwitchTo => {
                    self.trace.push("switch".to_owned());
                    Reply::Done(true)
                }
                Action::VerifySwitched => Reply::Verified(self.verified),
                Action::AskShortcut => {
                    Reply::Shortcut { found: self.shortcut.0, layouts: self.shortcut.1 }
                }
                Action::PressShortcut => {
                    self.trace.push("shortcut".to_owned());
                    Reply::Done(true)
                }
                Action::ReleaseModifiers(_) => {
                    self.trace.push("release".to_owned());
                    self.held = Modifiers::none();
                    Reply::Done(true)
                }
                Action::AcquireGate => Reply::Gate(self.gate),
                Action::Backspaces(n) => {
                    self.trace.push(format!("delete {n}"));
                    self.deletes += 1;
                    Reply::Done(self.fail_delete != Some(self.deletes))
                }
                Action::Keys(k) => {
                    self.trace.push(format!("keys {}", k.len()));
                    Reply::Keys(self.keys)
                }
                Action::Text(t) => {
                    self.trace.push(format!("text {t}"));
                    Reply::Done(true)
                }
                Action::FlushHeld(k) => {
                    self.trace.push(format!("flush {}", k.len()));
                    Reply::Done(true)
                }
                Action::ReleaseGate => {
                    self.trace.push("let go".to_owned());
                    Reply::Done(true)
                }
                Action::Announce { sound, switched } => {
                    self.trace.push(format!("announce {sound} {switched}"));
                    Reply::Done(true)
                }
                Action::Finish { applied, aftermath } => {
                    self.run = Some(run);
                    return (applied, aftermath);
                }
            };
        }
    }
}

#[test]
fn the_layout_comes_first_and_the_text_after() {
    let mut h = Host::new();
    let start = h.now;
    let end = h.drive(correction("uk-UA"), true);
    assert_eq!(end, (true, Aftermath::Reassemble));
    assert_eq!(h.trace, vec!["switch", "delete 3", "keys 3", "announce true true"]);
    assert!(h.now - start >= LAYOUT_SETTLE);
}

#[test]
fn a_replacement_within_one_layout_switches_nothing() {
    let mut h = Host::new();
    let end = h.drive(correction("en-US"), false);
    assert_eq!(end, (true, Aftermath::Nothing));
    assert_eq!(h.trace, vec!["delete 3", "keys 3", "announce true false"]);
}

#[test]
fn a_layout_the_desktop_does_not_have_is_not_tried() {
    let mut h = Host::new();
    h.list = Some(vec![id("en-US")]);
    assert_eq!(h.drive(correction("uk-UA"), true), (false, Aftermath::Nothing));
    assert!(h.trace.is_empty());
    let mut unknown = Host::new();
    unknown.list = None;
    assert!(unknown.drive(correction("uk-UA"), true).0);
}

#[test]
fn a_deletion_that_fails_leaves_the_text_alone() {
    let mut h = Host::new();
    h.fail_delete = Some(1);
    assert_eq!(h.drive(correction("uk-UA"), true), (false, Aftermath::Nothing));
    assert_eq!(h.trace, vec!["switch", "delete 3"]);
}

#[test]
fn once_the_text_was_touched_the_answer_says_so() {
    let mut h = Host::new();
    h.keys = KeysOutcome::Failed;
    let (applied, _) = h.drive(correction("uk-UA"), true);
    assert!(applied, "the word was deleted, so the text is not untouched");
}

#[test]
fn a_backend_without_keys_types_the_text() {
    let mut h = Host::new();
    h.keys = KeysOutcome::Unsupported;
    let mut first = WindowDrain::new();
    first.word_keys = vec![press(2)];
    first.saw_user_press = true;
    h.windows = vec![first];
    assert!(h.drive(correction("uk-UA"), true).0);
    assert_eq!(h.trace, vec!["switch", "delete 4", "keys 4", "text фи и", "announce true true"]);
}

#[test]
fn held_modifiers_are_let_go_before_anything_is_typed() {
    let mut h = Host::new();
    h.held = Modifiers { control: true, ..Modifiers::none() };
    assert!(h.drive(correction("uk-UA"), true).0);
    assert_eq!(h.trace[..2], ["switch", "release"]);
}

#[test]
fn a_key_that_stays_down_ends_the_run_untouched() {
    let mut h = Host::new();
    h.trigger_down = true;
    let start = h.now;
    assert_eq!(h.drive(correction("uk-UA"), true), (false, Aftermath::Nothing));
    assert!(h.trace.is_empty());
    assert!(h.now - start >= CHORD_RELEASE_WAIT);
    let mut blind = Host::new();
    blind.trigger_down = true;
    assert_eq!(blind.drive(correction("uk-UA"), false), (false, Aftermath::Nothing));
    assert_eq!(blind.now, 1_000_000_000);
}

#[test]
fn a_line_sent_while_the_hotkey_was_down_is_not_sent_again() {
    for (submission, sends) in [(0x1C, true), (0x0F, true), (0x60, true), (0x39, false)] {
        let mut h = Host::new();
        h.trigger_down = true;
        h.lets_go = true;
        let mut w = WindowDrain::new();
        w.resume = Some(press(submission));
        w.saw_user_press = true;
        h.windows = vec![w];
        let end = h.drive(correction("uk-UA"), true);
        if sends {
            assert_eq!(end, (false, Aftermath::Uncertain { layout_changed: true }));
            assert_eq!(h.trace, vec!["switch"], "nothing is erased, nothing pressed");
        } else {
            assert_eq!(end, (true, Aftermath::Reassemble));
            assert_eq!(h.trace, vec!["switch", "delete 4", "keys 4", "announce true true"]);
        }
    }
}

#[test]
fn what_was_swallowed_while_waiting_is_given_back() {
    let mut h = Host::new();
    h.trigger_down = true;
    let mut w = WindowDrain::new();
    w.word_keys = vec![press(1)];
    w.saw_user_press = true;
    h.windows = vec![w];
    assert_eq!(h.drive(correction("uk-UA"), true), (false, Aftermath::KeyStillDown));
    assert_eq!(h.run.unwrap().tail.len(), 1);
}

#[test]
fn a_shortcut_before_the_deletion_calls_everything_off() {
    let mut h = Host::new();
    let mut w = WindowDrain::new();
    w.suspicious = true;
    w.saw_user_press = true;
    h.windows = vec![w];
    let end = h.drive(correction("uk-UA"), true);
    assert_eq!(end, (false, Aftermath::Uncertain { layout_changed: true }));
    assert_eq!(h.trace, vec!["switch"]);
}

#[test]
fn keystrokes_held_back_are_typed_out_before_the_keyboard_is_let_go() {
    let mut h = Host::new();
    h.gate = true;
    let quiet = WindowDrain::new;
    let mut late = WindowDrain::new();
    late.word_keys = vec![press(1), press(2)];
    late.saw_user_press = true;
    h.windows = vec![quiet(), quiet(), quiet(), late];
    let (applied, aftermath) = h.drive(correction("uk-UA"), true);
    assert!(applied);
    assert_eq!(aftermath, Aftermath::Reassemble);
    assert_eq!(
        h.trace,
        vec!["switch", "delete 3", "keys 3", "flush 2", "let go", "announce true true"]
    );
    assert_eq!(h.run.unwrap().tail.len(), 2);
}

#[test]
fn an_intruder_that_cannot_be_placed_leaves_the_screen_as_it_is() {
    let mut h = Host::new();
    let quiet = WindowDrain::new;
    let mut click = WindowDrain::new();
    click.suspicious = true;
    click.saw_user_press = true;
    h.windows = vec![quiet(), quiet(), quiet(), quiet(), click];
    let end = h.drive(correction("uk-UA"), true);
    assert_eq!(end, (true, Aftermath::Unplaced));
    assert_eq!(h.trace.iter().filter(|t| t.starts_with("keys")).count(), 1);
}

#[test]
fn the_keyboard_is_let_go_however_a_correction_ends() {
    let mut failed = Host::new();
    failed.gate = true;
    failed.fail_delete = Some(1);
    assert_eq!(failed.drive(correction("uk-UA"), true), (false, Aftermath::Nothing));
    assert_eq!(failed.trace, vec!["switch", "delete 3", "let go"]);

    let mut half = Host::new();
    half.gate = true;
    half.keys = KeysOutcome::Failed;
    assert_eq!(half.drive(correction("uk-UA"), true), (true, Aftermath::Nothing));
    assert_eq!(half.trace, vec!["switch", "delete 3", "keys 3", "let go"]);

    let mut alone = Host::new();
    alone.gate = true;
    assert_eq!(alone.drive(correction("uk-UA"), false), (true, Aftermath::Nothing));
    assert_eq!(
        alone.trace,
        vec!["switch", "delete 3", "keys 3", "announce true true", "let go"]
    );
}

#[test]
fn the_desktops_shortcut_is_pressed_once_per_layout() {
    let mut three = Host::new();
    three.verified = Some(false);
    three.shortcut = (true, Some(3));
    assert_eq!(three.drive(correction("uk-UA"), true), (false, Aftermath::Nothing));
    assert_eq!(three.trace, vec!["switch", "shortcut", "shortcut", "shortcut"]);

    let mut unknown = Host::new();
    unknown.verified = Some(false);
    unknown.shortcut = (true, None);
    assert_eq!(unknown.drive(correction("uk-UA"), true), (false, Aftermath::Nothing));
    assert_eq!(unknown.trace, vec!["switch", "shortcut", "shortcut"]);

    let mut none = Host::new();
    none.verified = Some(false);
    none.shortcut = (false, Some(3));
    assert_eq!(none.drive(correction("uk-UA"), true), (false, Aftermath::Nothing));
    assert_eq!(none.trace, vec!["switch"]);
}

// ─── Selections ──────────────────────────────────────────────────────

struct SelectionHost {
    now: u128,
    clipboard: Option<String>,
    copied: Option<String>,
    result: Option<String>,
    paste_works: bool,
    pasted: Vec<String>,
    restored: Vec<String>,
    announced: Vec<SwitcherEvent>,
}

fn convert(h: &mut SelectionHost, has_clipboard: bool) -> bool {
    let mut run = SelectionRun::new();
    let mut reply = SelectionReply::Started { has_clipboard };
    loop {
        let action = run.step(reply, Instant { nanos: h.now }, Modifiers::none());
        reply = match action {
            SelectionAction::ReadClipboard => SelectionReply::Text(h.clipboard.clone()),
            SelectionAction::ReleaseModifiers(_) => SelectionReply::Done(true),
            SelectionAction::Sleep(n) => {
                h.now += n;
                SelectionReply::Slept
            }
            SelectionAction::PressCopy => {
                if h.copied.is_some() {
                    h.clipboard = h.copied.clone();
                }
                SelectionReply::Done(true)
            }
            SelectionAction::Convert(_) => SelectionReply::Converted(h.result.clone()),
            SelectionAction::SetClipboard(t) => {
                h.clipboard = Some(t);
                SelectionReply::Done(true)
            }
            SelectionAction::PressPaste => {
                if h.paste_works {
                    h.pasted.push(h.clipboard.clone().unwrap());
                }
                SelectionReply::Done(h.paste_works)
            }
            SelectionAction::Restore(t) => {
                h.clipboard = Some(t.clone());
                h.restored.push(t);
                SelectionReply::Done(true)
            }
            SelectionAction::Announce { original, text } => {
                let (from, to) = (id("en-US"), id("uk-UA"));
                h.announced.push(selection_announcement(&from, &to, original, text));
                SelectionReply::Done(true)
            }
            SelectionAction::Finish { converted } => {
                assert_eq!(run.phase, SelectionPhase::Finished);
                return converted;
            }
        };
    }
}

fn selection_host() -> SelectionHost {
    SelectionHost {
        now: 0,
        clipboard: Some("mine".to_owned()),
        copied: Some("ab".to_owned()),
        result: Some("фи".to_owned()),
        paste_works: true,
        pasted: Vec::new(),
        restored: Vec::new(),
        announced: Vec::new(),
    }
}

#[test]
fn a_selection_is_converted_and_the_clipboard_put_back() {
    let mut h = selection_host();
    assert!(convert(&mut h, true));
    assert_eq!(h.pasted, vec!["фи"]);
    assert_eq!(h.clipboard.as_deref(), Some("mine"));
    assert_eq!(h.announced.len(), 1);
    match &h.announced[0] {
        SwitcherEvent::Corrected {
            from_layout,
            to_layout,
            original_text,
            corrected_text,
            reason,
        } => {
            assert_eq!((from_layout.as_str(), to_layout.as_str()), ("en-US", "uk-UA"));
            assert_eq!((original_text.as_str(), corrected_text.as_str()), ("ab", "фи"));
            assert_eq!(reason, "selection conversion");
        }
        _ => panic!("a conversion is announced as a correction"),
    }
}

#[test]
fn a_selection_that_is_no_wrong_layout_text_is_left_alone() {
    let mut h = selection_host();
    h.result = None;
    assert!(!convert(&mut h, true));
    assert!(h.pasted.is_empty());
    assert!(h.announced.is_empty());
    assert_eq!(h.restored, vec!["mine"]);
}

#[test]
fn no_selection_is_waited_for_and_given_up() {
    let mut h = selection_host();
    h.copied = None;
    assert!(!convert(&mut h, true));
    assert!(h.now >= SELECTION_COPY_WAIT);
    assert_eq!(h.restored, vec!["mine"]);
    let mut none = selection_host();
    assert!(!convert(&mut none, false));
    assert!(none.restored.is_empty());
}

#[test]
fn a_paste_that_fails_still_gives_the_clipboard_back() {
    let mut h = selection_host();
    h.paste_works = false;
    assert!(!convert(&mut h, true));
    assert_eq!(h.clipboard.as_deref(), Some("mine"));
    let mut empty = selection_host();
    empty.clipboard = None;
    assert!(convert(&mut empty, true));
    assert!(empty.restored.is_empty());
    assert_eq!(empty.announced.len(), 1);
}

#[test]
fn a_selection_goes_from_the_current_layout_to_the_next() {
    let db = db();
    let pair = converted(&db, None, &Some(id("en-US"))).unwrap();
    assert_eq!((pair.0.as_str(), pair.1.as_str()), ("en-US", "uk-UA"));
    assert!(converted(&db, None, &None).is_none());
    assert!(converted(&db, None, &Some(id("xx-YY"))).is_none());
}
