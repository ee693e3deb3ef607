use poltertype::engine::force_switch::next_layout_after;
use poltertype::engine::held::{emit_held_keys, HeldOp};
use poltertype::engine::switcher::SwitcherEngine;
use poltertype::engine::types::{LastWord, WordBoundaryKey};
use poltertype::keys::{ReplayKey, WordKey};
use poltertype::layouts::{CharKey, KeyLevel, LayoutDb, LayoutId, LayoutMapping};
use poltertype::time::Instant;

/// A layout of three keys: 1, 2 and 3 type the given characters.
fn mapping(chars: &str) -> LayoutMapping {
    let mut levels = Vec::new();
    let mut table = Vec::new();
    for (i, ch) in chars.chars().enumerate() {
        let scancode = i as u32 + 1;
        levels.push(KeyLevel { scancode, shift: false, caps: false, ch });
        table.push(CharKey { ch, scancode, shift: false });
    }
    LayoutMapping { levels, chars: table }
}

fn id(s: &str) -> LayoutId {
    LayoutId::from(s)
}

fn db() -> LayoutDb {
    LayoutDb {
        layouts: vec![
            (id("uk-UA"), mapping("аб.")),
            (id("en-US"), mapping("ab,")),
            (id("de-DE"), mapping("xy,")),
        ],
    }
}

fn key(scancode: u32) -> WordKey {
    WordKey { scancode, shift: false, caps: false, timestamp_ms: 0 }
}

fn word(boundary: Option<WordBoundaryKey>) -> LastWord {
    LastWord {
        keys: vec![key(1), key(2)],
        rendered: "ab".to_owned(),
        layout: id("en-US"),
        boundary,
        corrected_to: None,
        user_placed: false,
    }
}

fn name(next: Option<LayoutId>) -> Option<String> {
    next.map(|l| l.as_str().to_owned())
}

#[test]
fn the_ring_follows_the_desktop() {
    let db = db();
    let os = [id("en-US"), id("fr-FR"), id("uk-UA")];
    assert_eq!(name(next_layout_after(&db, Some(&os), &id("en-US"))).as_deref(), Some("uk-UA"));
    assert_eq!(name(next_layout_after(&db, Some(&os), &id("uk-UA"))).as_deref(), Some("en-US"));
}

#[test]
fn without_a_desktop_every_layout_comes_up_in_turn() {
    let db = db();
    let mut at = id("en-US");
    let mut seen = Vec::new();
    for _ in 0..3 {
        at = next_layout_after(&db, None, &at).unwrap();
        seen.push(at.as_str().to_owned());
    }
    assert_eq!(seen, vec!["uk-UA", "de-DE", "en-US"]);
}

#[test]
fn a_desktop_without_the_current_layout_is_not_asked() {
    let db = db();
    let os = [id("uk-UA"), id("de-DE")];
    assert_eq!(name(next_layout_after(&db, Some(&os), &id("en-US"))).as_deref(), Some("uk-UA"));
    assert_eq!(name(next_layout_after(&db, None, &id("xx-YY"))), None);
    let lone = LayoutDb { layouts: vec![(id("en-US"), mapping("ab,"))] };
    assert_eq!(name(next_layout_after(&lone, None, &id("en-US"))), None);
}

#[test]
fn a_press_moves_the_word_and_its_separator() {
    let b = WordBoundaryKey { ch: ',', scancode: 3, shift: false };
    let os = [id("en-US"), id("uk-UA")];
    let c = SwitcherEngine::force_switch_last(&word(Some(b)), &db(), Some(&os), true).unwrap();
    assert_eq!((c.from.as_str(), c.to.as_str()), ("en-US", "uk-UA"));
    assert_eq!((c.original.as_str(), c.corrected.as_str()), ("ab", "аб,"));
    assert_eq!(c.backspaces, 3);
    assert_eq!(c.reason, "manual switch-last hotkey");
    assert!(c.play_sound);
    // The target has no comma of its own: the key is kept as it was.
    let keys: Vec<u32> = c.replay_keys.unwrap().iter().map(|k| k.scancode).collect();
    assert_eq!(keys, vec![1, 2, 3]);
}

#[test]
fn enter_is_put_back_as_a_space() {
    let b = WordBoundaryKey { ch: '\n', scancode: 0x1C, shift: false };
    let c = SwitcherEngine::force_switch_last(&word(Some(b)), &db(), None, false).unwrap();
    let last = *c.replay_keys.unwrap().last().unwrap();
    assert_eq!(last, ReplayKey { scancode: 0x39, shift: false });
    assert!(c.corrected.ends_with('\n'));
}

#[test]
fn one_press_undoes_a_correction_and_a_second_redoes_it() {
    let os = [id("en-US"), id("uk-UA")];
    let mut engine = SwitcherEngine::new(false, Instant { nanos: 0 });
    let mut w = word(None);
    w.corrected_to = Some(id("uk-UA"));
    let c = SwitcherEngine::force_switch_last(&w, &db(), Some(&os), false).unwrap();
    assert_eq!(c.to.as_str(), "en-US");
    assert_eq!(c.original, "аб");
    assert_eq!(c.reason, "manual switch-last hotkey (undoing a correction)");
    engine.force_switched(w, &c.to, Instant { nanos: 7 });
    assert_eq!(engine.last_force_switch, Some(Instant { nanos: 7 }));
    let placed = engine.last_word.take().unwrap();
    assert!(placed.user_placed && placed.corrected_to.is_none());
    let again = SwitcherEngine::force_switch_last(&placed, &db(), Some(&os), false).unwrap();
    assert_eq!(again.to.as_str(), "uk-UA");
    assert_eq!(again.reason, "manual switch-last hotkey");
    engine.force_switched(placed, &again.to, Instant { nanos: 9 });
    let placed = engine.last_word.take().unwrap();
    let back = SwitcherEngine::force_switch_last(&placed, &db(), Some(&os), false).unwrap();
    assert_eq!(back.to.as_str(), "en-US");
}

#[test]
fn a_word_typed_in_an_unknown_layout_has_nowhere_to_go_back_to() {
    let mut w = word(None);
    w.layout = id("xx-YY");
    w.corrected_to = Some(id("en-US"));
    assert!(SwitcherEngine::force_switch_last(&w, &db(), None, false).is_none());
}

#[test]
fn a_separator_is_switched_where_it_reads_differently() {
    let os = [id("en-US"), id("uk-UA")];
    let current = Some(id("en-US"));
    let run = vec![(0x39, false), (3, false)];
    let c = SwitcherEngine::force_switch_separator(&run, &current, &db(), Some(&os), false).unwrap();
    assert_eq!((c.original.as_str(), c.corrected.as_str()), (",", "."));
    assert_eq!(c.backspaces, 1);
    let same = [id("en-US"), id("de-DE")];
    assert!(SwitcherEngine::force_switch_separator(&run, &current, &db(), Some(&same), false).is_none());
    for sc in [0x39, 0x1C] {
        let run = vec![(sc, false)];
        assert!(
            SwitcherEngine::force_switch_separator(&run, &current, &db(), Some(&os), false).is_none()
        );
    }
    assert!(SwitcherEngine::force_switch_separator(&Vec::new(), &current, &db(), Some(&os), false)
        .is_none());
    assert!(SwitcherEngine::force_switch_separator(&run, &None, &db(), Some(&os), false).is_none());
}

fn held(keys: &[u32]) -> (Vec<String>, usize) {
    let keys: Vec<ReplayKey> =
        keys.iter().map(|&scancode| ReplayKey { scancode, shift: false }).collect();
    let plan = emit_held_keys(&keys, &id("uk-UA"), &db(), false);
    let ops = plan
        .ops
        .iter()
        .map(|o| match o {
            HeldOp::Text(t) => t.clone(),
            HeldOp::Backspace => "<-".to_owned(),
        })
        .collect();
    (ops, plan.dropped)
}

#[test]
fn held_keys_go_out_in_press_order() {
    assert_eq!(held(&[1, 2, 0x39, 1]), (vec!["аб а".to_owned()], 0));
    assert_eq!(
        held(&[1, 0x0E, 0x0E, 2]),
        (vec!["а".to_owned(), "<-".to_owned(), "<-".to_owned(), "б".to_owned()], 0)
    );
    assert_eq!(held(&[0x99, 1, 0x98]), (vec!["а".to_owned()], 2));
    assert_eq!(held(&[]), (vec![], 0));
}
