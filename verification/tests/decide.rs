use poltertype::engine::decide::{
    act_on_verdict, first_opinion, first_filter, CompletedWord, Decision, Filter, Judgement, Surroundings,
    SwitchAction, Verdict, WordFacts,
};
use poltertype::engine::switcher::SwitcherEngine;
use poltertype::keys::WordKey;
use poltertype::layouts::{CharKey, KeyLevel, LayoutDb, LayoutId, LayoutMapping};
use poltertype::settings::Settings;
use poltertype::time::Instant;

fn id(s: &str) -> LayoutId {
    LayoutId::from(s)
}

/// The keys 1 to 9 type the given characters.
fn mapping(chars: &str) -> LayoutMapping {
    let mut levels = Vec::new();
    let mut table = Vec::new();
    for (i, ch) in chars.chars().enumerate() {
        let scancode = i as u32 + 1;
        levels.push(KeyLevel { scancode, shift: false, caps: false, ch });
        table.push(CharKey { ch, scancode, shift: false });
    }
    LayoutMapping { levels, chars: table }
}

const SPACE: u32 = 0x39;

fn db() -> LayoutDb {
    LayoutDb {
        layouts: vec![
            (id("en-US"), mapping("abAB-/,=\t")),
            (id("uk-UA"), mapping("фиФИ-.?=\t")),
        ],
    }
}

fn word(keys: &[u32], closing: u32) -> CompletedWord {
    CompletedWord {
        keys: keys
            .iter()
            .map(|&scancode| WordKey { scancode, shift: false, caps: false, timestamp_ms: 0 })
            .collect(),
        lead: None,
        boundary_scancode: closing,
        boundary_shift: false,
        started_clean: true,
    }
}

fn around() -> Surroundings {
    Surroundings {
        current_layout: Some(id("en-US")),
        os_active: Some(vec![id("en-US"), id("uk-UA")]),
        focused_exe: Some("Code.exe".to_owned()),
        code_token: false,
    }
}

fn engine() -> SwitcherEngine {
    SwitcherEngine::new(false, Instant { nanos: 0 })
}

fn kept(e: &mut SwitcherEngine, s: &Settings, w: &CompletedWord, a: &Surroundings) -> (Filter, String) {
    match e.decide(&db(), s, w, a) {
        Decision::Kept { filter, reason } => (filter, reason),
        _ => panic!("the word was not kept"),
    }
}

#[test]
fn an_ordinary_word_is_judged_with_every_reading() {
    let mut e = engine();
    let d = e.decide(&db(), &Settings::default(), &word(&[1, 2], SPACE), &around());
    let Decision::Judge(j) = d else { panic!("not judged") };
    assert_eq!(j.current_text, "ab");
    assert_eq!(j.boundary_char, ' ');
    let readings: Vec<(&str, &str)> =
        j.candidates.iter().map(|(l, t)| (l.as_str(), t.as_str())).collect();
    assert_eq!(readings, vec![("en-US", "ab"), ("uk-UA", "фи")]);
    let stash = e.last_word.unwrap();
    assert_eq!(stash.rendered, "ab");
    assert_eq!(stash.boundary.unwrap().ch, ' ');
    assert!(stash.corrected_to.is_none());
}

#[test]
fn nothing_is_decided_about_nothing() {
    let mut e = engine();
    let s = Settings::default();
    assert!(matches!(e.decide(&db(), &s, &word(&[], SPACE), &around()), Decision::Ignored));
    let blind = Surroundings { current_layout: None, ..around() };
    assert!(matches!(e.decide(&db(), &s, &word(&[1], SPACE), &blind), Decision::Ignored));
    assert!(e.last_word.is_none());
}

#[test]
fn a_paused_engine_still_stashes_the_word() {
    let mut e = SwitcherEngine::new(true, Instant { nanos: 0 });
    let d = e.decide(&db(), &Settings::default(), &word(&[1, 2], SPACE), &around());
    assert!(matches!(d, Decision::Paused));
    assert!(e.last_word.is_some());
}

#[test]
fn each_filter_names_its_reason() {
    let s = Settings::default();
    let mut e = engine();
    e.word_layout = Some(id("uk-UA"));
    let (f, r) = kept(&mut e, &s, &word(&[1, 2], SPACE), &around());
    assert_eq!(f, Filter::LayoutChanged);
    assert_eq!(r, "layout changed from uk-UA to en-US while <2 chars> was being typed");

    let mut listed = Settings::default();
    listed.exceptions.word_whitelist = vec!["AB".to_owned()];
    let (f, r) = kept(&mut engine(), &listed, &word(&[1, 2], SPACE), &around());
    assert_eq!((f, r.as_str()), (Filter::Whitelisted, "<2 chars> is on the word whitelist"));

    let (f, r) = kept(&mut engine(), &s, &word(&[1, 2], 0x1C), &around());
    assert_eq!(f, Filter::SubmissionBoundary);
    assert_eq!(r, "submission boundary after <2 chars> — not re-emitting Enter/Tab");

    let (f, r) = kept(&mut engine(), &s, &word(&[1, 2], 8), &around());
    assert_eq!(f, Filter::StructuralSuffix);
    assert_eq!(r, "structural boundary `=` after <2 chars> — likely URL / path / email / code");

    let led = CompletedWord { lead: Some((6, false)), ..word(&[1, 2], SPACE) };
    let (f, r) = kept(&mut engine(), &s, &led, &around());
    assert_eq!(f, Filter::StructuralPrefix);
    assert_eq!(r, "structural prefix `/` before <2 chars> — likely URL / path / email / code");

    let (f, r) = kept(&mut engine(), &s, &word(&[5, 1], SPACE), &around());
    assert_eq!(f, Filter::LeadingHyphen);
    assert_eq!(r, "<2 chars> opens with a hyphen — likely a command-line flag");

    let (f, r) = kept(&mut engine(), &s, &word(&[3, 4], SPACE), &around());
    assert_eq!(f, Filter::AllCaps);
    assert_eq!(r, "<2 chars> is ALL CAPS — likely an abbreviation, not a wrong-layout word");

    let mut off = Settings::default();
    off.exceptions.disabled_apps = vec!["code.exe".to_owned()];
    let (f, r) = kept(&mut engine(), &off, &word(&[1, 2], SPACE), &around());
    assert_eq!((f, r.as_str()), (Filter::DisabledApp, "app `Code.exe` on disabled_apps list"));

    let code = Surroundings { code_token: true, ..around() };
    let (f, r) = kept(&mut engine(), &s, &word(&[1, 2], SPACE), &code);
    assert_eq!((f, r.as_str()), (Filter::CodeToken, "token <2 chars> looks like an identifier"));
}

#[test]
fn the_guards_that_can_be_turned_off() {
    let mut s = Settings::default();
    s.engine.suppress_for_all_caps = false;
    s.engine.suppress_in_identifiers = false;
    let code = Surroundings { code_token: true, ..around() };
    let d = engine().decide(&db(), &s, &word(&[3, 4], SPACE), &code);
    assert!(matches!(d, Decision::Judge(_)));
}

#[test]
fn earlier_filters_win() {
    let f = WordFacts {
        layout_changed: false,
        whitelisted: false,
        boundary: '\n',
        punctuation_elsewhere: false,
        lead: Some('/'),
        opens_with_hyphen: true,
        all_caps: true,
        app_disabled: true,
        code_token: true,
    };
    assert_eq!(first_filter(&f), Some(Filter::SubmissionBoundary));
    assert_eq!(first_filter(&WordFacts { boundary: ' ', ..f }), Some(Filter::StructuralPrefix));
    let plain = WordFacts {
        boundary: ' ',
        lead: None,
        opens_with_hyphen: false,
        all_caps: false,
        app_disabled: false,
        code_token: false,
        ..f
    };
    assert_eq!(first_filter(&plain), None);
}

#[test]
fn a_slash_that_is_a_full_stop_elsewhere_is_judged() {
    let d = engine().decide(&db(), &Settings::default(), &word(&[1, 2], 6), &around());
    assert!(matches!(d, Decision::Judge(_)));
}

fn judged(closing: u32) -> (CompletedWord, Judgement) {
    let w = word(&[1, 2], closing);
    match engine().decide(&db(), &Settings::default(), &w, &around()) {
        Decision::Judge(j) => (w, j),
        _ => panic!("not judged"),
    }
}

fn to_uk(confident: bool) -> Verdict {
    Verdict::Switch {
        best_layout: id("uk-UA"),
        confident,
        reason: "because".to_owned(),
        confidence: "0.30".to_owned(),
        threshold: "0.55".to_owned(),
    }
}

#[test]
fn a_confident_verdict_replays_the_word_in_the_target() {
    let (w, j) = judged(7);
    let SwitchAction::SwitchAndReplay(c) = act_on_verdict(&db(), &w, &j, to_uk(true), true) else {
        panic!("no correction")
    };
    assert_eq!((c.from.as_str(), c.to.as_str()), ("en-US", "uk-UA"));
    // The comma stays a comma: the target has no key for it, so the same
    // key goes out again.
    assert_eq!((c.original.as_str(), c.corrected.as_str()), ("ab", "фи,"));
    assert_eq!(c.backspaces, 3);
    assert_eq!(c.reason, "because");
    assert!(c.play_sound);
    let keys: Vec<u32> = c.replay_keys.unwrap().iter().map(|k| k.scancode).collect();
    assert_eq!(keys, vec![1, 2, 7]);
}

#[test]
fn a_structural_separator_turns_into_the_targets_punctuation() {
    let (w, j) = judged(6);
    let SwitchAction::SwitchAndReplay(c) = act_on_verdict(&db(), &w, &j, to_uk(true), false) else {
        panic!("no correction")
    };
    assert_eq!(c.corrected, "фи.");
    assert!(!c.play_sound);
}

#[test]
fn a_separator_that_stays_structural_keeps_the_word() {
    let (w, j) = judged(6);
    let verdict = Verdict::Switch {
        best_layout: id("en-US"),
        confident: true,
        reason: String::new(),
        confidence: "0.90".to_owned(),
        threshold: "0.55".to_owned(),
    };
    let SwitchAction::KeepCurrent { reason, low_conf_alt, offer_suggestions } =
        act_on_verdict(&db(), &w, &j, verdict, false)
    else {
        panic!("corrected")
    };
    assert_eq!(
        reason,
        "structural boundary `/` after <2 chars> remains structural in target layout"
    );
    assert!(low_conf_alt.is_none() && offer_suggestions);
}

#[test]
fn an_unsure_verdict_is_offered_instead() {
    let (w, j) = judged(SPACE);
    let SwitchAction::KeepCurrent { reason, low_conf_alt, .. } =
        act_on_verdict(&db(), &w, &j, to_uk(false), false)
    else {
        panic!("corrected")
    };
    assert_eq!(reason, "detector confidence 0.30 below threshold 0.55");
    let (layout, text) = low_conf_alt.unwrap();
    assert_eq!((layout.as_str(), text.as_str()), ("uk-UA", "фи"));
}

#[test]
fn a_veto_and_no_opinion_keep_the_word() {
    let (w, j) = judged(SPACE);
    let veto = Verdict::Keep { reason: "a word".to_owned() };
    let SwitchAction::KeepCurrent { reason, .. } = act_on_verdict(&db(), &w, &j, veto, false) else {
        panic!("corrected")
    };
    assert_eq!(reason, "veto by detector: a word");
    let SwitchAction::KeepCurrent { reason, low_conf_alt, .. } =
        act_on_verdict(&db(), &w, &j, Verdict::NoOpinion, false)
    else {
        panic!("corrected")
    };
    assert_eq!(reason, "no detector had an opinion");
    assert!(low_conf_alt.is_none());
}

#[test]
fn the_first_opinion_wins_and_a_veto_is_one() {
    let keep = || Verdict::Keep { reason: "a word".to_owned() };
    let first = first_opinion(vec![Verdict::NoOpinion, keep(), to_uk(true)]);
    assert!(matches!(first, Verdict::Keep { .. }));
    let first = first_opinion(vec![to_uk(false), keep()]);
    assert!(matches!(first, Verdict::Switch { confident: false, .. }));
    assert!(matches!(first_opinion(vec![Verdict::NoOpinion]), Verdict::NoOpinion));
    assert!(matches!(first_opinion(Vec::new()), Verdict::NoOpinion));
}

#[test]
fn the_word_in_progress_needs_a_known_caret_and_layout() {
    let mut e = engine();
    let keys = word(&[1, 2], SPACE).keys;
    let current = Some(id("en-US"));
    let w = e.word_in_progress(&keys, false, &current, &db()).unwrap();
    assert_eq!((w.rendered.as_str(), w.layout.as_str()), ("ab", "en-US"));
    assert!(w.boundary.is_none());
    e.word_layout = Some(id("uk-UA"));
    assert_eq!(e.word_in_progress(&keys, false, &current, &db()).unwrap().rendered, "фи");
    assert!(e.word_in_progress(&keys, true, &current, &db()).is_none());
    assert!(e.word_in_progress(&Vec::new(), false, &current, &db()).is_none());
    e.word_layout = Some(id("xx-YY"));
    assert!(e.word_in_progress(&keys, false, &current, &db()).is_none());
    e.word_layout = None;
    assert!(e.word_in_progress(&keys, false, &None, &db()).is_none());
}

#[test]
fn the_identifier_check_reads_the_current_layout() {
    let e = engine();
    let keys = word(&[1, 6, 2], SPACE).keys;
    assert_eq!(e.code_check_text(&db(), &keys, &id("en-US")), "a/b");
    assert_eq!(e.code_check_text(&db(), &keys, &id("xx-YY")), "");
}
