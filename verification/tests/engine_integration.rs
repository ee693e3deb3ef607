//! The engine driven the way a host drives it, on a virtual clock, with a
//! stand-in desktop and a stand-in word buffer. The assertions are about the
//! exact key operations that go out.

use std::collections::VecDeque;

use poltertype::engine::correction::{
    Action, Aftermath, CorrectionRun, KeysOutcome, Reply,
};
use poltertype::engine::consts::{CHORD_RELEASE_WAIT, INTRUSION_REPAIRS};
use poltertype::engine::decide::{
    act_on_verdict, CompletedWord, Decision, Judgement, Surroundings, SwitchAction, Verdict,
};
use poltertype::engine::events::{announcements, SwitcherEvent};
use poltertype::engine::run_loop::{
    BufferView, CommandStep, EngineCommand, FeedStep, IdleStep, KeyStep, SwitchLast, WordBoundary,
};
use poltertype::engine::switcher::SwitcherEngine;
use poltertype::engine::types::{
    Binding, Chord, Correction, KeystreamHotkeys, ModChord, ModSet, WindowDrain,
};
use poltertype::engine::window::KeyKind;
use poltertype::input::focus::SensitiveInput;
use poltertype::keys::{
    KeyDirection, KeyEvent, Modifiers, ReplayKey, WordKey, SC_POINTER_BUTTON,
};
use poltertype::layouts::{CharKey, KeyLevel, LayoutDb, LayoutId, LayoutMapping};
use poltertype::settings::Settings;
use poltertype::time::{Duration, Instant};

const MS: u128 = 1_000_000;

// ─── The desktop ─────────────────────────────────────────────────────

fn mapping(rows: &[(u32, &str, &str)]) -> LayoutMapping {
    let mut levels = Vec::new();
    let mut chars = Vec::new();
    for (first, plain, shifted) in rows {
        for (i, (a, b)) in plain.chars().zip(shifted.chars()).enumerate() {
            let scancode = first + i as u32;
            let swap = a.is_alphabetic() && b.is_alphabetic();
            for (shift, caps, ch) in [
                (false, false, a),
                (true, false, b),
                (false, true, if swap { b } else { a }),
                (true, true, if swap { a } else { b }),
            ] {
                levels.push(KeyLevel { scancode, shift, caps, ch });
            }
            chars.push(CharKey { ch: a, scancode, shift: false });
            chars.push(CharKey { ch: b, scancode, shift: true });
        }
    }
    LayoutMapping { levels, chars }
}

fn layouts() -> LayoutDb {
    LayoutDb {
        layouts: vec![
            (
                LayoutId::from("en-US"),
                mapping(&[
                    (0x02, "1234567890-=", "!@#$%^&*()_+"),
                    (0x10, "qwertyuiop[]", "QWERTYUIOP{}"),
                    (0x1E, "asdfghjkl;'`", "ASDFGHJKL:\"~"),
                    (0x2B, "\\zxcvbnm,./", "|ZXCVBNM<>?"),
                ]),
            ),
            (
                LayoutId::from("uk-UA"),
                mapping(&[
                    (0x02, "1234567890-=", "!\"№;%:?*()_+"),
                    (0x10, "йцукенгшщзхї", "ЙЦУКЕНГШЩЗХЇ"),
                    (0x1E, "фівапролджє'", "ФІВАПРОЛДЖЄ₴"),
                    (0x2B, "\\ячсмитьбю.", "/ЯЧСМИТЬБЮ,"),
                ]),
            ),
        ],
    }
}

#[derive(Debug, Clone, PartialEq)]
enum EmitOp {
    Backspaces(usize),
    Keys(Vec<u32>),
    Text(String),
    ReleaseModifiers,
}

#[derive(Debug, Clone, Copy, PartialEq)]
enum Sound {
    Correct,
    Pause,
    Resume,
}

struct Desktop {
    current: LayoutId,
    active: Vec<LayoutId>,
    switches: Vec<LayoutId>,
    fail_switch: bool,
    /// The desktop puts the layout back before a key can go out.
    revert: bool,
    has_shortcut: bool,
    shortcuts_pressed: usize,
}

// ─── The word buffer ─────────────────────────────────────────────────

#[derive(Default)]
struct Buffer {
    keys: Vec<WordKey>,
    completed: Vec<WordKey>,
    boundary_run: Vec<(u32, bool)>,
    lead: Option<(u32, bool)>,
    poisoned: bool,
    settled: bool,
    clean: bool,
    started_clean: bool,
}

impl Buffer {
    fn reset(&mut self) {
        *self = Buffer { clean: true, ..Buffer::default() };
    }

    fn abandon(&mut self) {
        if !self.keys.is_empty() {
            self.poisoned = true;
        }
        self.keys.clear();
        self.completed.clear();
        self.boundary_run.clear();
        self.settled = false;
        self.clean = false;
    }

    fn delete_word_left(&mut self) {
        self.reset();
        self.clean = false;
    }

    fn classify(ev: &KeyEvent, letter: bool, produced: Option<char>) -> KeyKind {
        match ev.scancode {
            0x0E => KeyKind::Backspace,
            0x39 | 0x1C | 0x0F | 0x60 => KeyKind::Boundary,
            0x1D | 0x2A | 0x36 | 0x38 | 0x3A | 0x61 | 0x64 | 0x7D | 0x7E => KeyKind::Discard,
            _ if letter => KeyKind::Word,
            _ => match produced {
                Some(c) if c.is_alphanumeric() || c == '-' || c == '\'' || c == '_' => KeyKind::Word,
                Some(_) => KeyKind::Boundary,
                None => KeyKind::EndAndDiscard,
            },
        }
    }

    fn feed(&mut self, ev: &KeyEvent, kind: KeyKind) -> WordBoundary {
        if ev.direction == KeyDirection::Release {
            return WordBoundary::InProgress;
        }
        match kind {
            KeyKind::Discard => WordBoundary::InProgress,
            KeyKind::Word => {
                if self.keys.is_empty() {
                    self.started_clean = self.clean || !self.boundary_run.is_empty();
                    self.lead = self.boundary_run.last().copied();
                }
                self.keys.push(WordKey {
                    scancode: ev.scancode,
                    shift: ev.modifiers.shift,
                    caps: ev.modifiers.caps,
                    timestamp_ms: ev.timestamp_ms,
                });
                WordBoundary::InProgress
            }
            KeyKind::Boundary => {
                let key = (ev.scancode, ev.modifiers.shift);
                if self.keys.is_empty() {
                    self.boundary_run.push(key);
                    return WordBoundary::InProgress;
                }
                self.completed = std::mem::take(&mut self.keys);
                self.boundary_run = vec![key];
                let tainted = self.poisoned || self.settled;
                self.poisoned = false;
                self.settled = false;
                WordBoundary::WordCompleted {
                    boundary_scancode: key.0,
                    boundary_shift: key.1,
                    tainted,
                    started_clean: self.started_clean,
                }
            }
            KeyKind::Backspace => {
                if self.keys.pop().is_none() {
                    if self.boundary_run.pop().is_none() {
                        self.reset();
                        self.clean = false;
                    } else if self.boundary_run.is_empty() {
                        self.keys = std::mem::take(&mut self.completed);
                    }
                }
                if self.keys.is_empty() {
                    self.settled = false;
                }
                WordBoundary::InProgress
            }
            KeyKind::EndAndDiscard => {
                self.abandon();
                WordBoundary::Abandoned
            }
        }
    }
}

// ─── The host ────────────────────────────────────────────────────────

type Judge = fn(&Judgement) -> Verdict;

/// Always votes to switch to the other of the two layouts.
fn always_other(j: &Judgement) -> Verdict {
    let other = if j.current_layout.as_str() == "en-US" { "uk-UA" } else { "en-US" };
    Verdict::Switch {
        best_layout: LayoutId::from(other),
        confident: true,
        reason: "test".to_owned(),
        confidence: "1.00".to_owned(),
        threshold: "0.55".to_owned(),
    }
}

fn no_opinion(_: &Judgement) -> Verdict {
    Verdict::NoOpinion
}

/// Keeps what it knows, and moves a word to the layout in which it knows it.
fn small_dictionary(j: &Judgement) -> Verdict {
    let known = ["check", "now", "cd", "command", "hello", "привіт"];
    if known.contains(&j.current_text.as_str()) {
        return Verdict::Keep { reason: "a word".to_owned() };
    }
    for (id, text) in &j.candidates {
        if known.contains(&text.as_str()) {
            return Verdict::Switch {
                best_layout: id.clone(),
                confident: true,
                reason: "a word there".to_owned(),
                confidence: "1.00".to_owned(),
                threshold: "0.55".to_owned(),
            };
        }
    }
    Verdict::NoOpinion
}

struct Harness {
    engine: SwitcherEngine,
    buffer: Buffer,
    db: LayoutDb,
    settings: Settings,
    desktop: Desktop,
    judge: Judge,
    keys: VecDeque<(u128, KeyEvent)>,
    commands: VecDeque<(u128, EngineCommand)>,
    /// The engine's clock, and the user's.
    now: u128,
    t: u128,
    last_event: u128,
    ops: Vec<(u128, EmitOp)>,
    replays: Vec<Vec<(u32, bool)>>,
    events: Vec<SwitcherEvent>,
    sounds: Vec<Sound>,
    /// What went out, to come back as an echo.
    echo_copy: Vec<(u32, KeyDirection)>,
    /// Echoes come back a moment after each burst.
    echoing: bool,
    /// Keys that land while a replay goes out, and for how many replays.
    intruder: Option<u32>,
    intrusions_left: usize,
}

impl Harness {
    fn start(idle_timeout_ms: u64) -> Self {
        Self::start_full(idle_timeout_ms, false, always_other, |_| {})
    }

    fn start_full(
        idle_timeout_ms: u64,
        fail_switch: bool,
        judge: Judge,
        tweak: fn(&mut Settings),
    ) -> Self {
        let mut settings = Settings::default();
        settings.engine.idle_timeout_ms = idle_timeout_ms;
        tweak(&mut settings);
        let start = 1_000 * MS;
        let mut buffer = Buffer::default();
        buffer.reset();
        Harness {
            engine: SwitcherEngine::new(settings.general.paused, Instant { nanos: start }),
            buffer,
            db: layouts(),
            settings,
            desktop: Desktop {
                current: LayoutId::from("en-US"),
                active: vec![LayoutId::from("en-US"), LayoutId::from("uk-UA")],
                switches: Vec::new(),
                fail_switch,
                revert: false,
                has_shortcut: false,
                shortcuts_pressed: 0,
            },
            judge,
            keys: VecDeque::new(),
            commands: VecDeque::new(),
            now: start,
            t: start,
            last_event: start,
            ops: Vec::new(),
            replays: Vec::new(),
            events: Vec::new(),
            sounds: Vec::new(),
            echo_copy: Vec::new(),
            echoing: false,
            intruder: None,
            intrusions_left: 0,
        }
    }

    // ─── What a user does ────────────────────────────────────────────

    fn key_mods(&mut self, sc: u32, direction: KeyDirection, modifiers: Modifiers) {
        self.keys.push_back((
            self.t,
            KeyEvent { vk: sc, scancode: sc, direction, modifiers, injected: false, timestamp_ms: 0 },
        ));
    }

    fn key(&mut self, sc: u32, direction: KeyDirection, shift: bool) {
        self.key_mods(sc, direction, Modifiers { shift, ..Modifiers::none() });
    }

    fn press(&mut self, sc: u32) {
        self.key(sc, KeyDirection::Press, false);
    }

    fn release(&mut self, sc: u32) {
        self.key(sc, KeyDirection::Release, false);
    }

    fn tap(&mut self, sc: u32) {
        self.press(sc);
        self.release(sc);
    }

    fn send(&mut self, cmd: EngineCommand) {
        self.commands.push_back((self.t, cmd));
    }

    fn sleep(&mut self, ms: u128) {
        self.t += ms * MS;
    }

    /// Let the engine take everything, then let a while pass.
    fn settle(&mut self) {
        self.run();
        self.t = self.t.max(self.now) + 1_500 * MS;
    }

    /// Let the engine take everything, and look for an event among what it
    /// said since the last look.
    fn wait_for(&mut self, pred: fn(&SwitcherEvent) -> bool) {
        self.run();
        self.t = self.t.max(self.now);
        let found = self.events.iter().position(pred);
        match found {
            Some(i) => {
                self.events.drain(..=i);
            }
            None => panic!("expected event never arrived"),
        }
    }

    fn replay_echoes(&mut self) {
        for (sc, direction) in std::mem::take(&mut self.echo_copy) {
            self.key(sc, direction, false);
        }
    }

    fn ops(&self) -> Vec<EmitOp> {
        self.ops.iter().map(|(_, o)| o.clone()).collect()
    }

    fn ops_until(&self, t: u128) -> usize {
        self.ops.iter().filter(|(at, _)| *at <= t).count()
    }

    fn switches(&self) -> Vec<String> {
        self.desktop.switches.iter().map(|id| id.as_str().to_owned()).collect()
    }

    // ─── The run loop ────────────────────────────────────────────────

    fn run(&mut self) {
        loop {
            let key_at = self.keys.front().map(|(t, _)| *t);
            let cmd_at = self.commands.front().map(|(t, _)| *t);
            let take_cmd = match (key_at, cmd_at) {
                (None, None) => return,
                (None, Some(_)) => true,
                (Some(_), None) => false,
                (Some(k), Some(c)) => c < k,
            };
            if take_cmd {
                let (at, cmd) = self.commands.pop_front().unwrap();
                self.now = self.now.max(at);
                self.handle_command(cmd);
            } else {
                let (at, ev) = self.keys.pop_front().unwrap();
                self.now = self.now.max(at);
                self.take_key(ev);
            }
        }
    }

    fn instant(&self) -> Instant {
        Instant { nanos: self.now }
    }

    fn take_key(&mut self, ev: KeyEvent) {
        if self.consume_echo(&ev) {
            self.last_event = self.now;
            return;
        }
        self.engine.held_modifiers = ev.modifiers;
        let hits = self.engine.check_keystream_hotkeys(&ev, self.instant());
        if hits.pause {
            self.handle_command(EngineCommand::TogglePause);
        }
        if hits.switch_last {
            self.handle_command(EngineCommand::SwitchLastForcefully);
        }
        let _ = self.engine.check_suggestion_chord(&ev);
        let elapsed = Duration { nanos: self.now.saturating_sub(self.last_event) };
        let idle = Duration::from_millis(self.settings.engine.idle_timeout_ms);
        let step = self.engine.after_pause(elapsed, idle, false, self.buffer.keys.is_empty());
        if step == IdleStep::Abandon {
            self.buffer.abandon();
        }
        self.last_event = self.now;
        self.handle_key(ev);
    }

    fn handle_key(&mut self, ev: KeyEvent) {
        let step = self.engine.handle_key(
            &ev,
            self.settings.engine.ignore_in_password_fields,
            SensitiveInput::NotSensitive,
            self.instant(),
        );
        match step {
            KeyStep::Ignore | KeyStep::OwnSwitch => {}
            KeyStep::Forget => self.buffer.reset(),
            KeyStep::WordDelete => self.buffer.delete_word_left(),
            KeyStep::Shortcut => self.buffer.abandon(),
            KeyStep::Feed { .. } => {
                let outcome = self.feed(&ev);
                match self.engine.after_feed(outcome, false, self.instant()) {
                    FeedStep::Nothing
                    | FeedStep::Abandoned { .. }
                    | FeedStep::PasteGuarded => {}
                    FeedStep::Tainted { reason } => {
                        self.events.push(SwitcherEvent::KeptCurrent { reason });
                    }
                    FeedStep::Decide { boundary_scancode, boundary_shift, started_clean } => {
                        self.decide(boundary_scancode, boundary_shift, started_clean);
                    }
                }
            }
        }
    }

    fn kind_of(&self, ev: &KeyEvent) -> KeyKind {
        let hints = SwitcherEngine::feed_hints(ev, &self.db, &Some(self.desktop.current.clone()));
        Buffer::classify(ev, hints.letter_in_any_layout, hints.produced)
    }

    fn feed(&mut self, ev: &KeyEvent) -> WordBoundary {
        let kind = self.kind_of(ev);
        let was_empty = self.buffer.keys.is_empty();
        let outcome = self.buffer.feed(ev, kind);
        let is_empty = self.buffer.keys.is_empty();
        self.engine.feed_buffer(was_empty, is_empty, Some(self.desktop.current.clone()));
        outcome
    }

    fn decide(&mut self, boundary_scancode: u32, boundary_shift: bool, started_clean: bool) {
        let word = CompletedWord {
            keys: self.buffer.completed.clone(),
            lead: self.buffer.lead,
            boundary_scancode,
            boundary_shift,
            started_clean,
        };
        let around = Surroundings {
            current_layout: Some(self.desktop.current.clone()),
            os_active: Some(self.desktop.active.clone()),
            focused_exe: None,
            code_token: false,
        };
        match self.engine.decide(&self.db, &self.settings, &word, &around) {
            Decision::Ignored | Decision::Paused => {}
            Decision::Kept { reason, .. } => {
                self.events.push(SwitcherEvent::KeptCurrent { reason });
            }
            Decision::Judge(j) => {
                let verdict = (self.judge)(&j);
                let sound = self.settings.general.sound_on_correct;
                match act_on_verdict(&self.db, &word, &j, verdict, sound) {
                    SwitchAction::KeepCurrent { reason, .. } => {
                        self.events.push(SwitcherEvent::KeptCurrent { reason });
                    }
                    SwitchAction::SwitchAndReplay(c) => {
                        self.apply_correction(c);
                    }
                }
            }
        }
    }

    fn handle_command(&mut self, cmd: EngineCommand) {
        let view = BufferView {
            keys: self.buffer.keys.clone(),
            completed: self.buffer.completed.clone(),
            boundary_run: self.buffer.boundary_run.clone(),
            poisoned: self.buffer.poisoned,
        };
        let current = Some(self.desktop.current.clone());
        let step = self.engine.handle_command(cmd, &view, &current, &self.db, self.instant());
        match step {
            CommandStep::Nothing
            | CommandStep::Accept { .. }
            | CommandStep::Dismiss { .. } => {}
            CommandStep::Reload => self.buffer.reset(),
            CommandStep::PauseChanged { paused } => {
                self.events.push(SwitcherEvent::PausedChanged(paused));
                self.sounds.push(if paused { Sound::Pause } else { Sound::Resume });
            }
            CommandStep::Switch(SwitchLast::Rearming) => {}
            CommandStep::Switch(SwitchLast::Word { word, in_progress }) => {
                let sound = self.settings.general.sound_on_correct;
                let planned = SwitcherEngine::force_switch_last(
                    &word,
                    &self.db,
                    Some(&self.desktop.active),
                    sound,
                );
                let applied = match planned {
                    Some(c) => {
                        let to = c.to.clone();
                        if self.apply_correction(c) {
                            Some(to)
                        } else {
                            None
                        }
                    }
                    None => None,
                };
                match applied {
                    Some(to) => {
                        self.engine.force_switched(word, &to, self.instant());
                        if in_progress {
                            self.buffer.settled = true;
                        }
                    }
                    None => self.engine.give_back(word, in_progress, self.buffer.poisoned),
                }
            }
            CommandStep::Switch(SwitchLast::NoWord) => {
                let planned = SwitcherEngine::force_switch_separator(
                    &self.buffer.boundary_run,
                    &current,
                    &self.db,
                    Some(&self.desktop.active),
                    self.settings.general.sound_on_correct,
                );
                let switched = match planned {
                    Some(c) => self.apply_correction(c),
                    None => false,
                };
                let selection = self.settings.selection.enabled;
                assert!(!self.engine.after_separator(switched, selection, self.instant()));
            }
        }
    }

    // ─── Carrying a correction out ───────────────────────────────────

    fn consume_echo(&mut self, ev: &KeyEvent) -> bool {
        let now = self.instant();
        self.engine.consume_echo(ev, now)
    }

    fn log(&mut self, sc: u32, direction: KeyDirection) {
        self.echo_copy.push((sc, direction));
        if direction == KeyDirection::Press {
            let now = self.instant();
            self.engine.push_echoes(&vec![sc], now);
        }
        if self.echoing {
            self.push_in_order(self.now + 5 * MS, sc, direction);
        }
    }

    fn push_in_order(&mut self, at: u128, sc: u32, direction: KeyDirection) {
        let ev = KeyEvent {
            vk: sc,
            scancode: sc,
            direction,
            modifiers: Modifiers::none(),
            injected: false,
            timestamp_ms: 0,
        };
        let place = self.keys.iter().position(|(t, _)| *t > at).unwrap_or(self.keys.len());
        self.keys.insert(place, (at, ev));
    }

    fn poll(&mut self, run: &mut CorrectionRun) -> WindowDrain {
        let mut out = WindowDrain::new();
        while let Some((at, ev)) = self.keys.front().copied() {
            if at > self.now {
                break;
            }
            self.keys.pop_front();
            if self.consume_echo(&ev) {
                continue;
            }
            let kind = self.kind_of(&ev);
            let now = self.instant();
            if !self.engine.drain_correction_window(
                &mut out,
                &ev,
                kind,
                &mut run.click_allowance,
                now,
            ) {
                break;
            }
        }
        out
    }

    fn seed(&mut self, events: &[KeyEvent]) {
        for ev in events {
            self.feed(ev);
        }
    }

    fn apply_correction(&mut self, c: Correction) -> bool {
        let to = c.to.clone();
        let mut run = CorrectionRun::new(c, true);
        let mut reply = Reply::Started;
        loop {
            let readings = self.engine.readings(self.instant());
            let action = run.step(&self.db, reply, readings);
            reply = match action {
                Action::Sleep(n) => {
                    self.now += n;
                    Reply::Slept
                }
                Action::Poll => {
                    let drain = self.poll(&mut run);
                    let now = self.instant();
                    Reply::Window { drain, echo_pending: self.engine.echo_pending(now) }
                }
                Action::ListActive => Reply::Layouts(Some(self.desktop.active.clone())),
                Action::SwitchTo => {
                    if self.desktop.fail_switch {
                        Reply::Done(false)
                    } else {
                        self.desktop.switches.push(to.clone());
                        if !self.desktop.revert {
                            self.desktop.current = to.clone();
                        }
                        Reply::Done(true)
                    }
                }
                Action::VerifySwitched => {
                    Reply::Verified(Some(self.desktop.current.as_str() == to.as_str()))
                }
                Action::AskShortcut => Reply::Shortcut {
                    found: self.desktop.has_shortcut,
                    layouts: Some(self.desktop.active.len()),
                },
                Action::PressShortcut => {
                    self.desktop.shortcuts_pressed += 1;
                    Reply::Done(true)
                }
                Action::ReleaseModifiers(_) => {
                    self.ops.push((self.now, EmitOp::ReleaseModifiers));
                    Reply::Done(true)
                }
                Action::AcquireGate => Reply::Gate(false),
                Action::Backspaces(n) => {
                    self.ops.push((self.now, EmitOp::Backspaces(n)));
                    for _ in 0..n {
                        self.log(0x0E, KeyDirection::Press);
                        self.log(0x0E, KeyDirection::Release);
                    }
                    Reply::Done(true)
                }
                Action::Keys(keys) => {
                    self.send_keys(&keys);
                    Reply::Keys(KeysOutcome::Sent)
                }
                Action::Text(text) => {
                    self.ops.push((self.now, EmitOp::Text(text)));
                    Reply::Done(true)
                }
                Action::FlushHeld(_) | Action::ReleaseGate => Reply::Done(true),
                Action::Announce { sound, switched } => {
                    if sound {
                        self.sounds.push(Sound::Correct);
                    }
                    for e in announcements(&run.c, switched) {
                        self.events.push(e);
                    }
                    if switched {
                        self.engine.note_corrected(&to);
                    }
                    Reply::Done(true)
                }
                Action::Finish { applied, aftermath } => {
                    self.finish(&run, &to, aftermath);
                    return applied;
                }
            };
        }
    }

    fn send_keys(&mut self, keys: &[ReplayKey]) {
        self.ops.push((self.now, EmitOp::Keys(keys.iter().map(|k| k.scancode).collect())));
        self.replays.push(keys.iter().map(|k| (k.scancode, k.shift)).collect());
        for k in keys {
            if k.shift {
                self.log(0x2A, KeyDirection::Press);
            }
            self.log(k.scancode, KeyDirection::Press);
            self.log(k.scancode, KeyDirection::Release);
            if k.shift {
                self.log(0x2A, KeyDirection::Release);
            }
        }
        if let Some(sc) = self.intruder {
            if self.intrusions_left > 0 {
                self.intrusions_left -= 1;
                self.push_in_order(self.now, sc, KeyDirection::Press);
                self.push_in_order(self.now, sc, KeyDirection::Release);
            }
        }
    }

    fn finish(&mut self, run: &CorrectionRun, to: &LayoutId, aftermath: Aftermath) {
        self.engine.after_correction(aftermath);
        match aftermath {
            Aftermath::Nothing => {}
            Aftermath::KeyStillDown => {
                self.seed(&run.tail);
                self.buffer.poisoned = true;
            }
            Aftermath::Uncertain { layout_changed } => {
                self.seed(&run.tail);
                self.buffer.poisoned = true;
                if layout_changed {
                    self.events.push(SwitcherEvent::LayoutChanged(to.clone()));
                }
            }
            Aftermath::Unplaced => {
                self.buffer.abandon();
                self.buffer.poisoned = true;
            }
            Aftermath::Reassemble => {
                self.seed(&run.tail);
                if let Some(ev) = run.ctl.resume {
                    self.handle_key(ev);
                }
                self.seed(&run.post_tail);
                if let Some(ev) = run.ctl.post_resume {
                    self.handle_key(ev);
                }
            }
        }
    }
}

// ─── Shorthands ──────────────────────────────────────────────────────

/// The keys of "ghbdsn", which is how `привіт` comes out under en-US.
const GHBDSN: [u32; 6] = [0x22, 0x23, 0x30, 0x20, 0x1F, 0x31];
const SPACE: u32 = 0x39;
const BACKSPACE: u32 = 0x0E;
const L_SHIFT: u32 = 0x2A;
const L_CTRL: u32 = 0x1D;
const F9: u32 = 0x43;
/// A key that appears nowhere in the correction being replayed.
const INTRUDER: u32 = 0x2D;

fn with_space() -> Vec<u32> {
    GHBDSN.iter().copied().chain([SPACE]).collect()
}

fn ctrl() -> Modifiers {
    Modifiers { control: true, ..Modifiers::none() }
}

fn ctrl_shift() -> Modifiers {
    Modifiers { control: true, shift: true, ..Modifiers::none() }
}

fn erase_counts(h: &Harness) -> Vec<usize> {
    h.ops
        .iter()
        .filter_map(|(_, o)| match o {
            EmitOp::Backspaces(n) => Some(*n),
            _ => None,
        })
        .collect()
}

fn type_word(h: &mut Harness, scancodes: &[u32]) {
    for &sc in scancodes {
        h.tap(sc);
    }
}

fn en_us_key(h: &Harness, ch: char) -> (u32, bool) {
    if ch == ' ' {
        return (SPACE, false);
    }
    h.db.layouts[0].1.key_for_char(ch).unwrap()
}

fn type_en_us(h: &mut Harness, text: &str) {
    for ch in text.chars() {
        let (sc, shift) = en_us_key(h, ch);
        h.key(sc, KeyDirection::Press, shift);
        h.key(sc, KeyDirection::Release, shift);
    }
}

fn type_en_us_caps(h: &mut Harness, text: &str) {
    for ch in text.chars() {
        let (sc, shift) = en_us_key(h, ch);
        let mods = Modifiers { shift, caps: true, ..Modifiers::none() };
        h.key_mods(sc, KeyDirection::Press, mods);
        h.key_mods(sc, KeyDirection::Release, mods);
    }
}

fn is_corrected(e: &SwitcherEvent) -> bool {
    matches!(e, SwitcherEvent::Corrected { .. })
}

fn switch_chord() -> Chord {
    Chord { ctrl: true, shift: true, alt: false, meta: false, scancode: F9 }
}

fn bind_switch(h: &mut Harness, binding: Binding) {
    h.send(EngineCommand::SetKeystreamHotkeys(KeystreamHotkeys {
        pause: None,
        switch_last: Some(binding),
        grabbed: [None, None],
    }));
    h.run();
}

/// One press of the chord, held for `hold_ms` with its key repeating.
fn press_chord(h: &mut Harness, hold_ms: u128) {
    h.key_mods(L_CTRL, KeyDirection::Press, ctrl());
    h.key_mods(L_SHIFT, KeyDirection::Press, ctrl_shift());
    h.key_mods(F9, KeyDirection::Press, ctrl_shift());
    let until = h.t + hold_ms * MS;
    while h.t < until {
        h.sleep(30);
        h.key_mods(F9, KeyDirection::Press, ctrl_shift());
    }
    h.key_mods(F9, KeyDirection::Release, ctrl_shift());
    h.key_mods(L_SHIFT, KeyDirection::Release, ctrl());
    h.key_mods(L_CTRL, KeyDirection::Release, Modifiers::none());
}

fn ctrl_backspace(h: &mut Harness) {
    h.key_mods(L_CTRL, KeyDirection::Press, ctrl());
    h.key_mods(BACKSPACE, KeyDirection::Press, ctrl());
    h.key_mods(BACKSPACE, KeyDirection::Release, ctrl());
    h.key_mods(L_CTRL, KeyDirection::Release, Modifiers::none());
    h.settle();
}

fn grab_switch_chord(h: &mut Harness, sc: u32) {
    h.send(EngineCommand::SetKeystreamHotkeys(KeystreamHotkeys {
        pause: None,
        switch_last: None,
        grabbed: [
            None,
            Some(Chord { ctrl: true, shift: true, alt: false, meta: false, scancode: sc }),
        ],
    }));
    h.settle();
}

fn press_grabbed_switch_chord(h: &mut Harness, sc: u32) {
    h.key_mods(L_CTRL, KeyDirection::Press, ctrl());
    h.key_mods(L_SHIFT, KeyDirection::Press, ctrl_shift());
    h.run();
    h.key_mods(sc, KeyDirection::Press, ctrl_shift());
    h.run();
    h.send(EngineCommand::SwitchLastForcefully);
    h.sleep(60);
    h.key_mods(L_SHIFT, KeyDirection::Release, ctrl());
    h.key_mods(L_CTRL, KeyDirection::Release, Modifiers::none());
}

/// A shifted key, with its modifier edges.
fn type_shifted(h: &mut Harness, sc: u32) {
    let shifted = Modifiers { shift: true, ..Modifiers::none() };
    h.key_mods(L_SHIFT, KeyDirection::Press, shifted);
    h.key_mods(sc, KeyDirection::Press, shifted);
    h.key_mods(sc, KeyDirection::Release, shifted);
    h.key_mods(L_SHIFT, KeyDirection::Release, Modifiers::none());
}

// ─── Deciding about a word ───────────────────────────────────────────

#[test]
fn a_hyphenated_word_under_caps_lock_is_left_alone() {
    let mut h = Harness::start_full(60_000, false, always_other, |_| {});
    type_en_us_caps(&mut h, "auto-switch ");
    h.settle();
    assert!(
        h.switches().is_empty(),
        "ALL-CAPS text is deliberate spelling-out, hyphen or not, got {:?}",
        h.switches()
    );
    assert!(h.ops().is_empty(), "nothing should have been rewritten: {:?}", h.ops());
}

#[test]
fn path_segment_after_a_slash_is_not_corrected() {
    let mut h = Harness::start_full(60_000, false, small_dictionary, |_| {});
    type_en_us(&mut h, "cd /tmp ");
    h.settle();
    assert!(h.switches().is_empty(), "a path segment must not switch anything");
    assert!(h.ops().is_empty(), "nothing should have been rewritten: {:?}", h.ops());
}

#[test]
fn a_slash_earlier_in_the_line_still_leaves_prose_correctable() {
    let mut h = Harness::start_full(60_000, false, small_dictionary, |_| {});
    type_en_us(&mut h, "/tmp ghbdsn ");
    h.settle();
    assert_eq!(
        h.switches(),
        vec!["uk-UA"],
        "`ghbdsn` is `привіт` mistyped and opens after a space, not a slash"
    );
}

#[test]
fn command_line_flag_is_not_corrected() {
    let mut h = Harness::start_full(60_000, false, small_dictionary, |_| {});
    type_en_us(&mut h, "command --ghbdsn ");
    h.settle();
    assert!(h.switches().is_empty(), "a command-line flag must not switch anything");
    assert!(h.ops().is_empty(), "nothing should have been rewritten: {:?}", h.ops());
}

#[test]
fn word_typed_after_a_rubbed_out_line_is_still_corrected() {
    let mut h = Harness::start_full(60_000, false, small_dictionary, |_| {});
    type_en_us(&mut h, "hello ");
    h.settle();
    assert!(h.switches().is_empty(), "`hello` is English — nothing to correct");
    for _ in 0..9 {
        h.tap(BACKSPACE);
    }
    type_en_us(&mut h, "ghbdsn ");
    h.settle();
    assert_eq!(
        h.switches(),
        vec!["uk-UA"],
        "`ghbdsn` is `привіт` mistyped, deletions before it or not"
    );
}

#[test]
fn whitelisted_word_is_not_auto_corrected() {
    let mut h = Harness::start_full(60_000, false, always_other, |s| {
        s.exceptions.word_whitelist = vec!["GHBDSN".to_owned()]
    });
    type_word(&mut h, &GHBDSN);
    h.tap(SPACE);
    h.settle();
    assert!(h.ops().is_empty(), "a whitelisted word must not be touched, got {:?}", h.ops());
    assert!(
        h.events.iter().any(
            |e| matches!(e, SwitcherEvent::KeptCurrent { reason } if reason.contains("whitelist"))
        ),
        "the decision trail must name the whitelist as the reason"
    );
}

#[test]
fn manual_switch_before_the_boundary_suppresses_the_correction() {
    let mut h = Harness::start(60_000);
    type_word(&mut h, &GHBDSN);
    h.settle();
    h.desktop.current = LayoutId::from("uk-UA");
    h.tap(SPACE);
    h.settle();
    assert!(h.switches().is_empty(), "the user's own choice of layout must stand");
    assert!(h.ops().is_empty(), "nothing should have been retyped: {:?}", h.ops());
}

#[test]
fn nav_mid_word_suppresses_correction() {
    let mut h = Harness::start(60_000);
    type_word(&mut h, &GHBDSN[..3]);
    h.tap(105);
    type_word(&mut h, &GHBDSN[3..]);
    h.tap(SPACE);
    h.settle();
    assert_eq!(h.ops(), vec![], "tainted word must not be corrected");
    assert!(
        h.events.iter().any(|e| matches!(
            e,
            SwitcherEvent::KeptCurrent { reason } if reason.contains("lost track")
        )),
        "engine should report why it stayed quiet"
    );
}

#[test]
fn idle_gap_mid_word_suppresses_correction() {
    let mut h = Harness::start(50);
    type_word(&mut h, &GHBDSN[..3]);
    h.settle();
    h.sleep(120);
    type_word(&mut h, &GHBDSN[3..]);
    h.tap(SPACE);
    h.settle();
    assert_eq!(h.ops(), vec![], "word interrupted by an idle gap must not be corrected");
}

#[test]
fn click_mid_word_suppresses_correction() {
    let mut h = Harness::start(60_000);
    type_word(&mut h, &GHBDSN[..3]);
    h.press(SC_POINTER_BUTTON);
    type_word(&mut h, &GHBDSN[3..]);
    h.tap(SPACE);
    h.settle();
    assert_eq!(h.ops(), vec![], "word interrupted by a click must not be corrected");
}

#[test]
fn click_then_fresh_word_corrects_normally() {
    let mut h = Harness::start(60_000);
    h.press(SC_POINTER_BUTTON);
    type_word(&mut h, &GHBDSN);
    h.tap(SPACE);
    h.settle();
    assert_eq!(
        h.ops(),
        vec![EmitOp::Backspaces(7), EmitOp::Keys(with_space())],
        "the word after a click must correct with exactly its own length"
    );
}

// ─── Carrying a correction out ───────────────────────────────────────

#[test]
fn basic_correction_switches_then_deletes_then_replays() {
    let mut h = Harness::start(60_000);
    type_word(&mut h, &GHBDSN);
    h.tap(SPACE);
    h.settle();
    assert_eq!(
        h.switches(),
        vec!["uk-UA"],
        "layout must switch exactly once, to the detector's pick"
    );
    assert_eq!(h.ops(), vec![EmitOp::Backspaces(7), EmitOp::Keys(with_space())]);
}

#[test]
fn boundary_character_survives_the_layout_flip() {
    let mut h = Harness::start(60_000);
    h.desktop.current = LayoutId::from("uk-UA");
    type_word(&mut h, &GHBDSN);
    h.key(0x08, KeyDirection::Press, true);
    h.key(0x08, KeyDirection::Release, true);
    h.settle();
    assert_eq!(h.switches(), vec!["en-US"], "the word itself still has to be corrected");
    let last = h.replays.last().unwrap();
    assert_eq!(
        last.last().copied(),
        Some((0x35, true)),
        "the `?` the user typed must be re-emitted on the key that produces `?` under en-US"
    );
}

#[test]
fn a_word_typed_under_caps_lock_replays_without_shift() {
    let mut h = Harness::start(60_000);
    let caps = Modifiers { caps: true, ..Modifiers::none() };
    for &sc in GHBDSN.iter().chain(std::iter::once(&SPACE)) {
        h.key_mods(sc, KeyDirection::Press, caps);
        h.key_mods(sc, KeyDirection::Release, caps);
    }
    h.settle();
    h.send(EngineCommand::SwitchLastForcefully);
    h.settle();
    let last = h.replays.last().unwrap();
    assert!(
        last.iter().all(|&(_, shift)| !shift),
        "the user pressed no Shift, so the replay must press none: {last:?}"
    );
}

#[test]
fn a_layout_switch_that_gets_put_back_leaves_the_word_alone() {
    let mut h = Harness::start(60_000);
    h.desktop.revert = true;
    type_word(&mut h, &GHBDSN);
    h.tap(SPACE);
    h.settle();
    assert_eq!(
        h.switches(),
        vec!["uk-UA"],
        "the switch is still attempted — it is the retype that must not follow"
    );
    assert!(
        h.ops().is_empty(),
        "nothing may be deleted or retyped once the layout went back: {:?}",
        h.ops()
    );
}

#[test]
fn a_desktop_that_switches_properly_is_never_sent_a_shortcut() {
    let mut h = Harness::start(60_000);
    h.desktop.has_shortcut = true;
    type_word(&mut h, &GHBDSN);
    h.tap(SPACE);
    h.settle();
    assert_eq!(
        h.desktop.shortcuts_pressed, 0,
        "the layout already moved; pressing the desktop's shortcut would move it again"
    );
    assert!(!h.ops().is_empty(), "and the correction still happened");
}

#[test]
fn a_shortcut_that_does_not_help_still_costs_the_user_nothing() {
    let mut h = Harness::start(60_000);
    h.desktop.revert = true;
    h.desktop.has_shortcut = true;
    type_word(&mut h, &GHBDSN);
    h.tap(SPACE);
    h.settle();
    let chords = h.desktop.shortcuts_pressed;
    assert!(
        chords > 0 && chords <= 2,
        "the shortcut is tried once per layout and no more, got {chords}"
    );
    assert!(
        h.ops().is_empty(),
        "nothing may be deleted or retyped when the layout never moved: {:?}",
        h.ops()
    );
}

#[test]
fn failed_switch_leaves_text_untouched() {
    let mut h = Harness::start_full(60_000, true, always_other, |_| {});
    type_word(&mut h, &GHBDSN);
    h.tap(SPACE);
    h.settle();
    assert_eq!(h.ops(), vec![], "no keystrokes may be sent if the switch failed");
}

#[test]
fn echoes_do_not_retrigger_or_pollute() {
    let mut h = Harness::start(60_000);
    h.echoing = true;
    type_word(&mut h, &GHBDSN);
    h.tap(SPACE);
    h.settle();
    assert_eq!(h.ops().len(), 2, "echoes must not re-correct");

    type_word(&mut h, &GHBDSN);
    h.tap(SPACE);
    h.settle();
    assert_eq!(h.ops()[2], EmitOp::Backspaces(7));
}

#[test]
fn backspace_edit_recorrects_whole_word() {
    let mut h = Harness::start(60_000);
    h.echoing = true;
    type_word(&mut h, &GHBDSN);
    h.tap(SPACE);
    h.settle();

    h.tap(BACKSPACE);
    h.tap(BACKSPACE);
    h.tap(GHBDSN[5]);
    h.tap(SPACE);
    h.settle();

    let ops = h.ops();
    assert_eq!(
        ops.get(2),
        Some(&EmitOp::Backspaces(7)),
        "re-opened word must be corrected in full, got {ops:?}"
    );
    assert_eq!(ops.get(3), Some(&EmitOp::Keys(with_space())));
}

#[test]
fn raced_keystroke_is_compensated() {
    let mut h = Harness::start(60_000);
    type_word(&mut h, &GHBDSN);
    h.tap(SPACE);
    h.press(GHBDSN[0]);
    h.release(GHBDSN[0]);
    h.settle();

    let ops = h.ops();
    assert_eq!(
        ops[0],
        EmitOp::Backspaces(8),
        "single burst covers word + boundary + absorbed key, got {ops:?}"
    );
    let EmitOp::Keys(replayed) = &ops[1] else {
        panic!("expected replay op, got {ops:?}");
    };
    assert_eq!(
        replayed.last(),
        Some(&GHBDSN[0]),
        "raced key must be re-typed after the boundary"
    );

    for &sc in &GHBDSN[1..] {
        h.tap(sc);
    }
    h.tap(SPACE);
    h.settle();
    let ops = h.ops();
    assert_eq!(
        ops.get(2),
        Some(&EmitOp::Backspaces(7)),
        "raced key must be part of the next tracked word, got {ops:?}"
    );
}

#[test]
fn raced_full_word_is_absorbed_in_order() {
    let mut h = Harness::start(60_000);
    type_word(&mut h, &GHBDSN);
    h.tap(SPACE);
    type_word(&mut h, &GHBDSN);
    h.tap(SPACE);
    h.settle();

    let ops = h.ops();
    assert_eq!(
        ops[0],
        EmitOp::Backspaces(14),
        "must absorb the raced word + its boundary, got {ops:?}"
    );
    let expected_replay: Vec<u32> = with_space().into_iter().chain(with_space()).collect();
    assert_eq!(
        ops[1],
        EmitOp::Keys(expected_replay),
        "replay must preserve typed order, got {ops:?}"
    );
    assert_eq!(
        ops.get(2),
        Some(&EmitOp::Backspaces(7)),
        "absorbed word must get its own decision, got {ops:?}"
    );
    assert!(
        h.events.iter().filter(|e| is_corrected(e)).count() >= 2,
        "both words corrected"
    );
}

#[test]
fn keystroke_inside_the_replay_is_repaired() {
    let mut h = Harness::start(60_000);
    h.intruder = Some(INTRUDER);
    h.intrusions_left = 1;
    type_word(&mut h, &GHBDSN);
    h.tap(SPACE);
    h.settle();

    let repaired: Vec<u32> = with_space().into_iter().chain([INTRUDER]).collect();
    assert_eq!(
        h.ops(),
        vec![
            EmitOp::Backspaces(7),
            EmitOp::Keys(with_space()),
            EmitOp::Backspaces(8),
            EmitOp::Keys(repaired),
        ],
        "an intruding keystroke must trigger a re-emit in typed order"
    );
}

#[test]
fn relentless_intrusion_stops_at_the_repair_budget() {
    let mut h = Harness::start(60_000);
    h.intruder = Some(INTRUDER);
    h.intrusions_left = usize::MAX;
    type_word(&mut h, &GHBDSN);
    h.tap(SPACE);
    h.settle();

    let ops = h.ops();
    let replays = ops.iter().filter(|o| matches!(o, EmitOp::Keys(_))).count();
    assert_eq!(
        replays,
        1 + INTRUSION_REPAIRS as usize,
        "one replay plus the repair budget, then stop, got {ops:?}"
    );
}

#[test]
fn plain_correction_does_not_release_modifiers() {
    let mut h = Harness::start(60_000);
    type_word(&mut h, &GHBDSN);
    h.tap(SPACE);
    h.settle();
    assert!(
        !h.ops().contains(&EmitOp::ReleaseModifiers),
        "nothing was held, so nothing should be released, got {:?}",
        h.ops()
    );
}

// ─── Pausing ─────────────────────────────────────────────────────────

#[test]
fn the_manual_hotkey_still_works_while_paused() {
    let mut h = Harness::start(60_000);
    h.send(EngineCommand::TogglePause);
    h.wait_for(|e| matches!(e, SwitcherEvent::PausedChanged(true)));

    type_word(&mut h, &GHBDSN);
    h.tap(SPACE);
    h.settle();
    assert!(h.switches().is_empty(), "paused must still mean no automatic correction");

    h.send(EngineCommand::SwitchLastForcefully);
    h.wait_for(is_corrected);
    h.settle();
    assert_eq!(h.switches().len(), 1, "the hotkey must switch the word the pause left alone");
}

#[test]
fn auto_switch_left_off_in_the_config_comes_back_off() {
    let mut h = Harness::start_full(60_000, false, always_other, |s| s.general.paused = true);
    type_word(&mut h, &GHBDSN);
    h.tap(SPACE);
    h.settle();
    assert!(
        h.switches().is_empty(),
        "a config that says auto-switch was left off must start it off"
    );

    h.send(EngineCommand::SetPaused(false));
    h.wait_for(|e| matches!(e, SwitcherEvent::PausedChanged(false)));
    type_word(&mut h, &GHBDSN);
    h.tap(SPACE);
    h.wait_for(is_corrected);
}

#[test]
fn the_pause_chord_resumes_an_app_that_started_paused() {
    let mut h = Harness::start_full(60_000, false, always_other, |s| s.general.paused = true);
    h.send(EngineCommand::SetKeystreamHotkeys(KeystreamHotkeys {
        pause: Some(Binding::Key(switch_chord())),
        switch_last: None,
        grabbed: [None, None],
    }));
    h.run();
    press_chord(&mut h, 0);
    h.wait_for(|e| matches!(e, SwitcherEvent::PausedChanged(false)));
}

#[test]
fn being_told_the_pause_state_it_is_already_in_changes_nothing() {
    let mut h = Harness::start_full(60_000, false, always_other, |s| s.general.paused = true);
    h.send(EngineCommand::SetPaused(true));
    type_word(&mut h, &GHBDSN);
    h.tap(SPACE);
    h.settle();
    assert!(h.switches().is_empty(), "still paused, so still no correction");
    assert!(
        !h.events.iter().any(|e| matches!(e, SwitcherEvent::PausedChanged(_))),
        "nothing changed, so the tray must not be told anything did"
    );
}

#[test]
fn pausing_has_its_own_sound() {
    let mut h = Harness::start(60_000);
    h.send(EngineCommand::TogglePause);
    h.send(EngineCommand::TogglePause);
    h.run();
    assert_eq!(h.sounds, vec![Sound::Pause, Sound::Resume]);
    assert!(!h.engine.paused());
}

// ─── The manual hotkey ───────────────────────────────────────────────

#[test]
fn manual_hotkey_survives_an_idle_pause() {
    let mut h = Harness::start(50);
    type_word(&mut h, &GHBDSN);
    h.tap(SPACE);
    h.wait_for(is_corrected);
    h.settle();

    h.sleep(120);
    h.tap(L_CTRL);
    h.settle();

    h.send(EngineCommand::SwitchLastForcefully);
    h.wait_for(is_corrected);
    h.settle();
    assert_eq!(
        h.switches(),
        vec!["uk-UA", "en-US"],
        "the hotkey must still reach the last word after a pause"
    );
}

#[test]
fn a_chord_still_fires_after_its_key_closed_a_corrected_word() {
    let mut h = Harness::start(60_000);
    h.send(EngineCommand::SetKeystreamHotkeys(KeystreamHotkeys {
        pause: Some(Binding::Key(Chord {
            ctrl: true,
            shift: true,
            alt: false,
            meta: false,
            scancode: SPACE,
        })),
        switch_last: None,
        grabbed: [None, None],
    }));
    h.run();

    type_word(&mut h, &GHBDSN);
    h.tap(SPACE);
    h.wait_for(is_corrected);
    h.settle();

    h.key_mods(SPACE, KeyDirection::Press, ctrl_shift());
    h.key_mods(SPACE, KeyDirection::Release, ctrl_shift());
    h.wait_for(|e| matches!(e, SwitcherEvent::PausedChanged(true)));
}

fn double_shift() -> Binding {
    Binding::Mods(ModChord { mods: ModSet { shift: true, ..ModSet::none() }, double_tap: true })
}

#[test]
fn a_double_shift_tap_force_switches_the_last_word() {
    let mut h = Harness::start(60_000);
    bind_switch(&mut h, double_shift());
    type_word(&mut h, &GHBDSN);
    h.tap(SPACE);
    h.wait_for(is_corrected);
    h.settle();

    h.tap(L_SHIFT);
    h.tap(L_SHIFT);
    h.wait_for(is_corrected);
    h.settle();
    assert_eq!(
        h.switches(),
        vec!["uk-UA", "en-US"],
        "the second tap must undo the correction the first one did not"
    );
}

#[test]
fn a_shift_hold_around_a_letter_does_not_force_switch() {
    let mut h = Harness::start(60_000);
    bind_switch(&mut h, double_shift());
    type_word(&mut h, &GHBDSN);
    h.tap(SPACE);
    h.wait_for(is_corrected);
    h.settle();
    let after_correction = h.switches();

    for _ in 0..2 {
        h.press(L_SHIFT);
        h.tap(0x1E);
        h.release(L_SHIFT);
    }
    h.settle();
    assert_eq!(h.switches(), after_correction, "typing capitals must not reach the force-switch");
}

/// What the engine said since the last look, in its order.
fn said(h: &Harness) -> Vec<String> {
    h.events
        .iter()
        .map(|e| match e {
            SwitcherEvent::PausedChanged(p) => format!("paused {p}"),
            SwitcherEvent::KeptCurrent { reason } => format!("kept: {reason}"),
            SwitcherEvent::Corrected {
                from_layout,
                to_layout,
                original_text,
                corrected_text,
                reason,
            } => format!(
                "{} {original_text:?} to {} {corrected_text:?}: {reason}",
                from_layout.as_str(),
                to_layout.as_str()
            ),
            SwitcherEvent::LayoutChanged(id) => format!("layout {}", id.as_str()),
        })
        .collect()
}

/// The undo of a correction of `ghbdsn`, and nothing besides.
fn the_undo() -> Vec<&'static str> {
    vec![
        "layout uk-UA",
        "uk-UA \"привіт\" to en-US \"ghbdsn \": manual switch-last hotkey (undoing a correction)",
        "layout en-US",
    ]
}

#[test]
fn manual_hotkey_undoes_a_correction_without_learning_the_word() {
    let mut h = Harness::start(60_000);
    type_word(&mut h, &GHBDSN);
    h.tap(SPACE);
    h.wait_for(is_corrected);
    h.settle();

    h.send(EngineCommand::SwitchLastForcefully);
    h.settle();
    assert_eq!(
        h.switches(),
        vec!["uk-UA", "en-US"],
        "the undo still has to restore the original layout"
    );
    assert_eq!(said(&h), the_undo(), "undo is not consent to persist typed text");
}

#[test]
fn manual_hotkey_undo_does_not_learn_a_wrong_layout_twin() {
    let mut h = Harness::start(60_000);
    type_word(&mut h, &GHBDSN);
    h.tap(SPACE);
    h.wait_for(is_corrected);
    h.settle();

    h.send(EngineCommand::SwitchLastForcefully);
    h.settle();
    assert_eq!(
        h.switches(),
        vec!["uk-UA", "en-US"],
        "the undo itself must still happen — only the learning is withheld"
    );
    assert_eq!(
        said(&h),
        the_undo(),
        "the correction rested on a real uk-UA word, so its en-US twin is not one"
    );
}

#[test]
fn manual_hotkey_undo_never_learns_when_the_switch_was_a_guess() {
    let mut h = Harness::start(60_000);
    type_word(&mut h, &GHBDSN);
    h.tap(SPACE);
    h.wait_for(is_corrected);
    h.settle();

    h.send(EngineCommand::SwitchLastForcefully);
    h.settle();
    assert_eq!(h.switches(), vec!["uk-UA", "en-US"]);
    assert_eq!(said(&h), the_undo(), "heuristic undo must not persist the typed token either");
}

#[test]
fn manual_hotkey_on_a_kept_word_switches_without_learning() {
    let mut h = Harness::start_full(60_000, false, no_opinion, |_| {});
    type_word(&mut h, &GHBDSN);
    h.tap(SPACE);
    h.settle();
    h.send(EngineCommand::SwitchLastForcefully);
    h.settle();
    assert_eq!(h.switches(), vec!["uk-UA"]);
    assert_eq!(
        said(&h),
        vec![
            "kept: no detector had an opinion",
            "en-US \"ghbdsn\" to uk-UA \"привіт \": manual switch-last hotkey",
            "layout uk-UA",
        ]
    );
}

#[test]
fn the_hotkey_switches_a_word_that_has_no_separator_after_it_yet() {
    let mut h = Harness::start(60_000);
    type_word(&mut h, &GHBDSN);
    h.settle();

    h.send(EngineCommand::SwitchLastForcefully);
    h.wait_for(is_corrected);
    h.settle();
    assert_eq!(
        h.switches(),
        vec!["uk-UA"],
        "the word under the fingers must switch like a closed one"
    );
}

#[test]
fn switching_an_unfinished_word_leaves_the_caret_where_it_was() {
    let mut h = Harness::start(60_000);
    type_word(&mut h, &GHBDSN);
    h.settle();

    h.send(EngineCommand::SwitchLastForcefully);
    h.wait_for(is_corrected);
    h.settle();
    assert_eq!(
        erase_counts(&h).first(),
        Some(&GHBDSN.len()),
        "exactly the word, and nothing past the caret"
    );
}

#[test]
fn a_repeated_hotkey_switches_an_unfinished_word_only_once() {
    let mut h = Harness::start(60_000);
    type_word(&mut h, &GHBDSN);
    h.settle();

    for _ in 0..3 {
        h.send(EngineCommand::SwitchLastForcefully);
    }
    h.settle();
    assert_eq!(
        h.switches().len(),
        1,
        "auto-repeat must not keep re-switching the same word"
    );
}

#[test]
fn pressing_the_hotkey_again_switches_the_word_back() {
    let mut h = Harness::start(60_000);
    type_word(&mut h, &GHBDSN);
    h.tap(SPACE);
    h.wait_for(is_corrected);
    h.settle();
    let after_auto = h.switches().len();

    for _ in 0..2 {
        h.send(EngineCommand::SwitchLastForcefully);
        h.wait_for(is_corrected);
        h.settle();
    }

    let switches = h.switches();
    assert_eq!(
        switches.len(),
        after_auto + 2,
        "the second press must switch the word back, not do nothing"
    );
    assert_eq!(
        switches.last(),
        switches.get(after_auto - 1),
        "two presses land the word where the engine had put it"
    );
}

#[test]
fn taking_back_your_own_press_does_not_teach_the_dictionary() {
    let mut h = Harness::start(60_000);
    type_word(&mut h, &GHBDSN);
    h.tap(SPACE);
    h.wait_for(is_corrected);
    h.settle();
    for _ in 0..3 {
        h.send(EngineCommand::SwitchLastForcefully);
        h.wait_for(is_corrected);
        h.settle();
    }
    assert_eq!(h.switches(), vec!["uk-UA", "en-US", "uk-UA", "en-US"]);
    assert_eq!(said(&h), vec!["layout en-US"], "after the last correction, nothing else");
}

#[test]
fn the_hotkey_acts_on_the_word_the_caret_is_actually_in() {
    let mut h = Harness::start(60_000);
    type_word(&mut h, &GHBDSN);
    h.tap(SPACE);
    h.wait_for(is_corrected);
    h.settle();
    let second = [0x11u32, 0x18, 0x13];
    type_word(&mut h, &second);
    h.settle();

    h.send(EngineCommand::SwitchLastForcefully);
    h.settle();
    assert_eq!(
        erase_counts(&h).last(),
        Some(&second.len()),
        "the erase must match the word under the caret, not the one before it"
    );
}

#[test]
fn the_hotkey_gives_up_when_the_caret_has_moved_past_the_stash() {
    let mut h = Harness::start(60_000);
    type_word(&mut h, &GHBDSN);
    h.tap(SPACE);
    h.wait_for(is_corrected);
    h.settle();
    let before = h.ops().len();
    h.tap(SPACE);
    h.settle();

    h.send(EngineCommand::SwitchLastForcefully);
    h.settle();
    assert_eq!(
        h.ops().len(),
        before,
        "nothing may be typed when the caret cannot be accounted for"
    );
}

#[test]
fn a_poisoned_buffer_is_left_alone_by_the_hotkey() {
    let mut h = Harness::start(50);
    type_word(&mut h, &GHBDSN);
    h.sleep(160);
    h.tap(L_CTRL);
    h.settle();

    h.send(EngineCommand::SwitchLastForcefully);
    h.settle();
    assert!(h.switches().is_empty(), "a caret we cannot vouch for must not be typed over");
}

#[test]
fn the_hotkey_still_works_on_the_word_typed_after_a_switched_one() {
    let mut h = Harness::start(60_000);
    type_word(&mut h, &GHBDSN);
    h.settle();
    for _ in 0..2 {
        h.send(EngineCommand::SwitchLastForcefully);
        h.settle();
    }
    for _ in 0..GHBDSN.len() {
        h.tap(BACKSPACE);
    }
    let second = [0x32u32, 0x18, 0x18];
    type_word(&mut h, &second);
    h.settle();

    h.send(EngineCommand::SwitchLastForcefully);
    h.settle();
    assert_eq!(
        erase_counts(&h).last(),
        Some(&second.len()),
        "the erase must match the word now under the caret"
    );
}

#[test]
fn the_hotkey_survives_a_line_cleared_with_ctrl_backspace() {
    let mut h = Harness::start(60_000);
    type_word(&mut h, &GHBDSN);
    h.settle();
    for _ in 0..2 {
        h.send(EngineCommand::SwitchLastForcefully);
        h.settle();
    }
    ctrl_backspace(&mut h);
    let second = [0x32u32, 0x18, 0x18];
    type_word(&mut h, &second);
    h.settle();

    h.send(EngineCommand::SwitchLastForcefully);
    h.settle();
    assert_eq!(
        erase_counts(&h).last(),
        Some(&second.len()),
        "the word typed after a word-delete is watched from its first key: {:?}",
        h.ops()
    );
}

#[test]
fn the_hotkey_survives_a_line_cleared_with_select_all_and_backspace() {
    let mut h = Harness::start(60_000);
    type_word(&mut h, &GHBDSN);
    h.settle();
    h.key_mods(L_CTRL, KeyDirection::Press, ctrl());
    h.key_mods(0x1E, KeyDirection::Press, ctrl());
    h.key_mods(0x1E, KeyDirection::Release, ctrl());
    h.key_mods(L_CTRL, KeyDirection::Release, Modifiers::none());
    h.tap(BACKSPACE);
    let second = [0x32u32, 0x18, 0x18];
    type_word(&mut h, &second);
    h.settle();

    h.send(EngineCommand::SwitchLastForcefully);
    h.settle();
    assert_eq!(
        erase_counts(&h).last(),
        Some(&second.len()),
        "backspacing past everything we track leaves nothing to splice into: {:?}",
        h.ops()
    );
}

#[test]
fn auto_switch_still_fires_on_the_word_after_ctrl_backspace() {
    let mut h = Harness::start(60_000);
    type_word(&mut h, &GHBDSN);
    h.settle();
    ctrl_backspace(&mut h);
    type_word(&mut h, &GHBDSN);
    h.tap(SPACE);
    h.wait_for(is_corrected);
}

#[test]
fn a_shortcut_that_deletes_nothing_still_stops_the_hotkey() {
    let mut h = Harness::start(60_000);
    type_word(&mut h, &GHBDSN);
    h.settle();
    h.key_mods(L_CTRL, KeyDirection::Press, ctrl());
    h.key_mods(0x2E, KeyDirection::Press, ctrl());
    h.key_mods(0x2E, KeyDirection::Release, ctrl());
    h.key_mods(L_CTRL, KeyDirection::Release, Modifiers::none());
    h.settle();
    let before = erase_counts(&h).len();
    type_word(&mut h, &[0x32u32, 0x18, 0x18]);
    h.settle();

    h.send(EngineCommand::SwitchLastForcefully);
    h.settle();
    assert_eq!(
        erase_counts(&h).len(),
        before,
        "the abandoned word is still on screen: {:?}",
        h.ops()
    );
}

#[test]
fn the_default_grabbed_chord_is_not_read_as_a_word_delete() {
    let mut h = Harness::start(60_000);
    h.send(EngineCommand::TogglePause);
    h.wait_for(|e| matches!(e, SwitcherEvent::PausedChanged(true)));
    grab_switch_chord(&mut h, BACKSPACE);

    type_word(&mut h, &GHBDSN);
    h.tap(SPACE);
    h.settle();
    press_grabbed_switch_chord(&mut h, BACKSPACE);

    h.wait_for(is_corrected);
    h.settle();
    assert_eq!(
        erase_counts(&h).last(),
        Some(&(GHBDSN.len() + 1)),
        "the word and its boundary, not a word-delete: {:?}",
        h.ops()
    );
}

#[test]
fn the_default_grabbed_chord_switches_a_word_still_being_typed() {
    let mut h = Harness::start(60_000);
    grab_switch_chord(&mut h, BACKSPACE);
    type_word(&mut h, &GHBDSN);
    h.settle();
    press_grabbed_switch_chord(&mut h, BACKSPACE);

    h.wait_for(is_corrected);
    h.settle();
    assert_eq!(
        erase_counts(&h).last(),
        Some(&GHBDSN.len()),
        "an unfinished word has no boundary to put back: {:?}",
        h.ops()
    );
}

#[test]
fn the_hotkey_switches_a_separator_when_there_is_no_word() {
    let mut h = Harness::start(60_000);
    type_shifted(&mut h, 0x04);
    h.settle();
    assert!(
        h.ops().is_empty(),
        "a separator on its own decides nothing automatically: {:?}",
        h.ops()
    );

    h.send(EngineCommand::SwitchLastForcefully);
    h.wait_for(is_corrected);
    h.settle();
    assert_eq!(
        h.ops(),
        vec![EmitOp::Backspaces(1), EmitOp::Keys(vec![0x04])],
        "one character erased and the same key retyped under the other layout"
    );
}

#[test]
fn the_hotkey_reaches_the_separator_typed_after_a_word() {
    let mut h = Harness::start(60_000);
    type_word(&mut h, &GHBDSN);
    h.tap(SPACE);
    h.wait_for(is_corrected);
    h.settle();
    type_shifted(&mut h, 0x04);
    h.settle();
    let before = h.ops().len();

    h.send(EngineCommand::SwitchLastForcefully);
    h.settle();
    assert_eq!(
        h.ops()[before..],
        [EmitOp::Backspaces(1), EmitOp::Keys(vec![0x04])],
        "the caret is after the separator, not after the word: {:?}",
        h.ops()
    );
}

#[test]
fn a_separator_typed_after_an_idle_pause_protects_the_word_behind_it() {
    let mut h = Harness::start(200);
    type_word(&mut h, &GHBDSN);
    h.tap(SPACE);
    h.wait_for(is_corrected);
    h.settle();
    let before = h.ops().len();
    h.sleep(400);
    type_shifted(&mut h, 0x04);
    h.settle();

    h.send(EngineCommand::SwitchLastForcefully);
    h.settle();
    assert_eq!(
        h.ops()[before..],
        [EmitOp::Backspaces(1), EmitOp::Keys(vec![0x04])],
        "the separator is switchable; the word behind it is not measurable: {:?}",
        h.ops()
    );
}

#[test]
fn the_hotkey_leaves_a_separator_that_means_the_same_thing_alone() {
    let mut h = Harness::start(60_000);
    h.tap(SPACE);
    h.settle();

    h.send(EngineCommand::SwitchLastForcefully);
    h.settle();
    assert!(h.ops().is_empty(), "nothing to switch about a space: {:?}", h.ops());
}

#[test]
fn the_hotkey_never_replays_a_submission_key() {
    let mut h = Harness::start(60_000);
    h.tap(0x1C);
    h.settle();

    h.send(EngineCommand::SwitchLastForcefully);
    h.settle();
    assert!(h.ops().is_empty(), "Enter must not be retyped: {:?}", h.ops());
}

#[test]
fn the_force_switch_obeys_the_chime_setting() {
    let mut quiet =
        Harness::start_full(60_000, false, always_other, |s| s.general.sound_on_correct = false);
    type_word(&mut quiet, &GHBDSN);
    quiet.settle();
    quiet.send(EngineCommand::SwitchLastForcefully);
    quiet.settle();
    assert!(!erase_counts(&quiet).is_empty(), "the switch itself must still happen");
    assert!(quiet.sounds.is_empty(), "chime off means no chime: {:?}", quiet.sounds);

    let mut loud = Harness::start(60_000);
    type_word(&mut loud, &GHBDSN);
    loud.settle();
    loud.send(EngineCommand::SwitchLastForcefully);
    loud.settle();
    assert!(
        matches!(loud.sounds.as_slice(), [Sound::Correct, ..]),
        "chime on means a chime: {:?}",
        loud.sounds
    );
}

#[test]
fn two_taps_of_the_chord_are_two_corrections() {
    let mut h = Harness::start(60_000);
    bind_switch(&mut h, Binding::Key(switch_chord()));
    type_word(&mut h, &GHBDSN);
    h.settle();
    press_chord(&mut h, 0);
    h.settle();
    press_chord(&mut h, 0);
    h.settle();
    assert_eq!(
        erase_counts(&h).len(),
        2,
        "each tap is its own press: {:?}",
        h.ops()
    );
}

#[test]
fn the_chord_still_answers_after_switches_a_deletion_and_a_retype() {
    let mut h = Harness::start(60_000);
    bind_switch(&mut h, Binding::Key(switch_chord()));
    type_word(&mut h, &GHBDSN);
    h.settle();
    for _ in 0..3 {
        press_chord(&mut h, 0);
        h.settle();
        h.replay_echoes();
        h.settle();
    }
    let before = erase_counts(&h).len();

    for _ in 0..(GHBDSN.len() + 4) {
        h.tap(BACKSPACE);
    }
    h.settle();
    type_word(&mut h, &GHBDSN);
    h.settle();

    press_chord(&mut h, 0);
    h.settle();
    assert_eq!(
        erase_counts(&h).len(),
        before + 1,
        "the chord must still answer: {:?}",
        h.ops()
    );
}

#[test]
fn the_hotkey_still_answers_after_the_line_was_rubbed_out_past_the_buffer() {
    let mut h = Harness::start(60_000);
    type_word(&mut h, &GHBDSN);
    h.settle();
    for _ in 0..3 {
        h.send(EngineCommand::SwitchLastForcefully);
        h.settle();
    }
    let before = h.switches().len();

    for _ in 0..(GHBDSN.len() + 4) {
        h.tap(BACKSPACE);
    }
    h.settle();

    type_word(&mut h, &GHBDSN);
    h.settle();
    h.send(EngineCommand::SwitchLastForcefully);
    h.settle();
    assert_eq!(
        h.switches().len(),
        before + 1,
        "the gesture must answer the word typed after a deleted line"
    );
}

#[test]
fn a_second_press_on_an_unfinished_word_rotates_it_back() {
    let mut h = Harness::start(60_000);
    type_word(&mut h, &GHBDSN);
    h.settle();
    for _ in 0..2 {
        h.send(EngineCommand::SwitchLastForcefully);
        h.settle();
    }
    assert_eq!(
        h.switches(),
        vec!["uk-UA", "en-US"],
        "the second press must bring the word back, not re-apply the first"
    );
}

// ─── Holding the hotkey ──────────────────────────────────────────────

#[test]
fn holding_the_force_switch_chord_does_not_abort_its_own_correction() {
    let mut h = Harness::start(60_000);
    type_word(&mut h, &GHBDSN);
    h.tap(SPACE);
    h.wait_for(is_corrected);
    h.settle();
    let before = h.ops().len();
    bind_switch(&mut h, Binding::Key(switch_chord()));

    press_chord(&mut h, 600);
    h.settle();

    let ops = h.ops();
    let erases: Vec<usize> = ops[before..]
        .iter()
        .filter_map(|o| match o {
            EmitOp::Backspaces(n) => Some(*n),
            _ => None,
        })
        .collect();
    assert_eq!(
        erases,
        vec![GHBDSN.len() + 1],
        "the held chord must undo the correction exactly once — word plus its boundary"
    );
    assert!(
        ops[before..].iter().any(|o| matches!(o, EmitOp::Keys(k) if k.len() == GHBDSN.len() + 1)),
        "and the word must be typed back, not left erased"
    );
}

#[test]
fn the_chord_still_answers_after_a_hold_outlasting_the_release_wait() {
    let mut h = Harness::start(60_000);
    bind_switch(&mut h, Binding::Key(switch_chord()));
    type_word(&mut h, &GHBDSN);
    h.settle();

    press_chord(&mut h, 0);
    h.settle();
    assert_eq!(erase_counts(&h).len(), 1, "a plain press must switch the word");

    press_chord(&mut h, 2_600);
    h.settle();
    assert_eq!(
        erase_counts(&h).len(),
        2,
        "the held press must switch it too, once the chord comes up"
    );

    press_chord(&mut h, 0);
    h.settle();
    let erases = erase_counts(&h);
    assert_eq!(erases.len(), 3, "and the gesture must still answer afterwards: {erases:?}");
    assert_eq!(
        erases.last(),
        Some(&GHBDSN.len()),
        "acting on the word under the caret, not on a stale one: {erases:?}"
    );

    let tail = [0x18u32, 0x1F];
    type_word(&mut h, &tail);
    h.settle();
    press_chord(&mut h, 0);
    h.settle();
    assert_eq!(
        erase_counts(&h).last(),
        Some(&(GHBDSN.len() + tail.len())),
        "the whole word must still be the engine's: {:?}",
        erase_counts(&h)
    );
}

#[test]
fn a_hold_outlasting_the_wait_types_nothing_at_all() {
    let mut h = Harness::start(60_000);
    bind_switch(&mut h, Binding::Key(switch_chord()));
    type_word(&mut h, &GHBDSN);
    h.settle();

    press_chord(&mut h, CHORD_RELEASE_WAIT / MS + 600);
    h.settle();
    assert!(
        erase_counts(&h).is_empty(),
        "nothing may be emitted while the key is still down: {:?}",
        h.ops()
    );

    press_chord(&mut h, 0);
    h.settle();
    assert_eq!(
        erase_counts(&h),
        vec![GHBDSN.len()],
        "one correction, and it is the one asked for after the key came up"
    );
}

#[test]
fn a_hotkey_with_no_modifier_does_not_throw_away_the_word_it_switched() {
    let mut h = Harness::start(60_000);
    bind_switch(
        &mut h,
        Binding::Key(Chord { ctrl: false, shift: false, alt: false, meta: false, scancode: F9 }),
    );
    type_word(&mut h, &GHBDSN);
    h.settle();
    for _ in 0..2 {
        h.tap(F9);
        h.settle();
    }
    assert_eq!(
        erase_counts(&h),
        vec![GHBDSN.len(), GHBDSN.len()],
        "both presses must act on the word that is still on screen"
    );
}

#[test]
fn a_hold_that_ends_in_nothing_leaves_the_stashed_word_alone() {
    let mut h = Harness::start(60_000);
    bind_switch(&mut h, Binding::Key(switch_chord()));
    type_word(&mut h, &GHBDSN);
    h.tap(SPACE);
    h.wait_for(is_corrected);
    h.settle();
    let before = erase_counts(&h).len();

    press_chord(&mut h, CHORD_RELEASE_WAIT / MS + 600);
    h.settle();
    assert_eq!(
        erase_counts(&h).len(),
        before,
        "the hold outlasted the wait, so nothing may have been typed"
    );

    press_chord(&mut h, 0);
    h.settle();
    let erases = erase_counts(&h);
    assert_eq!(
        erases.len(),
        before + 1,
        "the next press must find the word still stashed: {erases:?}"
    );
    assert_eq!(
        erases.last(),
        Some(&(GHBDSN.len() + 1)),
        "and act on the word plus its boundary: {erases:?}"
    );
}

#[test]
fn the_chord_itself_leaves_the_word_it_just_switched_alone() {
    let mut h = Harness::start(60_000);
    bind_switch(&mut h, Binding::Key(switch_chord()));
    type_word(&mut h, &GHBDSN);
    h.settle();
    press_chord(&mut h, 0);
    h.settle();
    press_chord(&mut h, 0);
    h.settle();

    for _ in 0..GHBDSN.len() {
        h.tap(BACKSPACE);
    }
    let second = [0x32u32, 0x18, 0x18];
    type_word(&mut h, &second);
    h.settle();
    press_chord(&mut h, 0);
    h.settle();
    assert_eq!(
        erase_counts(&h).last(),
        Some(&second.len()),
        "the third press must act on the word now under the caret: {:?}",
        erase_counts(&h)
    );
}

#[test]
fn a_grabbed_chord_held_down_is_waited_out_rather_than_typed_over() {
    let mut h = Harness::start(60_000);
    type_word(&mut h, &GHBDSN);
    h.tap(SPACE);
    h.wait_for(is_corrected);
    h.settle();
    let before = h.ops().len();
    grab_switch_chord(&mut h, F9);

    h.key_mods(L_CTRL, KeyDirection::Press, ctrl());
    h.key_mods(L_SHIFT, KeyDirection::Press, ctrl_shift());
    h.run();
    h.key_mods(F9, KeyDirection::Press, ctrl_shift());
    h.run();
    h.send(EngineCommand::SwitchLastForcefully);
    let held_until = h.t + 900 * MS;
    while h.t < held_until {
        h.key_mods(F9, KeyDirection::Press, ctrl_shift());
        h.sleep(30);
    }
    let let_go = h.t;
    h.key_mods(L_SHIFT, KeyDirection::Release, ctrl());
    h.key_mods(L_CTRL, KeyDirection::Release, Modifiers::none());
    h.settle();

    assert_eq!(
        h.ops_until(let_go),
        before,
        "nothing may be emitted while the chord is still held: {:?}",
        h.ops()
    );
    assert_eq!(
        erase_counts(&h).last(),
        Some(&(GHBDSN.len() + 1)),
        "the held chord must undo the correction"
    );
    assert_eq!(erase_counts(&h).len(), 2, "exactly once");
}

// ─── Pasting and secrets ─────────────────────────────────────────────

#[test]
fn a_word_completed_right_after_a_paste_is_left_alone() {
    let mut h = Harness::start(60_000);
    h.key_mods(L_CTRL, KeyDirection::Press, ctrl());
    h.key_mods(0x2F, KeyDirection::Press, ctrl());
    h.key_mods(0x2F, KeyDirection::Release, ctrl());
    h.key_mods(L_CTRL, KeyDirection::Release, Modifiers::none());
    type_word(&mut h, &GHBDSN);
    h.tap(SPACE);
    h.settle();
    assert!(h.ops().is_empty());

    h.sleep(2_000);
    type_word(&mut h, &GHBDSN);
    h.tap(SPACE);
    h.settle();
    assert_eq!(erase_counts(&h), vec![7]);
}

#[test]
fn a_backend_that_types_text_gets_the_word_as_text() {
    let mut h = Harness::start(60_000);
    let c = Correction {
        from: LayoutId::from("en-US"),
        to: LayoutId::from("uk-UA"),
        original: "ghbdsn".to_owned(),
        corrected: "привіт ".to_owned(),
        backspaces: 7,
        reason: "test".to_owned(),
        play_sound: false,
        replay_keys: None,
        pointer_click_allowance: 0,
    };
    assert!(h.apply_correction(c));
    assert_eq!(h.ops(), vec![EmitOp::Backspaces(7), EmitOp::Text("привіт ".to_owned())]);
    assert!(h.sounds.is_empty());
}
