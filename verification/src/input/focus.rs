//! What is known of the focused window and its caret.

use vstd::prelude::*;
use vstd::string::*;

use crate::text::{ascii_fold, chars_of, eq_ignore_ascii_case, to_ascii_lower};
use crate::time::Duration;

verus! {

broadcast use vstd::string::group_string_axioms;

/// Geometry of the focused window, in the desktop's global coordinates.
#[derive(Clone, Copy, PartialEq, Eq, Structural, Debug)]
pub struct FocusedWindowGeometry {
    pub x: i32,
    pub y: i32,
    pub width: u32,
    pub height: u32,
    /// Process owning the window, when the backend knows it.
    pub pid: Option<u32>,
}

/// A recent caret position, relative to the caret's own toplevel window.
#[derive(Clone, Copy, PartialEq, Eq, Debug)]
pub struct CaretHint {
    pub x: i32,
    pub y: i32,
    pub height: u32,
    /// How long ago the caret was seen there.
    pub age: Duration,
    /// Process that reported this caret.
    pub pid: Option<u32>,
    /// Size of the window the position is measured against.
    pub window: Option<(u32, u32)>,
}

/// Whether the focused text target is safe for keyboard-layout analysis.
#[derive(Clone, Copy, PartialEq, Eq, Structural, Debug)]
pub enum SensitiveInput {
    NotSensitive,
    Sensitive,
    Unknown,
}

/// Best-effort identification of the focused application.
pub trait FocusTracker: Send + Sync {
    /// File name of the focused process's executable.
    fn focused_exe(&self) -> Option<String>;

    /// Geometry of the focused window, when the backend can answer.
    fn focused_window_geometry(&self) -> (g: Option<FocusedWindowGeometry>)
        default_ensures
            g is None,
    {
        None
    }

    /// Last known caret position, when a caret source is running.
    fn caret_hint(&self) -> (h: Option<CaretHint>)
        default_ensures
            h is None,
    {
        None
    }

    /// Classify the currently focused input target for privacy.
    fn sensitive_input(&self) -> (s: SensitiveInput)
        default_ensures
            s == SensitiveInput::NotSensitive,
    {
        SensitiveInput::NotSensitive
    }

    fn backend_name(&self) -> &'static str;
}

/// A rectangle, right and bottom edges excluded.
#[derive(Clone, Copy, PartialEq, Eq, Structural, Debug)]
pub struct Rect {
    pub left: i32,
    pub top: i32,
    pub right: i32,
    pub bottom: i32,
}

#[derive(Clone, Copy, PartialEq, Eq, Structural, Debug)]
pub struct Point {
    pub x: i32,
    pub y: i32,
}

/// `n` brought into the range of `i32`.
pub open spec fn clamped(n: int) -> i32 {
    if n > i32::MAX {
        i32::MAX
    } else if n < i32::MIN {
        i32::MIN
    } else {
        n as i32
    }
}

fn distance(a: i32, b: i32) -> (d: i32)
    ensures
        d == clamped(a - b),
{
    let d: i64 = a as i64 - b as i64;
    if d > i32::MAX as i64 {
        i32::MAX
    } else if d < i32::MIN as i64 {
        i32::MIN
    } else {
        d as i32
    }
}

/// The geometry of a window with the given edges. None for edges that are
/// the wrong way round.
pub fn window_geometry(rect: Rect) -> (g: Option<FocusedWindowGeometry>)
    ensures
        rect.right < rect.left || rect.bottom < rect.top ==> g is None,
        rect.right >= rect.left && rect.bottom >= rect.top ==> g == Some(
            FocusedWindowGeometry {
                x: rect.left,
                y: rect.top,
                width: clamped(rect.right - rect.left) as u32,
                height: clamped(rect.bottom - rect.top) as u32,
                pid: None,
            },
        ),
{
    let width: i32 = distance(rect.right, rect.left);
    let height: i32 = distance(rect.bottom, rect.top);
    if width < 0 || height < 0 {
        return None;
    }
    Some(
        FocusedWindowGeometry {
            x: rect.left,
            y: rect.top,
            width: width as u32,
            height: height as u32,
            pid: None,
        },
    )
}

/// The window-relative hint for a caret already resolved to the screen
/// point `origin`, whose client-space rectangle is `caret`, inside the
/// foreground window `window`. None for a caret of no height: nobody is
/// typing where a collapsed caret sits.
pub fn caret_hint_from(origin: Point, caret: Rect, window: Rect) -> (h: Option<CaretHint>)
    ensures
        caret.bottom <= caret.top ==> h is None,
        caret.bottom > caret.top ==> h == Some(
            CaretHint {
                x: clamped(origin.x - window.left),
                y: clamped(origin.y - window.top),
                height: clamped(caret.bottom - caret.top) as u32,
                age: Duration { nanos: 0 },
                pid: None,
                window: None,
            },
        ),
{
    let height: i32 = distance(caret.bottom, caret.top);
    if height <= 0 {
        return None;
    }
    Some(
        CaretHint {
            x: distance(origin.x, window.left),
            y: distance(origin.y, window.top),
            height: height as u32,
            age: Duration { nanos: 0 },
            pid: None,
            window: None,
        },
    )
}

/// The style bit of a native edit control that hides what is typed.
pub const ES_PASSWORD_STYLE: u32 = 0x0020;

/// A native edit control, by its class name.
pub open spec fn is_edit_class(class: Seq<char>) -> bool {
    let folded = ascii_fold(class);
    folded == ascii_fold("edit"@) || (folded.len() >= 8 && folded.take(8) == ascii_fold(
        "richedit"@,
    ))
}

fn starts_with_richedit(class: &str) -> (b: bool)
    ensures
        b == (class@.len() >= 8 && ascii_fold(class@).take(8) == ascii_fold("richedit"@)),
{
    proof {
        reveal_strlit("richedit");
    }
    let v = chars_of(class);
    let prefix = chars_of("richedit");
    if v.len() < 8 {
        return false;
    }
    let ghost want = ascii_fold("richedit"@);
    let ghost have = ascii_fold(class@).take(8);
    let mut i: usize = 0;
    while i < 8
        invariant
            i <= 8 <= v.len(),
            v@ == class@,
            prefix@ == "richedit"@,
            prefix@.len() == 8,
            want == ascii_fold("richedit"@),
            have == ascii_fold(class@).take(8),
            forall|j: int| 0 <= j < i ==> (#[trigger] have[j]) == want[j],
        decreases 8 - i,
    {
        if to_ascii_lower(v[i]) != to_ascii_lower(prefix[i]) {
            assert(have[i as int] != want[i as int]);
            return false;
        }
        i += 1;
    }
    assert(have =~= want);
    true
}

/// Whether a native control hides what is typed. None for a control that
/// is no edit control: nothing is known of it.
pub fn native_password_field(class: &str, style: u32) -> (p: Option<bool>)
    ensures
        p == if is_edit_class(class@) {
            Some(style & ES_PASSWORD_STYLE != 0)
        } else {
            None
        },
{
    if eq_ignore_ascii_case(class, "edit") || starts_with_richedit(class) {
        Some(style & ES_PASSWORD_STYLE != 0)
    } else {
        None
    }
}

/// What the two ways of asking add up to: the first answer counts, and no
/// answer at all is not taken for a safe field.
pub fn sensitivity(accessibility: Option<bool>, native: Option<bool>) -> (s: SensitiveInput)
    ensures
        s == match (accessibility, native) {
            (Some(true), _) => SensitiveInput::Sensitive,
            (Some(false), _) => SensitiveInput::NotSensitive,
            (None, Some(true)) => SensitiveInput::Sensitive,
            (None, Some(false)) => SensitiveInput::NotSensitive,
            (None, None) => SensitiveInput::Unknown,
        },
{
    let answer = match accessibility {
        Some(b) => Some(b),
        None => native,
    };
    match answer {
        Some(true) => SensitiveInput::Sensitive,
        Some(false) => SensitiveInput::NotSensitive,
        None => SensitiveInput::Unknown,
    }
}

} // verus!
