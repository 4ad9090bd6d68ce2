//! Commands the host page sends the player, and what decides whether a movie
//! callback script takes an event.
use vstd::prelude::*;
use vstd::string::*;
use std::collections::HashMap;
use crate::datum::CastMemberRef;
use crate::datum_ref::DatumRef;
use crate::events::{player_dispatch_callback_event, player_dispatch_global_event, PlayerVMEvent, ScriptInstanceRef};
use crate::cast_member::ButtonType;

verus! {

/// A command for the player's command loop.
pub enum PlayerVMCommand {
    /// Load a movie, and start it when the flag is set.
    LoadMovieFromFile(String, bool),
    SetExternalParams(HashMap<String, String>),
    SetBasePath(String),
    SetMoviePathOverride(String),
    SetSystemFontPath(String),
    SetStageSize(u32, u32),
    /// The timeout of this name went off.
    TimeoutTriggered(String),
    PrintMemberBitmapHex(CastMemberRef),
    MouseDown((i32, i32)),
    MouseUp((i32, i32)),
    MouseMove((i32, i32)),
    KeyDown(String, u16),
    KeyUp(String, u16),
    TriggerAlertHook,
    /// A call from Flash content into a sprite's Lingo handler.
    TriggerFlashCallback { sprite_num: i32, handler_name: String, args: Vec<DatumRef> },
    TriggerLingoCallbackOnScript { cast_lib: i32, cast_member: i32, handler_name: String, args: Vec<DatumRef> },
    SetLingoScriptProperty { cast_lib: i32, cast_member: i32, prop_name: String, value: DatumRef },
}

/// What a movie callback (`the mouseDownScript` and the like) is set to.
pub enum ScriptReceiver {
    ScriptInstance(ScriptInstanceRef),
    Script(CastMemberRef),
    /// Lingo source text.
    ScriptText(String),
}

/// Whether a character is white space, as `char::is_whitespace` decides it
/// (the Unicode White_Space property).
pub open spec fn is_white_space(c: char) -> bool {
    ||| ('\u{9}' <= c && c <= '\u{d}')
    ||| c == ' '
    ||| c == '\u{85}'
    ||| c == '\u{a0}'
    ||| c == '\u{1680}'
    ||| ('\u{2000}' <= c && c <= '\u{200a}')
    ||| c == '\u{2028}'
    ||| c == '\u{2029}'
    ||| c == '\u{202f}'
    ||| c == '\u{205f}'
    ||| c == '\u{3000}'
}

fn white_space(c: char) -> (r: bool)
    ensures
        r == is_white_space(c),
{
    ('\u{9}' <= c && c <= '\u{d}') || c == ' ' || c == '\u{85}' || c == '\u{a0}' || c == '\u{1680}' || (
    '\u{2000}' <= c && c <= '\u{200a}') || c == '\u{2028}' || c == '\u{2029}' || c == '\u{202f}' || c
        == '\u{205f}' || c == '\u{3000}'
}

/// `i` is the first character of `s` that is not white space.
pub open spec fn first_non_space(s: Seq<char>, i: int) -> bool {
    &&& 0 <= i < s.len()
    &&& !is_white_space(s[i])
    &&& forall|j: int| 0 <= j < i ==> is_white_space(#[trigger] s[j])
}

/// `k - 1` is the last character of `s` that is not white space.
pub open spec fn end_of_non_space(s: Seq<char>, k: int) -> bool {
    &&& 0 < k <= s.len()
    &&& !is_white_space(s[k - 1])
    &&& forall|j: int| k <= j < s.len() ==> is_white_space(#[trigger] s[j])
}

/// The text with white space removed from both ends, as `str::trim` gives it.
pub open spec fn trimmed(s: Seq<char>) -> Seq<char> {
    if forall|i: int| 0 <= i < s.len() ==> is_white_space(#[trigger] s[i]) {
        Seq::empty()
    } else {
        let start = choose|i: int| first_non_space(s, i);
        let end = choose|k: int| end_of_non_space(s, k);
        s.subrange(start, end)
    }
}

/// Whether a callback script does anything: a script or an instance always
/// does; source text does unless it is blank or, trimmed, starts with a
/// `--` comment.
pub open spec fn callback_runs(callback: Option<ScriptReceiver>) -> bool {
    match callback {
        Some(ScriptReceiver::ScriptText(text)) => {
            let t = trimmed(text@);
            t.len() > 0 && !(t.len() >= 2 && t[0] == '-' && t[1] == '-')
        },
        Some(_) => true,
        None => false,
    }
}

/// Whether a movie callback script holds code that runs; a comment such as
/// `--nothing` does not, and does not stop the event reaching sprites.
pub fn has_executable_callback(callback: &Option<ScriptReceiver>) -> (r: bool)
    ensures
        r == callback_runs(*callback),
{
    match callback {
        Some(ScriptReceiver::ScriptText(text)) => {
            let s = text.as_str();
            let n = s.unicode_len();
            let mut start: usize = 0;
            while start < n && white_space(s.get_char(start))
                invariant
                    n == s@.len(),
                    start <= n,
                    forall|j: int| 0 <= j < start ==> is_white_space(#[trigger] s@[j]),
                decreases n - start,
            {
                start = start + 1;
            }
            if start == n {
                assert(trimmed(s@) =~= Seq::<char>::empty());
                return false;
            }
            let mut end: usize = n;
            while end > start && white_space(s.get_char(end - 1))
                invariant
                    n == s@.len(),
                    start < n,
                    !is_white_space(s@[start as int]),
                    start < end <= n,
                    forall|j: int| end <= j < n ==> is_white_space(#[trigger] s@[j]),
                decreases end,
            {
                end = end - 1;
            }
            proof {
                let sv = s@;
                assert(first_non_space(sv, start as int));
                let st = choose|i: int| first_non_space(sv, i);
                assert(!is_white_space(sv[start as int]));
                if st < start {
                    assert(is_white_space(sv[st]));
                }
                if start < st {
                    assert(is_white_space(sv[start as int]));
                }
                assert(st == start);
                assert(end_of_non_space(sv, end as int));
                let en = choose|k: int| end_of_non_space(sv, k);
                assert(!is_white_space(sv[end - 1]));
                if en < end {
                    assert(is_white_space(sv[end - 1]));
                }
                if end < en {
                    assert(is_white_space(sv[en - 1]));
                }
                assert(en == end);
            }
            let first = s.get_char(start);
            if end - start >= 2 && first == '-' && s.get_char(start + 1) == '-' {
                return false;
            }
            true
        },
        Some(_) => true,
        None => false,
    }
}

/// Text with white space removed from both ends, as `str::trim` does it.
pub(crate) fn trim_text(s: &str) -> (r: String)
    ensures
        r@ == trimmed(s@),
{
    let n = s.unicode_len();
    let mut start: usize = 0;
    while start < n && white_space(s.get_char(start))
        invariant
            n == s@.len(),
            start <= n,
            forall|j: int| 0 <= j < start ==> is_white_space(#[trigger] s@[j]),
        decreases n - start,
    {
        start = start + 1;
    }
    if start == n {
        assert(trimmed(s@) =~= Seq::<char>::empty());
        return String::new();
    }
    let mut end: usize = n;
    while end > start && white_space(s.get_char(end - 1))
        invariant
            n == s@.len(),
            start < n,
            !is_white_space(s@[start as int]),
            start < end <= n,
            forall|j: int| end <= j < n ==> is_white_space(#[trigger] s@[j]),
        decreases end,
    {
        end = end - 1;
    }
    proof {
        let sv = s@;
        assert(first_non_space(sv, start as int));
        let st = choose|i: int| first_non_space(sv, i);
        if st < start {
            assert(is_white_space(sv[st]));
        }
        if start < st {
            assert(is_white_space(sv[start as int]));
        }
        assert(end_of_non_space(sv, end as int));
        let en = choose|k: int| end_of_non_space(sv, k);
        if en < end {
            assert(is_white_space(sv[end - 1]));
        }
        if end < en {
            assert(is_white_space(sv[en - 1]));
        }
    }
    s.substring_char(start, end).to_string()
}

// ---- What the player does with pointer and timer commands ----

/// A button's hilite after a mouse-down on it: a check box flips, a push
/// button or radio button lights up.
pub fn hilite_after_mouse_down(button_type: ButtonType, hilite: bool) -> (r: bool)
    ensures
        r == (if button_type == ButtonType::CheckBox {
            !hilite
        } else {
            true
        }),
{
    match button_type {
        ButtonType::PushButton => true,
        ButtonType::CheckBox => !hilite,
        ButtonType::RadioButton => true,
    }
}

/// A button's hilite after the mouse is released from it: a push button
/// goes dark, the others keep theirs.
pub fn hilite_after_mouse_up(button_type: ButtonType, hilite: bool) -> (r: bool)
    ensures
        r == (if button_type == ButtonType::PushButton {
            false
        } else {
            hilite
        }),
{
    if button_type == ButtonType::PushButton {
        false
    } else {
        hilite
    }
}

/// A mouse-down less than 500 ms after the previous one is a double click.
pub fn is_double_click(now_ms: i64, last_mouse_down_ms: i64) -> (r: bool)
    requires
        i64::MIN <= now_ms - last_mouse_down_ms <= i64::MAX,
    ensures
        r == (now_ms - last_mouse_down_ms < 500),
{
    now_ms - last_mouse_down_ms < 500
}

/// The event a mouse-up sends: `mouseUp` when released over the sprite that
/// took the mouse-down (or when no sprite did), `mouseUpOutSide` when released
/// elsewhere.
pub fn mouse_up_event_name(released_inside: Option<bool>) -> (r: &'static str)
    ensures
        r@ == (if released_inside != Some(false) {
            "mouseUp"@
        } else {
            "mouseUpOutSide"@
        }),
{
    let inside = match released_inside {
        Some(b) => b,
        None => true,
    };
    if inside {
        "mouseUp"
    } else {
        "mouseUpOutSide"
    }
}

/// What the mouse moving does to the hovered sprite: over a sprite, it
/// becomes the hovered one, and the move sends `mouseWithin` to it if it was
/// hovered already, else `mouseLeave` to the one hovered before (if any) and
/// `mouseEnter` to it; over no sprite, nothing changes and nothing is sent.
/// Returns the hovered sprite and the events, in order, with their sprites.
pub fn hover_events(hovered: Option<i16>, under_pointer: Option<i16>) -> (r: (Option<i16>, Vec<(&'static str, u16)>))
    ensures
        match under_pointer {
            None => r.0 == hovered && r.1@.len() == 0,
            Some(s) => {
                let before = match hovered {
                    Some(h) => h,
                    None => -1i16,
                };
                &&& r.0 == Some(s)
                &&& if before == s {
                    r.1@.len() == 1 && r.1@[0].0@ == "mouseWithin"@ && r.1@[0].1 == s as u16
                } else if before == -1 {
                    r.1@.len() == 1 && r.1@[0].0@ == "mouseEnter"@ && r.1@[0].1 == s as u16
                } else {
                    r.1@.len() == 2 && r.1@[0].0@ == "mouseLeave"@ && r.1@[0].1 == before as u16
                        && r.1@[1].0@ == "mouseEnter"@ && r.1@[1].1 == s as u16
                }
            },
        },
{
    let mut events: Vec<(&'static str, u16)> = Vec::new();
    match under_pointer {
        None => (hovered, events),
        Some(s) => {
            let before = match hovered {
                Some(h) => h,
                None => -1,
            };
            if before != s {
                if before != -1 {
                    events.push(("mouseLeave", before as u16));
                }
                events.push(("mouseEnter", s as u16));
            } else {
                events.push(("mouseWithin", s as u16));
            }
            (Some(s), events)
        },
    }
}

/// Where a dragged sprite goes: the pointer plus the offset it was grabbed
/// at, then raised to the bounds' left and top and lowered to their right
/// and bottom (the constraint sprite's rect, or the stage's).
pub fn drag_position(x: i32, y: i32, offset: (i32, i32), bounds: (i32, i32, i32, i32)) -> (r: (i32, i32))
    requires
        i32::MIN <= x + offset.0 <= i32::MAX,
        i32::MIN <= y + offset.1 <= i32::MAX,
    ensures
        ({
            let (left, top, right, bottom) = bounds;
            let h = x + offset.0;
            let v = y + offset.1;
            let h1 = if h < left { left as int } else { h };
            let v1 = if v < top { top as int } else { v };
            r == ((if h1 > right { right as int } else { h1 }) as i32, (if v1 > bottom { bottom as int } else { v1 }) as i32)
        }),
{
    let (left, top, right, bottom) = bounds;
    let mut h = x + offset.0;
    let mut v = y + offset.1;
    if h < left {
        h = left;
    }
    if h > right {
        h = right;
    }
    if v < top {
        v = top;
    }
    if v > bottom {
        v = bottom;
    }
    (h, v)
}

/// The movie path override a `SetMoviePathOverride` command leaves: none
/// for an empty path, else the path.
pub fn movie_path_override(path: String) -> (r: Option<String>)
    ensures
        path@.len() == 0 ==> r is None,
        path@.len() > 0 ==> (r matches Some(p) && p@ == path@),
{
    if path.as_str().unicode_len() == 0 {
        None
    } else {
        Some(path)
    }
}

/// The event a fired timeout sends: none when the timeout is gone, the movie
/// is not playing or scripts are paused; else its handler called with `args`
/// (the timeout itself) on its target, or on the movie when the target is VOID.
pub fn timeout_event(
    found: bool,
    playing: bool,
    script_paused: bool,
    target: DatumRef,
    handler_name: &str,
    args: &Vec<DatumRef>,
) -> (r: Option<PlayerVMEvent>)
    ensures
        !found || !playing || script_paused ==> r is None,
        found && playing && !script_paused ==> if target.id() != 0 {
            r matches Some(PlayerVMEvent::Callback(t, name, a)) && t == target && name@ == handler_name@ && a@ == args@
        } else {
            r matches Some(PlayerVMEvent::Global(name, a)) && name@ == handler_name@ && a@ == args@
        },
{
    if !found || !playing || script_paused {
        return None;
    }
    if target != DatumRef::Void {
        Some(player_dispatch_callback_event(target, handler_name, args))
    } else {
        Some(player_dispatch_global_event(handler_name, args))
    }
}


// ---- The pointer ----

/// What the player keeps of the pointer: where it is, whether the button is
/// down, where and when it last went down and whether that was a double
/// click, the sprite clicked on (0 for none), the offset a moveable sprite
/// was grabbed at, the sprite with keyboard focus, and the scripted sprite
/// that took the mouse-down (-1 for none).
#[derive(Clone, Copy, Debug)]
pub struct PointerState {
    pub mouse_loc: (i32, i32),
    pub mouse_down: bool,
    pub click_loc: (i32, i32),
    pub is_double_click: bool,
    pub last_mouse_down_time: i64,
    pub click_on_sprite: i16,
    pub drag_offset: (i32, i32),
    pub keyboard_focus_sprite: i16,
    pub mouse_down_sprite: i16,
}

/// The topmost sprite under the pointer, as a mouse-down sees it: its
/// number, whether it is moveable, its location, and whether its member is
/// an editable field.
#[derive(Clone, Copy, Debug)]
pub struct SpriteUnderPointer {
    pub number: usize,
    pub moveable: bool,
    pub loc: (i32, i32),
    pub editable_field: bool,
}

/// The pointer after the button goes down at `(x, y)` at time `now`.
pub open spec fn pressed(s: PointerState, x: i32, y: i32, now: i64) -> PointerState {
    PointerState {
        mouse_loc: (x, y),
        mouse_down: true,
        click_loc: (x, y),
        is_double_click: now - s.last_mouse_down_time < 500,
        last_mouse_down_time: now,
        ..s
    }
}

/// The button goes down at `(x, y)` at time `now` (a double click where it
/// went down less than 500 ms before); the movie's mouse-down script takes
/// such a press without the sprites seeing it.
pub fn press_pointer(state: &mut PointerState, x: i32, y: i32, now: i64)
    requires
        i64::MIN <= now - old(state).last_mouse_down_time <= i64::MAX,
    ensures
        *final(state) == pressed(*old(state), x, y, now),
{
    let double = is_double_click(now, state.last_mouse_down_time);
    state.mouse_loc = (x, y);
    state.mouse_down = true;
    state.click_loc = (x, y);
    state.is_double_click = double;
    state.last_mouse_down_time = now;
}

/// The pointer after a press that reaches the sprites: the topmost sprite
/// is the one clicked on (0 if none), a moveable one is grabbed at its
/// offset from the pointer, an editable field takes the keyboard focus, and
/// the topmost scripted sprite takes the mouse-down (-1 if none).
pub open spec fn pressed_on_sprites(
    s: PointerState,
    x: i32,
    y: i32,
    now: i64,
    topmost: Option<SpriteUnderPointer>,
    scripted: Option<usize>,
) -> PointerState {
    let p = pressed(s, x, y, now);
    let p = match topmost {
        Some(t) => PointerState {
            click_on_sprite: t.number as i16,
            drag_offset: if t.moveable {
                ((t.loc.0 - x) as i32, (t.loc.1 - y) as i32)
            } else {
                p.drag_offset
            },
            keyboard_focus_sprite: if t.editable_field {
                t.number as i16
            } else {
                p.keyboard_focus_sprite
            },
            ..p
        },
        None => PointerState { click_on_sprite: 0, ..p },
    };
    PointerState {
        mouse_down_sprite: match scripted {
            Some(n) => n as i16,
            None => -1i16,
        },
        ..p
    }
}

/// A press at `(x, y)` at time `now` that reaches the sprites; see
/// `pressed_on_sprites`. `topmost` is the topmost sprite there, `scripted`
/// the topmost one with a script.
pub fn press_on_sprites(
    state: &mut PointerState,
    x: i32,
    y: i32,
    now: i64,
    topmost: Option<SpriteUnderPointer>,
    scripted: Option<usize>,
)
    requires
        i64::MIN <= now - old(state).last_mouse_down_time <= i64::MAX,
        match topmost {
            Some(t) => t.moveable ==> i32::MIN <= t.loc.0 - x <= i32::MAX && i32::MIN <= t.loc.1 - y <= i32::MAX,
            None => true,
        },
    ensures
        *final(state) == pressed_on_sprites(*old(state), x, y, now, topmost, scripted),
{
    press_pointer(state, x, y, now);
    match topmost {
        Some(t) => {
            state.click_on_sprite = #[verifier::truncate] (t.number as i16);
            if t.moveable {
                state.drag_offset = (t.loc.0 - x, t.loc.1 - y);
            }
            if t.editable_field {
                state.keyboard_focus_sprite = #[verifier::truncate] (t.number as i16);
            }
        },
        None => {
            state.click_on_sprite = 0;
        },
    }
    state.mouse_down_sprite = match scripted {
        Some(n) => #[verifier::truncate] (n as i16),
        None => -1,
    };
}

/// The button comes up at `(x, y)`: the pointer is there and up, and no
/// sprite holds the mouse-down any more. Returns the sprite that held it
/// (-1 for none), which the mouse-up goes to.
pub fn release_pointer(state: &mut PointerState, x: i32, y: i32) -> (r: i16)
    ensures
        r == old(state).mouse_down_sprite,
        *final(state) == (PointerState { mouse_loc: (x, y), mouse_down: false, mouse_down_sprite: -1i16, ..*old(state) }),
{
    let held = state.mouse_down_sprite;
    state.mouse_loc = (x, y);
    state.mouse_down = false;
    state.mouse_down_sprite = -1;
    held
}

/// A press and then a release leave the button up, the pointer where it
/// was released, and no sprite holding the mouse-down; where and when the
/// press was, and the sprite clicked on, stay.
pub proof fn lemma_click_leaves_button_up(
    s: PointerState,
    x: i32,
    y: i32,
    now: i64,
    topmost: Option<SpriteUnderPointer>,
    scripted: Option<usize>,
    x2: i32,
    y2: i32,
)
    ensures
        ({
            let p = pressed_on_sprites(s, x, y, now, topmost, scripted);
            let r = PointerState { mouse_loc: (x2, y2), mouse_down: false, mouse_down_sprite: -1i16, ..p };
            &&& !r.mouse_down
            &&& r.mouse_loc == (x2, y2)
            &&& r.mouse_down_sprite == -1
            &&& r.click_loc == (x, y)
            &&& r.last_mouse_down_time == now
            &&& r.click_on_sprite == p.click_on_sprite
        }),
{
}

} // verus!
