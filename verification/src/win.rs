use vstd::prelude::*;

use crate::text::{chars_of, push_char, push_chars};

verus! {

// ---------------------------------------------------------------------------
// Hotkey
// ---------------------------------------------------------------------------

/// What the dictation hotkey reports.
#[derive(Debug, Clone, Copy, PartialEq, Eq, Structural)]
pub enum HotkeyEvent {
    Pressed,
    Released,
}

/// The virtual-key code of F9, the dictation key.
pub const VK_F9: u32 = 0x78;

/// The keyboard message of a key going down.
pub const WM_KEYDOWN: u32 = 0x0100;

/// The keyboard message of a key going up.
pub const WM_KEYUP: u32 = 0x0101;

/// Turns the stream of low-level keyboard messages into hotkey presses and
/// releases: auto-repeated key-downs are ignored, and a release is reported
/// only after a press.
#[derive(Debug, Clone, Copy, PartialEq, Eq, Structural)]
pub struct HotkeyTracker {
    pub f9_down: bool,
}

/// The effect of one keyboard message on the tracker: the new key state and
/// the event to report.
pub open spec fn hotkey_step(down: bool, code: i32, vk_code: u32, message: u32) -> (bool, Option<
    HotkeyEvent,
>) {
    if code >= 0 && vk_code == VK_F9 {
        if message == WM_KEYDOWN {
            if !down {
                (true, Some(HotkeyEvent::Pressed))
            } else {
                (true, None)
            }
        } else if message == WM_KEYUP {
            if down {
                (false, Some(HotkeyEvent::Released))
            } else {
                (false, None)
            }
        } else {
            (down, None)
        }
    } else {
        (down, None)
    }
}

impl HotkeyTracker {
    /// A tracker with the key up.
    pub fn new() -> (t: Self)
        ensures
            !t.f9_down,
    {
        HotkeyTracker { f9_down: false }
    }

    /// Handles one keyboard message (hook code, virtual-key code and message
    /// kind) and returns the event to report, if any.
    pub fn on_key(&mut self, code: i32, vk_code: u32, message: u32) -> (e: Option<HotkeyEvent>)
        ensures
            (final(self).f9_down, e) == hotkey_step(old(self).f9_down, code, vk_code, message),
    {
        if code >= 0 && vk_code == VK_F9 {
            if message == WM_KEYDOWN {
                let was_down = self.f9_down;
                self.f9_down = true;
                if !was_down {
                    return Some(HotkeyEvent::Pressed);
                }
            } else if message == WM_KEYUP {
                let was_down = self.f9_down;
                self.f9_down = false;
                if was_down {
                    return Some(HotkeyEvent::Released);
                }
            }
        }
        None
    }
}

/// Presses and releases alternate: a press is reported only when the key
/// was up and leaves it down, a release only when it was down and leaves it
/// up, and a message that reports nothing leaves the press state as it was
/// or sets it to what the message says.
pub proof fn lemma_hotkey_events_alternate(down: bool, code: i32, vk_code: u32, message: u32)
    ensures
        hotkey_step(down, code, vk_code, message).1 == Some(HotkeyEvent::Pressed) ==> !down
            && hotkey_step(down, code, vk_code, message).0,
        hotkey_step(down, code, vk_code, message).1 == Some(HotkeyEvent::Released) ==> down
            && !hotkey_step(down, code, vk_code, message).0,
        hotkey_step(down, code, vk_code, message).1 is None ==> hotkey_step(
            down,
            code,
            vk_code,
            message,
        ).0 == down,
{
}

// ---------------------------------------------------------------------------
// Overlay
// ---------------------------------------------------------------------------

/// What the recording overlay shows.
#[derive(Debug, Clone, Copy, PartialEq, Eq, Structural)]
pub enum OverlayState {
    Recording,
    Transcribing,
    Cleaning,
    Injecting,
    Busy,
}

/// The number under which an overlay state crosses the window message queue.
pub open spec fn overlay_code(s: OverlayState) -> u32 {
    match s {
        OverlayState::Recording => 0,
        OverlayState::Transcribing => 1,
        OverlayState::Cleaning => 2,
        OverlayState::Injecting => 3,
        OverlayState::Busy => 4,
    }
}

impl OverlayState {
    /// The label drawn in the overlay.
    pub fn text(self) -> (t: &'static str)
        ensures
            t@ == (match self {
                OverlayState::Recording => "Recording"@,
                OverlayState::Transcribing => "Transcribing"@,
                OverlayState::Cleaning => "Cleaning"@,
                OverlayState::Injecting => "Injecting"@,
                OverlayState::Busy => "Busy"@,
            }),
    {
        match self {
            OverlayState::Recording => "Recording",
            OverlayState::Transcribing => "Transcribing",
            OverlayState::Cleaning => "Cleaning",
            OverlayState::Injecting => "Injecting",
            OverlayState::Busy => "Busy",
        }
    }

    /// The number of this state in a window message.
    pub fn as_u32(self) -> (n: u32)
        ensures
            n == overlay_code(self),
    {
        match self {
            OverlayState::Recording => 0,
            OverlayState::Transcribing => 1,
            OverlayState::Cleaning => 2,
            OverlayState::Injecting => 3,
            OverlayState::Busy => 4,
        }
    }

    /// The state with number `value`, if there is one.
    pub fn from_u32(value: u32) -> (s: Option<OverlayState>)
        ensures
            value < 5 ==> (s matches Some(st) && overlay_code(st) == value),
            value >= 5 ==> s is None,
    {
        match value {
            0 => Some(OverlayState::Recording),
            1 => Some(OverlayState::Transcribing),
            2 => Some(OverlayState::Cleaning),
            3 => Some(OverlayState::Injecting),
            4 => Some(OverlayState::Busy),
            _ => None,
        }
    }
}

/// An overlay state survives the trip through a window message: decoding
/// its number gives it back.
pub proof fn lemma_overlay_code_round_trip(s: OverlayState, decoded: OverlayState)
    requires
        overlay_code(decoded) == overlay_code(s),
    ensures
        decoded == s,
{
}

/// The overlay width in pixels.
pub const OVERLAY_WIDTH: i32 = 220;

/// The horizontal position that centres the overlay on a screen
/// `screen_width` pixels wide (the halving rounds towards zero).
pub fn overlay_x(screen_width: i32) -> (x: i32)
    requires
        screen_width >= i32::MIN + OVERLAY_WIDTH,
    ensures
        screen_width >= OVERLAY_WIDTH ==> x == (screen_width - OVERLAY_WIDTH) / 2,
        screen_width < OVERLAY_WIDTH ==> x == -((OVERLAY_WIDTH - screen_width) / 2),
{
    let d: i64 = screen_width as i64 - OVERLAY_WIDTH as i64;
    if d >= 0 {
        (d / 2) as i32
    } else {
        let h: i64 = (-d) / 2;
        (-h) as i32
    }
}

/// Why the overlay could not start.
#[derive(Debug, Clone, Copy, PartialEq, Eq, Structural)]
pub enum OverlayError {
    WindowCreationFailed,
    WindowClassRegistrationFailed,
    ThreadStartup,
}

// ---------------------------------------------------------------------------
// Foreground window and credentials
// ---------------------------------------------------------------------------

/// Why the foreground window could not be described.
#[derive(Debug, Clone, Copy, PartialEq, Eq, Structural)]
pub enum ForegroundError {
    NoForegroundWindow,
    ProcessIdUnavailable,
    ProcessOpenFailed,
    ProcessNameUnavailable,
}

/// Reads the window that has the keyboard focus.
#[derive(Debug, Clone, Copy)]
pub struct WindowsForeground;

impl WindowsForeground {
    pub fn new() -> (f: Self) {
        WindowsForeground
    }
}

/// The last component of a path: what follows its last `\` or `/`.
pub open spec fn last_path_component(path: Seq<char>) -> Seq<char>
    decreases path.len(),
{
    if path.len() == 0 {
        path
    } else if path.last() == '\\' || path.last() == '/' {
        seq![]
    } else {
        last_path_component(path.drop_last()).push(path.last())
    }
}

/// The executable's file name from its full path, as the foreground process
/// name is shown.
pub fn process_name_from_path(path: &str) -> (name: String)
    ensures
        name@ == last_path_component(path@),
{
    let chars = chars_of(path);
    let mut start: usize = chars.len();
    proof {
        assert(path@.take(chars.len() as int) == path@);
        assert(path@.subrange(chars.len() as int, chars.len() as int) == Seq::<char>::empty());
        assert(last_path_component(path@) == last_path_component(path@) + Seq::<char>::empty());
    }
    while start > 0 && chars[start - 1] != '\\' && chars[start - 1] != '/'
        invariant
            chars@ == path@,
            start <= chars.len(),
            last_path_component(path@) == last_path_component(path@.take(start as int)) + path@.subrange(
                start as int,
                chars.len() as int,
            ),
        decreases start,
    {
        proof {
            let p = path@.take(start as int);
            assert(p.drop_last() == path@.take(start - 1));
            assert(p.last() == chars@[start - 1]);
            assert(path@.subrange(start - 1, chars.len() as int) == seq![chars@[start - 1]]
                + path@.subrange(start as int, chars.len() as int));
        }
        start = start - 1;
    }
    proof {
        assert(path@.take(chars.len() as int) == path@);
        assert(path@.subrange(chars.len() as int, chars.len() as int) == Seq::<char>::empty());
        if start > 0 {
            assert(path@.take(start as int).last() == chars@[start - 1]);
        }
        assert(last_path_component(path@.take(start as int)) == Seq::<char>::empty());
    }
    let mut name = String::new();
    let mut i: usize = start;
    while i < chars.len()
        invariant
            chars@ == path@,
            start <= i <= chars.len(),
            name@ == path@.subrange(start as int, i as int),
        decreases chars.len() - i,
    {
        push_char(&mut name, chars[i]);
        i = i + 1;
    }
    name
}

/// Stores and loads secrets in the Windows credential manager.
#[derive(Debug, Clone, Copy)]
pub struct WindowsCredentials;

/// The prefix of every credential target that TinyVox writes.
pub open spec fn target_prefix() -> Seq<char> {
    "TinyVox:"@
}

impl WindowsCredentials {
    pub fn new() -> (c: Self) {
        WindowsCredentials
    }

    /// The credential target under which the secret `name` is kept:
    /// `TinyVox:` followed by the name.
    pub fn target_name(name: &str) -> (t: String)
        ensures
            t@ == target_prefix() + name@,
    {
        let mut t = String::new();
        push_chars(&mut t, chars_of("TinyVox:").as_slice());
        push_chars(&mut t, chars_of(name).as_slice());
        t
    }
}

} // verus!
