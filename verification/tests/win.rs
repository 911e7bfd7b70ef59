use tinyvox::win::{
    overlay_x, process_name_from_path, HotkeyEvent, HotkeyTracker, OverlayState,
    WindowsCredentials, OVERLAY_WIDTH, VK_F9, WM_KEYDOWN, WM_KEYUP,
};

#[test]
fn hotkey_reports_one_press_and_one_release() {
    let mut tracker = HotkeyTracker::new();
    assert_eq!(tracker.on_key(0, VK_F9, WM_KEYDOWN), Some(HotkeyEvent::Pressed));
    // Auto-repeat while held.
    assert_eq!(tracker.on_key(0, VK_F9, WM_KEYDOWN), None);
    assert_eq!(tracker.on_key(0, VK_F9, WM_KEYDOWN), None);
    assert_eq!(tracker.on_key(0, VK_F9, WM_KEYUP), Some(HotkeyEvent::Released));
    assert_eq!(tracker.on_key(0, VK_F9, WM_KEYUP), None);
}

#[test]
fn hotkey_ignores_other_keys_and_negative_codes() {
    let mut tracker = HotkeyTracker::new();
    assert_eq!(tracker.on_key(0, 0x41, WM_KEYDOWN), None);
    assert_eq!(tracker.on_key(-1, VK_F9, WM_KEYDOWN), None);
    assert!(!tracker.f9_down);
    assert_eq!(tracker.on_key(0, VK_F9, 0x0104), None);
    assert!(!tracker.f9_down);
}

#[test]
fn overlay_texts() {
    assert_eq!(OverlayState::Recording.text(), "Recording");
    assert_eq!(OverlayState::Transcribing.text(), "Transcribing");
    assert_eq!(OverlayState::Cleaning.text(), "Cleaning");
    assert_eq!(OverlayState::Injecting.text(), "Injecting");
    assert_eq!(OverlayState::Busy.text(), "Busy");
}

#[test]
fn overlay_state_numbers_round_trip() {
    for state in [
        OverlayState::Recording,
        OverlayState::Transcribing,
        OverlayState::Cleaning,
        OverlayState::Injecting,
        OverlayState::Busy,
    ] {
        assert_eq!(OverlayState::from_u32(state.as_u32()), Some(state));
    }
    assert_eq!(OverlayState::Recording.as_u32(), 0);
    assert_eq!(OverlayState::Busy.as_u32(), 4);
    assert_eq!(OverlayState::from_u32(5), None);
    assert_eq!(OverlayState::from_u32(u32::MAX), None);
}

#[test]
fn overlay_is_centred() {
    assert_eq!(overlay_x(1920), (1920 - OVERLAY_WIDTH) / 2);
    assert_eq!(overlay_x(1921), 850);
    assert_eq!(overlay_x(OVERLAY_WIDTH), 0);
    assert_eq!(overlay_x(100), -60);
    assert_eq!(overlay_x(101), -59);
}

#[test]
fn process_name_is_the_file_name() {
    assert_eq!(process_name_from_path(r"C:\Program Files\Code\Code.exe"), "Code.exe");
    assert_eq!(process_name_from_path("/usr/bin/zsh"), "zsh");
    assert_eq!(process_name_from_path("notepad.exe"), "notepad.exe");
    assert_eq!(process_name_from_path(r"C:\dir\"), "");
    assert_eq!(process_name_from_path(""), "");
}

#[test]
fn credential_targets_are_prefixed() {
    assert_eq!(WindowsCredentials::target_name("GROQ_API_KEY"), "TinyVox:GROQ_API_KEY");
    assert_eq!(WindowsCredentials::target_name(""), "TinyVox:");
}
