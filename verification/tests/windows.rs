use libvisdesk::text::{text_of_units, text_until_zero};
use libvisdesk::window::{
    classify_window, is_shell_class, passes_quick_checks, LWA_COLORKEY, WS_EX_LAYERED,
    WS_EX_TRANSPARENT,
};
use libvisdesk::{enum_windows_collect, LayeredAttributes, ObservedWindow, Rect, WindowProbe};

fn units(text: &str) -> Vec<u16> {
    text.encode_utf16().collect()
}

const FRAME: Rect = Rect { left: 1, top: 2, right: 30, bottom: 40 };
const OUTER: Rect = Rect { left: 0, top: 0, right: 35, bottom: 45 };

fn plain() -> WindowProbe {
    WindowProbe {
        hwnd: 77,
        is_visible: true,
        is_iconic: false,
        ex_style: 0,
        extended_frame: Some(FRAME),
        window_rect: Some(OUTER),
        cloaked: Some(0),
        has_iconic_bitmap: Some(false),
        class_name: units("Notepad"),
        layered: None,
    }
}

#[test]
fn a_plain_window_is_found_with_its_frame_and_class() {
    assert_eq!(classify_window(&plain()), Some((FRAME, String::from("Notepad"))));
}

#[test]
fn the_frame_falls_back_to_the_window_rectangle() {
    let probe = WindowProbe { extended_frame: None, ..plain() };
    assert_eq!(classify_window(&probe), Some((OUTER, String::from("Notepad"))));
    let probe = WindowProbe { extended_frame: None, window_rect: None, ..plain() };
    assert_eq!(classify_window(&probe), None);
    let probe = WindowProbe { window_rect: None, ..plain() };
    assert_eq!(classify_window(&probe), Some((FRAME, String::from("Notepad"))));
}

#[test]
fn hidden_minimized_and_transparent_windows_do_not_count() {
    assert_eq!(classify_window(&WindowProbe { is_visible: false, ..plain() }), None);
    assert_eq!(classify_window(&WindowProbe { is_iconic: true, ..plain() }), None);
    assert_eq!(classify_window(&WindowProbe { ex_style: WS_EX_TRANSPARENT, ..plain() }), None);
    assert!(passes_quick_checks(true, false, !WS_EX_TRANSPARENT));
    assert!(!passes_quick_checks(true, false, WS_EX_TRANSPARENT | 1));
    assert!(!passes_quick_checks(false, false, 0));
    assert!(!passes_quick_checks(true, true, 0));
}

#[test]
fn cloaked_windows_do_not_count() {
    assert_eq!(classify_window(&WindowProbe { cloaked: Some(2), ..plain() }), None);
    assert!(classify_window(&WindowProbe { cloaked: None, ..plain() }).is_some());
}

#[test]
fn windows_with_an_iconic_bitmap_do_not_count() {
    assert_eq!(classify_window(&WindowProbe { has_iconic_bitmap: Some(true), ..plain() }), None);
    assert!(classify_window(&WindowProbe { has_iconic_bitmap: None, ..plain() }).is_some());
}

#[test]
fn the_desktop_itself_does_not_count() {
    assert_eq!(classify_window(&WindowProbe { class_name: units("Progman"), ..plain() }), None);
    assert!(classify_window(&WindowProbe { class_name: units("Progman2"), ..plain() }).is_some());
    assert!(classify_window(&WindowProbe { class_name: units("progman"), ..plain() }).is_some());
    assert!(classify_window(&WindowProbe { class_name: units(""), ..plain() }).is_some());
}

#[test]
fn translucent_layers_do_not_count() {
    let layered = |alpha: u8, flags: u32| WindowProbe {
        ex_style: WS_EX_LAYERED,
        layered: Some(LayeredAttributes { alpha, flags }),
        ..plain()
    };
    assert_eq!(classify_window(&layered(254, 0)), None);
    assert_eq!(classify_window(&layered(255, LWA_COLORKEY)), None);
    assert!(classify_window(&layered(255, 2)).is_some());
    assert!(classify_window(&WindowProbe { ex_style: WS_EX_LAYERED, ..plain() }).is_some());
    let not_layered = WindowProbe { ex_style: 0, ..layered(0, LWA_COLORKEY) };
    assert!(classify_window(&not_layered).is_some());
}

#[test]
fn found_windows_are_appended() {
    let mut windows: Vec<ObservedWindow> = Vec::new();
    enum_windows_collect(&mut windows, &plain(), &units("notepad.exe"));
    enum_windows_collect(&mut windows, &WindowProbe { is_visible: false, ..plain() }, &[]);
    enum_windows_collect(&mut windows, &WindowProbe { hwnd: 78, ..plain() }, &[]);
    assert_eq!(windows.len(), 2);
    assert_eq!(windows[0].hwnd, 77);
    assert_eq!(windows[0].rect, FRAME);
    assert_eq!(windows[0].class_name, "Notepad");
    assert_eq!(windows[0].process_name, "notepad.exe");
    assert_eq!(windows[1].hwnd, 78);
    assert_eq!(windows[1].process_name, "");
}

#[test]
fn shell_classes_are_told_by_their_prefix() {
    assert!(is_shell_class("Shell_TrayWnd"));
    assert!(is_shell_class("Shell_"));
    assert!(!is_shell_class("Shell"));
    assert!(!is_shell_class("MyShell_TrayWnd"));
    assert!(!is_shell_class("shell_TrayWnd"));
    assert!(!is_shell_class(""));
}

#[test]
fn utf16_is_decoded_and_broken_surrogates_are_replaced() {
    assert_eq!(text_of_units(&units("gr\u{fc}n \u{1f600}")), "gr\u{fc}n \u{1f600}");
    assert_eq!(text_of_units(&[0x61, 0xD800, 0x62]), "a\u{fffd}b");
    assert_eq!(text_of_units(&[0xDC00]), "\u{fffd}");
    assert_eq!(text_of_units(&[0xD800, 0xD83D, 0xDE00]), "\u{fffd}\u{1f600}");
    assert_eq!(text_of_units(&[0xD800]), "\u{fffd}");
    assert_eq!(text_of_units(&[]), "");
}

#[test]
fn text_ends_at_the_first_zero() {
    assert_eq!(text_until_zero(&[0x61, 0x62, 0, 0x63]), "ab");
    assert_eq!(text_until_zero(&[0, 0x61]), "");
    assert_eq!(text_until_zero(&[0x61]), "a");
    assert_eq!(text_until_zero(&[]), "");
}
