//! Top-level windows: which of them cover the desktop, and what is remembered of them.
use vstd::prelude::*;

use crate::geometry::Rect;
use crate::text::{begins_with, same_text, starts_with, text_of_units, utf16_text};

verus! {

/// Extended window style: the window lets the windows beneath it show through.
pub const WS_EX_TRANSPARENT: u32 = 0x20;

/// Extended window style: the window is layered.
pub const WS_EX_LAYERED: u32 = 0x80000;

/// Layered window flag: one color of the window is transparent.
pub const LWA_COLORKEY: u32 = 1;

/// What a layered window reports about its transparency.
#[derive(Clone, Copy, Debug, PartialEq, Eq, Structural)]
pub struct LayeredAttributes {
    pub alpha: u8,
    pub flags: u32,
}

/// What was asked about a window. `None` stands for a question that the system did not answer.
#[derive(Debug)]
pub struct WindowProbe {
    pub hwnd: isize,
    pub is_visible: bool,
    pub is_iconic: bool,
    pub ex_style: u32,
    /// The bounds that the compositor draws.
    pub extended_frame: Option<Rect>,
    /// The bounds that the window itself has.
    pub window_rect: Option<Rect>,
    pub cloaked: Option<u32>,
    pub has_iconic_bitmap: Option<bool>,
    /// The class name, as UTF-16 units.
    pub class_name: Vec<u16>,
    pub layered: Option<LayeredAttributes>,
}

/// A window that covers part of the desktop.
#[derive(Debug)]
pub struct ObservedWindow {
    pub hwnd: isize,
    pub rect: Rect,
    pub class_name: String,
    pub process_name: String,
}

/// What is remembered of a window between computations.
#[derive(Debug)]
pub struct WindowInfo {
    pub rect: Rect,
    pub class_name: String,
    pub process_name: String,
    pub is_shell: bool,
    pub last_updated: u64,
}

/// Whether a window class is one of the shell's, such as the taskbar.
pub open spec fn shell_class(class_name: Seq<char>) -> bool {
    begins_with(class_name, "Shell_"@)
}

/// Whether a window class is one of the shell's, such as the taskbar.
pub fn is_shell_class(class_name: &str) -> (yes: bool)
    ensures
        yes == shell_class(class_name@),
{
    starts_with(class_name, "Shell_")
}

/// Whether a window is on the screen at all and not transparent as a whole.
pub open spec fn plainly_shown(is_visible: bool, is_iconic: bool, ex_style: u32) -> bool {
    is_visible && !is_iconic && (ex_style & WS_EX_TRANSPARENT) == 0
}

/// The cheap part of the decision on a window, for which nothing but its state and style has to
/// be asked.
pub fn passes_quick_checks(is_visible: bool, is_iconic: bool, ex_style: u32) -> (yes: bool)
    ensures
        yes == plainly_shown(is_visible, is_iconic, ex_style),
{
    is_visible && !is_iconic && (ex_style & WS_EX_TRANSPARENT) == 0
}

impl WindowProbe {
    /// The bounds of the window: those that the compositor draws where it reports them, else
    /// those of the window itself.
    pub open spec fn frame(self) -> Option<Rect> {
        match self.extended_frame {
            Some(rect) => Some(rect),
            None => self.window_rect,
        }
    }

    /// Whether the compositor hides the window.
    pub open spec fn is_cloaked(self) -> bool {
        match self.cloaked {
            Some(reason) => reason > 0,
            None => false,
        }
    }

    /// Whether the window is known to show an iconic bitmap in its place.
    pub open spec fn shows_iconic_bitmap(self) -> bool {
        self.has_iconic_bitmap == Some(true)
    }

    /// Whether the window is layered and known to let what is beneath it show through.
    pub open spec fn is_translucent(self) -> bool {
        &&& (self.ex_style & WS_EX_LAYERED) != 0
        &&& match self.layered {
            Some(layer) => layer.alpha < 255 || (layer.flags & LWA_COLORKEY) != 0,
            None => false,
        }
    }

    /// Whether the window covers part of the desktop.
    pub open spec fn occludes(self) -> bool {
        &&& plainly_shown(self.is_visible, self.is_iconic, self.ex_style)
        &&& self.frame() is Some
        &&& !self.is_cloaked()
        &&& !self.shows_iconic_bitmap()
        &&& utf16_text(self.class_name@) != "Progman"@
        &&& !self.is_translucent()
    }
}

/// Decides on a window: its bounds and its class where it covers part of the desktop.
pub fn classify_window(probe: &WindowProbe) -> (found: Option<(Rect, String)>)
    ensures
        match found {
            Some((rect, class_name)) => {
                &&& probe.occludes()
                &&& probe.frame() == Some(rect)
                &&& class_name@ == utf16_text(probe.class_name@)
            },
            None => !probe.occludes(),
        },
{
    if !passes_quick_checks(probe.is_visible, probe.is_iconic, probe.ex_style) {
        return None;
    }
    let rect = match probe.extended_frame {
        Some(rect) => rect,
        None => match probe.window_rect {
            Some(rect) => rect,
            None => {
                return None;
            },
        },
    };
    if let Some(reason) = probe.cloaked {
        if reason > 0 {
            return None;
        }
    }
    if let Some(iconic) = probe.has_iconic_bitmap {
        if iconic {
            return None;
        }
    }
    let class_name = text_of_units(probe.class_name.as_slice());
    if same_text(class_name.as_str(), "Progman") {
        return None;
    }
    if (probe.ex_style & WS_EX_LAYERED) != 0 {
        if let Some(layer) = probe.layered {
            if layer.alpha < 255 || (layer.flags & LWA_COLORKEY) != 0 {
                return None;
            }
        }
    }
    Some((rect, class_name))
}

/// Adds a window to those that were enumerated so far, where it covers part of the desktop.
/// `process_name` holds the name of its process as UTF-16 units, none where it could not be had.
pub fn enum_windows_collect(
    windows: &mut Vec<ObservedWindow>,
    probe: &WindowProbe,
    process_name: &[u16],
)
    ensures
        !probe.occludes() ==> final(windows)@ == old(windows)@,
        probe.occludes() ==> {
            &&& final(windows)@.len() == old(windows)@.len() + 1
            &&& final(windows)@.drop_last() == old(windows)@
            &&& final(windows)@.last().hwnd == probe.hwnd
            &&& probe.frame() == Some(final(windows)@.last().rect)
            &&& final(windows)@.last().class_name@ == utf16_text(probe.class_name@)
            &&& final(windows)@.last().process_name@ == utf16_text(process_name@)
        },
{
    if let Some((rect, class_name)) = classify_window(probe) {
        let process_name = text_of_units(process_name);
        windows.push(ObservedWindow { hwnd: probe.hwnd, rect, class_name, process_name });
        assert(windows@.drop_last() =~= old(windows)@);
    }
}

impl WindowInfo {
    /// What is remembered of a window that was seen at the time `now`.
    pub open spec fn of(window: ObservedWindow, now: u64) -> WindowInfo {
        WindowInfo {
            rect: window.rect,
            class_name: window.class_name,
            process_name: window.process_name,
            is_shell: shell_class(window.class_name@),
            last_updated: now,
        }
    }

    /// What is remembered of a window that was seen at the time `now`.
    pub fn observed(window: &ObservedWindow, now: u64) -> (info: WindowInfo)
        ensures
            info == WindowInfo::of(*window, now),
    {
        WindowInfo {
            rect: window.rect,
            class_name: window.class_name.clone(),
            process_name: window.process_name.clone(),
            is_shell: is_shell_class(window.class_name.as_str()),
            last_updated: now,
        }
    }
}

/// A window class is one of the shell's exactly where its name begins with the six characters
/// `Shell_`, whatever follows.
pub proof fn law_shell_classes(class_name: &str, yes: bool)
    requires
        call_ensures(is_shell_class, (class_name,), yes),
    ensures
        yes <==> class_name@.len() >= 6 && class_name@.take(6) == seq![
            'S',
            'h',
            'e',
            'l',
            'l',
            '_',
        ],
{
    lemma_shell_class(class_name@);
}

/// What follows `Shell_` in the name of a window class does not matter.
pub proof fn law_shell_class_with_any_rest(class_name: &str, rest: Seq<char>, yes: bool)
    requires
        call_ensures(is_shell_class, (class_name,), yes),
        class_name@ == seq!['S', 'h', 'e', 'l', 'l', '_'] + rest,
    ensures
        yes,
{
    lemma_shell_class(class_name@);
    assert(class_name@.take(6) =~= seq!['S', 'h', 'e', 'l', 'l', '_']);
}

/// The classes of the shell begin with six given characters.
pub proof fn lemma_shell_class(class_name: Seq<char>)
    ensures
        shell_class(class_name) <==> class_name.len() >= 6 && class_name.take(6) == seq![
            'S',
            'h',
            'e',
            'l',
            'l',
            '_',
        ],
{
    reveal_strlit("Shell_");
    assert("Shell_"@ =~= seq!['S', 'h', 'e', 'l', 'l', '_']);
    if class_name.len() >= 6 {
        assert(class_name.take(6) =~= class_name.subrange(0, 6));
    }
}

/// The cheap part of the decision turns down exactly the windows that are not visible, those that
/// are minimized, and those with the transparent style.
pub proof fn law_quick_checks(is_visible: bool, is_iconic: bool, ex_style: u32, yes: bool)
    requires
        call_ensures(passes_quick_checks, (is_visible, is_iconic, ex_style), yes),
    ensures
        !is_visible ==> !yes,
        is_iconic ==> !yes,
        ex_style & 0x20 != 0 ==> !yes,
        is_visible && !is_iconic && ex_style & 0x20 == 0 ==> yes,
{
}

/// A window that is not visible, minimized or of the transparent style hides nothing, whatever
/// else is known of it.
pub proof fn law_unseen_windows_do_not_count(probe: WindowProbe, found: Option<(Rect, String)>)
    requires
        call_ensures(classify_window, (&probe,), found),
        !probe.is_visible || probe.is_iconic || probe.ex_style & 0x20 != 0,
    ensures
        found is None,
{
}

/// A window that the compositor cloaks, for whatever reason, hides nothing.
pub proof fn law_cloaked_windows_do_not_count(
    probe: WindowProbe,
    found: Option<(Rect, String)>,
    reason: u32,
)
    requires
        call_ensures(classify_window, (&probe,), found),
        probe.cloaked == Some(reason),
        reason != 0,
    ensures
        found is None,
{
}

/// A window that is known to show an iconic bitmap hides nothing.
pub proof fn law_iconic_bitmaps_do_not_count(probe: WindowProbe, found: Option<(Rect, String)>)
    requires
        call_ensures(classify_window, (&probe,), found),
        probe.has_iconic_bitmap == Some(true),
    ensures
        found is None,
{
}

/// A layered window that is not wholly opaque, or of which one color is transparent, hides
/// nothing: not even with the highest alpha below 255.
pub proof fn law_translucent_windows_do_not_count(
    probe: WindowProbe,
    found: Option<(Rect, String)>,
    layer: LayeredAttributes,
)
    requires
        call_ensures(classify_window, (&probe,), found),
        probe.ex_style & 0x80000 != 0,
        probe.layered == Some(layer),
        layer.alpha < 255 || layer.flags & 1 != 0,
    ensures
        found is None,
{
}

/// A window that covers the desktop still does when nothing but its alpha is raised, and one that
/// does not cover it does not begin to when its alpha is lowered.
pub proof fn law_opacity_is_monotone(
    fainter: WindowProbe,
    denser: WindowProbe,
    faint: LayeredAttributes,
    dense: LayeredAttributes,
    faint_found: Option<(Rect, String)>,
    dense_found: Option<(Rect, String)>,
)
    requires
        call_ensures(classify_window, (&fainter,), faint_found),
        call_ensures(classify_window, (&denser,), dense_found),
        fainter.layered == Some(faint),
        denser == (WindowProbe { layered: Some(dense), ..fainter }),
        faint.flags == dense.flags,
        faint.alpha <= dense.alpha,
    ensures
        faint_found is Some ==> dense_found is Some,
{
}

/// The window of the desktop itself, of class `Progman`, hides nothing.
pub proof fn law_desktop_window_does_not_count(
    probe: WindowProbe,
    found: Option<(Rect, String)>,
    units: &[u16],
    text: String,
)
    requires
        call_ensures(classify_window, (&probe,), found),
        units@ == probe.class_name@,
        call_ensures(text_of_units, (units,), text),
        text@ == seq!['P', 'r', 'o', 'g', 'm', 'a', 'n'],
    ensures
        found is None,
{
    reveal_strlit("Progman");
    assert("Progman"@ =~= seq!['P', 'r', 'o', 'g', 'm', 'a', 'n']);
}

/// Every other window counts: one that is visible, neither minimized nor transparent nor cloaked,
/// shows no iconic bitmap, is not the desktop's, has bounds, and is opaque where it is layered.
/// What the system does not answer speaks for the window.
pub proof fn law_opaque_windows_count(
    probe: WindowProbe,
    found: Option<(Rect, String)>,
    units: &[u16],
    text: String,
)
    requires
        call_ensures(classify_window, (&probe,), found),
        units@ == probe.class_name@,
        call_ensures(text_of_units, (units,), text),
        text@ != seq!['P', 'r', 'o', 'g', 'm', 'a', 'n'],
        probe.is_visible,
        !probe.is_iconic,
        probe.ex_style & 0x20 == 0,
        probe.cloaked is None || probe.cloaked == Some(0u32),
        probe.has_iconic_bitmap != Some(true),
        probe.extended_frame is Some || probe.window_rect is Some,
        probe.ex_style & 0x80000 == 0 || probe.layered is None || (probe.layered->0.alpha == 255
            && probe.layered->0.flags & 1 == 0),
    ensures
        found matches Some((rect, class_name)) && class_name@ == text@,
{
    reveal_strlit("Progman");
    assert("Progman"@ =~= seq!['P', 'r', 'o', 'g', 'm', 'a', 'n']);
}

/// A window that counts has the bounds that the compositor draws, or its own where the compositor
/// does not answer. One without bounds does not count.
pub proof fn law_bounds_of_windows(
    probe: WindowProbe,
    found: Option<(Rect, String)>,
    rect: Rect,
    class_name: String,
)
    requires
        call_ensures(classify_window, (&probe,), found),
    ensures
        probe.extended_frame is None && probe.window_rect is None ==> found is None,
        found == Some((rect, class_name)) && probe.extended_frame is Some ==> rect
            == probe.extended_frame->0,
        found == Some((rect, class_name)) && probe.extended_frame is None ==> rect
            == probe.window_rect->0,
{
}

/// A window is added to those that were enumerated so far exactly where it counts, behind all of
/// them, with its own handle, bounds, class and process. The others stay as they are.
pub proof fn law_windows_that_count_are_collected(
    windows: &mut Vec<ObservedWindow>,
    probe: WindowProbe,
    process: &[u16],
    found: Option<(Rect, String)>,
    process_name: String,
    k: int,
)
    requires
        call_ensures(enum_windows_collect, (windows, &probe, process), ()),
        call_ensures(classify_window, (&probe,), found),
        call_ensures(text_of_units, (process,), process_name),
    ensures
        found is None ==> final(windows)@ == old(windows)@,
        found is Some ==> final(windows)@.len() == old(windows)@.len() + 1,
        0 <= k < old(windows)@.len() ==> final(windows)@[k] == old(windows)@[k],
        found matches Some((rect, class_name)) ==> {
            let added = final(windows)@[old(windows)@.len() as int];
            &&& added.hwnd == probe.hwnd
            &&& added.rect == rect
            &&& added.class_name@ == class_name@
            &&& added.process_name@ == process_name@
        },
{
    if found is Some && 0 <= k < old(windows)@.len() {
        assert(final(windows)@.drop_last()[k] == final(windows)@[k]);
    }
}

/// What is remembered of a window is what was seen of it, and when.
pub proof fn law_windows_are_remembered_as_seen(window: ObservedWindow, now: u64, info: WindowInfo)
    requires
        call_ensures(WindowInfo::observed, (&window, now), info),
    ensures
        info.rect == window.rect,
        info.class_name@ == window.class_name@,
        info.process_name@ == window.process_name@,
        info.last_updated == now,
        info.is_shell <==> window.class_name@.len() >= 6 && window.class_name@.take(6) == seq![
            'S',
            'h',
            'e',
            'l',
            'l',
            '_',
        ],
{
    lemma_shell_class(window.class_name@);
}

} // verus!
