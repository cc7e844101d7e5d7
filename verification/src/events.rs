//! What the system reports to the watcher thread.
use vstd::prelude::*;

verus! {

/// Window event: a window was created.
pub const EVENT_OBJECT_CREATE: u32 = 0x8000;

/// Window event: a window was destroyed.
pub const EVENT_OBJECT_DESTROY: u32 = 0x8001;

/// Window event: a window is shown.
pub const EVENT_OBJECT_SHOW: u32 = 0x8002;

/// Window event: a window is hidden.
pub const EVENT_OBJECT_HIDE: u32 = 0x8003;

/// Window event: windows changed their order.
pub const EVENT_OBJECT_REORDER: u32 = 0x8004;

/// Window event: a window was moved or resized.
pub const EVENT_OBJECT_LOCATIONCHANGE: u32 = 0x800B;

/// Thread message: the display configuration changed.
pub const WM_DISPLAYCHANGE: u32 = 0x7E;

/// Whether an event of this kind can change the visible area.
pub open spec fn changes_visibility(event: u32) -> bool {
    ||| event == EVENT_OBJECT_CREATE
    ||| event == EVENT_OBJECT_DESTROY
    ||| event == EVENT_OBJECT_SHOW
    ||| event == EVENT_OBJECT_HIDE
    ||| event == EVENT_OBJECT_REORDER
    ||| event == EVENT_OBJECT_LOCATIONCHANGE
}

/// Whether an event of this kind can change the visible area.
pub fn is_visibility_event(event: u32) -> (yes: bool)
    ensures
        yes == changes_visibility(event),
{
    event == EVENT_OBJECT_CREATE || event == EVENT_OBJECT_DESTROY || event == EVENT_OBJECT_SHOW
        || event == EVENT_OBJECT_HIDE || event == EVENT_OBJECT_REORDER || event
        == EVENT_OBJECT_LOCATIONCHANGE
}

/// An event that the hook of the watcher thread received, with what was asked about its window.
#[derive(Clone, Copy, Debug, PartialEq, Eq, Structural)]
pub struct WindowEvent {
    pub event: u32,
    pub hwnd: isize,
    pub is_window: bool,
    pub is_visible: bool,
    pub has_parent: bool,
}

impl WindowEvent {
    /// Whether the event asks for a computation: it is one of those that can change the visible
    /// area, and it concerns a visible window without a parent. A window that was hidden is not
    /// visible any more, and one that was destroyed is no window any more: a hidden window need
    /// not be visible, and of a destroyed one only a parent is asked for.
    pub open spec fn is_relevant(self) -> bool {
        changes_visibility(self.event) && !self.has_parent && (self.event == EVENT_OBJECT_DESTROY
            || (self.is_window && (self.event == EVENT_OBJECT_HIDE || self.is_visible)))
    }

    /// Whether the event asks for a computation.
    pub fn relevant(&self) -> (yes: bool)
        ensures
            yes == self.is_relevant(),
    {
        is_visibility_event(self.event) && !self.has_parent && (self.event == EVENT_OBJECT_DESTROY
            || (self.is_window && (self.event == EVENT_OBJECT_HIDE || self.is_visible)))
    }
}

/// A window that goes away asks for a computation like one that appears: being hidden counts
/// whether or not the window still reads as visible, and being destroyed counts whether or not it
/// still reads as a window.
pub proof fn law_vanishing_windows_count(event: WindowEvent)
    requires
        !event.has_parent,
        event.event == EVENT_OBJECT_DESTROY || (event.event == EVENT_OBJECT_HIDE
            && event.is_window),
    ensures
        event.is_relevant(),
{
}

/// What the watcher thread does about what its message queue gave.
#[derive(Clone, Copy, Debug, PartialEq, Eq, Structural)]
pub enum LoopStep {
    /// Leave the message loop.
    Quit,
    /// Report that the display configuration changed.
    ReportDisplayChange,
    /// Pass the message on to its window.
    Dispatch,
}

/// What the watcher thread does about a message. `status` is 0 where the thread was told to quit,
/// -1 where reading the queue failed, and anything else where `message` was read.
pub open spec fn loop_decision(status: i32, message: u32) -> LoopStep {
    if status == 0 || status == -1 {
        LoopStep::Quit
    } else if message == WM_DISPLAYCHANGE {
        LoopStep::ReportDisplayChange
    } else {
        LoopStep::Dispatch
    }
}

/// Decides what the watcher thread does about a message.
pub fn loop_step(status: i32, message: u32) -> (step: LoopStep)
    ensures
        step == loop_decision(status, message),
{
    if status == 0 || status == -1 {
        LoopStep::Quit
    } else if message == WM_DISPLAYCHANGE {
        LoopStep::ReportDisplayChange
    } else {
        LoopStep::Dispatch
    }
}

/// The six kinds of window events are watched, and no others.
pub proof fn law_watched_events(event: u32, yes: bool)
    requires
        call_ensures(is_visibility_event, (event,), yes),
    ensures
        yes <==> 0x8000 <= event <= 0x8004 || event == 0x800B,
{
}

/// A watched change of a visible window without a parent asks for a computation.
pub proof fn law_visible_windows_count(event: WindowEvent, yes: bool)
    requires
        call_ensures(WindowEvent::relevant, (&event,), yes),
        event.is_window,
        event.is_visible,
        !event.has_parent,
        0x8000 <= event.event <= 0x8004 || event.event == 0x800B,
    ensures
        yes,
{
}

/// Being hidden or destroyed asks for a computation whatever the window still reads as: a hidden
/// window need not be visible, and a destroyed one need not be a window.
pub proof fn law_gone_windows_count(event: WindowEvent, yes: bool)
    requires
        call_ensures(WindowEvent::relevant, (&event,), yes),
        !event.has_parent,
        event.event == 0x8001 || (event.event == 0x8003 && event.is_window),
    ensures
        yes,
{
}

/// Windows with a parent never ask for a computation, nor do events that are not watched, nor do
/// windows that are not visible and were not hidden or destroyed.
pub proof fn law_other_events_do_not_count(event: WindowEvent, yes: bool)
    requires
        call_ensures(WindowEvent::relevant, (&event,), yes),
        event.has_parent || !(0x8000 <= event.event <= 0x8004 || event.event == 0x800B) || (
        !event.is_visible && event.event != 0x8001 && event.event != 0x8003) || (!event.is_window
            && event.event != 0x8001),
    ensures
        !yes,
{
}

/// The message loop ends when it is told to quit or when reading fails, whatever was read.
/// Otherwise a change of the displays is reported and every other message is passed on.
pub proof fn law_message_loop(status: i32, message: u32, step: LoopStep)
    requires
        call_ensures(loop_step, (status, message), step),
    ensures
        step == LoopStep::Quit <==> status == 0 || status == -1,
        step == LoopStep::ReportDisplayChange <==> message == 0x7E && status != 0 && status != -1,
{
}

} // verus!
