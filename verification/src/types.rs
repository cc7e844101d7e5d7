//! The values that the library hands out and keeps.
use std::collections::{HashMap, HashSet};

use vstd::prelude::*;
use vstd::std_specs::hash::group_hash_axioms;

use crate::monitors::{areas, measurable, MonitorInfo};
use crate::throttle::Throttle;
use crate::window::WindowInfo;

verus! {

/// The least time between two callbacks where nothing else is asked for, in milliseconds.
pub const DEFAULT_THROTTLE_MS: u64 = 500;

/// The visible area of one monitor, in pixels.
#[derive(Clone, Copy, Debug, PartialEq, Eq, Structural)]
pub struct MonitorVisibleInfo {
    /// The number in the monitor's device name, negative where it has none.
    pub monitor_id: i64,
    /// The place of the monitor among all monitors, counted from 1.
    pub monitor_index: i64,
    /// What no window covers.
    pub current_visible: i64,
    /// What neither the taskbar nor another window of the shell covers.
    pub max_visible: i64,
    /// The whole monitor.
    pub total_area: i64,
}

/// The visible area of all monitors.
#[derive(Debug)]
pub struct VisibleDesktopAreaResult {
    pub per_monitor_stats: Vec<MonitorVisibleInfo>,
    pub total_visible: i64,
    pub total_area: i64,
}

/// The address that a caller registered along with its callback. Zero stands for none.
#[derive(Clone, Copy, Debug, PartialEq, Eq, Structural)]
pub struct SendablePtr(pub usize);

/// The handle of the hook through which the system reports window events.
#[derive(Clone, Copy, Debug, PartialEq, Eq, Structural)]
pub struct SendableWinEventHook(pub isize);

/// What the watcher thread and the event hook report to the task that computes.
#[derive(Clone, Copy, Debug, PartialEq, Eq, Structural)]
pub enum VisibilityMessage {
    /// The window with this handle changed.
    WindowChanged(isize),
    /// Monitors were added, removed or arranged anew.
    DisplayChanged,
    /// Watching ends.
    Shutdown,
}

/// What is kept between computations.
#[derive(Debug)]
pub struct ThreadLocalState {
    /// The hook of the watcher thread, while it is set.
    pub hook: Option<SendableWinEventHook>,
    /// Whether there is a watcher thread, with a channel to a task that computes.
    pub thread: bool,
    /// The system's identifier of the watcher thread that ran last.
    pub thread_id: Option<u32>,
    /// Whether a callback is registered.
    pub callback: bool,
    /// What is handed to the callback.
    pub user_data: SendablePtr,
    /// Whether the task runs on a runtime that was created for it.
    pub owns_runtime: bool,
    /// Limits how often the desktop is measured.
    pub throttle: Throttle,
    /// The windows that were enumerated last, by handle.
    pub window_cache: HashMap<isize, WindowInfo>,
    /// The windows that changed since the last computation.
    pub changed_windows: HashSet<isize>,
    /// The monitors that were enumerated last.
    pub monitor_cache: Vec<MonitorInfo>,
    /// Whether the monitors have to be enumerated anew.
    pub force_monitor_refresh: bool,
}

impl ThreadLocalState {
    /// The remembered monitors can be measured, and a timer runs only while there is a watcher.
    pub open spec fn wf(self) -> bool {
        &&& measurable(self.monitor_cache@)
        &&& self.throttle.pending_timer ==> self.thread
    }

    /// Whether nothing was done yet.
    pub open spec fn is_initial(self) -> bool {
        &&& self.hook is None
        &&& !self.thread
        &&& self.thread_id is None
        &&& !self.callback
        &&& self.user_data == SendablePtr(0)
        &&& !self.owns_runtime
        &&& self.throttle == (Throttle {
            period_ms: DEFAULT_THROTTLE_MS,
            last_computation: None,
            next_computation: None,
            pending_timer: false,
        })
        &&& self.window_cache@ == Map::<isize, WindowInfo>::empty()
        &&& self.changed_windows@ == Set::<isize>::empty()
        &&& self.monitor_cache@ == Seq::<MonitorInfo>::empty()
        &&& !self.force_monitor_refresh
    }
}

impl Default for ThreadLocalState {
    /// The state before anything was done.
    fn default() -> (state: Self)
        ensures
            state.is_initial(),
            state.wf(),
    {
        broadcast use group_hash_axioms;

        let state = ThreadLocalState {
            hook: None,
            thread: false,
            thread_id: None,
            callback: false,
            user_data: SendablePtr(0),
            owns_runtime: false,
            throttle: Throttle::new(DEFAULT_THROTTLE_MS),
            window_cache: HashMap::new(),
            changed_windows: HashSet::new(),
            monitor_cache: Vec::new(),
            force_monitor_refresh: false,
        };
        assert(areas(state.monitor_cache@) =~= Seq::<int>::empty());
        state
    }
}

/// Before anything was done, nothing runs, nothing is registered and nothing is remembered, and
/// one computation is allowed every 500 milliseconds.
pub proof fn law_initial_state(state: ThreadLocalState)
    requires
        state.is_initial(),
    ensures
        state.throttle.period_ms == 500,
        state.throttle.last_computation is None,
        state.throttle.next_computation is None,
        !state.throttle.pending_timer,
        !state.thread,
        !state.callback,
        !state.owns_runtime,
        !state.force_monitor_refresh,
        state.user_data == SendablePtr(0),
        state.thread_id is None,
        state.hook is None,
        state.monitor_cache@.len() == 0,
        forall|h: isize| !(#[trigger] state.window_cache@.contains_key(h)),
        forall|h: isize| !(#[trigger] state.changed_windows@.contains(h)),
{
}

} // verus!
