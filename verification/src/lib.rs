//! Measures how much of the desktop is visible, monitor by monitor, and decides
//! when a watcher has to measure it again.
pub mod calculator;
pub mod events;
pub mod geometry;
pub mod instance;
pub mod monitors;
pub mod ranking;
pub mod region;
pub mod text;
pub mod throttle;
pub mod types;
pub mod window;

pub use calculator::{calculate_visible_desktop_area, Cover};
pub use events::{loop_step, LoopStep, WindowEvent};
pub use geometry::Rect;
pub use instance::{
    perform_computation, ComputationReport, ExitPlan, LibVisInstance, MessageOutcome, StopPlan,
};
pub use monitors::{enum_monitors_collect_cb, monitor_index_post_process, MonitorInfo};
pub use region::{compute_region_area, Region};
pub use throttle::{ComputationAction, Throttle};
pub use types::{
    MonitorVisibleInfo, SendablePtr, SendableWinEventHook, ThreadLocalState, VisibilityMessage,
    VisibleDesktopAreaResult,
};
pub use window::{
    enum_windows_collect, LayeredAttributes, ObservedWindow, WindowInfo, WindowProbe,
};
