//! The watcher: when it is started and stopped, and what it does about what is reported to it.
use vstd::prelude::*;
use vstd::std_specs::hash::group_hash_axioms;

use crate::calculator::{
    calculate_visible_desktop_area, covers_of, describes_desktop, law_desktop_statistics,
    law_result_is_determined,
};
use crate::events::{WindowEvent, EVENT_OBJECT_DESTROY};
use crate::monitors::{indexed, indices_fit, lemma_indexing, measurable, MonitorInfo};
use crate::throttle::{ComputationAction, Throttle};
use crate::types::{
    MonitorVisibleInfo, SendablePtr, SendableWinEventHook, ThreadLocalState, VisibilityMessage,
    VisibleDesktopAreaResult,
};
use crate::window::{ObservedWindow, WindowInfo};

verus! {

/// Measures the visible area of the desktop, on request or whenever it may have changed.
#[derive(Debug)]
pub struct LibVisInstance {
    pub state: ThreadLocalState,
}

/// What has to be done to stop watching.
#[derive(Clone, Copy, Debug, PartialEq, Eq, Structural)]
pub struct StopPlan {
    /// Send the shutdown message to the task that computes.
    pub send_shutdown: bool,
    /// Tell the thread with this identifier to quit.
    pub post_quit: Option<u32>,
    /// Abort the timer.
    pub abort_timer: bool,
    /// Abort the task that computes.
    pub abort_main_task: bool,
    /// Wait for the watcher thread to end.
    pub join_thread: bool,
    /// Shut down the runtime that was created for the task.
    pub shut_down_runtime: bool,
}

/// What has to be done when the watcher thread leaves its message loop.
#[derive(Clone, Copy, Debug, PartialEq, Eq, Structural)]
pub struct ExitPlan {
    /// Remove this hook.
    pub unhook: Option<SendableWinEventHook>,
    /// Send the shutdown message to the task that computes.
    pub send_shutdown: bool,
}

/// What has to be done about a message.
#[derive(Clone, Copy, Debug, PartialEq, Eq, Structural)]
pub enum MessageOutcome {
    /// A computation is requested.
    Computation(ComputationAction),
    /// Stop taking messages.
    Stop,
}

/// What a computation gave, and what to hand to the callback along with it.
#[derive(Debug)]
pub struct ComputationReport {
    pub result: VisibleDesktopAreaResult,
    /// The user data for the callback, where one is registered.
    pub notify: Option<SendablePtr>,
}

impl ThreadLocalState {
    /// The state after watching was started.
    pub open spec fn watching(
        self,
        throttle_ms: u64,
        user_data: SendablePtr,
        owns_runtime: bool,
    ) -> ThreadLocalState {
        ThreadLocalState {
            thread: true,
            callback: true,
            user_data,
            owns_runtime,
            throttle: self.throttle.begun(throttle_ms),
            ..self
        }
    }

    /// The state after watching was stopped.
    pub open spec fn stopped(self) -> ThreadLocalState {
        ThreadLocalState {
            thread: false,
            callback: false,
            user_data: SendablePtr(0),
            owns_runtime: false,
            throttle: Throttle { pending_timer: false, ..self.throttle },
            ..self
        }
    }

    /// What has to be done to stop watching.
    pub open spec fn stop_plan(self) -> StopPlan {
        StopPlan {
            send_shutdown: self.thread,
            post_quit: self.thread_id,
            abort_timer: self.throttle.pending_timer,
            abort_main_task: self.thread,
            join_thread: self.thread,
            shut_down_runtime: self.owns_runtime,
        }
    }
}

impl LibVisInstance {
    /// The invariant of the state.
    pub open spec fn wf(self) -> bool {
        self.state.wf()
    }

    /// An instance that does not watch yet.
    pub fn new() -> (instance: LibVisInstance)
        ensures
            instance.wf(),
            instance.state.is_initial(),
    {
        LibVisInstance { state: ThreadLocalState::default() }
    }

    /// Measures the visible area of the desktop with the given monitors and windows: the
    /// statistics of each monitor, and over all of them the visible and the whole area. What the
    /// instance remembers is neither used nor changed.
    pub fn get_visible_area(
        &self,
        monitors: Vec<MonitorInfo>,
        windows: Vec<ObservedWindow>,
    ) -> (area: (Vec<MonitorVisibleInfo>, i64, i64))
        requires
            measurable(monitors@),
            indices_fit(monitors@),
        ensures
            describes_desktop(
                (VisibleDesktopAreaResult {
                    per_monitor_stats: area.0,
                    total_visible: area.1,
                    total_area: area.2,
                }),
                indexed(monitors@),
                covers_of(windows@),
            ),
    {
        let mut temp_state = ThreadLocalState::default();
        let result = calculate_visible_desktop_area(&mut temp_state, monitors, windows, 0);
        (result.per_monitor_stats, result.total_visible, result.total_area)
    }

    /// Starts to watch, unless a watcher is running already. `owns_runtime` tells whether a
    /// runtime was created for the task that computes.
    pub fn watch_visible_area(
        &mut self,
        throttle_ms: u64,
        user_data: SendablePtr,
        owns_runtime: bool,
    ) -> (started: bool)
        requires
            old(self).wf(),
        ensures
            final(self).wf(),
            started == !old(self).state.thread,
            final(self).state == (if started {
                old(self).state.watching(throttle_ms, user_data, owns_runtime)
            } else {
                old(self).state
            }),
    {
        if self.state.thread {
            return false;
        }
        self.state.callback = true;
        self.state.user_data = user_data;
        self.state.owns_runtime = owns_runtime;
        self.state.throttle.begin(throttle_ms);
        self.state.thread = true;
        true
    }

    /// Stops watching, where a watcher is running, and tells what has to be done for it.
    pub fn stop_watch_visible_area(&mut self) -> (plan: StopPlan)
        requires
            old(self).wf(),
        ensures
            final(self).wf(),
            plan == old(self).state.stop_plan(),
            final(self).state == old(self).state.stopped(),
    {
        let plan = StopPlan {
            send_shutdown: self.state.thread,
            post_quit: self.state.thread_id,
            abort_timer: self.state.throttle.pending_timer,
            abort_main_task: self.state.thread,
            join_thread: self.state.thread,
            shut_down_runtime: self.state.owns_runtime,
        };
        self.state.throttle.pending_timer = false;
        self.state.callback = false;
        self.state.user_data = SendablePtr(0);
        self.state.owns_runtime = false;
        self.state.thread = false;
        plan
    }

    /// Stops watching before the instance is given up.
    pub fn deinit(&mut self) -> (plan: StopPlan)
        requires
            old(self).wf(),
        ensures
            final(self).wf(),
            plan == old(self).state.stop_plan(),
            final(self).state == old(self).state.stopped(),
    {
        self.stop_watch_visible_area()
    }

    /// Notes the system's identifier of the watcher thread.
    pub fn watcher_started(&mut self, thread_id: u32)
        requires
            old(self).wf(),
        ensures
            final(self).wf(),
            final(self).state == (ThreadLocalState {
                thread_id: Some(thread_id),
                ..old(self).state
            }),
    {
        self.state.thread_id = Some(thread_id);
    }

    /// Notes the hook of the watcher thread. Without one the thread has to end.
    pub fn hook_set(&mut self, hook: Option<SendableWinEventHook>) -> (go_on: bool)
        requires
            old(self).wf(),
        ensures
            final(self).wf(),
            go_on == (hook is Some),
            final(self).state == (if hook is Some {
                ThreadLocalState { hook, ..old(self).state }
            } else {
                old(self).state
            }),
    {
        match hook {
            Some(_) => {
                self.state.hook = hook;
                true
            },
            None => false,
        }
    }

    /// Tells what has to be done when the watcher thread leaves its message loop.
    pub fn watcher_finished(&mut self) -> (plan: ExitPlan)
        requires
            old(self).wf(),
        ensures
            final(self).wf(),
            plan == (ExitPlan {
                unhook: old(self).state.hook,
                send_shutdown: old(self).state.thread,
            }),
            final(self).state == (ThreadLocalState { hook: None, ..old(self).state }),
    {
        let plan = ExitPlan { unhook: self.state.hook, send_shutdown: self.state.thread };
        self.state.hook = None;
        plan
    }

    /// Takes note of a window event. Returns the message that has to be sent to the task that
    /// computes, where the event asks for a computation and there is such a task.
    pub fn win_event_proc(&mut self, event: &WindowEvent) -> (message: Option<VisibilityMessage>)
        requires
            old(self).wf(),
        ensures
            final(self).wf(),
            message == (if event.is_relevant() && old(self).state.thread {
                Some(VisibilityMessage::WindowChanged(event.hwnd))
            } else {
                None
            }),
            event.is_relevant() ==> final(self).state.windows_outdated(),
            final(self).state.changed_windows@ == (if event.is_relevant() {
                old(self).state.changed_windows@.insert(event.hwnd)
            } else {
                old(self).state.changed_windows@
            }),
            final(self).state.window_cache@ == (if event.is_relevant() && event.event
                == EVENT_OBJECT_DESTROY {
                old(self).state.window_cache@.remove(event.hwnd)
            } else {
                old(self).state.window_cache@
            }),
            final(self).state == (ThreadLocalState {
                changed_windows: final(self).state.changed_windows,
                window_cache: final(self).state.window_cache,
                ..old(self).state
            }),
    {
        broadcast use group_hash_axioms;

        if !event.relevant() {
            return None;
        }
        self.state.changed_windows.insert(event.hwnd);
        assert(self.state.changed_windows@.contains(event.hwnd));
        if event.event == EVENT_OBJECT_DESTROY {
            self.state.window_cache.remove(&event.hwnd);
        }
        if self.state.thread {
            Some(VisibilityMessage::WindowChanged(event.hwnd))
        } else {
            None
        }
    }

    /// Decides on a request for a computation at the time `now`.
    pub fn handle_computation_request(&mut self, now: u64) -> (action: ComputationAction)
        requires
            old(self).wf(),
            old(self).state.thread,
        ensures
            final(self).wf(),
            action == old(self).state.throttle.decision(now),
            final(self).state == (ThreadLocalState {
                throttle: old(self).state.throttle.requested(now),
                ..old(self).state
            }),
    {
        self.state.throttle.request(now)
    }

    /// Decides on a message that came at the time `now`.
    pub fn process_message(&mut self, message: VisibilityMessage, now: u64) -> (outcome:
        MessageOutcome)
        requires
            old(self).wf(),
            old(self).state.thread || message is Shutdown,
        ensures
            final(self).wf(),
            message is WindowChanged ==> final(self).state.windows_outdated(),
            message is DisplayChanged ==> final(self).state.monitors_outdated(),
            outcome == (if message is Shutdown {
                MessageOutcome::Stop
            } else {
                MessageOutcome::Computation(old(self).state.throttle.decision(now))
            }),
            final(self).state.changed_windows@ == (match message {
                VisibilityMessage::WindowChanged(hwnd) => old(
                    self,
                ).state.changed_windows@.insert(hwnd),
                _ => old(self).state.changed_windows@,
            }),
            final(self).state == (ThreadLocalState {
                changed_windows: final(self).state.changed_windows,
                force_monitor_refresh: old(self).state.force_monitor_refresh
                    || message is DisplayChanged,
                throttle: if message is Shutdown {
                    old(self).state.throttle
                } else {
                    old(self).state.throttle.requested(now)
                },
                ..old(self).state
            }),
    {
        broadcast use group_hash_axioms;

        match message {
            VisibilityMessage::WindowChanged(hwnd) => {
                self.state.changed_windows.insert(hwnd);
                assert(self.state.changed_windows@.contains(hwnd));
            },
            VisibilityMessage::DisplayChanged => {
                self.state.force_monitor_refresh = true;
            },
            VisibilityMessage::Shutdown => {
                return MessageOutcome::Stop;
            },
        }
        MessageOutcome::Computation(self.handle_computation_request(now))
    }
}

/// Measures the visible area of the desktop and takes the windows that changed as dealt with.
/// `monitors` and `windows` are what was enumerated at the time `now`, where it had to be.
pub fn perform_computation(
    instance: &mut LibVisInstance,
    monitors: Vec<MonitorInfo>,
    windows: Vec<ObservedWindow>,
    now: u64,
) -> (report: ComputationReport)
    requires
        old(instance).wf(),
        old(instance).state.monitors_outdated() ==> measurable(monitors@) && indices_fit(
            monitors@,
        ),
    ensures
        final(instance).wf(),
        describes_desktop(
            report.result,
            old(instance).state.monitors_in_use(monitors@),
            old(instance).state.covers_in_use(windows@),
        ),
        report.notify == (if old(instance).state.callback {
            Some(old(instance).state.user_data)
        } else {
            None
        }),
        final(instance).state.monitor_cache@ == old(instance).state.monitors_in_use(monitors@),
        final(instance).state.window_cache@ == old(instance).state.windows_kept(windows@, now),
        final(instance).state.changed_windows@ == Set::<isize>::empty(),
        final(instance).state == (ThreadLocalState {
            monitor_cache: final(instance).state.monitor_cache,
            window_cache: final(instance).state.window_cache,
            changed_windows: final(instance).state.changed_windows,
            force_monitor_refresh: false,
            ..old(instance).state
        }),
{
    broadcast use group_hash_axioms;

    let result = calculate_visible_desktop_area(&mut instance.state, monitors, windows, now);
    instance.state.changed_windows.clear();
    let notify = if instance.state.callback { Some(instance.state.user_data) } else { None };
    ComputationReport { result, notify }
}

impl LibVisInstance {
    /// Notes that a computation that was made at once was completed at the time `now`.
    pub fn computation_completed(&mut self, now: u64)
        requires
            old(self).wf(),
        ensures
            final(self).wf(),
            final(self).state == (ThreadLocalState {
                throttle: old(self).state.throttle.computed(now),
                ..old(self).state
            }),
    {
        self.state.throttle.note_computed(now);
    }

    /// Notes that the computation of the timer was completed at the time `now`.
    pub fn timer_computation_completed(&mut self, now: u64)
        requires
            old(self).wf(),
        ensures
            final(self).wf(),
            final(self).state == (ThreadLocalState {
                throttle: old(self).state.throttle.timer_computed(now),
                ..old(self).state
            }),
    {
        self.state.throttle.note_timer_computed(now);
    }
}

impl Default for LibVisInstance {
    /// An instance that does not watch yet.
    fn default() -> (instance: Self)
        ensures
            instance.wf(),
            instance.state.is_initial(),
    {
        LibVisInstance::new()
    }
}

/// Watching can be started anew once it was stopped, and then the first request leads to a
/// computation at once.
pub proof fn law_watching_can_be_started_anew(
    state: ThreadLocalState,
    throttle_ms: u64,
    user_data: SendablePtr,
    owns_runtime: bool,
    now: u64,
)
    ensures
        !state.stopped().thread,
        state.stopped().watching(throttle_ms, user_data, owns_runtime).throttle.decision(now)
            == ComputationAction::ComputeNow,
{
}

/// Stopping undoes starting: no thread, no callback, no user data, no timer and no runtime is
/// left, and what is remembered of monitors and windows stays.
pub proof fn law_stopping_undoes_starting(
    state: ThreadLocalState,
    throttle_ms: u64,
    user_data: SendablePtr,
    owns_runtime: bool,
)
    ensures
        ({
            let left = state.watching(throttle_ms, user_data, owns_runtime).stopped();
            &&& !left.thread && !left.callback && !left.owns_runtime
            &&& left.user_data == SendablePtr(0)
            &&& !left.throttle.pending_timer
            &&& left.window_cache == state.window_cache
            &&& left.changed_windows == state.changed_windows
            &&& left.monitor_cache == state.monitor_cache
            &&& left.force_monitor_refresh == state.force_monitor_refresh
        }),
{
}

/// Stopping twice changes no more than stopping once, and the second time there is nothing left
/// to end but the thread whose identifier is known.
pub proof fn law_stopping_is_idempotent(state: ThreadLocalState)
    ensures
        state.stopped().stopped() == state.stopped(),
        state.stopped().stop_plan() == (StopPlan {
            send_shutdown: false,
            post_quit: state.thread_id,
            abort_timer: false,
            abort_main_task: false,
            join_thread: false,
            shut_down_runtime: false,
        }),
{
}

/// An instance that was just made watches nothing, remembers nothing, and would limit itself to
/// one computation every 500 milliseconds.
pub proof fn law_new_instance(instance: LibVisInstance)
    requires
        call_ensures(LibVisInstance::new, (), instance),
    ensures
        instance.state.throttle.period_ms == 500,
        instance.state.throttle.last_computation is None,
        instance.state.throttle.next_computation is None,
        !instance.state.throttle.pending_timer,
        !instance.state.thread,
        !instance.state.callback,
        !instance.state.owns_runtime,
        !instance.state.force_monitor_refresh,
        instance.state.user_data == SendablePtr(0),
        instance.state.thread_id is None,
        instance.state.hook is None,
        instance.state.monitor_cache@.len() == 0,
        forall|h: isize| !(#[trigger] instance.state.window_cache@.contains_key(h)),
        forall|h: isize| !(#[trigger] instance.state.changed_windows@.contains(h)),
{
}

/// Each monitor has its statistics among those that are given out: as many pixels are visible as
/// lie in its rectangle and in that of no window, and at most as many can be as lie in that of no
/// window whose class begins with `Shell_`. `k` is where the statistics of the monitor `i` stand.
pub proof fn law_visible_area_of_each_monitor(
    instance: &LibVisInstance,
    monitors: Vec<MonitorInfo>,
    windows: Vec<ObservedWindow>,
    area: (Vec<MonitorVisibleInfo>, i64, i64),
    i: int,
    free: Set<(int, int)>,
    free_of_shell: Set<(int, int)>,
) -> (k: int)
    requires
        call_ensures(LibVisInstance::get_visible_area, (instance, monitors, windows), area),
        0 <= i < monitors@.len() < 0x7fff_ffff_ffff_ffff,
        forall|x: int, y: int| #[trigger]
            free.contains((x, y)) <==> {
                &&& monitors@[i].rect.left <= x < monitors@[i].rect.right
                &&& monitors@[i].rect.top <= y < monitors@[i].rect.bottom
                &&& !(exists|j: int|
                        0 <= j < windows@.len() && (#[trigger] windows@[j]).rect.left <= x && x
                            < windows@[j].rect.right && windows@[j].rect.top <= y && y
                            < windows@[j].rect.bottom)
            },
        forall|x: int, y: int| #[trigger]
            free_of_shell.contains((x, y)) <==> {
                &&& monitors@[i].rect.left <= x < monitors@[i].rect.right
                &&& monitors@[i].rect.top <= y < monitors@[i].rect.bottom
                &&& !(exists|j: int|
                        0 <= j < windows@.len() && (#[trigger] windows@[j]).rect.left <= x && x
                            < windows@[j].rect.right && windows@[j].rect.top <= y && y
                            < windows@[j].rect.bottom && windows@[j].class_name@.len() >= 6
                            && windows@[j].class_name@.take(6) == seq!['S', 'h', 'e', 'l', 'l', '_'])
            },
    ensures
        area.0@.len() == monitors@.len(),
        0 <= k < area.0@.len(),
        area.0@[k].monitor_id == monitors@[i].id,
        area.0@[k].monitor_index == k + 1,
        area.0@[k].current_visible == free.len(),
        area.0@[k].max_visible == free_of_shell.len(),
        area.0@[k].total_area == monitors@[i].total_area,
{
    let to = lemma_indexing(monitors@);
    let k = to[i];
    let result = VisibleDesktopAreaResult {
        per_monitor_stats: area.0,
        total_visible: area.1,
        total_area: area.2,
    };
    law_desktop_statistics(indexed(monitors@), windows@, result, k, free, free_of_shell);
    k
}

/// What is measured on request is what a computation measures that remembers nothing.
pub proof fn law_request_measures_like_a_computation(
    instance: &LibVisInstance,
    state: &mut ThreadLocalState,
    monitors: Vec<MonitorInfo>,
    windows: Vec<ObservedWindow>,
    now: u64,
    area: (Vec<MonitorVisibleInfo>, i64, i64),
    result: VisibleDesktopAreaResult,
)
    requires
        call_ensures(LibVisInstance::get_visible_area, (instance, monitors, windows), area),
        call_ensures(calculate_visible_desktop_area, (state, monitors, windows, now), result),
        old(state).monitor_cache@.len() == 0,
        old(state).window_cache@ == Map::<isize, WindowInfo>::empty(),
    ensures
        area.0@ == result.per_monitor_stats@,
        area.1 == result.total_visible,
        area.2 == result.total_area,
{
    let requested = VisibleDesktopAreaResult {
        per_monitor_stats: area.0,
        total_visible: area.1,
        total_area: area.2,
    };
    law_result_is_determined(requested, result, indexed(monitors@), covers_of(windows@));
}

/// Watching can be started exactly where no watcher is running. It registers the callback with
/// its user data and sets the period, whichever runtime is used, and keeps what is remembered.
pub proof fn law_watching_registers_the_callback(
    instance: &mut LibVisInstance,
    throttle_ms: u64,
    user_data: SendablePtr,
    owns_runtime: bool,
    started: bool,
)
    requires
        call_ensures(
            LibVisInstance::watch_visible_area,
            (instance, throttle_ms, user_data, owns_runtime),
            started,
        ),
    ensures
        started <==> !old(instance).state.thread,
        started ==> {
            let state = final(instance).state;
            &&& state.thread
            &&& state.callback
            &&& state.user_data == user_data
            &&& state.owns_runtime == owns_runtime
            &&& state.throttle.period_ms == throttle_ms
            &&& state.throttle.pending_timer == old(instance).state.throttle.pending_timer
            &&& state.hook == old(instance).state.hook
            &&& state.thread_id == old(instance).state.thread_id
            &&& state.window_cache == old(instance).state.window_cache
            &&& state.changed_windows == old(instance).state.changed_windows
            &&& state.monitor_cache == old(instance).state.monitor_cache
            &&& state.force_monitor_refresh == old(instance).state.force_monitor_refresh
        },
        !started ==> final(instance).state == old(instance).state,
{
}

/// Every computation of a watcher is reported to the callback along with the user data that
/// watching was started with, whichever runtime is used.
pub proof fn law_watchers_report_to_their_callback(
    watching: &mut LibVisInstance,
    throttle_ms: u64,
    user_data: SendablePtr,
    owns_runtime: bool,
    computing: &mut LibVisInstance,
    monitors: Vec<MonitorInfo>,
    windows: Vec<ObservedWindow>,
    now: u64,
    report: ComputationReport,
)
    requires
        call_ensures(
            LibVisInstance::watch_visible_area,
            (watching, throttle_ms, user_data, owns_runtime),
            true,
        ),
        *old(computing) == *final(watching),
        call_ensures(perform_computation, (computing, monitors, windows, now), report),
    ensures
        report.notify == Some(user_data),
        final(computing).state.callback,
        final(computing).state.user_data == user_data,
{
}

/// Once watching was stopped, computations are reported to nobody.
pub proof fn law_stopped_watchers_report_to_nobody(
    stopping: &mut LibVisInstance,
    plan: StopPlan,
    computing: &mut LibVisInstance,
    monitors: Vec<MonitorInfo>,
    windows: Vec<ObservedWindow>,
    now: u64,
    report: ComputationReport,
)
    requires
        call_ensures(LibVisInstance::stop_watch_visible_area, (stopping,), plan),
        *old(computing) == *final(stopping),
        call_ensures(perform_computation, (computing, monitors, windows, now), report),
    ensures
        report.notify is None,
{
}

/// A computation of a watcher gives what a computation on the same state gives, and takes the
/// windows that changed as dealt with. The callback and the watcher stay.
pub proof fn law_watchers_compute_the_visible_area(
    computing: &mut LibVisInstance,
    state: &mut ThreadLocalState,
    monitors: Vec<MonitorInfo>,
    windows: Vec<ObservedWindow>,
    now: u64,
    report: ComputationReport,
    result: VisibleDesktopAreaResult,
)
    requires
        call_ensures(perform_computation, (computing, monitors, windows, now), report),
        call_ensures(calculate_visible_desktop_area, (state, monitors, windows, now), result),
        old(computing).state == *old(state),
    ensures
        report.result.per_monitor_stats@ == result.per_monitor_stats@,
        report.result.total_visible == result.total_visible,
        report.result.total_area == result.total_area,
        report.notify == (if old(state).callback {
            Some(old(state).user_data)
        } else {
            None
        }),
        final(computing).state.monitor_cache@ == final(state).monitor_cache@,
        final(computing).state.window_cache@ == final(state).window_cache@,
        !final(computing).state.force_monitor_refresh,
        forall|h: isize| !(#[trigger] final(computing).state.changed_windows@.contains(h)),
        final(computing).state.callback == old(state).callback,
        final(computing).state.user_data == old(state).user_data,
        final(computing).state.thread == old(state).thread,
        final(computing).state.thread_id == old(state).thread_id,
        final(computing).state.hook == old(state).hook,
        final(computing).state.owns_runtime == old(state).owns_runtime,
        final(computing).state.throttle == old(state).throttle,
{
    law_result_is_determined(
        report.result,
        result,
        old(state).monitors_in_use(monitors@),
        old(state).covers_in_use(windows@),
    );
}

/// Stopping ends all that runs: the task and the thread of a watcher, the timer while it is
/// running, and the runtime where it was created for the task. What does not run is left alone.
pub proof fn law_stopping_ends_what_runs(instance: &mut LibVisInstance, plan: StopPlan)
    requires
        call_ensures(LibVisInstance::stop_watch_visible_area, (instance,), plan),
    ensures
        plan.send_shutdown <==> old(instance).state.thread,
        plan.abort_main_task <==> old(instance).state.thread,
        plan.join_thread <==> old(instance).state.thread,
        plan.abort_timer <==> old(instance).state.throttle.pending_timer,
        plan.shut_down_runtime <==> old(instance).state.owns_runtime,
        plan.post_quit == old(instance).state.thread_id,
        !final(instance).state.thread,
        !final(instance).state.callback,
        !final(instance).state.owns_runtime,
        !final(instance).state.throttle.pending_timer,
        final(instance).state.user_data == SendablePtr(0),
        final(instance).state.throttle.period_ms == old(instance).state.throttle.period_ms,
        final(instance).state.throttle.last_computation
            == old(instance).state.throttle.last_computation,
        final(instance).state.hook == old(instance).state.hook,
        final(instance).state.thread_id == old(instance).state.thread_id,
        final(instance).state.window_cache == old(instance).state.window_cache,
        final(instance).state.changed_windows == old(instance).state.changed_windows,
        final(instance).state.monitor_cache == old(instance).state.monitor_cache,
        final(instance).state.force_monitor_refresh == old(instance).state.force_monitor_refresh,
{
}

/// Giving an instance up stops it.
pub proof fn law_giving_up_stops(
    given_up: &mut LibVisInstance,
    stopping: &mut LibVisInstance,
    plan: StopPlan,
    stop_plan: StopPlan,
)
    requires
        call_ensures(LibVisInstance::deinit, (given_up,), plan),
        call_ensures(LibVisInstance::stop_watch_visible_area, (stopping,), stop_plan),
        *old(given_up) == *old(stopping),
    ensures
        plan == stop_plan,
        *final(given_up) == *final(stopping),
{
}

/// A watcher that was stopped can be started again.
pub proof fn law_stopped_watchers_start_again(
    stopping: &mut LibVisInstance,
    plan: StopPlan,
    starting: &mut LibVisInstance,
    throttle_ms: u64,
    user_data: SendablePtr,
    owns_runtime: bool,
    started: bool,
)
    requires
        call_ensures(LibVisInstance::stop_watch_visible_area, (stopping,), plan),
        *old(starting) == *final(stopping),
        call_ensures(
            LibVisInstance::watch_visible_area,
            (starting, throttle_ms, user_data, owns_runtime),
            started,
        ),
    ensures
        started,
{
}

/// The thread that a watcher noted is the one that is told to quit.
pub proof fn law_the_noted_thread_is_told_to_quit(
    noting: &mut LibVisInstance,
    thread_id: u32,
    stopping: &mut LibVisInstance,
    plan: StopPlan,
)
    requires
        call_ensures(LibVisInstance::watcher_started, (noting, thread_id), ()),
        *old(stopping) == *final(noting),
        call_ensures(LibVisInstance::stop_watch_visible_area, (stopping,), plan),
    ensures
        plan.post_quit == Some(thread_id),
        plan.join_thread == old(noting).state.thread,
        final(noting).state == (ThreadLocalState {
            thread_id: final(noting).state.thread_id,
            ..old(noting).state
        }),
{
}

/// A thread goes on exactly where its hook could be set, and that hook is removed when the thread
/// leaves its loop.
pub proof fn law_the_hook_that_was_set_is_removed(
    setting: &mut LibVisInstance,
    hook: Option<SendableWinEventHook>,
    go_on: bool,
    finishing: &mut LibVisInstance,
    plan: ExitPlan,
)
    requires
        call_ensures(LibVisInstance::hook_set, (setting, hook), go_on),
        *old(finishing) == *final(setting),
        call_ensures(LibVisInstance::watcher_finished, (finishing,), plan),
    ensures
        go_on <==> hook is Some,
        hook is Some ==> plan.unhook == hook,
        hook is None ==> plan.unhook == old(setting).state.hook,
        plan.send_shutdown <==> old(setting).state.thread,
        final(finishing).state == (ThreadLocalState { hook: None, ..old(setting).state }),
{
}

/// An event that asks for a computation is noted: its window counts as changed along with those
/// before it, a destroyed window is forgotten, and the task that computes is told where there is
/// one. The next computation then asks for the windows.
pub proof fn law_relevant_events_are_noted(
    instance: &mut LibVisInstance,
    event: WindowEvent,
    message: Option<VisibilityMessage>,
    h: isize,
    asks: bool,
)
    requires
        call_ensures(LibVisInstance::win_event_proc, (instance, &event), message),
        call_ensures(WindowEvent::relevant, (&event,), true),
        call_ensures(
            ThreadLocalState::needs_window_update,
            (&final(instance).state,),
            asks,
        ),
    ensures
        old(instance).state.thread ==> message == Some(
            VisibilityMessage::WindowChanged(event.hwnd),
        ),
        !old(instance).state.thread ==> message is None,
        final(instance).state.changed_windows@.contains(h) <==> h == event.hwnd
            || old(instance).state.changed_windows@.contains(h),
        ({
            let before = old(instance).state.window_cache@;
            let after = final(instance).state.window_cache@;
            if event.event == 0x8001 && h == event.hwnd {
                !after.contains_key(h)
            } else {
                &&& after.contains_key(h) <==> before.contains_key(h)
                &&& before.contains_key(h) ==> after[h] == before[h]
            }
        }),
        asks,
{
}

/// An event that asks for no computation changes nothing and is told to nobody.
pub proof fn law_other_events_change_nothing(
    instance: &mut LibVisInstance,
    event: WindowEvent,
    message: Option<VisibilityMessage>,
)
    requires
        call_ensures(LibVisInstance::win_event_proc, (instance, &event), message),
        call_ensures(WindowEvent::relevant, (&event,), false),
    ensures
        message is None,
        final(instance).state.changed_windows@ == old(instance).state.changed_windows@,
        final(instance).state.window_cache@ == old(instance).state.window_cache@,
{
}

/// An event leaves the watcher and the limit as they are, and the monitors that are remembered.
pub proof fn law_events_keep_the_watcher(
    instance: &mut LibVisInstance,
    event: WindowEvent,
    message: Option<VisibilityMessage>,
)
    requires
        call_ensures(LibVisInstance::win_event_proc, (instance, &event), message),
    ensures
        final(instance).state.thread == old(instance).state.thread,
        final(instance).state.thread_id == old(instance).state.thread_id,
        final(instance).state.hook == old(instance).state.hook,
        final(instance).state.callback == old(instance).state.callback,
        final(instance).state.user_data == old(instance).state.user_data,
        final(instance).state.owns_runtime == old(instance).state.owns_runtime,
        final(instance).state.throttle == old(instance).state.throttle,
        final(instance).state.monitor_cache == old(instance).state.monitor_cache,
        final(instance).state.force_monitor_refresh == old(instance).state.force_monitor_refresh,
{
}

/// A request for a computation is decided on as the limit decides on it, and changes nothing but
/// the limit.
pub proof fn law_requests_go_to_the_limit(
    instance: &mut LibVisInstance,
    throttle: &mut Throttle,
    now: u64,
    action: ComputationAction,
    decided: ComputationAction,
)
    requires
        call_ensures(LibVisInstance::handle_computation_request, (instance, now), action),
        call_ensures(Throttle::request, (throttle, now), decided),
        old(instance).state.throttle == *old(throttle),
    ensures
        action == decided,
        final(instance).state == (ThreadLocalState {
            throttle: *final(throttle),
            ..old(instance).state
        }),
{
}

/// A message about a change is noted and decided on as the limit decides on a request. The next
/// computation then asks for the windows, or for the monitors where the displays changed.
pub proof fn law_messages_are_noted_and_decided_on(
    instance: &mut LibVisInstance,
    throttle: &mut Throttle,
    message: VisibilityMessage,
    now: u64,
    outcome: MessageOutcome,
    decided: ComputationAction,
    h: isize,
)
    requires
        call_ensures(LibVisInstance::process_message, (instance, message, now), outcome),
        call_ensures(Throttle::request, (throttle, now), decided),
        old(instance).state.throttle == *old(throttle),
        message != VisibilityMessage::Shutdown,
    ensures
        outcome == MessageOutcome::Computation(decided),
        final(instance).state.throttle == *final(throttle),
        final(instance).state.changed_windows@.contains(h) <==> message
            == VisibilityMessage::WindowChanged(h) || old(instance).state.changed_windows@.contains(h),
        final(instance).state.force_monitor_refresh <==> message
            == VisibilityMessage::DisplayChanged || old(instance).state.force_monitor_refresh,
        final(instance).state.window_cache == old(instance).state.window_cache,
        final(instance).state.monitor_cache == old(instance).state.monitor_cache,
        final(instance).state.callback == old(instance).state.callback,
        final(instance).state.user_data == old(instance).state.user_data,
        final(instance).state.thread == old(instance).state.thread,
        final(instance).state.thread_id == old(instance).state.thread_id,
        final(instance).state.hook == old(instance).state.hook,
        final(instance).state.owns_runtime == old(instance).state.owns_runtime,
{
}

/// The shutdown message ends the taking of messages and changes nothing.
pub proof fn law_shutdown_ends_the_messages(
    instance: &mut LibVisInstance,
    now: u64,
    outcome: MessageOutcome,
)
    requires
        call_ensures(
            LibVisInstance::process_message,
            (instance, VisibilityMessage::Shutdown, now),
            outcome,
        ),
    ensures
        outcome == MessageOutcome::Stop,
        final(instance).state.changed_windows@ == old(instance).state.changed_windows@,
        final(instance).state == (ThreadLocalState {
            changed_windows: final(instance).state.changed_windows,
            ..old(instance).state
        }),
{
}

/// Completed computations, at once or by the timer, are noted as the limit notes them, and
/// nothing else changes.
pub proof fn law_completed_computations_go_to_the_limit(
    at_once: &mut LibVisInstance,
    by_timer: &mut LibVisInstance,
    throttle: &mut Throttle,
    timed: &mut Throttle,
    now: u64,
)
    requires
        call_ensures(LibVisInstance::computation_completed, (at_once, now), ()),
        call_ensures(LibVisInstance::timer_computation_completed, (by_timer, now), ()),
        call_ensures(Throttle::note_computed, (throttle, now), ()),
        call_ensures(Throttle::note_timer_computed, (timed, now), ()),
        old(at_once).state.throttle == *old(throttle),
        old(by_timer).state.throttle == *old(timed),
    ensures
        final(at_once).state == (ThreadLocalState {
            throttle: *final(throttle),
            ..old(at_once).state
        }),
        final(by_timer).state == (ThreadLocalState {
            throttle: *final(timed),
            ..old(by_timer).state
        }),
{
}

/// The first request of a watcher leads to a computation at once, however recently something was
/// measured before it was started, as long as no timer is left from before.
pub proof fn law_watchers_measure_first_of_all(
    watching: &mut LibVisInstance,
    throttle_ms: u64,
    user_data: SendablePtr,
    owns_runtime: bool,
    requesting: &mut LibVisInstance,
    message: VisibilityMessage,
    now: u64,
    outcome: MessageOutcome,
)
    requires
        call_ensures(
            LibVisInstance::watch_visible_area,
            (watching, throttle_ms, user_data, owns_runtime),
            true,
        ),
        !old(watching).state.throttle.pending_timer,
        *old(requesting) == *final(watching),
        call_ensures(LibVisInstance::process_message, (requesting, message, now), outcome),
        message != VisibilityMessage::Shutdown,
    ensures
        outcome == MessageOutcome::Computation(ComputationAction::ComputeNow),
{
}

/// A state is valid exactly where the monitors that it remembers can be measured and where no
/// timer is running without a watcher.
pub proof fn law_valid_states(instance: LibVisInstance)
    ensures
        instance.wf() <==> measurable(instance.state.monitor_cache@) && (
        instance.state.throttle.pending_timer ==> instance.state.thread),
{
}

} // verus!
