use libvisdesk::events::{
    is_visibility_event, EVENT_OBJECT_CREATE, EVENT_OBJECT_DESTROY, EVENT_OBJECT_HIDE,
    EVENT_OBJECT_LOCATIONCHANGE, EVENT_OBJECT_REORDER, EVENT_OBJECT_SHOW, WM_DISPLAYCHANGE,
};
use libvisdesk::{
    loop_step, perform_computation, ComputationAction, ExitPlan, LibVisInstance, LoopStep,
    MessageOutcome, MonitorInfo, ObservedWindow, Rect, SendablePtr, SendableWinEventHook, StopPlan,
    VisibilityMessage, WindowEvent,
};

const MS: u64 = 1_000_000;

fn watching() -> LibVisInstance {
    let mut instance = LibVisInstance::new();
    assert!(instance.watch_visible_area(500, SendablePtr(99), true));
    instance
}

fn screen() -> Vec<MonitorInfo> {
    let rect = Rect { left: 0, top: 0, right: 100, bottom: 50 };
    vec![MonitorInfo { id: 1, index: 1, rect, total_area: 5_000 }]
}

fn one_window() -> Vec<ObservedWindow> {
    vec![ObservedWindow {
        hwnd: 5,
        rect: Rect { left: 0, top: 0, right: 10, bottom: 10 },
        class_name: String::from("Notepad"),
        process_name: String::new(),
    }]
}

fn event(event: u32) -> WindowEvent {
    WindowEvent { event, hwnd: 5, is_window: true, is_visible: true, has_parent: false }
}

#[test]
fn the_default_throttle_is_half_a_second() {
    let instance = LibVisInstance::new();
    assert_eq!(instance.state.throttle.period_ms, 500);
    assert!(!instance.state.thread);
    assert!(!instance.state.callback);
    assert!(!instance.state.throttle.pending_timer);
}

#[test]
fn only_one_watcher_runs_at_a_time() {
    let mut instance = watching();
    assert!(!instance.watch_visible_area(1, SendablePtr(1), false));
    assert_eq!(instance.state.throttle.period_ms, 500);
    assert_eq!(instance.state.user_data, SendablePtr(99));
    let _ = instance.stop_watch_visible_area();
    assert!(instance.watch_visible_area(1, SendablePtr(1), false));
    assert_eq!(instance.state.throttle.period_ms, 1);
}

#[test]
fn stopping_ends_everything_that_runs() {
    let mut instance = watching();
    instance.watcher_started(1234);
    instance.computation_completed(0);
    let scheduled = instance.handle_computation_request(MS);
    assert_eq!(scheduled, ComputationAction::Schedule { wait_nanos: 499_000_000 });
    assert_eq!(
        instance.stop_watch_visible_area(),
        StopPlan {
            send_shutdown: true,
            post_quit: Some(1234),
            abort_timer: true,
            abort_main_task: true,
            join_thread: true,
            shut_down_runtime: true,
        }
    );
    assert!(!instance.state.callback);
    assert_eq!(instance.state.user_data, SendablePtr(0));
    assert!(!instance.state.throttle.pending_timer);
}

#[test]
fn stopping_twice_leaves_nothing_but_the_quit_message() {
    let mut instance = watching();
    instance.watcher_started(1234);
    let _ = instance.stop_watch_visible_area();
    assert_eq!(
        instance.deinit(),
        StopPlan {
            send_shutdown: false,
            post_quit: Some(1234),
            abort_timer: false,
            abort_main_task: false,
            join_thread: false,
            shut_down_runtime: false,
        }
    );
    assert_eq!(LibVisInstance::new().deinit().post_quit, None);
}

#[test]
fn a_borrowed_runtime_is_not_shut_down() {
    let mut instance = LibVisInstance::new();
    assert!(instance.watch_visible_area(500, SendablePtr(0), false));
    assert!(!instance.stop_watch_visible_area().shut_down_runtime);
}

#[test]
fn the_hook_is_kept_until_the_thread_ends() {
    let mut instance = watching();
    assert!(!instance.hook_set(None));
    assert_eq!(instance.state.hook, None);
    assert!(instance.hook_set(Some(SendableWinEventHook(42))));
    let plan = instance.watcher_finished();
    assert_eq!(plan, ExitPlan { unhook: Some(SendableWinEventHook(42)), send_shutdown: true });
    assert_eq!(instance.state.hook, None);
    let _ = instance.stop_watch_visible_area();
    assert_eq!(instance.watcher_finished(), ExitPlan { unhook: None, send_shutdown: false });
}

#[test]
fn six_kinds_of_events_count() {
    for kind in [
        EVENT_OBJECT_CREATE,
        EVENT_OBJECT_DESTROY,
        EVENT_OBJECT_SHOW,
        EVENT_OBJECT_HIDE,
        EVENT_OBJECT_REORDER,
        EVENT_OBJECT_LOCATIONCHANGE,
    ] {
        assert!(is_visibility_event(kind));
        assert!(event(kind).relevant());
    }
    for kind in [0, 0x7FFF, 0x8005, 0x800A, 0x800C] {
        assert!(!is_visibility_event(kind));
        assert!(!event(kind).relevant());
    }
}

#[test]
fn events_of_child_and_hidden_windows_do_not_count() {
    let shown = event(EVENT_OBJECT_SHOW);
    let mut instance = watching();
    for ignored in [
        WindowEvent { has_parent: true, ..shown },
        WindowEvent { is_visible: false, ..shown },
        WindowEvent { is_window: false, ..shown },
    ] {
        assert_eq!(instance.win_event_proc(&ignored), None);
        assert!(instance.state.changed_windows.is_empty());
    }
    assert_eq!(instance.win_event_proc(&shown), Some(VisibilityMessage::WindowChanged(5)));
    assert!(instance.state.changed_windows.contains(&5));
}

#[test]
fn a_destroyed_window_is_forgotten() {
    let mut instance = watching();
    let _ = perform_computation(&mut instance, screen(), one_window(), 0);
    assert!(instance.state.window_cache.contains_key(&5));
    let _ = instance.win_event_proc(&event(EVENT_OBJECT_LOCATIONCHANGE));
    assert!(instance.state.window_cache.contains_key(&5));
    let _ = instance.win_event_proc(&event(EVENT_OBJECT_DESTROY));
    assert!(!instance.state.window_cache.contains_key(&5));
    assert!(instance.state.needs_window_update());
}

#[test]
fn a_hidden_window_counts_though_it_is_not_visible() {
    let mut instance = watching();
    let _ = perform_computation(&mut instance, screen(), one_window(), 0);
    let hidden = WindowEvent { is_visible: false, ..event(EVENT_OBJECT_HIDE) };
    assert!(hidden.relevant());
    assert_eq!(instance.win_event_proc(&hidden), Some(VisibilityMessage::WindowChanged(5)));
    assert!(instance.state.changed_windows.contains(&5));
    assert!(instance.state.window_cache.contains_key(&5));
    let report = perform_computation(&mut instance, Vec::new(), Vec::new(), 1);
    assert_eq!(report.result.total_visible, 5_000);
}

#[test]
fn a_destroyed_window_counts_though_it_is_no_window() {
    let mut other = one_window();
    other[0].hwnd = 6;
    let mut windows = one_window();
    windows.append(&mut other);
    let mut instance = watching();
    let _ = perform_computation(&mut instance, screen(), windows, 0);
    let destroyed =
        WindowEvent { is_window: false, is_visible: false, ..event(EVENT_OBJECT_DESTROY) };
    assert!(destroyed.relevant());
    assert_eq!(instance.win_event_proc(&destroyed), Some(VisibilityMessage::WindowChanged(5)));
    assert!(instance.state.changed_windows.contains(&5));
    assert!(!instance.state.window_cache.contains_key(&5));
    assert!(instance.state.window_cache.contains_key(&6));
    let report = perform_computation(&mut instance, Vec::new(), Vec::new(), 1);
    assert_eq!(report.result.total_visible, 5_000);
}

#[test]
fn vanishing_child_windows_and_hidden_non_windows_do_not_count() {
    let mut instance = watching();
    for ignored in [
        WindowEvent { has_parent: true, is_visible: false, ..event(EVENT_OBJECT_HIDE) },
        WindowEvent { is_window: false, is_visible: false, ..event(EVENT_OBJECT_HIDE) },
        WindowEvent { has_parent: true, is_window: false, ..event(EVENT_OBJECT_DESTROY) },
        WindowEvent { is_visible: false, ..event(EVENT_OBJECT_CREATE) },
        WindowEvent { is_visible: false, ..event(EVENT_OBJECT_REORDER) },
        WindowEvent { is_visible: false, ..event(EVENT_OBJECT_LOCATIONCHANGE) },
    ] {
        assert_eq!(instance.win_event_proc(&ignored), None);
        assert!(instance.state.changed_windows.is_empty());
    }
}

#[test]
fn without_a_watcher_an_event_sends_no_message() {
    let mut instance = LibVisInstance::new();
    assert_eq!(instance.win_event_proc(&event(EVENT_OBJECT_SHOW)), None);
    assert!(instance.state.changed_windows.contains(&5));
}

#[test]
fn messages_request_computations_until_shutdown() {
    let mut instance = watching();
    assert_eq!(
        instance.process_message(VisibilityMessage::WindowChanged(8), 0),
        MessageOutcome::Computation(ComputationAction::ComputeNow)
    );
    assert!(instance.state.changed_windows.contains(&8));
    instance.computation_completed(100 * MS);
    assert_eq!(
        instance.process_message(VisibilityMessage::DisplayChanged, 200 * MS),
        MessageOutcome::Computation(ComputationAction::Schedule { wait_nanos: 400_000_000 })
    );
    assert!(instance.state.needs_monitor_update());
    assert_eq!(
        instance.process_message(VisibilityMessage::WindowChanged(9), 300 * MS),
        MessageOutcome::Computation(ComputationAction::AlreadyPending)
    );
    instance.timer_computation_completed(600 * MS);
    assert_eq!(instance.state.throttle.last_computation, Some(600 * MS));
    assert_eq!(
        instance.process_message(VisibilityMessage::Shutdown, 700 * MS),
        MessageOutcome::Stop
    );
}

#[test]
fn a_computation_reports_to_the_callback_and_clears_the_changes() {
    let mut instance = watching();
    let _ = instance.process_message(VisibilityMessage::WindowChanged(5), 0);
    let report = perform_computation(&mut instance, screen(), one_window(), 0);
    assert_eq!(report.notify, Some(SendablePtr(99)));
    assert_eq!(report.result.total_visible, 4_900);
    assert_eq!(report.result.total_area, 5_000);
    assert!(instance.state.changed_windows.is_empty());
    let again = perform_computation(&mut instance, Vec::new(), Vec::new(), 1);
    assert_eq!(again.result.total_visible, 4_900);
}

#[test]
fn a_changed_window_is_measured_anew() {
    let mut instance = watching();
    let _ = perform_computation(&mut instance, screen(), one_window(), 0);
    let _ = instance.win_event_proc(&event(EVENT_OBJECT_LOCATIONCHANGE));
    let mut moved = one_window();
    moved[0].rect = Rect { left: 95, top: 45, right: 105, bottom: 55 };
    let report = perform_computation(&mut instance, Vec::new(), moved, 1);
    assert_eq!(report.result.total_visible, 4_975);
}

#[test]
fn without_a_callback_nobody_is_notified() {
    let mut instance = watching();
    let _ = instance.stop_watch_visible_area();
    let report = perform_computation(&mut instance, screen(), Vec::new(), 0);
    assert_eq!(report.notify, None);
    assert_eq!(report.result.total_visible, 5_000);
}

#[test]
fn the_message_loop_ends_on_quit_and_on_failure() {
    assert_eq!(loop_step(0, WM_DISPLAYCHANGE), LoopStep::Quit);
    assert_eq!(loop_step(-1, 1), LoopStep::Quit);
    assert_eq!(loop_step(1, WM_DISPLAYCHANGE), LoopStep::ReportDisplayChange);
    assert_eq!(loop_step(1, 0x0400), LoopStep::Dispatch);
    assert_eq!(loop_step(-2, WM_DISPLAYCHANGE), LoopStep::ReportDisplayChange);
}
