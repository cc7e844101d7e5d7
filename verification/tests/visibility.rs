use libvisdesk::calculator::{measure_desktop, measure_monitor};
use libvisdesk::{
    calculate_visible_desktop_area, Cover, LibVisInstance, MonitorInfo, MonitorVisibleInfo,
    ObservedWindow, Rect, ThreadLocalState,
};

fn rect(left: i32, top: i32, right: i32, bottom: i32) -> Rect {
    Rect { left, top, right, bottom }
}

fn monitor(id: i64, rect: Rect) -> MonitorInfo {
    MonitorInfo { id, index: id, rect, total_area: rect.area() }
}

fn window(hwnd: isize, rect: Rect, class_name: &str) -> ObservedWindow {
    ObservedWindow {
        hwnd,
        rect,
        class_name: String::from(class_name),
        process_name: String::from("a.exe"),
    }
}

fn two_monitors() -> Vec<MonitorInfo> {
    vec![monitor(2, rect(1920, 0, 3840, 1080)), monitor(1, rect(0, 0, 1920, 1080))]
}

fn desktop_windows() -> Vec<ObservedWindow> {
    vec![
        window(10, rect(0, 1040, 1920, 1080), "Shell_TrayWnd"),
        window(11, rect(100, 100, 900, 700), "Notepad"),
        window(12, rect(500, 300, 2020, 800), "Chrome"),
    ]
}

#[test]
fn statistics_of_a_desktop() {
    let (stats, visible, area) =
        LibVisInstance::new().get_visible_area(two_monitors(), desktop_windows());
    assert_eq!(
        stats,
        vec![
            MonitorVisibleInfo {
                monitor_id: 1,
                monitor_index: 1,
                current_visible: 2_073_600 - 76_800 - 480_000 - 710_000 + 160_000,
                max_visible: 2_073_600 - 76_800,
                total_area: 2_073_600,
            },
            MonitorVisibleInfo {
                monitor_id: 2,
                monitor_index: 2,
                current_visible: 2_073_600 - 50_000,
                max_visible: 2_073_600,
                total_area: 2_073_600,
            },
        ]
    );
    assert_eq!(visible, 966_800 + 2_023_600);
    assert_eq!(area, 4_147_200);
}

#[test]
fn a_bare_desktop_is_visible_as_a_whole() {
    let (stats, visible, area) =
        LibVisInstance::default().get_visible_area(two_monitors(), Vec::new());
    assert_eq!(visible, area);
    for info in stats {
        assert_eq!(info.current_visible, info.total_area);
        assert_eq!(info.max_visible, info.total_area);
    }
}

#[test]
fn no_monitors_have_no_area() {
    let (stats, visible, area) =
        LibVisInstance::new().get_visible_area(Vec::new(), desktop_windows());
    assert!(stats.is_empty());
    assert_eq!((visible, area), (0, 0));
}

#[test]
fn a_covered_monitor_is_hidden() {
    let screen = monitor(1, rect(0, 0, 800, 600));
    let covers = vec![Cover { rect: rect(-5, -5, 805, 605), shell: false }];
    let info = measure_monitor(&screen, &covers);
    assert_eq!(info.current_visible, 0);
    assert_eq!(info.max_visible, 480_000);
}

#[test]
fn the_order_of_windows_does_not_matter() {
    let instance = LibVisInstance::new();
    let forward = instance.get_visible_area(two_monitors(), desktop_windows());
    let mut reversed = desktop_windows();
    reversed.reverse();
    assert_eq!(instance.get_visible_area(two_monitors(), reversed), forward);
}

#[test]
fn a_window_that_is_listed_twice_counts_once() {
    let instance = LibVisInstance::new();
    let once = instance.get_visible_area(two_monitors(), desktop_windows());
    let mut repeated = desktop_windows();
    repeated.append(&mut desktop_windows());
    assert_eq!(instance.get_visible_area(two_monitors(), repeated), once);
}

#[test]
fn visible_areas_are_nested_and_shrink_with_more_windows() {
    let screen = monitor(1, rect(-100, -100, 300, 200));
    let mut covers: Vec<Cover> = Vec::new();
    let mut last = measure_monitor(&screen, &covers);
    for i in 0..20 {
        covers.push(Cover {
            rect: rect(i * 17 - 150, i * 11 - 120, i * 17 - 90, i * 11 - 60),
            shell: i % 4 == 0,
        });
        let info = measure_monitor(&screen, &covers);
        assert!(0 <= info.current_visible && info.current_visible <= info.max_visible);
        assert!(info.max_visible <= info.total_area);
        assert!(info.current_visible <= last.current_visible);
        assert!(info.max_visible <= last.max_visible);
        if i % 4 != 0 {
            assert_eq!(info.max_visible, last.max_visible);
        }
        last = info;
    }
}

#[test]
fn a_window_beneath_others_changes_nothing() {
    let screen = monitor(1, rect(0, 0, 100, 100));
    let mut covers = vec![
        Cover { rect: rect(0, 0, 60, 100), shell: true },
        Cover { rect: rect(40, 0, 90, 100), shell: false },
    ];
    let before = measure_monitor(&screen, &covers);
    covers.push(Cover { rect: rect(10, 10, 80, 80), shell: false });
    covers.push(Cover { rect: rect(100, 0, 200, 100), shell: true });
    assert_eq!(measure_monitor(&screen, &covers), before);
    assert_eq!(before.current_visible, 1_000);
    assert_eq!(before.max_visible, 4_000);
}

#[test]
fn totals_add_up() {
    let monitors = vec![monitor(1, rect(0, 0, 10, 10)), monitor(2, rect(5, 5, 25, 25))];
    let covers = vec![Cover { rect: rect(5, 5, 10, 10), shell: false }];
    let result = measure_desktop(&monitors, &covers);
    assert_eq!(result.total_area, 500);
    assert_eq!(result.total_visible, 75 + 375);
}

#[test]
fn an_unchanged_desktop_is_measured_from_memory() {
    let mut state = ThreadLocalState::default();
    assert!(state.needs_monitor_update());
    assert!(state.needs_window_update());
    let first = calculate_visible_desktop_area(&mut state, two_monitors(), desktop_windows(), 5);
    assert!(!state.needs_monitor_update());
    assert!(!state.needs_window_update());
    let again = calculate_visible_desktop_area(&mut state, Vec::new(), Vec::new(), 6);
    assert_eq!(again.per_monitor_stats, first.per_monitor_stats);
    assert_eq!(again.total_visible, first.total_visible);
    assert_eq!(again.total_area, first.total_area);
}

#[test]
fn windows_are_remembered_with_class_process_and_time() {
    let mut state = ThreadLocalState::default();
    let _ = calculate_visible_desktop_area(&mut state, two_monitors(), desktop_windows(), 5);
    assert_eq!(state.window_cache.len(), 3);
    let info = &state.window_cache[&10];
    assert_eq!(info.rect, rect(0, 1040, 1920, 1080));
    assert_eq!(info.class_name, "Shell_TrayWnd");
    assert_eq!(info.process_name, "a.exe");
    assert!(info.is_shell);
    assert_eq!(info.last_updated, 5);
    assert!(!state.window_cache[&11].is_shell);
}

#[test]
fn a_forced_refresh_takes_the_new_monitors() {
    let mut state = ThreadLocalState::default();
    let _ = calculate_visible_desktop_area(&mut state, two_monitors(), desktop_windows(), 0);
    state.force_monitor_refresh = true;
    assert!(state.needs_monitor_update());
    let one = vec![monitor(-1, rect(0, 0, 1920, 1080))];
    let result = calculate_visible_desktop_area(&mut state, one, Vec::new(), 1);
    assert_eq!(result.per_monitor_stats.len(), 1);
    assert_eq!(result.per_monitor_stats[0].monitor_id, -1);
    assert_eq!(result.per_monitor_stats[0].monitor_index, 1);
    assert_eq!(result.per_monitor_stats[0].current_visible, 966_800);
    assert!(!state.force_monitor_refresh);
}
