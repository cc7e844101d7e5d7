use libvisdesk::monitors::{monitors_acceptable, parse_display_number};
use libvisdesk::{enum_monitors_collect_cb, monitor_index_post_process, MonitorInfo, Rect};

fn units(text: &str) -> Vec<u16> {
    text.encode_utf16().collect()
}

fn monitor(id: i64, index: i64) -> MonitorInfo {
    let rect = Rect { left: 0, top: 0, right: 10, bottom: 10 };
    MonitorInfo { id, index, rect, total_area: 100 }
}

fn ids_and_indices(monitors: &[MonitorInfo]) -> Vec<(i64, i64)> {
    monitors.iter().map(|m| (m.id, m.index)).collect()
}

#[test]
fn display_number_is_read_from_the_device_name() {
    assert_eq!(parse_display_number(r"\\.\DISPLAY1"), 1);
    assert_eq!(parse_display_number(r"\\.\DISPLAY42"), 42);
    assert_eq!(parse_display_number("DISPLAY007"), 7);
    assert_eq!(parse_display_number("DISPLAY+3"), 3);
    assert_eq!(parse_display_number("DISPLAY-3"), -3);
}

#[test]
fn the_last_marker_counts() {
    assert_eq!(parse_display_number("DISPLAY1DISPLAY2"), 2);
    assert_eq!(parse_display_number("DISPLAY5DISPLAY"), -1);
    assert_eq!(parse_display_number("DISDISPLAY9"), 9);
}

#[test]
fn names_without_a_number_give_minus_one() {
    assert_eq!(parse_display_number(""), -1);
    assert_eq!(parse_display_number("DISPLAY"), -1);
    assert_eq!(parse_display_number("DISPLAY-"), -1);
    assert_eq!(parse_display_number("DISPLAY+-1"), -1);
    assert_eq!(parse_display_number("DISPLAY1x"), -1);
    assert_eq!(parse_display_number("DISPLAY 1"), -1);
    assert_eq!(parse_display_number("display1"), -1);
    assert_eq!(parse_display_number("MONITOR1"), -1);
}

#[test]
fn numbers_are_read_up_to_the_limits() {
    assert_eq!(parse_display_number("DISPLAY9223372036854775807"), i64::MAX);
    assert_eq!(parse_display_number("DISPLAY9223372036854775808"), -1);
    assert_eq!(parse_display_number("DISPLAY-9223372036854775808"), i64::MIN);
    assert_eq!(parse_display_number("DISPLAY-9223372036854775809"), -1);
    assert_eq!(parse_display_number("DISPLAY000000000000000000000000000000000001"), 1);
}

#[test]
fn a_collected_monitor_has_area_and_number() {
    let mut monitors: Vec<MonitorInfo> = Vec::new();
    let rect = Rect { left: -1920, top: 0, right: 0, bottom: 1080 };
    let mut buffer = units(r"\\.\DISPLAY3");
    buffer.resize(32, 0);
    enum_monitors_collect_cb(&mut monitors, rect, Some(&buffer));
    assert_eq!(monitors, vec![MonitorInfo { id: 3, index: 3, rect, total_area: 2_073_600 }]);
}

#[test]
fn the_device_name_ends_at_the_first_zero() {
    let rect = Rect { left: 0, top: 0, right: 1, bottom: 1 };
    let mut monitors: Vec<MonitorInfo> = Vec::new();
    enum_monitors_collect_cb(&mut monitors, rect, Some(&units("DISPLAY4\u{0}5")));
    enum_monitors_collect_cb(&mut monitors, rect, Some(&units("DISPLAY45")));
    enum_monitors_collect_cb(&mut monitors, rect, Some(&[]));
    enum_monitors_collect_cb(&mut monitors, rect, None);
    let ids: Vec<i64> = monitors.iter().map(|m| m.id).collect();
    assert_eq!(ids, vec![4, 45, -1, -1]);
}

#[test]
fn indices_count_up_in_the_order_of_the_numbers() {
    let mut monitors = vec![monitor(7, 7), monitor(2, 2), monitor(4, 4)];
    monitor_index_post_process(&mut monitors);
    assert_eq!(ids_and_indices(&monitors), vec![(2, 1), (4, 2), (7, 3)]);
}

#[test]
fn monitors_without_a_number_come_last_in_their_order() {
    let mut monitors = vec![
        MonitorInfo { total_area: 1, ..monitor(-1, -1) },
        monitor(5, 5),
        MonitorInfo { total_area: 2, ..monitor(-1, -1) },
        monitor(1, 1),
    ];
    monitor_index_post_process(&mut monitors);
    assert_eq!(ids_and_indices(&monitors), vec![(1, 1), (5, 2), (-1, 3), (-1, 4)]);
    assert_eq!(monitors[2].total_area, 1);
    assert_eq!(monitors[3].total_area, 2);
}

#[test]
fn monitors_with_number_zero_come_first() {
    let mut monitors = vec![monitor(-9, -9), monitor(3, 3), monitor(0, 0)];
    monitor_index_post_process(&mut monitors);
    assert_eq!(ids_and_indices(&monitors), vec![(0, 1), (3, 2), (-9, 3)]);
}

#[test]
fn monitors_without_any_number_are_counted() {
    let mut monitors = vec![monitor(-1, -1), monitor(-2, -2)];
    monitor_index_post_process(&mut monitors);
    assert_eq!(ids_and_indices(&monitors), vec![(-1, 1), (-2, 2)]);
}

#[test]
fn indexing_twice_changes_nothing_more() {
    let mut monitors = vec![monitor(9, 9), monitor(-1, -1), monitor(9, 9), monitor(0, 0)];
    monitor_index_post_process(&mut monitors);
    let once = monitors.clone();
    monitor_index_post_process(&mut monitors);
    assert_eq!(monitors, once);
}

#[test]
fn no_monitors_are_indexed_as_none() {
    let mut monitors: Vec<MonitorInfo> = Vec::new();
    monitor_index_post_process(&mut monitors);
    assert!(monitors.is_empty());
}

#[test]
fn unmeasurable_monitors_are_not_accepted() {
    let huge = Rect { left: 0, top: 0, right: i32::MAX, bottom: i32::MAX };
    let large = MonitorInfo { id: 1, index: 1, rect: huge, total_area: huge.area() };
    assert!(monitors_acceptable(&[monitor(1, 1), monitor(2, 2)]));
    assert!(monitors_acceptable(&[]));
    assert!(monitors_acceptable(&[large, large]));
    assert!(!monitors_acceptable(&[large, large, large]));
    assert!(!monitors_acceptable(&[MonitorInfo { total_area: 99, ..monitor(1, 1) }]));
    let inverted = Rect { left: 10, top: 0, right: 0, bottom: 10 };
    assert!(!monitors_acceptable(&[MonitorInfo { rect: inverted, total_area: -100, ..monitor(1, 1) }]));
    let wide = Rect { left: i32::MIN, top: 0, right: i32::MAX, bottom: 0 };
    assert!(!monitors_acceptable(&[MonitorInfo { rect: wide, total_area: 0, ..monitor(1, 1) }]));
}

#[test]
fn indices_that_cannot_be_continued_are_not_accepted() {
    assert!(!monitors_acceptable(&[monitor(1, i64::MAX)]));
    assert!(monitors_acceptable(&[monitor(1, i64::MAX - 1)]));
    assert!(!monitors_acceptable(&[monitor(1, i64::MAX - 1), monitor(-1, -1)]));
    assert!(monitors_acceptable(&[monitor(1, i64::MAX - 2), monitor(-1, -1)]));
}
