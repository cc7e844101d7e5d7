//! How much of each monitor the windows leave visible.
use std::collections::HashMap;

use vstd::prelude::*;
use vstd::set_lib::lemma_map_size;
use vstd::std_specs::hash::{group_hash_axioms, spec_values_iter};
use vstd::std_specs::iter::IteratorSpec;

use crate::geometry::Rect;
use crate::monitors::{
    areas, indexed, indices_fit, lemma_added_up, lemma_area_not_negative, lemma_indexed_measurable,
    measurable, monitor_index_post_process, MonitorInfo,
};
use crate::ranking::{lemma_sum_monotone, lemma_sum_prefix, sum};
use crate::region::{compute_region_area, Region};
use crate::types::{MonitorVisibleInfo, ThreadLocalState, VisibleDesktopAreaResult};
use crate::window::{
    is_shell_class, lemma_shell_class, shell_class, ObservedWindow, WindowInfo,
};

verus! {

/// What matters of a window for the visible area: where it is, and whether it belongs to the
/// shell.
#[derive(Clone, Copy, Debug, PartialEq, Eq, Structural)]
pub struct Cover {
    pub rect: Rect,
    pub shell: bool,
}

impl Cover {
    /// What matters of an enumerated window.
    pub open spec fn of(window: ObservedWindow) -> Cover {
        Cover { rect: window.rect, shell: shell_class(window.class_name@) }
    }

    /// What matters of a remembered window.
    pub open spec fn of_info(info: WindowInfo) -> Cover {
        Cover { rect: info.rect, shell: shell_class(info.class_name@) }
    }
}

/// What matters of enumerated windows.
pub open spec fn covers_of(windows: Seq<ObservedWindow>) -> Set<Cover> {
    windows.map_values(|w: ObservedWindow| Cover::of(w)).to_set()
}

/// What matters of remembered windows.
pub open spec fn covers_of_cache(cache: Map<isize, WindowInfo>) -> Set<Cover> {
    cache.values().map(|info: WindowInfo| Cover::of_info(info))
}

/// Whether a window hides the pixel; only windows of the shell count where `shell_only` is set.
pub open spec fn hidden(covers: Set<Cover>, shell_only: bool, p: (int, int)) -> bool {
    exists|c: Cover| #[trigger]
        covers.contains(c) && c.rect.covers(p) && (shell_only ==> c.shell)
}

/// The pixels of a rectangle that no window hides.
pub open spec fn visible_pixels(rect: Rect, covers: Set<Cover>, shell_only: bool) -> Set<
    (int, int),
> {
    Set::new(|p: (int, int)| rect.covers(p) && !hidden(covers, shell_only, p))
}

/// The statistics of a monitor: the pixels that no window hides, those that no window of the
/// shell hides, and all of its pixels.
pub open spec fn describes_monitor(
    info: MonitorVisibleInfo,
    monitor: MonitorInfo,
    covers: Set<Cover>,
) -> bool {
    &&& info.monitor_id == monitor.id
    &&& info.monitor_index == monitor.index
    &&& info.current_visible == visible_pixels(monitor.rect, covers, false).len()
    &&& info.max_visible == visible_pixels(monitor.rect, covers, true).len()
    &&& info.total_area == monitor.total_area
}

/// The visible areas in a list of statistics.
pub open spec fn current_areas(stats: Seq<MonitorVisibleInfo>) -> Seq<int> {
    stats.map_values(|info: MonitorVisibleInfo| info.current_visible as int)
}

/// The statistics of all monitors, in their order, and the totals over them.
pub open spec fn describes_desktop(
    result: VisibleDesktopAreaResult,
    monitors: Seq<MonitorInfo>,
    covers: Set<Cover>,
) -> bool {
    &&& result.per_monitor_stats@.len() == monitors.len()
    &&& forall|i: int|
        0 <= i < monitors.len() ==> describes_monitor(
            #[trigger] result.per_monitor_stats@[i],
            monitors[i],
            covers,
        )
    &&& result.total_visible == sum(current_areas(result.per_monitor_stats@))
    &&& result.total_area == sum(areas(monitors))
}

/// One more window takes its pixels away, unless only windows of the shell count and it is none.
proof fn lemma_visible_push(rect: Rect, covers: Seq<Cover>, cover: Cover, shell_only: bool)
    ensures
        visible_pixels(rect, covers.push(cover).to_set(), shell_only) == (if shell_only
            && !cover.shell {
            visible_pixels(rect, covers.to_set(), shell_only)
        } else {
            visible_pixels(rect, covers.to_set(), shell_only).difference(cover.rect.points())
        }),
{
    let longer = covers.push(cover);
    assert forall|c: Cover| #[trigger] longer.to_set().contains(c) <==> covers.to_set().contains(c)
        || c == cover by {
        if covers.contains(c) {
            let i = choose|i: int| 0 <= i < covers.len() && covers[i] == c;
            assert(longer[i] == c);
        }
        if c == cover {
            assert(longer[covers.len() as int] == c);
        }
    }
    assert forall|p: (int, int)| #[trigger]
        hidden(longer.to_set(), shell_only, p) == (hidden(covers.to_set(), shell_only, p) || (cover.rect.covers(p) && (shell_only ==> cover.shell))) by {
        if hidden(covers.to_set(), shell_only, p) {
            let c = choose|c: Cover| #[trigger]
                covers.to_set().contains(c) && c.rect.covers(p) && (shell_only ==> c.shell);
            assert(longer.to_set().contains(c));
        }
        if cover.rect.covers(p) && (shell_only ==> cover.shell) {
            assert(longer.to_set().contains(cover));
        }
    }
    if shell_only && !cover.shell {
        assert(visible_pixels(rect, longer.to_set(), shell_only) =~= visible_pixels(
            rect,
            covers.to_set(),
            shell_only,
        ));
    } else {
        assert(visible_pixels(rect, longer.to_set(), shell_only) =~= visible_pixels(
            rect,
            covers.to_set(),
            shell_only,
        ).difference(cover.rect.points()));
    }
}

/// Measures how much of a monitor the windows leave visible.
pub fn measure_monitor(monitor: &MonitorInfo, covers: &Vec<Cover>) -> (info: MonitorVisibleInfo)
    requires
        monitor.wf(),
    ensures
        describes_monitor(info, *monitor, covers@.to_set()),
{
    let mut current = Region::from_rect(&monitor.rect);
    let mut max = Region::from_rect(&monitor.rect);
    let mut i: usize = 0;
    proof {
        assert(covers@.take(0).to_set() =~= Set::empty());
        assert(current@ =~= visible_pixels(monitor.rect, Set::empty(), false));
        assert(max@ =~= visible_pixels(monitor.rect, Set::empty(), true));
    }
    while i < covers.len()
        invariant
            i <= covers.len(),
            current.wf(),
            max.wf(),
            current@ == visible_pixels(monitor.rect, covers@.take(i as int).to_set(), false),
            max@ == visible_pixels(monitor.rect, covers@.take(i as int).to_set(), true),
        decreases covers.len() - i,
    {
        let cover = covers[i];
        let ghost current_before = current@;
        let ghost max_before = max@;
        if let Some(common) = cover.rect.intersect(&monitor.rect) {
            current.subtract(&common);
            if cover.shell {
                max.subtract(&common);
            }
        }
        proof {
            let before = covers@.take(i as int);
            assert(covers@.take(i + 1) =~= before.push(cover));
            lemma_visible_push(monitor.rect, before, cover, false);
            lemma_visible_push(monitor.rect, before, cover, true);
            assert(current@ =~= current_before.difference(cover.rect.points()));
            if cover.shell {
                assert(max@ =~= max_before.difference(cover.rect.points()));
            }
        }
        i = i + 1;
    }
    assert(covers@.take(i as int) =~= covers@);
    let current_visible = compute_region_area(&current);
    let max_visible = compute_region_area(&max);
    MonitorVisibleInfo {
        monitor_id: monitor.id,
        monitor_index: monitor.index,
        current_visible,
        max_visible,
        total_area: monitor.total_area,
    }
}

/// Hiding pixels of a rectangle leaves at most all of them, and windows of the shell hide at
/// most as much as all windows do.
pub proof fn lemma_visible_bounds(rect: Rect, covers: Set<Cover>)
    requires
        rect.ordered(),
    ensures
        visible_pixels(rect, covers, false).finite(),
        visible_pixels(rect, covers, true).finite(),
        visible_pixels(rect, covers, false).len() <= visible_pixels(rect, covers, true).len(),
        visible_pixels(rect, covers, true).len() <= rect.signed_area(),
{
    let current = visible_pixels(rect, covers, false);
    let max = visible_pixels(rect, covers, true);
    rect.lemma_points_len();
    assert(max.subset_of(rect.points()));
    vstd::set_lib::lemma_len_subset(max, rect.points());
    assert forall|p: (int, int)| current.contains(p) implies max.contains(p) by {
        assert(!hidden(covers, false, p));
        assert(!hidden(covers, true, p));
    }
    vstd::set_lib::lemma_len_subset(current, max);
}

/// Measures how much of the desktop the windows leave visible.
pub fn measure_desktop(monitors: &Vec<MonitorInfo>, covers: &Vec<Cover>) -> (result:
    VisibleDesktopAreaResult)
    requires
        measurable(monitors@),
    ensures
        describes_desktop(result, monitors@, covers@.to_set()),
{
    let mut per_monitor_stats: Vec<MonitorVisibleInfo> = Vec::new();
    let mut total_visible: i64 = 0;
    let mut total_area: i64 = 0;
    let mut i: usize = 0;
    proof {
        assert forall|k: int| 0 <= k < monitors@.len() implies 0 <= #[trigger] areas(
            monitors@,
        )[k] by {
            lemma_area_not_negative(monitors@[k]);
        }
    }
    while i < monitors.len()
        invariant
            i <= monitors.len(),
            measurable(monitors@),
            forall|k: int| 0 <= k < monitors@.len() ==> 0 <= #[trigger] areas(monitors@)[k],
            per_monitor_stats@.len() == i,
            forall|k: int|
                0 <= k < i ==> describes_monitor(
                    #[trigger] per_monitor_stats@[k],
                    monitors@[k],
                    covers@.to_set(),
                ),
            0 <= total_visible <= total_area,
            total_visible == sum(current_areas(per_monitor_stats@)),
            total_area == sum(areas(monitors@).take(i as int)),
        decreases monitors.len() - i,
    {
        let info = measure_monitor(&monitors[i], covers);
        let ghost stats_before = per_monitor_stats@;
        proof {
            lemma_visible_bounds(monitors@[i as int].rect, covers@.to_set());
            lemma_sum_prefix(areas(monitors@), i + 1);
            assert(areas(monitors@).take(i + 1).drop_last() =~= areas(monitors@).take(i as int));
        }
        total_visible = total_visible + info.current_visible;
        total_area = total_area + monitors[i].total_area;
        per_monitor_stats.push(info);
        proof {
            assert(current_areas(per_monitor_stats@).drop_last() =~= current_areas(stats_before));
        }
        i = i + 1;
    }
    assert(areas(monitors@).take(i as int) =~= areas(monitors@));
    VisibleDesktopAreaResult { per_monitor_stats, total_visible, total_area }
}

/// What matters of enumerated windows.
fn list_covers(windows: &Vec<ObservedWindow>) -> (covers: Vec<Cover>)
    ensures
        covers@.to_set() == covers_of(windows@),
{
    let mut covers: Vec<Cover> = Vec::new();
    let mut i: usize = 0;
    while i < windows.len()
        invariant
            i <= windows.len(),
            covers@ == windows@.take(i as int).map_values(|w: ObservedWindow| Cover::of(w)),
        decreases windows.len() - i,
    {
        let window = &windows[i];
        covers.push(
            Cover { rect: window.rect, shell: is_shell_class(window.class_name.as_str()) },
        );
        assert(covers@ =~= windows@.take(i + 1).map_values(|w: ObservedWindow| Cover::of(w)));
        i = i + 1;
    }
    assert(windows@.take(i as int) =~= windows@);
    covers
}

/// What matters of remembered windows.
fn list_cached_covers(cache: &HashMap<isize, WindowInfo>) -> (covers: Vec<Cover>)
    ensures
        covers@.to_set() == covers_of_cache(cache@),
{
    broadcast use group_hash_axioms;

    let mut covers: Vec<Cover> = Vec::new();
    let ghost listed = spec_values_iter(cache).remaining();
    for info in it: cache.values()
        invariant
            it.seq() == listed,
            covers@.len() == it.index(),
            forall|k: int|
                0 <= k < it.index() ==> #[trigger] covers@[k] == Cover::of_info(*listed[k]),
    {
        covers.push(Cover { rect: info.rect, shell: is_shell_class(info.class_name.as_str()) });
    }
    proof {
        let f = |info: WindowInfo| Cover::of_info(info);
        assert forall|c: Cover| #[trigger] covers@.to_set().contains(c) implies covers_of_cache(
            cache@,
        ).contains(c) by {
            let k = choose|k: int| 0 <= k < covers@.len() && covers@[k] == c;
            assert(listed.unref()[k] == *listed[k]);
            assert(listed.unref().to_set().contains(*listed[k]));
            assert(f(*listed[k]) == c);
        }
        assert forall|c: Cover| #[trigger]
            covers_of_cache(cache@).contains(c) implies covers@.to_set().contains(c) by {
            let info = choose|info: WindowInfo| cache@.values().contains(info) && f(info) == c;
            assert(listed.unref().to_set().contains(info));
            let k = choose|k: int| 0 <= k < listed.unref().len() && listed.unref()[k] == info;
            assert(covers@[k] == c);
        }
        assert(covers@.to_set() =~= covers_of_cache(cache@));
    }
    covers
}

/// The windows by handle, as they are remembered when they are seen at the time `now`. Where a
/// handle occurs twice, the later window counts.
pub open spec fn remembered(windows: Seq<ObservedWindow>, now: u64) -> Map<isize, WindowInfo>
    decreases windows.len(),
{
    if windows.len() == 0 {
        Map::empty()
    } else {
        remembered(windows.drop_last(), now).insert(
            windows.last().hwnd,
            WindowInfo::of(windows.last(), now),
        )
    }
}

/// Remembers the windows that were seen at the time `now`, and forgets all others.
fn remember(cache: &mut HashMap<isize, WindowInfo>, windows: &Vec<ObservedWindow>, now: u64)
    ensures
        final(cache)@ == remembered(windows@, now),
{
    broadcast use group_hash_axioms;

    cache.clear();
    let mut i: usize = 0;
    while i < windows.len()
        invariant
            i <= windows.len(),
            cache@ == remembered(windows@.take(i as int), now),
        decreases windows.len() - i,
    {
        proof {
            assert(windows@.take(i + 1).drop_last() =~= windows@.take(i as int));
        }
        let window = &windows[i];
        cache.insert(window.hwnd, WindowInfo::observed(window, now));
        i = i + 1;
    }
    assert(windows@.take(i as int) =~= windows@);
}

impl ThreadLocalState {
    /// Whether the monitors have to be enumerated for the next computation.
    pub open spec fn monitors_outdated(self) -> bool {
        self.monitor_cache@.len() == 0 || self.force_monitor_refresh
    }

    /// Whether the windows have to be enumerated for the next computation.
    pub open spec fn windows_outdated(self) -> bool {
        self.window_cache@.is_empty() || !self.changed_windows@.is_empty()
    }

    /// The monitors that the next computation measures, where enumerating them gives `found`.
    pub open spec fn monitors_in_use(self, found: Seq<MonitorInfo>) -> Seq<MonitorInfo> {
        if self.monitors_outdated() {
            indexed(found)
        } else {
            self.monitor_cache@
        }
    }

    /// What matters of the windows that the next computation takes into account, where
    /// enumerating them gives `found`.
    pub open spec fn covers_in_use(self, found: Seq<ObservedWindow>) -> Set<Cover> {
        if self.windows_outdated() {
            covers_of(found)
        } else {
            covers_of_cache(self.window_cache@)
        }
    }

    /// The windows that are remembered after the next computation, where enumerating them at the
    /// time `now` gives `found`.
    pub open spec fn windows_kept(self, found: Seq<ObservedWindow>, now: u64) -> Map<
        isize,
        WindowInfo,
    > {
        if self.windows_outdated() {
            remembered(found, now)
        } else {
            self.window_cache@
        }
    }

    /// Whether the monitors have to be enumerated for the next computation.
    pub fn needs_monitor_update(&self) -> (yes: bool)
        ensures
            yes == self.monitors_outdated(),
    {
        self.monitor_cache.len() == 0 || self.force_monitor_refresh
    }

    /// Whether the windows have to be enumerated for the next computation.
    pub fn needs_window_update(&self) -> (yes: bool)
        ensures
            yes == self.windows_outdated(),
    {
        self.window_cache.is_empty() || !self.changed_windows.is_empty()
    }
}

/// Measures the visible area of the desktop. `monitors` and `windows` are what was enumerated at
/// the time `now`; where they did not have to be, the remembered ones are used.
pub fn calculate_visible_desktop_area(
    state: &mut ThreadLocalState,
    monitors: Vec<MonitorInfo>,
    windows: Vec<ObservedWindow>,
    now: u64,
) -> (result: VisibleDesktopAreaResult)
    requires
        old(state).wf(),
        old(state).monitors_outdated() ==> measurable(monitors@) && indices_fit(monitors@),
    ensures
        final(state).wf(),
        final(state).monitor_cache@ == old(state).monitors_in_use(monitors@),
        final(state).window_cache@ == old(state).windows_kept(windows@, now),
        *final(state) == (ThreadLocalState {
            monitor_cache: final(state).monitor_cache,
            window_cache: final(state).window_cache,
            force_monitor_refresh: false,
            ..*old(state)
        }),
        describes_desktop(
            result,
            old(state).monitors_in_use(monitors@),
            old(state).covers_in_use(windows@),
        ),
{
    if state.needs_monitor_update() {
        let mut found = monitors;
        proof {
            lemma_indexed_measurable(found@);
        }
        monitor_index_post_process(found.as_mut_slice());
        state.monitor_cache = found;
        state.force_monitor_refresh = false;
    }
    let covers = if state.needs_window_update() {
        remember(&mut state.window_cache, &windows, now);
        list_covers(&windows)
    } else {
        list_cached_covers(&state.window_cache)
    };
    measure_desktop(&state.monitor_cache, &covers)
}

/// Of each monitor at most as much is visible as without all windows but the shell's, and that is
/// at most the whole monitor.
pub proof fn law_areas_are_nested(
    info: MonitorVisibleInfo,
    monitor: MonitorInfo,
    covers: Set<Cover>,
)
    requires
        monitor.wf(),
        describes_monitor(info, monitor, covers),
    ensures
        0 <= info.current_visible <= info.max_visible <= info.total_area,
{
    lemma_visible_bounds(monitor.rect, covers);
}

/// Over all monitors at most the whole area is visible.
pub proof fn law_totals_are_nested(
    result: VisibleDesktopAreaResult,
    monitors: Seq<MonitorInfo>,
    covers: Set<Cover>,
)
    requires
        measurable(monitors),
        describes_desktop(result, monitors, covers),
    ensures
        0 <= result.total_visible <= result.total_area,
{
    let visible = current_areas(result.per_monitor_stats@);
    let whole = areas(monitors);
    assert forall|i: int| 0 <= i < visible.len() implies 0 <= #[trigger] visible[i]
        <= #[trigger] whole[i] by {
        law_areas_are_nested(result.per_monitor_stats@[i], monitors[i], covers);
    }
    lemma_sum_monotone(visible, whole);
    lemma_sum_prefix(visible, 0);
}

/// The monitors and windows determine the result.
pub proof fn law_result_is_determined(
    a: VisibleDesktopAreaResult,
    b: VisibleDesktopAreaResult,
    monitors: Seq<MonitorInfo>,
    covers: Set<Cover>,
)
    requires
        describes_desktop(a, monitors, covers),
        describes_desktop(b, monitors, covers),
    ensures
        a.per_monitor_stats@ == b.per_monitor_stats@,
        a.total_visible == b.total_visible,
        a.total_area == b.total_area,
{
    assert forall|i: int| 0 <= i < monitors.len() implies #[trigger] a.per_monitor_stats@[i]
        == b.per_monitor_stats@[i] by {
        assert(describes_monitor(a.per_monitor_stats@[i], monitors[i], covers));
        assert(describes_monitor(b.per_monitor_stats@[i], monitors[i], covers));
    }
    assert(a.per_monitor_stats@ =~= b.per_monitor_stats@);
}

/// Neither the order in which windows are enumerated matters nor how often one of them is.
pub proof fn law_window_order_does_not_matter(
    monitors: Seq<MonitorInfo>,
    a_windows: Seq<ObservedWindow>,
    b_windows: Seq<ObservedWindow>,
    a: VisibleDesktopAreaResult,
    b: VisibleDesktopAreaResult,
)
    requires
        a_windows.to_set() == b_windows.to_set(),
        describes_desktop(a, monitors, covers_of(a_windows)),
        describes_desktop(b, monitors, covers_of(b_windows)),
    ensures
        a.per_monitor_stats@ == b.per_monitor_stats@,
        a.total_visible == b.total_visible,
        a.total_area == b.total_area,
{
    lemma_covers_of_subset(a_windows, b_windows);
    lemma_covers_of_subset(b_windows, a_windows);
    assert(covers_of(a_windows) =~= covers_of(b_windows));
    law_result_is_determined(a, b, monitors, covers_of(a_windows));
}

/// Windows that are all among others cover no more than those do.
proof fn lemma_covers_of_subset(a: Seq<ObservedWindow>, b: Seq<ObservedWindow>)
    requires
        a.to_set().subset_of(b.to_set()),
    ensures
        covers_of(a).subset_of(covers_of(b)),
{
    let listed_a = a.map_values(|w: ObservedWindow| Cover::of(w));
    let listed_b = b.map_values(|w: ObservedWindow| Cover::of(w));
    assert forall|c: Cover| covers_of(a).contains(c) implies covers_of(b).contains(c) by {
        let i = choose|i: int| 0 <= i < listed_a.len() && listed_a[i] == c;
        assert(a.to_set().contains(a[i]));
        assert(b.to_set().contains(a[i]));
        let j = choose|j: int| 0 <= j < b.len() && b[j] == a[i];
        assert(listed_b[j] == c);
    }
}

/// Windows hide at least what some of them hide.
proof fn lemma_more_windows(rect: Rect, fewer: Set<Cover>, more: Set<Cover>, shell_only: bool)
    requires
        rect.ordered(),
        fewer.subset_of(more),
    ensures
        visible_pixels(rect, more, shell_only).len() <= visible_pixels(
            rect,
            fewer,
            shell_only,
        ).len(),
{
    let left = visible_pixels(rect, more, shell_only);
    let was = visible_pixels(rect, fewer, shell_only);
    assert forall|p: (int, int)| left.contains(p) implies was.contains(p) by {
        if hidden(fewer, shell_only, p) {
            let c = choose|c: Cover| #[trigger]
                fewer.contains(c) && c.rect.covers(p) && (shell_only ==> c.shell);
            assert(more.contains(c));
        }
    }
    lemma_visible_bounds(rect, fewer);
    vstd::set_lib::lemma_len_subset(left, was);
}

/// With more windows at most as much of a monitor is visible as with fewer.
pub proof fn law_more_windows_hide_more(
    monitor: MonitorInfo,
    fewer: Set<Cover>,
    more: Set<Cover>,
    with_fewer: MonitorVisibleInfo,
    with_more: MonitorVisibleInfo,
)
    requires
        monitor.wf(),
        fewer.subset_of(more),
        describes_monitor(with_fewer, monitor, fewer),
        describes_monitor(with_more, monitor, more),
    ensures
        with_more.current_visible <= with_fewer.current_visible,
        with_more.max_visible <= with_fewer.max_visible,
{
    lemma_more_windows(monitor.rect, fewer, more, false);
    lemma_more_windows(monitor.rect, fewer, more, true);
}

/// One more window leaves the visible pixels of a rectangle as they are where those that count
/// hide every pixel that it shares with the rectangle already.
proof fn lemma_hidden_window(rect: Rect, covers: Set<Cover>, window: Cover, shell_only: bool)
    requires
        forall|p: (int, int)|
            rect.covers(p) && window.rect.covers(p) ==> #[trigger] hidden(covers, shell_only, p),
    ensures
        visible_pixels(rect, covers.insert(window), shell_only) == visible_pixels(
            rect,
            covers,
            shell_only,
        ),
{
    let all = covers.insert(window);
    assert forall|p: (int, int)| rect.covers(p) implies hidden(all, shell_only, p) == hidden(
        covers,
        shell_only,
        p,
    ) by {
        if hidden(covers, shell_only, p) {
            let c = choose|c: Cover| #[trigger]
                covers.contains(c) && c.rect.covers(p) && (shell_only ==> c.shell);
            assert(all.contains(c));
        }
        if hidden(all, shell_only, p) {
            let c = choose|c: Cover| #[trigger]
                all.contains(c) && c.rect.covers(p) && (shell_only ==> c.shell);
            assert(c != window ==> covers.contains(c));
        }
    }
    assert(visible_pixels(rect, all, shell_only) =~= visible_pixels(rect, covers, shell_only));
}

/// A window changes nothing of what is visible of a monitor where other windows hide every pixel
/// of it on the monitor already. That holds of a window beneath others as well as of one that is
/// not on the monitor. The largest visible area stays too where windows of the shell hide every
/// such pixel, and so where the window is not on the monitor.
pub proof fn law_hidden_window_changes_nothing(
    monitor: MonitorInfo,
    covers: Set<Cover>,
    window: Cover,
    without: MonitorVisibleInfo,
    with: MonitorVisibleInfo,
)
    requires
        forall|p: (int, int)|
            monitor.rect.covers(p) && window.rect.covers(p) ==> #[trigger] hidden(
                covers,
                false,
                p,
            ),
        describes_monitor(without, monitor, covers),
        describes_monitor(with, monitor, covers.insert(window)),
    ensures
        with.current_visible == without.current_visible,
        (forall|p: (int, int)|
            monitor.rect.covers(p) && window.rect.covers(p) ==> #[trigger] hidden(covers, true, p))
            ==> with.max_visible == without.max_visible,
        monitor.rect.points().disjoint(window.rect.points()) ==> with.max_visible
            == without.max_visible,
{
    lemma_hidden_window(monitor.rect, covers, window, false);
    if monitor.rect.points().disjoint(window.rect.points()) {
        assert forall|p: (int, int)|
            monitor.rect.covers(p) && window.rect.covers(p) implies #[trigger] hidden(
            covers,
            true,
            p,
        ) by {
            assert(monitor.rect.points().contains(p) && window.rect.points().contains(p));
        }
    }
    if forall|p: (int, int)|
        monitor.rect.covers(p) && window.rect.covers(p) ==> #[trigger] hidden(covers, true, p) {
        lemma_hidden_window(monitor.rect, covers, window, true);
    }
}

/// Windows that do not belong to the shell leave the largest visible area as it is.
pub proof fn law_only_the_shell_limits_the_maximum(
    monitor: MonitorInfo,
    covers: Set<Cover>,
    window: Cover,
    without: MonitorVisibleInfo,
    with: MonitorVisibleInfo,
)
    requires
        !window.shell,
        describes_monitor(without, monitor, covers),
        describes_monitor(with, monitor, covers.insert(window)),
    ensures
        with.max_visible == without.max_visible,
{
    let all = covers.insert(window);
    assert forall|p: (int, int)| #[trigger] hidden(all, true, p) == hidden(covers, true, p) by {
        if hidden(covers, true, p) {
            let c = choose|c: Cover| #[trigger]
                covers.contains(c) && c.rect.covers(p) && (true ==> c.shell);
            assert(all.contains(c));
        }
    }
    assert(visible_pixels(monitor.rect, all, true) =~= visible_pixels(
        monitor.rect,
        covers,
        true,
    ));
}

/// A monitor without windows is visible as a whole.
pub proof fn law_bare_monitor_is_visible(info: MonitorVisibleInfo, monitor: MonitorInfo)
    requires
        monitor.wf(),
        describes_monitor(info, monitor, Set::empty()),
    ensures
        info.current_visible == info.total_area,
        info.max_visible == info.total_area,
{
    monitor.rect.lemma_points_len();
    assert(visible_pixels(monitor.rect, Set::empty(), false) =~= monitor.rect.points());
    assert(visible_pixels(monitor.rect, Set::empty(), true) =~= monitor.rect.points());
}

/// Nothing is visible of a monitor that one window covers as a whole.
pub proof fn law_covered_monitor_is_hidden(
    info: MonitorVisibleInfo,
    monitor: MonitorInfo,
    covers: Set<Cover>,
    window: Cover,
)
    requires
        describes_monitor(info, monitor, covers),
        covers.contains(window),
        monitor.rect.points().subset_of(window.rect.points()),
    ensures
        info.current_visible == 0,
{
    assert forall|p: (int, int)| !visible_pixels(monitor.rect, covers, false).contains(p) by {
        if monitor.rect.covers(p) {
            assert(monitor.rect.points().contains(p));
            assert(window.rect.points().contains(p));
            assert(covers.contains(window));
        }
    }
    assert(visible_pixels(monitor.rect, covers, false) =~= Set::empty());
}

/// No handle occurs twice.
pub open spec fn distinct_handles(windows: Seq<ObservedWindow>) -> bool {
    forall|i: int, j: int|
        0 <= i < j < windows.len() ==> (#[trigger] windows[i]).hwnd != (#[trigger] windows[j]).hwnd
}

proof fn lemma_remembered(windows: Seq<ObservedWindow>, now: u64)
    requires
        distinct_handles(windows),
    ensures
        forall|i: int|
            0 <= i < windows.len() ==> remembered(windows, now).contains_key(
                (#[trigger] windows[i]).hwnd,
            ) && remembered(windows, now)[windows[i].hwnd] == WindowInfo::of(windows[i], now),
        forall|h: isize| #[trigger]
            remembered(windows, now).contains_key(h) ==> exists|i: int|
                0 <= i < windows.len() && (#[trigger] windows[i]).hwnd == h,
    decreases windows.len(),
{
    if windows.len() > 0 {
        let front = windows.drop_last();
        lemma_remembered(front, now);
        assert forall|i: int| 0 <= i < windows.len() implies remembered(windows, now).contains_key(
            (#[trigger] windows[i]).hwnd,
        ) && remembered(windows, now)[windows[i].hwnd] == WindowInfo::of(windows[i], now) by {
            if i < front.len() {
                assert(front[i] == windows[i]);
                assert(windows[i].hwnd != windows[windows.len() - 1].hwnd);
            }
        }
        assert forall|h: isize| #[trigger] remembered(windows, now).contains_key(h) implies exists|
            i: int,
        | 0 <= i < windows.len() && (#[trigger] windows[i]).hwnd == h by {
            if h == windows.last().hwnd {
                assert(windows[windows.len() - 1].hwnd == h);
            } else {
                assert(remembered(front, now).contains_key(h));
                let i = choose|i: int| 0 <= i < front.len() && (#[trigger] front[i]).hwnd == h;
                assert(windows[i].hwnd == h);
            }
        }
    }
}

/// Remembered windows cover what they covered when they were enumerated.
pub proof fn law_remembered_windows_cover_the_same(windows: Seq<ObservedWindow>, now: u64)
    requires
        distinct_handles(windows),
    ensures
        covers_of_cache(remembered(windows, now)) == covers_of(windows),
{
    let cache = remembered(windows, now);
    let listed = windows.map_values(|w: ObservedWindow| Cover::of(w));
    let f = |info: WindowInfo| Cover::of_info(info);
    lemma_remembered(windows, now);
    assert forall|c: Cover| #[trigger] covers_of(windows).contains(c) implies covers_of_cache(
        cache,
    ).contains(c) by {
        let i = choose|i: int| 0 <= i < listed.len() && listed[i] == c;
        assert(cache.contains_key(windows[i].hwnd));
        let info = cache[windows[i].hwnd];
        assert(cache.contains_value(info));
        assert(cache.values().contains(info));
        assert(f(info) == c);
    }
    assert forall|c: Cover| #[trigger] covers_of_cache(cache).contains(c) implies covers_of(
        windows,
    ).contains(c) by {
        let info = choose|info: WindowInfo| cache.values().contains(info) && f(info) == c;
        let h = choose|h: isize| #[trigger] cache.contains_key(h) && cache[h] == info;
        let i = choose|i: int| 0 <= i < windows.len() && (#[trigger] windows[i]).hwnd == h;
        assert(listed[i] == c);
    }
    assert(covers_of_cache(cache) =~= covers_of(windows));
}

/// A computation on which nothing was reported since the last one measures the same monitors and
/// the same windows, whatever is handed to it as enumerated: `after` is the state that a
/// computation leaves of `before`, where it found monitors and windows to remember.
pub proof fn law_unchanged_desktop_measures_the_same(
    before: ThreadLocalState,
    after: ThreadLocalState,
    monitors: Seq<MonitorInfo>,
    windows: Seq<ObservedWindow>,
    now: u64,
    other_monitors: Seq<MonitorInfo>,
    other_windows: Seq<ObservedWindow>,
)
    requires
        before.windows_outdated() ==> distinct_handles(windows),
        after.monitor_cache@ == before.monitors_in_use(monitors),
        after.window_cache@ == before.windows_kept(windows, now),
        after.changed_windows@ == Set::<isize>::empty(),
        !after.force_monitor_refresh,
        after.monitor_cache@.len() > 0,
        !after.window_cache@.is_empty(),
    ensures
        !after.monitors_outdated(),
        !after.windows_outdated(),
        after.monitors_in_use(other_monitors) == before.monitors_in_use(monitors),
        after.covers_in_use(other_windows) == before.covers_in_use(windows),
{
    if before.windows_outdated() {
        law_remembered_windows_cover_the_same(windows, now);
    }
}

/// A window change that was reported is measured: as long as one is noted, a computation takes
/// the windows into account that are enumerated for it.
pub proof fn law_reported_window_change_is_measured(
    state: ThreadLocalState,
    hwnd: isize,
    found: Seq<ObservedWindow>,
)
    requires
        state.changed_windows@.contains(hwnd),
    ensures
        state.windows_outdated(),
        state.covers_in_use(found) == covers_of(found),
{
}

/// A display change that was reported is measured: as long as one is noted, a computation
/// measures the monitors that are enumerated for it.
pub proof fn law_reported_display_change_is_measured(
    state: ThreadLocalState,
    found: Seq<MonitorInfo>,
)
    requires
        state.force_monitor_refresh,
    ensures
        state.monitors_outdated(),
        state.monitors_in_use(found) == indexed(found),
{
}

/// The pixels that no window covers are the visible ones, and those that no window whose class
/// begins with `Shell_` covers are the ones that can be visible at most.
proof fn lemma_free_of_windows(
    rect: Rect,
    windows: Seq<ObservedWindow>,
    free: Set<(int, int)>,
    free_of_shell: Set<(int, int)>,
)
    requires
        forall|x: int, y: int| #[trigger]
            free.contains((x, y)) <==> {
                &&& rect.left <= x < rect.right
                &&& rect.top <= y < rect.bottom
                &&& !(exists|j: int|
                        0 <= j < windows.len() && (#[trigger] windows[j]).rect.left <= x && x
                            < windows[j].rect.right && windows[j].rect.top <= y && y
                            < windows[j].rect.bottom)
            },
        forall|x: int, y: int| #[trigger]
            free_of_shell.contains((x, y)) <==> {
                &&& rect.left <= x < rect.right
                &&& rect.top <= y < rect.bottom
                &&& !(exists|j: int|
                        0 <= j < windows.len() && (#[trigger] windows[j]).rect.left <= x && x
                            < windows[j].rect.right && windows[j].rect.top <= y && y
                            < windows[j].rect.bottom && windows[j].class_name@.len() >= 6
                            && windows[j].class_name@.take(6) == seq!['S', 'h', 'e', 'l', 'l', '_'])
            },
    ensures
        free == visible_pixels(rect, covers_of(windows), false),
        free_of_shell == visible_pixels(rect, covers_of(windows), true),
{
    let covers = covers_of(windows);
    let listed = windows.map_values(|w: ObservedWindow| Cover::of(w));
    assert forall|p: (int, int)| free.contains(p) <==> visible_pixels(
        rect,
        covers,
        false,
    ).contains(p) by {
        assert(p == (p.0, p.1));
        assert(free.contains((p.0, p.1)) <==> free.contains(p));
        if hidden(covers, false, p) {
            let c = choose|c: Cover| #[trigger]
                covers.contains(c) && c.rect.covers(p) && (false ==> c.shell);
            let j = choose|j: int| 0 <= j < listed.len() && listed[j] == c;
            assert(windows[j].rect == c.rect);
        }
        if exists|j: int| 0 <= j < windows.len() && (#[trigger] windows[j]).rect.covers(p) {
            let j = choose|j: int| 0 <= j < windows.len() && (#[trigger] windows[j]).rect.covers(p);
            assert(listed[j] == Cover::of(windows[j]));
            assert(covers.contains(Cover::of(windows[j])));
        }
    }
    assert forall|p: (int, int)| free_of_shell.contains(p) <==> visible_pixels(
        rect,
        covers,
        true,
    ).contains(p) by {
        assert(p == (p.0, p.1));
        assert(free_of_shell.contains((p.0, p.1)) <==> free_of_shell.contains(p));
        if hidden(covers, true, p) {
            let c = choose|c: Cover| #[trigger]
                covers.contains(c) && c.rect.covers(p) && (true ==> c.shell);
            let j = choose|j: int| 0 <= j < listed.len() && listed[j] == c;
            assert(windows[j].rect == c.rect);
            lemma_shell_class(windows[j].class_name@);
        }
        if exists|j: int|
            0 <= j < windows.len() && (#[trigger] windows[j]).rect.covers(p)
                && windows[j].class_name@.len() >= 6
                && windows[j].class_name@.take(6) == seq!['S', 'h', 'e', 'l', 'l', '_'] {
            let j = choose|j: int|
                0 <= j < windows.len() && (#[trigger] windows[j]).rect.covers(p)
                    && windows[j].class_name@.len() >= 6
                    && windows[j].class_name@.take(6) == seq!['S', 'h', 'e', 'l', 'l', '_'];
            lemma_shell_class(windows[j].class_name@);
            assert(listed[j] == Cover::of(windows[j]));
            assert(covers.contains(Cover::of(windows[j])));
        }
    }
    assert(free =~= visible_pixels(rect, covers, false));
    assert(free_of_shell =~= visible_pixels(rect, covers, true));
}

/// The same of windows that are remembered.
proof fn lemma_free_of_remembered(
    rect: Rect,
    cache: Map<isize, WindowInfo>,
    free: Set<(int, int)>,
    free_of_shell: Set<(int, int)>,
)
    requires
        forall|x: int, y: int| #[trigger]
            free.contains((x, y)) <==> {
                &&& rect.left <= x < rect.right
                &&& rect.top <= y < rect.bottom
                &&& !(exists|h: isize| #[trigger]
                        cache.contains_key(h) && cache[h].rect.left <= x && x
                            < cache[h].rect.right && cache[h].rect.top <= y && y
                            < cache[h].rect.bottom)
            },
        forall|x: int, y: int| #[trigger]
            free_of_shell.contains((x, y)) <==> {
                &&& rect.left <= x < rect.right
                &&& rect.top <= y < rect.bottom
                &&& !(exists|h: isize| #[trigger]
                        cache.contains_key(h) && cache[h].rect.left <= x && x
                            < cache[h].rect.right && cache[h].rect.top <= y && y
                            < cache[h].rect.bottom && cache[h].class_name@.len() >= 6
                            && cache[h].class_name@.take(6) == seq!['S', 'h', 'e', 'l', 'l', '_'])
            },
    ensures
        free == visible_pixels(rect, covers_of_cache(cache), false),
        free_of_shell == visible_pixels(rect, covers_of_cache(cache), true),
{
    let covers = covers_of_cache(cache);
    let f = |info: WindowInfo| Cover::of_info(info);
    assert forall|h: isize| #[trigger] cache.contains_key(h) implies covers.contains(
        Cover::of_info(cache[h]),
    ) by {
        assert(cache.contains_value(cache[h]));
        assert(cache.values().contains(cache[h]));
        assert(f(cache[h]) == Cover::of_info(cache[h]));
    }
    assert forall|p: (int, int)| free.contains(p) <==> visible_pixels(
        rect,
        covers,
        false,
    ).contains(p) by {
        assert(p == (p.0, p.1));
        assert(free.contains((p.0, p.1)) <==> free.contains(p));
        if hidden(covers, false, p) {
            let c = choose|c: Cover| #[trigger]
                covers.contains(c) && c.rect.covers(p) && (false ==> c.shell);
            let info = choose|info: WindowInfo| cache.values().contains(info) && f(info) == c;
            let h = choose|h: isize| #[trigger] cache.contains_key(h) && cache[h] == info;
            assert(cache.contains_key(h) && cache[h].rect.covers(p));
        }
        if exists|h: isize| #[trigger] cache.contains_key(h) && cache[h].rect.covers(p) {
            let h = choose|h: isize| #[trigger] cache.contains_key(h) && cache[h].rect.covers(p);
            assert(covers.contains(Cover::of_info(cache[h])));
        }
    }
    assert forall|p: (int, int)| free_of_shell.contains(p) <==> visible_pixels(
        rect,
        covers,
        true,
    ).contains(p) by {
        assert(p == (p.0, p.1));
        assert(free_of_shell.contains((p.0, p.1)) <==> free_of_shell.contains(p));
        if hidden(covers, true, p) {
            let c = choose|c: Cover| #[trigger]
                covers.contains(c) && c.rect.covers(p) && (true ==> c.shell);
            let info = choose|info: WindowInfo| cache.values().contains(info) && f(info) == c;
            let h = choose|h: isize| #[trigger] cache.contains_key(h) && cache[h] == info;
            lemma_shell_class(cache[h].class_name@);
            assert(cache.contains_key(h) && cache[h].rect.covers(p));
        }
        if exists|h: isize| #[trigger]
            cache.contains_key(h) && cache[h].rect.covers(p) && cache[h].class_name@.len() >= 6
                && cache[h].class_name@.take(6) == seq!['S', 'h', 'e', 'l', 'l', '_'] {
            let h = choose|h: isize| #[trigger]
                cache.contains_key(h) && cache[h].rect.covers(p) && cache[h].class_name@.len() >= 6
                    && cache[h].class_name@.take(6) == seq!['S', 'h', 'e', 'l', 'l', '_'];
            lemma_shell_class(cache[h].class_name@);
            assert(covers.contains(Cover::of_info(cache[h])));
        }
    }
    assert(free =~= visible_pixels(rect, covers, false));
    assert(free_of_shell =~= visible_pixels(rect, covers, true));
}

/// Of a monitor as many pixels are visible as lie in its own rectangle and in that of no window,
/// and at most as many can be as lie in no rectangle of a window of the shell.
pub proof fn law_visible_pixels_are_counted(
    monitor: MonitorInfo,
    covers: Vec<Cover>,
    info: MonitorVisibleInfo,
    free: Set<(int, int)>,
    free_of_shell: Set<(int, int)>,
)
    requires
        call_ensures(measure_monitor, (&monitor, &covers), info),
        forall|x: int, y: int| #[trigger]
            free.contains((x, y)) <==> {
                &&& monitor.rect.left <= x < monitor.rect.right
                &&& monitor.rect.top <= y < monitor.rect.bottom
                &&& !(exists|j: int|
                        0 <= j < covers@.len() && (#[trigger] covers@[j]).rect.left <= x && x
                            < covers@[j].rect.right && covers@[j].rect.top <= y && y
                            < covers@[j].rect.bottom)
            },
        forall|x: int, y: int| #[trigger]
            free_of_shell.contains((x, y)) <==> {
                &&& monitor.rect.left <= x < monitor.rect.right
                &&& monitor.rect.top <= y < monitor.rect.bottom
                &&& !(exists|j: int|
                        0 <= j < covers@.len() && (#[trigger] covers@[j]).rect.left <= x && x
                            < covers@[j].rect.right && covers@[j].rect.top <= y && y
                            < covers@[j].rect.bottom && covers@[j].shell)
            },
    ensures
        info.current_visible == free.len(),
        info.max_visible == free_of_shell.len(),
        info.monitor_id == monitor.id,
        info.monitor_index == monitor.index,
        info.total_area == monitor.total_area,
{
    let all = covers@.to_set();
    assert forall|j: int| 0 <= j < covers@.len() implies all.contains(#[trigger] covers@[j]) by {}
    assert forall|p: (int, int)| free.contains(p) <==> visible_pixels(
        monitor.rect,
        all,
        false,
    ).contains(p) by {
        assert(p == (p.0, p.1));
        assert(free.contains((p.0, p.1)) <==> free.contains(p));
        if hidden(all, false, p) {
            let c = choose|c: Cover| #[trigger]
                all.contains(c) && c.rect.covers(p) && (false ==> c.shell);
            let j = choose|j: int| 0 <= j < covers@.len() && covers@[j] == c;
            assert(covers@[j].rect.covers(p));
        }
        if exists|j: int| 0 <= j < covers@.len() && (#[trigger] covers@[j]).rect.covers(p) {
            let j = choose|j: int| 0 <= j < covers@.len() && (#[trigger] covers@[j]).rect.covers(p);
            assert(all.contains(covers@[j]));
        }
    }
    assert forall|p: (int, int)| free_of_shell.contains(p) <==> visible_pixels(
        monitor.rect,
        all,
        true,
    ).contains(p) by {
        assert(p == (p.0, p.1));
        assert(free_of_shell.contains((p.0, p.1)) <==> free_of_shell.contains(p));
        if hidden(all, true, p) {
            let c = choose|c: Cover| #[trigger]
                all.contains(c) && c.rect.covers(p) && (true ==> c.shell);
            let j = choose|j: int| 0 <= j < covers@.len() && covers@[j] == c;
            assert(covers@[j].rect.covers(p));
        }
        if exists|j: int|
            0 <= j < covers@.len() && (#[trigger] covers@[j]).rect.covers(p) && covers@[j].shell {
            let j = choose|j: int|
                0 <= j < covers@.len() && (#[trigger] covers@[j]).rect.covers(p)
                    && covers@[j].shell;
            assert(all.contains(covers@[j]));
        }
    }
    assert(free =~= visible_pixels(monitor.rect, all, false));
    assert(free_of_shell =~= visible_pixels(monitor.rect, all, true));
}

/// Where windows were reported to have changed, or where none are remembered, a computation
/// counts the pixels of each monitor that lie in the rectangle of no window that is enumerated
/// for it.
pub proof fn law_enumerated_windows_are_measured(
    state: &mut ThreadLocalState,
    monitors: Vec<MonitorInfo>,
    windows: Vec<ObservedWindow>,
    now: u64,
    result: VisibleDesktopAreaResult,
    k: int,
    monitor: MonitorInfo,
    free: Set<(int, int)>,
    free_of_shell: Set<(int, int)>,
)
    requires
        call_ensures(calculate_visible_desktop_area, (state, monitors, windows, now), result),
        (exists|h: isize| #[trigger] old(state).changed_windows@.contains(h)) || (forall|h: isize|
            !(#[trigger] old(state).window_cache@.contains_key(h))),
        0 <= k < final(state).monitor_cache@.len(),
        monitor == final(state).monitor_cache@[k],
        forall|x: int, y: int| #[trigger]
            free.contains((x, y)) <==> {
                &&& monitor.rect.left <= x < monitor.rect.right
                &&& monitor.rect.top <= y < monitor.rect.bottom
                &&& !(exists|j: int|
                        0 <= j < windows@.len() && (#[trigger] windows@[j]).rect.left <= x && x
                            < windows@[j].rect.right && windows@[j].rect.top <= y && y
                            < windows@[j].rect.bottom)
            },
        forall|x: int, y: int| #[trigger]
            free_of_shell.contains((x, y)) <==> {
                &&& monitor.rect.left <= x < monitor.rect.right
                &&& monitor.rect.top <= y < monitor.rect.bottom
                &&& !(exists|j: int|
                        0 <= j < windows@.len() && (#[trigger] windows@[j]).rect.left <= x && x
                            < windows@[j].rect.right && windows@[j].rect.top <= y && y
                            < windows@[j].rect.bottom && windows@[j].class_name@.len() >= 6
                            && windows@[j].class_name@.take(6) == seq!['S', 'h', 'e', 'l', 'l', '_'])
            },
    ensures
        result.per_monitor_stats@.len() == final(state).monitor_cache@.len(),
        result.per_monitor_stats@[k].monitor_id == monitor.id,
        result.per_monitor_stats@[k].monitor_index == monitor.index,
        result.per_monitor_stats@[k].current_visible == free.len(),
        result.per_monitor_stats@[k].max_visible == free_of_shell.len(),
        result.per_monitor_stats@[k].total_area == monitor.total_area,
{
    assert(old(state).windows_outdated()) by {
        if forall|h: isize| !(#[trigger] old(state).window_cache@.contains_key(h)) {
            assert(old(state).window_cache@ =~= Map::<isize, WindowInfo>::empty());
        }
    }
    lemma_free_of_windows(monitor.rect, windows@, free, free_of_shell);
    assert(describes_monitor(
        result.per_monitor_stats@[k],
        monitor,
        covers_of(windows@),
    ));
}

/// Where no window was reported to have changed and some are remembered, a computation counts the
/// pixels of each monitor that lie in the rectangle of no window that is remembered.
pub proof fn law_remembered_windows_are_measured(
    state: &mut ThreadLocalState,
    monitors: Vec<MonitorInfo>,
    windows: Vec<ObservedWindow>,
    now: u64,
    result: VisibleDesktopAreaResult,
    cache: Map<isize, WindowInfo>,
    some: isize,
    k: int,
    monitor: MonitorInfo,
    free: Set<(int, int)>,
    free_of_shell: Set<(int, int)>,
)
    requires
        call_ensures(calculate_visible_desktop_area, (state, monitors, windows, now), result),
        forall|h: isize| !(#[trigger] old(state).changed_windows@.contains(h)),
        cache == old(state).window_cache@,
        cache.contains_key(some),
        0 <= k < final(state).monitor_cache@.len(),
        monitor == final(state).monitor_cache@[k],
        forall|x: int, y: int| #[trigger]
            free.contains((x, y)) <==> {
                &&& monitor.rect.left <= x < monitor.rect.right
                &&& monitor.rect.top <= y < monitor.rect.bottom
                &&& !(exists|h: isize| #[trigger]
                        cache.contains_key(h) && cache[h].rect.left <= x && x
                            < cache[h].rect.right && cache[h].rect.top <= y && y
                            < cache[h].rect.bottom)
            },
        forall|x: int, y: int| #[trigger]
            free_of_shell.contains((x, y)) <==> {
                &&& monitor.rect.left <= x < monitor.rect.right
                &&& monitor.rect.top <= y < monitor.rect.bottom
                &&& !(exists|h: isize| #[trigger]
                        cache.contains_key(h) && cache[h].rect.left <= x && x
                            < cache[h].rect.right && cache[h].rect.top <= y && y
                            < cache[h].rect.bottom && cache[h].class_name@.len() >= 6
                            && cache[h].class_name@.take(6) == seq!['S', 'h', 'e', 'l', 'l', '_'])
            },
    ensures
        result.per_monitor_stats@.len() == final(state).monitor_cache@.len(),
        result.per_monitor_stats@[k].monitor_id == monitor.id,
        result.per_monitor_stats@[k].monitor_index == monitor.index,
        result.per_monitor_stats@[k].current_visible == free.len(),
        result.per_monitor_stats@[k].max_visible == free_of_shell.len(),
        result.per_monitor_stats@[k].total_area == monitor.total_area,
        final(state).window_cache@ == cache,
{
    assert(old(state).changed_windows@ =~= Set::<isize>::empty());
    assert(!old(state).windows_outdated());
    lemma_free_of_remembered(
        monitor.rect,
        cache,
        free,
        free_of_shell,
    );
    assert(describes_monitor(
        result.per_monitor_stats@[k],
        monitor,
        covers_of_cache(cache),
    ));
}

/// The totals of a computation are what the statistics of its monitors add up to. `visible` and
/// `whole` hold the areas added up so far.
pub proof fn law_totals_add_up(
    state: &mut ThreadLocalState,
    monitors: Vec<MonitorInfo>,
    windows: Vec<ObservedWindow>,
    now: u64,
    result: VisibleDesktopAreaResult,
    visible: Seq<int>,
    whole: Seq<int>,
)
    requires
        call_ensures(calculate_visible_desktop_area, (state, monitors, windows, now), result),
        visible.len() == result.per_monitor_stats@.len() + 1,
        whole.len() == result.per_monitor_stats@.len() + 1,
        visible[0] == 0,
        whole[0] == 0,
        forall|i: int|
            0 <= i < result.per_monitor_stats@.len() ==> #[trigger] visible[i + 1] == visible[i]
                + result.per_monitor_stats@[i].current_visible,
        forall|i: int|
            0 <= i < result.per_monitor_stats@.len() ==> #[trigger] whole[i + 1] == whole[i]
                + result.per_monitor_stats@[i].total_area,
    ensures
        result.total_visible == visible.last(),
        result.total_area == whole.last(),
{
    let stats = result.per_monitor_stats@;
    let measured = old(state).monitors_in_use(monitors@);
    let n = stats.len() as int;
    assert forall|i: int| 0 <= i < n implies areas(measured)[i] == (#[trigger] stats[i]).total_area by {
        assert(describes_monitor(stats[i], measured[i], old(state).covers_in_use(windows@)));
    }
    assert forall|i: int| 0 <= i < n implies #[trigger] whole[i + 1] == whole[i] + areas(
        measured,
    )[i] by {
        assert(stats[i].total_area == areas(measured)[i]);
    }
    lemma_added_up(current_areas(stats), visible, n);
    lemma_added_up(areas(measured), whole, n);
    assert(current_areas(stats).take(n) =~= current_areas(stats));
    assert(areas(measured).take(n) =~= areas(measured));
}

/// A computation measures the monitors that are remembered, unless there are none or a refresh is
/// forced. Then it measures those that are enumerated for it, indexed, and remembers them. No
/// refresh is forced afterwards.
pub proof fn law_monitors_of_a_computation(
    state: &mut ThreadLocalState,
    monitors: Vec<MonitorInfo>,
    windows: Vec<ObservedWindow>,
    now: u64,
    result: VisibleDesktopAreaResult,
    found: &mut [MonitorInfo],
)
    requires
        call_ensures(calculate_visible_desktop_area, (state, monitors, windows, now), result),
        old(found)@ == monitors@,
        call_ensures(monitor_index_post_process, (found,), ()),
    ensures
        old(state).monitor_cache@.len() > 0 && !old(state).force_monitor_refresh
            ==> final(state).monitor_cache@ == old(state).monitor_cache@,
        old(state).monitor_cache@.len() == 0 || old(state).force_monitor_refresh
            ==> final(state).monitor_cache@ == final(found)@,
        !final(state).force_monitor_refresh,
{
}

/// After a computation for which the windows were enumerated, each of them is remembered, by
/// handle and as it was seen. Where a handle occurs twice, the later window counts.
pub proof fn law_enumerated_windows_are_remembered(
    state: &mut ThreadLocalState,
    monitors: Vec<MonitorInfo>,
    windows: Vec<ObservedWindow>,
    now: u64,
    result: VisibleDesktopAreaResult,
    changed: isize,
    i: int,
)
    requires
        call_ensures(calculate_visible_desktop_area, (state, monitors, windows, now), result),
        old(state).changed_windows@.contains(changed) || old(state).window_cache@
            == Map::<isize, WindowInfo>::empty(),
        0 <= i < windows@.len(),
        forall|j: int| i < j < windows@.len() ==> (#[trigger] windows@[j]).hwnd != windows@[i].hwnd,
    ensures
        final(state).window_cache@.contains_key(windows@[i].hwnd),
        ({
            let info = final(state).window_cache@[windows@[i].hwnd];
            &&& info.rect == windows@[i].rect
            &&& info.class_name@ == windows@[i].class_name@
            &&& info.process_name@ == windows@[i].process_name@
            &&& info.last_updated == now
            &&& info.is_shell <==> windows@[i].class_name@.len() >= 6
                && windows@[i].class_name@.take(6) == seq!['S', 'h', 'e', 'l', 'l', '_']
        }),
{
    assert(old(state).windows_outdated());
    lemma_remembered_last(windows@, now, i);
    lemma_shell_class(windows@[i].class_name@);
}

/// After a computation for which the windows were enumerated, no other window is remembered: one
/// that was not found again is forgotten.
pub proof fn law_other_windows_are_forgotten(
    state: &mut ThreadLocalState,
    monitors: Vec<MonitorInfo>,
    windows: Vec<ObservedWindow>,
    now: u64,
    result: VisibleDesktopAreaResult,
    changed: isize,
    handle: isize,
)
    requires
        call_ensures(calculate_visible_desktop_area, (state, monitors, windows, now), result),
        old(state).changed_windows@.contains(changed) || old(state).window_cache@
            == Map::<isize, WindowInfo>::empty(),
        forall|j: int| 0 <= j < windows@.len() ==> (#[trigger] windows@[j]).hwnd != handle,
    ensures
        !final(state).window_cache@.contains_key(handle),
{
    assert(old(state).windows_outdated());
    lemma_remembered_keys(windows@, now, handle);
}

/// Where no window was reported to have changed, what is remembered of windows stays.
pub proof fn law_unchanged_windows_stay_remembered(
    state: &mut ThreadLocalState,
    monitors: Vec<MonitorInfo>,
    windows: Vec<ObservedWindow>,
    now: u64,
    result: VisibleDesktopAreaResult,
    some: isize,
)
    requires
        call_ensures(calculate_visible_desktop_area, (state, monitors, windows, now), result),
        old(state).changed_windows@ == Set::<isize>::empty(),
        old(state).window_cache@.contains_key(some),
    ensures
        final(state).window_cache@ == old(state).window_cache@,
{
}

proof fn lemma_remembered_last(windows: Seq<ObservedWindow>, now: u64, i: int)
    requires
        0 <= i < windows.len(),
        forall|j: int| i < j < windows.len() ==> (#[trigger] windows[j]).hwnd != windows[i].hwnd,
    ensures
        remembered(windows, now).contains_key(windows[i].hwnd),
        remembered(windows, now)[windows[i].hwnd] == WindowInfo::of(windows[i], now),
    decreases windows.len(),
{
    if i < windows.len() - 1 {
        let front = windows.drop_last();
        assert(windows[windows.len() - 1].hwnd != windows[i].hwnd);
        assert forall|j: int| i < j < front.len() implies (#[trigger] front[j]).hwnd
            != front[i].hwnd by {
            assert(front[j] == windows[j]);
        }
        lemma_remembered_last(front, now, i);
    }
}

proof fn lemma_remembered_keys(windows: Seq<ObservedWindow>, now: u64, handle: isize)
    ensures
        remembered(windows, now).contains_key(handle) ==> exists|j: int|
            0 <= j < windows.len() && (#[trigger] windows[j]).hwnd == handle,
    decreases windows.len(),
{
    if windows.len() > 0 {
        let front = windows.drop_last();
        lemma_remembered_keys(front, now, handle);
        if windows.last().hwnd == handle {
            assert(windows[windows.len() - 1].hwnd == handle);
        } else if remembered(front, now).contains_key(handle) {
            let j = choose|j: int| 0 <= j < front.len() && (#[trigger] front[j]).hwnd == handle;
            assert(windows[j].hwnd == handle);
        }
    }
}

/// A computation changes nothing but what is remembered of monitors and windows.
pub proof fn law_computing_keeps_the_rest(
    state: &mut ThreadLocalState,
    monitors: Vec<MonitorInfo>,
    windows: Vec<ObservedWindow>,
    now: u64,
    result: VisibleDesktopAreaResult,
)
    requires
        call_ensures(calculate_visible_desktop_area, (state, monitors, windows, now), result),
    ensures
        final(state).hook == old(state).hook,
        final(state).thread == old(state).thread,
        final(state).thread_id == old(state).thread_id,
        final(state).callback == old(state).callback,
        final(state).user_data == old(state).user_data,
        final(state).owns_runtime == old(state).owns_runtime,
        final(state).throttle == old(state).throttle,
        final(state).changed_windows == old(state).changed_windows,
{
}

/// The windows are asked for exactly where none are remembered or some were reported to have
/// changed.
pub proof fn law_when_windows_are_asked_for(state: ThreadLocalState, yes: bool)
    requires
        call_ensures(ThreadLocalState::needs_window_update, (&state,), yes),
    ensures
        yes <==> (forall|h: isize| !(#[trigger] state.window_cache@.contains_key(h))) || (exists|
            h: isize,
        | #[trigger] state.changed_windows@.contains(h)),
{
    if forall|h: isize| !(#[trigger] state.window_cache@.contains_key(h)) {
        assert(state.window_cache@ =~= Map::<isize, WindowInfo>::empty());
    }
    if forall|h: isize| !(#[trigger] state.changed_windows@.contains(h)) {
        assert(state.changed_windows@ =~= Set::<isize>::empty());
    }
}

/// The monitors are asked for exactly where none are remembered or a refresh is forced.
pub proof fn law_when_monitors_are_asked_for(state: ThreadLocalState, yes: bool)
    requires
        call_ensures(ThreadLocalState::needs_monitor_update, (&state,), yes),
    ensures
        yes <==> state.monitor_cache@.len() == 0 || state.force_monitor_refresh,
{
}

/// Where on the plane a monitor and its windows are does not matter: moving all of them by the
/// same distance leaves the areas as they are.
pub proof fn law_position_does_not_matter(
    monitor: MonitorInfo,
    covers: Vec<Cover>,
    info: MonitorVisibleInfo,
    moved_monitor: MonitorInfo,
    moved_covers: Vec<Cover>,
    moved_info: MonitorVisibleInfo,
    dx: int,
    dy: int,
)
    requires
        call_ensures(measure_monitor, (&monitor, &covers), info),
        call_ensures(measure_monitor, (&moved_monitor, &moved_covers), moved_info),
        monitor.rect.left <= monitor.rect.right,
        monitor.rect.top <= monitor.rect.bottom,
        moved_monitor.rect.left == monitor.rect.left + dx,
        moved_monitor.rect.right == monitor.rect.right + dx,
        moved_monitor.rect.top == monitor.rect.top + dy,
        moved_monitor.rect.bottom == monitor.rect.bottom + dy,
        moved_covers@.len() == covers@.len(),
        forall|j: int|
            #![trigger covers@[j]]
            #![trigger moved_covers@[j]]
            0 <= j < covers@.len() ==> {
                &&& moved_covers@[j].shell == covers@[j].shell
                &&& moved_covers@[j].rect.left == covers@[j].rect.left + dx
                &&& moved_covers@[j].rect.right == covers@[j].rect.right + dx
                &&& moved_covers@[j].rect.top == covers@[j].rect.top + dy
                &&& moved_covers@[j].rect.bottom == covers@[j].rect.bottom + dy
            },
    ensures
        moved_info.current_visible == info.current_visible,
        moved_info.max_visible == info.max_visible,
{
    lemma_moved(monitor.rect, covers@, moved_monitor.rect, moved_covers@, dx, dy, false);
    lemma_moved(monitor.rect, covers@, moved_monitor.rect, moved_covers@, dx, dy, true);
}

proof fn lemma_moved(
    rect: Rect,
    covers: Seq<Cover>,
    moved_rect: Rect,
    moved: Seq<Cover>,
    dx: int,
    dy: int,
    shell_only: bool,
)
    requires
        rect.ordered(),
        moved_rect.left == rect.left + dx,
        moved_rect.right == rect.right + dx,
        moved_rect.top == rect.top + dy,
        moved_rect.bottom == rect.bottom + dy,
        moved.len() == covers.len(),
        forall|j: int|
            #![trigger covers[j]]
            #![trigger moved[j]]
            0 <= j < covers.len() ==> {
                &&& moved[j].shell == covers[j].shell
                &&& moved[j].rect.left == covers[j].rect.left + dx
                &&& moved[j].rect.right == covers[j].rect.right + dx
                &&& moved[j].rect.top == covers[j].rect.top + dy
                &&& moved[j].rect.bottom == covers[j].rect.bottom + dy
            },
    ensures
        visible_pixels(moved_rect, moved.to_set(), shell_only).len() == visible_pixels(
            rect,
            covers.to_set(),
            shell_only,
        ).len(),
{
    let here = visible_pixels(rect, covers.to_set(), shell_only);
    let there = visible_pixels(moved_rect, moved.to_set(), shell_only);
    let f = |p: (int, int)| (p.0 + dx, p.1 + dy);
    assert forall|p: (int, int)| #[trigger]
        hidden(covers.to_set(), shell_only, p) == hidden(moved.to_set(), shell_only, f(p)) by {
        if hidden(covers.to_set(), shell_only, p) {
            let c = choose|c: Cover| #[trigger]
                covers.to_set().contains(c) && c.rect.covers(p) && (shell_only ==> c.shell);
            let j = choose|j: int| 0 <= j < covers.len() && covers[j] == c;
            assert(moved.to_set().contains(moved[j]));
        }
        if hidden(moved.to_set(), shell_only, f(p)) {
            let c = choose|c: Cover| #[trigger]
                moved.to_set().contains(c) && c.rect.covers(f(p)) && (shell_only ==> c.shell);
            let j = choose|j: int| 0 <= j < moved.len() && moved[j] == c;
            assert(covers.to_set().contains(covers[j]));
        }
    }
    lemma_visible_bounds(rect, covers.to_set());
    assert(vstd::relations::injective_on(f, here));
    assert forall|q: (int, int)| there.contains(q) <==> here.map(f).contains(q) by {
        let p = (q.0 - dx, q.1 - dy);
        assert(f(p) == q);
        assert(hidden(covers.to_set(), shell_only, p) == hidden(moved.to_set(), shell_only, f(p)));
        if here.map(f).contains(q) {
            let r = choose|r: (int, int)| here.contains(r) && f(r) == q;
            assert(r == p);
        }
        if there.contains(q) {
            assert(here.contains(p));
        }
    }
    assert(there =~= here.map(f));
    lemma_map_size(here, there, f);
}

/// The statistics of a desktop count, for each monitor, the pixels in its rectangle that lie in
/// the rectangle of no window.
pub proof fn law_desktop_statistics(
    monitors: Seq<MonitorInfo>,
    windows: Seq<ObservedWindow>,
    result: VisibleDesktopAreaResult,
    k: int,
    free: Set<(int, int)>,
    free_of_shell: Set<(int, int)>,
)
    requires
        describes_desktop(result, monitors, covers_of(windows)),
        0 <= k < monitors.len(),
        forall|x: int, y: int| #[trigger]
            free.contains((x, y)) <==> {
                &&& monitors[k].rect.left <= x < monitors[k].rect.right
                &&& monitors[k].rect.top <= y < monitors[k].rect.bottom
                &&& !(exists|j: int|
                        0 <= j < windows.len() && (#[trigger] windows[j]).rect.left <= x && x
                            < windows[j].rect.right && windows[j].rect.top <= y && y
                            < windows[j].rect.bottom)
            },
        forall|x: int, y: int| #[trigger]
            free_of_shell.contains((x, y)) <==> {
                &&& monitors[k].rect.left <= x < monitors[k].rect.right
                &&& monitors[k].rect.top <= y < monitors[k].rect.bottom
                &&& !(exists|j: int|
                        0 <= j < windows.len() && (#[trigger] windows[j]).rect.left <= x && x
                            < windows[j].rect.right && windows[j].rect.top <= y && y
                            < windows[j].rect.bottom && windows[j].class_name@.len() >= 6
                            && windows[j].class_name@.take(6) == seq!['S', 'h', 'e', 'l', 'l', '_'])
            },
    ensures
        result.per_monitor_stats@.len() == monitors.len(),
        result.per_monitor_stats@[k].monitor_id == monitors[k].id,
        result.per_monitor_stats@[k].monitor_index == monitors[k].index,
        result.per_monitor_stats@[k].current_visible == free.len(),
        result.per_monitor_stats@[k].max_visible == free_of_shell.len(),
        result.per_monitor_stats@[k].total_area == monitors[k].total_area,
{
    lemma_free_of_windows(monitors[k].rect, windows, free, free_of_shell);
    assert(describes_monitor(result.per_monitor_stats@[k], monitors[k], covers_of(windows)));
}

/// The statistics of several monitors are those of each, in their order, and the totals are what
/// these add up to. `visible` and `whole` hold the areas added up so far.
pub proof fn law_monitors_are_measured_one_by_one(
    monitors: Vec<MonitorInfo>,
    covers: Vec<Cover>,
    result: VisibleDesktopAreaResult,
    k: int,
    monitor: MonitorInfo,
    info: MonitorVisibleInfo,
    visible: Seq<int>,
    whole: Seq<int>,
)
    requires
        call_ensures(measure_desktop, (&monitors, &covers), result),
        0 <= k < monitors@.len(),
        monitor == monitors@[k],
        call_ensures(measure_monitor, (&monitor, &covers), info),
        visible.len() == monitors@.len() + 1,
        whole.len() == monitors@.len() + 1,
        visible[0] == 0,
        whole[0] == 0,
        forall|i: int|
            0 <= i < monitors@.len() ==> #[trigger] visible[i + 1] == visible[i]
                + result.per_monitor_stats@[i].current_visible,
        forall|i: int|
            0 <= i < monitors@.len() ==> #[trigger] whole[i + 1] == whole[i]
                + monitors@[i].total_area,
    ensures
        result.per_monitor_stats@.len() == monitors@.len(),
        result.per_monitor_stats@[k] == info,
        result.total_visible == visible.last(),
        result.total_area == whole.last(),
{
    let stats = result.per_monitor_stats@;
    let n = stats.len() as int;
    assert(describes_monitor(stats[k], monitors@[k], covers@.to_set()));
    lemma_added_up(current_areas(stats), visible, n);
    lemma_added_up(areas(monitors@), whole, n);
    assert(current_areas(stats).take(n) =~= current_areas(stats));
    assert(areas(monitors@).take(n) =~= areas(monitors@));
}

} // verus!
