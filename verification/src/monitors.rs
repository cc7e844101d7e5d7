//! Monitors as they are enumerated: their rectangles, identifiers and display indices.
use vstd::prelude::*;

use crate::geometry::Rect;
use crate::ranking::{
    as_ints, count_before, is_rearranged, lemma_rank_in_range, lemma_rank_order, lemma_rearranged_multiset,
    lemma_source, lemma_source_of_rank, lemma_sum_of_multiset, lemma_sum_prefix, rank, rank_of,
    source, sum,
};
use crate::text::{
    all_digits, chars_of, decimal_value, digits_value, is_digit, is_last_occurrence,
    last_occurrence, occurs_at, parse_decimal, terminator, text_until_zero, utf16_text,
};

verus! {

/// A monitor. `id` is the number in its device name, `index` its place among all monitors.
#[derive(Clone, Copy, Debug, PartialEq, Eq, Structural)]
pub struct MonitorInfo {
    pub id: i64,
    pub index: i64,
    pub rect: Rect,
    pub total_area: i64,
}

/// The number behind the last `DISPLAY` in a device name, or -1 where there is no such number.
pub open spec fn display_number(name: Seq<char>) -> i64 {
    if exists|at: int| occurs_at(name, "DISPLAY"@, at) {
        let at = choose|at: int| is_last_occurrence(name, "DISPLAY"@, at);
        match decimal_value(name.skip(at + "DISPLAY"@.len())) {
            Some(number) => number,
            None => -1i64,
        }
    } else {
        -1i64
    }
}

/// The device name in a buffer of UTF-16 units that ends at the first zero. It is empty where
/// the name could not be had.
pub open spec fn device_name(device: Option<Seq<u16>>) -> Seq<char> {
    match device {
        Some(units) => utf16_text(units.take(terminator(units))),
        None => Seq::empty(),
    }
}

/// The number behind the last `DISPLAY` in a device name, or -1 where there is no such number.
pub fn parse_display_number(name: &str) -> (number: i64)
    ensures
        number == display_number(name@),
{
    let chars = chars_of(name);
    let marker = chars_of("DISPLAY");
    match last_occurrence(&chars, &marker) {
        Some(at) => {
            let ghost spec_at = choose|i: int| is_last_occurrence(name@, "DISPLAY"@, i);
            proof {
                assert(is_last_occurrence(name@, "DISPLAY"@, at as int));
                assert(spec_at == at) by {
                    assert(is_last_occurrence(name@, "DISPLAY"@, spec_at));
                }
            }
            assert(at + marker.len() <= chars.len());
            let mut digits: Vec<char> = Vec::new();
            let start: usize = at + marker.len();
            let mut i: usize = start;
            while i < chars.len()
                invariant
                    start <= i <= chars.len(),
                    digits@ =~= chars@.subrange(start as int, i as int),
                decreases chars.len() - i,
            {
                digits.push(chars[i]);
                i = i + 1;
            }
            assert(digits@ =~= name@.skip(at + "DISPLAY"@.len()));
            match parse_decimal(&digits) {
                Some(number) => number,
                None => -1,
            }
        },
        None => -1,
    }
}

/// A device name that ends in `DISPLAY` and decimal digits gives the number that these stand
/// for, whatever comes before.
pub proof fn law_display_number_is_read_back(before: Seq<char>, digits: Seq<char>)
    requires
        all_digits(digits),
        digits_value(digits) <= i64::MAX,
    ensures
        display_number(before + "DISPLAY"@ + digits) == digits_value(digits),
{
    reveal_strlit("DISPLAY");
    let marker = "DISPLAY"@;
    let name = before + marker + digits;
    let at = before.len() as int;
    assert(name.subrange(at, at + marker.len()) =~= marker);
    assert(occurs_at(name, marker, at));
    assert forall|later: int| at < later implies !occurs_at(name, marker, later) by {
        if occurs_at(name, marker, later) {
            assert(name.subrange(later, later + marker.len())[0] == marker[0]);
            assert(name[later] == 'D');
            if later < at + marker.len() {
                assert(name[later] == marker[later - at]);
            } else {
                assert(is_digit(digits[later - at - marker.len()]));
            }
        }
    }
    assert(is_last_occurrence(name, marker, at));
    let found = choose|i: int| is_last_occurrence(name, marker, i);
    assert(found == at) by {
        assert(is_last_occurrence(name, marker, found));
    }
    assert(name.skip(at + marker.len()) =~= digits);
    assert(is_digit(digits[0]));
}

impl MonitorInfo {
    /// The rectangle has a width and a height, and the area is theirs.
    pub open spec fn wf(self) -> bool {
        &&& self.rect.ordered()
        &&& self.rect.extents_fit()
        &&& self.total_area == self.rect.signed_area()
    }
}

/// The entry of a monitor with the given rectangle and device name buffer, before the monitors
/// are indexed.
pub open spec fn enumerated(rect: Rect, device: Option<Seq<u16>>) -> MonitorInfo {
    MonitorInfo {
        id: display_number(device_name(device)),
        index: display_number(device_name(device)),
        rect,
        total_area: rect.signed_area() as i64,
    }
}

/// Adds a monitor to those that were enumerated so far. `device` is the buffer that holds the
/// monitor's device name, where it could be had.
pub fn enum_monitors_collect_cb(
    monitors: &mut Vec<MonitorInfo>,
    rect: Rect,
    device: Option<&[u16]>,
)
    requires
        rect.extents_fit(),
    ensures
        final(monitors)@ == old(monitors)@.push(
            enumerated(
                rect,
                match device {
                    Some(units) => Some(units@),
                    None => None,
                },
            ),
        ),
        final(monitors)@.last().total_area == rect.signed_area(),
        rect.ordered() ==> final(monitors)@.last().wf(),
{
    let area = rect.area();
    let name = match device {
        Some(units) => text_until_zero(units),
        None => String::new(),
    };
    let id = parse_display_number(name.as_str());
    monitors.push(MonitorInfo { id, index: id, rect, total_area: area });
}

/// The largest index, or zero where no index is positive.
pub open spec fn top_index(monitors: Seq<MonitorInfo>) -> int
    decreases monitors.len(),
{
    if monitors.len() == 0 {
        0
    } else {
        let top = top_index(monitors.drop_last());
        if monitors.last().index > top {
            monitors.last().index as int
        } else {
            top
        }
    }
}

/// How many of the monitors have a negative index.
pub open spec fn unnumbered(monitors: Seq<MonitorInfo>) -> nat
    decreases monitors.len(),
{
    if monitors.len() == 0 {
        0
    } else {
        unnumbered(monitors.drop_last()) + (if monitors.last().index < 0 {
            1nat
        } else {
            0nat
        })
    }
}

/// The number by which a monitor is put in order: its index, or, where that is negative, the
/// next number that is larger than every index and every number given out before.
pub open spec fn order_key(monitors: Seq<MonitorInfo>, i: int) -> int {
    if monitors[i].index < 0 {
        top_index(monitors) + 1 + unnumbered(monitors.take(i))
    } else {
        monitors[i].index as int
    }
}

/// The numbers by which the monitors are put in order.
pub open spec fn order_keys(monitors: Seq<MonitorInfo>) -> Seq<int> {
    Seq::new(monitors.len(), |i: int| order_key(monitors, i))
}

/// The same monitor with another index.
pub open spec fn with_index(monitor: MonitorInfo, index: int) -> MonitorInfo {
    MonitorInfo { index: index as i64, ..monitor }
}

/// The monitors in order, with the indices 1, 2, 3 and so on.
pub open spec fn indexed(monitors: Seq<MonitorInfo>) -> Seq<MonitorInfo> {
    Seq::new(
        monitors.len(),
        |k: int| with_index(monitors[source(order_keys(monitors), k)], k + 1),
    )
}

/// Whether the numbers that are given out for negative indices can be held in an `i64`.
pub open spec fn indices_fit(monitors: Seq<MonitorInfo>) -> bool {
    &&& top_index(monitors) + 1 + unnumbered(monitors) <= i64::MAX
    &&& monitors.len() < i64::MAX
}

proof fn lemma_top_index(monitors: Seq<MonitorInfo>, n: int)
    requires
        0 <= n <= monitors.len(),
    ensures
        0 <= top_index(monitors.take(n)) <= top_index(monitors),
        unnumbered(monitors.take(n)) <= unnumbered(monitors),
        forall|i: int| 0 <= i < n ==> (#[trigger] monitors[i]).index <= top_index(monitors),
    decreases monitors.len(), n,
{
    if n == monitors.len() {
        assert(monitors.take(n) =~= monitors);
        if n > 0 {
            lemma_top_index(monitors, n - 1);
            assert(monitors.take(n - 1) =~= monitors.drop_last());
        }
    } else {
        assert(monitors.drop_last().take(n) =~= monitors.take(n));
        lemma_top_index(monitors.drop_last(), n);
        assert forall|i: int| 0 <= i < n implies (#[trigger] monitors[i]).index <= top_index(
            monitors,
        ) by {
            assert(monitors.drop_last()[i] == monitors[i]);
        }
    }
}

/// The largest index, or zero where no index is positive.
fn largest_index(monitors: &[MonitorInfo]) -> (top: i64)
    ensures
        top == top_index(monitors@),
{
    let mut top: i64 = 0;
    let mut i: usize = 0;
    while i < monitors.len()
        invariant
            i <= monitors.len(),
            top == top_index(monitors@.take(i as int)),
        decreases monitors.len() - i,
    {
        proof {
            assert(monitors@.take(i + 1).drop_last() =~= monitors@.take(i as int));
        }
        if monitors[i].index > top {
            top = monitors[i].index;
        }
        i = i + 1;
    }
    assert(monitors@.take(i as int) =~= monitors@);
    top
}

/// The numbers by which the monitors are put in order.
fn collect_keys(monitors: &[MonitorInfo]) -> (keys: Vec<i64>)
    requires
        indices_fit(monitors@),
    ensures
        as_ints(keys@) == order_keys(monitors@),
{
    let mut next: i64 = largest_index(monitors) + 1;
    let mut keys: Vec<i64> = Vec::new();
    let mut i: usize = 0;
    while i < monitors.len()
        invariant
            i <= monitors.len(),
            indices_fit(monitors@),
            next == top_index(monitors@) + 1 + unnumbered(monitors@.take(i as int)),
            keys@.len() == i,
            forall|k: int| 0 <= k < i ==> #[trigger] keys@[k] == order_key(monitors@, k),
        decreases monitors.len() - i,
    {
        proof {
            assert(monitors@.take(i + 1).drop_last() =~= monitors@.take(i as int));
            lemma_top_index(monitors@, i + 1);
        }
        let index: i64 = monitors[i].index;
        if index < 0 {
            keys.push(next);
            next = next + 1;
        } else {
            keys.push(index);
        }
        i = i + 1;
    }
    assert(as_ints(keys@) =~= order_keys(monitors@));
    keys
}

/// Puts the monitors in the order of their indices and numbers them 1, 2, 3 and so on. Those
/// with a negative index come last, in the order in which they stand.
pub fn monitor_index_post_process(monitors: &mut [MonitorInfo])
    requires
        indices_fit(old(monitors)@),
    ensures
        final(monitors)@ == indexed(old(monitors)@),
{
    let keys = collect_keys(monitors);
    let found = vstd::slice::slice_to_vec(monitors);
    let ghost ints = as_ints(keys@);
    assert(ints.len() == keys@.len());
    let mut i: usize = 0;
    while i < found.len()
        invariant
            i <= found.len(),
            found@ == old(monitors)@,
            indices_fit(found@),
            monitors@.len() == found@.len(),
            keys@.len() == found@.len(),
            ints == as_ints(keys@),
            ints == order_keys(found@),
            forall|j: int|
                0 <= j < i ==> monitors@[rank(ints, j) as int] == with_index(
                    #[trigger] found@[j],
                    rank(ints, j) as int + 1,
                ),
        decreases found.len() - i,
    {
        let place = rank_of(&keys, i);
        proof {
            lemma_rank_in_range(ints, i as int);
            assert forall|j: int| 0 <= j < i implies rank(ints, j) != place && rank(ints, j)
                < found@.len() by {
                lemma_rank_in_range(ints, j);
                lemma_rank_order(ints, j, i as int);
            }
        }
        let mut monitor = found[i];
        monitor.index = place as i64 + 1;
        monitors[place] = monitor;
        i = i + 1;
    }
    proof {
        assert forall|k: int| 0 <= k < found@.len() implies #[trigger] monitors@[k] == indexed(
            found@,
        )[k] by {
            lemma_source(ints, k);
            assert(found@[source(ints, k)] == found@[source(ints, k)]);
        }
        assert(monitors@ =~= indexed(found@));
    }
}

/// What stays of a monitor when it is given another index.
pub open spec fn without_index(monitor: MonitorInfo) -> (i64, Rect, i64) {
    (monitor.id, monitor.rect, monitor.total_area)
}

/// The areas of the monitors.
pub open spec fn areas(monitors: Seq<MonitorInfo>) -> Seq<int> {
    monitors.map_values(|m: MonitorInfo| m.total_area as int)
}

/// Every monitor is well formed and their areas add up to an `i64`.
pub open spec fn measurable(monitors: Seq<MonitorInfo>) -> bool {
    &&& forall|i: int| 0 <= i < monitors.len() ==> (#[trigger] monitors[i]).wf()
    &&& sum(areas(monitors)) <= i64::MAX
}

/// Each monitor moves to the position of its rank.
proof fn lemma_indexed_rearranged(monitors: Seq<MonitorInfo>)
    ensures
        is_rearranged(
            monitors.map_values(|m: MonitorInfo| without_index(m)),
            indexed(monitors).map_values(|m: MonitorInfo| without_index(m)),
            Seq::new(monitors.len(), |i: int| rank(order_keys(monitors), i) as int),
        ),
        is_rearranged(
            areas(monitors),
            areas(indexed(monitors)),
            Seq::new(monitors.len(), |i: int| rank(order_keys(monitors), i) as int),
        ),
{
    let keys = order_keys(monitors);
    let to = Seq::new(monitors.len(), |i: int| rank(keys, i) as int);
    assert forall|i: int| 0 <= i < monitors.len() implies 0 <= #[trigger] to[i] < monitors.len()
        && indexed(monitors)[to[i]] == with_index(monitors[i], to[i] + 1) by {
        lemma_rank_in_range(keys, i);
        lemma_source_of_rank(keys, i);
    }
    assert forall|i: int, j: int| 0 <= i < j < to.len() implies #[trigger] to[i]
        != #[trigger] to[j] by {
        lemma_rank_order(keys, i, j);
    }
}

/// Indexing loses no monitor, adds none, and changes nothing of a monitor but its index.
pub proof fn law_indexing_keeps_the_monitors(monitors: Seq<MonitorInfo>)
    ensures
        indexed(monitors).map_values(|m: MonitorInfo| without_index(m)).to_multiset()
            == monitors.map_values(|m: MonitorInfo| without_index(m)).to_multiset(),
{
    lemma_indexed_rearranged(monitors);
    lemma_rearranged_multiset(
        monitors.map_values(|m: MonitorInfo| without_index(m)),
        indexed(monitors).map_values(|m: MonitorInfo| without_index(m)),
        Seq::new(monitors.len(), |i: int| rank(order_keys(monitors), i) as int),
    );
}

/// Indexed monitors have the indices 1 to the number of monitors, in this order.
pub proof fn law_indices_count_up(monitors: Seq<MonitorInfo>, k: int)
    requires
        indices_fit(monitors),
        0 <= k < monitors.len(),
    ensures
        indexed(monitors).len() == monitors.len(),
        indexed(monitors)[k].index == k + 1,
{
}

/// The position of a monitor after indexing.
pub open spec fn position(monitors: Seq<MonitorInfo>, i: int) -> int {
    rank(order_keys(monitors), i) as int
}

/// Each monitor is found at its position after indexing, and the positions are as follows:
/// monitors with a number come in the order of their numbers, before those without one, and
/// monitors without a number stay in their order.
pub proof fn law_indexing_order(monitors: Seq<MonitorInfo>, i: int, j: int)
    requires
        0 <= i < monitors.len(),
        0 <= j < monitors.len(),
    ensures
        0 <= position(monitors, i) < monitors.len(),
        indexed(monitors)[position(monitors, i)] == with_index(
            monitors[i],
            position(monitors, i) + 1,
        ),
        0 <= monitors[i].index < monitors[j].index ==> position(monitors, i) < position(
            monitors,
            j,
        ),
        0 <= monitors[i].index && monitors[j].index < 0 ==> position(monitors, i) < position(
            monitors,
            j,
        ),
        monitors[i].index < 0 && monitors[j].index < 0 && i < j ==> position(monitors, i)
            < position(monitors, j),
{
    let keys = order_keys(monitors);
    lemma_rank_in_range(keys, i);
    lemma_source_of_rank(keys, i);
    lemma_rank_order(keys, i, j);
    lemma_top_index(monitors, monitors.len() as int);
    if i < j {
        lemma_top_index(monitors.take(j), i);
        assert(monitors.take(j).take(i) =~= monitors.take(i));
    }
}

/// Indexing monitors that are indexed already changes nothing.
pub proof fn law_indexing_is_idempotent(monitors: Seq<MonitorInfo>)
    requires
        indices_fit(monitors),
    ensures
        indexed(indexed(monitors)) == indexed(monitors),
{
    let once = indexed(monitors);
    let keys = order_keys(once);
    assert forall|k: int| 0 <= k < once.len() implies #[trigger] keys[k] == k + 1 by {}
    assert forall|k: int| 0 <= k < once.len() implies #[trigger] indexed(once)[k] == once[k] by {
        lemma_source(keys, k);
        lemma_counting_rank(keys, source(keys, k), keys.len());
    }
    assert(indexed(once) =~= once);
}

/// Where the keys count up from 1, each rank is the position.
proof fn lemma_counting_rank(keys: Seq<int>, i: int, n: nat)
    requires
        0 <= i < keys.len(),
        n <= keys.len(),
        forall|k: int| 0 <= k < keys.len() ==> #[trigger] keys[k] == k + 1,
    ensures
        count_before(keys, i, n) == (if n <= i {
            n as int
        } else {
            i
        }),
    decreases n,
{
    if n > 0 {
        lemma_counting_rank(keys, i, (n - 1) as nat);
    }
}

/// Indexing keeps monitors measurable, and their areas add up to the same.
pub proof fn lemma_indexed_measurable(monitors: Seq<MonitorInfo>)
    requires
        measurable(monitors),
    ensures
        measurable(indexed(monitors)),
        sum(areas(indexed(monitors))) == sum(areas(monitors)),
{
    lemma_indexed_rearranged(monitors);
    let to = Seq::new(monitors.len(), |i: int| rank(order_keys(monitors), i) as int);
    lemma_rearranged_multiset(areas(monitors), areas(indexed(monitors)), to);
    lemma_sum_of_multiset(areas(monitors), areas(indexed(monitors)));
    assert forall|k: int| 0 <= k < monitors.len() implies (#[trigger] indexed(
        monitors,
    )[k]).wf() by {
        lemma_source(order_keys(monitors), k);
        assert(monitors[source(order_keys(monitors), k)].wf());
    }
}

/// The area of a well formed monitor is not negative.
pub proof fn lemma_area_not_negative(monitor: MonitorInfo)
    requires
        monitor.wf(),
    ensures
        0 <= monitor.total_area,
{
    monitor.rect.lemma_points_len();
}

/// Whether the monitors can be indexed and measured.
pub fn monitors_acceptable(monitors: &[MonitorInfo]) -> (yes: bool)
    ensures
        yes == (measurable(monitors@) && indices_fit(monitors@)),
{
    if monitors.len() as u64 >= 0x7fff_ffff_ffff_ffff {
        return false;
    }
    let top: i64 = largest_index(monitors);
    let mut negative: i128 = 0;
    let mut area: i128 = 0;
    let mut i: usize = 0;
    while i < monitors.len()
        invariant
            i <= monitors.len(),
            monitors@.len() < i64::MAX,
            top == top_index(monitors@),
            0 <= negative <= i,
            negative == unnumbered(monitors@.take(i as int)),
            0 <= area <= i64::MAX,
            area == sum(areas(monitors@.take(i as int))),
            forall|k: int| 0 <= k < i ==> (#[trigger] monitors@[k]).wf(),
        decreases monitors.len() - i,
    {
        let monitor = monitors[i];
        let rect = monitor.rect;
        if rect.left > rect.right || rect.top > rect.bottom || rect.right as i64
            - rect.left as i64 > 0x7fff_ffff || rect.bottom as i64 - rect.top as i64
            > 0x7fff_ffff {
            assert(!monitors@[i as int].wf());
            return false;
        }
        if monitor.total_area != rect.area() {
            assert(!monitors@[i as int].wf());
            return false;
        }
        proof {
            let longer = monitors@.take(i + 1);
            assert(longer.drop_last() =~= monitors@.take(i as int));
            assert(areas(longer).drop_last() =~= areas(monitors@.take(i as int)));
            lemma_area_not_negative(monitor);
        }
        area = area + monitor.total_area as i128;
        if monitor.index < 0 {
            negative = negative + 1;
        }
        if area > 0x7fff_ffff_ffff_ffff {
            proof {
                if measurable(monitors@) {
                    assert forall|k: int| 0 <= k < monitors@.len() implies 0 <= #[trigger] areas(
                        monitors@,
                    )[k] by {
                        lemma_area_not_negative(monitors@[k]);
                    }
                    lemma_sum_prefix(areas(monitors@), i + 1);
                    assert(areas(monitors@).take(i + 1) =~= areas(monitors@.take(i + 1)));
                }
            }
            return false;
        }
        i = i + 1;
    }
    assert(monitors@.take(i as int) =~= monitors@);
    top as i128 + 1 + negative <= 0x7fff_ffff_ffff_ffff
}

/// The number behind the last marker in a device name is the one that counts: what stands before
/// it does not matter, and where no number stands behind it there is none.
pub proof fn law_number_behind_the_last_marker(
    name: &str,
    number: i64,
    before: Seq<char>,
    rest: Vec<char>,
    value: Option<i64>,
)
    requires
        call_ensures(parse_display_number, (name,), number),
        call_ensures(parse_decimal, (&rest,), value),
        name@ == before + seq!['D', 'I', 'S', 'P', 'L', 'A', 'Y'] + rest@,
        forall|k: int|
            0 <= k && k + 7 <= rest@.len() ==> #[trigger] rest@.subrange(k, k + 7)
                != seq!['D', 'I', 'S', 'P', 'L', 'A', 'Y'],
    ensures
        number == (match value {
            Some(found) => found,
            None => -1i64,
        }),
{
    reveal_strlit("DISPLAY");
    let marker = "DISPLAY"@;
    assert(marker =~= seq!['D', 'I', 'S', 'P', 'L', 'A', 'Y']);
    assert forall|k: int| !occurs_at(rest@, marker, k) by {
        if occurs_at(rest@, marker, k) {
            assert(rest@.subrange(k, k + 7) == marker);
        }
    }
    lemma_last_marker(before, marker, rest@);
    let at = before.len() as int;
    let found = choose|i: int| is_last_occurrence(name@, marker, i);
    assert(found == at) by {
        assert(is_last_occurrence(name@, marker, at));
        assert(is_last_occurrence(name@, marker, found));
    }
    assert(name@.skip(at + marker.len()) =~= rest@);
}

/// A marker that stands in a text last of all, and whose first character does not occur in it
/// again, is found where it stands.
proof fn lemma_last_marker(before: Seq<char>, marker: Seq<char>, rest: Seq<char>)
    requires
        marker.len() > 0,
        forall|i: int| 0 < i < marker.len() ==> #[trigger] marker[i] != marker[0],
        forall|k: int| !occurs_at(rest, marker, k),
    ensures
        is_last_occurrence(before + marker + rest, marker, before.len() as int),
{
    let text = before + marker + rest;
    let at = before.len() as int;
    let n = marker.len() as int;
    assert(text.subrange(at, at + n) =~= marker);
    assert forall|later: int| at < later implies !occurs_at(text, marker, later) by {
        if occurs_at(text, marker, later) {
            let here = text.subrange(later, later + n);
            assert(here[0] == marker[0]);
            assert(text[later] == marker[0]);
            if later < at + n {
                assert(text[later] == marker[later - at]);
            } else {
                let k = later - at - n;
                assert(rest.subrange(k, k + n) =~= here);
                assert(occurs_at(rest, marker, k));
            }
        }
    }
}

/// A device name without the marker has no number.
pub proof fn law_no_marker_no_number(name: &str, number: i64)
    requires
        call_ensures(parse_display_number, (name,), number),
        forall|k: int|
            0 <= k && k + 7 <= name@.len() ==> #[trigger] name@.subrange(k, k + 7)
                != seq!['D', 'I', 'S', 'P', 'L', 'A', 'Y'],
    ensures
        number == -1,
{
    reveal_strlit("DISPLAY");
    assert("DISPLAY"@ =~= seq!['D', 'I', 'S', 'P', 'L', 'A', 'Y']);
    assert forall|at: int| !occurs_at(name@, "DISPLAY"@, at) by {
        if occurs_at(name@, "DISPLAY"@, at) {
            assert(name@.subrange(at, at + 7) == seq!['D', 'I', 'S', 'P', 'L', 'A', 'Y']);
        }
    }
}

/// A monitor is added behind those that were enumerated so far, with its own rectangle and the
/// area of that, and with the number in its device name. The others stay as they are.
pub proof fn law_monitors_are_collected(
    monitors: &mut Vec<MonitorInfo>,
    rect: Rect,
    units: &[u16],
    text: String,
    name: &str,
    number: i64,
    k: int,
)
    requires
        call_ensures(enum_monitors_collect_cb, (monitors, rect, Some(units)), ()),
        call_ensures(text_until_zero, (units,), text),
        name@ == text@,
        call_ensures(parse_display_number, (name,), number),
    ensures
        final(monitors)@.len() == old(monitors)@.len() + 1,
        0 <= k < old(monitors)@.len() ==> final(monitors)@[k] == old(monitors)@[k],
        final(monitors)@.last().rect == rect,
        final(monitors)@.last().total_area == (rect.right - rect.left) * (rect.bottom - rect.top),
        final(monitors)@.last().id == number,
        final(monitors)@.last().index == number,
{
}

/// A monitor whose device name could not be had is added without a number.
pub proof fn law_nameless_monitors_are_collected(
    monitors: &mut Vec<MonitorInfo>,
    rect: Rect,
    k: int,
)
    requires
        call_ensures(enum_monitors_collect_cb, (monitors, rect, None::<&[u16]>), ()),
    ensures
        final(monitors)@.len() == old(monitors)@.len() + 1,
        0 <= k < old(monitors)@.len() ==> final(monitors)@[k] == old(monitors)@[k],
        final(monitors)@.last().rect == rect,
        final(monitors)@.last().total_area == (rect.right - rect.left) * (rect.bottom - rect.top),
        final(monitors)@.last().id == -1,
        final(monitors)@.last().index == -1,
{
    reveal_strlit("DISPLAY");
}

/// Indexing moves each monitor to a place of its own and gives it the number of that place,
/// counted from 1; nothing else of it changes. Monitors with a number come in the order of their
/// numbers and before those without one, which stay in their order.
pub proof fn law_indexing_sorts_and_counts(monitors: &mut [MonitorInfo]) -> (to: Seq<int>)
    requires
        call_ensures(monitor_index_post_process, (monitors,), ()),
        old(monitors)@.len() < 0x7fff_ffff_ffff_ffff,
    ensures
        final(monitors)@.len() == old(monitors)@.len(),
        to.len() == old(monitors)@.len(),
        forall|i: int|
            0 <= i < to.len() ==> {
                &&& 0 <= #[trigger] to[i] < to.len()
                &&& final(monitors)@[to[i]].index == to[i] + 1
                &&& final(monitors)@[to[i]].id == old(monitors)@[i].id
                &&& final(monitors)@[to[i]].rect == old(monitors)@[i].rect
                &&& final(monitors)@[to[i]].total_area == old(monitors)@[i].total_area
            },
        forall|i: int, j: int|
            0 <= i < to.len() && 0 <= j < to.len() && i != j ==> {
                &&& #[trigger] to[i] != #[trigger] to[j]
                &&& 0 <= old(monitors)@[i].index < old(monitors)@[j].index ==> to[i] < to[j]
                &&& old(monitors)@[j].index < 0 <= old(monitors)@[i].index ==> to[i] < to[j]
                &&& old(monitors)@[i].index < 0 && old(monitors)@[j].index < 0 && i < j ==> to[i]
                    < to[j]
            },
{
    lemma_indexing(old(monitors)@)
}

/// Where each monitor goes when monitors are indexed.
pub proof fn lemma_indexing(monitors: Seq<MonitorInfo>) -> (to: Seq<int>)
    requires
        monitors.len() < 0x7fff_ffff_ffff_ffff,
    ensures
        indexed(monitors).len() == monitors.len(),
        to.len() == monitors.len(),
        forall|i: int|
            0 <= i < to.len() ==> {
                &&& 0 <= #[trigger] to[i] < to.len()
                &&& indexed(monitors)[to[i]].index == to[i] + 1
                &&& indexed(monitors)[to[i]].id == monitors[i].id
                &&& indexed(monitors)[to[i]].rect == monitors[i].rect
                &&& indexed(monitors)[to[i]].total_area == monitors[i].total_area
            },
        forall|i: int, j: int|
            0 <= i < to.len() && 0 <= j < to.len() && i != j ==> {
                &&& #[trigger] to[i] != #[trigger] to[j]
                &&& 0 <= monitors[i].index < monitors[j].index ==> to[i] < to[j]
                &&& monitors[j].index < 0 <= monitors[i].index ==> to[i] < to[j]
                &&& monitors[i].index < 0 && monitors[j].index < 0 && i < j ==> to[i] < to[j]
            },
{
    let to = Seq::new(monitors.len(), |i: int| position(monitors, i));
    assert forall|i: int| 0 <= i < to.len() implies {
        &&& 0 <= #[trigger] to[i] < to.len()
        &&& indexed(monitors)[to[i]] == with_index(monitors[i], to[i] + 1)
    } by {
        law_indexing_order(monitors, i, i);
    }
    assert forall|i: int, j: int| 0 <= i < to.len() && 0 <= j < to.len() && i != j implies {
        &&& #[trigger] to[i] != #[trigger] to[j]
        &&& 0 <= monitors[i].index < monitors[j].index ==> to[i] < to[j]
        &&& monitors[j].index < 0 <= monitors[i].index ==> to[i] < to[j]
        &&& monitors[i].index < 0 && monitors[j].index < 0 && i < j ==> to[i] < to[j]
    } by {
        law_indexing_order(monitors, i, j);
        lemma_rank_order(order_keys(monitors), i, j);
    }
    to
}

/// Monitors are accepted only where the edges of each are in order, its area is that of its
/// rectangle, its index can be counted on from, and their areas add up to an `i64`. `totals` holds
/// the areas added up so far.
pub proof fn law_accepted_monitors_are_sound(monitors: &[MonitorInfo], i: int, totals: Seq<int>)
    requires
        call_ensures(monitors_acceptable, (monitors,), true),
        0 <= i < monitors@.len(),
        totals.len() == monitors@.len() + 1,
        totals[0] == 0,
        forall|k: int|
            0 <= k < monitors@.len() ==> #[trigger] totals[k + 1] == totals[k]
                + monitors@[k].total_area,
    ensures
        totals.last() <= 0x7fff_ffff_ffff_ffff,
        monitors@[i].index < 0x7fff_ffff_ffff_ffff,
        monitors@[i].rect.left <= monitors@[i].rect.right,
        monitors@[i].rect.top <= monitors@[i].rect.bottom,
        monitors@[i].rect.right - monitors@[i].rect.left <= 0x7fff_ffff,
        monitors@[i].rect.bottom - monitors@[i].rect.top <= 0x7fff_ffff,
        monitors@[i].total_area == (monitors@[i].rect.right - monitors@[i].rect.left) * (
        monitors@[i].rect.bottom - monitors@[i].rect.top),
{
    let n = monitors@.len() as int;
    assert(monitors@[i].wf());
    lemma_added_up(areas(monitors@), totals, n);
    assert(areas(monitors@).take(n) =~= areas(monitors@));
    lemma_top_index(monitors@, n);
}

/// Monitors are accepted where each is sound, where their areas add up to an `i64` and where
/// their indices leave room for as many more as there are monitors. `totals` holds the areas
/// added up so far.
pub proof fn law_sound_monitors_are_accepted(
    monitors: &[MonitorInfo],
    yes: bool,
    totals: Seq<int>,
)
    requires
        call_ensures(monitors_acceptable, (monitors,), yes),
        forall|i: int|
            0 <= i < monitors@.len() ==> {
                let m = #[trigger] monitors@[i];
                &&& 0 <= m.rect.right - m.rect.left <= 0x7fff_ffff
                &&& 0 <= m.rect.bottom - m.rect.top <= 0x7fff_ffff
                &&& m.total_area == (m.rect.right - m.rect.left) * (m.rect.bottom - m.rect.top)
                &&& m.index + 1 + monitors@.len() <= 0x7fff_ffff_ffff_ffff
            },
        monitors@.len() < 0x7fff_ffff_ffff_ffff,
        totals.len() == monitors@.len() + 1,
        totals[0] == 0,
        forall|i: int|
            0 <= i < monitors@.len() ==> #[trigger] totals[i + 1] == totals[i]
                + monitors@[i].total_area,
        totals.last() <= 0x7fff_ffff_ffff_ffff,
    ensures
        yes,
{
    let found = monitors@;
    let n = found.len() as int;
    lemma_added_up(areas(found), totals, n);
    assert(areas(found).take(n) =~= areas(found));
    lemma_top_index_bound(found, 0x7fff_ffff_ffff_ffff - 1 - n);
    lemma_unnumbered_bound(found);
    assert forall|i: int| 0 <= i < n implies (#[trigger] found[i]).wf() by {}
}

/// Numbers that are added up one by one come to their sum.
pub proof fn lemma_added_up(numbers: Seq<int>, totals: Seq<int>, n: int)
    requires
        0 <= n <= numbers.len(),
        totals.len() == numbers.len() + 1,
        totals[0] == 0,
        forall|i: int|
            0 <= i < numbers.len() ==> #[trigger] totals[i + 1] == totals[i] + numbers[i],
    ensures
        sum(numbers.take(n)) == totals[n],
    decreases n,
{
    if n > 0 {
        lemma_added_up(numbers, totals, n - 1);
        assert(numbers.take(n).drop_last() =~= numbers.take(n - 1));
        assert(totals[(n - 1) + 1] == totals[n - 1] + numbers[n - 1]);
    }
}

proof fn lemma_top_index_bound(monitors: Seq<MonitorInfo>, bound: int)
    requires
        0 <= bound,
        forall|i: int| 0 <= i < monitors.len() ==> (#[trigger] monitors[i]).index <= bound,
    ensures
        top_index(monitors) <= bound,
    decreases monitors.len(),
{
    if monitors.len() > 0 {
        assert forall|i: int| 0 <= i < monitors.drop_last().len() implies (
        #[trigger] monitors.drop_last()[i]).index <= bound by {
            assert(monitors.drop_last()[i] == monitors[i]);
        }
        assert(monitors[monitors.len() - 1].index <= bound);
        lemma_top_index_bound(monitors.drop_last(), bound);
    }
}

proof fn lemma_unnumbered_bound(monitors: Seq<MonitorInfo>)
    ensures
        unnumbered(monitors) <= monitors.len(),
    decreases monitors.len(),
{
    if monitors.len() > 0 {
        lemma_unnumbered_bound(monitors.drop_last());
    }
}

} // verus!
