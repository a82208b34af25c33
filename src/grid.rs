//! The cells of a month page: the last days of the previous month that fill
//! the first week, the days of the month, and the first days of the next
//! month that fill the last week.

use vstd::prelude::*;
use crate::calendar::{
    MAX_YEAR,
    Weekday,
    days_in_month_spec,
    day_number,
    generate_month,
    get_week_day,
    valid_month,
    weekday_index,
};

verus! {

/// One cell of the seven-column grid.
#[derive(Clone, Copy, Debug, PartialEq, Eq, Structural)]
pub struct GridCell {
    /// The day of its month, from 1.
    pub day: u32,
    /// Whether the day belongs to the month shown, not to a neighbour.
    pub in_current_month: bool,
}

/// A month of a year.
#[derive(Clone, Copy, Debug, PartialEq, Eq, Structural)]
pub struct MonthKey {
    pub year: u64,
    pub month: u32,
}

/// The grid was asked for a month that does not exist or cannot be shown.
#[derive(Clone, Copy, Debug, PartialEq, Eq, Structural)]
pub struct InvalidDate {
    pub year: u64,
    pub month: u32,
}

/// `count` cells for consecutive days from `start`.
pub open spec fn run_of_days(count: nat, start: int, current: bool) -> Seq<GridCell> {
    Seq::new(count, |i: int| GridCell { day: (start + i) as u32, in_current_month: current })
}

/// The month before `month` (1 to 12), carrying the year back from January.
pub open spec fn prev_month_spec(year: int, month: int) -> (int, int) {
    if month == 1 { (year - 1, 12) } else { (year, month - 1) }
}

/// A month number one step outside 1 to 12 brought back into range, with the
/// year carried across the December / January boundary.
pub open spec fn roll_month_spec(year: int, month: int) -> (int, int) {
    if month == 13 { (year + 1, 1) }
    else if month == 0 { (year - 1, 12) }
    else { (year, month) }
}

/// How many days of the previous month open the grid: the first day of the
/// month stands in the column of its weekday.
pub open spec fn leading_padding(year: int, month: int) -> int {
    weekday_index(year, month, 1)
}

/// How many days of the next month close the grid: the last week ends on a Saturday.
pub open spec fn trailing_padding(year: int, month: int) -> int {
    6 - weekday_index(year, month, days_in_month_spec(year, month))
}

/// The cells of the page for `month` of `year`, in reading order.
pub open spec fn month_grid(year: int, month: int) -> Seq<GridCell> {
    let lead = leading_padding(year, month);
    let (py, pm) = prev_month_spec(year, month);
    let prev_days = days_in_month_spec(py, pm);
    run_of_days(lead as nat, prev_days - lead + 1, false)
        + run_of_days(days_in_month_spec(year, month) as nat, 1, true)
        + run_of_days(trailing_padding(year, month) as nat, 1, false)
}

/// How many days of the previous month fill the first week of a month whose
/// first day falls on `weekday`.
pub fn get_last_days_of_prev_month(weekday: Weekday) -> (r: u32)
    ensures
        r == weekday.index(),
{
    weekday.num_days_from_sunday()
}

/// How many days of the next month fill the last week of a month whose last
/// day falls on `weekday`.
pub fn get_first_days_of_next_month(weekday: Weekday) -> (r: u32)
    ensures
        r == 6 - weekday.index(),
{
    6 - weekday.num_days_from_sunday()
}

/// Appends `days` cells for consecutive days from `start_day`.
pub fn insert_days(boxes: &mut Vec<GridCell>, days: u32, start_day: u32, in_current_month: bool)
    requires
        start_day + days <= u32::MAX,
    ensures
        final(boxes)@ == old(boxes)@ + run_of_days(days as nat, start_day as int, in_current_month),
{
    let ghost before = boxes@;
    let mut i: u32 = 0;
    while i < days
        invariant
            i <= days,
            start_day + days <= u32::MAX,
            boxes@ == before + run_of_days(i as nat, start_day as int, in_current_month),
        decreases days - i,
    {
        boxes.push(GridCell { day: start_day + i, in_current_month });
        i = i + 1;
        assert(boxes@ =~= before + run_of_days(i as nat, start_day as int, in_current_month));
    }
}

/// The month before `month` (1 to 12) of `year` (at least 1).
pub fn previous_month(year: u64, month: u32) -> (r: MonthKey)
    requires
        1 <= year,
        1 <= month <= 12,
    ensures
        (r.year as int, r.month as int) == prev_month_spec(year as int, month as int),
{
    if month == 1 {
        MonthKey { year: year - 1, month: 12 }
    } else {
        MonthKey { year, month: month - 1 }
    }
}

/// Brings a month number one step past either end of a year (0 or 13) back
/// into 1 to 12, carrying the year.
pub fn roll_month(year: u64, month: u32) -> (r: MonthKey)
    requires
        month <= 13,
        month == 13 ==> year < u64::MAX,
        month == 0 ==> year >= 1,
    ensures
        (r.year as int, r.month as int) == roll_month_spec(year as int, month as int),
{
    if month == 13 {
        MonthKey { year: year + 1, month: 1 }
    } else if month == 0 {
        MonthKey { year: year - 1, month: 12 }
    } else {
        MonthKey { year, month }
    }
}

/// The month after `key`.
pub fn next_month(key: MonthKey) -> (r: MonthKey)
    requires
        1 <= key.month <= 12,
        key.month == 12 ==> key.year < u64::MAX,
    ensures
        (r.year as int, r.month as int) == roll_month_spec(key.year as int, key.month + 1),
        key.month < 12 ==> r.year == key.year && r.month == key.month + 1,
        key.month == 12 ==> r.year == key.year + 1 && r.month == 1,
{
    roll_month(key.year, key.month + 1)
}

proof fn lemma_last_weekday(year: int, month: int)
    requires
        valid_month(year, month),
    ensures
        weekday_index(year, month, days_in_month_spec(year, month))
            == (weekday_index(year, month, 1) + days_in_month_spec(year, month) - 1) % 7,
{
    let a = day_number(year, month, 1) + 1;
    let dim = days_in_month_spec(year, month);
    assert(day_number(year, month, dim) + 1 == a + dim - 1);
    vstd::arithmetic::div_mod::lemma_add_mod_noop(a, dim - 1, 7);
    vstd::arithmetic::div_mod::lemma_mod_twice(dim - 1, 7);
    vstd::arithmetic::div_mod::lemma_add_mod_noop(a % 7, dim - 1, 7);
}

/// The cells of the page for `month` of `year`, in reading order.
pub fn load_calendar(year: u64, month: u32) -> (r: Vec<GridCell>)
    requires
        valid_month(year as int, month as int),
    ensures
        r@ == month_grid(year as int, month as int),
{
    let days_of_month = generate_month(year, month);
    let first_weekday = get_week_day(year, month, 1);
    let last_weekday = get_week_day(year, month, days_of_month as u32);
    let lead = get_last_days_of_prev_month(first_weekday);
    let trail = get_first_days_of_next_month(last_weekday);
    let prev = previous_month(year, month);
    let days_of_prev_month = generate_month(prev.year, prev.month);

    let mut boxes: Vec<GridCell> = Vec::new();
    insert_days(&mut boxes, lead, (days_of_prev_month - lead as u64 + 1) as u32, false);
    insert_days(&mut boxes, days_of_month as u32, 1, true);
    insert_days(&mut boxes, trail, 1, false);
    boxes
}

/// The cells of the page for `month` of `year`, or `InvalidDate` where the
/// month does not exist or the year lies outside 1 to `MAX_YEAR`.
pub fn build_month_grid(year: u64, month: u32) -> (r: Result<Vec<GridCell>, InvalidDate>)
    ensures
        match r {
            Ok(cells) => valid_month(year as int, month as int)
                && cells@ == month_grid(year as int, month as int),
            Err(e) => !valid_month(year as int, month as int)
                && e == (InvalidDate { year, month }),
        },
{
    if 1 <= year && year <= MAX_YEAR && 1 <= month && month <= 12 {
        Ok(load_calendar(year, month))
    } else {
        Err(InvalidDate { year, month })
    }
}

/// Every page holds whole weeks: between four and six of them.
pub proof fn lemma_grid_whole_weeks(year: int, month: int)
    requires
        valid_month(year, month),
    ensures
        month_grid(year, month).len() % 7 == 0,
        28 <= month_grid(year, month).len() <= 42,
{
    lemma_last_weekday(year, month);
    let w1 = weekday_index(year, month, 1);
    let dim = days_in_month_spec(year, month);
    let b = w1 + dim - 1;
    let len = month_grid(year, month).len() as int;
    assert(len == w1 + dim + 6 - b % 7);
    vstd::arithmetic::div_mod::lemma_fundamental_div_mod(b, 7);
    assert(len == 7 * (b / 7) + 7);
    assert(len == 7 * (b / 7 + 1));
    vstd::arithmetic::div_mod::lemma_mod_multiples_basic(b / 7 + 1, 7);
    assert(27 <= b <= 36);
    assert(3 <= b / 7 <= 5);
}

/// The cells of the month itself are exactly its days `1..=n`, ascending and
/// contiguous, right after the leading padding; no other cell belongs to it.
pub proof fn lemma_grid_month_days(year: int, month: int)
    requires
        valid_month(year, month),
    ensures
        ({
            let g = month_grid(year, month);
            let lead = leading_padding(year, month);
            let dim = days_in_month_spec(year, month);
            &&& lead + dim <= g.len()
            &&& forall|i: int| 0 <= i < g.len() ==> (g[i].in_current_month <==> lead <= i < lead + dim)
            &&& forall|i: int| lead <= i < lead + dim ==> g[i].day == i - lead + 1
            &&& g.subrange(lead, lead + dim) == run_of_days(dim as nat, 1, true)
        }),
{
    let g = month_grid(year, month);
    let lead = leading_padding(year, month);
    let dim = days_in_month_spec(year, month);
    let (py, pm) = prev_month_spec(year, month);
    let a = run_of_days(lead as nat, days_in_month_spec(py, pm) - lead + 1, false);
    let m = run_of_days(dim as nat, 1, true);
    let t = run_of_days(trailing_padding(year, month) as nat, 1, false);
    assert(g == a + m + t);
    assert forall|i: int| 0 <= i < g.len() implies (g[i].in_current_month <==> lead <= i < lead + dim) by {
        if i < lead {
            assert(g[i] == a[i]);
        } else if i < lead + dim {
            assert(g[i] == m[i - lead]);
        } else {
            assert(g[i] == t[i - lead - dim]);
        }
    }
    assert forall|i: int| lead <= i < lead + dim implies g[i].day == i - lead + 1 by {
        assert(g[i] == m[i - lead]);
    }
    assert(g.subrange(lead, lead + dim) =~= m);
}

/// The number of leading cells matches the weekday of the first day modulo 7.
/// Their sum is 0 modulo 7 only when the month starts on a Sunday.
pub proof fn lemma_leading_padding_sum(year: int, month: int)
    requires
        valid_month(year, month),
        weekday_index(year, month, 1) == 0,
    ensures
        (leading_padding(year, month) + weekday_index(year, month, 1)) % 7 == 0,
        (leading_padding(year, month) - weekday_index(year, month, 1)) % 7 == 0,
{
}

/// The leading padding count is the first day's weekday, Sunday = 0, modulo 7.
pub proof fn lemma_leading_padding_aligns(year: int, month: int)
    requires
        valid_month(year, month),
    ensures
        (leading_padding(year, month) - weekday_index(year, month, 1)) % 7 == 0,
        month_grid(year, month)[leading_padding(year, month)] == (GridCell { day: 1, in_current_month: true }),
{
    lemma_grid_month_days(year, month);
}

/// The trailing padding count plus the last day's weekday, Sunday = 0, is
/// 6 modulo 7: the last row ends on a Saturday.
pub proof fn lemma_trailing_padding_sum(year: int, month: int)
    requires
        valid_month(year, month),
    ensures
        (trailing_padding(year, month)
            + weekday_index(year, month, days_in_month_spec(year, month))) % 7 == 6,
        month_grid(year, month).len() == leading_padding(year, month)
            + days_in_month_spec(year, month) + trailing_padding(year, month),
{
}

} // verus!
