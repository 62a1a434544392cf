//! Gregorian calendar arithmetic and the six-row month grid.

#![allow(deprecated)]

use chrono::{Datelike, TimeZone};
use vstd::prelude::*;

verus! {

/// The earliest year that the date representation holds.
pub const YEAR_MIN: i32 = -262143;

/// The latest year that the date representation holds.
pub const YEAR_MAX: i32 = 262142;

/// Number of cells in the day grid: six rows of seven days.
pub const GRID_CELLS: usize = 42;

pub open spec fn is_leap(year: int) -> bool {
    year % 400 == 0 || (year % 4 == 0 && year % 100 != 0)
}

pub open spec fn month_days(month: int, year: int) -> int {
    if month == 2 {
        if is_leap(year) { 29 } else { 28 }
    } else if month == 4 || month == 6 || month == 9 || month == 11 {
        30
    } else {
        31
    }
}

/// The (year, month) that comes before the given one.
pub open spec fn prev_month(year: int, month: int) -> (int, int) {
    if month == 1 { (year - 1, 12) } else { (year, month - 1) }
}

/// The (year, month) that comes after the given one.
pub open spec fn next_month(year: int, month: int) -> (int, int) {
    if month == 12 { (year + 1, 1) } else { (year, month + 1) }
}

pub open spec fn year_in_range(year: int) -> bool {
    YEAR_MIN <= year <= YEAR_MAX
}

pub open spec fn valid_date(year: int, month: int, day: int) -> bool {
    &&& year_in_range(year)
    &&& 1 <= month <= 12
    &&& 1 <= day <= month_days(month, year)
}

/// Days from 0001-01-01 to the first day of `year` (negative before it).
pub open spec fn days_before_year(year: int) -> int {
    let p = year - 1;
    365 * p + p / 4 - p / 100 + p / 400
}

/// Days from the first of January to the first day of `month`.
pub open spec fn days_before_month(month: int, year: int) -> int
    decreases month,
{
    if month <= 1 {
        0
    } else {
        days_before_month(month - 1, year) + month_days(month - 1, year)
    }
}

/// Weekday of a date in the proleptic Gregorian calendar, Monday being 0;
/// 0001-01-01 was a Monday.
pub open spec fn weekday_of(year: int, month: int, day: int) -> int {
    (days_before_year(year) + days_before_month(month, year) + day - 1) % 7
}

fn divisible(year: i32, d: i32) -> (r: bool)
    requires
        d > 0,
    ensures
        r == (year as int % d as int == 0),
{
    match year.checked_rem_euclid(d) {
        Some(rem) => rem == 0,
        None => false,
    }
}

pub fn check_leap_year(year: i32) -> (r: bool)
    ensures
        r == is_leap(year as int),
{
    if divisible(year, 100) {
        divisible(year, 400)
    } else {
        divisible(year, 4)
    }
}

pub fn number_days_month(month: u32, year: i32) -> (r: u32)
    requires
        1 <= month <= 12,
    ensures
        r == month_days(month as int, year as int),
        28 <= r <= 31,
{
    if month == 2 {
        if check_leap_year(year) { 29 } else { 28 }
    } else if month == 4 || month == 6 || month == 9 || month == 11 {
        30
    } else {
        31
    }
}

pub fn number_days_last_month(month: u32, year: i32) -> (r: u32)
    requires
        1 <= month <= 12,
        month == 1 ==> year > i32::MIN,
    ensures
        r == month_days(prev_month(year as int, month as int).1, prev_month(year as int, month as int).0),
        28 <= r <= 31,
{
    let last_month: u32 = if month == 1 { 12 } else { month - 1 };
    let new_year: i32 = if month == 1 { year - 1 } else { year };
    number_days_month(last_month, new_year)
}

pub fn number_days_next_month(month: u32, year: i32) -> (r: u32)
    requires
        1 <= month <= 12,
        month == 12 ==> year < i32::MAX,
    ensures
        r == month_days(next_month(year as int, month as int).1, next_month(year as int, month as int).0),
        28 <= r <= 31,
{
    let next: u32 = if month == 12 { 1 } else { month + 1 };
    let new_year: i32 = if month == 12 { year + 1 } else { year };
    number_days_month(next, new_year)
}

/// The month before January is December of the year before, and the month
/// after December is January of the year after: the lengths that
/// `number_days_last_month` and `number_days_next_month` return there.
pub proof fn lemma_month_wrap(year: int)
    ensures
        month_days(prev_month(year, 1).1, prev_month(year, 1).0) == month_days(12, year - 1),
        month_days(next_month(year, 12).1, next_month(year, 12).0) == month_days(1, year + 1),
{
}

/// Relies on chrono's `Utc.ymd(..).weekday().num_days_from_monday()`: the
/// weekday of a date of the proleptic Gregorian calendar, Monday being 0.
/// `ymd` panics on a date that is invalid or out of range.
#[verifier::external_body]
fn weekday_from_monday(year: i32, month: u32, day: u32) -> (r: u32)
    requires
        valid_date(year as int, month as int, day as int),
    ensures
        r as int == weekday_of(year as int, month as int, day as int),
{
    chrono::Utc.ymd(year, month, day).weekday().num_days_from_monday()
}

/// The weekday of the first day of the month, Monday being 0.
pub fn first_weekday(year: i32, month: u32) -> (r: u32)
    requires
        year_in_range(year as int),
        1 <= month <= 12,
    ensures
        r as int == weekday_of(year as int, month as int, 1),
        r < 7,
{
    weekday_from_monday(year, month, 1)
}

/// Which month a grid cell belongs to.
#[derive(Clone, Copy, Debug, PartialEq, Eq, Structural)]
pub enum CellKind {
    /// A trailing day of the month before.
    Previous,
    /// A day of the month shown.
    Current,
    /// A leading day of the month after.
    Next,
}

/// One cell of the day grid: the month it belongs to and its day number.
#[derive(Clone, Copy, Debug, PartialEq, Eq, Structural)]
pub struct Cell {
    pub kind: CellKind,
    pub day: u32,
}

/// The cell at linear position `i` (row `i / 7`, column `i % 7`) of the grid
/// of the given month.
pub open spec fn cell_at(year: int, month: int, i: int) -> Cell {
    let w = weekday_of(year, month, 1);
    let n = month_days(month, year);
    let (py, pm) = prev_month(year, month);
    if i < w {
        Cell { kind: CellKind::Previous, day: (month_days(pm, py) - (w - 1 - i)) as u32 }
    } else if i < w + n {
        Cell { kind: CellKind::Current, day: (i - w + 1) as u32 }
    } else {
        Cell { kind: CellKind::Next, day: (i - w - n + 1) as u32 }
    }
}

pub open spec fn grid(year: int, month: int) -> Seq<Cell> {
    Seq::new(GRID_CELLS as nat, |i: int| cell_at(year, month, i))
}

/// Number of cells of kind `k` among the first `len` cells of `cells`.
pub open spec fn count_kind(cells: Seq<Cell>, k: CellKind, len: int) -> int
    decreases len,
{
    if len <= 0 {
        0
    } else {
        count_kind(cells, k, len - 1) + if cells[len - 1].kind == k { 1int } else { 0int }
    }
}

proof fn lemma_weekday_bound(year: int, month: int)
    ensures
        0 <= weekday_of(year, month, 1) < 7,
{
}

proof fn lemma_count_prefix(year: int, month: int, len: int)
    requires
        1 <= month <= 12,
        0 <= len <= GRID_CELLS,
    ensures
        ({
            let w = weekday_of(year, month, 1);
            let n = month_days(month, year);
            let g = grid(year, month);
            &&& count_kind(g, CellKind::Previous, len) == if len < w { len } else { w }
            &&& count_kind(g, CellKind::Current, len) == if len < w { 0 } else if len < w + n { len - w } else { n }
            &&& count_kind(g, CellKind::Next, len) == if len < w + n { 0 } else { len - w - n }
        }),
    decreases len,
{
    lemma_weekday_bound(year, month);
    if len > 0 {
        lemma_count_prefix(year, month, len - 1);
    }
}

/// The grid of a month holds exactly as many current-month cells as the
/// month has days; the cells of the adjacent months fill the other
/// `42 - days` places.
pub proof fn lemma_grid_counts(year: int, month: int)
    requires
        1 <= month <= 12,
    ensures
        count_kind(grid(year, month), CellKind::Current, GRID_CELLS as int) == month_days(month, year),
        count_kind(grid(year, month), CellKind::Previous, GRID_CELLS as int)
            + count_kind(grid(year, month), CellKind::Next, GRID_CELLS as int)
            == GRID_CELLS - month_days(month, year),
{
    lemma_weekday_bound(year, month);
    lemma_count_prefix(year, month, GRID_CELLS as int);
}

/// The 42 cells of the grid of a month, row by row from Monday to Sunday.
pub fn grid_cells(year: i32, month: u32) -> (r: Vec<Cell>)
    requires
        year_in_range(year as int),
        1 <= month <= 12,
    ensures
        r@ == grid(year as int, month as int),
{
    let weekday = first_weekday(year, month);
    let days = number_days_month(month, year);
    let last_month_days = number_days_last_month(month, year);
    let mut cells: Vec<Cell> = Vec::new();
    let mut i: u32 = 0;
    while i < 42
        invariant
            i <= 42,
            weekday as int == weekday_of(year as int, month as int, 1),
            weekday < 7,
            days as int == month_days(month as int, year as int),
            28 <= days <= 31,
            last_month_days == month_days(
                prev_month(year as int, month as int).1,
                prev_month(year as int, month as int).0,
            ),
            28 <= last_month_days <= 31,
            cells@.len() == i,
            forall|j: int| 0 <= j < i ==> cells@[j] == cell_at(year as int, month as int, j),
        decreases 42 - i,
    {
        let cell = if i < weekday {
            Cell { kind: CellKind::Previous, day: last_month_days - (weekday - 1 - i) }
        } else if i < weekday + days {
            Cell { kind: CellKind::Current, day: i - weekday + 1 }
        } else {
            Cell { kind: CellKind::Next, day: i - weekday - days + 1 }
        };
        cells.push(cell);
        i = i + 1;
    }
    assert(cells@ =~= grid(year as int, month as int));
    cells
}

} // verus!
