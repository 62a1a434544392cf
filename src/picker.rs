//! The date picker's state, its configuration, and the state machine that
//! turns pointer input into date changes.

use vstd::prelude::*;

use crate::calendar::{
    first_weekday, month_days, next_month, number_days_last_month, number_days_month,
    number_days_next_month, prev_month, valid_date, weekday_of, year_in_range, YEAR_MAX, YEAR_MIN,
};
use crate::text::{date_text, format_ymd};

verus! {

/// Padding around the input text when none is configured.
pub const DEFAULT_PADDING: u16 = 10;

/// Text size of the input field when none is configured.
pub const DEFAULT_TEXT_SIZE: u16 = 20;

/// The date selected by clicking grid cell number `n` (1-based, row by row,
/// from the top-left day cell) of the grid of the given month.
pub open spec fn select_day(year: int, month: int, n: int) -> (int, int, int) {
    let w = weekday_of(year, month, 1);
    let days = month_days(month, year);
    if w < n && n <= w + days {
        (year, month, n - w)
    } else if n <= w {
        let (py, pm) = prev_month(year, month);
        (py, pm, month_days(pm, py) - (w - n))
    } else {
        let (ny, nm) = next_month(year, month);
        (ny, nm, n - w - days)
    }
}

/// One month back, the day clamped to the length of that month.
pub open spec fn month_back(date: (int, int, int)) -> (int, int, int) {
    let (py, pm) = prev_month(date.0, date.1);
    (py, pm, if date.2 > month_days(pm, py) { month_days(pm, py) } else { date.2 })
}

/// One month forward, the day clamped to the length of that month.
pub open spec fn month_forward(date: (int, int, int)) -> (int, int, int) {
    let (ny, nm) = next_month(date.0, date.1);
    (ny, nm, if date.2 > month_days(nm, ny) { month_days(nm, ny) } else { date.2 })
}

pub open spec fn date_of(t: (i32, u32, u32)) -> (int, int, int) {
    (t.0 as int, t.1 as int, t.2 as int)
}

/// The state of a date picker: whether a press is in progress, whether the
/// calendar is open, and the selected date.
#[derive(Debug, Clone, Copy, PartialEq, Eq)]
pub struct State {
    is_pressed: bool,
    pub is_focused: bool,
    year: i32,
    month: u32,
    day: u32,
}

impl State {
    pub closed spec fn spec_pressed(&self) -> bool {
        self.is_pressed
    }

    pub closed spec fn spec_focused(&self) -> bool {
        self.is_focused
    }

    pub closed spec fn spec_date(&self) -> (int, int, int) {
        (self.year as int, self.month as int, self.day as int)
    }

    /// The selected date is a valid date of the representable range.
    pub open spec fn wf(&self) -> bool {
        valid_date(self.spec_date().0, self.spec_date().1, self.spec_date().2)
    }

    /// A state for an unfocused picker showing the given date, if it is valid.
    pub fn new(year: i32, month: u32, day: u32) -> (r: Option<State>)
        ensures
            r is Some <==> valid_date(year as int, month as int, day as int),
            r matches Some(s) ==> s.wf() && !s.spec_pressed() && !s.spec_focused()
                && s.spec_date() == (year as int, month as int, day as int),
    {
        if year < YEAR_MIN || year > YEAR_MAX || month < 1 || month > 12 || day < 1 {
            return None;
        }
        if day > number_days_month(month, year) {
            return None;
        }
        Some(State { is_pressed: false, is_focused: false, year, month, day })
    }

    pub fn year(&self) -> (r: i32)
        ensures
            r as int == self.spec_date().0,
    {
        self.year
    }

    pub fn month(&self) -> (r: u32)
        ensures
            r as int == self.spec_date().1,
    {
        self.month
    }

    pub fn day(&self) -> (r: u32)
        ensures
            r as int == self.spec_date().2,
    {
        self.day
    }

    pub fn is_pressed(&self) -> (r: bool)
        ensures
            r == self.spec_pressed(),
    {
        self.is_pressed
    }
}

/// A pointer event, as the widget sees it once the host has tested the
/// cursor against the widget's layout.
#[derive(Clone, Copy, Debug, PartialEq, Eq)]
pub enum PointerEvent {
    /// The left button went down; `inside` tells whether the cursor was
    /// within the widget's bounds.
    Pressed { inside: bool },
    /// The left button went up. `in_input` tells whether the cursor was
    /// above the lower edge of the input field; `row` and `column` are the
    /// 1-based cell coordinates of the cursor in the calendar below it.
    Released { inside: bool, in_input: bool, row: i32, column: i32 },
    /// Any other input.
    Other,
}

/// What the host has to do after an event.
#[derive(Clone, Debug)]
pub enum Reaction {
    Nothing,
    /// Send the configured focus message, which opens or closes the calendar.
    ToggleFocus,
    /// A day was selected: report this text of the new date.
    Changed(String),
}

/// The configuration of a date picker for one frame.
pub struct DatePicker<Message> {
    pub w: u32,
    pub h: u32,
    pub placeholder: String,
    pub value: String,
    pub on_focus: Option<Message>,
    pub padding: Option<u16>,
    pub size: Option<u16>,
}

/// The fields that decide the layout: two pickers with equal keys lay out alike.
#[derive(Clone, Copy, Debug, PartialEq, Eq, Hash, Structural)]
pub struct LayoutKey {
    pub w: u32,
    pub h: u32,
    pub padding: Option<u16>,
    pub size: Option<u16>,
    pub is_focused: bool,
}

/// The date that clicking cell `n` selects, unless it leaves the
/// representable range.
fn selected_date(year: i32, month: u32, n: u32) -> (r: Option<(i32, u32, u32)>)
    requires
        year_in_range(year as int),
        1 <= month <= 12,
        n <= 42,
    ensures
        r is Some <==> year_in_range(select_day(year as int, month as int, n as int).0),
        r matches Some(t) ==> date_of(t) == select_day(year as int, month as int, n as int),
{
    let weekday = first_weekday(year, month);
    let days = number_days_month(month, year);
    if n > weekday && n <= days + weekday {
        Some((year, month, n - weekday))
    } else if n <= weekday {
        let last_month_days = number_days_last_month(month, year);
        if month == 1 {
            if year == YEAR_MIN {
                None
            } else {
                Some((year - 1, 12, last_month_days - (weekday - n)))
            }
        } else {
            Some((year, month - 1, last_month_days - (weekday - n)))
        }
    } else {
        if month == 12 {
            if year == YEAR_MAX {
                None
            } else {
                Some((year + 1, 1, n - weekday - days))
            }
        } else {
            Some((year, month + 1, n - weekday - days))
        }
    }
}

/// The date one month back, unless it leaves the representable range.
fn previous_month_date(year: i32, month: u32, day: u32) -> (r: Option<(i32, u32, u32)>)
    requires
        valid_date(year as int, month as int, day as int),
    ensures
        r is Some <==> year_in_range(month_back((year as int, month as int, day as int)).0),
        r matches Some(t) ==> date_of(t) == month_back((year as int, month as int, day as int)),
{
    let last_month_days = number_days_last_month(month, year);
    let new_day = if day > last_month_days { last_month_days } else { day };
    if month == 1 {
        if year == YEAR_MIN {
            None
        } else {
            Some((year - 1, 12, new_day))
        }
    } else {
        Some((year, month - 1, new_day))
    }
}

/// The date one month forward, unless it leaves the representable range.
fn next_month_date(year: i32, month: u32, day: u32) -> (r: Option<(i32, u32, u32)>)
    requires
        valid_date(year as int, month as int, day as int),
    ensures
        r is Some <==> year_in_range(month_forward((year as int, month as int, day as int)).0),
        r matches Some(t) ==> date_of(t) == month_forward((year as int, month as int, day as int)),
{
    let next_month_days = number_days_next_month(month, year);
    let new_day = if day > next_month_days { next_month_days } else { day };
    if month == 12 {
        if year == YEAR_MAX {
            None
        } else {
            Some((year + 1, 1, new_day))
        }
    } else {
        Some((year, month + 1, new_day))
    }
}

/// The reaction owed to a release that opens or closes the calendar.
pub open spec fn focus_reaction<Message>(on_focus: Option<Message>, r: Reaction) -> bool {
    if on_focus is Some { r is ToggleFocus } else { r is Nothing }
}

impl<Message> DatePicker<Message> {
    /// A picker `w` units wide showing `value`, or `placeholder` when the
    /// value is empty.
    pub fn new(w: u32, placeholder: &str, value: &str) -> (r: Self)
        ensures
            r.w == w,
            r.h == w,
            r.placeholder@ == placeholder@,
            r.value@ == value@,
            r.on_focus is None,
            r.padding is None,
            r.size is None,
    {
        DatePicker {
            w,
            h: w,
            placeholder: placeholder.to_owned(),
            value: value.to_owned(),
            on_focus: None,
            padding: None,
            size: None,
        }
    }

    /// The text of the selected date, `YYYY-MM-DD`.
    pub fn format_date(&self, state: &State) -> (r: String)
        requires
            state.wf(),
        ensures
            r@ == date_text(state.spec_date().0, state.spec_date().1, state.spec_date().2),
    {
        format_ymd(state.year, state.month, state.day)
    }

    /// Reacts to a pointer event: records presses, opens or closes the
    /// calendar, selects a day or moves one month back or forward.
    pub fn on_event(&self, state: &mut State, event: PointerEvent) -> (r: Reaction)
        requires
            old(state).wf(),
        ensures
            final(state).wf(),
            final(state).spec_focused() == old(state).spec_focused(),
            match event {
                PointerEvent::Pressed { inside } => {
                    &&& final(state).spec_pressed() == (inside || old(state).spec_pressed())
                    &&& final(state).spec_date() == old(state).spec_date()
                    &&& r is Nothing
                },
                PointerEvent::Released { inside, in_input, row, column } => {
                    let d = old(state).spec_date();
                    let clicked = old(state).spec_pressed() && inside;
                    let n = (row - 2) * 7 + column;
                    &&& !final(state).spec_pressed()
                    &&& if !clicked {
                        &&& final(state).spec_date() == d
                        &&& if old(state).spec_focused() {
                            focus_reaction(self.on_focus, r)
                        } else {
                            r is Nothing
                        }
                    } else if in_input {
                        final(state).spec_date() == d && focus_reaction(self.on_focus, r)
                    } else if 2 <= row <= 7 && 0 <= column <= 7 {
                        let t = select_day(d.0, d.1, n);
                        let w = weekday_of(d.0, d.1, 1);
                        let days = month_days(d.1, d.0);
                        let (py, pm) = prev_month(d.0, d.1);
                        let (ny, nm) = next_month(d.0, d.1);
                        &&& (w < n <= w + days ==> final(state).spec_date() == (d.0, d.1, n - w))
                        &&& (n <= w && year_in_range(py) ==>
                            final(state).spec_date() == (py, pm, month_days(pm, py) - (w - n)))
                        &&& (w + days < n && year_in_range(ny) ==>
                            final(state).spec_date() == (ny, nm, n - w - days))
                        &&& if year_in_range(t.0) {
                            &&& final(state).spec_date() == t
                            &&& r matches Reaction::Changed(text) && text@ == date_text(t.0, t.1, t.2)
                        } else {
                            final(state).spec_date() == d && r is Nothing
                        }
                    } else if row == 8 && (column == 1 || column == 2) {
                        &&& r is Nothing
                        &&& final(state).spec_date() == if year_in_range(month_back(d).0) {
                            month_back(d)
                        } else {
                            d
                        }
                    } else if row == 8 && (column == 6 || column == 7) {
                        &&& r is Nothing
                        &&& final(state).spec_date() == if year_in_range(month_forward(d).0) {
                            month_forward(d)
                        } else {
                            d
                        }
                    } else {
                        final(state).spec_date() == d && r is Nothing
                    }
                },
                PointerEvent::Other => {
                    *final(state) == *old(state) && r is Nothing
                },
            },
    {
        match event {
            PointerEvent::Pressed { inside } => {
                if inside {
                    state.is_pressed = true;
                }
                Reaction::Nothing
            },
            PointerEvent::Released { inside, in_input, row, column } => {
                let is_clicked = state.is_pressed && inside;
                state.is_pressed = false;
                if !is_clicked {
                    if state.is_focused {
                        self.focus_reaction()
                    } else {
                        Reaction::Nothing
                    }
                } else if in_input {
                    self.focus_reaction()
                } else if 2 <= row && row <= 7 && 0 <= column && column <= 7 {
                    let n = ((row - 2) * 7 + column) as u32;
                    match selected_date(state.year, state.month, n) {
                        Some((year, month, day)) => {
                            state.year = year;
                            state.month = month;
                            state.day = day;
                            Reaction::Changed(format_ymd(year, month, day))
                        },
                        None => Reaction::Nothing,
                    }
                } else if row == 8 && (column == 1 || column == 2) {
                    if let Some((year, month, day)) = previous_month_date(state.year, state.month, state.day) {
                        state.year = year;
                        state.month = month;
                        state.day = day;
                    }
                    Reaction::Nothing
                } else if row == 8 && (column == 6 || column == 7) {
                    if let Some((year, month, day)) = next_month_date(state.year, state.month, state.day) {
                        state.year = year;
                        state.month = month;
                        state.day = day;
                    }
                    Reaction::Nothing
                } else {
                    Reaction::Nothing
                }
            },
            PointerEvent::Other => Reaction::Nothing,
        }
    }

    /// Sets the message that opens or closes the calendar.
    pub fn on_focus(self, msg: Message) -> (r: Self)
        ensures
            r.on_focus == Some(msg),
            r.w == self.w && r.h == self.h && r.padding == self.padding && r.size == self.size,
            r.placeholder@ == self.placeholder@ && r.value@ == self.value@,
    {
        DatePicker { on_focus: Some(msg), ..self }
    }

    /// Sets the padding around the input text.
    pub fn padding(self, padding: u16) -> (r: Self)
        ensures
            r.padding == Some(padding),
            r.w == self.w && r.h == self.h && r.on_focus == self.on_focus && r.size == self.size,
            r.placeholder@ == self.placeholder@ && r.value@ == self.value@,
    {
        DatePicker { padding: Some(padding), ..self }
    }

    /// Sets the text size of the input field.
    pub fn size(self, size: u16) -> (r: Self)
        ensures
            r.size == Some(size),
            r.w == self.w && r.h == self.h && r.on_focus == self.on_focus && r.padding == self.padding,
            r.placeholder@ == self.placeholder@ && r.value@ == self.value@,
    {
        DatePicker { size: Some(size), ..self }
    }

    /// Height of the input field: the text size with the padding above and below.
    pub fn input_height(&self) -> (r: u32)
        ensures
            r == 2 * (match self.padding { Some(p) => p, None => DEFAULT_PADDING }) as int
                + (match self.size { Some(t) => t, None => DEFAULT_TEXT_SIZE }) as int,
    {
        let padding: u16 = match self.padding {
            Some(p) => p,
            None => DEFAULT_PADDING,
        };
        let size: u16 = match self.size {
            Some(t) => t,
            None => DEFAULT_TEXT_SIZE,
        };
        2 * (padding as u32) + size as u32
    }

    /// The fields on which the layout depends.
    pub fn layout_key(&self, state: &State) -> (r: LayoutKey)
        ensures
            r == (LayoutKey {
                w: self.w,
                h: self.h,
                padding: self.padding,
                size: self.size,
                is_focused: state.spec_focused(),
            }),
    {
        LayoutKey { w: self.w, h: self.h, padding: self.padding, size: self.size, is_focused: state.is_focused }
    }

    fn focus_reaction(&self) -> (r: Reaction)
        ensures
            focus_reaction(self.on_focus, r),
    {
        match self.on_focus {
            Some(_) => Reaction::ToggleFocus,
            None => Reaction::Nothing,
        }
    }
}

/// Selecting a cell before the first day of the month moves one month back,
/// from January to December of the year before, and selects the day of
/// that month that the cell shows.
pub proof fn lemma_select_previous_month(year: int, month: int, n: int)
    requires
        1 <= month <= 12,
        0 <= n <= weekday_of(year, month, 1),
    ensures
        ({
            let t = select_day(year, month, n);
            let (py, pm) = prev_month(year, month);
            &&& (t.0, t.1) == prev_month(year, month)
            &&& t.2 == month_days(pm, py) - (weekday_of(year, month, 1) - n)
            &&& 1 <= t.2 <= month_days(pm, py)
        }),
{
}

/// Selecting a cell after the last day of the month moves one month
/// forward, from December to January of the year after, and selects the
/// day of that month that the cell shows.
pub proof fn lemma_select_next_month(year: int, month: int, n: int)
    requires
        1 <= month <= 12,
        weekday_of(year, month, 1) + month_days(month, year) < n <= 42,
    ensures
        ({
            let t = select_day(year, month, n);
            let (ny, nm) = next_month(year, month);
            &&& (t.0, t.1) == next_month(year, month)
            &&& t.2 == n - weekday_of(year, month, 1) - month_days(month, year)
            &&& 1 <= t.2 <= month_days(nm, ny)
        }),
{
}

/// The date after `k` moves one month back.
pub open spec fn back_steps(date: (int, int, int), k: nat) -> (int, int, int)
    decreases k,
{
    if k == 0 { date } else { month_back(back_steps(date, (k - 1) as nat)) }
}

/// The date after `k` moves one month forward.
pub open spec fn forward_steps(date: (int, int, int), k: nat) -> (int, int, int)
    decreases k,
{
    if k == 0 { date } else { month_forward(forward_steps(date, (k - 1) as nat)) }
}

/// Months counted from January of year 0.
pub open spec fn month_index(date: (int, int, int)) -> int {
    date.0 * 12 + date.1 - 1
}

proof fn lemma_back_steps(date: (int, int, int), k: nat)
    requires
        1 <= date.1 <= 12,
        1 <= date.2,
    ensures
        month_index(back_steps(date, k)) == month_index(date) - k,
        1 <= back_steps(date, k).1 <= 12,
        1 <= back_steps(date, k).2,
        k > 0 ==> back_steps(date, k).2 <= month_days(back_steps(date, k).1, back_steps(date, k).0),
    decreases k,
{
    if k > 0 {
        lemma_back_steps(date, (k - 1) as nat);
    }
}

proof fn lemma_forward_steps(date: (int, int, int), k: nat)
    requires
        1 <= date.1 <= 12,
        1 <= date.2,
    ensures
        month_index(forward_steps(date, k)) == month_index(date) + k,
        1 <= forward_steps(date, k).1 <= 12,
        1 <= forward_steps(date, k).2,
        k > 0 ==> forward_steps(date, k).2 <= month_days(forward_steps(date, k).1, forward_steps(date, k).0),
    decreases k,
{
    if k > 0 {
        lemma_forward_steps(date, (k - 1) as nat);
    }
}

proof fn lemma_same_month_index(a: (int, int, int), b: (int, int, int))
    requires
        1 <= a.1 <= 12,
        1 <= b.1 <= 12,
        month_index(a) == month_index(b),
    ensures
        a.0 == b.0 && a.1 == b.1,
{
    if a.0 < b.0 {
        assert(a.0 * 12 <= b.0 * 12 - 12) by (nonlinear_arith)
            requires a.0 < b.0;
    } else if a.0 > b.0 {
        assert(b.0 * 12 <= a.0 * 12 - 12) by (nonlinear_arith)
            requires b.0 < a.0;
    }
}

/// Twelve moves back with the month controls reach the same month of the
/// year before, twelve moves forward the same month of the year after, and
/// twelve back then twelve forward the starting month; at every step the
/// day is a day of the month reached.
pub proof fn lemma_twelve_steps(year: int, month: int, day: int, k: nat)
    requires
        1 <= month <= 12,
        1 <= day <= month_days(month, year),
        k <= 12,
    ensures
        (back_steps((year, month, day), 12).0, back_steps((year, month, day), 12).1) == (year - 1, month),
        (forward_steps((year, month, day), 12).0, forward_steps((year, month, day), 12).1) == (year + 1, month),
        ({
            let r = forward_steps(back_steps((year, month, day), 12), 12);
            (r.0, r.1) == (year, month)
        }),
        1 <= back_steps((year, month, day), k).2 <= month_days(
            back_steps((year, month, day), k).1,
            back_steps((year, month, day), k).0,
        ),
        1 <= forward_steps((year, month, day), k).2 <= month_days(
            forward_steps((year, month, day), k).1,
            forward_steps((year, month, day), k).0,
        ),
{
    let d = (year, month, day);
    lemma_back_steps(d, 12);
    lemma_forward_steps(d, 12);
    lemma_back_steps(d, k);
    lemma_forward_steps(d, k);
    let b = back_steps(d, 12);
    lemma_forward_steps(b, 12);
    lemma_same_month_index(b, (year - 1, month, day));
    lemma_same_month_index(forward_steps(d, 12), (year + 1, month, day));
    lemma_same_month_index(forward_steps(b, 12), d);
}

} // verus!
