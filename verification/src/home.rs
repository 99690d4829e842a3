//! The search form of the home page: two dates picked with the keyboard,
//! day by day, week by week or month by month, and the search criteria
//! they give.
use vstd::prelude::*;

use crate::date_range::{days_in_month, spec_days_in_month, spec_is_leap_year};
use crate::text::{push_char, zero_padded, zero_padded_string};
use crate::i18n::Messages;
use crate::keys::{KeyCode, KeyInput};

verus! {

/// The dates of a search, as the form writes them (`YYYY-MM-DD`).
#[derive(Clone, Debug, PartialEq, Eq)]
pub struct SearchCriteriaInput {
    pub initial_date: String,
    pub final_date: String,
}

/// What the home page asks of the program after a key.
pub enum HomePageAction {
    Continue,
    OpenSettings,
    Quit,
    Submit(SearchCriteriaInput),
}

/// What the home page shows below the form.
pub enum HomePageStatus<'a> {
    Idle,
    Searching { initial_date: &'a str, final_date: &'a str, frame: usize },
    Error(&'a str),
}

/// The date field that has the focus.
#[derive(Clone, Copy, Debug, PartialEq, Eq, Structural)]
pub enum DateField {
    Initial,
    Final,
}

/// The other field.
pub open spec fn other_field(field: DateField) -> DateField {
    match field {
        DateField::Initial => DateField::Final,
        DateField::Final => DateField::Initial,
    }
}

// ---------------------------------------------------------------------------
// The calendar of the form
// ---------------------------------------------------------------------------

/// A day of the calendar the form works on: the proleptic Gregorian
/// calendar of the years -9999 to 9999, year 0 included.
#[derive(Clone, Copy, Debug, PartialEq, Eq, Structural)]
pub struct CalendarDate {
    pub year: i16,
    pub month: u8,
    pub day: u8,
}

/// The number of days of `month` (in `1..=12`) in `year`.
pub open spec fn month_days(year: int, month: int) -> int {
    match spec_days_in_month(year, month) {
        Some(n) => n,
        None => 31,
    }
}

/// The number of days of the month of `d`.
pub open spec fn month_length(d: CalendarDate) -> int {
    month_days(d.year as int, d.month as int)
}

/// A date the form can hold: a real day of the years -9999 to 9999.
pub open spec fn in_calendar(d: CalendarDate) -> bool {
    &&& -9999 <= d.year <= 9999
    &&& 1 <= d.month <= 12
    &&& 1 <= d.day <= month_length(d)
}

/// `a` comes strictly before `b` (year, then month, then day).
pub open spec fn calendar_before(a: CalendarDate, b: CalendarDate) -> bool {
    a.year < b.year || (a.year == b.year && (a.month < b.month || (a.month == b.month && a.day < b.day)))
}

/// The day after `d`.
pub open spec fn day_after(d: CalendarDate) -> CalendarDate {
    if d.day < month_length(d) {
        CalendarDate { day: (d.day + 1) as u8, ..d }
    } else if d.month < 12 {
        CalendarDate { year: d.year, month: (d.month + 1) as u8, day: 1 }
    } else {
        CalendarDate { year: (d.year + 1) as i16, month: 1, day: 1 }
    }
}

/// The day before `d`.
pub open spec fn day_before(d: CalendarDate) -> CalendarDate {
    if d.day > 1 {
        CalendarDate { day: (d.day - 1) as u8, ..d }
    } else if d.month > 1 {
        CalendarDate { year: d.year, month: (d.month - 1) as u8, day: month_days(d.year as int, d.month - 1) as u8 }
    } else {
        CalendarDate { year: (d.year - 1) as i16, month: 12, day: 31 }
    }
}

/// The day `days` days after `d` (before it when `days` is negative).
pub open spec fn shift_days(d: CalendarDate, days: int) -> CalendarDate
    decreases (if days < 0 { -days } else { days }),
{
    if days > 0 {
        shift_days(day_after(d), days - 1)
    } else if days < 0 {
        shift_days(day_before(d), days + 1)
    } else {
        d
    }
}

/// The first day of the month of `d`.
pub open spec fn first_day_spec(d: CalendarDate) -> CalendarDate {
    CalendarDate { day: 1, ..d }
}

/// The last day of the month of `d`.
pub open spec fn last_day_spec(d: CalendarDate) -> CalendarDate {
    CalendarDate { day: month_length(d) as u8, ..d }
}

/// The index of the month of `d` moved by `months`: twelve per year.
pub open spec fn month_index(d: CalendarDate, months: int) -> int {
    d.year * 12 + d.month - 1 + months
}

/// The date `months` months after `d` (before it when negative), on the same
/// day of the month, or on the last day of that month when it is shorter.
pub open spec fn add_months_spec(d: CalendarDate, months: int) -> CalendarDate {
    let index = month_index(d, months);
    let year = index / 12;
    let month = index % 12 + 1;
    let length = month_days(year, month);
    CalendarDate { year: year as i16, month: month as u8, day: if d.day <= length { d.day } else { length as u8 } }
}

/// Moving `d` by `days` days (at most a month either way) stays within the
/// years -9999 to 9999.
pub open spec fn days_stay(d: CalendarDate, days: int) -> bool {
    &&& days > 0 ==> !(d.year == 9999 && d.month == 12 && d.day + days > 31)
    &&& days < 0 ==> !(d.year == -9999 && d.month == 1 && d.day + days < 1)
}

/// Moving `d` by `months` months stays within the years -9999 to 9999.
pub open spec fn months_stay(d: CalendarDate, months: int) -> bool {
    -9999 * 12 <= month_index(d, months) <= 9999 * 12 + 11
}

/// Years 10000 apart are leap years alike.
proof fn lemma_leap_shift(year: int)
    ensures
        spec_is_leap_year(year + 10000) == spec_is_leap_year(year),
{
    assert((year + 10000) % 4 == year % 4);
    assert((year + 10000) % 100 == year % 100);
    assert((year + 10000) % 400 == year % 400);
}

/// The number of days of `month` in `year`.
fn month_length_of(year: i16, month: u8) -> (n: u8)
    requires
        -9999 <= year <= 9999,
        1 <= month <= 12,
    ensures
        n == month_days(year as int, month as int),
        28 <= n <= 31,
{
    let shifted: u16 = (year as i32 + 10000) as u16;
    proof {
        lemma_leap_shift(year as int);
    }
    match days_in_month(shifted, month) {
        Some(n) => n,
        None => 31,
    }
}

/// The day after `d`.
fn next_day_in_calendar(d: CalendarDate) -> (r: CalendarDate)
    requires
        in_calendar(d),
        !(d.year == 9999 && d.month == 12 && d.day == 31),
    ensures
        r == day_after(d),
        in_calendar(r),
{
    let length = month_length_of(d.year, d.month);
    if d.day < length {
        CalendarDate { day: d.day + 1, ..d }
    } else if d.month < 12 {
        let next = CalendarDate { year: d.year, month: d.month + 1, day: 1 };
        proof {
            let _ = month_length(next);
            assert(month_days(next.year as int, next.month as int) >= 28);
        }
        next
    } else {
        CalendarDate { year: d.year + 1, month: 1, day: 1 }
    }
}

/// The day before `d`.
fn previous_day(d: CalendarDate) -> (r: CalendarDate)
    requires
        in_calendar(d),
        !(d.year == -9999 && d.month == 1 && d.day == 1),
    ensures
        r == day_before(d),
        in_calendar(r),
{
    if d.day > 1 {
        CalendarDate { day: d.day - 1, ..d }
    } else if d.month > 1 {
        let month = d.month - 1;
        let day = month_length_of(d.year, month);
        CalendarDate { year: d.year, month, day }
    } else {
        CalendarDate { year: d.year - 1, month: 12, day: 31 }
    }
}

/// `d` moved by `days` days.
pub fn add_days(d: CalendarDate, days: i8) -> (r: CalendarDate)
    requires
        in_calendar(d),
        -31 <= days <= 31,
        days_stay(d, days as int),
    ensures
        r == shift_days(d, days as int),
        in_calendar(r),
{
    let mut current = d;
    let mut left: i8 = days;
    while left != 0
        invariant
            -31 <= left <= 31,
            in_calendar(current),
            shift_days(current, left as int) == shift_days(d, days as int),
            days_stay(current, left as int),
        decreases (if left < 0 { -left } else { left as int }),
    {
        if left > 0 {
            current = next_day_in_calendar(current);
            left = left - 1;
        } else {
            current = previous_day(current);
            left = left + 1;
        }
    }
    current
}

/// The first day of the month of `d`.
pub fn first_day_of_month(d: CalendarDate) -> (r: CalendarDate)
    requires
        in_calendar(d),
    ensures
        r == first_day_spec(d),
        in_calendar(r),
{
    CalendarDate { day: 1, ..d }
}

/// The last day of the month of `d`.
pub fn last_day_of_month(d: CalendarDate) -> (r: CalendarDate)
    requires
        in_calendar(d),
    ensures
        r == last_day_spec(d),
        in_calendar(r),
{
    let day = month_length_of(d.year, d.month);
    CalendarDate { day, ..d }
}

/// `d` moved by `months` months, on the same day of the month or the last
/// day of a shorter month.
pub fn add_months(d: CalendarDate, months: i8) -> (r: CalendarDate)
    requires
        in_calendar(d),
        -12 <= months <= 12,
        months_stay(d, months as int),
    ensures
        r == add_months_spec(d, months as int),
        in_calendar(r),
{
    let index: i32 = (d.year as i32 + 10000) * 12 + d.month as i32 - 1 + months as i32;
    let year: i32 = index / 12 - 10000;
    let month: i32 = index % 12 + 1;
    proof {
        let s = month_index(d, months as int);
        assert(index == s + 120000);
        assert(index / 12 == s / 12 + 10000 && index % 12 == s % 12) by (nonlinear_arith)
            requires
                index == s + 120000,
                index >= 0,
        ;
    }
    let length = month_length_of(year as i16, month as u8);
    let day = if d.day <= length {
        d.day
    } else {
        length
    };
    CalendarDate { year: year as i16, month: month as u8, day }
}

/// The year as the form writes it: four digits, or a minus sign and three
/// digits at least (`format!("{:04}", year)`).
pub open spec fn year_text(year: int) -> Seq<char> {
    if year >= 0 {
        zero_padded(year as nat, 4)
    } else {
        seq!['-'] + zero_padded((-year) as nat, 3)
    }
}

/// `d` as the form writes it: `YYYY-MM-DD`.
pub open spec fn calendar_text(d: CalendarDate) -> Seq<char> {
    year_text(d.year as int) + seq!['-'] + zero_padded(d.month as nat, 2) + seq!['-'] + zero_padded(d.day as nat, 2)
}

/// A date as the form writes it: `YYYY-MM-DD`.
pub fn format_date(d: CalendarDate) -> (s: String)
    ensures
        s@ == calendar_text(d),
{
    let mut s = if d.year >= 0 {
        zero_padded_string(d.year as u64, 4)
    } else {
        let mut t = String::new();
        push_char(&mut t, '-');
        let digits = zero_padded_string((-(d.year as i32)) as u64, 3);
        t.append(digits.as_str());
        t
    };
    push_char(&mut s, '-');
    let month = zero_padded_string(d.month as u64, 2);
    s.append(month.as_str());
    push_char(&mut s, '-');
    let day = zero_padded_string(d.day as u64, 2);
    s.append(day.as_str());
    s
}

// ---------------------------------------------------------------------------
// The form
// ---------------------------------------------------------------------------

/// What the home page holds: the two dates, the field with the focus, and
/// whether the date picker of that field is open.
pub struct HomePageView {
    pub initial_date: CalendarDate,
    pub final_date: CalendarDate,
    pub focused_field: DateField,
    pub picker_open: bool,
}

/// The date of the focused field.
pub open spec fn active_date_of(v: HomePageView) -> CalendarDate {
    match v.focused_field {
        DateField::Initial => v.initial_date,
        DateField::Final => v.final_date,
    }
}

/// `v` with the date of the focused field set to `d`.
pub open spec fn with_active_date(v: HomePageView, d: CalendarDate) -> HomePageView {
    match v.focused_field {
        DateField::Initial => HomePageView { initial_date: d, ..v },
        DateField::Final => HomePageView { final_date: d, ..v },
    }
}

/// The move that `code` makes in the open picker keeps `d` within the
/// years -9999 to 9999.
pub open spec fn move_stays(d: CalendarDate, code: KeyCode) -> bool {
    if code == KeyCode::Left || code == KeyCode::Char('h') {
        days_stay(d, -1)
    } else if code == KeyCode::Right || code == KeyCode::Char('l') {
        days_stay(d, 1)
    } else if code == KeyCode::Up || code == KeyCode::Char('k') {
        days_stay(d, -7)
    } else if code == KeyCode::Down || code == KeyCode::Char('j') {
        days_stay(d, 7)
    } else if code == KeyCode::PageUp {
        months_stay(d, -1)
    } else if code == KeyCode::PageDown {
        months_stay(d, 1)
    } else {
        true
    }
}

/// What a key does in the open picker: Esc, Enter or Space closes it; Tab
/// closes it and moves the focus; the arrows (or `h l k j`) move the date
/// by a day or a week; Page Up and Page Down by a month; Home and End go to
/// the first and the last day of its month.
pub open spec fn picker_key(v: HomePageView, code: KeyCode) -> HomePageView {
    let d = active_date_of(v);
    if code == KeyCode::Esc || code == KeyCode::Enter || code == KeyCode::Char(' ') {
        HomePageView { picker_open: false, ..v }
    } else if code == KeyCode::Tab || code == KeyCode::BackTab {
        HomePageView { picker_open: false, focused_field: other_field(v.focused_field), ..v }
    } else if code == KeyCode::Left || code == KeyCode::Char('h') {
        with_active_date(v, shift_days(d, -1))
    } else if code == KeyCode::Right || code == KeyCode::Char('l') {
        with_active_date(v, shift_days(d, 1))
    } else if code == KeyCode::Up || code == KeyCode::Char('k') {
        with_active_date(v, shift_days(d, -7))
    } else if code == KeyCode::Down || code == KeyCode::Char('j') {
        with_active_date(v, shift_days(d, 7))
    } else if code == KeyCode::PageUp {
        with_active_date(v, add_months_spec(d, -1))
    } else if code == KeyCode::PageDown {
        with_active_date(v, add_months_spec(d, 1))
    } else if code == KeyCode::Home {
        with_active_date(v, first_day_spec(d))
    } else if code == KeyCode::End {
        with_active_date(v, last_day_spec(d))
    } else {
        v
    }
}

/// The search criteria of the form: both dates as `YYYY-MM-DD`.
pub open spec fn criteria_of(v: HomePageView, c: SearchCriteriaInput) -> bool {
    c.initial_date@ == calendar_text(v.initial_date) && c.final_date@ == calendar_text(v.final_date)
}

/// The key opens the settings: `S`, and `s` too while the picker is open.
pub open spec fn opens_settings(v: HomePageView, code: KeyCode) -> bool {
    code == KeyCode::Char('S') || (v.picker_open && code == KeyCode::Char('s'))
}

/// The key submits the search: `s`, with the picker closed.
pub open spec fn submits(v: HomePageView, code: KeyCode) -> bool {
    !v.picker_open && code == KeyCode::Char('s')
}

/// The form after a key: `q` and the keys that open the settings leave it
/// as it is; with the picker open the picker takes the key; otherwise Tab moves the focus, Enter or Space
/// opens the picker of the focused field, and `s` (the search) leaves it as
/// it is.
pub open spec fn home_key(v: HomePageView, code: KeyCode) -> HomePageView {
    if code == KeyCode::Char('q') || opens_settings(v, code) {
        v
    } else if v.picker_open {
        picker_key(v, code)
    } else if code == KeyCode::Tab || code == KeyCode::BackTab {
        HomePageView { focused_field: other_field(v.focused_field), ..v }
    } else if code == KeyCode::Enter || code == KeyCode::Char(' ') {
        HomePageView { picker_open: true, ..v }
    } else {
        v
    }
}

/// The home page: the search form.
pub struct HomePage {
    initial_date: CalendarDate,
    final_date: CalendarDate,
    focused_field: DateField,
    picker_open: bool,
}

impl View for HomePage {
    type V = HomePageView;

    closed spec fn view(&self) -> HomePageView {
        HomePageView {
            initial_date: self.initial_date,
            final_date: self.final_date,
            focused_field: self.focused_field,
            picker_open: self.picker_open,
        }
    }
}

impl HomePage {
    #[verifier::type_invariant]
    closed spec fn dates_in_calendar(self) -> bool {
        in_calendar(self.initial_date) && in_calendar(self.final_date)
    }

    /// The form as it opens on `today`: the first and the last day of its
    /// month, the first field focused, the picker closed.
    pub fn new(today: CalendarDate) -> (page: HomePage)
        requires
            in_calendar(today),
        ensures
            page@ == (HomePageView {
                initial_date: first_day_spec(today),
                final_date: last_day_spec(today),
                focused_field: DateField::Initial,
                picker_open: false,
            }),
    {
        HomePage {
            initial_date: first_day_of_month(today),
            final_date: last_day_of_month(today),
            focused_field: DateField::Initial,
            picker_open: false,
        }
    }

    /// The first date of the search.
    pub fn initial_date(&self) -> (d: CalendarDate)
        ensures
            d == self@.initial_date,
            in_calendar(d),
    {
        proof {
            use_type_invariant(self);
        }
        self.initial_date
    }

    /// The last date of the search.
    pub fn final_date(&self) -> (d: CalendarDate)
        ensures
            d == self@.final_date,
            in_calendar(d),
    {
        proof {
            use_type_invariant(self);
        }
        self.final_date
    }

    /// The field with the focus.
    pub fn focused_field(&self) -> (f: DateField)
        ensures
            f == self@.focused_field,
    {
        self.focused_field
    }

    /// Whether the date picker is open.
    pub fn picker_open(&self) -> (b: bool)
        ensures
            b == self@.picker_open,
    {
        self.picker_open
    }

    /// The date of the focused field.
    pub fn active_date(&self) -> (d: CalendarDate)
        ensures
            d == active_date_of(self@),
            in_calendar(d),
    {
        proof {
            use_type_invariant(self);
        }
        match self.focused_field {
            DateField::Initial => self.initial_date,
            DateField::Final => self.final_date,
        }
    }

    /// The search criteria the form gives.
    pub fn criteria(&self) -> (c: SearchCriteriaInput)
        ensures
            criteria_of(self@, c),
    {
        SearchCriteriaInput { initial_date: format_date(self.initial_date), final_date: format_date(self.final_date) }
    }

    /// The hint under the date field `field`.
    pub fn field_hint(&self, field: DateField, text: &Messages) -> (hint: &'static str)
        ensures
            hint == (if self@.focused_field == field && self@.picker_open {
                text.calendar_is_open
            } else if self@.focused_field == field {
                text.press_space_to_open
            } else {
                text.press_tab_to_focus
            }),
    {
        let focused = self.focused_field == field;
        if focused && self.picker_open {
            text.calendar_is_open
        } else if focused {
            text.press_space_to_open
        } else {
            text.press_tab_to_focus
        }
    }

    fn focus_next(&mut self)
        ensures
            final(self)@ == (HomePageView { focused_field: other_field(old(self)@.focused_field), ..old(self)@ }),
    {
        proof {
            use_type_invariant(&*self);
        }
        self.focused_field = match self.focused_field {
            DateField::Initial => DateField::Final,
            DateField::Final => DateField::Initial,
        };
    }

    fn set_active_date(&mut self, d: CalendarDate)
        requires
            in_calendar(d),
        ensures
            final(self)@ == with_active_date(old(self)@, d),
    {
        proof {
            use_type_invariant(&*self);
        }
        match self.focused_field {
            DateField::Initial => self.initial_date = d,
            DateField::Final => self.final_date = d,
        }
    }

    /// Whether the page can take `key`: a key that moves the date in the
    /// open picker needs a date that stays in the calendar.
    pub fn can_take(&self, key: KeyInput) -> (b: bool)
        ensures
            b == (self@.picker_open ==> move_stays(active_date_of(self@), key.code)),
    {
        proof {
            use_type_invariant(self);
        }
        if !self.picker_open {
            return true;
        }
        let code = key.code;
        let d = self.active_date();
        let first_year = d.year == -9999 && d.month == 1;
        let last_year = d.year == 9999 && d.month == 12;
        if code == KeyCode::Left || code == KeyCode::Char('h') {
            !(first_year && d.day < 2)
        } else if code == KeyCode::Right || code == KeyCode::Char('l') {
            !(last_year && d.day > 30)
        } else if code == KeyCode::Up || code == KeyCode::Char('k') {
            !(first_year && d.day < 8)
        } else if code == KeyCode::Down || code == KeyCode::Char('j') {
            !(last_year && d.day > 24)
        } else if code == KeyCode::PageUp {
            !first_year
        } else if code == KeyCode::PageDown {
            !last_year
        } else {
            true
        }
    }

    fn handle_picker_key(&mut self, key: KeyInput)
        requires
            move_stays(active_date_of(old(self)@), key.code),
        ensures
            final(self)@ == picker_key(old(self)@, key.code),
    {
        proof {
            use_type_invariant(&*self);
        }
        let code = key.code;
        let d = self.active_date();
        if code == KeyCode::Esc || code == KeyCode::Enter || code == KeyCode::Char(' ') {
            self.picker_open = false;
        } else if code == KeyCode::Tab || code == KeyCode::BackTab {
            self.picker_open = false;
            self.focus_next();
        } else if code == KeyCode::Left || code == KeyCode::Char('h') {
            self.set_active_date(add_days(d, -1));
        } else if code == KeyCode::Right || code == KeyCode::Char('l') {
            self.set_active_date(add_days(d, 1));
        } else if code == KeyCode::Up || code == KeyCode::Char('k') {
            self.set_active_date(add_days(d, -7));
        } else if code == KeyCode::Down || code == KeyCode::Char('j') {
            self.set_active_date(add_days(d, 7));
        } else if code == KeyCode::PageUp {
            self.set_active_date(add_months(d, -1));
        } else if code == KeyCode::PageDown {
            self.set_active_date(add_months(d, 1));
        } else if code == KeyCode::Home {
            self.set_active_date(first_day_of_month(d));
        } else if code == KeyCode::End {
            self.set_active_date(last_day_of_month(d));
        }
    }

    /// Reacts to a key. `q` quits and `S` opens the settings, whatever else
    /// is open, and so does `s` with the picker open. With the picker open,
    /// any other key goes to the picker. Otherwise
    /// Tab moves the focus, Enter or Space opens the picker of the focused
    /// field, and `s` submits the search criteria.
    pub fn handle_key(&mut self, key: KeyInput) -> (action: HomePageAction)
        requires
            old(self)@.picker_open ==> move_stays(active_date_of(old(self)@), key.code),
        ensures
            final(self)@ == home_key(old(self)@, key.code),
            key.code == KeyCode::Char('q') <==> action is Quit,
            opens_settings(old(self)@, key.code) <==> action is OpenSettings,
            submits(old(self)@, key.code) <==> action is Submit,
            action matches HomePageAction::Submit(c) ==> criteria_of(old(self)@, c),
    {
        proof {
            use_type_invariant(&*self);
        }
        let code = key.code;
        if code == KeyCode::Char('q') {
            return HomePageAction::Quit;
        }
        if code == KeyCode::Char('S') || (self.picker_open && code == KeyCode::Char('s')) {
            return HomePageAction::OpenSettings;
        }
        if self.picker_open {
            self.handle_picker_key(key);
            return HomePageAction::Continue;
        }
        if code == KeyCode::Tab || code == KeyCode::BackTab {
            self.focus_next();
            HomePageAction::Continue
        } else if code == KeyCode::Enter || code == KeyCode::Char(' ') {
            self.picker_open = true;
            HomePageAction::Continue
        } else if code == KeyCode::Char('s') {
            HomePageAction::Submit(self.criteria())
        } else {
            HomePageAction::Continue
        }
    }
}

// ---------------------------------------------------------------------------
// Laws of the date moves
// ---------------------------------------------------------------------------

/// A day forward then a day back (or back then forward) lands on the day
/// it started from, wherever the first move stays in the calendar.
pub proof fn law_day_moves_undo(d: CalendarDate)
    requires
        in_calendar(d),
    ensures
        days_stay(d, 1) ==> shift_days(shift_days(d, 1), -1) == d,
        days_stay(d, -1) ==> shift_days(shift_days(d, -1), 1) == d,
{
    reveal_with_fuel(shift_days, 2);
    assert(shift_days(d, 1) == day_after(d));
    assert(shift_days(d, -1) == day_before(d));
    if days_stay(d, 1) {
        assert(day_before(day_after(d)) == d);
    }
    if days_stay(d, -1) {
        assert(day_after(day_before(d)) == d);
    }
}

/// The first and the last day of a month enclose every day of it, and are
/// days of the calendar themselves.
pub proof fn law_month_encloses(d: CalendarDate)
    requires
        in_calendar(d),
    ensures
        in_calendar(first_day_spec(d)),
        in_calendar(last_day_spec(d)),
        !calendar_before(d, first_day_spec(d)),
        !calendar_before(last_day_spec(d), d),
{
}

/// A month forward or back lands on a day of the calendar, in the month
/// next to it, wherever the move stays within the years -9999 to 9999.
pub proof fn law_month_moves_land_in_calendar(d: CalendarDate)
    requires
        in_calendar(d),
    ensures
        months_stay(d, 1) ==> in_calendar(add_months_spec(d, 1)),
        months_stay(d, -1) ==> in_calendar(add_months_spec(d, -1)),
        d.month < 12 ==> add_months_spec(d, 1).month == d.month + 1 && add_months_spec(d, 1).year == d.year,
        d.month == 12 ==> add_months_spec(d, 1).month == 1 && add_months_spec(d, 1).year == d.year + 1,
        d.month > 1 ==> add_months_spec(d, -1).month == d.month - 1 && add_months_spec(d, -1).year == d.year,
        d.month == 1 ==> add_months_spec(d, -1).month == 12 && add_months_spec(d, -1).year == d.year - 1,
{
}

/// Moving the focus twice gives it back to the field that had it.
pub proof fn law_focus_round_trip(field: DateField)
    ensures
        other_field(other_field(field)) == field,
{
}

} // verus!
