//! Calendar dates written `YYYY-MM-DD` and the search period built from two of
//! them.
use vstd::prelude::*;

use crate::text::{
    lemma_decimal_digits, lemma_leading_zeros, decimal, repeat, all_digits, chars_of, digits_value, digit_value, is_digit, parse_unsigned, parse_unsigned_in, push_char,
    zero_padded, zero_padded_string,
};

verus! {

/// Whether `year` is a leap year in the proleptic Gregorian calendar.
pub open spec fn spec_is_leap_year(year: int) -> bool {
    (year % 4 == 0 && year % 100 != 0) || year % 400 == 0
}

/// Number of days of `month` in `year`, or `None` when `month` is not in `1..=12`.
pub open spec fn spec_days_in_month(year: int, month: int) -> Option<int> {
    if month == 1 || month == 3 || month == 5 || month == 7 || month == 8 || month == 10 || month
        == 12 {
        Some(31)
    } else if month == 4 || month == 6 || month == 9 || month == 11 {
        Some(30)
    } else if month == 2 {
        if spec_is_leap_year(year) {
            Some(29)
        } else {
            Some(28)
        }
    } else {
        None
    }
}

/// Whether `year` is a leap year.
pub fn is_leap_year(year: u16) -> (leap: bool)
    ensures
        leap == spec_is_leap_year(year as int),
{
    let year: u32 = year as u32;
    (year % 4 == 0 && year % 100 != 0) || year % 400 == 0
}

/// The number of days of `month` in `year`, or `None` for a month outside `1..=12`.
pub fn days_in_month(year: u16, month: u8) -> (days: Option<u8>)
    ensures
        days matches Some(d) ==> spec_days_in_month(year as int, month as int) == Some(d as int),
        days is None <==> spec_days_in_month(year as int, month as int) is None,
{
    match month {
        1 | 3 | 5 | 7 | 8 | 10 | 12 => Some(31),
        4 | 6 | 9 | 11 => Some(30),
        2 => if is_leap_year(year) {
            Some(29)
        } else {
            Some(28)
        },
        _ => None,
    }
}

/// A calendar day.
#[derive(Clone, Copy, Debug, PartialEq, Eq, Structural)]
pub struct Date {
    pub year: u16,
    pub month: u8,
    pub day: u8,
}

/// `d` names a day that exists: a year from 1 on, a month in `1..=12` and a
/// day within that month.
pub open spec fn date_is_valid(d: Date) -> bool {
    &&& d.year >= 1
    &&& spec_days_in_month(d.year as int, d.month as int) is Some
    &&& 1 <= d.day <= spec_days_in_month(d.year as int, d.month as int)->0
}

/// `a` comes strictly before `b` (year, then month, then day).
pub open spec fn date_before(a: Date, b: Date) -> bool {
    a.year < b.year || (a.year == b.year && (a.month < b.month || (a.month == b.month && a.day
        < b.day)))
}

/// The three numeric fields of a ten-character `YYYY-MM-DD` text are made of
/// digits only (no sign).
pub open spec fn date_fields_are_digits(s: Seq<char>) -> bool {
    &&& all_digits(s.subrange(0, 4))
    &&& all_digits(s.subrange(5, 7))
    &&& all_digits(s.subrange(8, 10))
}

/// What `Date::parse` accepts: exactly ten characters `YYYY-MM-DD`, each
/// numeric part made of digits only and read as a decimal number, naming a
/// valid day.
pub open spec fn parse_date_spec(s: Seq<char>) -> Option<Date> {
    if s.len() == 10 && s[4] == '-' && s[7] == '-' && date_fields_are_digits(s) {
        let year = parse_unsigned(s.subrange(0, 4), 0xffff);
        let month = parse_unsigned(s.subrange(5, 7), 0xff);
        let day = parse_unsigned(s.subrange(8, 10), 0xff);
        if year is Some && month is Some && day is Some {
            let d = Date { year: year->0 as u16, month: month->0 as u8, day: day->0 as u8 };
            if date_is_valid(d) {
                Some(d)
            } else {
                None
            }
        } else {
            None
        }
    } else {
        None
    }
}

/// The day after `d`.
pub open spec fn spec_next_day(d: Date) -> Date {
    let max_day = match spec_days_in_month(d.year as int, d.month as int) {
        Some(m) => m,
        None => 31,
    };
    if d.day < max_day {
        Date { year: d.year, month: d.month, day: (d.day + 1) as u8 }
    } else if d.month < 12 {
        Date { year: d.year, month: (d.month + 1) as u8, day: 1 }
    } else {
        Date { year: (d.year + 1) as u16, month: 1, day: 1 }
    }
}

/// `d` written `YYYY<sep>MM<sep>DD`, zero-padded.
pub open spec fn date_text(d: Date, sep: char) -> Seq<char> {
    zero_padded(d.year as nat, 4) + seq![sep] + zero_padded(d.month as nat, 2) + seq![sep]
        + zero_padded(d.day as nat, 2)
}

/// `d` as `YYYY-MM-DD`.
pub open spec fn iso_text(d: Date) -> Seq<char> {
    date_text(d, '-')
}

/// `d` as Gmail's `YYYY/MM/DD`.
pub open spec fn gmail_text(d: Date) -> Seq<char> {
    date_text(d, '/')
}

/// Whether `s[from..to]` is made of ASCII digits only.
fn digits_only(s: &Vec<char>, from: usize, to: usize) -> (b: bool)
    requires
        from <= to <= s.len(),
    ensures
        b == all_digits(s@.subrange(from as int, to as int)),
{
    let mut i = from;
    while i < to
        invariant
            from <= i <= to <= s.len(),
            forall|k: int| from <= k < i ==> is_digit(#[trigger] s@[k]),
        decreases to - i,
    {
        let c = s[i];
        if !('0' <= c && c <= '9') {
            proof {
                let sub = s@.subrange(from as int, to as int);
                assert(sub[i - from] == c);
            }
            return false;
        }
        i = i + 1;
    }
    proof {
        let sub = s@.subrange(from as int, to as int);
        assert forall|k: int| 0 <= k < sub.len() implies is_digit(#[trigger] sub[k]) by {
            assert(sub[k] == s@[from + k]);
        }
    }
    true
}

impl Date {
    /// Reads a `YYYY-MM-DD` date.
    pub fn parse(value: &str) -> (date: Option<Date>)
        ensures
            date == parse_date_spec(value@),
    {
        let chars = chars_of(value);
        if chars.len() != 10 || chars[4] != '-' || chars[7] != '-' {
            return None;
        }
        if !digits_only(&chars, 0, 4) || !digits_only(&chars, 5, 7) || !digits_only(&chars, 8, 10) {
            return None;
        }
        let year = match parse_unsigned_in(&chars, 0, 4, 0xffff) {
            Some(y) => y as u16,
            None => return None,
        };
        let month = match parse_unsigned_in(&chars, 5, 7, 0xff) {
            Some(m) => m as u8,
            None => return None,
        };
        let day = match parse_unsigned_in(&chars, 8, 10, 0xff) {
            Some(d) => d as u8,
            None => return None,
        };
        let max_day = match days_in_month(year, month) {
            Some(m) => m,
            None => return None,
        };
        if year == 0 || day == 0 || day > max_day {
            return None;
        }
        Some(Date { year, month, day })
    }

    /// The day after this one.
    pub fn next_day(self) -> (next: Date)
        requires
            self.year < 0xffff,
            self.day < 0xff,
        ensures
            next == spec_next_day(self),
    {
        let max_day = match days_in_month(self.year, self.month) {
            Some(m) => m,
            None => 31,
        };
        if self.day < max_day {
            return Date { year: self.year, month: self.month, day: self.day + 1 };
        }
        if self.month < 12 {
            return Date { year: self.year, month: self.month + 1, day: 1 };
        }
        Date { year: self.year + 1, month: 1, day: 1 }
    }

    fn text_with(self, sep: char) -> (s: String)
        ensures
            s@ == date_text(self, sep),
    {
        let mut s = zero_padded_string(self.year as u64, 4);
        push_char(&mut s, sep);
        let month = zero_padded_string(self.month as u64, 2);
        s.append(month.as_str());
        push_char(&mut s, sep);
        let day = zero_padded_string(self.day as u64, 2);
        s.append(day.as_str());
        s
    }

    /// This date as `YYYY/MM/DD`, the form Gmail's `after:` and `before:` take.
    pub fn to_gmail_string(self) -> (s: String)
        ensures
            s@ == gmail_text(self),
    {
        self.text_with('/')
    }

    /// This date as `YYYY-MM-DD`.
    pub fn to_iso_string(self) -> (s: String)
        ensures
            s@ == iso_text(self),
    {
        self.text_with('-')
    }

    /// Whether this date comes strictly after `other`.
    pub fn is_after(self, other: Date) -> (b: bool)
        ensures
            b == date_before(other, self),
    {
        other.year < self.year || (other.year == self.year && (other.month < self.month || (
        other.month == self.month && other.day < self.day)))
    }
}

/// The period of a Gmail search: a first and a last day, the first not after
/// the last.
#[derive(Debug, PartialEq, Eq, Structural)]
pub struct DateRange {
    start: Date,
    end: Date,
}

/// Why a pair of date strings is not a search period.
#[derive(Clone, Copy, Debug, PartialEq, Eq, Structural)]
pub enum DateRangeError {
    InvalidInitialDate,
    InvalidFinalDate,
    InitialAfterFinal,
}

impl DateRangeError {
    /// The English description of the error.
    pub fn message(&self) -> (m: &'static str)
        ensures
            m@ == match self {
                DateRangeError::InvalidInitialDate => "Initial date must use a valid YYYY-MM-DD value."@,
                DateRangeError::InvalidFinalDate => "Final date must use a valid YYYY-MM-DD value."@,
                DateRangeError::InitialAfterFinal => "Initial date must be before or equal to final date."@,
            },
    {
        match self {
            DateRangeError::InvalidInitialDate => "Initial date must use a valid YYYY-MM-DD value.",
            DateRangeError::InvalidFinalDate => "Final date must use a valid YYYY-MM-DD value.",
            DateRangeError::InitialAfterFinal => "Initial date must be before or equal to final date.",
        }
    }
}

/// What `DateRange::parse` answers for the two date strings.
pub open spec fn parse_range_spec(initial: Seq<char>, last: Seq<char>) -> Result<(Date, Date), DateRangeError> {
    match parse_date_spec(initial) {
        None => Err(DateRangeError::InvalidInitialDate),
        Some(start) => match parse_date_spec(last) {
            None => Err(DateRangeError::InvalidFinalDate),
            Some(end) => if date_before(end, start) {
                Err(DateRangeError::InitialAfterFinal)
            } else {
                Ok((start, end))
            },
        },
    }
}

impl View for DateRange {
    type V = (Date, Date);

    closed spec fn view(&self) -> (Date, Date) {
        (self.start, self.end)
    }
}

impl DateRange {
    #[verifier::type_invariant]
    closed spec fn well_formed(self) -> bool {
        &&& date_is_valid(self.start)
        &&& date_is_valid(self.end)
        &&& self.start.year <= 9999
        &&& self.end.year <= 9999
        &&& !date_before(self.end, self.start)
    }

    /// Reads a search period from its first and last day, both `YYYY-MM-DD`.
    pub fn parse(initial_date: &str, final_date: &str) -> (range: Result<DateRange, DateRangeError>)
        ensures
            match range {
                Ok(r) => parse_range_spec(initial_date@, final_date@) == Ok::<(Date, Date), DateRangeError>(r@),
                Err(e) => parse_range_spec(initial_date@, final_date@) == Err::<(Date, Date), DateRangeError>(e),
            },
    {
        let start = match Date::parse(initial_date) {
            Some(d) => d,
            None => return Err(DateRangeError::InvalidInitialDate),
        };
        let end = match Date::parse(final_date) {
            Some(d) => d,
            None => return Err(DateRangeError::InvalidFinalDate),
        };
        if start.is_after(end) {
            return Err(DateRangeError::InitialAfterFinal);
        }
        proof {
            lemma_parsed_year(initial_date@);
            lemma_parsed_year(final_date@);
        }
        Ok(DateRange { start, end })
    }

    /// The first day, `YYYY-MM-DD`.
    pub fn initial_date(&self) -> (s: String)
        ensures
            s@ == iso_text(self@.0),
    {
        self.start.to_iso_string()
    }

    /// The last day, `YYYY-MM-DD`.
    pub fn final_date(&self) -> (s: String)
        ensures
            s@ == iso_text(self@.1),
    {
        self.end.to_iso_string()
    }

    /// Gmail's `after:` value: the first day, `YYYY/MM/DD`.
    pub fn gmail_after_date(&self) -> (s: String)
        ensures
            s@ == gmail_text(self@.0),
    {
        self.start.to_gmail_string()
    }

    /// Gmail's `before:` value: the day after the last day, `YYYY/MM/DD`, so
    /// that the last day is searched too.
    pub fn gmail_before_date(&self) -> (s: String)
        ensures
            s@ == gmail_text(spec_next_day(self@.1)),
    {
        proof {
            use_type_invariant(self);
        }
        self.end.next_day().to_gmail_string()
    }
}

/// A parsed date has a year of at most four digits.
proof fn lemma_parsed_year(s: Seq<char>)
    ensures
        parse_date_spec(s) matches Some(d) ==> d.year <= 9999 && date_is_valid(d),
{
    if parse_date_spec(s) is Some {
        lemma_four_digits(s.subrange(0, 4));
    }
}

/// A numeral of four characters is at most 9999.
proof fn lemma_four_digits(s: Seq<char>)
    requires
        s.len() == 4,
    ensures
        parse_unsigned(s, 0xffff) matches Some(v) ==> v <= 9999,
{
    let digits = if s.len() > 0 && s[0] == '+' { s.drop_first() } else { s };
    if digits.len() > 0 && all_digits(digits) {
        lemma_digits_value_bound(digits);
    }
}

/// A numeral of `n` digits is below `10^n` (for up to four digits).
proof fn lemma_digits_value_bound(s: Seq<char>)
    requires
        all_digits(s),
        s.len() <= 4,
    ensures
        s.len() == 0 ==> digits_value(s) == 0,
        s.len() == 1 ==> digits_value(s) <= 9,
        s.len() == 2 ==> digits_value(s) <= 99,
        s.len() == 3 ==> digits_value(s) <= 999,
        s.len() == 4 ==> digits_value(s) <= 9999,
    decreases s.len(),
{
    if s.len() > 0 {
        let p = s.drop_last();
        assert forall|i: int| 0 <= i < p.len() implies is_digit(#[trigger] p[i]) by {
            assert(p[i] == s[i]);
        }
        lemma_digits_value_bound(p);
        assert(is_digit(s[s.len() - 1]));
    }
}

/// A zero-padded numeral that fits its width reads back as its value.
proof fn lemma_zero_padded_reads_back(n: nat, width: nat, max: nat)
    requires
        decimal(n).len() <= width,
        width > 0,
        n <= max,
    ensures
        zero_padded(n, width).len() == width,
        all_digits(zero_padded(n, width)),
        digits_value(zero_padded(n, width)) == n,
        parse_unsigned(zero_padded(n, width), max) == Some(n),
{
    lemma_decimal_digits(n);
    let z = repeat('0', width - decimal(n).len());
    let s = zero_padded(n, width);
    assert(s == z + decimal(n));
    lemma_leading_zeros((width - decimal(n).len()) as nat, decimal(n));
    assert forall|i: int| 0 <= i < s.len() implies is_digit(#[trigger] s[i]) by {
        if i < z.len() {
            assert(s[i] == '0');
        } else {
            assert(s[i] == decimal(n)[i - z.len()]);
        }
    }
    if z.len() > 0 {
        assert(s[0] == '0');
    } else {
        assert(s[0] == decimal(n)[0]);
    }
}

/// Writing a date `YYYY-MM-DD` and reading it back gives the same date, for
/// every valid date of a four-digit year.
pub proof fn law_iso_text_parses_back(d: Date)
    requires
        date_is_valid(d),
        d.year <= 9999,
    ensures
        parse_date_spec(iso_text(d)) == Some(d),
{
    lemma_decimal_digits(d.year as nat);
    lemma_decimal_digits(d.month as nat);
    lemma_decimal_digits(d.day as nat);
    lemma_zero_padded_reads_back(d.year as nat, 4, 0xffff);
    lemma_zero_padded_reads_back(d.month as nat, 2, 0xff);
    lemma_zero_padded_reads_back(d.day as nat, 2, 0xff);
    let y = zero_padded(d.year as nat, 4);
    let m = zero_padded(d.month as nat, 2);
    let dd = zero_padded(d.day as nat, 2);
    let s = iso_text(d);
    assert(s == y + seq!['-'] + m + seq!['-'] + dd);
    assert(s.subrange(0, 4) =~= y);
    assert(s.subrange(5, 7) =~= m);
    assert(s.subrange(8, 10) =~= dd);
    assert(s[4] == '-');
    assert(s[7] == '-');
    assert(date_fields_are_digits(s));
}

/// Two numerals of the same length and the same value are the same text.
proof fn lemma_same_value_same_digits(a: Seq<char>, b: Seq<char>)
    requires
        all_digits(a),
        all_digits(b),
        a.len() == b.len(),
        digits_value(a) == digits_value(b),
    ensures
        a == b,
    decreases a.len(),
{
    if a.len() > 0 {
        let pa = a.drop_last();
        let pb = b.drop_last();
        assert forall|i: int| 0 <= i < pa.len() implies is_digit(#[trigger] pa[i]) by {
            assert(pa[i] == a[i]);
        }
        assert forall|i: int| 0 <= i < pb.len() implies is_digit(#[trigger] pb[i]) by {
            assert(pb[i] == b[i]);
        }
        assert(is_digit(a[a.len() - 1]));
        assert(is_digit(b[b.len() - 1]));
        let x = digits_value(pa) as int;
        let y = digits_value(pb) as int;
        let p = digit_value(a.last());
        let q = digit_value(b.last());
        assert(x * 10 + p == y * 10 + q);
        assert(p == q && x == y) by (nonlinear_arith)
            requires
                x * 10 + p == y * 10 + q,
                0 <= p <= 9,
                0 <= q <= 9,
                x >= 0,
                y >= 0,
        ;
        lemma_same_value_same_digits(pa, pb);
        assert(a =~= pa.push(a.last()));
        assert(b =~= pb.push(b.last()));
    }
}

/// A field of `width` digits is the zero-padded numeral of its value.
proof fn lemma_field_is_zero_padded(t: Seq<char>, width: nat)
    requires
        all_digits(t),
        t.len() == width,
        width == 2 || width == 4,
    ensures
        zero_padded(digits_value(t), width) == t,
{
    let v = digits_value(t);
    lemma_digits_value_bound(t);
    lemma_decimal_digits(v);
    lemma_zero_padded_reads_back(v, width, 0xffff);
    lemma_same_value_same_digits(zero_padded(v, width), t);
}

/// A date text that reads as a date is exactly that date written
/// `YYYY-MM-DD`: the reader accepts one spelling per day.
pub proof fn law_parsed_date_text_is_canonical(s: Seq<char>)
    requires
        parse_date_spec(s) is Some,
    ensures
        iso_text(parse_date_spec(s)->0) == s,
{
    let d = parse_date_spec(s)->0;
    let y = s.subrange(0, 4);
    let m = s.subrange(5, 7);
    let dd = s.subrange(8, 10);
    lemma_field_is_zero_padded(y, 4);
    lemma_field_is_zero_padded(m, 2);
    lemma_field_is_zero_padded(dd, 2);
    lemma_digits_value_bound(y);
    lemma_digits_value_bound(m);
    lemma_digits_value_bound(dd);
    assert(y[0] != '+');
    assert(m[0] != '+');
    assert(dd[0] != '+');
    assert(d.year as nat == digits_value(y));
    assert(d.month as nat == digits_value(m));
    assert(d.day as nat == digits_value(dd));
    assert(iso_text(d) =~= s);
}

/// The day after a valid date is a valid date, comes after it, and no valid
/// date lies strictly between the two.
pub proof fn law_next_day_is_successor(d: Date)
    requires
        date_is_valid(d),
        d.year < 0xffff,
    ensures
        date_is_valid(spec_next_day(d)),
        date_before(d, spec_next_day(d)),
        forall|e: Date| date_is_valid(e) && date_before(d, e) ==> !date_before(e, spec_next_day(d)),
{
}

/// A range read from two dates gives back, through `initial_date` and
/// `final_date`, strings that read back as the same range.
pub proof fn law_range_text_parses_back(start: Date, end: Date)
    requires
        date_is_valid(start),
        date_is_valid(end),
        start.year <= 9999,
        end.year <= 9999,
        !date_before(end, start),
    ensures
        parse_range_spec(iso_text(start), iso_text(end)) == Ok::<(Date, Date), DateRangeError>((start, end)),
{
    law_iso_text_parses_back(start);
    law_iso_text_parses_back(end);
}

/// The month lengths of the Gregorian calendar, for every year: January,
/// March, May, July, August, October and December have 31 days; April,
/// June, September and November have 30; February has 29 in a year divisible
/// by 4 but not by 100, or divisible by 400, and 28 otherwise; there is no
/// other month.
pub proof fn law_month_lengths(year: int)
    ensures
        spec_days_in_month(year, 1) == Some(31int),
        spec_days_in_month(year, 2) == Some(
            if (year % 4 == 0 && year % 100 != 0) || year % 400 == 0 { 29int } else { 28int },
        ),
        spec_days_in_month(year, 3) == Some(31int),
        spec_days_in_month(year, 4) == Some(30int),
        spec_days_in_month(year, 5) == Some(31int),
        spec_days_in_month(year, 6) == Some(30int),
        spec_days_in_month(year, 7) == Some(31int),
        spec_days_in_month(year, 8) == Some(31int),
        spec_days_in_month(year, 9) == Some(30int),
        spec_days_in_month(year, 10) == Some(31int),
        spec_days_in_month(year, 11) == Some(30int),
        spec_days_in_month(year, 12) == Some(31int),
        forall|month: int| !(1 <= month <= 12) ==> #[trigger] spec_days_in_month(year, month) is None,
{
}

/// The 31st of April, June, September or November is no day, and the day
/// after the 30th of such a month is the 1st of the next month.
pub proof fn law_thirty_day_months(year: u16, month: u8)
    requires
        month == 4 || month == 6 || month == 9 || month == 11,
        year >= 1,
    ensures
        !date_is_valid(Date { year, month, day: 31 }),
        date_is_valid(Date { year, month, day: 30 }),
        spec_next_day(Date { year, month, day: 30 }) == (Date { year, month: (month + 1) as u8, day: 1 }),
{
    law_month_lengths(year as int);
}

} // verus!
