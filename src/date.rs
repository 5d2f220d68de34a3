use crate::civil::{english_month_name, english_weekday_name, gregorian_date_exists};
use crate::julian::{
    cjdn_of, date_before, gregorian_of, gregorian_to_cjdn, is_gregorian_date, julian_to_gregorian,
    lemma_cjdn_order, lemma_cjdn_round_trip, lemma_cjdn_year_range, lemma_date_round_trip,
    CJDN_1938_01_01, CJDN_2076_12_31,
};
use crate::names::{
    arabic_month_name, arabic_weekday_name, hijri_month_name, month_name_en, weekday_name_ar,
    weekday_name_en, weekday_of,
};
use crate::text::{decimal, decimal_string, replace, replace_all};
use crate::umalqura::{
    gegorean_to_hijri, hijri_of, hijri_to_gregorian, hijri_to_mcjdn, lemma_gregorian_years,
    lemma_hijri_of, lemma_hijri_years, lemma_month_start_bounds, lemma_table_end, table_index,
    MCJDN_SHIFT, TABLE_END, TABLE_MONTHS, TABLE_START,
};
use vstd::prelude::*;
use vstd::std_specs::cmp::{PartialEqIs, PartialEqSpec, PartialOrdIs};
use vstd::std_specs::ops::{AddSpec, SubSpec};

verus! {

/// Smallest Hijri year accepted by [`HijriDate::from_hijri`].
pub const MIN_HIJRI_YEAR: usize = 1357;

/// Largest Hijri year accepted by [`HijriDate::from_hijri`].
pub const MAX_HIJRI_YEAR: usize = 1499;

/// Smallest Gregorian year accepted by [`HijriDate::from_gr`].
pub const MIN_GREGORIAN_YEAR: usize = 1938;

/// Largest Gregorian year accepted by [`HijriDate::from_gr`].
pub const MAX_GREGORIAN_YEAR: usize = 2076;

/// Why a date could not be built.
#[derive(Clone, Copy, Debug, PartialEq, Eq, Structural)]
pub enum DateError {
    /// A year, month or day lies outside the supported range, or the
    /// Gregorian date does not exist.
    InvalidRange,
}

/// A signed number of days.
#[derive(Clone, Copy, Debug, PartialEq, Eq, Structural)]
pub struct Duration {
    days: i64,
}

impl Duration {
    /// The number of days, in specifications.
    pub closed spec fn spec_days(&self) -> int {
        self.days as int
    }

    /// A duration of `days` days.
    pub fn days(days: i64) -> (r: Duration)
        ensures
            r.spec_days() == days,
    {
        Duration { days }
    }

    /// The number of days.
    pub fn num_days(&self) -> (r: i64)
        ensures
            r == self.spec_days(),
    {
        self.days
    }
}

/// One day, seen both in the Umm al-Qura calendar and in the Gregorian calendar.
///
/// Getters without a suffix give the Hijri side; those with `gr` or `en` the
/// Gregorian side. The day's CJDN decides order, equality and arithmetic.
#[derive(Debug)]
pub struct HijriDate {
    day: usize,
    month: usize,
    month_len: usize,
    year: usize,
    day_name: String,
    month_name: String,
    day_gr: usize,
    month_gr: usize,
    year_gr: usize,
    day_name_en: String,
    month_name_en: String,
    cjdn: i64,
}

/// The names that go with the day with CJDN `z`, whose Hijri month is `hm` and
/// whose Gregorian month is `gm`: (Hijri weekday, Hijri month, English weekday,
/// English month).
pub open spec fn names_of(z: int, hm: int, gm: int) -> (Seq<char>, Seq<char>, Seq<char>, Seq<char>) {
    (weekday_name_ar(weekday_of(z)), hijri_month_name(hm), weekday_name_en(weekday_of(z)), month_name_en(gm))
}

impl HijriDate {
    /// The day's CJDN, which orders dates.
    pub closed spec fn ordinal(&self) -> int {
        self.cjdn as int
    }

    /// Hijri year, month, day and the length of the month that holds the day.
    pub closed spec fn hijri(&self) -> (int, int, int, int) {
        (self.year as int, self.month as int, self.day as int, self.month_len as int)
    }

    /// Gregorian year, month and day.
    pub closed spec fn gregorian(&self) -> (int, int, int) {
        (self.year_gr as int, self.month_gr as int, self.day_gr as int)
    }

    /// Hijri weekday name, Hijri month name, English weekday name and English month name.
    pub closed spec fn names(&self) -> (Seq<char>, Seq<char>, Seq<char>, Seq<char>) {
        (self.day_name@, self.month_name@, self.day_name_en@, self.month_name_en@)
    }

    /// Every date lies in the Gregorian years 1938 to 2076, its two sides name the same day, and its
    /// names are those of that day.
    pub open spec fn wf(&self) -> bool {
        let z = self.ordinal();
        let x = z - MCJDN_SHIFT;
        let h = self.hijri();
        let g = self.gregorian();
        &&& TABLE_START <= x < TABLE_END
        &&& CJDN_1938_01_01 <= z <= CJDN_2076_12_31
        &&& g == gregorian_of(z)
        &&& is_gregorian_date(g.0, g.1, g.2)
        &&& 1 <= h.1 <= 12
        &&& 1 <= h.2 <= 30
        &&& 0 <= table_index(h.0, h.1) < TABLE_MONTHS
        &&& hijri_to_mcjdn(h.0, h.1, h.2) == x
        &&& h.3 == hijri_of(x).3
        &&& self.names() == names_of(z, h.1, g.1)
    }

    #[verifier::type_invariant]
    spec fn inv(&self) -> bool {
        self.wf()
    }

    /// The date is the day with CJDN `z`, in the form that its Gregorian date gives.
    pub open spec fn is_day(&self, z: int) -> bool {
        let h = hijri_of(z - MCJDN_SHIFT);
        &&& self.ordinal() == z
        &&& self.hijri() == h
        &&& self.gregorian() == gregorian_of(z)
        &&& self.names() == names_of(z, h.1, gregorian_of(z).1)
    }

    /// `f` with each directive replaced by a field of the date, one directive
    /// after the other in this order: `%Y`, `%m`, `%d` (Hijri year, month,
    /// day), `%D`, `%M` (Arabic weekday and month names), `%l` (month length),
    /// `%gY`, `%gm`, `%gd` (Gregorian year, month, day), `%gD`, `%gM` (English
    /// weekday and month names).
    pub open spec fn formatted(&self, f: Seq<char>) -> Seq<char> {
        let h = self.hijri();
        let g = self.gregorian();
        let n = self.names();
        let s0 = replace_all(f, "%Y"@, decimal(h.0 as nat));
        let s1 = replace_all(s0, "%m"@, decimal(h.1 as nat));
        let s2 = replace_all(s1, "%d"@, decimal(h.2 as nat));
        let s3 = replace_all(s2, "%D"@, n.0);
        let s4 = replace_all(s3, "%M"@, n.1);
        let s5 = replace_all(s4, "%l"@, decimal(h.3 as nat));
        let s6 = replace_all(s5, "%gY"@, decimal(g.0 as nat));
        let s7 = replace_all(s6, "%gm"@, decimal(g.1 as nat));
        let s8 = replace_all(s7, "%gd"@, decimal(g.2 as nat));
        let s9 = replace_all(s8, "%gD"@, n.2);
        let s10 = replace_all(s9, "%gM"@, n.3);
        s10
    }

    /// The text of `f` with each directive replaced by a field of the date (see
    /// [`HijriDate::formatted`]).
    pub fn format(&self, f: &str) -> (r: String)
        ensures
            r@ == self.formatted(f@),
    {
        proof {
            reveal_strlit("%Y");
            reveal_strlit("%m");
            reveal_strlit("%d");
            reveal_strlit("%D");
            reveal_strlit("%M");
            reveal_strlit("%l");
            reveal_strlit("%gY");
            reveal_strlit("%gm");
            reveal_strlit("%gd");
            reveal_strlit("%gD");
            reveal_strlit("%gM");
        }
        let s0 = replace(f, "%Y", decimal_string(self.year).as_str());
        let s1 = replace(s0.as_str(), "%m", decimal_string(self.month).as_str());
        let s2 = replace(s1.as_str(), "%d", decimal_string(self.day).as_str());
        let s3 = replace(s2.as_str(), "%D", self.day_name.clone().as_str());
        let s4 = replace(s3.as_str(), "%M", self.month_name.clone().as_str());
        let s5 = replace(s4.as_str(), "%l", decimal_string(self.month_len).as_str());
        let s6 = replace(s5.as_str(), "%gY", decimal_string(self.year_gr).as_str());
        let s7 = replace(s6.as_str(), "%gm", decimal_string(self.month_gr).as_str());
        let s8 = replace(s7.as_str(), "%gd", decimal_string(self.day_gr).as_str());
        let s9 = replace(s8.as_str(), "%gD", self.day_name_en.clone().as_str());
        let s10 = replace(s9.as_str(), "%gM", self.month_name_en.clone().as_str());
        s10
    }

    /// Two lines: the Hijri year, month name and weekday name, then the
    /// English weekday name, month name and the Gregorian year.
    pub fn to_string(&self) -> (r: String)
        ensures
            r@ == self.formatted("%Y %M %D\n%gD %gM %gY\n"@),
    {
        self.format("%Y %M %D\n%gD %gM %gY\n")
    }

    /// The Hijri and Gregorian dates as `year month day -> year month day`.
    pub fn wasm_to_string(&self) -> (r: String)
        ensures
            r@ == self.formatted("%Y %m %d -> %gY %gm %gd"@),
    {
        self.format("%Y %m %d -> %gY %gm %gd")
    }

    /// The date of a day given by its Gregorian date, which the caller has checked.
    fn build(year_gr: usize, month_gr: usize, day_gr: usize) -> (r: HijriDate)
        requires
            is_gregorian_date(year_gr as int, month_gr as int, day_gr as int),
            1938 <= year_gr <= 2076,
        ensures
            r.is_day(cjdn_of(year_gr as int, month_gr as int, day_gr as int)),
            r.gregorian() == (year_gr as int, month_gr as int, day_gr as int),
    {
        proof {
            lemma_gregorian_years(year_gr as int, month_gr as int, day_gr as int);
            lemma_date_round_trip(year_gr as int, month_gr as int, day_gr as int);
            lemma_hijri_of(cjdn_of(year_gr as int, month_gr as int, day_gr as int) - MCJDN_SHIFT);
        }
        let (year, month, day, month_len) = gegorean_to_hijri(year_gr, month_gr, day_gr);
        let cjdn = gregorian_to_cjdn(year_gr as i64, month_gr as i64, day_gr as i64);
        let weekday = (cjdn + 1) % 7;
        let day_name_en = english_weekday_name(year_gr as i32, month_gr as u32, day_gr as u32);
        let month_name_en = english_month_name(year_gr as i32, month_gr as u32, day_gr as u32);
        HijriDate {
            day,
            month,
            month_len,
            year,
            day_name: arabic_weekday_name(weekday),
            month_name: arabic_month_name(month),
            day_gr,
            month_gr,
            year_gr,
            day_name_en,
            month_name_en,
            cjdn,
        }
    }

    /// The date of the Gregorian date `(year_gr, month_gr, day_gr)`, for the
    /// years 1938 to 2076.
    pub fn from_gr(year_gr: usize, month_gr: usize, day_gr: usize) -> (r: Result<HijriDate, DateError>)
        ensures
            r is Ok <==> (MIN_GREGORIAN_YEAR <= year_gr <= MAX_GREGORIAN_YEAR
                && is_gregorian_date(year_gr as int, month_gr as int, day_gr as int)),
            r is Err ==> r == Err::<HijriDate, DateError>(DateError::InvalidRange),
            r matches Ok(d) ==> d.is_day(cjdn_of(year_gr as int, month_gr as int, day_gr as int))
                && d.gregorian() == (year_gr as int, month_gr as int, day_gr as int),
    {
        if valid_greorian_date(year_gr, month_gr, day_gr).is_err() {
            return Err(DateError::InvalidRange);
        }
        if !gregorian_date_exists(year_gr as i32, month_gr as u32, day_gr as u32) {
            return Err(DateError::InvalidRange);
        }
        Ok(HijriDate::build(year_gr, month_gr, day_gr))
    }

    /// The date of the Umm al-Qura date `(year, month, day)`, for the years
    /// 1357 to 1499. A day past the end of its month names a day of the next
    /// month; the date keeps the Hijri fields as given.
    pub fn from_hijri(year: usize, month: usize, day: usize) -> (r: Result<HijriDate, DateError>)
        ensures
            r is Ok <==> (MIN_HIJRI_YEAR <= year <= MAX_HIJRI_YEAR && 1 <= month <= 12 && 1 <= day <= 30),
            r is Err ==> r == Err::<HijriDate, DateError>(DateError::InvalidRange),
            r matches Ok(d) ==> ({
                let z = hijri_to_mcjdn(year as int, month as int, day as int) + MCJDN_SHIFT;
                &&& d.ordinal() == z
                &&& d.hijri() == (year as int, month as int, day as int, hijri_of(z - MCJDN_SHIFT).3)
                &&& d.gregorian() == gregorian_of(z)
                &&& d.names() == names_of(z, month as int, gregorian_of(z).1)
            }),
    {
        if valid_hijri_date(year, month, day).is_err() {
            return Err(DateError::InvalidRange);
        }
        let ghost x = hijri_to_mcjdn(year as int, month as int, day as int);
        proof {
            lemma_table_end();
            lemma_month_start_bounds(0, table_index(year as int, month as int));
            lemma_month_start_bounds(table_index(year as int, month as int), 1727);
            lemma_month_start_bounds(1727, TABLE_MONTHS as int);
            lemma_cjdn_round_trip(x + MCJDN_SHIFT);
            lemma_hijri_of(x);
            lemma_hijri_years(year as int, month as int, day as int);
        }
        let (year_gr, month_gr, day_gr) = hijri_to_gregorian(year, month, day);
        if !gregorian_date_exists(year_gr as i32, month_gr as u32, day_gr as u32) {
            return Err(DateError::InvalidRange);
        }
        let cjdn = gregorian_to_cjdn(year_gr as i64, month_gr as i64, day_gr as i64);
        let weekday = (cjdn + 1) % 7;
        let day_name_en = english_weekday_name(year_gr as i32, month_gr as u32, day_gr as u32);
        let month_name_en = english_month_name(year_gr as i32, month_gr as u32, day_gr as u32);
        let (_, _, _, month_len) = gegorean_to_hijri(year_gr, month_gr, day_gr);
        Ok(HijriDate {
            day,
            month,
            month_len,
            year,
            day_name: arabic_weekday_name(weekday),
            month_name: arabic_month_name(month),
            day_gr,
            month_gr,
            year_gr,
            day_name_en,
            month_name_en,
            cjdn,
        })
    }

    /// Day of the Hijri month.
    pub fn day(&self) -> (r: usize)
        ensures
            r == self.hijri().2,
    {
        self.day
    }

    /// Hijri month, from 1.
    pub fn month(&self) -> (r: usize)
        ensures
            r == self.hijri().1,
    {
        self.month
    }

    /// Number of days in the Hijri month that holds the day.
    pub fn month_len(&self) -> (r: usize)
        ensures
            r == self.hijri().3,
    {
        self.month_len
    }

    /// Hijri year.
    pub fn year(&self) -> (r: usize)
        ensures
            r == self.hijri().0,
    {
        self.year
    }

    /// Day of the Gregorian month.
    pub fn day_gr(&self) -> (r: usize)
        ensures
            r == self.gregorian().2,
    {
        self.day_gr
    }

    /// Gregorian month, from 1.
    pub fn month_gr(&self) -> (r: usize)
        ensures
            r == self.gregorian().1,
    {
        self.month_gr
    }

    /// Gregorian year.
    pub fn year_gr(&self) -> (r: usize)
        ensures
            r == self.gregorian().0,
    {
        self.year_gr
    }

    /// Arabic name of the weekday.
    pub fn day_name(&self) -> (r: String)
        ensures
            r@ == self.names().0,
    {
        self.day_name.clone()
    }

    /// Arabic name of the Hijri month.
    pub fn month_name(&self) -> (r: String)
        ensures
            r@ == self.names().1,
    {
        self.month_name.clone()
    }

    /// English name of the weekday.
    pub fn day_name_en(&self) -> (r: String)
        ensures
            r@ == self.names().2,
    {
        self.day_name_en.clone()
    }

    /// English name of the Gregorian month.
    pub fn month_name_en(&self) -> (r: String)
        ensures
            r@ == self.names().3,
    {
        self.month_name_en.clone()
    }

    /// The date of the day with CJDN `cjdn`, if its Gregorian year lies
    /// between 1938 and 2076.
    fn from_ordinal(cjdn: i64) -> (r: Result<HijriDate, DateError>)
        ensures
            r is Ok <==> CJDN_1938_01_01 <= cjdn <= CJDN_2076_12_31,
            r is Err ==> r == Err::<HijriDate, DateError>(DateError::InvalidRange),
            r matches Ok(d) ==> d.is_day(cjdn as int),
    {
        if cjdn < CJDN_1938_01_01 || cjdn > CJDN_2076_12_31 {
            return Err(DateError::InvalidRange);
        }
        let (year_gr, month_gr, day_gr) = julian_to_gregorian(cjdn);
        proof {
            lemma_cjdn_round_trip(cjdn as int);
            lemma_cjdn_year_range(cjdn as int);
        }
        Ok(HijriDate::build(year_gr as usize, month_gr as usize, day_gr as usize))
    }

    /// The date `duration` days later, if its Gregorian year lies between
    /// 1938 and 2076.
    pub fn checked_add(&self, duration: Duration) -> (r: Result<HijriDate, DateError>)
        ensures
            r is Ok <==> CJDN_1938_01_01 <= self.ordinal() + duration.spec_days() <= CJDN_2076_12_31,
            r is Err ==> r == Err::<HijriDate, DateError>(DateError::InvalidRange),
            r matches Ok(d) ==> d.is_day(self.ordinal() + duration.spec_days()),
    {
        proof {
            use_type_invariant(self);
        }
        let days = duration.num_days();
        if days < CJDN_1938_01_01 - self.cjdn || days > CJDN_2076_12_31 - self.cjdn {
            return Err(DateError::InvalidRange);
        }
        HijriDate::from_ordinal(self.cjdn + days)
    }

    /// The date `duration` days earlier, if its Gregorian year lies between
    /// 1938 and 2076.
    pub fn checked_sub(&self, duration: Duration) -> (r: Result<HijriDate, DateError>)
        ensures
            r is Ok <==> CJDN_1938_01_01 <= self.ordinal() - duration.spec_days() <= CJDN_2076_12_31,
            r is Err ==> r == Err::<HijriDate, DateError>(DateError::InvalidRange),
            r matches Ok(d) ==> d.is_day(self.ordinal() - duration.spec_days()),
    {
        proof {
            use_type_invariant(self);
        }
        let days = duration.num_days();
        if days > self.cjdn - CJDN_1938_01_01 || days < self.cjdn - CJDN_2076_12_31 {
            return Err(DateError::InvalidRange);
        }
        HijriDate::from_ordinal(self.cjdn - days)
    }

    /// The number of days from `other` to this date.
    pub fn days_since(&self, other: &HijriDate) -> (r: Duration)
        ensures
            r.spec_days() == self.ordinal() - other.ordinal(),
    {
        proof {
            use_type_invariant(self);
            use_type_invariant(other);
        }
        Duration::days(self.cjdn - other.cjdn)
    }
}

impl core::ops::Add<Duration> for HijriDate {
    type Output = HijriDate;

    fn add(self, other: Duration) -> (r: HijriDate)
        ensures
            r.is_day(self.ordinal() + other.spec_days()),
    {
        match self.checked_add(other) {
            Ok(date) => date,
            Err(_) => self,
        }
    }
}

impl vstd::std_specs::ops::AddSpecImpl<Duration> for HijriDate {
    open spec fn obeys_add_spec() -> bool {
        false
    }

    open spec fn add_req(self, other: Duration) -> bool {
        CJDN_1938_01_01 <= self.ordinal() + other.spec_days() <= CJDN_2076_12_31
    }

    open spec fn add_spec(self, other: Duration) -> HijriDate {
        self
    }
}

impl core::ops::Sub<Duration> for HijriDate {
    type Output = HijriDate;

    fn sub(self, other: Duration) -> (r: HijriDate)
        ensures
            r.is_day(self.ordinal() - other.spec_days()),
    {
        match self.checked_sub(other) {
            Ok(date) => date,
            Err(_) => self,
        }
    }
}

impl vstd::std_specs::ops::SubSpecImpl<Duration> for HijriDate {
    open spec fn obeys_sub_spec() -> bool {
        false
    }

    open spec fn sub_req(self, other: Duration) -> bool {
        CJDN_1938_01_01 <= self.ordinal() - other.spec_days() <= CJDN_2076_12_31
    }

    open spec fn sub_spec(self, other: Duration) -> HijriDate {
        self
    }
}

impl core::ops::Sub<HijriDate> for HijriDate {
    type Output = Duration;

    fn sub(self, other: HijriDate) -> (r: Duration)
        ensures
            r.spec_days() == self.ordinal() - other.ordinal(),
    {
        self.days_since(&other)
    }
}

impl vstd::std_specs::ops::SubSpecImpl<HijriDate> for HijriDate {
    open spec fn obeys_sub_spec() -> bool {
        false
    }

    open spec fn sub_req(self, other: HijriDate) -> bool {
        true
    }

    open spec fn sub_spec(self, other: HijriDate) -> Duration {
        arbitrary()
    }
}

impl PartialEq for HijriDate {
    /// Two dates are equal when they are the same day.
    fn eq(&self, other: &HijriDate) -> (r: bool) {
        self.cjdn == other.cjdn
    }
}

impl vstd::std_specs::cmp::PartialEqSpecImpl for HijriDate {
    open spec fn obeys_eq_spec() -> bool {
        true
    }

    open spec fn eq_spec(&self, other: &HijriDate) -> bool {
        self.ordinal() == other.ordinal()
    }
}

impl Eq for HijriDate {

}

impl PartialOrd for HijriDate {
    /// Dates are ordered by day.
    fn partial_cmp(&self, other: &HijriDate) -> (r: Option<core::cmp::Ordering>) {
        if self.cjdn < other.cjdn {
            Some(core::cmp::Ordering::Less)
        } else if self.cjdn > other.cjdn {
            Some(core::cmp::Ordering::Greater)
        } else {
            Some(core::cmp::Ordering::Equal)
        }
    }
}

impl vstd::std_specs::cmp::PartialOrdSpecImpl for HijriDate {
    open spec fn obeys_partial_cmp_spec() -> bool {
        true
    }

    open spec fn partial_cmp_spec(&self, other: &HijriDate) -> Option<core::cmp::Ordering> {
        if self.ordinal() < other.ordinal() {
            Some(core::cmp::Ordering::Less)
        } else if self.ordinal() > other.ordinal() {
            Some(core::cmp::Ordering::Greater)
        } else {
            Some(core::cmp::Ordering::Equal)
        }
    }
}

/// Checks the bounds of a Hijri date: month 1 to 12, day 1 to 30, year 1357 to 1499.
fn valid_hijri_date(year: usize, month: usize, day: usize) -> (r: Result<(), DateError>)
    ensures
        r is Ok <==> (1 <= month <= 12 && 1 <= day <= 30 && MIN_HIJRI_YEAR <= year <= MAX_HIJRI_YEAR),
        r is Err ==> r == Err::<(), DateError>(DateError::InvalidRange),
{
    if month < 1 || month > 12 {
        return Err(DateError::InvalidRange);
    }
    if day < 1 || day > 30 {
        return Err(DateError::InvalidRange);
    }
    if year < MIN_HIJRI_YEAR {
        return Err(DateError::InvalidRange);
    }
    if year > MAX_HIJRI_YEAR {
        return Err(DateError::InvalidRange);
    }
    Ok(())
}

/// Checks the bounds of a Gregorian date: month 1 to 12, day 1 to 31, year
/// 1938 to 2076. Whether the day exists in its month is checked apart.
fn valid_greorian_date(year_gr: usize, month_gr: usize, day_gr: usize) -> (r: Result<(), DateError>)
    ensures
        r is Ok <==> (1 <= month_gr <= 12 && 1 <= day_gr <= 31 && MIN_GREGORIAN_YEAR <= year_gr
            <= MAX_GREGORIAN_YEAR),
        r is Err ==> r == Err::<(), DateError>(DateError::InvalidRange),
{
    if month_gr < 1 || month_gr > 12 {
        return Err(DateError::InvalidRange);
    }
    if day_gr < 1 || day_gr > 31 {
        return Err(DateError::InvalidRange);
    }
    if year_gr < MIN_GREGORIAN_YEAR {
        return Err(DateError::InvalidRange);
    }
    if year_gr > MAX_GREGORIAN_YEAR {
        return Err(DateError::InvalidRange);
    }
    Ok(())
}

/// Dates are ordered, and equal, exactly as their days are: `a < b` holds
/// when the CJDN of `a` is smaller than that of `b`, which is when the
/// Gregorian date of `a` comes first.
pub proof fn lemma_order_by_day(a: HijriDate, b: HijriDate)
    requires
        a.wf(),
        b.wf(),
    ensures
        a.is_lt(&b) <==> a.ordinal() < b.ordinal(),
        a.is_gt(&b) <==> a.ordinal() > b.ordinal(),
        a.is_eq(&b) <==> a.ordinal() == b.ordinal(),
        a.is_le(&b) <==> a.ordinal() <= b.ordinal(),
        a.is_ge(&b) <==> a.ordinal() >= b.ordinal(),
        a.is_lt(&b) <==> date_before(a.gregorian(), b.gregorian()),
{
    lemma_cjdn_round_trip(a.ordinal());
    lemma_cjdn_round_trip(b.ordinal());
    lemma_cjdn_order(a.gregorian(), b.gregorian());
}

/// Adding `n` days to a date `d` and then taking `n` days away gives a date
/// equal to `d`; when `d` was built from its Gregorian date, the two agree in
/// every field.
pub proof fn lemma_add_sub_inverse(d: HijriDate, n: Duration)
    requires
        d.wf(),
        n.spec_days() >= 0,
        d.add_req(n),
    ensures
        forall|e: HijriDate| #[trigger]
            e.is_day(d.ordinal() + n.spec_days()) ==> e.sub_req(n),
        forall|e: HijriDate, f: HijriDate|
            #[trigger] e.is_day(d.ordinal() + n.spec_days()) && #[trigger] f.is_day(
                e.ordinal() - n.spec_days(),
            ) ==> f.eq_spec(&d) && (d.is_day(d.ordinal()) ==> f.hijri() == d.hijri()
                && f.gregorian() == d.gregorian() && f.names() == d.names()),
{
}

} // verus!
