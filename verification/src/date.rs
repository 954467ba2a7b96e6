//! Publication dates: calendar validation, the total chronological order,
//! and localized display formatting.
use vstd::prelude::*;

use crate::text::{dec_string, spec_digits};
use crate::values::{month_ord, spec_month_name, Day, Language, Month, Year};

verus! {

/// Whether year `y` is a leap year of the Gregorian calendar.
pub open spec fn spec_is_leap_year(y: int) -> bool {
    y % 4 == 0 && (y % 100 != 0 || y % 400 == 0)
}

/// Number of days of month `m` in year `y`.
pub open spec fn spec_days_in_month(y: int, m: Month) -> int {
    match m {
        Month::February => if spec_is_leap_year(y) {
            29
        } else {
            28
        },
        Month::April => 30,
        Month::June => 30,
        Month::September => 30,
        Month::November => 30,
        _ => 31,
    }
}

/// Decides `spec_is_leap_year`.
pub fn is_leap_year(year: &Year) -> (r: bool)
    ensures
        r == spec_is_leap_year(year@ as int),
{
    let y = year.value();
    y % 4 == 0 && (y % 100 != 0 || y % 400 == 0)
}

/// Number of days of the given month in the given year.
pub fn days_in_month(year: &Year, month: &Month) -> (r: u8)
    ensures
        r as int == spec_days_in_month(year@ as int, *month),
{
    match month {
        Month::February => if is_leap_year(year) {
            29
        } else {
            28
        },
        Month::April => 30,
        Month::June => 30,
        Month::September => 30,
        Month::November => 30,
        _ => 31,
    }
}

/// A full publication date. Construction checks that the day exists in the
/// month, leap years included, so no value of this type names a day such as
/// February 30th.
#[derive(Clone, Copy, Debug, PartialEq, Eq, Structural)]
pub struct PublishedDate {
    pub year: Year,
    pub month: Month,
    pub day: Day,
}

/// The total chronological order on dates: lexicographic by year, then
/// month, then day.
pub open spec fn date_le(a: PublishedDate, b: PublishedDate) -> bool {
    if a.year@ != b.year@ {
        a.year@ < b.year@
    } else if month_ord(a.month) != month_ord(b.month) {
        month_ord(a.month) < month_ord(b.month)
    } else {
        a.day@ <= b.day@
    }
}

/// Dates with the same year, month and day are the same point of the order.
pub open spec fn date_eq(a: PublishedDate, b: PublishedDate) -> bool {
    a.year@ == b.year@ && month_ord(a.month) == month_ord(b.month) && a.day@ == b.day@
}

impl PublishedDate {
    /// Accepts exactly the dates whose day exists in the given month of the
    /// given year.
    pub fn new(year: Year, month: Month, day: Day) -> (r: Option<Self>)
        ensures
            r is Some <==> day@ as int <= spec_days_in_month(year@ as int, month),
            r matches Some(d) ==> d == (PublishedDate { year, month, day }),
    {
        if day.value() <= days_in_month(&year, &month) {
            Some(Self { year, month, day })
        } else {
            None
        }
    }

    pub fn year(&self) -> (r: &Year)
        ensures
            r == self.year,
    {
        &self.year
    }

    pub fn month(&self) -> (r: &Month)
        ensures
            r == self.month,
    {
        &self.month
    }

    pub fn day(&self) -> (r: &Day)
        ensures
            r == self.day,
    {
        &self.day
    }

    /// Decides `date_le` between `self` and `other`.
    pub fn le(&self, other: &PublishedDate) -> (r: bool)
        ensures
            r == date_le(*self, *other),
    {
        let ya = self.year.value();
        let yb = other.year.value();
        if ya != yb {
            ya < yb
        } else {
            let ma = self.month.number();
            let mb = other.month.number();
            if ma != mb {
                ma < mb
            } else {
                self.day.value() <= other.day.value()
            }
        }
    }

    /// Renders the date for display in the given language; see
    /// `spec_date_string` for the exact text.
    pub fn to_string(&self, language: &Language) -> (r: String)
        ensures
            r@ == spec_date_string(*self, *language),
    {
        proof {
            reveal_strlit(" ");
            reveal_strlit(", ");
        }
        let year = self.year().value();
        let month = self.month().to_str(language);
        let day = self.day().value();

        match language {
            Language::English => {
                let mut s = month.to_owned();
                s.append(" ");
                s.append(dec_string(day as u64).as_str());
                s.append(", ");
                s.append(dec_string(year as u64).as_str());
                s
            },
            Language::French => {
                let mut s = dec_string(day as u64);
                s.append(" ");
                s.append(self.month.to_str_french_lower());
                s.append(" ");
                s.append(dec_string(year as u64).as_str());
                s
            },
        }
    }
}

/// Lower-case French display name of month `m`.
pub open spec fn spec_month_name_french_lower(m: Month) -> Seq<char> {
    match m {
        Month::January => "janvier"@,
        Month::February => "février"@,
        Month::March => "mars"@,
        Month::April => "avril"@,
        Month::May => "mai"@,
        Month::June => "juin"@,
        Month::July => "juillet"@,
        Month::August => "août"@,
        Month::September => "septembre"@,
        Month::October => "octobre"@,
        Month::November => "novembre"@,
        Month::December => "décembre"@,
    }
}

impl Month {
    /// The month's French display name in lower case, as the French date
    /// format wants it.
    pub fn to_str_french_lower(&self) -> (r: &'static str)
        ensures
            r@ == spec_month_name_french_lower(*self),
    {
        match self {
            Month::January => "janvier",
            Month::February => "février",
            Month::March => "mars",
            Month::April => "avril",
            Month::May => "mai",
            Month::June => "juin",
            Month::July => "juillet",
            Month::August => "août",
            Month::September => "septembre",
            Month::October => "octobre",
            Month::November => "novembre",
            Month::December => "décembre",
        }
    }
}

/// The display text of date `d` in language `language`: English is
/// "Month Day, Year"; French is "Day month Year" with the month name in
/// lower case.
pub open spec fn spec_date_string(d: PublishedDate, language: Language) -> Seq<char> {
    match language {
        Language::English => spec_month_name(d.month, language) + " "@ + spec_digits(
            d.day@ as nat,
        ) + ", "@ + spec_digits(d.year@ as nat),
        Language::French => spec_digits(d.day@ as nat) + " "@ + spec_month_name_french_lower(
            d.month,
        ) + " "@ + spec_digits(d.year@ as nat),
    }
}

} // verus!
