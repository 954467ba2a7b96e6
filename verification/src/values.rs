//! Validated, immutable value objects of the article domain.
use vstd::prelude::*;

verus! {

/// A supported display language. The set is closed: every function that
/// matches on it is total, with no fallback case.
#[derive(Clone, Copy, Debug, PartialEq, Eq, Structural)]
pub enum Language {
    English,
    French,
}

/// Name of a category an article belongs to.
#[derive(Debug)]
pub struct Category(pub String);

/// Name of an optional sub-category below a category.
#[derive(Debug)]
pub struct SubCategory(pub String);

/// Title of an article, as authored.
#[derive(Debug)]
pub struct Title(pub String);

/// Name of an article's author.
#[derive(Debug)]
pub struct Author(pub String);

/// Authored body of an article. The engine never interprets it.
#[derive(Debug)]
pub struct Content(pub String);

/// One tag put on an article.
#[derive(Debug)]
pub struct Tag(pub String);

/// The tags of one article, in authored order.
#[derive(Debug)]
pub struct Tags(pub Vec<Tag>);

/// A readable and writable byte stream. The engine depends only on this
/// interface; a concrete backend (a file, a socket, memory) is supplied by
/// the caller and is never interpreted here.
pub trait Buffer {
    /// Read the whole stream as bytes.
    fn read_all(&mut self) -> Vec<u8>;

    /// Append the given bytes to the stream.
    fn write_all(&mut self, bytes: &[u8]);
}

/// File name of one image attached to an article.
#[derive(Debug)]
pub struct ImageName(pub String);

/// One image attached to an article: a name and an opaque byte stream,
/// already materialized. The engine never interprets the bytes.
#[derive(Debug)]
pub struct Image {
    pub name: ImageName,
    pub content: Vec<u8>,
}

/// A calendar year as an unsigned 16-bit count.
#[derive(Clone, Copy, Debug, PartialEq, Eq, Structural)]
pub struct Year(u16);

impl Year {
    pub fn new(year: u16) -> (r: Self)
        ensures
            r@ == year,
    {
        Self(year)
    }

    pub fn value(&self) -> (r: u16)
        ensures
            r == self@,
    {
        self.0
    }
}

impl View for Year {
    type V = u16;

    closed spec fn view(&self) -> u16 {
        self.0
    }
}

/// A calendar month. Ordered January through December by `Month::ord`.
#[derive(Clone, Copy, Debug, PartialEq, Eq, Structural)]
pub enum Month {
    January,
    February,
    March,
    April,
    May,
    June,
    July,
    August,
    September,
    October,
    November,
    December,
}

/// Position of a month within the year, 1 through 12; the order used by
/// chronological sorting.
pub open spec fn month_ord(m: Month) -> int {
    match m {
        Month::January => 1,
        Month::February => 2,
        Month::March => 3,
        Month::April => 4,
        Month::May => 5,
        Month::June => 6,
        Month::July => 7,
        Month::August => 8,
        Month::September => 9,
        Month::October => 10,
        Month::November => 11,
        Month::December => 12,
    }
}

/// Display name of month `m` in language `language`.
pub open spec fn spec_month_name(m: Month, language: Language) -> Seq<char> {
    match language {
        Language::English => match m {
            Month::January => "January"@,
            Month::February => "February"@,
            Month::March => "March"@,
            Month::April => "April"@,
            Month::May => "May"@,
            Month::June => "June"@,
            Month::July => "July"@,
            Month::August => "August"@,
            Month::September => "September"@,
            Month::October => "October"@,
            Month::November => "November"@,
            Month::December => "December"@,
        },
        Language::French => match m {
            Month::January => "Janvier"@,
            Month::February => "Février"@,
            Month::March => "Mars"@,
            Month::April => "Avril"@,
            Month::May => "Mai"@,
            Month::June => "Juin"@,
            Month::July => "Juillet"@,
            Month::August => "Août"@,
            Month::September => "Septembre"@,
            Month::October => "Octobre"@,
            Month::November => "Novembre"@,
            Month::December => "Décembre"@,
        },
    }
}

impl Month {
    /// Position of this month within the year, 1 through 12.
    pub fn number(&self) -> (n: u8)
        ensures
            n as int == month_ord(*self),
    {
        match self {
            Month::January => 1,
            Month::February => 2,
            Month::March => 3,
            Month::April => 4,
            Month::May => 5,
            Month::June => 6,
            Month::July => 7,
            Month::August => 8,
            Month::September => 9,
            Month::October => 10,
            Month::November => 11,
            Month::December => 12,
        }
    }

    /// The month's display name in the given language.
    pub fn to_str(&self, language: &Language) -> (r: &'static str)
        ensures
            r@ == spec_month_name(*self, *language),
    {
        match language {
            Language::English => match self {
                Month::January => "January",
                Month::February => "February",
                Month::March => "March",
                Month::April => "April",
                Month::May => "May",
                Month::June => "June",
                Month::July => "July",
                Month::August => "August",
                Month::September => "September",
                Month::October => "October",
                Month::November => "November",
                Month::December => "December",
            },
            Language::French => match self {
                Month::January => "Janvier",
                Month::February => "Février",
                Month::March => "Mars",
                Month::April => "Avril",
                Month::May => "Mai",
                Month::June => "Juin",
                Month::July => "Juillet",
                Month::August => "Août",
                Month::September => "Septembre",
                Month::October => "Octobre",
                Month::November => "Novembre",
                Month::December => "Décembre",
            },
        }
    }
}

/// A day of the month, kept between 1 and 31. Range validation only:
/// whether the day exists in a given month and year is not checked here.
#[derive(Clone, Copy, Debug, PartialEq, Eq, Structural)]
pub struct Day(u8);

impl Day {
    /// Accepts exactly the days 1 through 31.
    pub fn new(day: u8) -> (r: Option<Self>)
        ensures
            r is Some <==> 1 <= day <= 31,
            r matches Some(d) ==> d@ == day,
    {
        if day > 0 && day < 32 {
            Some(Self(day))
        } else {
            None
        }
    }

    pub fn value(&self) -> (r: u8)
        ensures
            r == self@,
            1 <= r <= 31,
    {
        proof {
            use_type_invariant(self);
        }
        self.0
    }
}

impl View for Day {
    type V = u8;

    closed spec fn view(&self) -> u8 {
        self.0
    }
}

#[verifier::type_invariant]
spec fn day_in_range(d: Day) -> bool {
    1 <= d@ <= 31
}

/// Path of one generated page or directory, as an ordered list of segments.
#[derive(Debug)]
pub struct HtmlPagePath(pub Vec<String>);

impl View for HtmlPagePath {
    type V = Seq<Seq<char>>;

    open spec fn view(&self) -> Seq<Seq<char>> {
        self.0.deep_view()
    }
}

impl HtmlPagePath {
    pub fn new(segments: Vec<String>) -> (r: Self)
        ensures
            r@ == segments.deep_view(),
    {
        Self(segments)
    }

    /// The path's segments, in order.
    pub fn segments(&self) -> (r: &Vec<String>)
        ensures
            r.deep_view() == self@,
    {
        &self.0
    }
}

/// Zero-based page number of one page of a paginated listing.
#[derive(Clone, Copy, Debug, PartialEq, Eq, Structural)]
pub struct HtmlPageIndex(usize);

impl HtmlPageIndex {
    pub fn new(index: usize) -> (r: Self)
        ensures
            r@ == index,
    {
        Self(index)
    }

    pub fn value(&self) -> (r: usize)
        ensures
            r == self@,
    {
        self.0
    }
}

impl View for HtmlPageIndex {
    type V = usize;

    closed spec fn view(&self) -> usize {
        self.0
    }
}

} // verus!
