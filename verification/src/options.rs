//! What a submission asks for: the range of nightlies to search and the kind of
//! regression to look for.

use vstd::prelude::*;

verus! {

/// A calendar date by its three numbers. Any three numbers can be written down; whether
/// they name a day of the calendar is decided when the date is turned into text.
#[derive(Clone, Copy, Debug, PartialEq, Eq, Structural)]
pub struct Date {
    pub year: i32,
    pub month: u32,
    pub day: u32,
}

/// The options of one bisection.
#[derive(Clone, Debug, PartialEq, Eq)]
pub struct Options {
    /// The earliest nightly to consider.
    pub start: Date,
    /// The latest nightly to consider; without it the search runs up to the present.
    pub end: Option<Date>,
    /// What counts as a regression; without it, an internal compiler error.
    pub kind: Option<String>,
}

/// The options with the text of `kind` as a sequence of characters.
pub struct OptionsView {
    pub start: Date,
    pub end: Option<Date>,
    pub kind: Option<Seq<char>>,
}

impl View for Options {
    type V = OptionsView;

    open spec fn view(&self) -> OptionsView {
        OptionsView {
            start: self.start,
            end: self.end,
            kind: match self.kind {
                Some(k) => Some(k@),
                None => None,
            },
        }
    }
}

/// The text that the calendar library prints for the date with these three numbers, in
/// the form year, month, day; `None` where they name no day of its calendar.
pub uninterp spec fn date_text(year: int, month: int, day: int) -> Option<Seq<char>>;

/// Calls `chrono::NaiveDate::from_ymd_opt` and, where that gives a date, prints it with
/// `to_string`. The result is the one that `date_text` names for the three numbers.
#[verifier::external_body]
fn format_date(year: i32, month: u32, day: u32) -> (r: Option<String>)
    ensures
        match r {
            Some(s) => date_text(year as int, month as int, day as int) == Some(s@),
            None => date_text(year as int, month as int, day as int) is None,
        },
{
    match chrono::NaiveDate::from_ymd_opt(year, month, day) {
        Some(date) => Some(date.to_string()),
        None => None,
    }
}

impl Date {
    /// The text of the date as the bisection tool reads it.
    pub open spec fn text(self) -> Option<Seq<char>> {
        date_text(self.year as int, self.month as int, self.day as int)
    }

    /// The date as text, or `None` where the numbers name no day.
    pub fn to_text(&self) -> (r: Option<String>)
        ensures
            match r {
                Some(s) => self.text() == Some(s@),
                None => self.text() is None,
            },
    {
        format_date(self.year, self.month, self.day)
    }
}

} // verus!
