//! Calendar dates as they appear in capture file names and in date filters.

use vstd::prelude::*;
use crate::text::{
    decimal_i32, lemma_split_nonempty, or_zero, parse_int, split_on, split_text,
};

verus! {

/// A (year, month, day) triple. The components are not checked against the
/// calendar; dates are only ever ordered.
#[derive(Clone, Copy, Debug, PartialEq, Eq, Structural)]
pub struct Date {
    pub year: i32,
    pub month: i32,
    pub day: i32,
}

impl Date {
    /// `self` comes strictly before `other`, comparing year, then month,
    /// then day.
    pub open spec fn before(self, other: Date) -> bool {
        self.year < other.year || (self.year == other.year && (self.month < other.month || (
        self.month == other.month && self.day < other.day)))
    }

    /// Strict lexicographic order on (year, month, day).
    pub fn precedes(&self, other: &Date) -> (r: bool)
        ensures
            r == self.before(*other),
    {
        self.year < other.year || (self.year == other.year && (self.month < other.month || (
        self.month == other.month && self.day < other.day)))
    }

    /// Where `self` stands against a date range. The lower bound is read
    /// first: an incomplete one leaves the question open, and a date before
    /// it is outside. Only then is the upper bound read, in the same way. An
    /// absent bound does not constrain.
    pub open spec fn placed(self, min: Option<DateBound>, max: Option<DateBound>) -> Placement {
        if min == Some(DateBound::Incomplete) {
            Placement::Undecided
        } else if min matches Some(DateBound::Day(lo)) && self.before(lo) {
            Placement::Outside
        } else if max == Some(DateBound::Incomplete) {
            Placement::Undecided
        } else if max matches Some(DateBound::Day(hi)) && hi.before(self) {
            Placement::Outside
        } else {
            Placement::Inside
        }
    }

    /// Places a date against a range whose bounds are inclusive.
    pub fn locate(&self, min: &Option<DateBound>, max: &Option<DateBound>) -> (r: Placement)
        ensures
            r == self.placed(*min, *max),
    {
        match min {
            Some(DateBound::Incomplete) => {
                return Placement::Undecided;
            },
            Some(DateBound::Day(lo)) => {
                if self.precedes(lo) {
                    return Placement::Outside;
                }
            },
            None => {},
        }
        match max {
            Some(DateBound::Incomplete) => Placement::Undecided,
            Some(DateBound::Day(hi)) => {
                if hi.precedes(self) {
                    Placement::Outside
                } else {
                    Placement::Inside
                }
            },
            None => Placement::Inside,
        }
    }
}

/// A bound of a date range as it was given: any text is kept, and a text
/// with fewer than three `-`-separated segments names no day.
#[derive(Clone, Copy, Debug, PartialEq, Eq, Structural)]
pub enum DateBound {
    Day(Date),
    Incomplete,
}

/// Where a date stands against a range.
#[derive(Clone, Copy, Debug, PartialEq, Eq, Structural)]
pub enum Placement {
    Inside,
    Outside,
    /// A bound that had to be read names no day.
    Undecided,
}

/// The bound a filter argument denotes: its first three `-`-separated
/// segments read as integers, an unreadable segment counting as zero.
/// With fewer than three segments the bound is incomplete.
pub open spec fn lenient_date(text: Seq<char>) -> DateBound {
    let parts = split_on(text, '-');
    if parts.len() >= 3 {
        DateBound::Day(
            Date {
                year: or_zero(decimal_i32(parts[0])),
                month: or_zero(decimal_i32(parts[1])),
                day: or_zero(decimal_i32(parts[2])),
            },
        )
    } else {
        DateBound::Incomplete
    }
}

/// The date a file name stem carries: its first three `-`-separated segments,
/// each of which must be an integer. `None` when a segment is missing or
/// unreadable.
pub open spec fn strict_date(stem: Seq<char>) -> Option<Date> {
    let parts = split_on(stem, '-');
    if parts.len() >= 3 && decimal_i32(parts[0]) is Some && decimal_i32(parts[1]) is Some
        && decimal_i32(parts[2]) is Some {
        Some(
            Date {
                year: decimal_i32(parts[0])->0,
                month: decimal_i32(parts[1])->0,
                day: decimal_i32(parts[2])->0,
            },
        )
    } else {
        None
    }
}

/// The last `/`-separated segment of a path.
pub open spec fn base_name(path: Seq<char>) -> Seq<char> {
    split_on(path, '/').last()
}

/// The capture date of a file: the strict date of the part of its base name
/// that precedes the first `_`.
pub open spec fn capture_date_of(path: Seq<char>) -> Option<Date> {
    strict_date(split_on(base_name(path), '_')[0])
}

/// Reads a date filter argument. Every text is accepted.
pub fn parse_filter_date(text: &str) -> (r: DateBound)
    ensures
        r == lenient_date(text@),
{
    let parts = split_text(text, '-');
    if parts.len() < 3 {
        return DateBound::Incomplete;
    }
    let year = match parse_int(parts[0].as_str()) {
        Some(v) => v,
        None => 0,
    };
    let month = match parse_int(parts[1].as_str()) {
        Some(v) => v,
        None => 0,
    };
    let day = match parse_int(parts[2].as_str()) {
        Some(v) => v,
        None => 0,
    };
    DateBound::Day(Date { year, month, day })
}

/// Reads the capture date out of a file path.
pub fn parse_capture_date(path: &str) -> (r: Option<Date>)
    ensures
        r == capture_date_of(path@),
{
    proof {
        lemma_split_nonempty(path@, '/');
    }
    let segments = split_text(path, '/');
    let name = segments[segments.len() - 1].as_str();
    proof {
        lemma_split_nonempty(name@, '_');
    }
    let pieces = split_text(name, '_');
    let parts = split_text(pieces[0].as_str(), '-');
    if parts.len() < 3 {
        return None;
    }
    let year = parse_int(parts[0].as_str());
    let month = parse_int(parts[1].as_str());
    let day = parse_int(parts[2].as_str());
    match (year, month, day) {
        (Some(y), Some(m), Some(d)) => Some(Date { year: y, month: m, day: d }),
        _ => None,
    }
}

/// A date is inside any range whose lower or upper bound it equals, and is
/// outside any range with a readable bound it lies strictly beyond, unless
/// an incomplete lower bound was met first.
pub proof fn lemma_range_bounds(
    d: Date,
    other: Date,
    min: Option<DateBound>,
    max: Option<DateBound>,
)
    ensures
        d.placed(Some(DateBound::Day(d)), None) == Placement::Inside,
        d.placed(None, Some(DateBound::Day(d))) == Placement::Inside,
        d.placed(Some(DateBound::Day(d)), Some(DateBound::Day(d))) == Placement::Inside,
        d.before(other) ==> d.placed(Some(DateBound::Day(other)), max) == Placement::Outside,
        other.before(d) && min != Some(DateBound::Incomplete) ==> d.placed(
            min,
            Some(DateBound::Day(other)),
        ) == Placement::Outside,
{
}

/// A range is undecided exactly when an incomplete bound is read: the lower
/// one, or the upper one while the lower one does not already exclude the
/// date.
pub proof fn lemma_undecided_range(d: Date, min: Option<DateBound>, max: Option<DateBound>)
    ensures
        d.placed(min, max) == Placement::Undecided <==> (min == Some(DateBound::Incomplete) || (max
            == Some(DateBound::Incomplete) && !(min matches Some(DateBound::Day(lo)) && d.before(
            lo,
        )))),
{
}

} // verus!
