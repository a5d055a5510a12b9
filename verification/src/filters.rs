//! The filter set: optional criteria, each absent or imposing one
//! constraint, and its construction from command-line words.

use vstd::prelude::*;
use regex::Regex;
use crate::date::{lenient_date, parse_filter_date, DateBound};
use crate::pattern::{compile, pattern_compiles, regex_pattern};
use crate::text::{decimal_i32, parse_int, same_text};

verus! {

/// The criteria a record is judged against. An absent field imposes no
/// constraint on its dimension.
#[derive(Debug)]
pub struct Filters {
    pub name_regex: Option<Regex>,
    pub version_regex: Option<Regex>,
    pub min_version: Option<i32>,
    pub max_version: Option<i32>,
    pub description_regex: Option<Regex>,
    pub min_players: Option<i32>,
    pub max_players: Option<i32>,
    pub max_max_players: Option<i32>,
    pub min_max_players: Option<i32>,
    pub enforces_secure_chat: Option<bool>,
    pub id_regex: Option<Regex>,
    pub ip_regex: Option<Regex>,
    pub min_date: Option<DateBound>,
    pub max_date: Option<DateBound>,
    pub latest: Option<bool>,
}

/// A filter set with each expression replaced by the pattern text it was
/// compiled from.
pub struct FiltersView {
    pub name_regex: Option<Seq<char>>,
    pub version_regex: Option<Seq<char>>,
    pub min_version: Option<i32>,
    pub max_version: Option<i32>,
    pub description_regex: Option<Seq<char>>,
    pub min_players: Option<i32>,
    pub max_players: Option<i32>,
    pub max_max_players: Option<i32>,
    pub min_max_players: Option<i32>,
    pub enforces_secure_chat: Option<bool>,
    pub id_regex: Option<Seq<char>>,
    pub ip_regex: Option<Seq<char>>,
    pub min_date: Option<DateBound>,
    pub max_date: Option<DateBound>,
    pub latest: Option<bool>,
}

/// The pattern text behind an optional expression.
pub open spec fn pattern_of(re: Option<Regex>) -> Option<Seq<char>> {
    match re {
        Some(r) => Some(regex_pattern(r)),
        None => None,
    }
}

impl View for Filters {
    type V = FiltersView;

    open spec fn view(&self) -> FiltersView {
        FiltersView {
            name_regex: pattern_of(self.name_regex),
            version_regex: pattern_of(self.version_regex),
            min_version: self.min_version,
            max_version: self.max_version,
            description_regex: pattern_of(self.description_regex),
            min_players: self.min_players,
            max_players: self.max_players,
            max_max_players: self.max_max_players,
            min_max_players: self.min_max_players,
            enforces_secure_chat: self.enforces_secure_chat,
            id_regex: pattern_of(self.id_regex),
            ip_regex: pattern_of(self.ip_regex),
            min_date: self.min_date,
            max_date: self.max_date,
            latest: self.latest,
        }
    }
}

impl FiltersView {
    /// The filter set that constrains nothing.
    pub open spec fn unconstrained() -> FiltersView {
        FiltersView {
            name_regex: None,
            version_regex: None,
            min_version: None,
            max_version: None,
            description_regex: None,
            min_players: None,
            max_players: None,
            max_max_players: None,
            min_max_players: None,
            enforces_secure_chat: None,
            id_regex: None,
            ip_regex: None,
            min_date: None,
            max_date: None,
            latest: None,
        }
    }
}

impl Default for Filters {
    /// The filter set that constrains nothing.
    fn default() -> (r: Filters)
        ensures
            r@ == FiltersView::unconstrained(),
            r.name_regex is None,
            r.version_regex is None,
            r.description_regex is None,
            r.id_regex is None,
            r.ip_regex is None,
    {
        Filters {
            name_regex: None,
            version_regex: None,
            min_version: None,
            max_version: None,
            description_regex: None,
            min_players: None,
            max_players: None,
            max_max_players: None,
            min_max_players: None,
            enforces_secure_chat: None,
            id_regex: None,
            ip_regex: None,
            min_date: None,
            max_date: None,
            latest: None,
        }
    }
}

/// What a command-line word asks for.
#[derive(Clone, Copy, Debug, PartialEq, Eq, Structural)]
pub enum Flag {
    Name,
    Version,
    Description,
    MinPlayers,
    MaxPlayers,
    MaxMaxPlayers,
    MinMaxPlayers,
    SecureChat,
    MinVersion,
    MaxVersion,
    PlayerId,
    Address,
    MinDate,
    MaxDate,
    Date,
    Latest,
    Help,
    About,
}

/// Why reading the command line stopped before a filter set was complete.
#[derive(Clone, Copy, Debug, PartialEq, Eq, Structural)]
pub enum Stop {
    /// The usage text was asked for.
    Help,
    /// The program version was asked for.
    About,
    /// The word at this position is no known flag, or lacks its value.
    UnknownArgument(usize),
    /// The word at this position is not a valid expression.
    InvalidPattern(usize),
    /// The value given to this flag is not a 32-bit integer.
    InvalidNumber(Flag),
    /// The secure-chat value is neither `true` nor `false`.
    InvalidBoolean,
}

impl Flag {
    /// Whether the flag consumes the word that follows it.
    pub open spec fn takes_value(self) -> bool {
        !(self is Latest || self is Help || self is About)
    }

    /// Whether the flag consumes the word that follows it.
    pub fn has_value(&self) -> (r: bool)
        ensures
            r == self.takes_value(),
    {
        match self {
            Flag::Latest | Flag::Help | Flag::About => false,
            _ => true,
        }
    }
}

/// The flag a word denotes. A flag that takes a value is only recognised
/// when a following word exists; `--version` without one asks for the
/// program version instead.
pub open spec fn flag_of(word: Seq<char>, followed: bool) -> Option<Flag> {
    if followed && word == "--name"@ {
        Some(Flag::Name)
    } else if followed && (word == "--version"@ || word == "--ver"@) {
        Some(Flag::Version)
    } else if followed && (word == "--description"@ || word == "--desc"@) {
        Some(Flag::Description)
    } else if followed && (word == "--min-player"@ || word == "--min-players"@) {
        Some(Flag::MinPlayers)
    } else if followed && (word == "--max-player"@ || word == "--max-players"@) {
        Some(Flag::MaxPlayers)
    } else if followed && (word == "--max-max-player"@ || word == "--max-max-players"@) {
        Some(Flag::MaxMaxPlayers)
    } else if followed && (word == "--min-max-player"@ || word == "--min-max-players"@) {
        Some(Flag::MinMaxPlayers)
    } else if followed && (word == "--enforces-secure-chat"@ || word == "--secure-chat"@) {
        Some(Flag::SecureChat)
    } else if followed && (word == "--min-version"@ || word == "--min-ver"@) {
        Some(Flag::MinVersion)
    } else if followed && (word == "--max-version"@ || word == "--max-ver"@) {
        Some(Flag::MaxVersion)
    } else if followed && (word == "--id"@ || word == "--player-id"@ || word == "--uuid"@) {
        Some(Flag::PlayerId)
    } else if followed && (word == "--ip"@ || word == "--addr"@) {
        Some(Flag::Address)
    } else if followed && word == "--min-date"@ {
        Some(Flag::MinDate)
    } else if followed && word == "--max-date"@ {
        Some(Flag::MaxDate)
    } else if followed && word == "--date"@ {
        Some(Flag::Date)
    } else if word == "--latest"@ || word == "--latest-only"@ {
        Some(Flag::Latest)
    } else if word == "--help"@ || word == "-h"@ {
        Some(Flag::Help)
    } else if word == "--version"@ || word == "-v"@ {
        Some(Flag::About)
    } else {
        None
    }
}

/// Recognises a command-line word.
pub fn classify(word: &str, followed: bool) -> (r: Option<Flag>)
    ensures
        r == flag_of(word@, followed),
{
    if followed && same_text(word, "--name") {
        Some(Flag::Name)
    } else if followed && (same_text(word, "--version") || same_text(word, "--ver")) {
        Some(Flag::Version)
    } else if followed && (same_text(word, "--description") || same_text(word, "--desc")) {
        Some(Flag::Description)
    } else if followed && (same_text(word, "--min-player") || same_text(word, "--min-players")) {
        Some(Flag::MinPlayers)
    } else if followed && (same_text(word, "--max-player") || same_text(word, "--max-players")) {
        Some(Flag::MaxPlayers)
    } else if followed && (same_text(word, "--max-max-player") || same_text(
        word,
        "--max-max-players",
    )) {
        Some(Flag::MaxMaxPlayers)
    } else if followed && (same_text(word, "--min-max-player") || same_text(
        word,
        "--min-max-players",
    )) {
        Some(Flag::MinMaxPlayers)
    } else if followed && (same_text(word, "--enforces-secure-chat") || same_text(
        word,
        "--secure-chat",
    )) {
        Some(Flag::SecureChat)
    } else if followed && (same_text(word, "--min-version") || same_text(word, "--min-ver")) {
        Some(Flag::MinVersion)
    } else if followed && (same_text(word, "--max-version") || same_text(word, "--max-ver")) {
        Some(Flag::MaxVersion)
    } else if followed && (same_text(word, "--id") || same_text(word, "--player-id")
        || same_text(word, "--uuid")) {
        Some(Flag::PlayerId)
    } else if followed && (same_text(word, "--ip") || same_text(word, "--addr")) {
        Some(Flag::Address)
    } else if followed && same_text(word, "--min-date") {
        Some(Flag::MinDate)
    } else if followed && same_text(word, "--max-date") {
        Some(Flag::MaxDate)
    } else if followed && same_text(word, "--date") {
        Some(Flag::Date)
    } else if same_text(word, "--latest") || same_text(word, "--latest-only") {
        Some(Flag::Latest)
    } else if same_text(word, "--help") || same_text(word, "-h") {
        Some(Flag::Help)
    } else if same_text(word, "--version") || same_text(word, "-v") {
        Some(Flag::About)
    } else {
        None
    }
}

/// The secure-chat target a value denotes: only the literals `true` and
/// `false` are accepted.
pub open spec fn boolean_of(value: Seq<char>) -> Option<bool> {
    if value == "true"@ {
        Some(true)
    } else if value == "false"@ {
        Some(false)
    } else {
        None
    }
}

/// The filter set after one flag has taken effect on `acc`, or the reason
/// to stop. `value` is the word that follows the flag, found at position
/// `value_at`; flags that take no value ignore both.
pub open spec fn applied(flag: Flag, value: Seq<char>, value_at: usize, acc: FiltersView) -> Result<
    FiltersView,
    Stop,
> {
    match flag {
        Flag::Name => if pattern_compiles(value) {
            Ok(FiltersView { name_regex: Some(value), ..acc })
        } else {
            Err(Stop::InvalidPattern(value_at))
        },
        Flag::Version => if pattern_compiles(value) {
            Ok(FiltersView { version_regex: Some(value), ..acc })
        } else {
            Err(Stop::InvalidPattern(value_at))
        },
        Flag::Description => if pattern_compiles(value) {
            Ok(FiltersView { description_regex: Some(value), ..acc })
        } else {
            Err(Stop::InvalidPattern(value_at))
        },
        Flag::PlayerId => if pattern_compiles(value) {
            Ok(FiltersView { id_regex: Some(value), ..acc })
        } else {
            Err(Stop::InvalidPattern(value_at))
        },
        Flag::Address => if pattern_compiles(value) {
            Ok(FiltersView { ip_regex: Some(value), ..acc })
        } else {
            Err(Stop::InvalidPattern(value_at))
        },
        Flag::MinPlayers => match decimal_i32(value) {
            Some(n) => Ok(FiltersView { min_players: Some(n), ..acc }),
            None => Err(Stop::InvalidNumber(flag)),
        },
        Flag::MaxPlayers => match decimal_i32(value) {
            Some(n) => Ok(FiltersView { max_players: Some(n), ..acc }),
            None => Err(Stop::InvalidNumber(flag)),
        },
        Flag::MaxMaxPlayers => match decimal_i32(value) {
            Some(n) => Ok(FiltersView { max_max_players: Some(n), ..acc }),
            None => Err(Stop::InvalidNumber(flag)),
        },
        Flag::MinMaxPlayers => match decimal_i32(value) {
            Some(n) => Ok(FiltersView { min_max_players: Some(n), ..acc }),
            None => Err(Stop::InvalidNumber(flag)),
        },
        Flag::MinVersion => match decimal_i32(value) {
            Some(n) => Ok(FiltersView { min_version: Some(n), ..acc }),
            None => Err(Stop::InvalidNumber(flag)),
        },
        Flag::MaxVersion => match decimal_i32(value) {
            Some(n) => Ok(FiltersView { max_version: Some(n), ..acc }),
            None => Err(Stop::InvalidNumber(flag)),
        },
        Flag::SecureChat => match boolean_of(value) {
            Some(b) => Ok(FiltersView { enforces_secure_chat: Some(b), ..acc }),
            None => Err(Stop::InvalidBoolean),
        },
        Flag::MinDate => Ok(FiltersView { min_date: Some(lenient_date(value)), ..acc }),
        Flag::MaxDate => Ok(FiltersView { max_date: Some(lenient_date(value)), ..acc }),
        Flag::Date => Ok(
            FiltersView {
                min_date: Some(lenient_date(value)),
                max_date: Some(lenient_date(value)),
                ..acc
            },
        ),
        Flag::Latest => Ok(FiltersView { latest: Some(true), ..acc }),
        Flag::Help => Err(Stop::Help),
        Flag::About => Err(Stop::About),
    }
}

/// Lets one flag take effect on a filter set.
pub fn apply(flag: Flag, value: &str, value_at: usize, filters: Filters) -> (r: Result<
    Filters,
    Stop,
>)
    ensures
        match r {
            Ok(f) => applied(flag, value@, value_at, filters@) == Ok::<FiltersView, Stop>(f@),
            Err(e) => applied(flag, value@, value_at, filters@) == Err::<FiltersView, Stop>(e),
        },
{
    match flag {
        Flag::Name => match compile(value) {
            Ok(re) => Ok(Filters { name_regex: Some(re), ..filters }),
            Err(_) => Err(Stop::InvalidPattern(value_at)),
        },
        Flag::Version => match compile(value) {
            Ok(re) => Ok(Filters { version_regex: Some(re), ..filters }),
            Err(_) => Err(Stop::InvalidPattern(value_at)),
        },
        Flag::Description => match compile(value) {
            Ok(re) => Ok(Filters { description_regex: Some(re), ..filters }),
            Err(_) => Err(Stop::InvalidPattern(value_at)),
        },
        Flag::PlayerId => match compile(value) {
            Ok(re) => Ok(Filters { id_regex: Some(re), ..filters }),
            Err(_) => Err(Stop::InvalidPattern(value_at)),
        },
        Flag::Address => match compile(value) {
            Ok(re) => Ok(Filters { ip_regex: Some(re), ..filters }),
            Err(_) => Err(Stop::InvalidPattern(value_at)),
        },
        Flag::MinPlayers => match parse_int(value) {
            Some(n) => Ok(Filters { min_players: Some(n), ..filters }),
            None => Err(Stop::InvalidNumber(flag)),
        },
        Flag::MaxPlayers => match parse_int(value) {
            Some(n) => Ok(Filters { max_players: Some(n), ..filters }),
            None => Err(Stop::InvalidNumber(flag)),
        },
        Flag::MaxMaxPlayers => match parse_int(value) {
            Some(n) => Ok(Filters { max_max_players: Some(n), ..filters }),
            None => Err(Stop::InvalidNumber(flag)),
        },
        Flag::MinMaxPlayers => match parse_int(value) {
            Some(n) => Ok(Filters { min_max_players: Some(n), ..filters }),
            None => Err(Stop::InvalidNumber(flag)),
        },
        Flag::MinVersion => match parse_int(value) {
            Some(n) => Ok(Filters { min_version: Some(n), ..filters }),
            None => Err(Stop::InvalidNumber(flag)),
        },
        Flag::MaxVersion => match parse_int(value) {
            Some(n) => Ok(Filters { max_version: Some(n), ..filters }),
            None => Err(Stop::InvalidNumber(flag)),
        },
        Flag::SecureChat => {
            if same_text(value, "true") {
                Ok(Filters { enforces_secure_chat: Some(true), ..filters })
            } else if same_text(value, "false") {
                Ok(Filters { enforces_secure_chat: Some(false), ..filters })
            } else {
                Err(Stop::InvalidBoolean)
            }
        },
        Flag::MinDate => Ok(Filters { min_date: Some(parse_filter_date(value)), ..filters }),
        Flag::MaxDate => Ok(Filters { max_date: Some(parse_filter_date(value)), ..filters }),
        Flag::Date => {
            let bound = parse_filter_date(value);
            Ok(Filters { min_date: Some(bound), max_date: Some(bound), ..filters })
        },
        Flag::Latest => Ok(Filters { latest: Some(true), ..filters }),
        Flag::Help => Err(Stop::Help),
        Flag::About => Err(Stop::About),
    }
}

/// The words of a command line as character sequences.
pub open spec fn words(args: Seq<String>) -> Seq<Seq<char>> {
    args.map_values(|s: String| s@)
}

/// The outcome of reading the words from position `i` on, starting from the
/// filter set `acc`: flags take effect left to right, and the first word
/// that cannot be honoured stops the reading.
pub open spec fn parsed_from(args: Seq<Seq<char>>, i: int, acc: FiltersView) -> Result<
    FiltersView,
    Stop,
>
    decreases args.len() - i,
{
    if i < 0 || i >= args.len() {
        Ok(acc)
    } else {
        match flag_of(args[i], i + 1 < args.len()) {
            None => Err(Stop::UnknownArgument(i as usize)),
            Some(flag) => {
                if flag.takes_value() {
                    match applied(flag, args[i + 1], (i + 1) as usize, acc) {
                        Ok(next) => parsed_from(args, i + 2, next),
                        Err(e) => Err(e),
                    }
                } else {
                    match applied(flag, Seq::empty(), i as usize, acc) {
                        Ok(next) => parsed_from(args, i + 1, next),
                        Err(e) => Err(e),
                    }
                }
            },
        }
    }
}

/// The filter set a command line asks for. The first two words (program
/// name and directory) are not flags and are skipped.
pub open spec fn parsed(args: Seq<Seq<char>>) -> Result<FiltersView, Stop> {
    parsed_from(args, 2, FiltersView::unconstrained())
}

/// A date flag takes effect on every value: whatever text follows it is
/// kept as the bound, and reading goes on.
pub proof fn lemma_date_flags_never_stop(
    flag: Flag,
    value: Seq<char>,
    value_at: usize,
    acc: FiltersView,
)
    requires
        flag is MinDate || flag is MaxDate || flag is Date,
    ensures
        applied(flag, value, value_at, acc) is Ok,
        flag is MinDate || flag is Date ==> applied(flag, value, value_at, acc)->Ok_0.min_date
            == Some(lenient_date(value)),
        flag is MaxDate || flag is Date ==> applied(flag, value, value_at, acc)->Ok_0.max_date
            == Some(lenient_date(value)),
{
}

/// A flag that takes a value is only ever recognised in front of one.
pub proof fn lemma_flag_needs_value(word: Seq<char>, followed: bool)
    ensures
        flag_of(word, followed) matches Some(flag) ==> (flag.takes_value() ==> followed),
{
}

/// Builds the filter set from a command line, or says why not.
pub fn parse_filters(args: &[String]) -> (r: Result<Filters, Stop>)
    ensures
        match r {
            Ok(f) => parsed(words(args@)) == Ok::<FiltersView, Stop>(f@),
            Err(e) => parsed(words(args@)) == Err::<FiltersView, Stop>(e),
        },
{
    let mut filters = Filters::default();
    let mut i: usize = 2;
    while i < args.len()
        invariant
            2 <= i,
            parsed(words(args@)) == parsed_from(words(args@), i as int, filters@),
        decreases args.len() - i,
    {
        let followed = i + 1 < args.len();
        let flag = match classify(args[i].as_str(), followed) {
            Some(flag) => flag,
            None => {
                return Err(Stop::UnknownArgument(i));
            },
        };
        proof {
            lemma_flag_needs_value(args@[i as int]@, followed);
        }
        if flag.has_value() {
            match apply(flag, args[i + 1].as_str(), i + 1, filters) {
                Ok(next) => {
                    filters = next;
                },
                Err(e) => {
                    return Err(e);
                },
            }
            i += 2;
        } else {
            proof {
                reveal_strlit("");
            }
            match apply(flag, "", i, filters) {
                Ok(next) => {
                    filters = next;
                },
                Err(e) => {
                    return Err(e);
                },
            }
            i += 1;
        }
    }
    Ok(filters)
}

} // verus!
