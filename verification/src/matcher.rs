//! The matcher: a record and the context of its file are held against the
//! filter set, one check after another in a fixed order, and the first
//! check that fails rejects the record.

use vstd::prelude::*;
use regex::Regex;
use vstd::string::*;
use crate::date::{base_name, capture_date_of, parse_capture_date, Date, DateBound, Placement};
use crate::filters::{Filters, FiltersView};
use crate::json::{document_of, parse_json, Json};
use crate::record::{normalize, normalized, Player, PlayerView, ServerRecord, ServerRecordView};
use crate::pattern::{is_match, regex_accepts};
use crate::text::{contains_text, has_substring, lemma_split_nonempty, or_zero, split_on, split_text};

verus! {

/// What the path of a capture file says about it.
#[derive(Debug)]
pub struct FileContext {
    pub endpoint: String,
    pub is_latest: bool,
    pub capture_date: Option<Date>,
}

pub struct FileContextView {
    pub endpoint: Seq<char>,
    pub is_latest: bool,
    pub capture_date: Option<Date>,
}

impl View for FileContext {
    type V = FileContextView;

    open spec fn view(&self) -> FileContextView {
        FileContextView {
            endpoint: self.endpoint@,
            is_latest: self.is_latest,
            capture_date: self.capture_date,
        }
    }
}

/// The checks of the matcher, in the order in which they are made.
#[derive(Clone, Copy, Debug, PartialEq, Eq, Structural)]
pub enum Check {
    LatestGate,
    PlayerName,
    DateRange,
    OnlinePlayers,
    VersionName,
    Description,
    Protocol,
    Capacity,
    SecureChat,
    PlayerId,
    Endpoint,
}

/// A value lies between two bounds, each of which may be absent.
pub open spec fn within_bounds(value: i32, min: Option<i32>, max: Option<i32>) -> bool {
    (max matches Some(hi) ==> value <= hi) && (min matches Some(lo) ==> value >= lo)
}

/// Some player of the sample has a name that the expression accepts.
pub open spec fn some_name_accepted(re: Regex, sample: Seq<PlayerView>) -> bool {
    exists|i: int|
        0 <= i < sample.len() && (#[trigger] sample[i]).name is Some && regex_accepts(
            re,
            sample[i].name->0,
        )
}

/// Some player of the sample has an id that the expression accepts.
pub open spec fn some_id_accepted(re: Regex, sample: Seq<PlayerView>) -> bool {
    exists|i: int|
        0 <= i < sample.len() && (#[trigger] sample[i]).id is Some && regex_accepts(
            re,
            sample[i].id->0,
        )
}

/// Files marked as latest are eligible exactly in latest-only mode.
pub open spec fn latest_gate(ctx: FileContextView, f: Filters) -> bool {
    ctx.is_latest == (f.latest == Some(true))
}

/// With a name expression, the sample must exist and hold an accepted name.
pub open spec fn name_check(rec: ServerRecordView, f: Filters) -> bool {
    f.name_regex matches Some(re) ==> (rec.players.sample matches Some(s) && some_name_accepted(
        re,
        s,
    ))
}

/// The answer of the date check. In latest-only mode it is skipped, and no
/// date bound is read. Otherwise the capture date must be known, and is
/// placed against the date range.
pub open spec fn date_answer(ctx: FileContextView, f: Filters) -> Placement {
    if f.latest == Some(true) {
        Placement::Inside
    } else {
        match ctx.capture_date {
            Some(d) => d.placed(f.min_date, f.max_date),
            None => Placement::Outside,
        }
    }
}

/// The number of players online is within its bounds.
pub open spec fn online_check(rec: ServerRecordView, f: Filters) -> bool {
    within_bounds(rec.players.online, f.min_players, f.max_players)
}

/// With a version expression, a version name that is present must be
/// accepted; an absent name passes.
pub open spec fn version_check(rec: ServerRecordView, f: Filters) -> bool {
    f.version_regex matches Some(re) ==> (rec.version.name matches Some(n) ==> regex_accepts(
        re,
        n,
    ))
}

/// With a description expression, the description must be accepted.
pub open spec fn description_check(rec: ServerRecordView, f: Filters) -> bool {
    f.description_regex matches Some(re) ==> regex_accepts(re, rec.description)
}

/// The protocol number, zero when absent, is within its bounds.
pub open spec fn protocol_check(rec: ServerRecordView, f: Filters) -> bool {
    within_bounds(or_zero(rec.version.protocol), f.min_version, f.max_version)
}

/// The player capacity is within its bounds.
pub open spec fn capacity_check(rec: ServerRecordView, f: Filters) -> bool {
    within_bounds(rec.players.max, f.min_max_players, f.max_max_players)
}

/// With a secure-chat target, a server with players online must have the
/// targeted setting; an empty server is not judged.
pub open spec fn secure_chat_check(rec: ServerRecordView, f: Filters) -> bool {
    f.enforces_secure_chat matches Some(target) ==> (rec.players.online > 0
        ==> rec.enforces_secure_chat == target)
}

/// With an id expression, a sample that is present must hold an accepted
/// id; an absent sample passes.
pub open spec fn id_check(rec: ServerRecordView, f: Filters) -> bool {
    f.id_regex matches Some(re) ==> (rec.players.sample matches Some(s) ==> some_id_accepted(
        re,
        s,
    ))
}

/// With an address expression, the endpoint must be accepted.
pub open spec fn endpoint_check(ctx: FileContextView, f: Filters) -> bool {
    f.ip_regex matches Some(re) ==> regex_accepts(re, ctx.endpoint)
}

/// How the matcher judges a record.
#[derive(Clone, Copy, Debug, PartialEq, Eq, Structural)]
pub enum Judgement {
    /// Every check was passed.
    Passed,
    /// This check was the first to fail.
    Rejected(Check),
    /// The date check was reached and had to read a date bound that names
    /// no day; no later check was made.
    IncompleteDateFilter,
}

/// The judgement on a record: the checks are made in order, and the first
/// that fails rejects it. A date range that cannot be decided ends the
/// judging where the date check stands.
pub open spec fn judgement(rec: ServerRecordView, ctx: FileContextView, f: Filters) -> Judgement {
    if !latest_gate(ctx, f) {
        Judgement::Rejected(Check::LatestGate)
    } else if !name_check(rec, f) {
        Judgement::Rejected(Check::PlayerName)
    } else if date_answer(ctx, f) == Placement::Undecided {
        Judgement::IncompleteDateFilter
    } else if date_answer(ctx, f) == Placement::Outside {
        Judgement::Rejected(Check::DateRange)
    } else if !online_check(rec, f) {
        Judgement::Rejected(Check::OnlinePlayers)
    } else if !version_check(rec, f) {
        Judgement::Rejected(Check::VersionName)
    } else if !description_check(rec, f) {
        Judgement::Rejected(Check::Description)
    } else if !protocol_check(rec, f) {
        Judgement::Rejected(Check::Protocol)
    } else if !capacity_check(rec, f) {
        Judgement::Rejected(Check::Capacity)
    } else if !secure_chat_check(rec, f) {
        Judgement::Rejected(Check::SecureChat)
    } else if !id_check(rec, f) {
        Judgement::Rejected(Check::PlayerId)
    } else if !endpoint_check(ctx, f) {
        Judgement::Rejected(Check::Endpoint)
    } else {
        Judgement::Passed
    }
}

/// The record is reported: it passes every check.
pub open spec fn passes(rec: ServerRecordView, ctx: FileContextView, f: Filters) -> bool {
    judgement(rec, ctx, f) == Judgement::Passed
}

/// Tests a value against two optional bounds.
pub fn in_bounds(value: i32, min: &Option<i32>, max: &Option<i32>) -> (r: bool)
    ensures
        r == within_bounds(value, *min, *max),
{
    let below = match max {
        Some(hi) => value <= *hi,
        None => true,
    };
    let above = match min {
        Some(lo) => value >= *lo,
        None => true,
    };
    below && above
}

/// Whether some player of the sample has a name that `re` accepts.
pub fn any_name_matches(re: &Regex, sample: &Vec<Player>) -> (r: bool)
    ensures
        r == some_name_accepted(*re, sample@.map_values(|p: Player| p@)),
{
    let ghost views = sample@.map_values(|p: Player| p@);
    let mut i: usize = 0;
    while i < sample.len()
        invariant
            i <= sample.len(),
            views == sample@.map_values(|p: Player| p@),
            forall|k: int|
                0 <= k < i ==> !((#[trigger] views[k]).name is Some && regex_accepts(
                    *re,
                    views[k].name->0,
                )),
        decreases sample.len() - i,
    {
        match &sample[i].name {
            Some(name) => {
                if is_match(re, name.as_str()) {
                    assert(views[i as int].name is Some && regex_accepts(
                        *re,
                        views[i as int].name->0,
                    ));
                    return true;
                }
            },
            None => {},
        }
        i += 1;
    }
    false
}

/// Whether some player of the sample has an id that `re` accepts.
pub fn any_id_matches(re: &Regex, sample: &Vec<Player>) -> (r: bool)
    ensures
        r == some_id_accepted(*re, sample@.map_values(|p: Player| p@)),
{
    let ghost views = sample@.map_values(|p: Player| p@);
    let mut i: usize = 0;
    while i < sample.len()
        invariant
            i <= sample.len(),
            views == sample@.map_values(|p: Player| p@),
            forall|k: int|
                0 <= k < i ==> !((#[trigger] views[k]).id is Some && regex_accepts(
                    *re,
                    views[k].id->0,
                )),
        decreases sample.len() - i,
    {
        match &sample[i].id {
            Some(id) => {
                if is_match(re, id.as_str()) {
                    assert(views[i as int].id is Some && regex_accepts(
                        *re,
                        views[i as int].id->0,
                    ));
                    return true;
                }
            },
            None => {},
        }
        i += 1;
    }
    false
}

/// Makes the checks in order and stops at the first that does not pass.
pub fn judge(record: &ServerRecord, ctx: &FileContext, filters: &Filters) -> (r: Judgement)
    ensures
        r == judgement(record@, ctx@, *filters),
{
    let latest_only = match filters.latest {
        Some(b) => b,
        None => false,
    };
    if ctx.is_latest != latest_only {
        return Judgement::Rejected(Check::LatestGate);
    }
    match &filters.name_regex {
        Some(re) => {
            let found = match &record.players.sample {
                Some(sample) => any_name_matches(re, sample),
                None => false,
            };
            if !found {
                return Judgement::Rejected(Check::PlayerName);
            }
        },
        None => {},
    }
    if !latest_only {
        let answer = match &ctx.capture_date {
            Some(d) => d.locate(&filters.min_date, &filters.max_date),
            None => Placement::Outside,
        };
        match answer {
            Placement::Undecided => {
                return Judgement::IncompleteDateFilter;
            },
            Placement::Outside => {
                return Judgement::Rejected(Check::DateRange);
            },
            Placement::Inside => {},
        }
    }
    if !in_bounds(record.players.online, &filters.min_players, &filters.max_players) {
        return Judgement::Rejected(Check::OnlinePlayers);
    }
    match (&filters.version_regex, &record.version.name) {
        (Some(re), Some(name)) => {
            if !is_match(re, name.as_str()) {
                return Judgement::Rejected(Check::VersionName);
            }
        },
        _ => {},
    }
    match &filters.description_regex {
        Some(re) => {
            if !is_match(re, record.description.as_str()) {
                return Judgement::Rejected(Check::Description);
            }
        },
        None => {},
    }
    let protocol = match record.version.protocol {
        Some(p) => p,
        None => 0,
    };
    if !in_bounds(protocol, &filters.min_version, &filters.max_version) {
        return Judgement::Rejected(Check::Protocol);
    }
    if !in_bounds(record.players.max, &filters.min_max_players, &filters.max_max_players) {
        return Judgement::Rejected(Check::Capacity);
    }
    match filters.enforces_secure_chat {
        Some(target) => {
            if record.players.online > 0 && record.enforces_secure_chat != target {
                return Judgement::Rejected(Check::SecureChat);
            }
        },
        None => {},
    }
    match (&filters.id_regex, &record.players.sample) {
        (Some(re), Some(sample)) => {
            if !any_id_matches(re, sample) {
                return Judgement::Rejected(Check::PlayerId);
            }
        },
        _ => {},
    }
    match &filters.ip_regex {
        Some(re) => {
            if !is_match(re, ctx.endpoint.as_str()) {
                return Judgement::Rejected(Check::Endpoint);
            }
        },
        None => {},
    }
    Judgement::Passed
}

/// Decides whether a record is reported: it is when every check passes.
pub fn evaluate(record: &ServerRecord, ctx: &FileContext, filters: &Filters) -> (r: bool)
    ensures
        r == passes(record@, ctx@, *filters),
{
    match judge(record, ctx, filters) {
        Judgement::Passed => true,
        _ => false,
    }
}

/// The endpoint a directory stands for: its base name up to the first `:`.
pub open spec fn endpoint_of(dir: Seq<char>) -> Seq<char> {
    split_on(base_name(dir), ':')[0]
}

/// Whether a path names a latest file: its base name contains `latest`.
pub open spec fn marked_latest(path: Seq<char>) -> bool {
    has_substring(base_name(path), "latest"@)
}

/// The context of a file, given its path and endpoint. A latest file carries
/// no date; any other file must carry a readable one, else there is no
/// context.
pub open spec fn context_of(path: Seq<char>, endpoint: Seq<char>) -> Option<FileContextView> {
    if marked_latest(path) {
        Some(FileContextView { endpoint, is_latest: true, capture_date: None })
    } else {
        match capture_date_of(path) {
            Some(d) => Some(FileContextView { endpoint, is_latest: false, capture_date: Some(d) }),
            None => None,
        }
    }
}

/// Derives the endpoint from a directory path.
pub fn endpoint_name(dir: &str) -> (r: String)
    ensures
        r@ == endpoint_of(dir@),
{
    proof {
        lemma_split_nonempty(dir@, '/');
    }
    let segments = split_text(dir, '/');
    let base = segments[segments.len() - 1].as_str();
    proof {
        lemma_split_nonempty(base@, ':');
    }
    let parts = split_text(base, ':');
    parts[0].clone()
}

/// Whether a path names a latest file.
pub fn is_latest_file(path: &str) -> (r: bool)
    ensures
        r == marked_latest(path@),
{
    proof {
        lemma_split_nonempty(path@, '/');
    }
    let segments = split_text(path, '/');
    contains_text(segments[segments.len() - 1].as_str(), "latest")
}

/// Whether the walker hands a file on at all: latest files exactly in
/// latest-only mode, dated files exactly outside it.
pub fn admits(path: &str, filters: &Filters) -> (r: bool)
    ensures
        r == (marked_latest(path@) == (filters.latest == Some(true))),
{
    let latest_only = match filters.latest {
        Some(b) => b,
        None => false,
    };
    is_latest_file(path) == latest_only
}

impl FileContext {
    /// Derives the context of a file from its path. `None` exactly when the
    /// file is not a latest file and its name carries no readable date.
    pub fn from_path(path: &str, endpoint: String) -> (r: Option<FileContext>)
        ensures
            match r {
                Some(ctx) => context_of(path@, endpoint@) == Some(ctx@),
                None => context_of(path@, endpoint@) is None,
            },
    {
        if is_latest_file(path) {
            Some(FileContext { endpoint, is_latest: true, capture_date: None })
        } else {
            match parse_capture_date(path) {
                Some(d) => Some(FileContext { endpoint, is_latest: false, capture_date: Some(d) }),
                None => None,
            }
        }
    }
}

/// What became of one capture file.
#[derive(Debug)]
pub enum Verdict {
    /// The record passed every check.
    Reported(ServerRecord),
    /// The record failed this check first.
    Rejected(Check),
    /// The document has no `players` field; no check was made.
    NotReportable,
    /// The file is dated, but its name carries no readable date.
    MalformedName,
    /// The date check had to read a date bound that names no day.
    IncompleteDateFilter,
    /// The contents are not valid JSON.
    InvalidJson,
}

pub enum Finding {
    Reported(ServerRecordView),
    Rejected(Check),
    NotReportable,
    MalformedName,
    IncompleteDateFilter,
    InvalidJson,
}

impl View for Verdict {
    type V = Finding;

    open spec fn view(&self) -> Finding {
        match self {
            Verdict::Reported(rec) => Finding::Reported(rec@),
            Verdict::Rejected(c) => Finding::Rejected(*c),
            Verdict::NotReportable => Finding::NotReportable,
            Verdict::MalformedName => Finding::MalformedName,
            Verdict::IncompleteDateFilter => Finding::IncompleteDateFilter,
            Verdict::InvalidJson => Finding::InvalidJson,
        }
    }
}

/// What becomes of a document found at `path` under endpoint `ip`. A
/// document without players is set aside before anything else; then the
/// latest gate is applied, then the file name must yield a context, and
/// last the record meets the checks, where a date bound that names no day
/// ends the judging once the date check has to read it.
pub open spec fn finding(doc: Json, f: Filters, path: Seq<char>, ip: Seq<char>) -> Finding {
    match normalized(doc) {
        None => Finding::NotReportable,
        Some(rec) => {
            if marked_latest(path) != (f.latest == Some(true)) {
                Finding::Rejected(Check::LatestGate)
            } else {
                match context_of(path, ip) {
                    None => Finding::MalformedName,
                    Some(ctx) => match judgement(rec, ctx, f) {
                        Judgement::Rejected(c) => Finding::Rejected(c),
                        Judgement::IncompleteDateFilter => Finding::IncompleteDateFilter,
                        Judgement::Passed => Finding::Reported(rec),
                    },
                }
            }
        },
    }
}

/// What becomes of a file with the given contents, found at `path` inside
/// the directory `dir`.
pub open spec fn scan_finding(contents: Seq<char>, f: Filters, path: Seq<char>, dir: Seq<char>)
    -> Finding {
    match document_of(contents) {
        None => Finding::InvalidJson,
        Some(doc) => finding(doc, f, path, endpoint_of(dir)),
    }
}

/// Normalizes a document and judges it against the filter set.
pub fn check_description(json: &Json, filters: &Filters, filename: &str, ip: &str) -> (r: Verdict)
    ensures
        r@ == finding(*json, *filters, filename@, ip@),
{
    let record = match normalize(json) {
        Some(record) => record,
        None => {
            return Verdict::NotReportable;
        },
    };
    if !admits(filename, filters) {
        return Verdict::Rejected(Check::LatestGate);
    }
    let ctx = match FileContext::from_path(filename, String::from_str(ip)) {
        Some(ctx) => ctx,
        None => {
            return Verdict::MalformedName;
        },
    };
    match judge(&record, &ctx, filters) {
        Judgement::Rejected(c) => Verdict::Rejected(c),
        Judgement::IncompleteDateFilter => Verdict::IncompleteDateFilter,
        Judgement::Passed => Verdict::Reported(record),
    }
}

/// Parses the contents of a capture file and judges the document.
pub fn scan_file(contents: &str, filters: &Filters, path: &str, dir: &str) -> (r: Verdict)
    ensures
        r@ == scan_finding(contents@, *filters, path@, dir@),
{
    match parse_json(contents) {
        Some(doc) => {
            let ip = endpoint_name(dir);
            check_description(&doc, filters, path, ip.as_str())
        },
        None => Verdict::InvalidJson,
    }
}

/// A document without a `players` field is never reported, whatever the
/// filter set and wherever the file lies.
pub proof fn lemma_no_players_never_reported(doc: Json, f: Filters, path: Seq<char>, ip: Seq<char>)
    requires
        doc.field("players"@) is None,
    ensures
        finding(doc, f, path, ip) == Finding::NotReportable,
{
}

/// In latest-only mode no dated file passes, and outside it no latest file
/// does, whatever the record and the other criteria.
pub proof fn lemma_latest_exclusive(rec: ServerRecordView, ctx: FileContextView, f: Filters)
    ensures
        f.latest == Some(true) && !ctx.is_latest ==> !passes(rec, ctx, f),
        f.latest != Some(true) && ctx.is_latest ==> !passes(rec, ctx, f),
{
}

/// A file on the wrong side of the latest gate is never reported, whatever
/// it holds and whatever the other criteria.
pub proof fn lemma_latest_gate_on_files(doc: Json, f: Filters, path: Seq<char>, ip: Seq<char>)
    requires
        marked_latest(path) != (f.latest == Some(true)),
    ensures
        !(finding(doc, f, path, ip) is Reported),
{
}

/// A filter set without criteria lets every dated record through.
pub proof fn lemma_unconstrained_passes(rec: ServerRecordView, ctx: FileContextView, f: Filters)
    requires
        f@ == FiltersView::unconstrained(),
        !ctx.is_latest,
        ctx.capture_date is Some,
    ensures
        passes(rec, ctx, f),
{
}

/// A server with nobody online is judged alike whatever its secure-chat
/// setting and whatever the secure-chat target.
pub proof fn lemma_empty_server_ignores_secure_chat(
    rec: ServerRecordView,
    other: ServerRecordView,
    ctx: FileContextView,
    f: Filters,
    g: Filters,
)
    requires
        rec.players.online == 0,
        other == (ServerRecordView { enforces_secure_chat: other.enforces_secure_chat, ..rec }),
        g == (Filters { enforces_secure_chat: g.enforces_secure_chat, ..f }),
    ensures
        secure_chat_check(rec, f),
        judgement(rec, ctx, f) == judgement(other, ctx, g),
{
}

/// Outside latest-only mode, a record dated exactly on a bound of the date
/// range passes the date check when the other bound allows it, and a record
/// dated strictly beyond a readable bound fails it, unless an incomplete
/// lower bound was met first.
pub proof fn lemma_date_boundaries(ctx: FileContextView, f: Filters, d: Date)
    requires
        f.latest != Some(true),
        ctx.capture_date == Some(d),
    ensures
        f.min_date == Some(DateBound::Day(d)) && f.max_date is None ==> date_answer(ctx, f)
            == Placement::Inside,
        f.max_date == Some(DateBound::Day(d)) && f.min_date is None ==> date_answer(ctx, f)
            == Placement::Inside,
        f.min_date == Some(DateBound::Day(d)) && f.max_date == Some(DateBound::Day(d))
            ==> date_answer(ctx, f) == Placement::Inside,
        (f.min_date matches Some(DateBound::Day(lo)) && d.before(lo)) ==> date_answer(ctx, f)
            == Placement::Outside,
        (f.max_date matches Some(DateBound::Day(hi)) && hi.before(d) && f.min_date != Some(
            DateBound::Incomplete,
        )) ==> date_answer(ctx, f) == Placement::Outside,
{
}

/// A date bound that names no day matters only where the date check reads
/// it: never in latest-only mode, never for a record that the latest gate or
/// the name check rejects, and never when every bound that is set names a
/// day.
pub proof fn lemma_incomplete_bound_reach(rec: ServerRecordView, ctx: FileContextView, f: Filters)
    ensures
        f.latest == Some(true) ==> judgement(rec, ctx, f) != Judgement::IncompleteDateFilter,
        !latest_gate(ctx, f) || !name_check(rec, f) ==> judgement(rec, ctx, f)
            != Judgement::IncompleteDateFilter,
        f.min_date != Some(DateBound::Incomplete) && f.max_date != Some(DateBound::Incomplete)
            ==> judgement(rec, ctx, f) != Judgement::IncompleteDateFilter,
        f.latest != Some(true) && latest_gate(ctx, f) && name_check(rec, f)
            && ctx.capture_date is Some && f.min_date == Some(DateBound::Incomplete)
            ==> judgement(rec, ctx, f) == Judgement::IncompleteDateFilter,
{
}

} // verus!
