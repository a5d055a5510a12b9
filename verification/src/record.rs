//! The canonical server record and its normalization from a loosely
//! structured document: every field is read with a default, and a field of
//! unexpected type counts as absent.

use vstd::prelude::*;
use vstd::string::*;
use crate::text::or_zero;
use crate::json::Json;

verus! {

/// One entry of a player sample.
#[derive(Debug)]
pub struct Player {
    pub name: Option<String>,
    pub id: Option<String>,
}

/// The version a server announces.
#[derive(Debug)]
pub struct Version {
    pub name: Option<String>,
    pub protocol: Option<i32>,
}

/// The player counts and sample of a server.
#[derive(Debug)]
pub struct Players {
    pub max: i32,
    pub online: i32,
    pub sample: Option<Vec<Player>>,
}

/// A normalized capture.
#[derive(Debug)]
pub struct ServerRecord {
    pub description: String,
    pub version: Version,
    pub enforces_secure_chat: bool,
    pub favicon: String,
    pub players: Players,
}

pub struct PlayerView {
    pub name: Option<Seq<char>>,
    pub id: Option<Seq<char>>,
}

pub struct VersionView {
    pub name: Option<Seq<char>>,
    pub protocol: Option<i32>,
}

pub struct PlayersView {
    pub max: i32,
    pub online: i32,
    pub sample: Option<Seq<PlayerView>>,
}

pub struct ServerRecordView {
    pub description: Seq<char>,
    pub version: VersionView,
    pub enforces_secure_chat: bool,
    pub favicon: Seq<char>,
    pub players: PlayersView,
}

/// The characters of an optional string.
pub open spec fn chars_of(s: Option<String>) -> Option<Seq<char>> {
    match s {
        Some(t) => Some(t@),
        None => None,
    }
}

impl View for Player {
    type V = PlayerView;

    open spec fn view(&self) -> PlayerView {
        PlayerView { name: chars_of(self.name), id: chars_of(self.id) }
    }
}

impl View for Version {
    type V = VersionView;

    open spec fn view(&self) -> VersionView {
        VersionView { name: chars_of(self.name), protocol: self.protocol }
    }
}

impl View for Players {
    type V = PlayersView;

    open spec fn view(&self) -> PlayersView {
        PlayersView {
            max: self.max,
            online: self.online,
            sample: match self.sample {
                Some(list) => Some(list@.map_values(|p: Player| p@)),
                None => None,
            },
        }
    }
}

impl View for ServerRecord {
    type V = ServerRecordView;

    open spec fn view(&self) -> ServerRecordView {
        ServerRecordView {
            description: self.description@,
            version: self.version@,
            enforces_secure_chat: self.enforces_secure_chat,
            favicon: self.favicon@,
            players: self.players@,
        }
    }
}

/// The characters of a value that is present and a string.
pub open spec fn text_of(v: Option<Json>) -> Option<Seq<char>> {
    match v {
        Some(Json::Text(s)) => Some(s@),
        _ => None,
    }
}

/// The 32-bit reading of a value that is present and an integer within
/// `i64`; wider values keep their low 32 bits.
pub open spec fn int_of(v: Option<Json>) -> Option<i32> {
    match v {
        Some(Json::Number(Some(n))) => Some(n as i32),
        _ => None,
    }
}

/// The flag a value denotes: its own value when present and a boolean,
/// `false` otherwise.
pub open spec fn flag_of_value(v: Option<Json>) -> bool {
    match v {
        Some(Json::Bool(b)) => b,
        _ => false,
    }
}

/// What one chat component contributes to a description: its string field
/// `text`, or nothing.
pub open spec fn component_text(item: Json) -> Seq<char> {
    match text_of(item.field("text"@)) {
        Some(t) => t,
        None => Seq::empty(),
    }
}

/// The contributions of a list of chat components, joined in order.
pub open spec fn joined_texts(items: Seq<Json>) -> Seq<char>
    decreases items.len(),
{
    if items.len() == 0 {
        Seq::empty()
    } else {
        joined_texts(items.drop_last()) + component_text(items.last())
    }
}

/// The components listed under an object's `extra` field, when that field
/// is a list; none otherwise.
pub open spec fn extra_components(desc: Json) -> Seq<Json> {
    match desc.field("extra"@) {
        Some(Json::List(extra)) => extra@,
        _ => Seq::empty(),
    }
}

/// The plain text of a description value. A string stands for itself, a
/// list for its components' texts, an object for its own text followed by
/// those of one level of `extra`; any other value for the empty text.
pub open spec fn description_text(desc: Json) -> Seq<char> {
    match desc {
        Json::Text(s) => s@,
        Json::List(items) => joined_texts(items@),
        Json::Object(_) => component_text(desc) + joined_texts(extra_components(desc)),
        _ => Seq::empty(),
    }
}

/// The version a value describes.
pub open spec fn version_of(v: Json) -> VersionView {
    VersionView { name: text_of(v.field("name"@)), protocol: int_of(v.field("protocol"@)) }
}

/// The player a sample item describes.
pub open spec fn player_of(item: Json) -> PlayerView {
    PlayerView { name: text_of(item.field("name"@)), id: text_of(item.field("id"@)) }
}

/// The sample a value describes: one player per item when it is a list.
pub open spec fn sample_of(v: Option<Json>) -> Option<Seq<PlayerView>> {
    match v {
        Some(Json::List(items)) => Some(items@.map_values(|item: Json| player_of(item))),
        _ => None,
    }
}

/// The player information a value describes.
pub open spec fn players_of(v: Json) -> PlayersView {
    PlayersView {
        max: or_zero(int_of(v.field("max"@))),
        online: or_zero(int_of(v.field("online"@))),
        sample: sample_of(v.field("sample"@)),
    }
}

/// The record a document normalizes to, or `None` when the document has no
/// `players` field and is therefore not reportable.
pub open spec fn normalized(doc: Json) -> Option<ServerRecordView> {
    match doc.field("players"@) {
        None => None,
        Some(p) => Some(
            ServerRecordView {
                description: match doc.field("description"@) {
                    Some(d) => description_text(d),
                    None => Seq::empty(),
                },
                version: match doc.field("version"@) {
                    Some(v) => version_of(v),
                    None => VersionView { name: None, protocol: None },
                },
                enforces_secure_chat: flag_of_value(doc.field("enforcesSecureChat"@)),
                favicon: match text_of(doc.field("favicon"@)) {
                    Some(t) => t,
                    None => Seq::empty(),
                },
                players: players_of(p),
            },
        ),
    }
}

/// Reads a field as a string.
pub fn get_text(v: &Json, key: &str) -> (r: Option<String>)
    ensures
        chars_of(r) == text_of(v.field(key@)),
{
    match v.get(key) {
        Some(Json::Text(s)) => Some(s.clone()),
        _ => None,
    }
}

/// Reads a field as a 32-bit integer.
pub fn get_int(v: &Json, key: &str) -> (r: Option<i32>)
    ensures
        r == int_of(v.field(key@)),
{
    match v.get(key) {
        Some(Json::Number(Some(n))) => Some(#[verifier::truncate] (*n as i32)),
        _ => None,
    }
}

/// Appends to `out` the texts of a list of chat components.
pub fn append_texts(out: &mut String, items: &Vec<Json>)
    ensures
        final(out)@ == old(out)@ + joined_texts(items@),
{
    let mut i: usize = 0;
    while i < items.len()
        invariant
            i <= items.len(),
            out@ == old(out)@ + joined_texts(items@.take(i as int)),
        decreases items.len() - i,
    {
        proof {
            assert(items@.take(i as int + 1).drop_last() =~= items@.take(i as int));
        }
        match get_text(&items[i], "text") {
            Some(t) => {
                out.append(t.as_str());
            },
            None => {},
        }
        i += 1;
    }
    proof {
        assert(items@.take(i as int) =~= items@);
    }
}

/// Flattens a description value into plain text.
pub fn parse_description(desc: &Json) -> (r: String)
    ensures
        r@ == description_text(*desc),
{
    match desc {
        Json::Text(s) => s.clone(),
        Json::List(items) => {
            let mut result = String::new();
            append_texts(&mut result, items);
            result
        },
        Json::Object(_) => {
            let mut result = String::new();
            match get_text(desc, "text") {
                Some(t) => {
                    result.append(t.as_str());
                },
                None => {},
            }
            match desc.get("extra") {
                Some(Json::List(extra)) => {
                    append_texts(&mut result, extra);
                },
                _ => {
                },
            }
            result
        },
        _ => String::new(),
    }
}

/// Reads the version information.
pub fn parse_version(version: &Json) -> (r: Version)
    ensures
        r@ == version_of(*version),
{
    Version { name: get_text(version, "name"), protocol: get_int(version, "protocol") }
}

/// Reads one item of a player sample.
pub fn parse_player(item: &Json) -> (r: Player)
    ensures
        r@ == player_of(*item),
{
    Player { name: get_text(item, "name"), id: get_text(item, "id") }
}

/// Reads the player information.
pub fn parse_players(players: &Json) -> (r: Players)
    ensures
        r@ == players_of(*players),
{
    let max = match get_int(players, "max") {
        Some(n) => n,
        None => 0,
    };
    let online = match get_int(players, "online") {
        Some(n) => n,
        None => 0,
    };
    let sample = match players.get("sample") {
        Some(Json::List(items)) => {
            let mut list: Vec<Player> = Vec::new();
            let mut i: usize = 0;
            while i < items.len()
                invariant
                    i <= items.len(),
                    list@.len() == i,
                    forall|k: int| 0 <= k < i ==> (#[trigger] list@[k])@ == player_of(items@[k]),
                decreases items.len() - i,
            {
                list.push(parse_player(&items[i]));
                i += 1;
            }
            assert(list@.map_values(|p: Player| p@) =~= items@.map_values(
                |item: Json| player_of(item),
            ));
            Some(list)
        },
        _ => None,
    };
    Players { max, online, sample }
}

/// Normalizes a document into a record. `None` exactly when the document
/// has no `players` field.
pub fn normalize(doc: &Json) -> (r: Option<ServerRecord>)
    ensures
        match r {
            Some(rec) => normalized(*doc) == Some(rec@),
            None => normalized(*doc) is None,
        },
{
    let description = match doc.get("description") {
        Some(d) => parse_description(d),
        None => String::new(),
    };
    let version = match doc.get("version") {
        Some(v) => parse_version(v),
        None => Version { name: None, protocol: None },
    };
    let enforces_secure_chat = match doc.get("enforcesSecureChat") {
        Some(Json::Bool(b)) => *b,
        _ => false,
    };
    let favicon = match get_text(doc, "favicon") {
        Some(t) => t,
        None => String::new(),
    };
    match doc.get("players") {
        Some(p) => Some(
            ServerRecord {
                description,
                version,
                enforces_secure_chat,
                favicon,
                players: parse_players(p),
            },
        ),
        None => None,
    }
}

/// Normalization is a function of the document: any two records obtained
/// from one document agree in every field.
pub proof fn lemma_normalize_deterministic(doc: Json, a: Option<ServerRecord>, b: Option<ServerRecord>)
    requires
        match a {
            Some(rec) => normalized(doc) == Some(rec@),
            None => normalized(doc) is None,
        },
        match b {
            Some(rec) => normalized(doc) == Some(rec@),
            None => normalized(doc) is None,
        },
    ensures
        a is Some <==> b is Some,
        a is Some ==> a->0@ == b->0@,
{
}

/// A document without a `players` field is never reportable, whatever else
/// it holds.
pub proof fn lemma_no_players_no_record(doc: Json)
    requires
        doc.field("players"@) is None,
    ensures
        normalized(doc) is None,
{
}

} // verus!
