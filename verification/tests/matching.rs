use regex::Regex;
use status_filter::date::{Date, DateBound};
use status_filter::filters::{parse_filters, Filters};
use status_filter::json::{parse_json, Json};
use status_filter::matcher::{
    admits, any_id_matches, any_name_matches, check_description, endpoint_name, evaluate,
    in_bounds, is_latest_file, judge, scan_file, Check, FileContext, Judgement, Verdict,
};
use status_filter::record::{normalize, Player, ServerRecord};

const DATED: &str = "root/1.2.3.4:25565/2024-05-01_scan.json";
const LATEST: &str = "root/1.2.3.4:25565/latest.json";

fn doc(text: &str) -> Json {
    parse_json(text).expect("valid JSON")
}

fn record(text: &str) -> ServerRecord {
    normalize(&doc(text)).expect("record")
}

fn dated(year: i32, month: i32, day: i32) -> FileContext {
    FileContext {
        endpoint: String::from("1.2.3.4"),
        is_latest: false,
        capture_date: Some(Date { year, month, day }),
    }
}

fn re(p: &str) -> Option<Regex> {
    Some(Regex::new(p).expect("pattern"))
}

fn full() -> ServerRecord {
    record(
        r#"{"description":"A Minecraft Server","version":{"name":"Paper 1.20.4","protocol":765},
            "enforcesSecureChat":false,"players":{"max":20,"online":5,
            "sample":[{"name":"alice","id":"aaaa-1111"},{"name":"bob","id":"bbbb-2222"}]}}"#,
    )
}

#[test]
fn a_record_passes_the_unconstrained_set() {
    let f = Filters::default();
    assert!(evaluate(&full(), &dated(2024, 5, 1), &f));
    assert_eq!(judge(&full(), &dated(2024, 5, 1), &f), Judgement::Passed);
}

#[test]
fn documents_without_players_are_never_reported() {
    let f = Filters::default();
    let v = check_description(&doc(r#"{"description":"x"}"#), &f, DATED, "1.2.3.4");
    assert!(matches!(v, Verdict::NotReportable));
    let g = Filters { latest: Some(true), ..Filters::default() };
    let w = check_description(&doc(r#"{"description":"x"}"#), &g, LATEST, "1.2.3.4");
    assert!(matches!(w, Verdict::NotReportable));
    let x = check_description(&doc("{}"), &f, "root/ep/garbled.json", "ep");
    assert!(matches!(x, Verdict::NotReportable));
}

#[test]
fn date_range_bounds_are_inclusive() {
    let f = Filters {
        min_date: Some(DateBound::Day(Date { year: 2024, month: 5, day: 1 })),
        max_date: Some(DateBound::Day(Date { year: 2024, month: 5, day: 3 })),
        ..Filters::default()
    };
    assert!(evaluate(&full(), &dated(2024, 5, 1), &f));
    assert!(evaluate(&full(), &dated(2024, 5, 2), &f));
    assert!(evaluate(&full(), &dated(2024, 5, 3), &f));
    assert_eq!(judge(&full(), &dated(2024, 4, 30), &f), Judgement::Rejected(Check::DateRange));
    assert_eq!(judge(&full(), &dated(2024, 5, 4), &f), Judgement::Rejected(Check::DateRange));
    assert_eq!(judge(&full(), &dated(2023, 12, 31), &f), Judgement::Rejected(Check::DateRange));
    assert_eq!(judge(&full(), &dated(2025, 1, 1), &f), Judgement::Rejected(Check::DateRange));
}

#[test]
fn date_range_through_file_names() {
    let f = parse_filters(&[
        String::from("prog"),
        String::from("root"),
        String::from("--date"),
        String::from("2024-05-01"),
    ])
    .expect("filters");
    let d = doc(r#"{"players":{"online":1}}"#);
    assert!(matches!(check_description(&d, &f, DATED, "e"), Verdict::Reported(_)));
    assert!(matches!(
        check_description(&d, &f, "root/e/2024-05-02_scan.json", "e"),
        Verdict::Rejected(Check::DateRange)
    ));
    assert!(matches!(
        check_description(&d, &f, "root/e/2024-04-30_scan.json", "e"),
        Verdict::Rejected(Check::DateRange)
    ));
}

#[test]
fn a_dated_record_needs_a_date() {
    let ctx = FileContext { endpoint: String::from("e"), is_latest: false, capture_date: None };
    assert_eq!(judge(&full(), &ctx, &Filters::default()), Judgement::Rejected(Check::DateRange));
}

#[test]
fn latest_mode_is_exclusive() {
    let latest_only = Filters { latest: Some(true), ..Filters::default() };
    let plain = Filters::default();
    let off = Filters { latest: Some(false), ..Filters::default() };
    let latest_ctx =
        FileContext { endpoint: String::from("e"), is_latest: true, capture_date: None };
    assert_eq!(judge(&full(), &dated(2024, 5, 1), &latest_only), Judgement::Rejected(Check::LatestGate));
    assert!(evaluate(&full(), &latest_ctx, &latest_only));
    assert_eq!(judge(&full(), &latest_ctx, &plain), Judgement::Rejected(Check::LatestGate));
    assert_eq!(judge(&full(), &latest_ctx, &off), Judgement::Rejected(Check::LatestGate));
    assert!(evaluate(&full(), &dated(2024, 5, 1), &off));
}

#[test]
fn latest_mode_through_file_names() {
    let latest_only = Filters { latest: Some(true), ..Filters::default() };
    let plain = Filters::default();
    let d = doc(r#"{"players":{"online":1}}"#);
    assert!(matches!(check_description(&d, &latest_only, LATEST, "e"), Verdict::Reported(_)));
    assert!(matches!(
        check_description(&d, &latest_only, DATED, "e"),
        Verdict::Rejected(Check::LatestGate)
    ));
    assert!(matches!(
        check_description(&d, &plain, LATEST, "e"),
        Verdict::Rejected(Check::LatestGate)
    ));
    assert!(admits(LATEST, &latest_only));
    assert!(!admits(DATED, &latest_only));
    assert!(admits(DATED, &plain));
    assert!(!admits(LATEST, &plain));
}

#[test]
fn latest_is_looked_for_in_the_base_name_only() {
    assert!(is_latest_file("root/ep/latest.json"));
    assert!(is_latest_file("the_latest_scan"));
    assert!(!is_latest_file("latest/ep/2024-05-01_scan.json"));
    assert!(!is_latest_file("root/ep/lates.json"));
    assert!(!is_latest_file(""));
}

#[test]
fn an_empty_server_is_not_judged_on_secure_chat() {
    let f = Filters { enforces_secure_chat: Some(true), ..Filters::default() };
    let empty = record(r#"{"enforcesSecureChat":false,"players":{"online":0}}"#);
    assert!(evaluate(&empty, &dated(2024, 5, 1), &f));
    let busy = record(r#"{"enforcesSecureChat":false,"players":{"online":1}}"#);
    assert_eq!(judge(&busy, &dated(2024, 5, 1), &f), Judgement::Rejected(Check::SecureChat));
    let agreeing = record(r#"{"enforcesSecureChat":true,"players":{"online":1}}"#);
    assert!(evaluate(&agreeing, &dated(2024, 5, 1), &f));
    let g = Filters { enforces_secure_chat: Some(false), ..Filters::default() };
    assert_eq!(judge(&agreeing, &dated(2024, 5, 1), &g), Judgement::Rejected(Check::SecureChat));
    assert!(evaluate(&busy, &dated(2024, 5, 1), &g));
}

#[test]
fn online_bounds_are_inclusive() {
    let f = Filters { min_players: Some(3), max_players: Some(10), ..Filters::default() };
    let at = |n: i32| record(&format!(r#"{{"players":{{"online":{}}}}}"#, n));
    assert!(evaluate(&at(3), &dated(2024, 5, 1), &f));
    assert!(evaluate(&at(10), &dated(2024, 5, 1), &f));
    assert_eq!(judge(&at(2), &dated(2024, 5, 1), &f), Judgement::Rejected(Check::OnlinePlayers));
    assert_eq!(judge(&at(11), &dated(2024, 5, 1), &f), Judgement::Rejected(Check::OnlinePlayers));
}

#[test]
fn in_bounds_treats_each_bound_alone() {
    assert!(in_bounds(5, &None, &None));
    assert!(in_bounds(5, &Some(5), &Some(5)));
    assert!(!in_bounds(4, &Some(5), &None));
    assert!(!in_bounds(6, &None, &Some(5)));
    assert!(!in_bounds(5, &Some(6), &Some(4)));
}

#[test]
fn capacity_and_protocol_bounds() {
    let ctx = dated(2024, 5, 1);
    let cap = Filters { min_max_players: Some(21), ..Filters::default() };
    assert_eq!(judge(&full(), &ctx, &cap), Judgement::Rejected(Check::Capacity));
    let cap2 = Filters { max_max_players: Some(19), ..Filters::default() };
    assert_eq!(judge(&full(), &ctx, &cap2), Judgement::Rejected(Check::Capacity));
    let cap3 = Filters { min_max_players: Some(20), max_max_players: Some(20), ..Filters::default() };
    assert!(evaluate(&full(), &ctx, &cap3));
    let proto = Filters { min_version: Some(766), ..Filters::default() };
    assert_eq!(judge(&full(), &ctx, &proto), Judgement::Rejected(Check::Protocol));
    let proto2 = Filters { max_version: Some(764), ..Filters::default() };
    assert_eq!(judge(&full(), &ctx, &proto2), Judgement::Rejected(Check::Protocol));
    let proto3 = Filters { min_version: Some(765), max_version: Some(765), ..Filters::default() };
    assert!(evaluate(&full(), &ctx, &proto3));
}

#[test]
fn an_absent_protocol_counts_as_zero() {
    let r = record(r#"{"players":{}}"#);
    let f = Filters { min_version: Some(1), ..Filters::default() };
    assert_eq!(judge(&r, &dated(2024, 5, 1), &f), Judgement::Rejected(Check::Protocol));
    let g = Filters { min_version: Some(0), max_version: Some(0), ..Filters::default() };
    assert!(evaluate(&r, &dated(2024, 5, 1), &g));
}

#[test]
fn name_pattern_needs_a_matching_player() {
    let ctx = dated(2024, 5, 1);
    let hit = Filters { name_regex: re("^bo"), ..Filters::default() };
    assert!(evaluate(&full(), &ctx, &hit));
    let miss = Filters { name_regex: re("^carol$"), ..Filters::default() };
    assert_eq!(judge(&full(), &ctx, &miss), Judgement::Rejected(Check::PlayerName));
    let no_sample = record(r#"{"players":{"online":5}}"#);
    let any = Filters { name_regex: re(".*"), ..Filters::default() };
    assert_eq!(judge(&no_sample, &ctx, &any), Judgement::Rejected(Check::PlayerName));
    let nameless = record(r#"{"players":{"sample":[{"id":"x"}]}}"#);
    assert_eq!(judge(&nameless, &ctx, &any), Judgement::Rejected(Check::PlayerName));
}

#[test]
fn id_pattern_passes_when_the_sample_is_absent() {
    let ctx = dated(2024, 5, 1);
    let any = Filters { id_regex: re("^zzzz"), ..Filters::default() };
    let no_sample = record(r#"{"players":{"online":5}}"#);
    assert!(evaluate(&no_sample, &ctx, &any));
    assert_eq!(judge(&full(), &ctx, &any), Judgement::Rejected(Check::PlayerId));
    let hit = Filters { id_regex: re("2222$"), ..Filters::default() };
    assert!(evaluate(&full(), &ctx, &hit));
    let empty_sample = record(r#"{"players":{"sample":[]}}"#);
    assert_eq!(judge(&empty_sample, &ctx, &hit), Judgement::Rejected(Check::PlayerId));
}

#[test]
fn sample_searches_look_at_every_player() {
    let players = vec![
        Player { name: None, id: Some(String::from("one")) },
        Player { name: Some(String::from("two")), id: None },
    ];
    let two = Regex::new("^two$").expect("pattern");
    let one = Regex::new("^one$").expect("pattern");
    assert!(any_name_matches(&two, &players));
    assert!(!any_name_matches(&one, &players));
    assert!(any_id_matches(&one, &players));
    assert!(!any_id_matches(&two, &players));
    assert!(!any_name_matches(&two, &Vec::new()));
}

#[test]
fn version_pattern_passes_when_the_name_is_absent() {
    let ctx = dated(2024, 5, 1);
    let f = Filters { version_regex: re("^Spigot"), ..Filters::default() };
    assert_eq!(judge(&full(), &ctx, &f), Judgement::Rejected(Check::VersionName));
    let unnamed = record(r#"{"players":{},"version":{"protocol":5}}"#);
    assert!(evaluate(&unnamed, &ctx, &f));
    let g = Filters { version_regex: re("1\\.20"), ..Filters::default() };
    assert!(evaluate(&full(), &ctx, &g));
}

#[test]
fn description_pattern_is_held_against_the_empty_text_too() {
    let ctx = dated(2024, 5, 1);
    let f = Filters { description_regex: re("Minecraft"), ..Filters::default() };
    assert!(evaluate(&full(), &ctx, &f));
    let blank = record(r#"{"players":{}}"#);
    assert_eq!(judge(&blank, &ctx, &f), Judgement::Rejected(Check::Description));
    let g = Filters { description_regex: re("^$"), ..Filters::default() };
    assert!(evaluate(&blank, &ctx, &g));
}

#[test]
fn endpoint_pattern_is_held_against_the_context() {
    let f = Filters { ip_regex: re("^1\\.2\\."), ..Filters::default() };
    assert!(evaluate(&full(), &dated(2024, 5, 1), &f));
    let g = Filters { ip_regex: re("^10\\."), ..Filters::default() };
    assert_eq!(judge(&full(), &dated(2024, 5, 1), &g), Judgement::Rejected(Check::Endpoint));
}

#[test]
fn the_earliest_failing_check_is_named() {
    let ctx = dated(2024, 5, 1);
    let f = Filters {
        name_regex: re("^nobody$"),
        min_players: Some(100),
        ip_regex: re("^10\\."),
        ..Filters::default()
    };
    assert_eq!(judge(&full(), &ctx, &f), Judgement::Rejected(Check::PlayerName));
    let g = Filters { min_players: Some(100), ip_regex: re("^10\\."), ..Filters::default() };
    assert_eq!(judge(&full(), &ctx, &g), Judgement::Rejected(Check::OnlinePlayers));
    let h = Filters {
        description_regex: re("^zzz"),
        min_version: Some(1000),
        enforces_secure_chat: Some(true),
        ..Filters::default()
    };
    assert_eq!(judge(&full(), &ctx, &h), Judgement::Rejected(Check::Description));
    let k = Filters {
        max_date: Some(DateBound::Day(Date { year: 2000, month: 1, day: 1 })),
        version_regex: re("^zzz"),
        ..Filters::default()
    };
    assert_eq!(judge(&full(), &ctx, &k), Judgement::Rejected(Check::DateRange));
}

#[test]
fn endpoint_is_the_base_name_up_to_the_first_colon() {
    assert_eq!(endpoint_name("root/1.2.3.4:25565"), "1.2.3.4");
    assert_eq!(endpoint_name("1.2.3.4:25565"), "1.2.3.4");
    assert_eq!(endpoint_name("root/1.2.3.4_25565"), "1.2.3.4_25565");
    assert_eq!(endpoint_name("/data/scans/example.org"), "example.org");
    assert_eq!(endpoint_name("a:b:c"), "a");
    assert_eq!(endpoint_name(""), "");
}

#[test]
fn a_file_is_scanned_from_contents_to_verdict() {
    let args: Vec<String> = ["prog", "root", "--min-player", "3", "--max-player", "10"]
        .iter()
        .map(|s| String::from(*s))
        .collect();
    let f = parse_filters(&args).expect("filters");
    let contents = r#"{"players":{"online":5,"max":20},"description":"A Minecraft Server"}"#;
    match scan_file(contents, &f, "root/1.2.3.4_25565/2024-05-01_scan.json", "root/1.2.3.4_25565") {
        Verdict::Reported(rec) => {
            assert_eq!(rec.description, "A Minecraft Server");
            assert_eq!(rec.players.online, 5);
            assert_eq!(rec.players.max, 20);
        }
        other => panic!("expected a report, got {:?}", other),
    }
    let crowded = r#"{"players":{"online":11,"max":20}}"#;
    assert!(matches!(
        scan_file(crowded, &f, DATED, "root/1.2.3.4:25565"),
        Verdict::Rejected(Check::OnlinePlayers)
    ));
}

#[test]
fn scanning_uses_the_endpoint_of_the_directory() {
    let f = Filters { ip_regex: re("^1\\.2\\.3\\.4$"), ..Filters::default() };
    let contents = r#"{"players":{}}"#;
    assert!(matches!(scan_file(contents, &f, DATED, "root/1.2.3.4:25565"), Verdict::Reported(_)));
    assert!(matches!(
        scan_file(contents, &f, "root/1.2.3.4_25565/2024-05-01_scan.json", "root/1.2.3.4_25565"),
        Verdict::Rejected(Check::Endpoint)
    ));
}

#[test]
fn invalid_contents_are_set_aside() {
    let f = Filters::default();
    assert!(matches!(scan_file("{oops", &f, DATED, "root/e"), Verdict::InvalidJson));
    assert!(matches!(scan_file("", &f, "nonsense", "root/e"), Verdict::InvalidJson));
}

#[test]
fn a_dated_file_without_a_date_is_malformed() {
    let f = Filters::default();
    let d = doc(r#"{"players":{}}"#);
    assert!(matches!(check_description(&d, &f, "root/e/scan.json", "e"), Verdict::MalformedName));
    assert!(matches!(
        check_description(&d, &f, "root/e/2024-13_x.json", "e"),
        Verdict::MalformedName
    ));
    let latest_only = Filters { latest: Some(true), ..Filters::default() };
    assert!(matches!(
        check_description(&d, &latest_only, "root/e/scan.json", "e"),
        Verdict::Rejected(Check::LatestGate)
    ));
}

#[test]
fn contexts_come_from_paths() {
    let a = FileContext::from_path(DATED, String::from("1.2.3.4")).expect("context");
    assert_eq!(a.endpoint, "1.2.3.4");
    assert!(!a.is_latest);
    assert_eq!(a.capture_date, Some(Date { year: 2024, month: 5, day: 1 }));
    let b = FileContext::from_path(LATEST, String::from("1.2.3.4")).expect("context");
    assert!(b.is_latest);
    assert_eq!(b.capture_date, None);
    assert!(FileContext::from_path("root/e/scan.json", String::from("e")).is_none());
}

#[test]
fn an_incomplete_date_filter_stops_the_judging_at_the_date_check() {
    let ctx = dated(2024, 5, 1);
    let low = Filters { min_date: Some(DateBound::Incomplete), ..Filters::default() };
    assert_eq!(judge(&full(), &ctx, &low), Judgement::IncompleteDateFilter);
    assert!(!evaluate(&full(), &ctx, &low));
    let high = Filters { max_date: Some(DateBound::Incomplete), ..Filters::default() };
    assert_eq!(judge(&full(), &ctx, &high), Judgement::IncompleteDateFilter);
    let excluded_first = Filters {
        min_date: Some(DateBound::Day(Date { year: 2025, month: 1, day: 1 })),
        max_date: Some(DateBound::Incomplete),
        ..Filters::default()
    };
    assert_eq!(judge(&full(), &ctx, &excluded_first), Judgement::Rejected(Check::DateRange));
    let before_later_checks =
        Filters { min_date: Some(DateBound::Incomplete), min_players: Some(100), ..Filters::default() };
    assert_eq!(judge(&full(), &ctx, &before_later_checks), Judgement::IncompleteDateFilter);
}

#[test]
fn an_incomplete_date_filter_is_not_read_before_the_date_check() {
    let ctx = dated(2024, 5, 1);
    let latest_ctx =
        FileContext { endpoint: String::from("e"), is_latest: true, capture_date: None };
    let latest_only =
        Filters { latest: Some(true), min_date: Some(DateBound::Incomplete), ..Filters::default() };
    assert!(evaluate(&full(), &latest_ctx, &latest_only));
    assert_eq!(judge(&full(), &ctx, &latest_only), Judgement::Rejected(Check::LatestGate));
    let gate = Filters { min_date: Some(DateBound::Incomplete), ..Filters::default() };
    assert_eq!(judge(&full(), &latest_ctx, &gate), Judgement::Rejected(Check::LatestGate));
    let name = Filters {
        name_regex: re("^nobody$"),
        min_date: Some(DateBound::Incomplete),
        ..Filters::default()
    };
    assert_eq!(judge(&full(), &ctx, &name), Judgement::Rejected(Check::PlayerName));
}

#[test]
fn an_incomplete_date_filter_through_the_command_line() {
    let words = |extra: &[&str]| -> Vec<String> {
        let mut all = vec![String::from("prog"), String::from("root")];
        for w in extra {
            all.push(String::from(*w));
        }
        all
    };
    let d = doc(r#"{"players":{"online":1}}"#);
    let plain = parse_filters(&words(&["--min-date", "2024"])).expect("filters");
    assert!(matches!(check_description(&d, &plain, DATED, "e"), Verdict::IncompleteDateFilter));
    assert!(matches!(
        check_description(&d, &plain, LATEST, "e"),
        Verdict::Rejected(Check::LatestGate)
    ));
    assert!(matches!(
        check_description(&doc("{}"), &plain, DATED, "e"),
        Verdict::NotReportable
    ));
    let latest = parse_filters(&words(&["--latest", "--min-date", "2024"])).expect("filters");
    assert!(matches!(check_description(&d, &latest, LATEST, "e"), Verdict::Reported(_)));
    let contents = r#"{"players":{"online":1}}"#;
    assert!(matches!(
        scan_file(contents, &plain, DATED, "root/e"),
        Verdict::IncompleteDateFilter
    ));
}
