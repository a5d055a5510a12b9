use status_filter::json::{parse_json, Json};
use status_filter::record::{
    get_int, get_text, normalize, parse_description, parse_players, parse_version,
};

fn doc(text: &str) -> Json {
    parse_json(text).expect("valid JSON")
}

#[test]
fn description_object_with_extra_is_flattened() {
    let d = doc(r#"{"text":"A","extra":[{"text":"B"},{"text":"C"}]}"#);
    assert_eq!(parse_description(&d), "ABC");
}

#[test]
fn description_list_is_joined_in_order() {
    let d = doc(r#"[{"text":"X"},{"text":"Y"}]"#);
    assert_eq!(parse_description(&d), "XY");
}

#[test]
fn description_string_is_unchanged() {
    let d = doc(r#""A Minecraft Server""#);
    assert_eq!(parse_description(&d), "A Minecraft Server");
    assert_eq!(parse_description(&Json::Text(String::from("plain"))), "plain");
}

#[test]
fn description_of_other_shapes_is_empty() {
    assert_eq!(parse_description(&doc("null")), "");
    assert_eq!(parse_description(&doc("42")), "");
    assert_eq!(parse_description(&doc("true")), "");
    assert_eq!(parse_description(&doc("1.5")), "");
}

#[test]
fn description_list_skips_items_without_string_text() {
    let d = doc(r#"[{"text":"a"},{"text":5},{"color":"red"},"b",{"text":"c"}]"#);
    assert_eq!(parse_description(&d), "ac");
}

#[test]
fn description_flattens_only_one_level_of_extra() {
    let d = doc(r#"{"text":"A","extra":[{"text":"B","extra":[{"text":"deep"}]}]}"#);
    assert_eq!(parse_description(&d), "AB");
}

#[test]
fn description_object_without_text_uses_extra_only() {
    let d = doc(r#"{"extra":[{"text":"only"}]}"#);
    assert_eq!(parse_description(&d), "only");
    let e = doc(r#"{"text":"T","extra":"not a list"}"#);
    assert_eq!(parse_description(&e), "T");
    assert_eq!(parse_description(&doc("{}")), "");
}

#[test]
fn parse_json_rejects_invalid_text() {
    assert!(parse_json("{not json").is_none());
    assert!(parse_json("").is_none());
    assert!(parse_json("{}").is_some());
}

#[test]
fn parse_json_builds_the_document_model() {
    match doc(r#"{"a":[1,"x",null,false]}"#) {
        Json::Object(members) => {
            assert_eq!(members.len(), 1);
            assert_eq!(members[0].0, "a");
            match &members[0].1 {
                Json::List(items) => {
                    assert_eq!(items.len(), 4);
                    assert!(matches!(items[0], Json::Number(Some(1))));
                    assert!(matches!(&items[1], Json::Text(s) if s == "x"));
                    assert!(matches!(items[2], Json::Null));
                    assert!(matches!(items[3], Json::Bool(false)));
                }
                _ => panic!("expected a list"),
            }
        }
        _ => panic!("expected an object"),
    }
}

#[test]
fn numbers_outside_i64_or_fractional_have_no_integer_value() {
    assert!(matches!(doc("1.5"), Json::Number(None)));
    assert!(matches!(doc("18446744073709551615"), Json::Number(None)));
    assert!(matches!(doc("-7"), Json::Number(Some(-7))));
}

#[test]
fn get_returns_the_first_member_with_the_key() {
    let obj = Json::Object(vec![
        (String::from("k"), Json::Bool(true)),
        (String::from("other"), Json::Null),
        (String::from("k"), Json::Bool(false)),
    ]);
    assert!(matches!(obj.get("k"), Some(Json::Bool(true))));
    assert!(matches!(obj.get("other"), Some(Json::Null)));
    assert!(obj.get("missing").is_none());
    assert!(Json::List(vec![]).get("k").is_none());
    assert!(Json::Text(String::from("k")).get("k").is_none());
}

#[test]
fn get_text_and_get_int_treat_other_types_as_absent() {
    let d = doc(r#"{"s":"hi","n":12,"f":1.5,"b":true}"#);
    assert_eq!(get_text(&d, "s"), Some(String::from("hi")));
    assert_eq!(get_text(&d, "n"), None);
    assert_eq!(get_text(&d, "zz"), None);
    assert_eq!(get_int(&d, "n"), Some(12));
    assert_eq!(get_int(&d, "f"), None);
    assert_eq!(get_int(&d, "s"), None);
    assert_eq!(get_int(&d, "b"), None);
}

#[test]
fn get_int_keeps_the_low_32_bits() {
    let d = doc(r#"{"a":4294967297,"b":2147483648,"c":-1}"#);
    assert_eq!(get_int(&d, "a"), Some(1));
    assert_eq!(get_int(&d, "b"), Some(i32::MIN));
    assert_eq!(get_int(&d, "c"), Some(-1));
}

#[test]
fn version_fields_are_independent() {
    let v = parse_version(&doc(r#"{"name":"1.20.4","protocol":765}"#));
    assert_eq!(v.name, Some(String::from("1.20.4")));
    assert_eq!(v.protocol, Some(765));
    let w = parse_version(&doc(r#"{"name":7,"protocol":"x"}"#));
    assert_eq!(w.name, None);
    assert_eq!(w.protocol, None);
    let x = parse_version(&doc(r#"{"protocol":1.5}"#));
    assert_eq!(x.protocol, None);
}

#[test]
fn players_default_to_zero_and_no_sample() {
    let p = parse_players(&doc("{}"));
    assert_eq!(p.max, 0);
    assert_eq!(p.online, 0);
    assert!(p.sample.is_none());
    let q = parse_players(&doc(r#"{"max":"many","online":2.5,"sample":{}}"#));
    assert_eq!(q.max, 0);
    assert_eq!(q.online, 0);
    assert!(q.sample.is_none());
}

#[test]
fn player_sample_items_keep_order_and_tolerate_bad_fields() {
    let p = parse_players(&doc(
        r#"{"max":20,"online":3,"sample":[{"name":"amy","id":"u-1"},{"name":5},{"id":"u-3"},7]}"#,
    ));
    assert_eq!(p.max, 20);
    assert_eq!(p.online, 3);
    let sample = p.sample.expect("sample present");
    assert_eq!(sample.len(), 4);
    assert_eq!(sample[0].name, Some(String::from("amy")));
    assert_eq!(sample[0].id, Some(String::from("u-1")));
    assert_eq!(sample[1].name, None);
    assert_eq!(sample[1].id, None);
    assert_eq!(sample[2].name, None);
    assert_eq!(sample[2].id, Some(String::from("u-3")));
    assert_eq!(sample[3].name, None);
    assert_eq!(sample[3].id, None);
}

#[test]
fn normalize_without_players_gives_no_record() {
    assert!(normalize(&doc(r#"{"description":"x","version":{"name":"1"}}"#)).is_none());
    assert!(normalize(&doc("[]")).is_none());
    assert!(normalize(&doc("3")).is_none());
}

#[test]
fn normalize_applies_every_default() {
    let r = normalize(&doc(r#"{"players":{}}"#)).expect("record");
    assert_eq!(r.description, "");
    assert_eq!(r.version.name, None);
    assert_eq!(r.version.protocol, None);
    assert!(!r.enforces_secure_chat);
    assert_eq!(r.favicon, "");
    assert_eq!(r.players.max, 0);
    assert_eq!(r.players.online, 0);
    assert!(r.players.sample.is_none());
}

#[test]
fn normalize_reads_every_field() {
    let r = normalize(&doc(
        r#"{"description":{"text":"Hi"},"version":{"name":"Paper","protocol":47},
            "enforcesSecureChat":true,"favicon":"data:x","players":{"max":9,"online":4,"sample":[]}}"#,
    ))
    .expect("record");
    assert_eq!(r.description, "Hi");
    assert_eq!(r.version.name, Some(String::from("Paper")));
    assert_eq!(r.version.protocol, Some(47));
    assert!(r.enforces_secure_chat);
    assert_eq!(r.favicon, "data:x");
    assert_eq!(r.players.max, 9);
    assert_eq!(r.players.online, 4);
    assert_eq!(r.players.sample.expect("sample").len(), 0);
}

#[test]
fn normalize_treats_mistyped_fields_as_absent() {
    let r = normalize(&doc(
        r#"{"players":[],"enforcesSecureChat":"yes","favicon":3,"version":"1.8","description":7}"#,
    ))
    .expect("record");
    assert!(!r.enforces_secure_chat);
    assert_eq!(r.favicon, "");
    assert_eq!(r.version.name, None);
    assert_eq!(r.description, "");
    assert_eq!(r.players.online, 0);
}

#[test]
fn normalizing_twice_gives_identical_records() {
    let d = doc(
        r#"{"description":[{"text":"a"},{"text":"b"}],"version":{"name":"v","protocol":5},
            "players":{"max":2,"online":1,"sample":[{"name":"n","id":"i"}]},"favicon":"f"}"#,
    );
    let a = normalize(&d).expect("record");
    let b = normalize(&d).expect("record");
    assert_eq!(format!("{:?}", a), format!("{:?}", b));
    assert_eq!(a.description, "ab");
}

#[test]
fn a_repeated_key_in_a_text_is_held_once() {
    match doc(r#"{"k":1,"k":2,"j":3}"#) {
        Json::Object(members) => {
            let keys: Vec<&str> = members.iter().map(|m| m.0.as_str()).collect();
            assert_eq!(keys.iter().filter(|k| **k == "k").count(), 1);
            assert_eq!(keys.len(), 2);
        }
        _ => panic!("expected an object"),
    }
    let nested = doc(r#"{"a":[{"x":1,"x":2}]}"#);
    match nested.get("a") {
        Some(Json::List(items)) => match &items[0] {
            Json::Object(members) => assert_eq!(members.len(), 1),
            _ => panic!("expected an object"),
        },
        _ => panic!("expected a list"),
    }
}
