use task_picker::error::ErrorKind;
use task_picker::json::{fractions_fit_in, parse, Json, JsonNumber, MAX_FRACTION_DIGITS};

#[test]
fn a_document_is_read_into_values() {
    let doc = parse(
        r#"{"a": "short", "b": "a text that is longer than thirty bytes for sure",
            "n": -12, "f": 1.5, "e": 2e3, "t": true, "z": null, "l": [1, "x", []],
            "o": {"k": {"deep": false}}}"#,
    )
    .unwrap();
    assert_eq!(doc.get("a").as_str(), Some("short"));
    assert_eq!(doc.get("b").as_str(), Some("a text that is longer than thirty bytes for sure"));
    assert_eq!(doc.get("n").as_i64(), Some(-12));
    assert_eq!(doc.get("n").as_u64(), None);
    assert_eq!(doc.get("f").as_i64(), None);
    assert_eq!(doc.get("f").as_u64(), None);
    assert_eq!(doc.get("e").as_i64(), None);
    assert_eq!(doc.get("t").as_bool(), Some(true));
    assert_eq!(doc.get("t").as_str(), None);
    assert!(matches!(doc.get("z"), Json::Null));
    assert!(matches!(doc.get("missing"), Json::Null));
    assert!(matches!(doc.get("missing").get("deeper"), Json::Null));
    let l = doc.get("l").members().unwrap();
    assert_eq!(l.len(), 3);
    assert_eq!(l[0].as_u64(), Some(1));
    assert_eq!(l[0].as_i64(), Some(1));
    assert_eq!(l[1].as_str(), Some("x"));
    assert_eq!(l[2].members().unwrap().len(), 0);
    assert!(doc.get("o").members().is_none());
    assert_eq!(doc.get("o").get("k").get("deep").as_bool(), Some(false));
    assert!(matches!(doc.get("a").get("x"), Json::Null));
}

#[test]
fn the_members_of_an_object_keep_their_order() {
    match parse(r#"{"z": 1, "a": 2, "m": 3}"#).unwrap() {
        Json::Object(members) => {
            let names: Vec<&str> = members.iter().map(|(k, _)| k.as_str()).collect();
            assert_eq!(names, vec!["z", "a", "m"]);
        }
        _ => panic!("an object was expected"),
    }
}

#[test]
fn a_number_is_read_by_sign_digits_and_exponent() {
    match parse("33013").unwrap() {
        Json::Number(n) => {
            assert_eq!(n, JsonNumber { positive: true, mantissa: 33013, exponent: 0 })
        }
        _ => panic!("a number was expected"),
    }
    match parse("-0.25").unwrap() {
        Json::Number(n) => assert_eq!(n, JsonNumber { positive: false, mantissa: 25, exponent: -2 }),
        _ => panic!("a number was expected"),
    }
}

#[test]
fn the_first_member_of_a_name_is_found() {
    let doc = Json::Object(vec![
        ("a".to_string(), Json::Bool(true)),
        ("a".to_string(), Json::Bool(false)),
    ]);
    assert_eq!(doc.get("a").as_bool(), Some(true));
}

#[test]
fn whole_numbers_at_the_limits() {
    let n = |positive, mantissa| Json::Number(JsonNumber { positive, mantissa, exponent: 0 });
    assert_eq!(n(true, i64::MAX as u64).as_i64(), Some(i64::MAX));
    assert_eq!(n(false, i64::MAX as u64).as_i64(), Some(-i64::MAX));
    assert_eq!(n(true, 1 << 63).as_i64(), None);
    assert_eq!(n(false, 1 << 63).as_i64(), None);
    assert_eq!(n(true, u64::MAX).as_u64(), Some(u64::MAX));
    assert_eq!(n(false, 0).as_u64(), None);
    assert_eq!(n(false, 0).as_i64(), Some(0));
    assert_eq!(Json::Text("1".to_string()).as_u64(), None);
    assert_eq!(Json::Null.as_bool(), None);
}

#[test]
fn a_text_that_is_no_document_is_a_schema_error() {
    for text in ["", "{", "[1,]", "<html>", "{\"a\": }", "nul"] {
        let e = parse(text).unwrap_err();
        assert_eq!(e.kind, ErrorKind::Schema, "{text:?}");
        assert_eq!(e.message, "The response is not a JSON document");
    }
}

#[test]
fn a_point_may_have_so_many_digits_behind_it_and_no_more() {
    assert_eq!(MAX_FRACTION_DIGITS, 32768);
    let most = format!("0.{}", "0".repeat(MAX_FRACTION_DIGITS));
    assert!(fractions_fit_in(&most));
    match parse(&most).unwrap() {
        Json::Number(n) => {
            assert_eq!(n, JsonNumber { positive: true, mantissa: 0, exponent: i16::MIN })
        }
        _ => panic!("a number was expected"),
    }
    let more = format!("0.{}", "0".repeat(MAX_FRACTION_DIGITS + 1));
    assert!(!fractions_fit_in(&more));
    let e = parse(&more).unwrap_err();
    assert_eq!(e.kind, ErrorKind::Schema);
    assert_eq!(e.message, "The response holds a number with too many digits behind the point");
    let nested = format!("{{\"a\": [1, -2.{}5e3]}}", "9".repeat(MAX_FRACTION_DIGITS));
    assert_eq!(parse(&nested).unwrap_err().kind, ErrorKind::Schema);
}

#[test]
fn digits_are_counted_behind_each_point_alone() {
    assert!(fractions_fit_in(""));
    assert!(fractions_fit_in("no point"));
    assert!(fractions_fit_in("1.5"));
    assert!(fractions_fit_in(&"7".repeat(MAX_FRACTION_DIGITS + 10)));
    let run = "1".repeat(MAX_FRACTION_DIGITS);
    assert!(fractions_fit_in(&format!("[0.{run}, 0.{run}]")));
    assert!(fractions_fit_in(&format!("0.{run}.{run}")));
    assert!(fractions_fit_in(&format!("0.{run}e{run}")));
    assert!(fractions_fit_in(&format!(".x{run}1")));
    assert!(!fractions_fit_in(&format!("0.{run}1")));
    assert!(!fractions_fit_in(&format!("x.y then .{run}0 and more")));
    assert!(!fractions_fit_in(&format!("\"text\" .{run}0")));
}

#[test]
fn digits_inside_a_string_are_not_counted() {
    let run = "1".repeat(MAX_FRACTION_DIGITS + 1);
    let text = format!("\"text .{run}\"");
    assert!(fractions_fit_in(&text));
    assert_eq!(parse(&text).unwrap().as_str(), Some(format!("text .{run}").as_str()));
    let escaped = format!("\"a\\\" .{run}\"");
    assert!(fractions_fit_in(&escaped));
    assert_eq!(parse(&escaped).unwrap().as_str(), Some(format!("a\" .{run}").as_str()));
    let unicode = format!("{{\"k\\u0041\": \"\\\\ .{run}\", \"n\": 1.5}}");
    assert!(fractions_fit_in(&unicode));
    let document = parse(&unicode).unwrap();
    assert_eq!(document.get("kA").as_str(), Some(format!("\\ .{run}").as_str()));
    let ended = format!("[\"a\\\\\", 0.{run}]");
    assert!(!fractions_fit_in(&ended));
    assert_eq!(parse(&ended).unwrap_err().kind, ErrorKind::Schema);
    let after = format!("[\"a .\", 0.{run}]");
    assert!(!fractions_fit_in(&after));
    let key = format!("{{\"k.{run}\": 0.5}}");
    assert!(fractions_fit_in(&key));
    assert!(parse(&key).is_ok());
}
