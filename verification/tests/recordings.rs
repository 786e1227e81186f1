use std::io::BufRead;

use serde_json::Value;
use tailpipe::cast::{
    check_header, is_skipped, parse_events, CastError, CastEvent, Format, HeaderReading, HeaderV2,
    HeaderV3, Line, V3Term, VersionProbe,
};

fn read_header(line: &str) -> HeaderReading {
    let value: Value = serde_json::from_str(line).unwrap_or(Value::Null);
    let version = || serde_json::from_value::<u8>(value["version"].clone());
    let number = |v: &Value| serde_json::from_value::<u16>(v.clone());
    HeaderReading {
        probe: version().map(|version| VersionProbe { version }),
        v2: version().and_then(|version| {
            Ok(HeaderV2 {
                version,
                width: number(&value["width"])?,
                height: number(&value["height"])?,
            })
        }),
        v3: version().and_then(|version| {
            let cols = number(&value["term"]["cols"])?;
            let rows = number(&value["term"]["rows"])?;
            Ok(HeaderV3 { version, term: V3Term { cols, rows } })
        }),
    }
}

fn plus(a: u64, b: u64) -> u64 {
    (f64::from_bits(a) + f64::from_bits(b)).to_bits()
}

fn lines_of(contents: &str) -> Vec<Line> {
    contents
        .as_bytes()
        .lines()
        .map(|line| line.map_err(|e| e.to_string()))
        .collect()
}

fn parse(contents: &str) -> Result<Vec<CastEvent>, CastError> {
    parse_events(&lines_of(contents), read_header, plus)
}

fn seconds(event: &CastEvent) -> f64 {
    f64::from_bits(event.time)
}

#[test]
fn parse_v2_absolute_timestamps() {
    let events = parse(
        r#"{"version":2,"width":80,"height":24}
[0.5, "o", "hello"]
[1.0, "o", " world"]
[2.5, "o", "\r\n"]
"#,
    )
    .unwrap();
    assert_eq!(events.len(), 3);
    assert!((seconds(&events[0]) - 0.5).abs() < 1e-9);
    assert!((seconds(&events[1]) - 1.0).abs() < 1e-9);
    assert!((seconds(&events[2]) - 2.5).abs() < 1e-9);
    assert_eq!(events[0].data, "hello");
    assert_eq!(events[1].data, " world");
    assert_eq!(events[2].data, "\r\n");
}

#[test]
fn parse_v3_relative_timestamps_accumulated() {
    let events = parse(
        r#"{"version":3,"term":{"cols":100,"rows":50}}
[0.5, "o", "hello"]
[1.0, "o", " world"]
[0.3, "o", "!"]
"#,
    )
    .unwrap();
    assert_eq!(events.len(), 3);
    assert!((seconds(&events[0]) - 0.5).abs() < 1e-9);
    assert!((seconds(&events[1]) - 1.5).abs() < 1e-9);
    assert!((seconds(&events[2]) - 1.8).abs() < 1e-9);
}

#[test]
fn parse_v3_skips_comments_and_empty_lines() {
    let events = parse(
        r#"{"version":3,"term":{"cols":80,"rows":24}}
# this is a comment
[0.1, "o", "a"]

[0.2, "o", "b"]
# another comment
[0.3, "o", "c"]
"#,
    )
    .unwrap();
    assert_eq!(events.len(), 3);
    assert_eq!(events[0].data, "a");
    assert_eq!(events[1].data, "b");
    assert_eq!(events[2].data, "c");
}

#[test]
fn parse_v3_non_output_events_preserved() {
    let events = parse(
        r#"{"version":3,"term":{"cols":80,"rows":24}}
[0.1, "o", "hello"]
[0.5, "i", "\n"]
[0.2, "r", "90x30"]
[1.0, "o", "world"]
"#,
    )
    .unwrap();
    assert_eq!(events.len(), 4);
    assert_eq!(events[1].code, "i");
    assert_eq!(events[2].code, "r");
    assert!((seconds(&events[3]) - 1.8).abs() < 1e-9);
}

#[test]
fn parse_unsupported_version_errors() {
    let err = parse(r#"{"version":99,"width":80,"height":24}"#).unwrap_err();
    assert!(err.message().contains("unsupported asciicast version: 99"));
}

#[test]
fn parse_empty_file_errors() {
    assert!(parse("").is_err());
    assert!(matches!(parse(""), Err(CastError::Empty)));
}

#[test]
fn parse_v2_skips_empty_lines() {
    let events = parse(
        r#"{"version":2,"width":80,"height":24}
[0.5, "o", "a"]

[1.0, "o", "b"]
"#,
    )
    .unwrap();
    assert_eq!(events.len(), 2);
}

#[test]
fn v2_skips_comments_too() {
    let events = parse("{\"version\":2,\"width\":80,\"height\":24}\n# c\n[1, \"o\", \"a\"]").unwrap();
    assert_eq!(events.len(), 1);
    assert_eq!(events[0].time, 1.0f64.to_bits());
}

#[test]
fn empty_lines_and_comments_do_not_matter() {
    let header = r#"{"version":3,"term":{"cols":80,"rows":24}}"#;
    let (a, b) = ("[0.1, \"o\", \"a\"]", "[0.2, \"i\", \"b\"]");
    let plain = parse(&format!("{header}\n{a}\n{b}\n")).unwrap();
    let padded = parse(&format!("{header}\n\n#\n{a}\n# x\n\n\n{b}\n#\n\n")).unwrap();
    assert_eq!(plain.len(), padded.len());
    for (x, y) in plain.iter().zip(&padded) {
        assert_eq!((x.time, &x.code, &x.data), (y.time, &y.code, &y.data));
    }
}

#[test]
fn v3_times_are_sorted() {
    let header = r#"{"version":3,"term":{"cols":80,"rows":24}}"#;
    let lines: String = (0..50).map(|i| format!("[{}.{i}, \"o\", \"\"]\n", i % 3)).collect();
    let events = parse(&format!("{header}\n{lines}")).unwrap();
    assert_eq!(events.len(), 50);
    assert!(events.windows(2).all(|pair| seconds(&pair[0]) <= seconds(&pair[1])));
}

#[test]
fn v3_sums_are_those_of_doubles() {
    let events = parse(
        r#"{"version":3,"term":{"cols":80,"rows":24}}
[0.1, "o", "a"]
[0.2, "o", "b"]
[-1, "o", "c"]
[18446744073709551615, "o", "d"]
"#,
    )
    .unwrap();
    assert_eq!(events[0].time, 0.1f64.to_bits());
    assert_eq!(events[1].time, (0.1f64 + 0.2).to_bits());
    assert_eq!(events[2].time, (0.1f64 + 0.2 - 1.0).to_bits());
    assert_eq!(seconds(&events[3]), 0.1f64 + 0.2 - 1.0 + u64::MAX as f64);
}

#[test]
fn every_header_error_has_its_message() {
    let err = parse("not json").unwrap_err();
    assert!(matches!(err, CastError::ParseHeader(_)));
    assert_eq!(err.message(), "failed to parse cast header");
    let err = parse(r#"{"version":256}"#).unwrap_err();
    assert!(matches!(err, CastError::ParseHeader(_)));
    let err = parse(r#"{"version":2,"width":80}"#).unwrap_err();
    assert!(matches!(err, CastError::ParseV2Header(_)));
    assert_eq!(err.message(), "failed to parse v2 header");
    let err = parse(r#"{"version":3,"width":80,"height":24}"#).unwrap_err();
    assert!(matches!(err, CastError::ParseV3Header(_)));
    assert_eq!(err.message(), "failed to parse v3 header");
    let err = parse(r#"{"version":1,"width":80,"height":24}"#).unwrap_err();
    assert!(matches!(err, CastError::Unsupported(1)));
    assert_eq!(err.message(), "unsupported asciicast version: 1");
    assert_eq!(CastError::Empty.message(), "empty cast file");
}

#[test]
fn a_comment_is_no_header() {
    let contents = "# c\n{\"version\":2,\"width\":80,\"height\":24}\n";
    assert!(matches!(parse(contents), Err(CastError::ParseHeader(_))));
}

#[test]
fn the_first_bad_line_decides() {
    let header: Line = Ok(r#"{"version":2,"width":80,"height":24}"#.to_string());
    let good: Line = Ok(r#"[1.0, "o", "a"]"#.to_string());
    let bad: Line = Ok("[1.0, \"o\"]".to_string());
    let unreadable: Line = Err("stream did not contain valid UTF-8".to_string());

    let lines = vec![header.clone(), good.clone(), bad.clone(), unreadable.clone()];
    let err = parse_events(&lines, read_header, plus).unwrap_err();
    assert!(matches!(err, CastError::ParseEvent(_)));
    assert_eq!(err.message(), "failed to parse cast event");

    let lines = vec![header.clone(), good, unreadable.clone(), bad];
    match parse_events(&lines, read_header, plus).unwrap_err() {
        CastError::ReadLine(cause) => assert_eq!(cause, "stream did not contain valid UTF-8"),
        other => panic!("{}", other.message()),
    }

    let lines = vec![unreadable, header];
    let err = parse_events(&lines, read_header, plus).unwrap_err();
    assert!(matches!(err, CastError::ReadHeader(_)));
    assert_eq!(err.message(), "failed to read cast header");
    assert_eq!(CastError::ReadLine(String::new()).message(), "failed to read cast line");
}

#[test]
fn event_lines_must_be_a_number_and_two_strings() {
    let header = "{\"version\":2,\"width\":80,\"height\":24}\n";
    for line in [
        "[1.0, \"o\", \"a\", \"b\"]",
        "[\"1.0\", \"o\", \"a\"]",
        "[1.0, 2, \"a\"]",
        "[null, \"o\", \"a\"]",
        "[1e999, \"o\", \"a\"]",
        " ",
        "{}",
        "[1.0, \"o\", \"a\"] x",
    ] {
        let contents = format!("{header}{line}\n");
        assert!(matches!(parse(&contents), Err(CastError::ParseEvent(_))), "{line}");
    }
    let events = parse(&format!("{header} [1e0, \"\", \"\\u00e9\"] \n")).unwrap();
    assert_eq!(events[0].time, 1.0f64.to_bits());
    assert_eq!(events[0].code, "");
    assert_eq!(events[0].data, "\u{e9}");
}

#[test]
fn headers_are_told_apart() {
    let v2 = check_header(read_header(r#"{"version":2,"width":80,"height":24}"#));
    assert!(matches!(v2, Ok(Format::V2)));
    let v3 = check_header(read_header(r#"{"version":3,"term":{"cols":1,"rows":1}}"#));
    assert!(matches!(v3, Ok(Format::V3)));
    assert!(is_skipped(""));
    assert!(is_skipped("#"));
    assert!(!is_skipped(" #"));
}
