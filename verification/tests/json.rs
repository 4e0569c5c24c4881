use incus_executor::json::{Json, Members};
use serde_json::Value;

fn read(text: &str) -> Json {
    Json::from_slice(text.as_bytes()).unwrap()
}

const DOCUMENT: &str = r#"{
    "name": "w-1", "n": 7, "big": 18446744073709551615, "neg": -1, "frac": 1.5, "yes": true,
    "nothing": null, "list": ["a", 2, {"x": "y"}, [true]], "a/b": {"": "empty"},
    "twice": 1, "twice": 2, "10": "ten"
}"#;

#[test]
fn values_are_read() {
    let json = read(DOCUMENT);
    assert_eq!(json.get_str("name"), Some("w-1"));
    assert_eq!(json.u64_at(&["n"]), Some(7));
    assert_eq!(json.u64_at(&["big"]), Some(u64::MAX));
    assert_eq!(json.u64_at(&["neg"]), None);
    assert_eq!(json.u64_at(&["frac"]), None);
    assert_eq!(json.u64_at(&["name"]), None);
    assert_eq!(json.get_str("n"), None);
    assert_eq!(json.get("yes"), Some(&Json::Bool(true)));
    assert_eq!(json.get("nothing"), Some(&Json::Null));
    assert_eq!(json.get("missing"), None);
    assert_eq!(json.u64_at(&["twice"]), Some(2));
    assert_eq!(Json::Null.get("name"), None);
}

#[test]
fn pointers_agree_with_serde_json() {
    let json = read(DOCUMENT);
    let value: Value = serde_json::from_str(DOCUMENT).unwrap();
    for path in [
        vec![],
        vec!["name"],
        vec!["name", "x"],
        vec!["list"],
        vec!["list", "0"],
        vec!["list", "1"],
        vec!["list", "2", "x"],
        vec!["list", "3", "0"],
        vec!["list", "4"],
        vec!["list", "00"],
        vec!["list", "+1"],
        vec!["list", "01"],
        vec!["list", "-1"],
        vec!["list", ""],
        vec!["list", "99999999999999999999999999"],
        vec!["list", "x"],
        vec!["10"],
        vec!["missing"],
        vec!["nothing", "x"],
    ] {
        let mut pointer = String::new();
        for token in &path {
            pointer.push('/');
            pointer.push_str(token);
        }
        let expected = value.pointer(&pointer);
        let found = json.pointer(&path);
        assert_eq!(found.is_some(), expected.is_some());
        if let (Some(found), Some(expected)) = (found, expected) {
            assert_eq!(found.as_str(), expected.as_str());
            assert_eq!(found.as_u64(), expected.as_u64());
        }
    }
    assert_eq!(json.str_at(&["a/b", ""]), Some("empty"));
}

#[test]
fn documents_are_written() {
    let document = read(DOCUMENT).to_vec().unwrap();
    let value: Value = serde_json::from_slice(&document).unwrap();
    let expected: Value = serde_json::from_str(DOCUMENT).unwrap();
    assert_eq!(value, expected);
    let written = Json::Object(Members::new().with_text("b", "\"").with("a", Json::Unsigned(1)));
    assert_eq!(written.to_vec().unwrap(), br#"{"a":1,"b":"\""}"#.to_vec());
}

#[test]
fn values_are_displayed() {
    assert_eq!(read("[1, -2, 0.5, \"x\", null, {\"k\": false}]").display(),
        r#"[1,-2,0.5,"x",null,{"k":false}]"#);
    assert_eq!(Json::text("a\nb").display(), "\"a\\nb\"");
    assert_eq!(Json::Null.display(), "null");
    assert_eq!(Json::Bool(true).display(), "true");
    assert_eq!(Json::Bool(false).display(), "false");
    assert_eq!(Json::Unsigned(0).display(), "0");
    assert_eq!(Json::Unsigned(u64::MAX).display(), "18446744073709551615");
}

#[test]
fn what_is_no_document_is_an_error() {
    let error = Json::from_slice(b"{").unwrap_err();
    assert_eq!(error, serde_json::from_slice::<Value>(b"{").unwrap_err().to_string());
    assert_eq!(error, "EOF while parsing an object at line 1 column 1");
    assert!(Json::from_slice(b"").is_err());
    assert!(Json::from_slice(b"1 2").is_err());
}

#[test]
fn members_are_replaced() {
    let mut members = Members::new().with_text("a", "1").with_text("b", "2");
    members.set("a", Json::Unsigned(3));
    assert_eq!(members.get("a"), Some(&Json::Unsigned(3)));
    assert_eq!(members.get("b"), Some(&Json::text("2")));
    assert_eq!(members.entries.len(), 2);
    members.extend(Members::new().with_text("b", "4").with_text("c", "5"));
    assert_eq!(members.get("a"), Some(&Json::Unsigned(3)));
    assert_eq!(members.get("b"), Some(&Json::text("4")));
    assert_eq!(members.get("c"), Some(&Json::text("5")));
    assert_eq!(members.get("d"), None);
}

#[test]
fn of_members_with_one_name_the_last_is_written() {
    let members = Members {
        entries: vec![
            ("a".to_string(), Json::Unsigned(1)),
            ("b".to_string(), Json::Unsigned(2)),
            ("a".to_string(), Json::Unsigned(3)),
        ],
    };
    assert_eq!(members.get("a"), Some(&Json::Unsigned(3)));
    assert_eq!(Json::Object(members).to_vec().unwrap(), br#"{"a":3,"b":2}"#.to_vec());
}
