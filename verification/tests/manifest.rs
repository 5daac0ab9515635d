use modsync::endpoint::{download_url, is_success, MANIFEST_URL};
use modsync::manifest::{decode_manifest, manifest_entries, read_manifest, FetchError, Reply};
use serde_json::{Number, Value};

fn answer(status: u16, body: &str) -> Reply {
    Reply::Answer { status, body: body.as_bytes().to_vec() }
}

fn owned(names: &[&str]) -> Vec<String> {
    names.iter().map(|name| name.to_string()).collect()
}

#[test]
fn manifest_is_read_from_a_successful_answer() {
    let reply = answer(200, r#"{"mods": ["a.jar", "b.jar", "fabric-installer-1.1.0.exe"]}"#);
    assert_eq!(
        read_manifest(&reply),
        Ok(owned(&["a.jar", "b.jar", "fabric-installer-1.1.0.exe"]))
    );
}

#[test]
fn manifest_keeps_order_and_repetitions() {
    let reply = answer(200, r#"{"mods": ["z.jar", "a.jar", "z.jar"]}"#);
    assert_eq!(read_manifest(&reply), Ok(owned(&["z.jar", "a.jar", "z.jar"])));
}

#[test]
fn failed_request_is_a_network_error() {
    assert_eq!(read_manifest(&Reply::Unreachable), Err(FetchError::Network));
}

#[test]
fn status_other_than_success_is_a_network_error() {
    let body = r#"{"mods": ["a.jar"]}"#;
    for status in [100, 199, 300, 301, 304, 400, 404, 500, 503, 0, 65535] {
        assert_eq!(read_manifest(&answer(status, body)), Err(FetchError::Network));
    }
}

#[test]
fn every_status_of_success_is_accepted() {
    let body = r#"{"mods": ["a.jar"]}"#;
    for status in [200, 201, 204, 206, 299] {
        assert_eq!(read_manifest(&answer(status, body)), Ok(owned(&["a.jar"])));
    }
}

#[test]
fn status_is_judged_before_the_body() {
    assert_eq!(read_manifest(&answer(500, "not json")), Err(FetchError::Network));
    assert_eq!(read_manifest(&answer(200, "not json")), Err(FetchError::Decode));
}

#[test]
fn success_is_the_range_from_200_to_299() {
    assert!(!is_success(199));
    assert!(is_success(200));
    assert!(is_success(299));
    assert!(!is_success(300));
}

#[test]
fn body_that_is_not_json_is_a_decode_error() {
    for body in ["", "not json", "{", r#"{"mods": ["a.jar"]"#, r#"{"mods": ["a.jar"]} x"#, "\u{feff}{}"] {
        assert_eq!(decode_manifest(body.as_bytes()), Err(FetchError::Decode));
    }
    assert_eq!(decode_manifest(&[0x7b, 0x22, 0xff, 0x22, 0x3a, 0x31, 0x7d]), Err(FetchError::Decode));
}

#[test]
fn body_without_the_list_is_a_decode_error() {
    for body in [
        "null",
        "true",
        "17",
        r#""mods""#,
        r#"["a.jar"]"#,
        "{}",
        r#"{"Mods": ["a.jar"]}"#,
        r#"{"files": ["a.jar"]}"#,
        r#"{"data": {"mods": ["a.jar"]}}"#,
    ] {
        assert_eq!(decode_manifest(body.as_bytes()), Err(FetchError::Decode));
    }
}

#[test]
fn field_that_is_not_a_list_is_a_decode_error() {
    for body in [
        r#"{"mods": null}"#,
        r#"{"mods": "a.jar"}"#,
        r#"{"mods": 3}"#,
        r#"{"mods": true}"#,
        r#"{"mods": {"0": "a.jar"}}"#,
    ] {
        assert_eq!(decode_manifest(body.as_bytes()), Err(FetchError::Decode));
    }
}

#[test]
fn entries_that_are_not_strings_are_left_out() {
    let body = r#"{"mods": [1, "a.jar", null, true, ["b.jar"], {"name": "c.jar"}, "d.jar", 2.5]}"#;
    assert_eq!(decode_manifest(body.as_bytes()), Ok(owned(&["a.jar", "d.jar"])));
}

#[test]
fn empty_list_is_an_empty_manifest() {
    assert_eq!(decode_manifest(br#"{"mods": []}"#), Ok(Vec::new()));
    assert_eq!(decode_manifest(br#"{"mods": [1, 2]}"#), Ok(Vec::new()));
}

#[test]
fn other_fields_do_not_matter() {
    let body = r#"{"version": 3, "mods": ["a.jar"], "note": "x"}"#;
    assert_eq!(decode_manifest(body.as_bytes()), Ok(owned(&["a.jar"])));
}

#[test]
fn names_are_taken_as_the_text_they_stand_for() {
    let body = r#"{"mods": ["grün.jar", "a b.jar", "", "tab\there"]}"#;
    assert_eq!(
        decode_manifest(body.as_bytes()),
        Ok(owned(&["gr\u{fc}n.jar", "a b.jar", "", "tab\there"]))
    );
}

#[test]
fn manifest_is_read_from_a_document_built_by_hand() {
    let mut fields = serde_json::Map::new();
    fields.insert(
        "mods".to_string(),
        Value::Array(vec![
            Value::String("a.jar".to_string()),
            Value::Number(Number::from(7)),
            Value::Null,
            Value::String("b.jar".to_string()),
        ]),
    );
    fields.insert("other".to_string(), Value::Bool(true));
    assert_eq!(manifest_entries(&Value::Object(fields)), Ok(owned(&["a.jar", "b.jar"])));
}

#[test]
fn document_that_is_no_object_holds_no_manifest() {
    assert_eq!(manifest_entries(&Value::Null), Err(FetchError::Decode));
    assert_eq!(
        manifest_entries(&Value::Array(vec![Value::String("a.jar".to_string())])),
        Err(FetchError::Decode)
    );
    assert_eq!(manifest_entries(&Value::String("mods".to_string())), Err(FetchError::Decode));
    assert_eq!(manifest_entries(&Value::Object(serde_json::Map::new())), Err(FetchError::Decode));
    let mut fields = serde_json::Map::new();
    fields.insert("mods".to_string(), Value::String("a.jar".to_string()));
    assert_eq!(manifest_entries(&Value::Object(fields)), Err(FetchError::Decode));
}

#[test]
fn files_are_found_below_the_manifest() {
    assert_eq!(MANIFEST_URL, "https://mods.farmlandefficiency.co.nz/mods");
    assert_eq!(download_url("a.jar"), "https://mods.farmlandefficiency.co.nz/mods/a.jar");
    assert_eq!(download_url(""), "https://mods.farmlandefficiency.co.nz/mods/");
    assert_eq!(
        download_url("sodium 0.5.jar"),
        "https://mods.farmlandefficiency.co.nz/mods/sodium 0.5.jar"
    );
}
