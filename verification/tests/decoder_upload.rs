use std::time::SystemTime;
use thumbcloud::config::Config;
use thumbcloud::decoder::{check_listing_path, decode, decode_text, listing_answer, parse_request, ClientRequest, DecodeStep};
use thumbcloud::files::{DirEntryInfo, EntryKind};
use thumbcloud::upload::{upload_destination, upload_target, written_total, DispositionParam, UploadError};

fn config() -> Config {
    Config::from_matches("/srv", None, None, None, "thumbcloud", SystemTime::now())
}

fn some(s: &str) -> Option<String> {
    Some(s.to_string())
}

#[test]
fn parse_request_reads_action_and_path() {
    let r = parse_request("{\"action\":\"requestFilelist\",\"path\":\"a\\\\b\"}").unwrap();
    assert_eq!(r.action, Some("requestFilelist".to_string()));
    assert_eq!(r.action_debug, format!("{:?}", serde_json::Value::String("requestFilelist".to_string())));
    assert_eq!(r.path_text, "\"a\\\\b\"");
    let n = parse_request("{\"action\":5}").unwrap();
    assert_eq!(n.action, None);
    assert_eq!(n.path_text, "null");
    assert!(parse_request("not json").is_none());
}

#[test]
fn listing_request_resolves_under_the_share() {
    match decode_text("{\"action\":\"requestFilelist\",\"path\":\"docs\"}", &config()) {
        Some(DecodeStep::Resolve { joined, path_end }) => {
            assert_eq!(joined, "/srv/docs");
            assert_eq!(path_end, "docs");
        }
        _ => panic!("expected a path to resolve"),
    }
    match decode_text("{\"action\":\"requestFilelist\",\"path\":\"\"}", &config()) {
        Some(DecodeStep::Resolve { joined, path_end }) => {
            assert_eq!(joined, "/srv/");
            assert_eq!(path_end, "");
        }
        _ => panic!("expected a path to resolve"),
    }
    assert!(decode_text("{", &config()).is_none());
}

#[test]
fn resolved_path_must_stay_inside() {
    match check_listing_path("docs".to_string(), some("/srv"), some("/srv/docs")) {
        DecodeStep::List { path, path_end } => {
            assert_eq!(path, "/srv/docs");
            assert_eq!(path_end, "docs");
        }
        _ => panic!("expected a listing"),
    }
    // A share given as "." is compared in its canonical form.
    match check_listing_path("src".to_string(), some("/work"), some("/work/src")) {
        DecodeStep::List { path, .. } => assert_eq!(path, "/work/src"),
        _ => panic!("expected a listing"),
    }
    match check_listing_path("../etc".to_string(), some("/srv"), some("/etc")) {
        DecodeStep::Reply(t) => assert_eq!(
            t,
            "{\"action\":\"sendError\",\"message\":\"Cannot read the given path: \\\"../etc\\\"\"}"
        ),
        _ => panic!("expected a refusal"),
    }
    match check_listing_path("gone".to_string(), some("/srv"), None) {
        DecodeStep::Reply(t) => assert!(t.contains("sendError")),
        _ => panic!("expected a refusal"),
    }
}

#[test]
fn listing_answer_composes_check_and_listing() {
    let entries = vec![DirEntryInfo { name: some("f.png"), kind: Some(EntryKind::File), size_text: some("2 B") }];
    assert_eq!(
        listing_answer("docs", some("/srv"), some("/srv/docs"), Some(&entries)),
        "{\"action\":\"sendFilelist\",\"path\":\"docs\",\"folders\":[],\"files\":[{\"name\":\"f.png\",\"size\":\"2 bytes\",\"icon\":\"image\"}]}"
    );
    assert_eq!(
        listing_answer("../etc", some("/srv"), some("/etc"), Some(&entries)),
        "{\"action\":\"sendError\",\"message\":\"Cannot read the given path: \\\"../etc\\\"\"}"
    );
}

#[test]
fn uptime_and_unknown_requests() {
    match decode_text("{\"action\":\"requestUptime\"}", &config()) {
        Some(DecodeStep::Reply(t)) => {
            let v: serde_json::Value = serde_json::from_str(&t).unwrap();
            assert_eq!(v["action"], "sendUptime");
        }
        _ => panic!("expected an answer"),
    }
    let text = "{\"action\":\"dance\"}";
    let debug = parse_request(text).unwrap().action_debug;
    match decode_text(text, &config()) {
        Some(DecodeStep::Reply(t)) => {
            let v: serde_json::Value = serde_json::from_str(&t).unwrap();
            assert_eq!(v["action"], "sendError");
            assert_eq!(v["message"], format!("Unknown action from client: {}", debug));
        }
        _ => panic!("expected an answer"),
    }
    let missing = ClientRequest { action: None, action_debug: "Null".to_string(), path_text: "null".to_string() };
    match decode(&missing, &config()) {
        DecodeStep::Reply(t) => assert_eq!(t, "{\"action\":\"sendError\",\"message\":\"Unknown action from client: Null\"}"),
        _ => panic!("expected an answer"),
    }
}

#[test]
fn upload_plans() {
    let params = vec![
        DispositionParam::Ext("name".to_string(), " sub ".to_string()),
        DispositionParam::Filename(b"f.txt".to_vec()),
    ];
    let plan = upload_target(Some(&params), "/srv").unwrap();
    assert_eq!(
        (plan.target.as_str(), plan.parent.as_str(), plan.name.as_str()),
        ("/srv/sub/f.txt", "/srv/sub", "f.txt")
    );
    let nested = vec![DispositionParam::Filename(b"a/b".to_vec())];
    let plan = upload_target(Some(&nested), "/srv").unwrap();
    assert_eq!(
        (plan.target.as_str(), plan.parent.as_str(), plan.name.as_str()),
        ("/srv/a/b", "/srv/a", "b")
    );
    let no_dir = vec![DispositionParam::Filename(b"g".to_vec())];
    assert_eq!(upload_target(Some(&no_dir), "/srv").unwrap().target, "/srv/g");
    assert!(matches!(upload_target(None, "/srv"), Err(UploadError::NoValidFile)));
    let empty = vec![DispositionParam::Ext("other".to_string(), "x".to_string())];
    assert!(matches!(upload_target(Some(&empty), "/srv"), Err(UploadError::NoValidFile)));
    let bad = vec![DispositionParam::Filename(vec![0xff, 0xfe])];
    assert!(matches!(upload_target(Some(&bad), "/srv"), Err(UploadError::NotUtf8(_))));
    assert_eq!(written_total(10, 5), 15);
}

#[test]
fn upload_destinations_stay_inside() {
    let params = |name: &str| vec![DispositionParam::Filename(name.as_bytes().to_vec())];
    // A name with a separator lands in an existing subfolder of the share.
    let plan = upload_target(Some(&params("a/b")), "/srv").unwrap();
    assert_eq!(upload_destination(&plan, some("/srv"), some("/srv/a")).unwrap(), "/srv/a/b");
    let plan = upload_target(Some(&params("f.txt")), "/srv").unwrap();
    assert_eq!(upload_destination(&plan, some("/srv"), some("/srv")).unwrap(), "/srv/f.txt");
    // A name that climbs out of the share is refused.
    let plan = upload_target(Some(&params("../h")), "/srv").unwrap();
    assert_eq!(plan.parent, "/srv/..");
    assert!(matches!(upload_destination(&plan, some("/srv"), some("/")), Err(UploadError::Traversal)));
    let plan = upload_target(Some(&params("/etc/h")), "/srv").unwrap();
    assert!(matches!(upload_destination(&plan, some("/srv"), some("/etc")), Err(UploadError::Traversal)));
    // No file can be created under the name "..".
    let plan = upload_target(Some(&params("a/..")), "/srv").unwrap();
    assert!(matches!(upload_destination(&plan, some("/srv"), some("/srv/a")), Err(UploadError::Traversal)));
    let plan = upload_target(Some(&params("x/h")), "/srv").unwrap();
    assert!(matches!(upload_destination(&plan, some("/srv"), None), Err(UploadError::MissingDirectory)));
}
