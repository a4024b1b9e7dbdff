use std::time::{Duration, SystemTime};
use thumbcloud::config::{capitalize, correct_invalid_name, get_address, is_valid_address, is_valid_path, Config, IpAddress, SocketAddress};
use thumbcloud::system::{get_os, get_uptime_respond, uptime_respond};
use thumbcloud::webserver::{about_header, bind_error_message};

#[test]
fn blank_names_fall_back_to_the_package_name() {
    assert_eq!(correct_invalid_name("   ", "Thumbcloud"), "Thumbcloud");
    assert_eq!(correct_invalid_name("", "Thumbcloud"), "Thumbcloud");
    assert_eq!(correct_invalid_name("\u{3000}\t", "Thumbcloud"), "Thumbcloud");
    assert_eq!(correct_invalid_name(" Box ", "Thumbcloud"), " Box ");
}

#[test]
fn package_name_is_capitalized() {
    assert_eq!(capitalize("thumbcloud"), "Thumbcloud");
    assert_eq!(capitalize("élan"), "Élan");
    assert_eq!(capitalize("Already"), "Already");
}

#[test]
fn address_falls_back_to_local_ip_then_loopback() {
    let given = SocketAddress { ip: IpAddress::V4(10, 0, 0, 2), port: 9000, flowinfo: 0, scope_id: 0 };
    assert_eq!(get_address(Some(given), Some(IpAddress::V4(192, 168, 1, 5))), given);
    let local = get_address(None, Some(IpAddress::V4(192, 168, 1, 5)));
    assert_eq!(local, SocketAddress { ip: IpAddress::V4(192, 168, 1, 5), port: 8080, flowinfo: 0, scope_id: 0 });
    let fallback = get_address(None, None);
    assert_eq!(fallback, SocketAddress { ip: IpAddress::V4(127, 0, 0, 1), port: 8080, flowinfo: 0, scope_id: 0 });
}

#[test]
fn config_from_command_line() {
    let start = SystemTime::now();
    let c = Config::from_matches("/srv/share", None, None, Some("  "), "thumbcloud", start);
    assert_eq!(c.path, "/srv/share");
    assert_eq!(c.app_name, "Thumbcloud");
    assert_eq!(c.crate_name, "Thumbcloud");
    assert_eq!(c.addr.port, 8080);
    assert_eq!(c.addr.ip, IpAddress::V4(127, 0, 0, 1));
    assert_eq!(c.start_time, start);
    let d = Config::from_matches("/x", None, None, Some("Box"), "thumbcloud", start);
    assert_eq!(d.app_name, "Box");
    let e = Config::from_matches("/x", None, None, None, "thumbcloud", start);
    assert_eq!(e.app_name, "Thumbcloud");
}

#[test]
fn path_and_address_checks() {
    assert_eq!(is_valid_path("/srv", true, false), Ok(()));
    assert_eq!(
        is_valid_path("/srv/a.txt", false, true),
        Err("The path pointed to a file, but only directories can be shared".to_string())
    );
    assert_eq!(
        is_valid_path("/nope", false, false),
        Err("Could not locate the given directory: /nope".to_string())
    );
    assert_eq!(is_valid_address(true), Ok(()));
    assert_eq!(is_valid_address(false), Err("Invalid socket address".to_string()));
}

#[test]
fn os_names() {
    assert_eq!(get_os("linux"), "Linux");
    assert_eq!(get_os("windows"), "Windows");
    assert_eq!(get_os("macos"), "macOS");
    assert_eq!(get_os("dragonfly"), "DragonFly BSD");
    assert_eq!(get_os("netbsd"), "NetBSD");
    assert_eq!(get_os("plan9"), "Unknown");

}

#[test]
fn uptime_answers() {
    assert_eq!(uptime_respond(Some(42)), "{\"action\":\"sendUptime\",\"uptime\":42}");
    assert_eq!(
        uptime_respond(None),
        "{\"action\":\"sendError\",\"message\":\"Unable to calculate uptime\"}"
    );
    let started = SystemTime::now() - Duration::from_secs(5);
    let v: serde_json::Value = serde_json::from_str(&get_uptime_respond(&started)).unwrap();
    assert_eq!(v["action"], "sendUptime");
    assert!(v["uptime"].as_u64().unwrap() >= 5);
    let future = SystemTime::now() + Duration::from_secs(3600);
    let w: serde_json::Value = serde_json::from_str(&get_uptime_respond(&future)).unwrap();
    assert_eq!(w["action"], "sendError");
}

#[test]
fn about_page_heading() {
    assert_eq!(about_header("Thumbcloud", "Thumbcloud", "thumbcloud"), "About Thumbcloud");
    assert_eq!(about_header("THUMBCLOUD", "Thumbcloud", "thumbcloud"), "About THUMBCLOUD");
    assert_eq!(
        about_header("MyCloud", "Thumbcloud", "thumbcloud"),
        "About MyCloud (based on Thumbcloud)"
    );
}

#[test]
fn bind_error_names_error_and_address() {
    let m = bind_error_message("Address already in use (os error 98)", "127.0.0.1:8080");
    assert!(m.starts_with("\n\n            BIND ERROR: \"Address already in use (os error 98)\" \n"));
    assert!(m.contains("Can not bind server to: 127.0.0.1:8080\n"));
    assert!(m.ends_with("-----\n            \n"));
}
