use vstd::prelude::*;
use std::time::{Duration, SystemTime, SystemTimeError};
use crate::json::{decimal, decimal_text, error_json, error_response, json_member, json_object,
    json_string, member, object2, string_member};
use crate::text::str_eq;

verus! {

/// `std::time::SystemTimeError`: carried, never looked into.
#[verifier::external_type_specification]
#[verifier::external_body]
pub struct ExSystemTimeError(SystemTimeError);

/// The name shown for an operating system, from the `target_os` value it
/// was built for.
pub open spec fn os_name(target_os: Seq<char>) -> Seq<char> {
    if target_os == "windows"@ {
        "Windows"@
    } else if target_os == "macos"@ {
        "macOS"@
    } else if target_os == "ios"@ {
        "iOS"@
    } else if target_os == "linux"@ {
        "Linux"@
    } else if target_os == "android"@ {
        "Android"@
    } else if target_os == "freebsd"@ {
        "FreeBSD"@
    } else if target_os == "dragonfly"@ {
        "DragonFly BSD"@
    } else if target_os == "bitrig"@ {
        "Bitrig"@
    } else if target_os == "openbsd"@ {
        "OpenBSD"@
    } else if target_os == "netbsd"@ {
        "NetBSD"@
    } else {
        "Unknown"@
    }
}

/// The name of the operating system `target_os` (as `std::env::consts::OS`
/// gives it).
pub fn get_os(target_os: &str) -> (r: &'static str)
    ensures
        r@ == os_name(target_os@),
{
    if str_eq(target_os, "windows") {
        "Windows"
    } else if str_eq(target_os, "macos") {
        "macOS"
    } else if str_eq(target_os, "ios") {
        "iOS"
    } else if str_eq(target_os, "linux") {
        "Linux"
    } else if str_eq(target_os, "android") {
        "Android"
    } else if str_eq(target_os, "freebsd") {
        "FreeBSD"
    } else if str_eq(target_os, "dragonfly") {
        "DragonFly BSD"
    } else if str_eq(target_os, "bitrig") {
        "Bitrig"
    } else if str_eq(target_os, "openbsd") {
        "OpenBSD"
    } else if str_eq(target_os, "netbsd") {
        "NetBSD"
    } else {
        "Unknown"
    }
}

/// The uptime answer: the whole seconds elapsed, or an error where they
/// could not be measured.
pub open spec fn uptime_json(elapsed_secs: Option<u64>) -> Seq<char> {
    match elapsed_secs {
        Some(s) => json_object(
            seq![
                json_member("action"@, json_string("sendUptime"@)),
                json_member("uptime"@, decimal(s as nat)),
            ],
        ),
        None => error_json("Unable to calculate uptime"@),
    }
}

/// The uptime answer for the given number of elapsed seconds.
pub fn uptime_respond(elapsed_secs: Option<u64>) -> (r: String)
    ensures
        r@ == uptime_json(elapsed_secs),
{
    match elapsed_secs {
        Some(s) => {
            let d = decimal_text(s);
            object2(string_member("action", "sendUptime"), member("uptime", d.as_str()))
        },
        None => error_response("Unable to calculate uptime"),
    }
}

/// `SystemTime::elapsed`: reads the clock, so nothing is promised of it.
#[verifier::external_body]
fn time_elapsed(t: &SystemTime) -> Result<Duration, SystemTimeError> {
    t.elapsed()
}

/// `Duration::as_secs`.
#[verifier::external_body]
fn whole_seconds(d: &Duration) -> u64 {
    d.as_secs()
}

/// The uptime answer for a server started at `start_time`. The clock
/// decides the number reported; whatever it gives, the answer has the form
/// of `uptime_json`.
pub fn get_uptime_respond(start_time: &SystemTime) -> (r: String)
    ensures
        exists|e: Option<u64>| r@ == uptime_json(e),
{
    let elapsed = match time_elapsed(start_time) {
        Ok(d) => Some(whole_seconds(&d)),
        Err(_) => None,
    };
    uptime_respond(elapsed)
}

} // verus!
