use vstd::prelude::*;
use std::time::SystemTime;
use crate::text::{all_white, chars_of, is_blank, law_trimmed_empty, string_of, trimmed};

verus! {

/// `std::time::SystemTime`: carried through the library, never looked into.
#[verifier::external_type_specification]
#[verifier::external_body]
pub struct ExSystemTime(SystemTime);

/// `SystemTime::clone`: `SystemTime` is `Copy`, so the clone is the same value.
pub assume_specification[ <SystemTime as Clone>::clone ](t: &SystemTime) -> (r: SystemTime)
    ensures
        r == *t,
;

/// An IP address, version 4 or 6.
#[derive(Clone, Copy, Debug, PartialEq, Eq, Structural)]
pub enum IpAddress {
    V4(u8, u8, u8, u8),
    V6(u16, u16, u16, u16, u16, u16, u16, u16),
}

/// An IP address with a port; for version 6 also the flow label and scope.
#[derive(Clone, Copy, Debug, PartialEq, Eq, Structural)]
pub struct SocketAddress {
    pub ip: IpAddress,
    pub port: u16,
    pub flowinfo: u32,
    pub scope_id: u32,
}

/// The settings the server runs with.
#[derive(Clone)]
pub struct Config {
    /// The shared directory.
    pub path: String,
    /// Where the server listens.
    pub addr: SocketAddress,
    /// The name shown to visitors.
    pub app_name: String,
    /// The package name with its first character in upper case.
    pub crate_name: String,
    /// When the server started.
    pub start_time: SystemTime,
}

/// The port the server uses when no address is given.
pub const DEFAULT_PORT: u16 = 8080;

/// The loopback address, 127.0.0.1.
pub open spec fn loopback() -> IpAddress {
    IpAddress::V4(127u8, 0u8, 0u8, 1u8)
}

/// The address chosen from the first address the given one resolved to, if
/// any, and from the machine's own IP address, if it could be found.
pub open spec fn chosen_address(resolved: Option<SocketAddress>, local_ip: Option<IpAddress>) -> SocketAddress {
    match resolved {
        Some(a) => a,
        None => SocketAddress {
            ip: match local_ip {
                Some(ip) => ip,
                None => loopback(),
            },
            port: 8080,
            flowinfo: 0,
            scope_id: 0,
        },
    }
}

/// The server listens where the given address resolved to; where it gave
/// none that resolved, on port 8080 of the machine's own address, or of
/// 127.0.0.1 where that is unknown.
pub proof fn law_listen_address(resolved: Option<SocketAddress>, local_ip: Option<IpAddress>)
    ensures
        resolved matches Some(a) ==> chosen_address(resolved, local_ip) == a,
        resolved is None ==> chosen_address(resolved, local_ip).port == 8080,
        resolved is None ==> chosen_address(resolved, local_ip).ip == match local_ip {
            Some(ip) => ip,
            None => IpAddress::V4(127u8, 0u8, 0u8, 1u8),
        },
{
}

/// The address to listen on: the address the user gave when it resolved
/// (`resolved` is the first address it resolved to), otherwise port 8080 on
/// the machine's IP address (`local_ip`, as `machine_ip::get` finds it), or
/// on 127.0.0.1 when that is unknown.
pub fn get_address(resolved: Option<SocketAddress>, local_ip: Option<IpAddress>) -> (r: SocketAddress)
    ensures
        r == chosen_address(resolved, local_ip),
{
    match resolved {
        Some(a) => a,
        None => {
            let ip = match local_ip {
                Some(ip) => ip,
                None => IpAddress::V4(127u8, 0u8, 0u8, 1u8),
            };
            SocketAddress { ip, port: DEFAULT_PORT, flowinfo: 0, scope_id: 0 }
        },
    }
}

/// The name a user chose, or the package name where it is blank.
pub open spec fn corrected_name(app_name: Seq<char>, crate_name: Seq<char>) -> Seq<char> {
    if all_white(app_name) {
        crate_name
    } else {
        app_name
    }
}

/// A blank name (empty or whitespace only) is replaced by `crate_name`.
pub fn correct_invalid_name<'a>(app_name: &'a str, crate_name: &'a str) -> (r: &'a str)
    ensures
        r@ == corrected_name(app_name@, crate_name@),
{
    if is_blank(app_name) {
        crate_name
    } else {
        app_name
    }
}

/// A name the user chose is kept unless trimming its whitespace leaves
/// nothing, and then the package name takes its place.
pub proof fn law_corrected_name(app_name: Seq<char>, crate_name: Seq<char>)
    ensures
        corrected_name(app_name, crate_name) == if trimmed(app_name).len() == 0 {
            crate_name
        } else {
            app_name
        },
{
    law_trimmed_empty(app_name);
}

/// A name corrected this way is blank only when the package name is.
pub proof fn lemma_corrected_name_not_blank(app_name: Seq<char>, crate_name: Seq<char>)
    requires
        !all_white(crate_name),
    ensures
        !all_white(corrected_name(app_name, crate_name)),
{
}

/// The first character of what `char::to_uppercase` yields for `c`.
pub uninterp spec fn upper_first(c: char) -> char;

/// `c.to_uppercase().next()`; the iterator always yields at least one character.
#[verifier::external_body]
fn first_uppercase(c: char) -> (r: char)
    ensures
        r == upper_first(c),
{
    c.to_uppercase().next().unwrap_or(c)
}

/// `s` with its first character mapped to upper case.
pub open spec fn capitalized(s: Seq<char>) -> Seq<char>
    recommends
        s.len() > 0,
{
    s.update(0, upper_first(s[0]))
}

/// Capitalizing changes the first character alone: the text keeps its
/// length and every later character.
pub proof fn law_capitalized(s: Seq<char>)
    requires
        s.len() > 0,
    ensures
        capitalized(s).len() == s.len(),
        capitalized(s)[0] == upper_first(s[0]),
        forall|k: int| 1 <= k < s.len() ==> #[trigger] capitalized(s)[k] == s[k],
{
}

/// The package name with its first character in upper case.
pub fn capitalize(s: &str) -> (r: String)
    requires
        s@.len() > 0,
    ensures
        r@ == capitalized(s@),
{
    let mut v = chars_of(s);
    let c = first_uppercase(v[0]);
    v.set(0, c);
    string_of(v.as_slice())
}

impl Config {
    /// The settings from the command line: the shared directory `input`,
    /// the address (`resolved` is the first address the given one resolved
    /// to, `local_ip` the machine's address), the optional server name, the
    /// package name and the start time.
    pub fn from_matches(
        input: &str,
        resolved: Option<SocketAddress>,
        local_ip: Option<IpAddress>,
        name: Option<&str>,
        package_name: &str,
        start_time: SystemTime,
    ) -> (r: Config)
        requires
            package_name@.len() > 0,
        ensures
            r.path@ == input@,
            r.addr == chosen_address(resolved, local_ip),
            r.crate_name@ == capitalized(package_name@),
            r.app_name@ == match name {
                Some(n) => corrected_name(n@, capitalized(package_name@)),
                None => capitalized(package_name@),
            },
            r.start_time == start_time,
    {
        let crate_name = capitalize(package_name);
        let app_name = match name {
            Some(n) => String::from_str(correct_invalid_name(n, crate_name.as_str())),
            None => crate_name.clone(),
        };
        Config {
            path: String::from_str(input),
            addr: get_address(resolved, local_ip),
            app_name,
            crate_name,
            start_time,
        }
    }
}

/// Check of the shared directory given on the command line, from what the
/// file system says of it.
pub fn is_valid_path(input: &str, is_dir: bool, is_file: bool) -> (r: Result<(), String>)
    ensures
        is_dir ==> r is Ok,
        !is_dir && is_file ==> (r matches Err(m)
            && m@ == "The path pointed to a file, but only directories can be shared"@),
        !is_dir && !is_file ==> (r matches Err(m) && m@ == "Could not locate the given directory: "@
            + input@),
{
    if is_dir {
        return Ok(());
    }
    if is_file {
        return Err(String::from_str("The path pointed to a file, but only directories can be shared"));
    }
    let mut m = String::from_str("Could not locate the given directory: ");
    m.append(input);
    Err(m)
}

/// Check of the address given on the command line, from whether it resolved
/// to at least one socket address.
pub fn is_valid_address(resolves: bool) -> (r: Result<(), String>)
    ensures
        resolves ==> r is Ok,
        !resolves ==> (r matches Err(m) && m@ == "Invalid socket address"@),
{
    if resolves {
        Ok(())
    } else {
        Err(String::from_str("Invalid socket address"))
    }
}

} // verus!
