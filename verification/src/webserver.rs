use vstd::prelude::*;
use crate::text::{lowercase, str_eq, to_lowercase};

verus! {

/// The heading of the about page: the server's name, and the package it is
/// based on when the user renamed it.
pub open spec fn about_heading(app_name: Seq<char>, crate_name: Seq<char>, package_name: Seq<char>) -> Seq<char> {
    if lowercase(app_name) == lowercase(package_name) {
        "About "@ + app_name
    } else {
        "About "@ + app_name + " (based on "@ + crate_name + ")"@
    }
}

/// A server that keeps the name of its package is introduced by that name
/// alone; one renamed to a name that differs from the package's even in
/// case-insensitive comparison also names the package it is based on.
pub proof fn law_about_heading(app_name: Seq<char>, crate_name: Seq<char>, package_name: Seq<char>)
    ensures
        about_heading(package_name, crate_name, package_name) == "About "@ + package_name,
        lowercase(app_name) != lowercase(package_name) ==> about_heading(
            app_name,
            crate_name,
            package_name,
        ) == "About "@ + app_name + " (based on "@ + crate_name + ")"@,
{
}

/// The heading of the about page for the server `app_name`, whose package
/// is `package_name` (`crate_name` is that name capitalized).
pub fn about_header(app_name: &str, crate_name: &str, package_name: &str) -> (r: String)
    ensures
        r@ == about_heading(app_name@, crate_name@, package_name@),
{
    let a = to_lowercase(app_name);
    let p = to_lowercase(package_name);
    let mut h = String::from_str("About ");
    h.append(app_name);
    if !str_eq(a.as_str(), p.as_str()) {
        h.append(" (based on ");
        h.append(crate_name);
        h.append(")");
    }
    h
}

} // verus!

verus! {

/// The message printed when the server cannot listen on its address, for
/// the error's text and the address.
pub open spec fn bind_error_text(error_text: Seq<char>, addr_text: Seq<char>) -> Seq<char> {
    "\n
            BIND ERROR: \""@ + error_text + "\" 
            --------------------------------------------------------------------
            Can not bind server to: "@ + addr_text + "
            
            Possible reasons for this error are:
            1. The given IP address is invalid or does not belong to your 
               computer
            2. The given Port number is already used by another programm
            3. The IP and Port number are valid however, your OS needs root 
               permission to use it, in which case `sudo thumbcloud` should work
            --------------------------------------------------------------------
            \n"@
}

/// The message printed when the server cannot listen on its address.
pub fn bind_error_message(error_text: &str, addr_text: &str) -> (r: String)
    ensures
        r@ == bind_error_text(error_text@, addr_text@),
{
    let mut m = String::from_str("\n
            BIND ERROR: \"");
    m.append(error_text);
    m.append("\" 
            --------------------------------------------------------------------
            Can not bind server to: ");
    m.append(addr_text);
    m.append("
            
            Possible reasons for this error are:
            1. The given IP address is invalid or does not belong to your 
               computer
            2. The given Port number is already used by another programm
            3. The IP and Port number are valid however, your OS needs root 
               permission to use it, in which case `sudo thumbcloud` should work
            --------------------------------------------------------------------
            \n");
    m
}

} // verus!
