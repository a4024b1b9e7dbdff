use vstd::prelude::*;
use crate::config::Config;
use crate::json::{error_json, error_response, unreadable_path_message, unreadable_path_response};
use crate::files::browse::{join_outcome, secure_join};
use crate::files::{get_file_respond, listing_json, DirEntryInfo};
use crate::paths::{join_path, path_join};
use crate::system::{get_uptime_respond, uptime_json};
use crate::text::{chars_of, opt_view, str_eq, string_between};

verus! {

/// What the server reads of a message from a client (a JSON object).
pub struct ClientRequest {
    /// The `action` member when it is a JSON string.
    pub action: Option<String>,
    /// The `action` member as `{:?}` writes the JSON value (`Null` when absent).
    pub action_debug: String,
    /// The `path` member as JSON text (`null` when absent).
    pub path_text: String,
}

/// The next step in answering a client.
pub enum DecodeStep {
    /// Send this answer.
    Reply(String),
    /// Resolve `joined` to its canonical path, then call `check_listing_path`.
    Resolve { joined: String, path_end: String },
    /// List the directory `path` (inside the shared directory), then answer
    /// with `files::get_file_respond` for `path_end`.
    List { path: String, path_end: String },
}

/// The requested path: the JSON text of the `path` member without its first
/// and last character (the quotes of a JSON string).
pub open spec fn requested_path(path_text: Seq<char>) -> Seq<char> {
    let u = path_text.drop_first();
    if u.len() > 0 {
        u.drop_last()
    } else {
        u
    }
}

/// A path sent as a JSON string `"docs/2020"` is requested as the text
/// between its quotes, whole.
pub proof fn law_requested_path_unquoted(path: Seq<char>)
    ensures
        requested_path(seq!['"'] + path + seq!['"']) == path,
{
    let t = seq!['"'] + path + seq!['"'];
    assert(t.drop_first() == path.push('"'));
    assert(path.push('"').drop_last() == path);
}

/// The answer to a message whose action is not known.
pub open spec fn unknown_action_json(action_debug: Seq<char>) -> Seq<char> {
    error_json("Unknown action from client: "@ + action_debug)
}

/// What `decode` does: a listing request leads to resolving the requested
/// path under the shared directory, an uptime request is answered, any other
/// action is refused.
pub open spec fn decoded(
    action: Option<Seq<char>>,
    action_debug: Seq<char>,
    path_text: Seq<char>,
    config_path: Seq<char>,
    r: DecodeStep,
) -> bool {
    if action == Some("requestFilelist"@) {
        r matches DecodeStep::Resolve { joined, path_end } && path_end@ == requested_path(path_text)
            && joined@ == path_join(config_path, requested_path(path_text))
    } else if action == Some("requestUptime"@) {
        r matches DecodeStep::Reply(t) && exists|e: Option<u64>| t@ == uptime_json(e)
    } else {
        r matches DecodeStep::Reply(t) && t@ == unknown_action_json(action_debug)
    }
}

/// A listing request for the JSON string `"p"` goes on to resolve the shared
/// directory joined with `p`, and will answer for `p` itself; an uptime
/// request is answered at once with the uptime; any other action is
/// refused with an error that names it.
pub proof fn law_decoded_request(
    action: Option<Seq<char>>,
    action_debug: Seq<char>,
    path: Seq<char>,
    config_path: Seq<char>,
    r: DecodeStep,
)
    requires
        decoded(action, action_debug, seq!['"'] + path + seq!['"'], config_path, r),
    ensures
        action == Some("requestFilelist"@) ==> (r matches DecodeStep::Resolve { joined, path_end }
            && path_end@ == path && joined@ == path_join(config_path, path)),
        action != Some("requestFilelist"@) ==> r is Reply,
        action != Some("requestFilelist"@) && action != Some("requestUptime"@) ==> (r matches DecodeStep::Reply(t)
            && t@ == error_json("Unknown action from client: "@ + action_debug)),
{
    law_requested_path_unquoted(path);
}

/// The first step in answering a message from a client.
pub fn decode(input: &ClientRequest, config: &Config) -> (r: DecodeStep)
    requires
        input.path_text@.len() > 0,
    ensures
        decoded(opt_view(input.action), input.action_debug@, input.path_text@, config.path@, r),
{
    proof {
        reveal_strlit("requestFilelist");
        reveal_strlit("requestUptime");
        assert("requestUptime"@.len() != "requestFilelist"@.len());
    }
    let (is_list, is_uptime) = match &input.action {
        Some(a) => (str_eq(a.as_str(), "requestFilelist"), str_eq(a.as_str(), "requestUptime")),
        None => (false, false),
    };
    if is_list {
        let v = chars_of(input.path_text.as_str());
        let n = v.len();
        let end: usize = if n >= 2 {
            n - 1
        } else {
            1
        };
        let path_end = string_between(&v, 1, end);
        assert(path_end@ == requested_path(input.path_text@)) by {
            let u = v@.drop_first();
            if u.len() > 0 {
                assert(u.drop_last() == v@.subrange(1, n - 1));
            } else {
                assert(u == v@.subrange(1, 1));
            }
        }
        let joined = join_path(config.path.as_str(), path_end.as_str());
        DecodeStep::Resolve { joined, path_end }
    } else if is_uptime {
        let t = get_uptime_respond(&config.start_time);
        DecodeStep::Reply(t)
    } else {
        let mut m = String::from_str("Unknown action from client: ");
        m.append(input.action_debug.as_str());
        DecodeStep::Reply(error_response(m.as_str()))
    }
}

/// Whether serde_json reads `input` as a JSON value.
pub uninterp spec fn json_parses(input: Seq<char>) -> bool;

/// The `action` member of the JSON value `input`, when it is a string.
pub uninterp spec fn json_action(input: Seq<char>) -> Option<Seq<char>>;

/// The `action` member of the JSON value `input` as `{:?}` writes a
/// `serde_json::Value` (`Null` when absent).
pub uninterp spec fn json_action_debug(input: Seq<char>) -> Seq<char>;

/// The `path` member of the JSON value `input` as JSON text (`null` when
/// absent).
pub uninterp spec fn json_path_text(input: Seq<char>) -> Seq<char>;

/// `serde_json::from_str::<Value>` on a client's message, then the members
/// the server reads: `action` as a string (`Value::as_str`), `action` as
/// `{:?}` writes it, and `path` as JSON text (`Value::to_string`). The JSON
/// text of a value is never empty.
#[verifier::external_body]
pub fn parse_request(input: &str) -> (r: Option<ClientRequest>)
    ensures
        r is Some <==> json_parses(input@),
        r matches Some(c) ==> opt_view(c.action) == json_action(input@) && c.action_debug@
            == json_action_debug(input@) && c.path_text@ == json_path_text(input@)
            && c.path_text@.len() > 0,
{
    match serde_json::from_str::<serde_json::Value>(input) {
        Ok(v) => Some(ClientRequest {
            action: v["action"].as_str().map(|a| a.to_string()),
            action_debug: format!("{:?}", v["action"]),
            path_text: v["path"].to_string(),
        }),
        Err(_) => None,
    }
}

/// The first step in answering the text of a message from a client; `None`
/// when it is not JSON.
pub fn decode_text(input: &str, config: &Config) -> (r: Option<DecodeStep>)
    ensures
        r is None <==> !json_parses(input@),
        r matches Some(step) ==> decoded(
            json_action(input@),
            json_action_debug(input@),
            json_path_text(input@),
            config.path@,
            step,
        ),
{
    match parse_request(input) {
        None => None,
        Some(request) => Some(decode(&request, config)),
    }
}

/// The second step of a listing request, from the canonical form of the
/// shared directory and of the joined path (`None` where one could not be
/// resolved): the directory is listed only when it lies inside the shared
/// directory.
pub fn check_listing_path(
    path_end: String,
    canonical_base: Option<String>,
    canonical: Option<String>,
) -> (r: DecodeStep)
    ensures
        match join_outcome(opt_view(canonical_base), opt_view(canonical)) {
            Ok(c) => r matches DecodeStep::List { path, path_end: p } && path@ == c && p@
                == path_end@,
            Err(_) => r matches DecodeStep::Reply(t) && t@ == error_json(
                unreadable_path_message(path_end@),
            ),
        },
{
    match secure_join(canonical_base, canonical) {
        Ok(c) => DecodeStep::List { path: c, path_end },
        Err(_) => DecodeStep::Reply(unreadable_path_response(path_end.as_str())),
    }
}

/// The answer to a listing request for `path_end`, from the canonical form
/// of the shared directory and of the joined path, and what reading the
/// directory gave: a directory is listed only when it lies inside the shared
/// directory.
pub fn listing_answer(
    path_end: &str,
    canonical_base: Option<String>,
    canonical: Option<String>,
    entries: Option<&Vec<DirEntryInfo>>,
) -> (r: String)
    ensures
        r@ == match join_outcome(opt_view(canonical_base), opt_view(canonical)) {
            Ok(_) => match entries {
                None => error_json(unreadable_path_message(path_end@)),
                Some(es) => listing_json(path_end@, es@),
            },
            Err(_) => error_json(unreadable_path_message(path_end@)),
        },
{
    match secure_join(canonical_base, canonical) {
        Ok(_) => get_file_respond(path_end, entries),
        Err(_) => unreadable_path_response(path_end),
    }
}

} // verus!
