use vstd::prelude::*;
use crate::text::push_char;

verus! {

/// Lower-case hexadecimal digit for `d < 16`.
pub open spec fn hex_digit(d: u32) -> char {
    if d < 10 {
        (('0' as u32) + d) as char
    } else {
        (('a' as u32) + d - 10) as char
    }
}

/// How serde_json writes one character inside a JSON string: `"` and `\` are
/// escaped with a backslash, the control characters below U+0020 with their
/// short escape or as `\u00XX`, every other character as itself.
pub open spec fn json_escape_char(c: char) -> Seq<char> {
    let u = c as u32;
    if c == '"' {
        seq!['\\', '"']
    } else if c == '\\' {
        seq!['\\', '\\']
    } else if u == 0x08 {
        seq!['\\', 'b']
    } else if u == 0x09 {
        seq!['\\', 't']
    } else if u == 0x0a {
        seq!['\\', 'n']
    } else if u == 0x0c {
        seq!['\\', 'f']
    } else if u == 0x0d {
        seq!['\\', 'r']
    } else if u < 0x20 {
        seq!['\\', 'u', '0', '0', hex_digit(u / 16), hex_digit(u % 16)]
    } else {
        seq![c]
    }
}

/// The escaped contents of a JSON string.
pub open spec fn json_escaped(s: Seq<char>) -> Seq<char>
    decreases s.len(),
{
    if s.len() == 0 {
        Seq::empty()
    } else {
        json_escaped(s.drop_last()) + json_escape_char(s.last())
    }
}

/// The escaped contents of a JSON string hold no control character, and
/// every `"` in them follows a backslash: they cannot end the string early.
pub proof fn law_json_escaped_safe(s: Seq<char>)
    ensures
        forall|k: int| 0 <= k < json_escaped(s).len() ==> #[trigger] json_escaped(s)[k] as u32 >= 0x20,
        forall|k: int|
            0 <= k < json_escaped(s).len() && #[trigger] json_escaped(s)[k] == '"' ==> k > 0
                && json_escaped(s)[k - 1] == '\\',
    decreases s.len(),
{
    if s.len() > 0 {
        law_json_escaped_safe(s.drop_last());
        let p = json_escaped(s.drop_last());
        let c = s.last();
        let e = json_escape_char(c);
        let u = c as u32;
        assert(json_escaped(s) == p + e);
        if u < 0x20 {
            assert(u / 16 < 16 && u % 16 < 16);
        }
        assert forall|k: int| 0 <= k < json_escaped(s).len() implies #[trigger] json_escaped(s)[k]
            as u32 >= 0x20 by {
            if k < p.len() {
                assert(json_escaped(s)[k] == p[k]);
            } else {
                assert(json_escaped(s)[k] == e[k - p.len()]);
            }
        }
        assert forall|k: int|
            0 <= k < json_escaped(s).len() && #[trigger] json_escaped(s)[k] == '"' implies k > 0
                && json_escaped(s)[k - 1] == '\\' by {
            if k < p.len() {
                assert(json_escaped(s)[k] == p[k]);
                assert(json_escaped(s)[k - 1] == p[k - 1]);
            } else {
                assert(json_escaped(s)[k] == e[k - p.len()]);
                assert(c == '"' && k == p.len() + 1);
                assert(json_escaped(s)[k - 1] == e[0]);
            }
        }
    }
}

/// A JSON string literal holding `s`, quotes included.
pub open spec fn json_string(s: Seq<char>) -> Seq<char> {
    seq!['"'] + json_escaped(s) + seq!['"']
}

/// `key:value` inside a JSON object; `value` is JSON text.
pub open spec fn json_member(key: Seq<char>, value: Seq<char>) -> Seq<char> {
    json_string(key) + seq![':'] + value
}

/// The texts of `items` separated by `sep`.
pub open spec fn joined(items: Seq<Seq<char>>, sep: char) -> Seq<char>
    decreases items.len(),
{
    if items.len() == 0 {
        Seq::empty()
    } else if items.len() == 1 {
        items[0]
    } else {
        joined(items.drop_last(), sep).push(sep) + items.last()
    }
}

/// A compact JSON object made of the given members, in order.
pub open spec fn json_object(members: Seq<Seq<char>>) -> Seq<char> {
    seq!['{'] + joined(members, ',') + seq!['}']
}

/// A compact JSON array made of the given elements, in order.
pub open spec fn json_array(items: Seq<Seq<char>>) -> Seq<char> {
    seq!['['] + joined(items, ',') + seq![']']
}

/// The decimal digits of `n`, without leading zeros.
pub open spec fn decimal(n: nat) -> Seq<char>
    decreases n,
{
    if n < 10 {
        seq![(('0' as u32) + n) as char]
    } else {
        decimal(n / 10).push((('0' as u32) + (n % 10)) as char)
    }
}

/// The number that a text of decimal digits denotes.
pub open spec fn digits_value(s: Seq<char>) -> int
    decreases s.len(),
{
    if s.len() == 0 {
        0
    } else {
        digits_value(s.drop_last()) * 10 + (s.last() as int - '0' as int)
    }
}

/// The decimal text of a number is made of the digits `0` to `9`, starts
/// with `0` only for zero itself, and denotes that number.
pub proof fn law_decimal(n: nat)
    ensures
        decimal(n).len() > 0,
        forall|k: int| 0 <= k < decimal(n).len() ==> '0' <= #[trigger] decimal(n)[k] <= '9',
        decimal(n)[0] == '0' ==> n == 0 && decimal(n).len() == 1,
        digits_value(decimal(n)) == n,
    decreases n,
{
    if n >= 10 {
        law_decimal(n / 10);
        let d = decimal(n / 10);
        assert(decimal(n).drop_last() == d);
        assert forall|k: int| 0 <= k < decimal(n).len() implies '0' <= #[trigger] decimal(n)[k]
            <= '9' by {
            if k < d.len() {
                assert(decimal(n)[k] == d[k]);
            }
        }
        assert(decimal(n)[0] == d[0]);
        assert(decimal(n).last() as int == '0' as int + n % 10);
        assert(n == (n / 10) * 10 + n % 10);
        assert(digits_value(decimal(n)) == digits_value(d) * 10 + (decimal(n).last() as int
            - '0' as int));
    } else {
        assert(decimal(n).drop_last().len() == 0);
        assert(digits_value(decimal(n).drop_last()) == 0);
        assert(decimal(n).last() as int == '0' as int + n);
    }
}

/// `serde_json::to_string` on a string slice. serde_json writes the string
/// between double quotes and escapes each character as `json_escape_char`
/// says (its `ESCAPE` table and `write_char_escape`). Writing into the `Vec`
/// that `to_string` uses cannot fail, so the result is never an error.
#[verifier::external_body]
pub(crate) fn json_quote(s: &str) -> (r: String)
    ensures
        r@ == json_string(s@),
{
    serde_json::to_string(s).unwrap_or_default()
}

/// `key:value` for a JSON object, `value` being JSON text.
pub fn member(key: &str, value: &str) -> (r: String)
    ensures
        r@ == json_member(key@, value@),
{
    let mut r = json_quote(key);
    push_char(&mut r, ':');
    r.append(value);
    r
}

/// `key:"value"` for a JSON object with a string value.
pub fn string_member(key: &str, value: &str) -> (r: String)
    ensures
        r@ == json_member(key@, json_string(value@)),
{
    let q = json_quote(value);
    member(key, q.as_str())
}

/// The texts of `items` separated by `sep`.
pub fn join_with(items: &Vec<String>, sep: char) -> (r: String)
    ensures
        r@ == joined(items.deep_view(), sep),
{
    let mut r = String::new();
    let n = items.len();
    let ghost dv = items.deep_view();
    for i in 0..n
        invariant
            n == items@.len(),
            dv == items.deep_view(),
            dv.len() == n,
            r@ == joined(dv.take(i as int), sep),
    {
        proof {
            assert(dv.take(i + 1).drop_last() == dv.take(i as int));
            assert(dv.take(i + 1).last() == items@[i as int]@);
        }
        if i > 0 {
            push_char(&mut r, sep);
        } else {
            assert(dv.take(i as int).len() == 0);
        }
        r.append(items[i].as_str());
    }
    assert(dv.take(n as int) == dv);
    r
}

/// A compact JSON object from its members.
pub fn object(members: &Vec<String>) -> (r: String)
    ensures
        r@ == json_object(members.deep_view()),
{
    let mut r = String::new();
    push_char(&mut r, '{');
    let body = join_with(members, ',');
    r.append(body.as_str());
    push_char(&mut r, '}');
    r
}

/// A compact JSON array from its elements.
pub fn array(items: &Vec<String>) -> (r: String)
    ensures
        r@ == json_array(items.deep_view()),
{
    let mut r = String::new();
    push_char(&mut r, '[');
    let body = join_with(items, ',');
    r.append(body.as_str());
    push_char(&mut r, ']');
    r
}

/// The decimal digits of `n`, as serde_json writes an unsigned number.
pub fn decimal_text(n: u64) -> (r: String)
    ensures
        r@ == decimal(n as nat),
    decreases n,
{
    if n < 10 {
        let mut r = String::new();
        let c = char_of_digit(n as u32);
        push_char(&mut r, c);
        r
    } else {
        let mut r = decimal_text(n / 10);
        let c = char_of_digit((n % 10) as u32);
        push_char(&mut r, c);
        r
    }
}

fn char_of_digit(d: u32) -> (c: char)
    requires
        d < 10,
    ensures
        c == (('0' as u32) + d) as char,
{
    if d == 0 { '0' }
    else if d == 1 { '1' }
    else if d == 2 { '2' }
    else if d == 3 { '3' }
    else if d == 4 { '4' }
    else if d == 5 { '5' }
    else if d == 6 { '6' }
    else if d == 7 { '7' }
    else if d == 8 { '8' }
    else { '9' }
}

} // verus!

verus! {

/// `{"action":"sendError","message":<message>}`.
pub open spec fn error_json(message: Seq<char>) -> Seq<char> {
    json_object(
        seq![
            json_member("action"@, json_string("sendError"@)),
            json_member("message"@, json_string(message)),
        ],
    )
}

/// A JSON object of two members.
pub fn object2(a: String, b: String) -> (r: String)
    ensures
        r@ == json_object(seq![a@, b@]),
{
    let mut members: Vec<String> = Vec::new();
    members.push(a);
    members.push(b);
    assert(members.deep_view() =~= seq![a@, b@]);
    object(&members)
}

/// A JSON object of three members.
pub fn object3(a: String, b: String, c: String) -> (r: String)
    ensures
        r@ == json_object(seq![a@, b@, c@]),
{
    let mut members: Vec<String> = Vec::new();
    members.push(a);
    members.push(b);
    members.push(c);
    assert(members.deep_view() =~= seq![a@, b@, c@]);
    object(&members)
}

/// The answer that reports an error to the client.
pub fn error_response(message: &str) -> (r: String)
    ensures
        r@ == error_json(message@),
{
    object2(string_member("action", "sendError"), string_member("message", message))
}

/// What `format!("{:?}", s)` writes for a string: `s` quoted, with the
/// characters that `char::escape_debug` escapes escaped.
pub uninterp spec fn debug_quoted(s: Seq<char>) -> Seq<char>;

/// `format!("{:?}", s)` for a string slice.
#[verifier::external_body]
pub(crate) fn debug_text(s: &str) -> (r: String)
    ensures
        r@ == debug_quoted(s@),
{
    format!("{:?}", s)
}

/// The message for a path that cannot be listed.
pub open spec fn unreadable_path_message(path_end: Seq<char>) -> Seq<char> {
    "Cannot read the given path: "@ + debug_quoted(path_end)
}

/// The answer for a path that cannot be listed.
pub fn unreadable_path_response(path_end: &str) -> (r: String)
    ensures
        r@ == error_json(unreadable_path_message(path_end@)),
{
    let mut m = String::from_str("Cannot read the given path: ");
    let d = debug_text(path_end);
    m.append(d.as_str());
    error_response(m.as_str())
}

} // verus!
