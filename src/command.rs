//! Reading a command out of a chat message.
use vstd::prelude::*;
use regex::Regex;

verus! {

/// Whether `c` has Unicode's White_Space property: the controls U+0009 to
/// U+000D, the space, U+0085, U+00A0, U+1680, U+2000 to U+200A, U+2028,
/// U+2029, U+202F, U+205F and U+3000.
pub open spec fn white_space_of(c: char) -> bool {
    let u = c as u32;
    ||| 0x09 <= u <= 0x0d
    ||| u == 0x20
    ||| u == 0x85
    ||| u == 0xa0
    ||| u == 0x1680
    ||| 0x2000 <= u <= 0x200a
    ||| u == 0x2028
    ||| u == 0x2029
    ||| u == 0x202f
    ||| u == 0x205f
    ||| u == 0x3000
}

/// Relies on `char::is_whitespace`: true exactly for the characters with the
/// White_Space property.
#[verifier::external_body]
fn is_white_space(c: char) -> (r: bool)
    ensures
        r == white_space_of(c),
{
    c.is_whitespace()
}

/// What separates a command's name from its arguments.
pub open spec fn separator(c: char) -> bool {
    white_space_of(c) || c == '\n'
}

/// Checks for whitespace or newline characters.
pub fn check_whitespace(x: char) -> (r: bool)
    ensures
        r == separator(x),
{
    is_white_space(x) || x == '\n'
}

/// The position of the first separator in `s`.
pub open spec fn first_separator(s: Seq<char>) -> Option<int>
    decreases s.len(),
{
    if s.len() == 0 {
        None
    } else if separator(s[0]) {
        Some(0)
    } else {
        match first_separator(s.drop_first()) {
            Some(i) => Some(i + 1),
            None => None,
        }
    }
}

/// Relies on `str::strip_prefix`: the rest of `s` when it starts with `prefix`.
#[verifier::external_body]
fn strip_prefix(s: &str, prefix: &str) -> (r: Option<String>)
    ensures
        r is Some <==> prefix@.is_prefix_of(s@),
        r matches Some(t) ==> t@ == s@.subrange(prefix@.len() as int, s@.len() as int),
{
    s.strip_prefix(prefix).map(|t| t.to_string())
}

/// Relies on `str::split_once` with `check_whitespace` as the pattern: the
/// text before and the text after the first separator.
#[verifier::external_body]
fn split_at_separator(s: &str) -> (r: Option<(String, String)>)
    ensures
        match first_separator(s@) {
            Some(i) => r matches Some(p) && p.0@ == s@.subrange(0, i) && p.1@ == s@.subrange(i + 1, s@.len() as int),
            None => r is None,
        },
{
    s.split_once(check_whitespace).map(|(a, b)| (a.to_string(), b.to_string()))
}

/// The arguments of a `set` command: the message is `prefix`, then `set`,
/// then a separator, then the arguments.
pub open spec fn set_arguments(message: Seq<char>, prefix: Seq<char>) -> Option<Seq<char>> {
    if prefix.is_prefix_of(message) {
        let rest = message.subrange(prefix.len() as int, message.len() as int);
        match first_separator(rest) {
            Some(i) => if rest.subrange(0, i) == seq!['s', 'e', 't'] {
                Some(rest.subrange(i + 1, rest.len() as int))
            } else {
                None
            },
            None => None,
        }
    } else {
        None
    }
}

/// The arguments of a `set` command in `message`, if it is one.
pub fn set_command_arguments(message: &str, prefix: &str) -> (r: Option<String>)
    ensures
        r.deep_view() == set_arguments(message@, prefix@),
{
    let rest = match strip_prefix(message, prefix) {
        Some(rest) => rest,
        None => {
            return None;
        },
    };
    match split_at_separator(rest.as_str()) {
        Some((name, args)) => {
            let set = String::from_str("set");
            proof {
                reveal_strlit("set");
                assert(set@ =~= seq!['s', 'e', 't']);
            }
            if name == set {
                Some(args)
            } else {
                None
            }
        },
        None => None,
    }
}

/// A fenced block of YAML in a message; its first group is the YAML.
pub const YAML_BLOCK: &'static str = "```yaml\n([\\s\\S]*?)\n```";

/// What the first group of the leftmost match of `pattern` in `text` holds,
/// if there is a match and the group took part in it.
pub uninterp spec fn first_group_of(pattern: Seq<char>, text: Seq<char>) -> Option<Seq<char>>;

/// Relies on `regex::Regex::new`, `Regex::captures` and `Captures::get`:
/// the fenced-block pattern compiles, so `Regex::new` does not fail on it,
/// and the first group of its leftmost match in `text` depends on the pattern
/// and the text alone.
#[verifier::external_body]
fn first_group(pattern: &str, text: &str) -> (r: Option<String>)
    requires
        pattern@ == YAML_BLOCK@,
    ensures
        r.deep_view() == first_group_of(pattern@, text@),
{
    let re = Regex::new(pattern).unwrap();
    re.captures(text).and_then(|c| c.get(1)).map(|m| m.as_str().to_string())
}

/// The configuration text of a command's arguments, given the YAML block
/// found in them: the block where there is one, else the arguments whole.
pub fn configuration_text(block: Option<String>, arguments: &str) -> (r: String)
    ensures
        r@ == (match block {
            Some(b) => b@,
            None => arguments@,
        }),
{
    match block {
        Some(b) => b,
        None => arguments.to_string(),
    }
}

/// The configuration text of a command's arguments: the content of its first
/// fenced YAML block, or the arguments whole where there is none.
pub fn yaml_source(arguments: &str) -> (r: String)
    ensures
        r@ == (match first_group_of(YAML_BLOCK@, arguments@) {
            Some(b) => b,
            None => arguments@,
        }),
{
    let block = first_group(YAML_BLOCK, arguments);
    configuration_text(block, arguments)
}

} // verus!
