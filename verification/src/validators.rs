//! Identifier validators: stateless, total predicates over strings for
//! the protocol-significant tokens (nicknames, channels, servers,
//! masks, message sources).

use vstd::prelude::*;
use vstd::string::*;

use crate::error::ValidationError;
use crate::search::find_first;
use crate::search::lemma_find_first;
use crate::search::lemma_find_first_at;
use crate::search::lemma_find_first_contains;

verus! {

/// Position of the first occurrence of `c` in `s`, or `None`.
pub fn find_char_index(s: &str, c: char) -> (r: Option<usize>)
    ensures
        match r {
            Some(i) => find_first(s@, c) == Some(i as int),
            None => find_first(s@, c) is None,
        },
{
    let n = s.unicode_len();
    let mut i: usize = 0;
    while i < n
        invariant
            n == s@.len(),
            i <= n,
            forall|j: int| 0 <= j < i ==> s@[j] != c,
        decreases n - i,
    {
        if s.get_char(i) == c {
            proof {
                lemma_find_first_at(s@, c, i as int);
            }
            return Some(i);
        }
        i += 1;
    }
    proof {
        lemma_find_first(s@, c);
        if find_first(s@, c) is Some {
            let j = find_first(s@, c)->Some_0;
            assert(s@[j] == c);
        }
    }
    None
}

/// Whether `c` occurs in `s`.
pub fn str_contains_char(s: &str, c: char) -> (r: bool)
    ensures
        r == s@.contains(c),
{
    proof {
        lemma_find_first_contains(s@, c);
    }
    match find_char_index(s, c) {
        Some(_) => true,
        None => false,
    }
}

/// A server name is valid when it contains a dot.
pub open spec fn server_valid(s: Seq<char>) -> bool {
    s.contains('.')
}

/// Whether `s` names a server: it must contain `.`.
pub fn validate_server(s: &str) -> (r: bool)
    ensures
        r == server_valid(s@),
{
    str_contains_char(s, '.')
}

/// A server mask is valid when it contains a dot or a glob star.
pub open spec fn server_mask_valid(s: Seq<char>) -> bool {
    s.contains('.') || s.contains('*')
}

/// Whether `s` is a server mask: it must contain `.` or `*`.
pub fn validate_server_mask(s: &str) -> (r: bool)
    ensures
        r == server_mask_valid(s@),
{
    str_contains_char(s, '.') || str_contains_char(s, '*')
}

/// A message source of shape `nick[!user[@host]]`: no `:` anywhere,
/// and when both `!` and `@` occur, the first `!` precedes the first `@`.
pub open spec fn source_valid(s: Seq<char>) -> bool {
    !s.contains(':') && match (find_first(s, '!'), find_first(s, '@')) {
        (Some(e), Some(a)) => e < a,
        _ => true,
    }
}

/// A username is valid when it is non-empty, does not start with a
/// channel sigil (`#` or `&`), and contains none of `.`, `:`, `,`.
pub open spec fn username_valid(s: Seq<char>) -> bool {
    &&& s.len() > 0
    &&& s[0] != '#'
    &&& s[0] != '&'
    &&& !s.contains('.')
    &&& !s.contains(':')
    &&& !s.contains(',')
}

/// The reason reported when `username_valid` fails: emptiness and the
/// sigil rule are checked before the forbidden characters.
pub open spec fn username_error_message(s: Seq<char>) -> Seq<char> {
    if s.len() == 0 {
        "Username must not be empty."@
    } else if s[0] == '#' || s[0] == '&' {
        "Username must not have channel prefix."@
    } else {
        "Username must not contains '.', ',' or ':'."@
    }
}

/// Checks that `s` may serve as a username; on failure the error
/// carries the reason of `username_error_message`.
pub fn validate_username(username: &str) -> (r: Result<(), ValidationError>)
    ensures
        r is Ok <==> username_valid(username@),
        r matches Err(e) ==> e.message@ == username_error_message(username@),
{
    if username.unicode_len() == 0 {
        Err(ValidationError { message: String::from_str("Username must not be empty.") })
    } else if username.get_char(0) == '#' || username.get_char(0) == '&' {
        Err(ValidationError { message: String::from_str("Username must not have channel prefix.") })
    } else if !str_contains_char(username, '.') && !str_contains_char(username, ':')
        && !str_contains_char(username, ',') {
        Ok(())
    } else {
        Err(
            ValidationError {
                message: String::from_str("Username must not contains '.', ',' or ':'."),
            },
        )
    }
}

/// A channel name is valid when it starts with `#` or `&` and contains
/// neither `:` nor `,`.
pub open spec fn channel_valid(s: Seq<char>) -> bool {
    &&& s.len() > 0
    &&& (s[0] == '#' || s[0] == '&')
    &&& !s.contains(':')
    &&& !s.contains(',')
}

/// Checks that `s` may name a channel.
pub fn validate_channel(channel: &str) -> (r: Result<(), ValidationError>)
    ensures
        r is Ok <==> channel_valid(channel@),
        r matches Err(e) ==> e.message@ == (
        "Channel name must have '#' or '&' at start and must not contains ',' or ':'."
        )@,
{
    if channel.unicode_len() != 0 && !str_contains_char(channel, ':') && !str_contains_char(
        channel,
        ',',
    ) && (channel.get_char(0) == '#' || channel.get_char(0) == '&') {
        Ok(())
    } else {
        Err(
            ValidationError {
                message: String::from_str(
                    "Channel name must have '#' or '&' at start and must not contains ',' or ':'.",
                ),
            },
        )
    }
}

/// A rank prefix decorates a nickname in channel listings.
pub open spec fn is_rank_prefix(c: char) -> bool {
    c == '~' || c == '@' || c == '%' || c == '+'
}

/// Left-to-right scan of `s` from position `i`: rank prefixes and `&`
/// are skipped; the scan decides at the first other character. A `#`
/// there makes a channel if anything follows it; any other character
/// makes a local channel exactly when the character just before it was
/// `&`. Running off the end decides against.
pub open spec fn prefixed_scan_ok(s: Seq<char>, i: int) -> bool
    decreases s.len() - i,
{
    if i < 0 || i >= s.len() {
        false
    } else if is_rank_prefix(s[i]) || s[i] == '&' {
        prefixed_scan_ok(s, i + 1)
    } else if s[i] == '#' {
        i + 1 < s.len()
    } else {
        i > 0 && s[i - 1] == '&'
    }
}

/// A channel name that may carry rank prefixes (`~`, `@`, `%`, `+`),
/// with a lone leading `&` acting as both rank prefix and local-channel
/// sigil.
pub open spec fn prefixed_channel_valid(s: Seq<char>) -> bool {
    &&& s.len() > 0
    &&& !s.contains(':')
    &&& !s.contains(',')
    &&& prefixed_scan_ok(s, 0)
}

/// Checks that `s` is a channel name, possibly decorated with rank
/// prefixes.
pub fn validate_prefixed_channel(channel: &str) -> (r: bool)
    ensures
        r == prefixed_channel_valid(channel@),
{
    let n = channel.unicode_len();
    if n == 0 || str_contains_char(channel, ':') || str_contains_char(channel, ',') {
        return false;
    }
    let mut i: usize = 0;
    while i < n
        invariant
            n == channel@.len(),
            0 <= i <= n,
            n > 0,
            !channel@.contains(':'),
            !channel@.contains(','),
            prefixed_scan_ok(channel@, 0) == prefixed_scan_ok(channel@, i as int),
        decreases n - i,
    {
        let c = channel.get_char(i);
        if c == '~' || c == '@' || c == '%' || c == '+' || c == '&' {
            i += 1;
        } else if c == '#' {
            return i + 1 < n;
        } else {
            return i > 0 && channel.get_char(i - 1) == '&';
        }
    }
    false
}

/// Whether `s` is a well-shaped message source.
pub fn validate_source(s: &str) -> (r: bool)
    ensures
        r == source_valid(s@),
{
    proof {
        lemma_find_first_contains(s@, ':');
    }
    if str_contains_char(s, ':') {
        false
    } else {
        let excl = find_char_index(s, '!');
        let atchar = find_char_index(s, '@');
        match (excl, atchar) {
            (Some(excl_pos), Some(atchar_pos)) => excl_pos < atchar_pos,
            _ => true,
        }
    }
}

} // verus!
