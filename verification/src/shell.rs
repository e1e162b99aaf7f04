//! Helpers for a command shell on top of a session: paths relative to a
//! current directory, and the age of a file in words.

use vstd::prelude::*;
use vstd::string::*;

verus! {

/// The position of the last `/` of `s`, or -1 where it has none.
pub open spec fn last_slash(s: Seq<char>) -> int
    decreases s.len(),
{
    if s.len() == 0 {
        -1
    } else if s.last() == '/' {
        s.len() - 1
    } else {
        last_slash(s.drop_last())
    }
}

/// The length of `s` without the slashes at its end.
pub open spec fn trimmed_len(s: Seq<char>) -> int
    decreases s.len(),
{
    if s.len() == 0 {
        0
    } else if s.last() == '/' {
        trimmed_len(s.drop_last())
    } else {
        s.len() as int
    }
}

/// The directory above `current`: what stands before its last `/`, or
/// the root where nothing does.
pub open spec fn parent_of(current: Seq<char>) -> Seq<char> {
    let k = last_slash(current);
    if k > 0 {
        current.subrange(0, k)
    } else {
        seq!['/']
    }
}

/// The path that `path` names when the current directory is `current`: an
/// absolute path names itself, `.` the current directory, `..` the one
/// above it, and anything else a path below the current directory.
pub open spec fn resolved(path: Seq<char>, current: Seq<char>) -> Seq<char> {
    if path.len() > 0 && path[0] == '/' {
        path
    } else if path == seq!['.'] {
        current
    } else if path == seq!['.', '.'] {
        parent_of(current)
    } else {
        current.subrange(0, trimmed_len(current)) + seq!['/'] + path
    }
}

fn find_last_slash(s: &str) -> (r: Option<usize>)
    ensures
        match r {
            Some(k) => k as int == last_slash(s@) && k < s@.len(),
            None => last_slash(s@) == -1,
        },
{
    let mut i: usize = s.unicode_len();
    assert(s@.take(i as int) =~= s@);
    while i > 0
        invariant
            i <= s@.len(),
            last_slash(s@) == last_slash(s@.take(i as int)),
        decreases i,
    {
        if s.get_char(i - 1) == '/' {
            return Some(i - 1);
        }
        assert(s@.take(i as int).drop_last() =~= s@.take(i as int - 1));
        i -= 1;
    }
    None
}

fn find_trimmed_len(s: &str) -> (n: usize)
    ensures
        n as int == trimmed_len(s@),
        n <= s@.len(),
{
    let mut i: usize = s.unicode_len();
    assert(s@.take(i as int) =~= s@);
    while i > 0
        invariant
            i <= s@.len(),
            trimmed_len(s@) == trimmed_len(s@.take(i as int)),
        decreases i,
    {
        if s.get_char(i - 1) != '/' {
            return i;
        }
        assert(s@.take(i as int).drop_last() =~= s@.take(i as int - 1));
        i -= 1;
    }
    0
}

/// Resolves `path` against the current directory.
pub fn resolve_path(path: &str, current_path: &str) -> (full: String)
    ensures
        full@ == resolved(path@, current_path@),
{
    proof {
        reveal_strlit("/");
    }
    let n = path.unicode_len();
    if n > 0 && path.get_char(0) == '/' {
        return String::from_str(path);
    }
    if n == 1 && path.get_char(0) == '.' {
        assert(path@ =~= seq!['.']);
        return String::from_str(current_path);
    }
    if n == 2 && path.get_char(0) == '.' && path.get_char(1) == '.' {
        assert(path@ =~= seq!['.', '.']);
        return match find_last_slash(current_path) {
            Some(k) => {
                if k > 0 {
                    String::from_str(current_path.substring_char(0, k))
                } else {
                    let root = String::from_str("/");
                    assert(root@ =~= seq!['/']);
                    root
                }
            },
            None => {
                let root = String::from_str("/");
                assert(root@ =~= seq!['/']);
                root
            },
        };
    }
    let keep = find_trimmed_len(current_path);
    let mut full = String::from_str(current_path.substring_char(0, keep));
    full.append("/");
    full.append(path);
    assert("/"@ =~= seq!['/']);
    full
}

/// The character of a decimal digit.
pub open spec fn digit_char(d: int) -> char {
    if d == 0 {
        '0'
    } else if d == 1 {
        '1'
    } else if d == 2 {
        '2'
    } else if d == 3 {
        '3'
    } else if d == 4 {
        '4'
    } else if d == 5 {
        '5'
    } else if d == 6 {
        '6'
    } else if d == 7 {
        '7'
    } else if d == 8 {
        '8'
    } else {
        '9'
    }
}

/// A number in decimal digits, without leading zeros.
pub open spec fn decimal_text(n: nat) -> Seq<char>
    decreases n,
{
    if n < 10 {
        seq![digit_char(n as int)]
    } else {
        decimal_text(n / 10).push(digit_char((n % 10) as int))
    }
}

fn digit_text(d: u64) -> (text: &'static str)
    requires
        d < 10,
    ensures
        text@ == seq![digit_char(d as int)],
{
    proof {
        reveal_strlit("0");
        reveal_strlit("1");
        reveal_strlit("2");
        reveal_strlit("3");
        reveal_strlit("4");
        reveal_strlit("5");
        reveal_strlit("6");
        reveal_strlit("7");
        reveal_strlit("8");
        reveal_strlit("9");
    }
    let text = if d == 0 {
        "0"
    } else if d == 1 {
        "1"
    } else if d == 2 {
        "2"
    } else if d == 3 {
        "3"
    } else if d == 4 {
        "4"
    } else if d == 5 {
        "5"
    } else if d == 6 {
        "6"
    } else if d == 7 {
        "7"
    } else if d == 8 {
        "8"
    } else {
        "9"
    };
    assert(text@ =~= seq![digit_char(d as int)]);
    text
}

/// Renders a number in decimal digits.
pub fn decimal(n: u64) -> (text: String)
    ensures
        text@ == decimal_text(n as nat),
    decreases n,
{
    if n < 10 {
        String::from_str(digit_text(n))
    } else {
        let mut text = decimal(n / 10);
        text.append(digit_text(n % 10));
        assert(text@ =~= decimal_text((n / 10) as nat).push(digit_char((n % 10) as int)));
        text
    }
}

/// The age in words of a time `timestamp`, seen at the time `now`, both
/// in seconds: in whole seconds under a minute, whole minutes under an
/// hour, whole hours under a day, and whole days from there on; and
/// `future` for a time that is still to come.
pub open spec fn age_text(timestamp: u64, now: u64) -> Seq<char> {
    let secs = (now - timestamp) as nat;
    if now < timestamp {
        "future"@
    } else if secs < 60 {
        decimal_text(secs) + "s ago"@
    } else if secs < 3600 {
        decimal_text(secs / 60) + "m ago"@
    } else if secs < 86400 {
        decimal_text(secs / 3600) + "h ago"@
    } else {
        decimal_text(secs / 86400) + "d ago"@
    }
}

/// The age in words of a time `timestamp`, seen at the time `now`.
pub fn describe_age(timestamp: u64, now: u64) -> (text: String)
    ensures
        text@ == age_text(timestamp, now),
{
    if now < timestamp {
        return String::from_str("future");
    }
    let secs: u64 = now - timestamp;
    if secs < 60 {
        decimal(secs).concat("s ago")
    } else if secs < 3600 {
        decimal(secs / 60).concat("m ago")
    } else if secs < 86400 {
        decimal(secs / 3600).concat("h ago")
    } else {
        decimal(secs / 86400).concat("d ago")
    }
}

/// `std::time::SystemTime::now`, as whole seconds since the epoch, or
/// `None` where the clock stands before the epoch. Nothing is claimed of
/// the number: it is the time of the call.
#[verifier::external_body]
fn now_seconds() -> (now: Option<u64>) {
    std::time::SystemTime::now().duration_since(std::time::UNIX_EPOCH).ok().map(|d| d.as_secs())
}

/// The age in words of a time, seen now. A clock that stands before the
/// epoch makes every time a future one.
pub fn format_timestamp(timestamp: u64) -> (text: String)
    ensures
        text@ == "future"@ || exists|now: u64| now >= timestamp && text@ == age_text(timestamp, now),
{
    match now_seconds() {
        Some(now) => describe_age(timestamp, now),
        None => String::from_str("future"),
    }
}

} // verus!
