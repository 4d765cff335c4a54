//! Small file-name and formatting helpers.

use vstd::prelude::*;
use vstd::string::StrSliceExecFns;
use vstd::string::StringExecFns;

verus! {

/// ASCII upper-case letters fold to lower case; everything else is kept.
pub open spec fn spec_ascii_lower_char(c: char) -> char {
    if 'A' <= c && c <= 'Z' {
        (((c as u8) + 32) as char)
    } else {
        c
    }
}

/// Character-wise ASCII lower-casing.
pub open spec fn spec_ascii_lower(s: Seq<char>) -> Seq<char> {
    s.map_values(|c: char| spec_ascii_lower_char(c))
}

/// ASCII lower-casing of one character.
pub fn ascii_lower_char(c: char) -> (r: char)
    ensures
        r == spec_ascii_lower_char(c),
{
    if 'A' <= c && c <= 'Z' {
        ((c as u8) + 32) as char
    } else {
        c
    }
}

/// Whether two strings are equal up to ASCII case.
pub fn eq_ignore_ascii_case(a: &str, b: &str) -> (r: bool)
    ensures
        r == (spec_ascii_lower(a@) == spec_ascii_lower(b@)),
{
    let a_len = a.unicode_len();
    let b_len = b.unicode_len();
    if a_len != b_len {
        proof {
            assert(spec_ascii_lower(a@).len() != spec_ascii_lower(b@).len());
        }
        return false;
    }
    let mut i: usize = 0;
    while i < a_len
        invariant
            a_len == a@.len(),
            b_len == b@.len(),
            a@.len() == b@.len(),
            i <= a_len,
            forall|k: int|
                0 <= k < i ==> spec_ascii_lower_char(a@[k]) == spec_ascii_lower_char(b@[k]),
        decreases a_len - i,
    {
        let ca = a.get_char(i);
        let cb = b.get_char(i);
        if ascii_lower_char(ca) != ascii_lower_char(cb) {
            proof {
                assert(spec_ascii_lower(a@)[i as int] != spec_ascii_lower(b@)[i as int]);
            }
            return false;
        }
        i = i + 1;
    }
    proof {
        assert(spec_ascii_lower(a@) =~= spec_ascii_lower(b@));
    }
    true
}

/// Index of the last `'.'` in the name, or -1 if there is none.
pub open spec fn spec_last_dot(s: Seq<char>) -> int
    decreases s.len(),
{
    if s.len() == 0 {
        -1
    } else if s[s.len() - 1] == '.' {
        s.len() - 1
    } else {
        spec_last_dot(s.drop_last())
    }
}

/// The extension of a file name: what follows the last dot.  `None` for a
/// name without a dot or with nothing after its last dot.
pub open spec fn spec_extension(s: Seq<char>) -> Option<Seq<char>> {
    let d = spec_last_dot(s);
    if d < 0 || d == s.len() - 1 {
        None
    } else {
        Some(s.subrange(d + 1, s.len() as int))
    }
}

proof fn lemma_last_dot_range(s: Seq<char>)
    ensures
        -1 <= spec_last_dot(s) < s.len(),
        spec_last_dot(s) >= 0 ==> s[spec_last_dot(s)] == '.',
        forall|k: int| spec_last_dot(s) < k < s.len() ==> s[k] != '.',
    decreases s.len(),
{
    if s.len() > 0 && s[s.len() - 1] != '.' {
        lemma_last_dot_range(s.drop_last());
        assert forall|k: int| spec_last_dot(s) < k < s.len() implies s[k] != '.' by {
            if k < s.len() - 1 {
                assert(s.drop_last()[k] == s[k]);
            }
        }
    }
}

/// The extension of a file name, borrowed from it: the characters after the
/// last dot.  `None` when the name has no dot or ends with its last dot.
#[verifier::loop_isolation(false)]
pub fn get_file_extension(path: &str) -> (r: Option<&str>)
    ensures
        match r {
            Some(ext) => spec_extension(path@) == Some(ext@),
            None => spec_extension(path@) is None,
        },
{
    proof {
        lemma_last_dot_range(path@);
    }
    let n = path.unicode_len();
    let mut i: usize = n;
    while i > 0
        invariant
            i <= n,
            n == path@.len(),
            forall|k: int| i <= k < n ==> path@[k] != '.',
        decreases i,
    {
        let c = path.get_char(i - 1);
        if c == '.' {
            proof {
                let d = spec_last_dot(path@);
                assert(d == i - 1) by {
                    if d < i - 1 {
                        assert(path@[i - 1] != '.');
                    }
                    if d > i - 1 {
                        assert(path@[d] == '.');
                    }
                }
            }
            if i == n {
                return None;
            }
            return Some(path.substring_char(i, n));
        }
        i = i - 1;
    }
    proof {
        let d = spec_last_dot(path@);
        if d >= 0 {
            assert(path@[d] == '.');
        }
    }
    None
}

/// The decimal digit character for a value below ten.
pub open spec fn spec_digit(d: nat) -> char {
    ((48 + d) as u8) as char
}

/// The decimal representation of a number, most significant digit first.
pub open spec fn spec_dec(n: nat) -> Seq<char>
    decreases n,
{
    if n < 10 {
        seq![spec_digit(n)]
    } else {
        spec_dec(n / 10).push(spec_digit(n % 10))
    }
}

fn digit_str(d: u64) -> (r: &'static str)
    requires
        d < 10,
    ensures
        r@ =~= seq![spec_digit(d as nat)],
{
    proof {
        reveal_strlit("0");
        reveal_strlit("1");
        reveal_strlit("2");
        reveal_strlit("3");
        reveal_strlit("4");
        reveal_strlit("5");
        reveal_strlit("6");
        reveal_strlit("7");
        reveal_strlit("8");
        reveal_strlit("9");
    }
    if d == 0 {
        "0"
    } else if d == 1 {
        "1"
    } else if d == 2 {
        "2"
    } else if d == 3 {
        "3"
    } else if d == 4 {
        "4"
    } else if d == 5 {
        "5"
    } else if d == 6 {
        "6"
    } else if d == 7 {
        "7"
    } else if d == 8 {
        "8"
    } else {
        "9"
    }
}

/// The decimal rendering of a number.
pub fn u64_to_string(n: u64) -> (r: String)
    ensures
        r@ == spec_dec(n as nat),
    decreases n,
{
    if n < 10 {
        let r = String::from_str(digit_str(n));
        proof {
            assert(r@ =~= spec_dec(n as nat));
        }
        r
    } else {
        let mut r = u64_to_string(n / 10);
        r.append(digit_str(n % 10));
        proof {
            assert(r@ =~= spec_dec(n as nat));
        }
        r
    }
}

/// How an elapsed span of time is rendered: the largest nonzero unit
/// selects the format, with the Chinese unit labels the tool reports in
/// (hours, minutes, seconds, milliseconds); milliseconds appear only below
/// one minute.
pub open spec fn spec_format_duration(total_secs: nat, millis: nat) -> Seq<char> {
    let hours = total_secs / 3600;
    let minutes = (total_secs % 3600) / 60;
    let seconds = total_secs % 60;
    if hours > 0 {
        spec_dec(hours) + "小时 "@ + spec_dec(minutes) + "分钟 "@ + spec_dec(seconds) + "秒"@
    } else if minutes > 0 {
        spec_dec(minutes) + "分钟 "@ + spec_dec(seconds) + "秒"@
    } else if seconds > 0 {
        spec_dec(seconds) + "秒 "@ + spec_dec(millis) + "毫秒"@
    } else {
        spec_dec(millis) + "毫秒"@
    }
}

/// Renders an elapsed span of time as a friendly string, given its whole
/// seconds and the milliseconds of the fractional second.
pub fn format_time_duration(total_secs: u64, subsec_millis: u32) -> (r: String)
    ensures
        r@ == spec_format_duration(total_secs as nat, subsec_millis as nat),
{
    let hours = total_secs / 3600;
    let minutes = (total_secs % 3600) / 60;
    let seconds = total_secs % 60;
    if hours > 0 {
        let mut r = u64_to_string(hours);
        r.append("小时 ");
        let m = u64_to_string(minutes);
        r.append(m.as_str());
        r.append("分钟 ");
        let s = u64_to_string(seconds);
        r.append(s.as_str());
        r.append("秒");
        r
    } else if minutes > 0 {
        let mut r = u64_to_string(minutes);
        r.append("分钟 ");
        let s = u64_to_string(seconds);
        r.append(s.as_str());
        r.append("秒");
        r
    } else if seconds > 0 {
        let mut r = u64_to_string(seconds);
        r.append("秒 ");
        let ms = u64_to_string(subsec_millis as u64);
        r.append(ms.as_str());
        r.append("毫秒");
        r
    } else {
        let mut r = u64_to_string(subsec_millis as u64);
        r.append("毫秒");
        r
    }
}

} // verus!
