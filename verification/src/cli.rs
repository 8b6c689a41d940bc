//! Command-line surface types and their small parsers.

use vstd::prelude::*;

use crate::error::ServerError;
use crate::strutil::{is_digit, parse_u64, spec_digits_val, spec_trim, str_eq, trim};

verus! {

/// Subcommands of the `server` command.
pub enum ServerSubcommand {
    /// Start the sandbox server.
    Start {
        /// Port to listen on.
        port: Option<u16>,
        /// Path to the namespace directory.
        path: Option<String>,
        /// Disable the default namespace.
        disable_default: bool,
        /// Require a secure API key.
        secure: bool,
        /// Secret key for the server.
        key: Option<String>,
        /// Run in the background.
        detach: bool,
    },
    /// Stop the sandbox server.
    Stop,
    /// Generate a new API key.
    Keygen {
        /// Token expiration, as a duration string.
        expire: Option<String>,
    },
}

/// Actions of the `self` command.
pub enum SelfAction {
    /// Upgrade the installation.
    Upgrade,
    /// Remove the installation.
    Uninstall,
}

/// Seconds in each duration unit: `s`, `m`, `h`, `d`, `w`, `mo` (thirty
/// days), `y` (365 days); no unit means hours.
pub open spec fn spec_unit_seconds(unit: Seq<char>) -> Option<u64> {
    if unit == "s"@ {
        Some(1u64)
    } else if unit == "m"@ {
        Some(60u64)
    } else if unit == "h"@ {
        Some(3600u64)
    } else if unit == "d"@ {
        Some(86400u64)
    } else if unit == "w"@ {
        Some(604800u64)
    } else if unit == "mo"@ {
        Some(2592000u64)
    } else if unit == "y"@ {
        Some(31536000u64)
    } else if unit == ""@ {
        Some(3600u64)
    } else {
        None
    }
}

fn unit_seconds(unit: &str) -> (r: Option<u64>)
    ensures
        r == spec_unit_seconds(unit@),
{
    if str_eq(unit, "s") {
        Some(1)
    } else if str_eq(unit, "m") {
        Some(60)
    } else if str_eq(unit, "h") {
        Some(3600)
    } else if str_eq(unit, "d") {
        Some(86400)
    } else if str_eq(unit, "w") {
        Some(604800)
    } else if str_eq(unit, "mo") {
        Some(2592000)
    } else if str_eq(unit, "y") {
        Some(31536000)
    } else if str_eq(unit, "") {
        Some(3600)
    } else {
        None
    }
}

/// The length of the leading digit run of `s`.
pub open spec fn spec_digit_run(s: Seq<char>) -> int
    decreases s.len(),
{
    if s.len() == 0 || !is_digit(s[0]) {
        0
    } else {
        1 + spec_digit_run(s.subrange(1, s.len() as int))
    }
}

proof fn lemma_digit_run_at(s: Seq<char>, i: int)
    requires
        0 <= i <= s.len(),
        forall|k: int| 0 <= k < i ==> is_digit(s[k]),
        i < s.len() ==> !is_digit(s[i]),
    ensures
        spec_digit_run(s) == i,
    decreases i,
{
    if i > 0 {
        lemma_digit_run_at(s.subrange(1, s.len() as int), i - 1);
    }
}

/// Parses a duration string such as `30s`, `5m`, `12h`, `7d`, `2w`, `1mo`
/// or `1y` into seconds.
///
/// The input is trimmed; the leading digits are the value and the rest the
/// unit (hours when absent). Fails when the trimmed input is empty, holds no
/// digits, names an unknown unit, or does not fit in 64 bits of seconds.
pub fn parse_duration_string(duration_str: &str) -> (r: Result<u64, ServerError>)
    ensures
        ({
            let t = spec_trim(duration_str@);
            let run = spec_digit_run(t);
            let value_txt = t.subrange(0, run);
            let unit = t.subrange(run, t.len() as int);
            match r {
                Ok(secs) => {
                    &&& run > 0
                    &&& spec_unit_seconds(unit) matches Some(mult)
                        && secs == spec_digits_val(value_txt) * mult
                        && spec_digits_val(value_txt) * mult <= u64::MAX
                },
                Err(e) => {
                    &&& e is InvalidInput
                    &&& {
                        ||| run == 0
                        ||| spec_unit_seconds(unit) is None
                        ||| spec_digits_val(value_txt) > u64::MAX
                        ||| (spec_unit_seconds(unit) matches Some(mult)
                            ==> spec_digits_val(value_txt) * mult > u64::MAX)
                    }
                },
            }
        }),
{
    let t = trim(duration_str);
    let s = t.as_str();
    let len = s.unicode_len();
    let mut i: usize = 0;
    let mut in_digits = true;
    while i < len && in_digits
        invariant
            i <= len,
            len == s@.len(),
            forall|k: int| 0 <= k < i ==> is_digit(s@[k]),
            !in_digits && i < len ==> !is_digit(s@[i as int]),
            in_digits || i < len,
        decreases len - i + (if in_digits { 1int } else { 0int }),
    {
        let c = s.get_char(i);
        if '0' <= c && c <= '9' {
            i = i + 1;
        } else {
            in_digits = false;
        }
    }
    proof {
        lemma_digit_run_at(s@, i as int);
    }
    if i == 0 {
        return Err(ServerError::InvalidInput(
            "no numeric value found in duration".to_owned(),
        ));
    }
    let value_txt = s.substring_char(0, i);
    let unit_txt = s.substring_char(i, len);
    let value = match parse_u64(value_txt) {
        Some(v) => v,
        None => {
            return Err(ServerError::InvalidInput("duration value out of range".to_owned()));
        }
    };
    let mult = match unit_seconds(unit_txt) {
        Some(m) => m,
        None => {
            return Err(ServerError::InvalidInput(
                "invalid duration unit: expected one of s, m, h, d, w, mo, y".to_owned(),
            ));
        }
    };
    match value.checked_mul(mult) {
        Some(secs) => Ok(secs),
        None => Err(ServerError::InvalidInput("duration out of range".to_owned())),
    }
}

/// The position of the first `=` in `s`, if any.
pub open spec fn spec_first_eq(s: Seq<char>) -> Option<int>
    decreases s.len(),
{
    if s.len() == 0 {
        None
    } else if s[0] == '=' {
        Some(0int)
    } else {
        match spec_first_eq(s.subrange(1, s.len() as int)) {
            Some(i) => Some(i + 1),
            None => None,
        }
    }
}

proof fn lemma_first_eq_at(s: Seq<char>, i: int)
    requires
        0 <= i < s.len(),
        s[i] == '=',
        forall|k: int| 0 <= k < i ==> s[k] != '=',
    ensures
        spec_first_eq(s) == Some(i),
    decreases i,
{
    if i > 0 {
        lemma_first_eq_at(s.subrange(1, s.len() as int), i - 1);
    }
}

proof fn lemma_no_eq(s: Seq<char>)
    requires
        forall|k: int| 0 <= k < s.len() ==> s[k] != '=',
    ensures
        spec_first_eq(s) is None,
    decreases s.len(),
{
    if s.len() > 0 {
        lemma_no_eq(s.subrange(1, s.len() as int));
    }
}

/// Splits a `KEY=value` argument at its first `=`; fails when there is
/// none.
pub fn parse_key_val(s: &str) -> (r: Result<(String, String), ServerError>)
    ensures
        spec_first_eq(s@) is None ==> (r is Err && r->Err_0 is InvalidInput),
        spec_first_eq(s@) matches Some(i) ==> (r matches Ok(kv) && kv.0@ == s@.subrange(0, i)
            && kv.1@ == s@.subrange(i + 1, s@.len() as int)),
{
    let len = s.unicode_len();
    let mut i: usize = 0;
    while i < len && s.get_char(i) != '='
        invariant
            i <= len,
            len == s@.len(),
            forall|k: int| 0 <= k < i ==> s@[k] != '=',
        decreases len - i,
    {
        i = i + 1;
    }
    if i == len {
        proof {
            lemma_no_eq(s@);
        }
        return Err(ServerError::InvalidInput("no '=' found in KEY=value argument".to_owned()));
    }
    proof {
        lemma_first_eq_at(s@, i as int);
    }
    let k = s.substring_char(0, i).to_owned();
    let v = s.substring_char(i + 1, len).to_owned();
    Ok((k, v))
}

} // verus!
