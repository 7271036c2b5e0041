//! The per-field pipeline: raw text to transformed text to typed value.
use vstd::prelude::*;
use crate::config::ItemConfig;
use crate::html::{fragment_text, text_of_fragment};
use crate::value::{ReturnedDataItem, str_eq};

verus! {

/// Unicode `White_Space`, the characters that `str::trim` removes.
pub open spec fn is_white_space(c: char) -> bool {
    let n = c as u32;
    (0x09 <= n && n <= 0x0d) || n == 0x20 || n == 0x85 || n == 0xa0 || n == 0x1680 || (0x2000 <= n
        && n <= 0x200a) || n == 0x2028 || n == 0x2029 || n == 0x202f || n == 0x205f || n == 0x3000
}

pub open spec fn trim_start(s: Seq<char>) -> Seq<char>
    decreases s.len(),
{
    if s.len() > 0 && is_white_space(s[0]) {
        trim_start(s.drop_first())
    } else {
        s
    }
}

pub open spec fn trim_end(s: Seq<char>) -> Seq<char>
    decreases s.len(),
{
    if s.len() > 0 && is_white_space(s.last()) {
        trim_end(s.drop_last())
    } else {
        s
    }
}

/// `s` without leading and trailing white space.
pub open spec fn trimmed(s: Seq<char>) -> Seq<char> {
    trim_end(trim_start(s))
}

/// What `str::to_uppercase` returns.
pub uninterp spec fn upper_of(s: Seq<char>) -> Seq<char>;

/// What `str::to_lowercase` returns.
pub uninterp spec fn lower_of(s: Seq<char>) -> Seq<char>;

/// The first match of regular expression `pattern` in `text`; `None` when the
/// pattern does not compile or does not match.
pub uninterp spec fn regex_first_match(pattern: Seq<char>, text: Seq<char>) -> Option<Seq<char>>;

/// Every non-overlapping occurrence of `from` in `s`, leftmost first,
/// replaced by `to`; an empty `from` matches before every character and at
/// the end.
pub open spec fn replace_all(s: Seq<char>, from: Seq<char>, to: Seq<char>) -> Seq<char>
    decreases s.len(),
{
    if from.len() == 0 {
        if s.len() == 0 {
            to
        } else {
            to + seq![s[0]] + replace_all(s.drop_first(), from, to)
        }
    } else if s.len() < from.len() {
        s
    } else if s.subrange(0, from.len() as int) == from {
        to + replace_all(s.subrange(from.len() as int, s.len() as int), from, to)
    } else {
        seq![s[0]] + replace_all(s.drop_first(), from, to)
    }
}

/// Relies on str::trim: removes leading and trailing `White_Space`.
#[verifier::external_body]
pub(crate) fn trim_text(s: &str) -> (r: String)
    ensures
        r@ == trimmed(s@),
{
    s.trim().to_string()
}

/// Relies on str::to_uppercase.
#[verifier::external_body]
fn uppercase_text(s: &str) -> (r: String)
    ensures
        r@ == upper_of(s@),
{
    s.to_uppercase()
}

/// Relies on str::to_lowercase.
#[verifier::external_body]
fn lowercase_text(s: &str) -> (r: String)
    ensures
        r@ == lower_of(s@),
{
    s.to_lowercase()
}

/// Relies on regex::Regex::new and Regex::find: the first match, if the
/// pattern compiles and matches.
#[verifier::external_body]
fn first_regex_match(pattern: &str, text: &str) -> (r: Option<String>)
    ensures
        match r {
            Some(m) => regex_first_match(pattern@, text@) == Some(m@),
            None => regex_first_match(pattern@, text@) is None,
        },
{
    match regex::Regex::new(pattern) {
        Ok(re) => re.find(text).map(|m| m.as_str().to_string()),
        Err(_) => None,
    }
}

/// Relies on str::replace: all non-overlapping matches, leftmost first.
#[verifier::external_body]
pub(crate) fn replace_text(s: &str, from: &str, to: &str) -> (r: String)
    ensures
        r@ == replace_all(s@, from@, to@),
{
    s.replace(from, to)
}

/// The string pipeline: trim, strip markup, regex extraction, find/replace,
/// case folding (uppercase first), each step only where configured.
pub open spec fn transformed(raw: Seq<char>, config: ItemConfig) -> Seq<char> {
    let s1 = if config.trim {
        trimmed(raw)
    } else {
        raw
    };
    let s2 = if config.strip_html {
        fragment_text(s1)
    } else {
        s1
    };
    let s3 = match config.regex {
        Some(p) => match regex_first_match(p@, s2) {
            Some(m) => m,
            None => s2,
        },
        None => s2,
    };
    let s4 = match config.replace {
        Some(pair) => if pair@.len() == 2 {
            replace_all(s3, pair@[0]@, pair@[1]@)
        } else {
            s3
        },
        None => s3,
    };
    if config.uppercase {
        upper_of(s4)
    } else if config.lowercase {
        lower_of(s4)
    } else {
        s4
    }
}

/// Applies the configured transformations to a raw value.
pub fn apply_transformations(value: String, config: &ItemConfig) -> (r: String)
    ensures
        r@ == transformed(value@, *config),
{
    let mut value = value;
    if config.trim {
        value = trim_text(value.as_str());
    }
    if config.strip_html {
        value = text_of_fragment(value.as_str());
    }
    if let Some(pattern) = &config.regex {
        if let Some(m) = first_regex_match(pattern.as_str(), value.as_str()) {
            value = m;
        }
    }
    if let Some(pair) = &config.replace {
        if pair.len() == 2 {
            value = replace_text(value.as_str(), pair[0].as_str(), pair[1].as_str());
        }
    }
    if config.uppercase {
        value = uppercase_text(value.as_str());
    } else if config.lowercase {
        value = lowercase_text(value.as_str());
    }
    value
}

pub open spec fn is_digit(c: char) -> bool {
    '0' <= c && c <= '9'
}

/// Number of consecutive digits in `s` from position `i` on.
pub open spec fn digits_from(s: Seq<char>, i: int) -> int
    decreases s.len() - i,
{
    if 0 <= i < s.len() && is_digit(s[i]) {
        1 + digits_from(s, i + 1)
    } else {
        0
    }
}

/// `s[p..]` is an exponent: `e` or `E`, an optional sign, one digit or more.
pub open spec fn is_exponent(s: Seq<char>, p: int) -> bool {
    &&& 0 <= p < s.len()
    &&& (s[p] == 'e' || s[p] == 'E')
    &&& {
        let q = if p + 1 < s.len() && (s[p + 1] == '+' || s[p + 1] == '-') {
            p + 2
        } else {
            p + 1
        };
        digits_from(s, q) > 0 && q + digits_from(s, q) == s.len()
    }
}

/// `Digit+ | Digit+ '.' Digit* | Digit* '.' Digit+`, then an optional exponent.
pub open spec fn is_decimal(s: Seq<char>) -> bool {
    let a = digits_from(s, 0);
    let frac = if a < s.len() && s[a] == '.' {
        digits_from(s, a + 1)
    } else {
        0
    };
    let p = if a < s.len() && s[a] == '.' {
        a + 1 + frac
    } else {
        a
    };
    a + frac > 0 && (p == s.len() || is_exponent(s, p))
}

/// The code of `c` with ASCII upper case folded to lower case.
pub open spec fn ascii_lower(c: char) -> u32 {
    if 'A' <= c && c <= 'Z' {
        (c as u32 + 32) as u32
    } else {
        c as u32
    }
}

/// `s` equals `word` (lower case) ignoring ASCII case.
pub open spec fn equals_ignoring_case(s: Seq<char>, word: Seq<char>) -> bool {
    s.len() == word.len() && forall|i: int| 0 <= i < s.len() ==> ascii_lower(s[i]) == word[i] as u32
}

/// The grammar that `f64`'s `FromStr` accepts: an optional sign, then
/// `inf`, `infinity`, `nan` (any case) or a decimal number.
pub open spec fn is_float_literal(s: Seq<char>) -> bool {
    let b = if s.len() > 0 && (s[0] == '+' || s[0] == '-') {
        s.drop_first()
    } else {
        s
    };
    equals_ignoring_case(b, seq!['i', 'n', 'f']) || equals_ignoring_case(
        b,
        seq!['i', 'n', 'f', 'i', 'n', 'i', 't', 'y'],
    ) || equals_ignoring_case(b, seq!['n', 'a', 'n']) || is_decimal(b)
}

/// The characters of a string.
fn chars_of(s: &str) -> (r: Vec<char>)
    ensures
        r@ == s@,
{
    let n = s.unicode_len();
    let mut r: Vec<char> = Vec::new();
    let mut i: usize = 0;
    while i < n
        invariant
            n == s@.len(),
            i <= n,
            r@ == s@.subrange(0, i as int),
        decreases n - i,
    {
        r.push(s.get_char(i));
        i = i + 1;
        assert(r@ =~= s@.subrange(0, i as int));
    }
    assert(s@.subrange(0, n as int) =~= s@);
    r
}

fn count_digits(s: &Vec<char>, i: usize) -> (r: usize)
    requires
        i <= s@.len(),
    ensures
        r as int == digits_from(s@, i as int),
        i + r <= s@.len(),
{
    let mut j: usize = i;
    while j < s.len() && '0' <= s[j] && s[j] <= '9'
        invariant
            i <= j <= s@.len(),
            digits_from(s@, i as int) == (j - i) + digits_from(s@, j as int),
        decreases s@.len() - j,
    {
        j = j + 1;
    }
    (j - i) as usize
}

fn matches_ignoring_case(s: &Vec<char>, start: usize, word: &Vec<char>) -> (r: bool)
    requires
        start <= s@.len(),
    ensures
        r == equals_ignoring_case(s@.subrange(start as int, s@.len() as int), word@),
{
    let n = s.len();
    if n - start != word.len() {
        return false;
    }
    let mut i: usize = 0;
    while i < word.len()
        invariant
            n == s@.len(),
            start <= s@.len(),
            s@.len() - start == word@.len(),
            i <= word@.len(),
            forall|j: int| 0 <= j < i ==> ascii_lower(s@[start + j]) == word@[j] as u32,
        decreases word@.len() - i,
    {
        let c = s[start + i];
        let lc: u32 = if 'A' <= c && c <= 'Z' {
            (c as u32) + 32
        } else {
            c as u32
        };
        if lc != word[i] as u32 {
            return false;
        }
        i = i + 1;
    }
    true
}

fn is_decimal_chars(c: &Vec<char>) -> (r: bool)
    ensures
        r == is_decimal(c@),
{
    let n = c.len();
    let a = count_digits(c, 0);
    let dot = a < n && c[a] == '.';
    let frac: usize = if dot {
        count_digits(c, a + 1)
    } else {
        0
    };
    let p: usize = if dot {
        a + 1 + frac
    } else {
        a
    };
    if a + frac == 0 {
        return false;
    }
    if p == n {
        return true;
    }
    if c[p] != 'e' && c[p] != 'E' {
        return false;
    }
    let q: usize = if p + 1 < n && (c[p + 1] == '+' || c[p + 1] == '-') {
        p + 2
    } else {
        p + 1
    };
    let d = count_digits(c, q);
    d > 0 && q + d == n
}

/// Whether `s` parses as a 64-bit float (no surrounding white space allowed).
pub fn is_float_text(s: &str) -> (r: bool)
    ensures
        r == is_float_literal(s@),
{
    let c = chars_of(s);
    let n = c.len();
    let start: usize = if n > 0 && (c[0] == '+' || c[0] == '-') {
        1
    } else {
        0
    };
    let mut b: Vec<char> = Vec::new();
    let mut i: usize = start;
    while i < n
        invariant
            start <= i <= n,
            n == c@.len(),
            b@ == c@.subrange(start as int, i as int),
        decreases n - i,
    {
        b.push(c[i]);
        i = i + 1;
        assert(b@ =~= c@.subrange(start as int, i as int));
    }
    assert(b@ =~= if s@.len() > 0 && (s@[0] == '+' || s@[0] == '-') {
        s@.drop_first()
    } else {
        s@
    });
    assert(b@ =~= b@.subrange(0, b@.len() as int));
    matches_ignoring_case(&b, 0, &vec!['i', 'n', 'f']) || matches_ignoring_case(
        &b,
        0,
        &vec!['i', 'n', 'f', 'i', 'n', 'i', 't', 'y'],
    ) || matches_ignoring_case(&b, 0, &vec!['n', 'a', 'n']) || is_decimal_chars(&b)
}

/// The words that coerce to boolean `true`.
pub open spec fn is_truthy(s: Seq<char>) -> bool {
    s == seq!['t', 'r', 'u', 'e'] || s == seq!['1'] || s == seq!['y', 'e', 's'] || s == seq!['o', 'n']
}

/// `v` is the typed value of transformed text `t` under `config`: a number
/// when asked for and the trimmed text parses, else the text; a boolean when
/// asked for; text otherwise.
pub open spec fn coerced(v: ReturnedDataItem, t: Seq<char>, config: ItemConfig) -> bool {
    if config.to_number {
        if is_float_literal(trimmed(t)) {
            v matches ReturnedDataItem::NumberItem(n) && n@ == trimmed(t)
        } else {
            v matches ReturnedDataItem::StringItem(x) && x@ == t
        }
    } else if config.to_boolean {
        v == ReturnedDataItem::BoolItem(is_truthy(trimmed(lower_of(t))))
    } else {
        v matches ReturnedDataItem::StringItem(x) && x@ == t
    }
}

/// Whether a string is one of the words that mean true.
pub fn truthy(s: &str) -> (r: bool)
    ensures
        r == is_truthy(s@),
{
    proof {
        reveal_strlit("true");
        reveal_strlit("1");
        reveal_strlit("yes");
        reveal_strlit("on");
    }
    let r = str_eq(s, "true") || str_eq(s, "1") || str_eq(s, "yes") || str_eq(s, "on");
    assert("true"@ =~= seq!['t', 'r', 'u', 'e']);
    assert("1"@ =~= seq!['1']);
    assert("yes"@ =~= seq!['y', 'e', 's']);
    assert("on"@ =~= seq!['o', 'n']);
    r
}

/// Turns transformed text into a typed value.
pub fn coerce_value(value: String, config: &ItemConfig) -> (r: ReturnedDataItem)
    ensures
        coerced(r, value@, *config),
{
    if config.to_number {
        let t = trim_text(value.as_str());
        if is_float_text(t.as_str()) {
            ReturnedDataItem::NumberItem(t)
        } else {
            ReturnedDataItem::StringItem(value)
        }
    } else if config.to_boolean {
        let lower = lowercase_text(value.as_str());
        let t = trim_text(lower.as_str());
        ReturnedDataItem::BoolItem(truthy(t.as_str()))
    } else {
        ReturnedDataItem::StringItem(value)
    }
}

} // verus!
