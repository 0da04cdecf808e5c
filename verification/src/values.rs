//! Typed values: what the text of a setting stands for.
//!
//! Each vocabulary is closed and read without regard to case. A text outside
//! it is answered with a message that quotes the text.

use crate::model::{Architecture, CleanMethod, Usage};
use crate::text::{chars_of, lower, lowercase, lowered, same_text};
use vstd::prelude::*;
use vstd::string::StringExecFns;

verus! {

/// The truth value that `v` spells: `yes` or `no`, in any case.
pub open spec fn bool_of(v: Seq<char>) -> Option<bool> {
    if lowered(v) == "yes"@ {
        Some(true)
    } else if lowered(v) == "no"@ {
        Some(false)
    } else {
        None
    }
}

/// The architecture that `v` spells, in any case.
pub open spec fn architecture_of(v: Seq<char>) -> Option<Architecture> {
    if lowered(v) == "auto"@ {
        Some(Architecture::Auto)
    } else if lowered(v) == "i686"@ {
        Some(Architecture::I686)
    } else if lowered(v) == "x86_64"@ {
        Some(Architecture::X86_64)
    } else {
        None
    }
}

/// The clean method that `v` spells, in any case.
pub open spec fn clean_method_of(v: Seq<char>) -> Option<CleanMethod> {
    if lowered(v) == "keepinstalled"@ {
        Some(CleanMethod::KeepInstalled)
    } else if lowered(v) == "keepcurrent"@ {
        Some(CleanMethod::KeepCurrent)
    } else {
        None
    }
}

/// The usage that `v` spells, in any case.
pub open spec fn usage_of(v: Seq<char>) -> Option<Usage> {
    if lowered(v) == "sync"@ {
        Some(Usage::Sync)
    } else if lowered(v) == "search"@ {
        Some(Usage::Search)
    } else if lowered(v) == "install"@ {
        Some(Usage::Install)
    } else if lowered(v) == "upgrade"@ {
        Some(Usage::Upgrade)
    } else if lowered(v) == "all"@ {
        Some(Usage::All)
    } else {
        None
    }
}

/// The message for a text that spells no truth value.
pub open spec fn bool_message(v: Seq<char>) -> Seq<char> {
    "Invalid boolean value: "@ + v
}

/// The message for a text that spells no architecture.
pub open spec fn architecture_message(v: Seq<char>) -> Seq<char> {
    "Invalid architecture: "@ + v
}

/// The message for a text that spells no clean method.
pub open spec fn clean_method_message(v: Seq<char>) -> Seq<char> {
    "Invalid clean method: "@ + v
}

/// The message for a text that spells no usage.
pub open spec fn usage_message(v: Seq<char>) -> Seq<char> {
    "Invalid usage: "@ + v
}

/// `a` followed by `b`.
pub fn joined(a: &str, b: &str) -> (r: String)
    ensures
        r@ == a@ + b@,
{
    let mut r = a.to_owned();
    r.append(b);
    r
}

/// Reads a truth value: `yes` or `no`, in any case.
pub fn parse_bool(value: &str) -> (r: Result<bool, String>)
    ensures
        match bool_of(value@) {
            Some(b) => r == Ok::<bool, String>(b),
            None => r is Err && r->Err_0@ == bool_message(value@),
        },
{
    let low = lowercase(value);
    if same_text(low.as_str(), "yes") {
        Ok(true)
    } else if same_text(low.as_str(), "no") {
        Ok(false)
    } else {
        Err(joined("Invalid boolean value: ", value))
    }
}

/// Reads an architecture: `auto`, `i686` or `x86_64`, in any case.
pub fn parse_architecture(value: &str) -> (r: Result<Architecture, String>)
    ensures
        match architecture_of(value@) {
            Some(a) => r == Ok::<Architecture, String>(a),
            None => r is Err && r->Err_0@ == architecture_message(value@),
        },
{
    let low = lowercase(value);
    if same_text(low.as_str(), "auto") {
        Ok(Architecture::Auto)
    } else if same_text(low.as_str(), "i686") {
        Ok(Architecture::I686)
    } else if same_text(low.as_str(), "x86_64") {
        Ok(Architecture::X86_64)
    } else {
        Err(joined("Invalid architecture: ", value))
    }
}

/// Reads a clean method: `KeepInstalled` or `KeepCurrent`, in any case.
pub fn parse_clean_method(value: &str) -> (r: Result<CleanMethod, String>)
    ensures
        match clean_method_of(value@) {
            Some(m) => r == Ok::<CleanMethod, String>(m),
            None => r is Err && r->Err_0@ == clean_method_message(value@),
        },
{
    let low = lowercase(value);
    if same_text(low.as_str(), "keepinstalled") {
        Ok(CleanMethod::KeepInstalled)
    } else if same_text(low.as_str(), "keepcurrent") {
        Ok(CleanMethod::KeepCurrent)
    } else {
        Err(joined("Invalid clean method: ", value))
    }
}

/// Reads a usage: `Sync`, `Search`, `Install`, `Upgrade` or `All`, in any
/// case.
pub fn parse_usage(value: &str) -> (r: Result<Usage, String>)
    ensures
        match usage_of(value@) {
            Some(u) => r == Ok::<Usage, String>(u),
            None => r is Err && r->Err_0@ == usage_message(value@),
        },
{
    let low = lowercase(value);
    if same_text(low.as_str(), "sync") {
        Ok(Usage::Sync)
    } else if same_text(low.as_str(), "search") {
        Ok(Usage::Search)
    } else if same_text(low.as_str(), "install") {
        Ok(Usage::Install)
    } else if same_text(low.as_str(), "upgrade") {
        Ok(Usage::Upgrade)
    } else if same_text(low.as_str(), "all") {
        Ok(Usage::All)
    } else {
        Err(joined("Invalid usage: ", value))
    }
}

/// Why a text is no number of downloads.
#[derive(Debug, Clone, Copy, PartialEq, Eq, Structural)]
pub enum NumberFault {
    /// The text is empty.
    Empty,
    /// The text holds something other than decimal digits after an optional
    /// leading `+`, or nothing but that sign.
    InvalidDigit,
    /// The digits stand for more than 32 bits hold.
    TooLarge,
}

/// Whether `c` is a decimal digit.
pub open spec fn is_digit(c: char) -> bool {
    '0' <= c <= '9'
}

/// The value of the decimal digit `c`.
pub open spec fn digit_value(c: char) -> nat {
    (c as u32 - '0' as u32) as nat
}

/// The number that the digits `s` stand for, read from the left. The first
/// character that is no digit, or with which the number leaves 32 bits,
/// decides the fault.
pub open spec fn digits_value(s: Seq<char>) -> Result<nat, NumberFault>
    decreases s.len(),
{
    if s.len() == 0 {
        Ok(0)
    } else {
        match digits_value(s.drop_last()) {
            Err(f) => Err(f),
            Ok(n) => if !is_digit(s.last()) {
                Err(NumberFault::InvalidDigit)
            } else if n * 10 + digit_value(s.last()) > u32::MAX {
                Err(NumberFault::TooLarge)
            } else {
                Ok(n * 10 + digit_value(s.last()))
            },
        }
    }
}

/// The unsigned number that `v` spells: decimal digits, at least one, after
/// an optional `+`.
pub open spec fn number_of(v: Seq<char>) -> Result<nat, NumberFault> {
    if v.len() == 0 {
        Err(NumberFault::Empty)
    } else {
        let digits = if v[0] == '+' {
            v.drop_first()
        } else {
            v
        };
        if digits.len() == 0 {
            Err(NumberFault::InvalidDigit)
        } else {
            digits_value(digits)
        }
    }
}

/// What is wrong with a text that spells no number, in words.
pub open spec fn number_fault_text(f: NumberFault) -> Seq<char> {
    match f {
        NumberFault::Empty => "cannot parse integer from empty string"@,
        NumberFault::InvalidDigit => "invalid digit found in string"@,
        NumberFault::TooLarge => "number too large to fit in target type"@,
    }
}

/// The message for a text that spells no number of downloads.
pub open spec fn parallel_downloads_message(f: NumberFault) -> Seq<char> {
    "Invalid ParallelDownloads value: "@ + number_fault_text(f)
}

/// Reads an unsigned number of at most 32 bits: decimal digits after an
/// optional `+`.
pub fn parse_number(value: &str) -> (r: Result<u32, NumberFault>)
    ensures
        match number_of(value@) {
            Ok(n) => r == Ok::<u32, NumberFault>(n as u32),
            Err(f) => r == Err::<u32, NumberFault>(f),
        },
{
    let chars = chars_of(value);
    let n = chars.len();
    if n == 0 {
        return Err(NumberFault::Empty);
    }
    let start: usize = if chars[0] == '+' {
        1
    } else {
        0
    };
    if start == n {
        return Err(NumberFault::InvalidDigit);
    }
    let ghost digits = chars@.subrange(start as int, n as int);
    proof {
        if start == 1 {
            assert(digits == chars@.drop_first());
        } else {
            assert(digits == chars@);
        }
    }
    let mut acc: u64 = 0;
    let mut i: usize = start;
    while i < n
        invariant
            start <= i <= n,
            n == chars.len(),
            digits == chars@.subrange(start as int, n as int),
            number_of(value@) == digits_value(digits),
            acc <= u32::MAX,
            digits_value(digits.take(i - start)) == Ok::<nat, NumberFault>(acc as nat),
        decreases n - i,
    {
        let c = chars[i];
        proof {
            let t = digits.take(i - start + 1);
            assert(t.drop_last() == digits.take(i - start));
            assert(t.last() == c);
            lemma_digits_fault_stays(digits, i - start + 1);
        }
        if !('0' <= c && c <= '9') {
            return Err(NumberFault::InvalidDigit);
        }
        let d: u64 = (c as u32 - '0' as u32) as u64;
        let next: u64 = acc * 10 + d;
        if next > 0xFFFF_FFFFu64 {
            return Err(NumberFault::TooLarge);
        }
        acc = next;
        i += 1;
    }
    proof {
        assert(digits.take(n - start) == digits);
    }
    Ok(acc as u32)
}

/// What is wrong with a text that spells no number, in words.
pub fn number_fault_message(f: NumberFault) -> (r: String)
    ensures
        r@ == number_fault_text(f),
{
    match f {
        NumberFault::Empty => "cannot parse integer from empty string".to_owned(),
        NumberFault::InvalidDigit => "invalid digit found in string".to_owned(),
        NumberFault::TooLarge => "number too large to fit in target type".to_owned(),
    }
}

/// Reads the number of parallel downloads.
pub fn parse_parallel_downloads(value: &str) -> (r: Result<u32, String>)
    ensures
        match number_of(value@) {
            Ok(n) => r == Ok::<u32, String>(n as u32),
            Err(f) => r is Err && r->Err_0@ == parallel_downloads_message(f),
        },
{
    match parse_number(value) {
        Ok(n) => Ok(n),
        Err(f) => {
            let why = number_fault_message(f);
            Err(joined("Invalid ParallelDownloads value: ", why.as_str()))
        },
    }
}

/// A fault among the first `k` digits is the fault of the whole.
pub proof fn lemma_digits_fault_stays(s: Seq<char>, k: int)
    requires
        0 <= k <= s.len(),
    ensures
        digits_value(s.take(k)) is Err ==> digits_value(s) == digits_value(s.take(k)),
    decreases s.len() - k,
{
    if k == s.len() {
        assert(s.take(k) == s);
    } else {
        assert(s.take(k + 1).drop_last() == s.take(k));
        lemma_digits_fault_stays(s, k + 1);
    }
}

/// A text spells a truth value exactly where its letters, taken in lowercase,
/// are those of `yes` or of `no`: so `yes`, `Yes` and `YES` all stand for
/// true, and a text such as `true` or `1` stands for nothing.
pub proof fn lemma_bool_spellings(v: Seq<char>)
    ensures
        bool_of(v) == Some(true) <==> v.len() == 3 && lower(v[0]) == 'y' && lower(v[1]) == 'e'
            && lower(v[2]) == 's',
        bool_of(v) == Some(false) <==> v.len() == 2 && lower(v[0]) == 'n' && lower(v[1]) == 'o',
{
    reveal_strlit("yes");
    reveal_strlit("no");
    if v.len() == 3 && lower(v[0]) == 'y' && lower(v[1]) == 'e' && lower(v[2]) == 's' {
        assert(lowered(v) =~= "yes"@);
    }
    if v.len() == 2 && lower(v[0]) == 'n' && lower(v[1]) == 'o' {
        assert(lowered(v) =~= "no"@);
    }
    assert(lowered(v).len() == v.len());
    if lowered(v) == "yes"@ {
        assert("yes"@.len() == 3);
        assert(lowered(v)[0] == lower(v[0]) && "yes"@[0] == 'y');
        assert(lowered(v)[1] == lower(v[1]) && "yes"@[1] == 'e');
        assert(lowered(v)[2] == lower(v[2]) && "yes"@[2] == 's');
    }
    if lowered(v) == "no"@ {
        assert("no"@.len() == 2);
        assert(lowered(v)[0] == lower(v[0]) && "no"@[0] == 'n');
        assert(lowered(v)[1] == lower(v[1]) && "no"@[1] == 'o');
    }
}

/// Case does not count: two texts that are alike in lowercase spell the same
/// value, or both none, in each of the vocabularies.
pub proof fn lemma_case_does_not_count(a: Seq<char>, b: Seq<char>)
    requires
        lowered(a) == lowered(b),
    ensures
        bool_of(a) == bool_of(b),
        architecture_of(a) == architecture_of(b),
        clean_method_of(a) == clean_method_of(b),
        usage_of(a) == usage_of(b),
{
}

} // verus!
