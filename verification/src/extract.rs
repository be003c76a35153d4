//! Keyword extraction over tool-call forms.
//!
//! A tool-call form is a proper list `(tag :k1 v1 :k2 v2 ...)`.  The walker
//! starts after the tag and inspects elements pairwise: each keyword atom
//! must be followed by exactly one value.  Lookup returns the value paired
//! with the first occurrence of the requested keyword; a keyword atom with
//! no following element is a malformed form; a head with no keyword reading
//! stops the walk.

use vstd::prelude::*;

use crate::strutil::{chars_of, str_eq};
use crate::value::{spec_is_proper_list, spec_kw_name, spec_list_elems, SpecVal, Value};

verus! {

/// Errors raised while extracting arguments from a parsed value.
///
/// `NotAList` and `MissingValueAfterKeyword` report a value that is not
/// shaped as required (shape errors), the `must be` family reports a present
/// keyword whose value cannot be coerced to the requested type (type
/// errors), and `MissingRequiredKeyword` reports a required keyword that is
/// absent.
#[derive(Debug, Clone, PartialEq)]
pub enum ExtractError {
    /// The root value of a lookup was not a list cell.
    NotAList,
    /// A keyword atom stood at the end of the list with no paired value.
    MissingValueAfterKeyword(String),
    /// A required keyword was not present.
    MissingRequiredKeyword(String),
    /// The keyword's value was not a string atom.
    NotAString(String),
    /// The keyword's value had no boolean reading.
    NotABool(String),
    /// The keyword's value had no integer reading.
    NotAnInt(String),
    /// The keyword's integer value was negative where a non-negative one
    /// was required.
    NegativeInt(String),
    /// The keyword's integer value does not fit the unsigned result range.
    IntOutOfRange(String),
    /// A string list was requested of a value that is not a proper list.
    NotAProperList,
    /// A string list contained an element that is not a string atom.
    NotAStringItem,
    /// A text reference was neither a string nor a list cell.
    ExpectedTextRef,
    /// A text reference list did not start with the symbol `use`.
    ExpectedUseForm,
    /// A `(use ...)` form had no argument.
    UseMissingArgument,
    /// A `(use ...)` form's argument was not a string atom.
    UsePathNotString,
    /// A `(use ...)` form carried more than one argument.
    UseExtraArgument,
}

/// The user-visible text of each extraction error.
pub open spec fn spec_extract_error_message(e: ExtractError) -> Seq<char> {
    match e {
        ExtractError::NotAList => "expected list (tool call form)"@,
        ExtractError::MissingValueAfterKeyword(k) => "expected value after keyword :"@ + k@,
        ExtractError::MissingRequiredKeyword(k) => "missing required keyword :"@ + k@,
        ExtractError::NotAString(k) => ":"@ + k@ + " must be a string"@,
        ExtractError::NotABool(k) => ":"@ + k@ + " must be a boolean (true/false)"@,
        ExtractError::NotAnInt(k) => ":"@ + k@ + " must be an integer"@,
        ExtractError::NegativeInt(k) => ":"@ + k@ + " must be a non-negative integer"@,
        ExtractError::IntOutOfRange(k) => ":"@ + k@ + " does not fit in the unsigned range"@,
        ExtractError::NotAProperList => "expected a proper list"@,
        ExtractError::NotAStringItem => "expected string item in list"@,
        ExtractError::ExpectedTextRef => "expected string or (use \"path\")"@,
        ExtractError::ExpectedUseForm => "expected (use \"path\")"@,
        ExtractError::UseMissingArgument => "(use ...) missing argument"@,
        ExtractError::UsePathNotString => "(use ...) path must be a string"@,
        ExtractError::UseExtraArgument => "(use ...) takes a single argument"@,
    }
}

impl ExtractError {
    /// Render the error as user-visible text.
    pub fn message(&self) -> (r: String)
        ensures
            r@ == spec_extract_error_message(*self),
    {
        match self {
            ExtractError::NotAList => String::from_str("expected list (tool call form)"),
            ExtractError::MissingValueAfterKeyword(k) => {
                let mut m = String::from_str("expected value after keyword :");
                m.append(k.as_str());
                m
            }
            ExtractError::MissingRequiredKeyword(k) => {
                let mut m = String::from_str("missing required keyword :");
                m.append(k.as_str());
                m
            }
            ExtractError::NotAString(k) => {
                let mut m = String::from_str(":");
                m.append(k.as_str());
                m.append(" must be a string");
                m
            }
            ExtractError::NotABool(k) => {
                let mut m = String::from_str(":");
                m.append(k.as_str());
                m.append(" must be a boolean (true/false)");
                m
            }
            ExtractError::NotAnInt(k) => {
                let mut m = String::from_str(":");
                m.append(k.as_str());
                m.append(" must be an integer");
                m
            }
            ExtractError::NegativeInt(k) => {
                let mut m = String::from_str(":");
                m.append(k.as_str());
                m.append(" must be a non-negative integer");
                m
            }
            ExtractError::IntOutOfRange(k) => {
                let mut m = String::from_str(":");
                m.append(k.as_str());
                m.append(" does not fit in the unsigned range");
                m
            }
            ExtractError::NotAProperList => String::from_str("expected a proper list"),
            ExtractError::NotAStringItem => String::from_str("expected string item in list"),
            ExtractError::ExpectedTextRef => String::from_str("expected string or (use \"path\")"),
            ExtractError::ExpectedUseForm => String::from_str("expected (use \"path\")"),
            ExtractError::UseMissingArgument => String::from_str("(use ...) missing argument"),
            ExtractError::UsePathNotString => String::from_str("(use ...) path must be a string"),
            ExtractError::UseExtraArgument => String::from_str("(use ...) takes a single argument"),
        }
    }
}

/// The outcome of a keyword lookup over a tool-call form.
pub enum KwOutcome {
    /// The root value was not a list cell.
    NotAList,
    /// The keyword was present; its paired value.
    Found(SpecVal),
    /// The keyword was not present.
    Absent,
    /// A keyword atom (with the carried name) had no following element.
    Malformed(Seq<char>),
}

/// The walk over the pair region of a list tail: the first matching keyword
/// wins, a non-keyword head stops the walk, and a keyword at the end of the
/// list is malformed.
pub open spec fn spec_kw_search(v: SpecVal, key: Seq<char>) -> KwOutcome
    decreases v,
{
    match v {
        SpecVal::Cons(k, rest) => match spec_kw_name(*k) {
            None => KwOutcome::Absent,
            Some(name) => match *rest {
                SpecVal::Cons(val, rest2) => if name == key {
                    KwOutcome::Found(*val)
                } else {
                    spec_kw_search(*rest2, key)
                },
                _ => KwOutcome::Malformed(name),
            },
        },
        _ => KwOutcome::Absent,
    }
}

/// Keyword lookup over a whole tool-call form: the first element is the tag
/// and is skipped; the rest is walked pairwise.
pub open spec fn spec_get_kw(root: SpecVal, key: Seq<char>) -> KwOutcome {
    match root {
        SpecVal::Cons(_, tail) => spec_kw_search(*tail, key),
        _ => KwOutcome::NotAList,
    }
}

/// The pair region of a tool-call form, built out of keyword/value pairs.
pub open spec fn spec_pair_chain(pairs: Seq<(SpecVal, SpecVal)>) -> SpecVal
    decreases pairs.len(),
{
    if pairs.len() == 0 {
        SpecVal::Nil
    } else {
        SpecVal::Cons(
            Box::new(pairs[0].0),
            Box::new(
                SpecVal::Cons(Box::new(pairs[0].1), Box::new(spec_pair_chain(pairs.drop_first()))),
            ),
        )
    }
}

/// A whole tool-call form: the tag followed by keyword/value pairs.
pub open spec fn spec_pairs_form(tag: SpecVal, pairs: Seq<(SpecVal, SpecVal)>) -> SpecVal {
    SpecVal::Cons(Box::new(tag), Box::new(spec_pair_chain(pairs)))
}

/// Law: on a form whose pair region carries the requested keyword at
/// position `i`, and no earlier, lookup yields the value paired there:
/// the first occurrence wins and later duplicates are never inspected.
pub proof fn lemma_find_first_match(
    tag: SpecVal,
    pairs: Seq<(SpecVal, SpecVal)>,
    key: Seq<char>,
    i: int,
)
    requires
        0 <= i < pairs.len(),
        forall|j: int| 0 <= j < i ==> (#[trigger] spec_kw_name(pairs[j].0)) is Some,
        forall|j: int| 0 <= j < i ==> spec_kw_name(#[trigger] pairs[j].0) != Some(key),
        spec_kw_name(pairs[i].0) == Some(key),
    ensures
        spec_get_kw(spec_pairs_form(tag, pairs), key) == KwOutcome::Found(pairs[i].1),
    decreases i,
{
    if i == 0 {
        assert(spec_kw_search(spec_pair_chain(pairs), key) == KwOutcome::Found(pairs[0].1));
    } else {
        let rest = pairs.drop_first();
        assert(forall|j: int| 0 <= j < i - 1 ==> (#[trigger] spec_kw_name(rest[j].0)) is Some);
        assert(forall|j: int| 0 <= j < i - 1 ==> spec_kw_name(#[trigger] rest[j].0) != Some(key));
        assert(spec_kw_name(rest[i - 1].0) == Some(key));
        lemma_find_first_match(tag, rest, key, i - 1);
        assert(spec_kw_name(pairs[0].0) != Some(key));
        assert(spec_kw_search(spec_pair_chain(pairs), key) == spec_kw_search(
            spec_pair_chain(rest),
            key,
        ));
    }
}

/// The keyword name of an atom, as executable code.
fn kw_name_of<'a>(v: &'a Value) -> (r: Option<&'a str>)
    ensures
        match r {
            Some(n) => spec_kw_name(v@) == Some(n@),
            None => spec_kw_name(v@) is None,
        },
{
    match v {
        Value::Sym(s) => {
            let n = s.as_str().unicode_len();
            if n > 0 && s.as_str().get_char(0) == ':' {
                let stripped = s.as_str().substring_char(1, n);
                proof {
                    assert(stripped@ =~= s@.skip(1));
                }
                Some(stripped)
            } else {
                Some(s.as_str())
            }
        }
        Value::Kw(s) => Some(s.as_str()),
        _ => None,
    }
}

/// Extract the raw value paired with a keyword from a tool-call form.
///
/// Returns `Ok(None)` when the keyword is not present; absence is a normal,
/// non-exceptional outcome.
pub fn get_kw_value(root: &Value, key: &str) -> (r: Result<Option<Value>, ExtractError>)
    ensures
        match spec_get_kw(root@, key@) {
            KwOutcome::NotAList => r == Err::<Option<Value>, ExtractError>(ExtractError::NotAList),
            KwOutcome::Found(v) => r matches Ok(Some(rv)) && rv@ == v,
            KwOutcome::Absent => r matches Ok(o) && o is None,
            KwOutcome::Malformed(name) => r matches Err(e) && (e matches
                ExtractError::MissingValueAfterKeyword(k) && k@ == name),
        },
{
    let mut cur: &Value = match root {
        Value::Cons(_, d) => &**d,
        _ => {
            return Err(ExtractError::NotAList);
        },
    };
    loop
        invariant
            spec_get_kw(root@, key@) == spec_kw_search(cur@, key@),
        decreases *cur,
    {
        match cur {
            Value::Cons(k, rest) => {
                match kw_name_of(k) {
                    None => {
                        return Ok(None);
                    },
                    Some(name) => {
                        proof {
                            assert(cur@ == SpecVal::Cons(
                                Box::new((**k)@),
                                Box::new((**rest)@),
                            ));
                        }
                        match &**rest {
                            Value::Cons(val, rest2) => {
                                proof {
                                    assert((**rest)@ == SpecVal::Cons(
                                        Box::new((**val)@),
                                        Box::new((**rest2)@),
                                    ));
                                }
                                if str_eq(name, key) {
                                    return Ok(Some(val.deep_clone()));
                                }
                                cur = &**rest2;
                            },
                            _ => {
                                return Err(
                                    ExtractError::MissingValueAfterKeyword(name.to_owned()),
                                );
                            },
                        }
                    },
                }
            },
            _ => {
                return Ok(None);
            },
        }
    }
}

/// Extract a keyword argument as a string; the paired value must be a
/// string atom.
pub fn get_kw_str(root: &Value, key: &str) -> (r: Result<Option<String>, ExtractError>)
    ensures
        match spec_get_kw(root@, key@) {
            KwOutcome::NotAList => r == Err::<Option<String>, ExtractError>(ExtractError::NotAList),
            KwOutcome::Found(v) => match v {
                SpecVal::Str(s) => r matches Ok(Some(rs)) && rs@ == s,
                _ => r matches Err(e) && (e matches ExtractError::NotAString(k) && k@ == key@),
            },
            KwOutcome::Absent => r matches Ok(o) && o is None,
            KwOutcome::Malformed(name) => r matches Err(e) && (e matches
                ExtractError::MissingValueAfterKeyword(k) && k@ == name),
        },
{
    match get_kw_value(root, key) {
        Err(e) => Err(e),
        Ok(None) => Ok(None),
        Ok(Some(v)) => match v {
            Value::Str(s) => Ok(Some(s)),
            _ => Err(ExtractError::NotAString(key.to_owned())),
        },
    }
}

/// Extract a required keyword argument as a string; absence is an error.
pub fn require_kw_str(root: &Value, key: &str) -> (r: Result<String, ExtractError>)
    ensures
        match spec_get_kw(root@, key@) {
            KwOutcome::NotAList => r == Err::<String, ExtractError>(ExtractError::NotAList),
            KwOutcome::Found(v) => match v {
                SpecVal::Str(s) => r matches Ok(rs) && rs@ == s,
                _ => r matches Err(e) && (e matches ExtractError::NotAString(k) && k@ == key@),
            },
            KwOutcome::Absent => r matches Err(e) && (e matches
                ExtractError::MissingRequiredKeyword(k) && k@ == key@),
            KwOutcome::Malformed(name) => r matches Err(e) && (e matches
                ExtractError::MissingValueAfterKeyword(k) && k@ == name),
        },
{
    match get_kw_str(root, key) {
        Err(e) => Err(e),
        Ok(Some(s)) => Ok(s),
        Ok(None) => Err(ExtractError::MissingRequiredKeyword(key.to_owned())),
    }
}

/// Extract a required string keyword argument; absence is an error.
pub fn require_string(root: &Value, key: &str) -> (r: Result<String, ExtractError>)
    ensures
        match spec_get_kw(root@, key@) {
            KwOutcome::NotAList => r == Err::<String, ExtractError>(ExtractError::NotAList),
            KwOutcome::Found(v) => match v {
                SpecVal::Str(s) => r matches Ok(rs) && rs@ == s,
                _ => r matches Err(e) && (e matches ExtractError::NotAString(k) && k@ == key@),
            },
            KwOutcome::Absent => r matches Err(e) && (e matches
                ExtractError::MissingRequiredKeyword(k) && k@ == key@),
            KwOutcome::Malformed(name) => r matches Err(e) && (e matches
                ExtractError::MissingValueAfterKeyword(k) && k@ == name),
        },
{
    require_kw_str(root, key)
}

/// Extract an optional string keyword argument.
pub fn get_string(root: &Value, key: &str) -> (r: Result<Option<String>, ExtractError>)
    ensures
        match spec_get_kw(root@, key@) {
            KwOutcome::NotAList => r == Err::<Option<String>, ExtractError>(ExtractError::NotAList),
            KwOutcome::Found(v) => match v {
                SpecVal::Str(s) => r matches Ok(Some(rs)) && rs@ == s,
                _ => r matches Err(e) && (e matches ExtractError::NotAString(k) && k@ == key@),
            },
            KwOutcome::Absent => r matches Ok(o) && o is None,
            KwOutcome::Malformed(name) => r matches Err(e) && (e matches
                ExtractError::MissingValueAfterKeyword(k) && k@ == name),
        },
{
    get_kw_str(root, key)
}

/// Extract a required keyword argument as a raw value; absence is an error.
pub fn require_value(root: &Value, key: &str) -> (r: Result<Value, ExtractError>)
    ensures
        match spec_get_kw(root@, key@) {
            KwOutcome::NotAList => r == Err::<Value, ExtractError>(ExtractError::NotAList),
            KwOutcome::Found(v) => r matches Ok(rv) && rv@ == v,
            KwOutcome::Absent => r matches Err(e) && (e matches
                ExtractError::MissingRequiredKeyword(k) && k@ == key@),
            KwOutcome::Malformed(name) => r matches Err(e) && (e matches
                ExtractError::MissingValueAfterKeyword(k) && k@ == name),
        },
{
    match get_kw_value(root, key) {
        Err(e) => Err(e),
        Ok(Some(v)) => Ok(v),
        Ok(None) => Err(ExtractError::MissingRequiredKeyword(key.to_owned())),
    }
}

/// Extract an optional keyword argument as a raw value.
pub fn get_value(root: &Value, key: &str) -> (r: Result<Option<Value>, ExtractError>)
    ensures
        match spec_get_kw(root@, key@) {
            KwOutcome::NotAList => r == Err::<Option<Value>, ExtractError>(ExtractError::NotAList),
            KwOutcome::Found(v) => r matches Ok(Some(rv)) && rv@ == v,
            KwOutcome::Absent => r matches Ok(o) && o is None,
            KwOutcome::Malformed(name) => r matches Err(e) && (e matches
                ExtractError::MissingValueAfterKeyword(k) && k@ == name),
        },
{
    get_kw_value(root, key)
}

/// The boolean reading of a value: a native boolean, or a string or symbol
/// spelled exactly `true` or `false`.
pub open spec fn spec_bool_of(v: SpecVal) -> Option<bool> {
    match v {
        SpecVal::Bool(b) => Some(b),
        SpecVal::Str(s) => if s == "true"@ {
            Some(true)
        } else if s == "false"@ {
            Some(false)
        } else {
            None
        },
        SpecVal::Sym(s) => if s == "true"@ {
            Some(true)
        } else if s == "false"@ {
            Some(false)
        } else {
            None
        },
        _ => None,
    }
}

/// Extract an optional boolean keyword argument; a present value with no
/// boolean reading is an error.
pub fn get_bool(root: &Value, key: &str) -> (r: Result<Option<bool>, ExtractError>)
    ensures
        match spec_get_kw(root@, key@) {
            KwOutcome::NotAList => r == Err::<Option<bool>, ExtractError>(ExtractError::NotAList),
            KwOutcome::Found(v) => match spec_bool_of(v) {
                Some(b) => r == Ok::<Option<bool>, ExtractError>(Some(b)),
                None => r matches Err(e) && (e matches ExtractError::NotABool(k) && k@ == key@),
            },
            KwOutcome::Absent => r matches Ok(o) && o is None,
            KwOutcome::Malformed(name) => r matches Err(e) && (e matches
                ExtractError::MissingValueAfterKeyword(k) && k@ == name),
        },
{
    match get_kw_value(root, key) {
        Err(e) => Err(e),
        Ok(None) => Ok(None),
        Ok(Some(v)) => match v {
            Value::Bool(b) => Ok(Some(b)),
            Value::Str(s) => {
                if str_eq(s.as_str(), "true") {
                    Ok(Some(true))
                } else if str_eq(s.as_str(), "false") {
                    Ok(Some(false))
                } else {
                    Err(ExtractError::NotABool(key.to_owned()))
                }
            }
            Value::Sym(s) => {
                if str_eq(s.as_str(), "true") {
                    Ok(Some(true))
                } else if str_eq(s.as_str(), "false") {
                    Ok(Some(false))
                } else {
                    Err(ExtractError::NotABool(key.to_owned()))
                }
            }
            _ => Err(ExtractError::NotABool(key.to_owned())),
        },
    }
}

/// Whether a character is a decimal digit.
pub open spec fn is_digit_char(c: char) -> bool {
    48 <= c as u32 && c as u32 <= 57
}

/// The numeric value of a decimal digit.
pub open spec fn digit_val(c: char) -> int {
    c as u32 - 48
}

/// Whether every character of a sequence is a decimal digit.
pub open spec fn all_digits(s: Seq<char>) -> bool {
    forall|i: int| 0 <= i < s.len() ==> is_digit_char(s[i])
}

/// The value of a sequence of decimal digits.
pub open spec fn spec_digits_val(s: Seq<char>) -> int
    decreases s.len(),
{
    if s.len() == 0 {
        0
    } else {
        spec_digits_val(s.drop_last()) * 10 + digit_val(s.last())
    }
}

/// The base-10 integer reading of a string: an optional sign, then one or
/// more digits, with the value in the signed 64-bit range.
pub open spec fn spec_parse_int_str(s: Seq<char>) -> Option<int> {
    let neg = s.len() > 0 && s[0] == '-';
    let digits = if s.len() > 0 && (s[0] == '-' || s[0] == '+') {
        s.skip(1)
    } else {
        s
    };
    if digits.len() == 0 || !all_digits(digits) {
        None
    } else {
        let m = spec_digits_val(digits);
        let n = if neg {
            -m
        } else {
            m
        };
        if i64::MIN <= n <= i64::MAX {
            Some(n)
        } else {
            None
        }
    }
}

/// The integer reading of a value: a signed integer atom, an unsigned
/// integer atom within the signed range, or a string atom that parses as a
/// base-10 integer.
pub open spec fn spec_int_of(v: SpecVal) -> Option<int> {
    match v {
        SpecVal::Int(n) => Some(n as int),
        SpecVal::Uint(u) => if u <= i64::MAX {
            Some(u as int)
        } else {
            None
        },
        SpecVal::Str(s) => spec_parse_int_str(s),
        _ => None,
    }
}

/// Parse a base-10 signed 64-bit integer out of a string.
fn parse_i64_str(s: &str) -> (r: Option<i64>)
    ensures
        match r {
            Some(n) => spec_parse_int_str(s@) == Some(n as int),
            None => spec_parse_int_str(s@) is None,
        },
{
    let cs = chars_of(s);
    let n = cs.len();
    let mut start: usize = 0;
    let mut neg = false;
    if n > 0 && (cs[0] == '-' || cs[0] == '+') {
        neg = cs[0] == '-';
        start = 1;
    }
    if start >= n {
        return None;
    }
    let ghost digits = s@.skip(start as int);
    proof {
        if start == 0 {
            assert(s@.skip(0) =~= s@);
        }
    }
    let mut i: usize = start;
    let mut acc: u64 = 0;
    let mut big = false;
    while i < n
        invariant
            cs@ == s@,
            n == s@.len(),
            digits == s@.skip(start as int),
            start <= i <= n,
            start == 0 || start == 1,
            start == 1 ==> n > 0 && (s@[0] == '-' || s@[0] == '+'),
            start == 0 ==> !(n > 0 && (s@[0] == '-' || s@[0] == '+')),
            forall|j: int| start <= j < i ==> is_digit_char(s@[j]),
            big ==> spec_digits_val(s@.subrange(start as int, i as int)) > u64::MAX,
            !big ==> acc == spec_digits_val(s@.subrange(start as int, i as int)),
        decreases n - i,
    {
        let c = cs[i];
        let cv = c as u32;
        if cv < 48 || cv > 57 {
            proof {
                assert(digits =~= s@.subrange(start as int, n as int));
                assert(digits.len() == n - start);
                assert(digits[i - start] == s@[i as int]);
                assert(!all_digits(digits));
            }
            return None;
        }
        let d = (cv - 48) as u64;
        proof {
            assert(s@.subrange(start as int, i + 1 as int).drop_last() =~= s@.subrange(
                start as int,
                i as int,
            ));
            assert(s@.subrange(start as int, i + 1 as int).last() == s@[i as int]);
        }
        if big {
        } else if acc > (u64::MAX - d) / 10 {
            proof {
                assert(acc * 10 + d > u64::MAX);
            }
            big = true;
        } else {
            proof {
                assert(acc * 10 + d <= u64::MAX);
            }
            acc = acc * 10 + d;
        }
        i = i + 1;
    }
    proof {
        assert(s@.subrange(start as int, n as int) =~= digits);
        assert forall|j: int| 0 <= j < digits.len() implies is_digit_char(digits[j]) by {
            assert(digits[j] == s@[j + start]);
        }
        assert(all_digits(digits));
        assert(digits.len() > 0);
    }
    let ghost m = spec_digits_val(digits);
    if big {
        proof {
            assert(m > i64::MAX);
            assert(-m < i64::MIN);
        }
        return None;
    }
    if neg {
        if acc <= 9223372036854775808u64 {
            if acc == 9223372036854775808u64 {
                proof {
                    assert(spec_parse_int_str(s@) == Some(-m));
                    assert(i64::MIN as int == -m);
                }
                Some(i64::MIN)
            } else {
                Some(-(acc as i64))
            }
        } else {
            proof {
                assert(-m < i64::MIN);
            }
            None
        }
    } else {
        if acc <= i64::MAX as u64 {
            Some(acc as i64)
        } else {
            None
        }
    }
}

/// Extract an optional integer keyword argument; a present value with no
/// integer reading is an error.
pub fn get_int(root: &Value, key: &str) -> (r: Result<Option<i64>, ExtractError>)
    ensures
        match spec_get_kw(root@, key@) {
            KwOutcome::NotAList => r == Err::<Option<i64>, ExtractError>(ExtractError::NotAList),
            KwOutcome::Found(v) => match spec_int_of(v) {
                Some(n) => r matches Ok(Some(m)) && m as int == n,
                None => r matches Err(e) && (e matches ExtractError::NotAnInt(k) && k@ == key@),
            },
            KwOutcome::Absent => r matches Ok(o) && o is None,
            KwOutcome::Malformed(name) => r matches Err(e) && (e matches
                ExtractError::MissingValueAfterKeyword(k) && k@ == name),
        },
{
    match get_kw_value(root, key) {
        Err(e) => Err(e),
        Ok(None) => Ok(None),
        Ok(Some(v)) => match v {
            Value::Int(n) => Ok(Some(n)),
            Value::Uint(u) => {
                if u <= i64::MAX as u64 {
                    Ok(Some(u as i64))
                } else {
                    Err(ExtractError::NotAnInt(key.to_owned()))
                }
            }
            Value::Str(s) => match parse_i64_str(s.as_str()) {
                Some(m) => Ok(Some(m)),
                None => Err(ExtractError::NotAnInt(key.to_owned())),
            },
            _ => Err(ExtractError::NotAnInt(key.to_owned())),
        },
    }
}

/// Extract an optional non-negative integer keyword argument; a negative
/// value is an error.
pub fn get_uint(root: &Value, key: &str) -> (r: Result<Option<usize>, ExtractError>)
    ensures
        match spec_get_kw(root@, key@) {
            KwOutcome::NotAList => r == Err::<Option<usize>, ExtractError>(ExtractError::NotAList),
            KwOutcome::Found(v) => match spec_int_of(v) {
                Some(n) => if n < 0 {
                    r matches Err(e) && (e matches ExtractError::NegativeInt(k) && k@ == key@)
                } else if n <= usize::MAX {
                    r matches Ok(Some(u)) && u as int == n
                } else {
                    r matches Err(e) && (e matches ExtractError::IntOutOfRange(k) && k@ == key@)
                },
                None => r matches Err(e) && (e matches ExtractError::NotAnInt(k) && k@ == key@),
            },
            KwOutcome::Absent => r matches Ok(o) && o is None,
            KwOutcome::Malformed(name) => r matches Err(e) && (e matches
                ExtractError::MissingValueAfterKeyword(k) && k@ == name),
        },
{
    match get_int(root, key) {
        Err(e) => Err(e),
        Ok(None) => Ok(None),
        Ok(Some(m)) => {
            if m < 0 {
                Err(ExtractError::NegativeInt(key.to_owned()))
            } else if (m as u64) <= (usize::MAX as u64) {
                Ok(Some(m as usize))
            } else {
                Err(ExtractError::IntOutOfRange(key.to_owned()))
            }
        }
    }
}

/// The elements of a proper list of string atoms, or the first violation
/// found while walking head to tail.
pub open spec fn spec_string_list(v: SpecVal) -> Result<Seq<Seq<char>>, ExtractError>
    decreases v,
{
    match v {
        SpecVal::Nil => Ok(Seq::empty()),
        SpecVal::Cons(a, d) => match *a {
            SpecVal::Str(s) => match spec_string_list(*d) {
                Ok(rest) => Ok(seq![s] + rest),
                Err(e) => Err(e),
            },
            _ => Err(ExtractError::NotAStringItem),
        },
        _ => Err(ExtractError::NotAProperList),
    }
}

/// Collect the elements of a proper list; any other shape is an error.
pub fn iter_list(value: &Value) -> (r: Result<Vec<Value>, ExtractError>)
    ensures
        spec_is_proper_list(value@) ==> (r matches Ok(items) && items@.map_values(
            |v: Value| v@,
        ) == spec_list_elems(value@)),
        !spec_is_proper_list(value@) ==> r == Err::<Vec<Value>, ExtractError>(
            ExtractError::NotAProperList,
        ),
{
    let mut out: Vec<Value> = Vec::new();
    let mut cur: &Value = value;
    loop
        invariant
            spec_is_proper_list(value@) == spec_is_proper_list(cur@),
            spec_is_proper_list(cur@) ==> spec_list_elems(value@) == out@.map_values(
                |v: Value| v@,
            ) + spec_list_elems(cur@),
        decreases *cur,
    {
        match cur {
            Value::Cons(a, d) => {
                out.push(a.deep_clone());
                proof {
                    assert(cur@ == SpecVal::Cons(Box::new((**a)@), Box::new((**d)@)));
                    assert(out@.map_values(|v: Value| v@) =~= out@.drop_last().map_values(
                        |v: Value| v@,
                    ).push((**a)@));
                    assert(out@.drop_last().map_values(|v: Value| v@).push((**a)@) + spec_list_elems(
                        (**d)@,
                    ) =~= out@.drop_last().map_values(|v: Value| v@) + spec_list_elems(cur@));
                }
                cur = &**d;
            },
            Value::Nil => {
                proof {
                    assert(spec_list_elems(cur@) =~= Seq::<SpecVal>::empty());
                    assert(out@.map_values(|v: Value| v@) + spec_list_elems(cur@)
                        =~= out@.map_values(|v: Value| v@));
                }
                return Ok(out);
            },
            _ => {
                return Err(ExtractError::NotAProperList);
            },
        }
    }
}

/// Parse a proper list of string atoms into a vector of strings, in list
/// order.
pub fn parse_str_list(value: &Value) -> (r: Result<Vec<String>, ExtractError>)
    ensures
        match spec_string_list(value@) {
            Ok(ss) => r matches Ok(out) && out@.map_values(|s: String| s@) == ss,
            Err(e) => r == Err::<Vec<String>, ExtractError>(e),
        },
{
    let mut out: Vec<String> = Vec::new();
    let mut cur: &Value = value;
    loop
        invariant
            match spec_string_list(cur@) {
                Ok(rest) => spec_string_list(value@) == Ok::<Seq<Seq<char>>, ExtractError>(
                    out@.map_values(|s: String| s@) + rest,
                ),
                Err(e) => spec_string_list(value@) == Err::<Seq<Seq<char>>, ExtractError>(e),
            },
        decreases *cur,
    {
        match cur {
            Value::Cons(a, d) => {
                proof {
                    assert(cur@ == SpecVal::Cons(Box::new((**a)@), Box::new((**d)@)));
                }
                match &**a {
                    Value::Str(s) => {
                        proof {
                            assert((**a)@ == SpecVal::Str(s@));
                        }
                        let ghost old_map = out@.map_values(|x: String| x@);
                        out.push(s.clone());
                        proof {
                            assert(out@.map_values(|x: String| x@) =~~= old_map.push(s@));
                            match spec_string_list((**d)@) {
                                Ok(rest) => {
                                    assert(spec_string_list(cur@) == Ok::<
                                        Seq<Seq<char>>,
                                        ExtractError,
                                    >(seq![s@] + rest));
                                    assert(old_map + (seq![s@] + rest) =~~= old_map.push(s@)
                                        + rest);
                                },
                                Err(e) => {
                                    assert(spec_string_list(cur@) == Err::<
                                        Seq<Seq<char>>,
                                        ExtractError,
                                    >(e));
                                },
                            }
                        }
                        cur = &**d;
                    },
                    _ => {
                        return Err(ExtractError::NotAStringItem);
                    },
                }
            },
            Value::Nil => {
                proof {
                    assert(out@.map_values(|s: String| s@) + Seq::<Seq<char>>::empty()
                        =~= out@.map_values(|s: String| s@));
                }
                return Ok(out);
            },
            _ => {
                return Err(ExtractError::NotAProperList);
            },
        }
    }
}

/// Extract a string list from a value, as `parse_str_list`.
pub fn extract_string_list(value: &Value) -> (r: Result<Vec<String>, ExtractError>)
    ensures
        match spec_string_list(value@) {
            Ok(ss) => r matches Ok(out) && out@.map_values(|s: String| s@) == ss,
            Err(e) => r == Err::<Vec<String>, ExtractError>(e),
        },
{
    parse_str_list(value)
}

} // verus!
