//! The parser: raw text to a [`Value`] tree.
//!
//! The grammar covers what tool-call traffic uses: proper lists written
//! `( ... )`, string literals with the `\\`, `\"` and `\n` escapes, the
//! booleans `#t` and `#f`, base-10 integers with an optional leading minus,
//! and symbols (any other run of non-delimiter characters).  The whole
//! input must be one value; surrounding whitespace is insignificant.
//!
//! The grammar itself is written down as the `spec_read_*` functions below;
//! the executable parser is proved to return exactly what they describe.

use vstd::prelude::*;

use crate::extract::{all_digits, is_digit_char, spec_digits_val};
use crate::strutil::{chars_of, copy_range, is_ws, is_ws_char, string_from_chars};
use crate::value::{SpecVal, Value};

verus! {

/// Errors raised while parsing raw text.  All of them reject the whole
/// input; no partial result is returned.
#[derive(Debug, Clone, Copy, PartialEq, Eq)]
pub enum ParseError {
    /// The input held no value (empty or all whitespace).
    EmptyInput,
    /// A string literal was not closed before the end of the input.
    UnterminatedString,
    /// A backslash escape other than `\\`, `\"` or `\n` stood in a string
    /// literal.
    BadEscape,
    /// A list was not closed before the end of the input.
    UnterminatedList,
    /// A closing delimiter stood where a value was expected.
    UnexpectedCloseParen,
    /// An atom had invalid syntax (a stray `#` form, or a malformed
    /// number).
    InvalidAtom,
    /// An integer literal lay outside the representable range.
    IntegerOverflow,
    /// A complete value was followed by more than whitespace.
    TrailingInput,
}

/// The user-visible text of each parse error.
pub open spec fn spec_parse_error_message(e: ParseError) -> Seq<char> {
    match e {
        ParseError::EmptyInput => "empty input"@,
        ParseError::UnterminatedString => "unterminated string literal"@,
        ParseError::BadEscape => "invalid escape sequence in string literal"@,
        ParseError::UnterminatedList => "unterminated list"@,
        ParseError::UnexpectedCloseParen => "unexpected closing delimiter"@,
        ParseError::InvalidAtom => "invalid atom syntax"@,
        ParseError::IntegerOverflow => "integer literal out of range"@,
        ParseError::TrailingInput => "unexpected trailing input"@,
    }
}

impl ParseError {
    /// Render the error as user-visible text.
    pub fn message(&self) -> (r: String)
        ensures
            r@ == spec_parse_error_message(*self),
    {
        match self {
            ParseError::EmptyInput => String::from_str("empty input"),
            ParseError::UnterminatedString => String::from_str("unterminated string literal"),
            ParseError::BadEscape => String::from_str("invalid escape sequence in string literal"),
            ParseError::UnterminatedList => String::from_str("unterminated list"),
            ParseError::UnexpectedCloseParen => String::from_str("unexpected closing delimiter"),
            ParseError::InvalidAtom => String::from_str("invalid atom syntax"),
            ParseError::IntegerOverflow => String::from_str("integer literal out of range"),
            ParseError::TrailingInput => String::from_str("unexpected trailing input"),
        }
    }
}

/// Whether a character ends an atom: whitespace or a structural delimiter.
pub open spec fn spec_is_delim(c: char) -> bool {
    is_ws_char(c) || c == '(' || c == ')' || c == '"'
}

/// Delimiter test, as executable code.
fn is_delim(c: char) -> (b: bool)
    ensures
        b == spec_is_delim(c),
{
    is_ws(c) || c == '(' || c == ')' || c == '"'
}

/// The input without its leading whitespace.
pub open spec fn spec_skip_ws(s: Seq<char>) -> Seq<char>
    decreases s.len(),
{
    if s.len() > 0 && is_ws_char(s[0]) {
        spec_skip_ws(s.drop_first())
    } else {
        s
    }
}

/// The body of a string literal, read after the opening quote: the decoded
/// content and the input after the closing quote.
pub open spec fn spec_read_str_body(s: Seq<char>) -> Result<(Seq<char>, Seq<char>), ParseError>
    decreases s.len(),
{
    if s.len() == 0 {
        Err(ParseError::UnterminatedString)
    } else if s[0] == '"' {
        Ok((Seq::empty(), s.drop_first()))
    } else if s[0] == '\\' {
        if s.len() < 2 {
            Err(ParseError::UnterminatedString)
        } else {
            let d = if s[1] == '\\' {
                Some('\\')
            } else if s[1] == '"' {
                Some('"')
            } else if s[1] == 'n' {
                Some('\n')
            } else {
                None
            };
            match d {
                None => Err(ParseError::BadEscape),
                Some(c) => match spec_read_str_body(s.skip(2)) {
                    Err(e) => Err(e),
                    Ok((content, rest)) => Ok((seq![c] + content, rest)),
                },
            }
        }
    } else {
        match spec_read_str_body(s.drop_first()) {
            Err(e) => Err(e),
            Ok((content, rest)) => Ok((seq![s[0]] + content, rest)),
        }
    }
}

/// The longest delimiter-free prefix of the input: the text of an atom.
pub open spec fn spec_take_atom(s: Seq<char>) -> Seq<char>
    decreases s.len(),
{
    if s.len() == 0 || spec_is_delim(s[0]) {
        Seq::empty()
    } else {
        seq![s[0]] + spec_take_atom(s.drop_first())
    }
}

/// The value of an atom's text: `#t` and `#f` are booleans, an optional
/// minus followed by digits is an integer (signed if it fits, unsigned
/// above the signed range), any other `#` form and any malformed number are
/// invalid, and everything else is a symbol.
pub open spec fn spec_classify_atom(t: Seq<char>) -> Result<SpecVal, ParseError> {
    if t.len() >= 1 && (is_digit_char(t[0]) || (t[0] == '-' && t.len() >= 2 && is_digit_char(
        t[1],
    ))) {
        let neg = t[0] == '-';
        let digits = if neg {
            t.skip(1)
        } else {
            t
        };
        if !all_digits(digits) {
            Err(ParseError::InvalidAtom)
        } else {
            let m = spec_digits_val(digits);
            if neg {
                if -m >= i64::MIN {
                    Ok(SpecVal::Int((-m) as i64))
                } else {
                    Err(ParseError::IntegerOverflow)
                }
            } else {
                if m <= i64::MAX {
                    Ok(SpecVal::Int(m as i64))
                } else if m <= u64::MAX {
                    Ok(SpecVal::Uint(m as u64))
                } else {
                    Err(ParseError::IntegerOverflow)
                }
            }
        }
    } else if t == seq!['#', 't'] {
        Ok(SpecVal::Bool(true))
    } else if t == seq!['#', 'f'] {
        Ok(SpecVal::Bool(false))
    } else if t.len() >= 1 && t[0] == '#' {
        Err(ParseError::InvalidAtom)
    } else {
        Ok(SpecVal::Sym(t))
    }
}

/// One value read from the front of the input (which must not start with
/// whitespace): the value and the input after it.
pub open spec fn spec_read_value(s: Seq<char>) -> Result<(SpecVal, Seq<char>), ParseError>
    decreases s.len(), 0int,
{
    if s.len() == 0 {
        Err(ParseError::EmptyInput)
    } else if is_ws_char(s[0]) {
        Err(ParseError::EmptyInput)
    } else if s[0] == '"' {
        match spec_read_str_body(s.drop_first()) {
            Err(e) => Err(e),
            Ok((content, rest)) => Ok((SpecVal::Str(content), rest)),
        }
    } else if s[0] == '(' {
        spec_read_list(s.drop_first())
    } else if s[0] == ')' {
        Err(ParseError::UnexpectedCloseParen)
    } else {
        let t = spec_take_atom(s);
        match spec_classify_atom(t) {
            Err(e) => Err(e),
            Ok(v) => Ok((v, s.skip(t.len() as int))),
        }
    }
}

/// The remainder of a list, read after its opening delimiter: elements up
/// to the matching close, chained into cons cells ending in nil.
pub open spec fn spec_read_list(s: Seq<char>) -> Result<(SpecVal, Seq<char>), ParseError>
    decreases s.len(), 1int,
{
    if s.len() == 0 {
        Err(ParseError::UnterminatedList)
    } else if is_ws_char(s[0]) {
        spec_read_list(s.drop_first())
    } else if s[0] == ')' {
        Ok((SpecVal::Nil, s.drop_first()))
    } else {
        match spec_read_value(s) {
            Err(e) => Err(e),
            Ok((head, rest)) => if rest.len() < s.len() {
                match spec_read_list(rest) {
                    Err(e) => Err(e),
                    Ok((tail, rest2)) => Ok(
                        (SpecVal::Cons(Box::new(head), Box::new(tail)), rest2),
                    ),
                }
            } else {
                // Reading a value always consumes input, so this branch is
                // never taken; it closes the termination argument.
                Err(ParseError::UnterminatedList)
            },
        }
    }
}

/// The whole input as one value: leading and trailing whitespace is
/// insignificant, anything else after the value is an error.
pub open spec fn spec_parse(s: Seq<char>) -> Result<SpecVal, ParseError> {
    match spec_read_value(spec_skip_ws(s)) {
        Err(e) => Err(e),
        Ok((v, rest)) => if spec_skip_ws(rest).len() == 0 {
            Ok(v)
        } else {
            Err(ParseError::TrailingInput)
        },
    }
}

/// The index of the first non-whitespace character at or after `i`.
fn skip_ws_at(cs: &Vec<char>, i: usize) -> (j: usize)
    requires
        i <= cs@.len(),
    ensures
        i <= j <= cs@.len(),
        spec_skip_ws(cs@.skip(i as int)) == cs@.skip(j as int),
        j < cs@.len() ==> !is_ws_char(cs@[j as int]),
    decreases cs@.len() - i,
{
    if i < cs.len() && is_ws(cs[i]) {
        proof {
            assert(cs@.skip(i as int).drop_first() =~= cs@.skip(i + 1 as int));
        }
        skip_ws_at(cs, i + 1)
    } else {
        proof {
            if i < cs@.len() {
                assert(cs@.skip(i as int)[0] == cs@[i as int]);
            }
        }
        i
    }
}

/// The end of the atom that starts at `i`.
fn scan_atom_end(cs: &Vec<char>, i: usize) -> (k: usize)
    requires
        i <= cs@.len(),
    ensures
        i <= k <= cs@.len(),
        spec_take_atom(cs@.skip(i as int)) == cs@.subrange(i as int, k as int),
    decreases cs@.len() - i,
{
    if i < cs.len() && !is_delim(cs[i]) {
        proof {
            assert(cs@.skip(i as int)[0] == cs@[i as int]);
            assert(cs@.skip(i as int).drop_first() =~= cs@.skip(i + 1 as int));
        }
        let k = scan_atom_end(cs, i + 1);
        proof {
            assert(seq![cs@[i as int]] + cs@.subrange(i + 1 as int, k as int) =~= cs@.subrange(
                i as int,
                k as int,
            ));
        }
        k
    } else {
        proof {
            if i < cs@.len() {
                assert(cs@.skip(i as int)[0] == cs@[i as int]);
            }
            assert(cs@.subrange(i as int, i as int) =~= Seq::<char>::empty());
        }
        i
    }
}

/// Classify a (non-empty) atom's text.
fn classify_atom(t: &Vec<char>) -> (r: Result<Value, ParseError>)
    requires
        t@.len() >= 1,
    ensures
        match r {
            Ok(v) => spec_classify_atom(t@) == Ok::<SpecVal, ParseError>(v@),
            Err(e) => spec_classify_atom(t@) == Err::<SpecVal, ParseError>(e),
        },
{
    let n = t.len();
    let c0 = t[0];
    let c0v = c0 as u32;
    let neg = c0 == '-';
    let mut numeric = 48 <= c0v && c0v <= 57;
    if neg && n >= 2 {
        let c1v = t[1] as u32;
        if 48 <= c1v && c1v <= 57 {
            numeric = true;
        }
    }
    if numeric {
        let start: usize = if neg {
            1
        } else {
            0
        };
        let ghost digits = t@.skip(start as int);
        proof {
            if start == 0 {
                assert(t@.skip(0) =~= t@);
            }
        }
        let mut i: usize = start;
        let mut acc: u64 = 0;
        let mut big = false;
        while i < n
            invariant
                n == t@.len(),
                n >= 1,
                digits == t@.skip(start as int),
                start <= i <= n,
                is_digit_char(t@[0]) || (t@[0] == '-' && t@.len() >= 2 && is_digit_char(t@[1])),
                start == (if t@[0] == '-' {
                    1int
                } else {
                    0int
                }),
                forall|j: int| start <= j < i ==> is_digit_char(t@[j]),
                big ==> spec_digits_val(t@.subrange(start as int, i as int)) > u64::MAX,
                !big ==> acc == spec_digits_val(t@.subrange(start as int, i as int)),
            decreases n - i,
        {
            let cv = t[i] as u32;
            if cv < 48 || cv > 57 {
                proof {
                    assert(digits =~= t@.subrange(start as int, t@.len() as int));
                    assert(digits[i - start] == t@[i as int]);
                    assert(!all_digits(digits));
                }
                return Err(ParseError::InvalidAtom);
            }
            let d = (cv - 48) as u64;
            proof {
                assert(t@.subrange(start as int, i + 1 as int).drop_last() =~= t@.subrange(
                    start as int,
                    i as int,
                ));
                assert(t@.subrange(start as int, i + 1 as int).last() == t@[i as int]);
            }
            if big {
            } else if acc > (u64::MAX - d) / 10 {
                proof {
                    assert(acc * 10 + d > u64::MAX);
                }
                big = true;
            } else {
                proof {
                    assert(acc * 10 + d <= u64::MAX);
                }
                acc = acc * 10 + d;
            }
            i = i + 1;
        }
        proof {
            assert(t@.subrange(start as int, n as int) =~= digits);
            assert forall|j: int| 0 <= j < digits.len() implies is_digit_char(digits[j]) by {
                assert(digits[j] == t@[j + start]);
            }
            assert(all_digits(digits));
        }
        let ghost m = spec_digits_val(digits);
        if neg {
            if big {
                proof {
                    assert(-m < i64::MIN);
                }
                return Err(ParseError::IntegerOverflow);
            }
            if acc < 9223372036854775808u64 {
                Ok(Value::Int(-(acc as i64)))
            } else if acc == 9223372036854775808u64 {
                proof {
                    assert(i64::MIN as int == -m);
                }
                Ok(Value::Int(i64::MIN))
            } else {
                proof {
                    assert(-m < i64::MIN);
                }
                Err(ParseError::IntegerOverflow)
            }
        } else {
            if big {
                proof {
                    assert(m > u64::MAX);
                }
                return Err(ParseError::IntegerOverflow);
            }
            if acc <= i64::MAX as u64 {
                Ok(Value::Int(acc as i64))
            } else {
                Ok(Value::Uint(acc))
            }
        }
    } else if c0 == '#' {
        if n == 2 && t[1] == 't' {
            proof {
                assert(t@ =~= seq!['#', 't']);
            }
            Ok(Value::Bool(true))
        } else if n == 2 && t[1] == 'f' {
            proof {
                assert(t@ =~= seq!['#', 'f']);
            }
            Ok(Value::Bool(false))
        } else {
            proof {
                assert(t@ != seq!['#', 't'] && t@ != seq!['#', 'f']) by {
                    if t@ == seq!['#', 't'] || t@ == seq!['#', 'f'] {
                        assert(t@.len() == 2);
                        assert(t@[1] == 't' || t@[1] == 'f');
                    }
                }
            }
            Err(ParseError::InvalidAtom)
        }
    } else {
        proof {
            assert(t@ != seq!['#', 't'] && t@ != seq!['#', 'f']) by {
                if t@ == seq!['#', 't'] || t@ == seq!['#', 'f'] {
                    assert(t@[0] == '#');
                }
            }
        }
        Ok(Value::Sym(string_from_chars(t)))
    }
}

/// Read a string literal body starting at `i` (just after the opening
/// quote).
pub(crate) fn read_str_body_at(cs: &Vec<char>, i: usize) -> (r: Result<(String, usize), ParseError>)
    requires
        i <= cs@.len(),
    ensures
        match r {
            Ok((content, j)) => i <= j <= cs@.len() && spec_read_str_body(cs@.skip(i as int))
                == Ok::<(Seq<char>, Seq<char>), ParseError>((content@, cs@.skip(j as int))),
            Err(e) => spec_read_str_body(cs@.skip(i as int)) == Err::<
                (Seq<char>, Seq<char>),
                ParseError,
            >(e),
        },
{
    let n = cs.len();
    let mut acc: Vec<char> = Vec::new();
    let mut j = i;
    loop
        invariant
            n == cs@.len(),
            i <= j <= n,
            match spec_read_str_body(cs@.skip(j as int)) {
                Ok((content, rest)) => spec_read_str_body(cs@.skip(i as int)) == Ok::<
                    (Seq<char>, Seq<char>),
                    ParseError,
                >((acc@ + content, rest)),
                Err(e) => spec_read_str_body(cs@.skip(i as int)) == Err::<
                    (Seq<char>, Seq<char>),
                    ParseError,
                >(e),
            },
        decreases n - j,
    {
        if j >= n {
            proof {
                assert(cs@.skip(j as int).len() == 0);
            }
            return Err(ParseError::UnterminatedString);
        }
        let c = cs[j];
        proof {
            assert(cs@.skip(j as int)[0] == cs@[j as int]);
        }
        if c == '"' {
            proof {
                assert(cs@.skip(j as int).drop_first() =~= cs@.skip(j + 1 as int));
                assert(acc@ + Seq::<char>::empty() =~= acc@);
            }
            return Ok((string_from_chars(&acc), j + 1));
        }
        if c == '\\' {
            if j + 1 >= n {
                proof {
                    assert(cs@.skip(j as int).len() < 2);
                }
                return Err(ParseError::UnterminatedString);
            }
            let e = cs[j + 1];
            proof {
                assert(cs@.skip(j as int)[1] == cs@[j + 1 as int]);
            }
            let d: char;
            if e == '\\' {
                d = '\\';
            } else if e == '"' {
                d = '"';
            } else if e == 'n' {
                d = '\n';
            } else {
                return Err(ParseError::BadEscape);
            }
            let ghost old_acc = acc@;
            acc.push(d);
            proof {
                assert(cs@.skip(j as int).skip(2) =~= cs@.skip(j + 2 as int));
                if spec_read_str_body(cs@.skip(j + 2 as int)) is Ok {
                    let content = spec_read_str_body(cs@.skip(j + 2 as int))->Ok_0.0;
                    assert(old_acc + (seq![d] + content) =~= acc@ + content);
                }
            }
            j = j + 2;
        } else {
            let ghost old_acc = acc@;
            acc.push(c);
            proof {
                assert(cs@.skip(j as int).drop_first() =~= cs@.skip(j + 1 as int));
                if spec_read_str_body(cs@.skip(j + 1 as int)) is Ok {
                    let content = spec_read_str_body(cs@.skip(j + 1 as int))->Ok_0.0;
                    assert(old_acc + (seq![c] + content) =~= acc@ + content);
                }
            }
            j = j + 1;
        }
    }
}

/// Read one value starting at `i` (which must not point at whitespace for
/// a successful read).
fn read_value_at(cs: &Vec<char>, i: usize) -> (r: Result<(Value, usize), ParseError>)
    requires
        i <= cs@.len(),
    ensures
        match r {
            Ok((v, j)) => i < j <= cs@.len() && spec_read_value(cs@.skip(i as int)) == Ok::<
                (SpecVal, Seq<char>),
                ParseError,
            >((v@, cs@.skip(j as int))),
            Err(e) => spec_read_value(cs@.skip(i as int)) == Err::<(SpecVal, Seq<char>), ParseError>(
                e,
            ),
        },
    decreases cs@.len() - i, 0int,
{
    if i >= cs.len() {
        proof {
            assert(cs@.skip(i as int).len() == 0);
        }
        return Err(ParseError::EmptyInput);
    }
    let c = cs[i];
    proof {
        assert(cs@.skip(i as int)[0] == cs@[i as int]);
    }
    if is_ws(c) {
        return Err(ParseError::EmptyInput);
    }
    if c == '"' {
        proof {
            assert(cs@.skip(i as int).drop_first() =~= cs@.skip(i + 1 as int));
        }
        match read_str_body_at(cs, i + 1) {
            Err(e) => Err(e),
            Ok((content, j)) => Ok((Value::Str(content), j)),
        }
    } else if c == '(' {
        proof {
            assert(cs@.skip(i as int).drop_first() =~= cs@.skip(i + 1 as int));
        }
        match read_list_at(cs, i + 1) {
            Err(e) => Err(e),
            Ok((v, j)) => Ok((v, j)),
        }
    } else if c == ')' {
        Err(ParseError::UnexpectedCloseParen)
    } else {
        let k = scan_atom_end(cs, i);
        proof {
            assert(spec_take_atom(cs@.skip(i as int)).len() == k - i);
            assert(spec_take_atom(cs@.skip(i as int)).len() >= 1) by {
                assert(cs@.skip(i as int)[0] == cs@[i as int]);
                assert(!spec_is_delim(cs@[i as int]));
            }
            assert(cs@.skip(i as int).skip(k - i) =~= cs@.skip(k as int));
        }
        let t = copy_range(cs, i, k);
        match classify_atom(&t) {
            Err(e) => Err(e),
            Ok(v) => Ok((v, k)),
        }
    }
}

/// Read the remainder of a list starting at `i` (just after the opening
/// delimiter).
fn read_list_at(cs: &Vec<char>, i: usize) -> (r: Result<(Value, usize), ParseError>)
    requires
        i <= cs@.len(),
    ensures
        match r {
            Ok((v, j)) => i < j <= cs@.len() && spec_read_list(cs@.skip(i as int)) == Ok::<
                (SpecVal, Seq<char>),
                ParseError,
            >((v@, cs@.skip(j as int))),
            Err(e) => spec_read_list(cs@.skip(i as int)) == Err::<(SpecVal, Seq<char>), ParseError>(
                e,
            ),
        },
    decreases cs@.len() - i, 1int,
{
    if i >= cs.len() {
        proof {
            assert(cs@.skip(i as int).len() == 0);
        }
        return Err(ParseError::UnterminatedList);
    }
    let c = cs[i];
    proof {
        assert(cs@.skip(i as int)[0] == cs@[i as int]);
    }
    if is_ws(c) {
        proof {
            assert(cs@.skip(i as int).drop_first() =~= cs@.skip(i + 1 as int));
        }
        return read_list_at(cs, i + 1);
    }
    if c == ')' {
        proof {
            assert(cs@.skip(i as int).drop_first() =~= cs@.skip(i + 1 as int));
        }
        return Ok((Value::Nil, i + 1));
    }
    match read_value_at(cs, i) {
        Err(e) => Err(e),
        Ok((head, j)) => {
            proof {
                assert(cs@.skip(j as int).len() < cs@.skip(i as int).len());
            }
            match read_list_at(cs, j) {
                Err(e) => Err(e),
                Ok((tail, k)) => Ok((Value::Cons(Box::new(head), Box::new(tail)), k)),
            }
        },
    }
}

/// Parse a full S-expression string into a [`Value`].
///
/// The entire input is consumed as one value; leading and trailing
/// whitespace is insignificant.  No partial result is returned on failure.
pub fn parse_value(input: &str) -> (r: Result<Value, ParseError>)
    ensures
        match r {
            Ok(v) => spec_parse(input@) == Ok::<SpecVal, ParseError>(v@),
            Err(e) => spec_parse(input@) == Err::<SpecVal, ParseError>(e),
        },
{
    let cs = chars_of(input);
    proof {
        assert(cs@.skip(0) =~= input@);
    }
    let start = skip_ws_at(&cs, 0);
    match read_value_at(&cs, start) {
        Err(e) => Err(e),
        Ok((v, j)) => {
            let end = skip_ws_at(&cs, j);
            if end >= cs.len() {
                proof {
                    assert(spec_skip_ws(cs@.skip(j as int)).len() == 0);
                }
                Ok(v)
            } else {
                Err(ParseError::TrailingInput)
            }
        },
    }
}

/// Parse a tool-call S-expression, as [`parse_value`].
pub fn parse_tool_call(sexpr: &str) -> (r: Result<Value, ParseError>)
    ensures
        match r {
            Ok(v) => spec_parse(sexpr@) == Ok::<SpecVal, ParseError>(v@),
            Err(e) => spec_parse(sexpr@) == Err::<SpecVal, ParseError>(e),
        },
{
    parse_value(sexpr)
}

} // verus!
