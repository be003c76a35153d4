//! String quoting and space-joined list rendering.
//!
//! `quote_str` wraps a string in double quotes under a minimal escaping
//! policy: backslash, double quote and newline receive a two-character
//! escape; every other character passes through unchanged.

use vstd::prelude::*;

use crate::parse::{read_str_body_at, spec_read_str_body, ParseError};
use crate::strutil::{chars_of, push_char};

verus! {

/// The escape expansion of a single character under the minimal quoting
/// policy.
pub open spec fn escape_char(c: char) -> Seq<char> {
    if c == '\\' {
        seq!['\\', '\\']
    } else if c == '"' {
        seq!['\\', '"']
    } else if c == '\n' {
        seq!['\\', 'n']
    } else {
        seq![c]
    }
}

/// The escaped body of a string: each character replaced by its expansion.
pub open spec fn escape_seq(s: Seq<char>) -> Seq<char>
    decreases s.len(),
{
    if s.len() == 0 {
        Seq::empty()
    } else {
        escape_char(s[0]) + escape_seq(s.drop_first())
    }
}

/// What `quote_str` returns: the escaped body wrapped in double quotes.
pub open spec fn spec_quote(s: Seq<char>) -> Seq<char> {
    seq!['"'] + escape_seq(s) + seq!['"']
}

/// Escaping distributes over concatenation.
pub proof fn lemma_escape_seq_app(a: Seq<char>, b: Seq<char>)
    ensures
        escape_seq(a + b) == escape_seq(a) + escape_seq(b),
    decreases a.len(),
{
    if a.len() == 0 {
        assert(a + b =~= b);
        assert(escape_seq(a) + escape_seq(b) =~= escape_seq(b));
    } else {
        assert((a + b).drop_first() =~= a.drop_first() + b);
        lemma_escape_seq_app(a.drop_first(), b);
        assert(escape_char(a[0]) + (escape_seq(a.drop_first()) + escape_seq(b)) =~= (escape_char(
            a[0],
        ) + escape_seq(a.drop_first())) + escape_seq(b));
        assert((a + b)[0] == a[0]);
    }
}

/// Escaping a one-character extension appends that character's expansion.
pub proof fn lemma_escape_seq_snoc(s: Seq<char>, i: int)
    requires
        0 <= i < s.len(),
    ensures
        escape_seq(s.take(i + 1)) == escape_seq(s.take(i)) + escape_char(s[i]),
{
    assert(s.take(i + 1) =~= s.take(i) + seq![s[i]]);
    lemma_escape_seq_app(s.take(i), seq![s[i]]);
    assert(escape_seq(seq![s[i]].drop_first()) == Seq::<char>::empty());
    assert(escape_seq(seq![s[i]]) =~= escape_char(s[i]));
}

/// Quote and minimally escape a string for use inside an S-expression
/// string literal: `\` becomes `\\`, `"` becomes `\"`, and a newline
/// becomes the two characters `\n`.
pub fn quote_str(s: &str) -> (r: String)
    ensures
        r@ == spec_quote(s@),
{
    let chars = chars_of(s);
    let mut out = String::new();
    push_char(&mut out, '"');
    let mut i: usize = 0;
    while i < chars.len()
        invariant
            chars@ == s@,
            i <= chars@.len(),
            out@ == seq!['"'] + escape_seq(s@.take(i as int)),
        decreases chars@.len() - i,
    {
        let c = chars[i];
        if c == '\\' {
            push_char(&mut out, '\\');
            push_char(&mut out, '\\');
        } else if c == '"' {
            push_char(&mut out, '\\');
            push_char(&mut out, '"');
        } else if c == '\n' {
            push_char(&mut out, '\\');
            push_char(&mut out, 'n');
        } else {
            push_char(&mut out, c);
        }
        proof {
            lemma_escape_seq_snoc(s@, i as int);
            assert(out@ =~= seq!['"'] + escape_seq(s@.take(i + 1 as int)));
        }
        i = i + 1;
    }
    push_char(&mut out, '"');
    proof {
        assert(s@.take(s@.len() as int) =~= s@);
        assert(out@ =~= spec_quote(s@));
    }
    out
}

/// What `dequote` returns: the decoded content of a complete string
/// literal, or nothing if the input is not exactly one string literal.
pub open spec fn spec_dequote(s: Seq<char>) -> Option<Seq<char>> {
    if s.len() >= 1 && s[0] == '"' {
        match spec_read_str_body(s.drop_first()) {
            Ok((content, rest)) => if rest.len() == 0 {
                Some(content)
            } else {
                None
            },
            Err(_) => None,
        }
    } else {
        None
    }
}

/// Decode a complete string literal: the inverse of `quote_str` on
/// well-formed input.
pub fn dequote(s: &str) -> (r: Option<String>)
    ensures
        match r {
            Some(x) => spec_dequote(s@) == Some(x@),
            None => spec_dequote(s@) is None,
        },
{
    let cs = chars_of(s);
    if cs.len() == 0 {
        return None;
    }
    if cs[0] != '"' {
        return None;
    }
    proof {
        assert(cs@.skip(1) =~= s@.drop_first());
    }
    match read_str_body_at(&cs, 1) {
        Err(_) => None,
        Ok((content, j)) => {
            if j == cs.len() {
                proof {
                    assert(cs@.skip(j as int).len() == 0);
                }
                Some(content)
            } else {
                proof {
                    assert(cs@.skip(j as int).len() != 0);
                }
                None
            }
        },
    }
}

/// Reading a string-literal body undoes escaping: the body built from the
/// escape of `t`, a closing quote and then `rest` reads back as exactly
/// `t`, leaving `rest`.
pub proof fn lemma_read_str_body_escaped(t: Seq<char>, rest: Seq<char>)
    ensures
        spec_read_str_body(escape_seq(t) + seq!['"'] + rest) == Ok::<
            (Seq<char>, Seq<char>),
            ParseError,
        >((t, rest)),
    decreases t.len(),
{
    let s = escape_seq(t) + seq!['"'] + rest;
    if t.len() == 0 {
        assert(t =~= Seq::<char>::empty());
        assert(s =~= seq!['"'] + rest);
        assert(s[0] == '"');
        assert(s.drop_first() =~= rest);
    } else {
        let c = t[0];
        let t2 = t.drop_first();
        lemma_read_str_body_escaped(t2, rest);
        let s2 = escape_seq(t2) + seq!['"'] + rest;
        if c == '\\' {
            assert(s =~= seq!['\\', '\\'] + s2);
            assert(s[0] == '\\' && s[1] == '\\');
            assert(s.skip(2) =~= s2);
            assert(seq!['\\'] + t2 =~= t);
        } else if c == '"' {
            assert(s =~= seq!['\\', '"'] + s2);
            assert(s[0] == '\\' && s[1] == '"');
            assert(s.skip(2) =~= s2);
            assert(seq!['"'] + t2 =~= t);
        } else if c == '\n' {
            assert(s =~= seq!['\\', 'n'] + s2);
            assert(s[0] == '\\' && s[1] == 'n');
            assert(s.skip(2) =~= s2);
            assert(seq!['\n'] + t2 =~= t);
        } else {
            assert(s =~= seq![c] + s2);
            assert(s[0] == c && c != '"' && c != '\\');
            assert(s.drop_first() =~= s2);
            assert(seq![c] + t2 =~= t);
        }
    }
}

/// Law: unquoting inverts quoting, for every string — in particular for
/// strings containing quotes, backslashes and newlines.
pub proof fn lemma_quote_round_trip(s: Seq<char>)
    ensures
        spec_dequote(spec_quote(s)) == Some(s),
{
    let q = spec_quote(s);
    assert(q[0] == '"');
    lemma_read_str_body_escaped(s, Seq::empty());
    assert(q.drop_first() =~= escape_seq(s) + seq!['"'] + Seq::<char>::empty());
}

/// What `render_list` returns: the fragments joined by single spaces, with
/// no leading or trailing space.
pub open spec fn spec_join_space(items: Seq<Seq<char>>) -> Seq<char>
    decreases items.len(),
{
    if items.len() == 0 {
        Seq::empty()
    } else if items.len() == 1 {
        items[0]
    } else {
        spec_join_space(items.drop_last()) + seq![' '] + items.last()
    }
}

/// Render a space-separated list from already-rendered fragments.
pub fn render_list(items: &Vec<String>) -> (r: String)
    ensures
        r@ == spec_join_space(items.deep_view()),
{
    let mut out = String::new();
    let mut i: usize = 0;
    while i < items.len()
        invariant
            i <= items@.len(),
            out@ == spec_join_space(items.deep_view().take(i as int)),
        decreases items@.len() - i,
    {
        if i > 0 {
            push_char(&mut out, ' ');
        }
        out.append(items[i].as_str());
        proof {
            let dv = items.deep_view();
            assert(dv.take(i + 1 as int).drop_last() =~= dv.take(i as int));
            assert(dv.take(i + 1 as int).last() == dv[i as int]);
            assert(dv[i as int] == items@[i as int]@);
            if i == 0 {
                assert(out@ =~= spec_join_space(dv.take(i + 1 as int)));
            } else {
                assert(out@ =~= spec_join_space(dv.take(i + 1 as int)));
            }
        }
        i = i + 1;
    }
    proof {
        assert(items.deep_view().take(items@.len() as int) =~= items.deep_view());
    }
    out
}

} // verus!
