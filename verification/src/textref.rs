//! The two-variant "text or file reference" value shape.
//!
//! A text reference is either an inline literal string or a named indirect
//! reference, written `(use "path")`: a two-element proper list whose head
//! is the symbol `use` and whose single trailing element is a string.  No
//! other shape is valid.  Rendering is the exact inverse of parsing.

use vstd::prelude::*;

use crate::extract::ExtractError;
use crate::parse::{
    spec_classify_atom, spec_is_delim, spec_parse, spec_read_list, spec_read_value, spec_skip_ws,
    spec_take_atom, ParseError,
};
use crate::serialize::{escape_seq, lemma_read_str_body_escaped, quote_str, spec_quote};
use crate::strutil::{push_char, str_eq};
use crate::value::{SpecVal, Value};

verus! {

/// A value that is either inline literal text or a named file reference.
#[derive(Debug, Clone, PartialEq, Eq)]
pub enum TextRef {
    /// A literal string value.
    Literal(String),
    /// A file path reference from `(use "path")`.
    UsePath(String),
}

/// The mathematical model of a [`TextRef`].
pub enum TextRefModel {
    /// Model of [`TextRef::Literal`].
    Literal(Seq<char>),
    /// Model of [`TextRef::UsePath`].
    UsePath(Seq<char>),
}

impl View for TextRef {
    type V = TextRefModel;

    open spec fn view(&self) -> TextRefModel {
        match self {
            TextRef::Literal(s) => TextRefModel::Literal(s@),
            TextRef::UsePath(p) => TextRefModel::UsePath(p@),
        }
    }
}

/// The text reference denoted by a value: a string atom is a literal, and
/// a two-element proper list `(use "path")` is a reference; each departure
/// from those shapes has its own error.
pub open spec fn spec_parse_text_ref(v: SpecVal) -> Result<TextRefModel, ExtractError> {
    match v {
        SpecVal::Str(s) => Ok(TextRefModel::Literal(s)),
        SpecVal::Cons(head, tail) => match *head {
            SpecVal::Sym(h) => if h == "use"@ {
                match *tail {
                    SpecVal::Cons(arg, rest) => match *arg {
                        SpecVal::Str(p) => if *rest is Nil {
                            Ok(TextRefModel::UsePath(p))
                        } else {
                            Err(ExtractError::UseExtraArgument)
                        },
                        _ => Err(ExtractError::UsePathNotString),
                    },
                    _ => Err(ExtractError::UseMissingArgument),
                }
            } else {
                Err(ExtractError::ExpectedUseForm)
            },
            _ => Err(ExtractError::ExpectedUseForm),
        },
        _ => Err(ExtractError::ExpectedTextRef),
    }
}

/// Parse either a string literal or a `(use "path")` form.
pub fn parse_text_ref(value: &Value) -> (r: Result<TextRef, ExtractError>)
    ensures
        match r {
            Ok(t) => spec_parse_text_ref(value@) == Ok::<TextRefModel, ExtractError>(t@),
            Err(e) => spec_parse_text_ref(value@) == Err::<TextRefModel, ExtractError>(e),
        },
{
    match value {
        Value::Str(s) => Ok(TextRef::Literal(s.clone())),
        Value::Cons(head, tail) => {
            proof {
                assert(value@ == SpecVal::Cons(Box::new((**head)@), Box::new((**tail)@)));
            }
            match &**head {
                Value::Sym(h) => {
                    if str_eq(h.as_str(), "use") {
                        match &**tail {
                            Value::Cons(arg, rest) => {
                                proof {
                                    assert((**tail)@ == SpecVal::Cons(
                                        Box::new((**arg)@),
                                        Box::new((**rest)@),
                                    ));
                                }
                                match &**arg {
                                    Value::Str(p) => {
                                        match &**rest {
                                            Value::Nil => Ok(TextRef::UsePath(p.clone())),
                                            _ => Err(ExtractError::UseExtraArgument),
                                        }
                                    },
                                    _ => Err(ExtractError::UsePathNotString),
                                }
                            },
                            _ => Err(ExtractError::UseMissingArgument),
                        }
                    } else {
                        Err(ExtractError::ExpectedUseForm)
                    }
                },
                _ => Err(ExtractError::ExpectedUseForm),
            }
        },
        _ => Err(ExtractError::ExpectedTextRef),
    }
}

/// What `render_text_ref` returns: a quoted literal, or the `(use ...)`
/// form around a quoted path.
pub open spec fn spec_render_text_ref(m: TextRefModel) -> Seq<char> {
    match m {
        TextRefModel::Literal(s) => spec_quote(s),
        TextRefModel::UsePath(p) => seq!['(', 'u', 's', 'e', ' '] + spec_quote(p) + seq![')'],
    }
}

/// Render a text reference back to an S-expression fragment.
pub fn render_text_ref(value: &TextRef) -> (r: String)
    ensures
        r@ == spec_render_text_ref(value@),
{
    match value {
        TextRef::Literal(s) => quote_str(s.as_str()),
        TextRef::UsePath(p) => {
            let mut out = String::from_str("(use ");
            let q = quote_str(p.as_str());
            out.append(q.as_str());
            push_char(&mut out, ')');
            proof {
                reveal_strlit("(use ");
                assert("(use "@ =~= seq!['(', 'u', 's', 'e', ' ']);
                assert(out@ =~= spec_render_text_ref(value@));
            }
            out
        },
    }
}

/// Law: the parser's string-literal reader is the inverse of quoting —
/// parsing a quoted string yields exactly the original string, for every
/// string.
pub proof fn lemma_parse_quote(s: Seq<char>)
    ensures
        spec_parse(spec_quote(s)) == Ok::<SpecVal, ParseError>(SpecVal::Str(s)),
{
    let q = spec_quote(s);
    assert(q[0] == '"');
    assert(!crate::strutil::is_ws_char('"'));
    assert(spec_skip_ws(q) == q);
    lemma_read_str_body_escaped(s, Seq::empty());
    assert(q.drop_first() =~= escape_seq(s) + seq!['"'] + Seq::<char>::empty());
    assert(spec_read_value(q) == Ok::<(SpecVal, Seq<char>), ParseError>(
        (SpecVal::Str(s), Seq::empty()),
    ));
    assert(spec_skip_ws(Seq::<char>::empty()).len() == 0);
}

/// Law: rendering a text reference and parsing the result back yields the
/// original reference, for both variants and for every payload string.
pub proof fn lemma_text_ref_round_trip(r: TextRef)
    ensures
        spec_parse(spec_render_text_ref(r@)) is Ok,
        spec_parse_text_ref(spec_parse(spec_render_text_ref(r@))->Ok_0) == Ok::<
            TextRefModel,
            ExtractError,
        >(r@),
{
    reveal_strlit("use");
    match r@ {
        TextRefModel::Literal(s) => {
            lemma_parse_quote(s);
        },
        TextRefModel::UsePath(p) => {
            let q = spec_quote(p);
            let s_full = seq!['(', 'u', 's', 'e', ' '] + q + seq![')'];
            assert(s_full[0] == '(');
            assert(!crate::strutil::is_ws_char('('));
            assert(spec_skip_ws(s_full) == s_full);
            // Reading the value opens the list.
            let r0 = seq!['u', 's', 'e', ' '] + q + seq![')'];
            assert(s_full.drop_first() =~= r0);
            // The atom `use` is read out of the list.
            let r1 = seq!['s', 'e', ' '] + q + seq![')'];
            let r2 = seq!['e', ' '] + q + seq![')'];
            let r3 = seq![' '] + q + seq![')'];
            assert(r0.drop_first() =~= r1);
            assert(r1.drop_first() =~= r2);
            assert(r2.drop_first() =~= r3);
            assert(!spec_is_delim('u') && !spec_is_delim('s') && !spec_is_delim('e'));
            assert(spec_is_delim(' '));
            assert(spec_take_atom(r3) =~= Seq::<char>::empty());
            assert(spec_take_atom(r2) =~= seq!['e']);
            assert(spec_take_atom(r1) =~= seq!['s', 'e']);
            assert(spec_take_atom(r0) =~= seq!['u', 's', 'e']);
            let use_atom = seq!['u', 's', 'e'];
            assert(spec_classify_atom(use_atom) == Ok::<SpecVal, ParseError>(
                SpecVal::Sym(use_atom),
            ));
            assert(r0.skip(3) =~= r3);
            assert(spec_read_value(r0) == Ok::<(SpecVal, Seq<char>), ParseError>(
                (SpecVal::Sym(use_atom), r3),
            ));
            // After the space comes the quoted path.
            let r4 = q + seq![')'];
            assert(r3.drop_first() =~= r4);
            assert(r4[0] == '"');
            lemma_read_str_body_escaped(p, seq![')']);
            assert(r4.drop_first() =~= escape_seq(p) + seq!['"'] + seq![')']);
            assert(spec_read_value(r4) == Ok::<(SpecVal, Seq<char>), ParseError>(
                (SpecVal::Str(p), seq![')']),
            ));
            // The closing delimiter ends the list.
            assert(seq![')'].drop_first() =~= Seq::<char>::empty());
            assert(spec_read_list(seq![')']) == Ok::<(SpecVal, Seq<char>), ParseError>(
                (SpecVal::Nil, Seq::empty()),
            ));
            assert(seq![')'].len() < r4.len());
            assert(spec_read_list(r4) == Ok::<(SpecVal, Seq<char>), ParseError>(
                (
                    SpecVal::Cons(Box::new(SpecVal::Str(p)), Box::new(SpecVal::Nil)),
                    Seq::empty(),
                ),
            ));
            assert(spec_read_list(r3) == spec_read_list(r4));
            let inner = SpecVal::Cons(Box::new(SpecVal::Str(p)), Box::new(SpecVal::Nil));
            assert(r3.len() < r0.len());
            assert(spec_read_list(r0) == Ok::<(SpecVal, Seq<char>), ParseError>(
                (SpecVal::Cons(Box::new(SpecVal::Sym(use_atom)), Box::new(inner)), Seq::empty()),
            ));
            let v = SpecVal::Cons(Box::new(SpecVal::Sym(use_atom)), Box::new(inner));
            assert(spec_read_value(s_full) == Ok::<(SpecVal, Seq<char>), ParseError>(
                (v, Seq::empty()),
            ));
            assert(spec_skip_ws(Seq::<char>::empty()).len() == 0);
            assert(spec_parse(s_full) == Ok::<SpecVal, ParseError>(v));
            assert(use_atom =~= "use"@);
            assert(spec_parse_text_ref(v) == Ok::<TextRefModel, ExtractError>(
                TextRefModel::UsePath(p),
            ));
        },
    }
}

} // verus!
