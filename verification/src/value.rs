//! The recursive value tree for parsed list-structured data, and its
//! mathematical model.
//!
//! A *proper list* is a chain of `Cons` cells terminated by `Nil`; any other
//! terminator makes the chain an improper list.  Tool-call forms are proper
//! lists whose first element is a tag and whose remaining elements alternate
//! between keyword atoms and values.

use vstd::prelude::*;

verus! {

/// A parsed value: atoms (string, symbol, keyword tag, boolean, signed and
/// unsigned integers, nil) and the list cell.
#[derive(Debug, PartialEq)]
pub enum Value {
    /// The empty / nil value, also the terminator of proper lists.
    Nil,
    /// A boolean atom.
    Bool(bool),
    /// A signed integer atom.
    Int(i64),
    /// An unsigned integer atom, used for values above the signed range.
    Uint(u64),
    /// A string atom.
    Str(String),
    /// A bare identifier.
    Sym(String),
    /// A keyword tag carrying the keyword's name (without a marker).
    Kw(String),
    /// An ordered pair of head value and tail value.
    Cons(Box<Value>, Box<Value>),
}

/// The mathematical model of a [`Value`]: the same tree with string payloads
/// replaced by character sequences.
pub enum SpecVal {
    /// Model of [`Value::Nil`].
    Nil,
    /// Model of [`Value::Bool`].
    Bool(bool),
    /// Model of [`Value::Int`].
    Int(i64),
    /// Model of [`Value::Uint`].
    Uint(u64),
    /// Model of [`Value::Str`].
    Str(Seq<char>),
    /// Model of [`Value::Sym`].
    Sym(Seq<char>),
    /// Model of [`Value::Kw`].
    Kw(Seq<char>),
    /// Model of [`Value::Cons`].
    Cons(Box<SpecVal>, Box<SpecVal>),
}

/// The model of a value tree.
pub open spec fn val_model(v: Value) -> SpecVal
    decreases v,
{
    match v {
        Value::Nil => SpecVal::Nil,
        Value::Bool(b) => SpecVal::Bool(b),
        Value::Int(n) => SpecVal::Int(n),
        Value::Uint(n) => SpecVal::Uint(n),
        Value::Str(s) => SpecVal::Str(s@),
        Value::Sym(s) => SpecVal::Sym(s@),
        Value::Kw(s) => SpecVal::Kw(s@),
        Value::Cons(a, d) => SpecVal::Cons(Box::new(val_model(*a)), Box::new(val_model(*d))),
    }
}

impl View for Value {
    type V = SpecVal;

    open spec fn view(&self) -> SpecVal {
        val_model(*self)
    }
}

impl Value {
    /// A structural copy of the tree; the copy has the same model.
    pub fn deep_clone(&self) -> (r: Value)
        ensures
            r@ == self@,
        decreases *self,
    {
        match self {
            Value::Nil => Value::Nil,
            Value::Bool(b) => Value::Bool(*b),
            Value::Int(n) => Value::Int(*n),
            Value::Uint(n) => Value::Uint(*n),
            Value::Str(s) => Value::Str(s.clone()),
            Value::Sym(s) => Value::Sym(s.clone()),
            Value::Kw(s) => Value::Kw(s.clone()),
            Value::Cons(a, d) => Value::Cons(
                Box::new(a.deep_clone()),
                Box::new(d.deep_clone()),
            ),
        }
    }
}

impl Clone for Value {
    /// A structural copy of the tree; the copy has the same model.
    fn clone(&self) -> (r: Self)
        ensures
            r@ == self@,
    {
        self.deep_clone()
    }
}

/// The keyword name of an atom, if it has one: a symbol with a leading `:`
/// marker yields the marker-stripped name, any other symbol yields itself,
/// and a keyword tag yields its name directly.
pub open spec fn spec_kw_name(v: SpecVal) -> Option<Seq<char>> {
    match v {
        SpecVal::Sym(s) => if s.len() > 0 && s[0] == ':' {
            Some(s.skip(1))
        } else {
            Some(s)
        },
        SpecVal::Kw(s) => Some(s),
        _ => None,
    }
}

/// A value is a proper list when following tails ends in nil.
pub open spec fn spec_is_proper_list(v: SpecVal) -> bool
    decreases v,
{
    match v {
        SpecVal::Nil => true,
        SpecVal::Cons(_, d) => spec_is_proper_list(*d),
        _ => false,
    }
}

/// The elements of a list, in order (an improper terminator contributes
/// nothing).
pub open spec fn spec_list_elems(v: SpecVal) -> Seq<SpecVal>
    decreases v,
{
    match v {
        SpecVal::Cons(a, d) => seq![*a] + spec_list_elems(*d),
        _ => Seq::empty(),
    }
}

} // verus!
