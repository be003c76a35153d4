//! A parser and typed-extraction layer for the S-expression dialect used to
//! encode tool-call requests and responses.
//!
//! The crate offers:
//! - a recursive [`value::Value`] tree with a mathematical model,
//! - a parser from raw text to `Value` ([`parse::parse_value`]),
//! - keyword extraction and typed accessors over tool-call forms
//!   ([`extract`]),
//! - the two-variant [`textref::TextRef`] abstraction with an exact
//!   parse/render round trip,
//! - string quoting and list rendering ([`serialize`]), and response
//!   formatting ([`format`]),
//! - markdown section extraction ([`markdown`]), tool routing ([`router`]),
//!   the log viewer's command language ([`viewer`]), and the record types
//!   of the persistence sink ([`records`]).

mod strutil;

pub mod errors;
pub mod extract;
pub mod format;
pub mod markdown;
pub mod parse;
pub mod records;
pub mod router;
pub mod serialize;
pub mod session;
pub mod textref;
pub mod value;
pub mod viewer;

pub use extract::get_kw_str;
pub use extract::get_kw_value;
pub use extract::iter_list;
pub use extract::parse_str_list;
pub use extract::require_kw_str;
pub use parse::parse_value;
pub use serialize::dequote;
pub use serialize::quote_str;
pub use serialize::render_list;
pub use textref::parse_text_ref;
pub use textref::render_text_ref;
pub use textref::TextRef;
pub use value::Value;
