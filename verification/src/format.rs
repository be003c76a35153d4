//! Response formatting for the canonical wire shapes: `(success ...)`,
//! `(error "message")`, `(complete ...)` and `(blocked ...)`.
//!
//! Every string payload passes through `quote_str`, so a message can never
//! corrupt the structure of the rendered response.

use vstd::prelude::*;

use crate::serialize::{quote_str, render_list, spec_join_space, spec_quote};

verus! {

/// The rendered form of one keyword field: `:key "value"`.
pub open spec fn spec_field(key: Seq<char>, val: Seq<char>) -> Seq<char> {
    ":"@ + key + " "@ + spec_quote(val)
}

/// The rendered forms of a list of fields.
pub open spec fn spec_fields_of(fields: Seq<(String, String)>) -> Seq<Seq<char>> {
    fields.map_values(|p: (String, String)| spec_field(p.0@, p.1@))
}

/// The quoted forms of a list of strings.
pub open spec fn spec_quoted_items(items: Seq<String>) -> Seq<Seq<char>> {
    items.map_values(|s: String| spec_quote(s@))
}

/// Render each `(key, value)` pair as `:key "value"`.
fn render_fields(fields: &Vec<(String, String)>) -> (r: Vec<String>)
    ensures
        r.deep_view() == spec_fields_of(fields@),
{
    let mut r: Vec<String> = Vec::new();
    let mut i: usize = 0;
    while i < fields.len()
        invariant
            i <= fields@.len(),
            r@.len() == i,
            forall|j: int|
                0 <= j < i ==> #[trigger] r@[j]@ == spec_field(fields@[j].0@, fields@[j].1@),
        decreases fields@.len() - i,
    {
        let mut f = String::from_str(":");
        f.append(fields[i].0.as_str());
        f.append(" ");
        let q = quote_str(fields[i].1.as_str());
        f.append(q.as_str());
        r.push(f);
        i = i + 1;
    }
    proof {
        assert forall|j: int| 0 <= j < fields@.len() implies r.deep_view()[j] == spec_fields_of(
            fields@,
        )[j] by {
            assert(r.deep_view()[j] == r@[j]@);
            assert(spec_fields_of(fields@)[j] == spec_field(fields@[j].0@, fields@[j].1@));
        }
        assert(r.deep_view() =~~= spec_fields_of(fields@));
    }
    r
}

/// Format a success response with keyword fields.
pub fn format_success(fields: &Vec<(String, String)>) -> (r: String)
    ensures
        r@ == "(success "@ + spec_join_space(spec_fields_of(fields@)) + ")"@,
{
    let rendered = render_fields(fields);
    let joined = render_list(&rendered);
    let mut out = String::from_str("(success ");
    out.append(joined.as_str());
    out.append(")");
    out
}

/// Format an error response.
pub fn format_error(message: &str) -> (r: String)
    ensures
        r@ == "(error "@ + spec_quote(message@) + ")"@,
{
    let q = quote_str(message);
    let mut out = String::from_str("(error ");
    out.append(q.as_str());
    out.append(")");
    out
}

/// Format a complete response with optional keyword fields.
pub fn format_complete(fields: &Vec<(String, String)>) -> (r: String)
    ensures
        fields@.len() == 0 ==> r@ == "(complete)"@,
        fields@.len() > 0 ==> r@ == "(complete "@ + spec_join_space(spec_fields_of(fields@))
            + ")"@,
{
    if fields.len() == 0 {
        String::from_str("(complete)")
    } else {
        let rendered = render_fields(fields);
        let joined = render_list(&rendered);
        let mut out = String::from_str("(complete ");
        out.append(joined.as_str());
        out.append(")");
        out
    }
}

/// Serialize a list of strings as space-separated quoted strings.
pub fn serialize_string_list(items: &Vec<String>) -> (r: String)
    ensures
        r@ == spec_join_space(spec_quoted_items(items@)),
{
    let mut quoted: Vec<String> = Vec::new();
    let mut i: usize = 0;
    while i < items.len()
        invariant
            i <= items@.len(),
            quoted@.len() == i,
            forall|j: int| 0 <= j < i ==> #[trigger] quoted@[j]@ == spec_quote(items@[j]@),
        decreases items@.len() - i,
    {
        let q = quote_str(items[i].as_str());
        quoted.push(q);
        i = i + 1;
    }
    proof {
        assert forall|j: int| 0 <= j < items@.len() implies quoted.deep_view()[j]
            == spec_quoted_items(items@)[j] by {
            assert(quoted.deep_view()[j] == quoted@[j]@);
            assert(spec_quoted_items(items@)[j] == spec_quote(items@[j]@));
        }
        assert(quoted.deep_view() =~~= spec_quoted_items(items@));
    }
    render_list(&quoted)
}

/// Format a blocked response carrying the goals that are being waited on,
/// plus optional keyword fields.
pub fn format_blocked(waiting_goals: &Vec<String>, fields: &Vec<(String, String)>) -> (r: String)
    ensures
        fields@.len() == 0 ==> r@ == "(blocked :waiting-goals ("@ + spec_join_space(
            spec_quoted_items(waiting_goals@),
        ) + "))"@,
        fields@.len() > 0 ==> r@ == "(blocked :waiting-goals ("@ + spec_join_space(
            spec_quoted_items(waiting_goals@),
        ) + ") "@ + spec_join_space(spec_fields_of(fields@)) + ")"@,
{
    let goals_str = serialize_string_list(waiting_goals);
    if fields.len() == 0 {
        let mut out = String::from_str("(blocked :waiting-goals (");
        out.append(goals_str.as_str());
        out.append("))");
        out
    } else {
        let rendered = render_fields(fields);
        let joined = render_list(&rendered);
        let mut out = String::from_str("(blocked :waiting-goals (");
        out.append(goals_str.as_str());
        out.append(") ");
        out.append(joined.as_str());
        out.append(")");
        out
    }
}

/// Format a resource reference as `(type "value")`.
pub fn serialize_resource(resource_type: &str, value: &str) -> (r: String)
    ensures
        r@ == "("@ + resource_type@ + " "@ + spec_quote(value@) + ")"@,
{
    let q = quote_str(value);
    let mut out = String::from_str("(");
    out.append(resource_type);
    out.append(" ");
    out.append(q.as_str());
    out.append(")");
    out
}

} // verus!
