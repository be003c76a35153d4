//! The structured records that the persistence sink accepts, and the
//! snapshot listing that the log viewer prints.

use vstd::prelude::*;

use crate::strutil::push_char;

verus! {

/// One tool-call event: the request and response texts with their
/// correlation data.
#[derive(Debug, Clone)]
pub struct ToolCallEvent {
    /// The transport the call arrived on.
    pub transport: String,
    /// The calling client's name, when known.
    pub client_name: Option<String>,
    /// The tool name as called.
    pub tool_name: String,
    /// The tool name after alias resolution.
    pub canonical_tool_name: String,
    /// The request text.
    pub request_sexpr: String,
    /// The response text.
    pub response_sexpr: String,
    /// Whether the response was an error.
    pub is_error: bool,
    /// The correlation id, when known.
    pub internal_id: Option<String>,
}

/// One progress snapshot, upserted by id.
#[derive(Debug, Clone)]
pub struct ProgressSnapshot {
    /// The correlation id.
    pub internal_id: String,
    /// The event name.
    pub event: String,
    /// The free-text snapshot.
    pub snapshot_text: String,
}

/// One row of the snapshot listing, as read back from the sink.
#[derive(Debug, Clone)]
pub struct SnapshotRow {
    /// The correlation id.
    pub internal_id: String,
    /// The time of the last update.
    pub updated_at: String,
    /// The event name.
    pub event: String,
    /// The free-text snapshot.
    pub snapshot_text: String,
}

/// The printed form of one snapshot row: a banner line, then the snapshot
/// text, newline-terminated.
pub open spec fn spec_render_row(row: SnapshotRow) -> Seq<char> {
    "== "@ + row.internal_id@ + " "@ + row.updated_at@ + " "@ + row.event@ + " ==\n"@
        + row.snapshot_text@ + (if row.snapshot_text@.len() > 0 && row.snapshot_text@.last()
        == '\n' {
        Seq::<char>::empty()
    } else {
        seq!['\n']
    })
}

/// The printed form of a snapshot listing, in row order.
pub open spec fn spec_render_rows(rows: Seq<SnapshotRow>) -> Seq<char>
    decreases rows.len(),
{
    if rows.len() == 0 {
        Seq::empty()
    } else {
        spec_render_rows(rows.drop_last()) + spec_render_row(rows.last())
    }
}

/// Render the snapshot listing that `show all` prints.
pub fn render_show_all(rows: &Vec<SnapshotRow>) -> (r: String)
    ensures
        r@ == spec_render_rows(rows@),
{
    let mut out = String::new();
    let mut i: usize = 0;
    while i < rows.len()
        invariant
            i <= rows@.len(),
            out@ == spec_render_rows(rows@.take(i as int)),
        decreases rows@.len() - i,
    {
        out.append("== ");
        out.append(rows[i].internal_id.as_str());
        out.append(" ");
        out.append(rows[i].updated_at.as_str());
        out.append(" ");
        out.append(rows[i].event.as_str());
        out.append(" ==\n");
        out.append(rows[i].snapshot_text.as_str());
        let tn = rows[i].snapshot_text.as_str().unicode_len();
        if tn == 0 || rows[i].snapshot_text.as_str().get_char(tn - 1) != '\n' {
            push_char(&mut out, '\n');
        }
        proof {
            assert(rows@.take(i + 1 as int).drop_last() =~= rows@.take(i as int));
            assert(rows@.take(i + 1 as int).last() == rows@[i as int]);
            assert(out@ =~= spec_render_rows(rows@.take(i + 1 as int)));
        }
        i = i + 1;
    }
    proof {
        assert(rows@.take(rows@.len() as int) =~= rows@);
    }
    out
}

} // verus!
