//! The markdown data-dictionary renderer.

use vstd::prelude::*;

use crate::docs::ColumnDocsView;
use crate::docs::TableDocs;
use crate::docs::TableDocsView;

verus! {

/// One row of a column table: the column name and its contents (empty when
/// absent), pipe-separated, on one line. The example annotation is not
/// rendered by this format.
pub open spec fn md_row(c: ColumnDocsView) -> Seq<char> {
    "|"@ + c.name + "|"@ + (match c.contents {
        Some(s) => s,
        None => Seq::empty(),
    }) + "\n"@
}

/// The rows of a column table, one per column, in order.
pub open spec fn md_rows(cols: Seq<ColumnDocsView>) -> Seq<char>
    decreases cols.len(),
{
    if cols.len() == 0 {
        Seq::empty()
    } else {
        md_rows(cols.drop_last()) + md_row(cols.last())
    }
}

/// One table's markdown block: a level-2 heading, a blank line, the
/// table-level text (empty when absent), a blank line, the two-column table
/// header, one row per column, and a blank terminating line.
pub open spec fn md_table(t: TableDocsView) -> Seq<char> {
    "## "@ + t.name + "\n"@ + "\n"@ + (match t.table_level {
        Some(s) => s,
        None => Seq::empty(),
    }) + "\n"@ + "\n"@ + "| Column | Description\n"@ + "|-|-\n"@ + md_rows(t.columns) + "\n"@
}

/// The whole document: each table's block, in input order.
pub open spec fn md_doc(ts: Seq<TableDocsView>) -> Seq<char>
    decreases ts.len(),
{
    if ts.len() == 0 {
        Seq::empty()
    } else {
        md_doc(ts.drop_last()) + md_table(ts.last())
    }
}

/// Renders the markdown data dictionary for the given records, in order.
/// Names and contents are emitted verbatim, with no escaping.
pub fn generate_markdown(tables: Vec<TableDocs>) -> (md: String)
    ensures
        md@ == md_doc(tables.deep_view()),
{
    let ghost ts = tables.deep_view();
    let mut md = String::new();
    let mut i: usize = 0;
    while i < tables.len()
        invariant
            ts == tables.deep_view(),
            i <= tables.len(),
            md@ == md_doc(ts.take(i as int)),
        decreases tables.len() - i,
    {
        let ghost tv = ts[i as int];
        proof {
            assert(tv == tables@[i as int].deep_view());
        }
        let ghost block_start = md@;
        md.append("## ");
        md.append(tables[i].name.as_str());
        md.append("\n");
        md.append("\n");
        match &tables[i].table_level {
            Some(tl) => md.append(tl.as_str()),
            None => (),
        }
        md.append("\n");
        md.append("\n");
        md.append("| Column | Description\n");
        md.append("|-|-\n");
        let ghost rows_start = md@;
        let mut j: usize = 0;
        while j < tables[i].columns.len()
            invariant
                i < tables.len(),
                ts == tables.deep_view(),
                tv == ts[i as int],
                tv == tables@[i as int].deep_view(),
                j <= tables[i as int].columns.len(),
                tv.columns.len() == tables@[i as int].columns.len(),
                md@ == rows_start + md_rows(tv.columns.take(j as int)),
            decreases tables[i as int].columns.len() - j,
        {
            let ghost cv = tv.columns[j as int];
            proof {
                assert(cv == tables@[i as int].columns@[j as int]@);
            }
            md.append("|");
            md.append(tables[i].columns[j].name.as_str());
            md.append("|");
            match &tables[i].columns[j].contents {
                Some(c) => md.append(c.as_str()),
                None => (),
            }
            md.append("\n");
            proof {
                assert(tv.columns.take(j as int + 1).drop_last() =~= tv.columns.take(j as int));
                assert(tv.columns.take(j as int + 1).last() == cv);
                assert(md@ == rows_start + md_rows(tv.columns.take(j as int + 1)));
            }
            j = j + 1;
        }
        md.append("\n");
        proof {
            assert(tv.columns.take(tv.columns.len() as int) =~= tv.columns);
            assert(md@ == block_start + md_table(tv));
            assert(ts.take(i as int + 1).drop_last() =~= ts.take(i as int));
            assert(ts.take(i as int + 1).last() == tv);
            assert(md@ == md_doc(ts.take(i as int + 1)));
        }
        i = i + 1;
    }
    proof {
        assert(ts.take(tables@.len() as int) =~= ts);
    }
    md
}

} // verus!
