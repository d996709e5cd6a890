//! The metadata renderer: a nested ordered-mapping document for a
//! table-browsing tool, ready for JSON serialization with key order equal to
//! insertion order.

use vstd::prelude::*;

use crate::docs::ColumnDocsView;
use crate::docs::TableDocs;
use crate::docs::TableDocsView;
use crate::docs::column_docs_wf;
use crate::docs::opt_view;
use crate::docs::table_docs_wf;

verus! {

/// The metadata entry for one table: its description and an ordered mapping
/// from column name to documentation contents, kept as a sequence of pairs
/// in insertion order.
#[derive(Debug, Clone, PartialEq, Eq)]
pub struct DatasetteMetadataTable {
    pub description: Option<String>,
    pub columns: Vec<(String, String)>,
}

/// The metadata entry for one database: an ordered mapping from table name
/// to table entry.
#[derive(Debug, Clone, PartialEq, Eq)]
pub struct DatasetteMetadataDatabase {
    pub tables: Vec<(String, DatasetteMetadataTable)>,
}

/// The whole metadata document: an ordered mapping from database name to
/// database entry.
#[derive(Debug, Clone, PartialEq, Eq)]
pub struct DatasetteMetadata {
    pub databases: Vec<(String, DatasetteMetadataDatabase)>,
}

/// The mathematical value of a `DatasetteMetadataTable`.
#[verifier::ext_equal]
pub ghost struct MetadataTableView {
    pub description: Option<Seq<char>>,
    pub columns: Seq<(Seq<char>, Seq<char>)>,
}

/// The mathematical value of a `DatasetteMetadataDatabase`.
#[verifier::ext_equal]
pub ghost struct MetadataDatabaseView {
    pub tables: Seq<(Seq<char>, MetadataTableView)>,
}

/// The mathematical value of a `DatasetteMetadata`.
#[verifier::ext_equal]
pub ghost struct MetadataView {
    pub databases: Seq<(Seq<char>, MetadataDatabaseView)>,
}

impl View for DatasetteMetadataTable {
    type V = MetadataTableView;

    open spec fn view(&self) -> MetadataTableView {
        MetadataTableView {
            description: opt_view(self.description),
            columns: self.columns@.map_values(|p: (String, String)| (p.0@, p.1@)),
        }
    }
}

impl View for DatasetteMetadataDatabase {
    type V = MetadataDatabaseView;

    open spec fn view(&self) -> MetadataDatabaseView {
        MetadataDatabaseView {
            tables: self.tables@.map_values(|p: (String, DatasetteMetadataTable)| (p.0@, p.1@)),
        }
    }
}

impl View for DatasetteMetadata {
    type V = MetadataView;

    open spec fn view(&self) -> MetadataView {
        MetadataView {
            databases: self.databases@.map_values(
                |p: (String, DatasetteMetadataDatabase)| (p.0@, p.1@),
            ),
        }
    }
}

/// Column contents coerced for the metadata document: absent contents become
/// the empty string rather than an omitted key.
pub open spec fn contents_or_empty(o: Option<Seq<char>>) -> Seq<char> {
    match o {
        Some(s) => s,
        None => Seq::empty(),
    }
}

/// The metadata entry that one documentation record maps to.
pub open spec fn table_metadata_spec(t: TableDocsView) -> MetadataTableView {
    MetadataTableView {
        description: t.table_level,
        columns: t.columns.map_values(
            |c: ColumnDocsView| (c.name, contents_or_empty(c.contents)),
        ),
    }
}

/// The whole metadata document for one database: a single database entry
/// holding each record's table entry, in input order.
pub open spec fn metadata_spec(db: Seq<char>, ts: Seq<TableDocsView>) -> MetadataView {
    MetadataView {
        databases: seq![
            (
                db,
                MetadataDatabaseView {
                    tables: ts.map_values(|t: TableDocsView| (t.name, table_metadata_spec(t))),
                },
            ),
        ],
    }
}

/// Builds the metadata document for `database_name` from the given records,
/// in order.
pub fn generate_metadata(database_name: &str, tables: Vec<TableDocs>) -> (r: DatasetteMetadata)
    ensures
        r@ == metadata_spec(database_name@, tables.deep_view()),
{
    let ghost ts = tables.deep_view();
    let mut metas: Vec<(String, DatasetteMetadataTable)> = Vec::new();
    let mut i: usize = 0;
    while i < tables.len()
        invariant
            ts == tables.deep_view(),
            i <= tables.len(),
            metas@.len() == i,
            forall|k: int|
                0 <= k < i ==> (#[trigger] metas@[k]).0@ == ts[k].name && metas@[k].1@
                    == table_metadata_spec(ts[k]),
        decreases tables.len() - i,
    {
        let ghost tv = ts[i as int];
        proof {
            assert(tv == tables@[i as int].deep_view());
        }
        let mut cols: Vec<(String, String)> = Vec::new();
        let mut j: usize = 0;
        while j < tables[i].columns.len()
            invariant
                i < tables.len(),
                ts == tables.deep_view(),
                tv == ts[i as int],
                tv == tables@[i as int].deep_view(),
                j <= tables[i as int].columns.len(),
                tv.columns.len() == tables@[i as int].columns.len(),
                cols@.len() == j,
                forall|k: int|
                    0 <= k < j ==> (#[trigger] cols@[k]).0@ == tv.columns[k].name && cols@[k].1@
                        == contents_or_empty(tv.columns[k].contents),
            decreases tables[i as int].columns.len() - j,
        {
            let ghost cv = tv.columns[j as int];
            proof {
                assert(cv == tables@[i as int].columns@[j as int]@);
            }
            let contents = match &tables[i].columns[j].contents {
                Some(s) => s.clone(),
                None => String::new(),
            };
            cols.push((tables[i].columns[j].name.clone(), contents));
            j = j + 1;
        }
        let description = match &tables[i].table_level {
            Some(s) => Some(s.clone()),
            None => None,
        };
        let entry = DatasetteMetadataTable { description, columns: cols };
        proof {
            assert forall|k: int| 0 <= k < entry@.columns.len() implies entry@.columns[k]
                == table_metadata_spec(tv).columns[k] by {
                assert(entry@.columns[k] == (entry.columns@[k].0@, entry.columns@[k].1@));
            }
            assert(entry@.columns =~= table_metadata_spec(tv).columns);
            assert(entry@ =~~= table_metadata_spec(tv));
        }
        metas.push((tables[i].name.clone(), entry));
        i = i + 1;
    }
    let db = DatasetteMetadataDatabase { tables: metas };
    let mut dbs: Vec<(String, DatasetteMetadataDatabase)> = Vec::new();
    dbs.push((database_name.to_owned(), db));
    let r = DatasetteMetadata { databases: dbs };
    proof {
        let spec_tables = ts.map_values(|t: TableDocsView| (t.name, table_metadata_spec(t)));
        assert forall|k: int| 0 <= k < db@.tables.len() implies db@.tables[k]
            == spec_tables[k] by {
            assert(db@.tables[k] == (db.tables@[k].0@, db.tables@[k].1@));
        }
        assert(db@.tables =~= spec_tables);
        assert(r@.databases[0].0 == database_name@);
        assert(r@.databases[0].1 =~~= metadata_spec(database_name@, ts).databases[0].1);
        assert(r@.databases =~~= metadata_spec(database_name@, ts).databases);
        assert(r@ =~~= metadata_spec(database_name@, ts));
    }
    r
}

/// The ordered mappings of the metadata document are genuinely keyed
/// whenever the inputs are: distinct table names give distinct table keys,
/// and distinct column names within one table give distinct column keys, so
/// no entry of the pair sequences would be collapsed by a map.
pub proof fn lemma_metadata_keys_unique(db: Seq<char>, ts: Seq<TableDocsView>)
    requires
        forall|i: int, j: int|
            #![trigger ts[i], ts[j]]
            0 <= i < j < ts.len() ==> ts[i].name != ts[j].name,
        forall|k: int, i: int, j: int|
            #![trigger ts[k].columns[i], ts[k].columns[j]]
            0 <= k < ts.len() && 0 <= i < j < ts[k].columns.len() ==> ts[k].columns[i].name
                != ts[k].columns[j].name,
    ensures
        ({
            let tables = metadata_spec(db, ts).databases[0].1.tables;
            forall|i: int, j: int|
                #![trigger tables[i], tables[j]]
                0 <= i < j < tables.len() ==> tables[i].0 != tables[j].0
        }),
        ({
            let tables = metadata_spec(db, ts).databases[0].1.tables;
            forall|k: int, i: int, j: int|
                #![trigger tables[k].1.columns[i], tables[k].1.columns[j]]
                0 <= k < tables.len() && 0 <= i < j < tables[k].1.columns.len()
                    ==> tables[k].1.columns[i].0 != tables[k].1.columns[j].0
        }),
{
    let tables = metadata_spec(db, ts).databases[0].1.tables;
    assert forall|i: int, j: int|
        #![trigger tables[i], tables[j]]
        0 <= i < j < tables.len() implies tables[i].0 != tables[j].0 by {
        assert(tables[i].0 == ts[i].name);
        assert(tables[j].0 == ts[j].name);
    }
    assert forall|k: int, i: int, j: int|
        #![trigger tables[k].1.columns[i], tables[k].1.columns[j]]
        0 <= k < tables.len() && 0 <= i < j < tables[k].1.columns.len() implies
        tables[k].1.columns[i].0 != tables[k].1.columns[j].0 by {
        assert(tables[k].1 == table_metadata_spec(ts[k]));
        assert(tables[k].1.columns[i].0 == ts[k].columns[i].name);
        assert(tables[k].1.columns[j].0 == ts[k].columns[j].name);
    }
}

/// Decodes one table's metadata entry back into a documentation record: an
/// empty contents string was an absent contents, and the example annotation
/// is gone.
pub open spec fn decode_table_metadata(name: Seq<char>, m: MetadataTableView) -> TableDocsView {
    TableDocsView {
        name,
        table_level: m.description,
        columns: m.columns.map_values(
            |p: (Seq<char>, Seq<char>)| ColumnDocsView {
                name: p.0,
                contents: if p.1.len() == 0 {
                    None
                } else {
                    Some(p.1)
                },
                example: None,
            },
        ),
    }
}

/// Decodes a single-database metadata document back into its documentation
/// records, in stored order.
pub open spec fn decode_metadata(m: MetadataView) -> Seq<TableDocsView> {
    m.databases[0].1.tables.map_values(
        |p: (Seq<char>, MetadataTableView)| decode_table_metadata(p.0, p.1),
    )
}

/// A record with its example annotations dropped: exactly what the metadata
/// document keeps of it.
pub open spec fn without_examples(t: TableDocsView) -> TableDocsView {
    TableDocsView {
        name: t.name,
        table_level: t.table_level,
        columns: t.columns.map_values(
            |c: ColumnDocsView| ColumnDocsView { name: c.name, contents: c.contents, example: None },
        ),
    }
}

/// Round trip: encoding well-formed records into the metadata document and
/// decoding again yields an equivalent structure — the same records up to
/// the example annotations, with table order and column order preserved.
/// Well-formedness matters: present contents are never empty, so the
/// document's empty-string coercion loses nothing.
pub proof fn lemma_metadata_round_trip(db: Seq<char>, ts: Seq<TableDocsView>)
    requires
        forall|i: int| 0 <= i < ts.len() ==> table_docs_wf(#[trigger] ts[i]),
    ensures
        decode_metadata(metadata_spec(db, ts)) == ts.map_values(
            |t: TableDocsView| without_examples(t),
        ),
{
    let dec = decode_metadata(metadata_spec(db, ts));
    assert forall|i: int| 0 <= i < ts.len() implies dec[i] == without_examples(ts[i]) by {
        let t = ts[i];
        assert(table_docs_wf(t));
        let m = table_metadata_spec(t);
        assert forall|j: int|
            0 <= j < t.columns.len() implies decode_table_metadata(t.name, m).columns[j]
            == without_examples(t).columns[j] by {
            let c = t.columns[j];
            assert(column_docs_wf(c));
            assert(decode_table_metadata(t.name, m).columns[j] =~= without_examples(t).columns[j]);
        };
        assert(decode_table_metadata(t.name, m).columns =~= without_examples(t).columns);
        assert(dec[i] =~= without_examples(ts[i]));
    };
    assert(dec =~= ts.map_values(|t: TableDocsView| without_examples(t)));
}

} // verus!
