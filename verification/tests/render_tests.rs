use sqlite_docs::ColumnDocs;
use sqlite_docs::DatasetteMetadataDatabase;
use sqlite_docs::DatasetteMetadataTable;
use sqlite_docs::TableDocs;
use sqlite_docs::generate_markdown;
use sqlite_docs::generate_metadata;

#[test]
fn markdown_row_for_one_documented_column() {
    let t = TableDocs::from_sql("create table t1(\n--- the id\nid int\n)", "t1");
    let md = generate_markdown(vec![t]);
    assert_eq!(md, "## t1\n\n\n\n| Column | Description\n|-|-\n|id|the id\n\n");
}

#[test]
fn markdown_full_document() {
    let a = TableDocs {
        name: "users".to_owned(),
        table_level: Some("all the users".to_owned()),
        columns: vec![
            ColumnDocs {
                name: "id".to_owned(),
                contents: Some("primary key".to_owned()),
                example: Some("1".to_owned()),
            },
            ColumnDocs { name: "email".to_owned(), contents: None, example: None },
        ],
    };
    let b = TableDocs { name: "logs".to_owned(), table_level: None, columns: vec![] };
    let md = generate_markdown(vec![a, b]);
    assert_eq!(
        md,
        "## users\n\nall the users\n\n| Column | Description\n|-|-\n|id|primary key\n|email|\n\n## logs\n\n\n\n| Column | Description\n|-|-\n\n"
    );
}

#[test]
fn markdown_of_no_tables_is_empty() {
    assert_eq!(generate_markdown(vec![]), "");
}

#[test]
fn metadata_structure_and_order() {
    let a = TableDocs {
        name: "users".to_owned(),
        table_level: Some("all the users".to_owned()),
        columns: vec![
            ColumnDocs {
                name: "id".to_owned(),
                contents: Some("primary key".to_owned()),
                example: Some("1".to_owned()),
            },
            ColumnDocs { name: "email".to_owned(), contents: None, example: None },
        ],
    };
    let b = TableDocs { name: "logs".to_owned(), table_level: None, columns: vec![] };
    let m = generate_metadata("mydb", vec![a, b]);
    assert_eq!(
        m.databases,
        vec![(
            "mydb".to_owned(),
            DatasetteMetadataDatabase {
                tables: vec![
                    (
                        "users".to_owned(),
                        DatasetteMetadataTable {
                            description: Some("all the users".to_owned()),
                            columns: vec![
                                ("id".to_owned(), "primary key".to_owned()),
                                ("email".to_owned(), "".to_owned()),
                            ],
                        },
                    ),
                    (
                        "logs".to_owned(),
                        DatasetteMetadataTable { description: None, columns: vec![] },
                    ),
                ],
            },
        )]
    );
}

#[test]
fn metadata_round_trip_keeps_everything_but_examples() {
    let sql = "create table t(\n--! about t\n--- about a\n--- @example 5\n  a int,\n  b text\n)";
    let parsed = TableDocs::from_sql(sql, "t");
    let m = generate_metadata("db", vec![parsed.clone()]);
    let (db_name, db) = &m.databases[0];
    assert_eq!(db_name, "db");
    let (table_name, entry) = &db.tables[0];
    assert_eq!(table_name, &parsed.name);
    assert_eq!(entry.description, parsed.table_level);
    assert_eq!(entry.columns.len(), parsed.columns.len());
    for (pair, col) in entry.columns.iter().zip(parsed.columns.iter()) {
        assert_eq!(&pair.0, &col.name);
        match &col.contents {
            Some(c) => assert_eq!(&pair.1, c),
            None => assert_eq!(pair.1, ""),
        }
    }
}
