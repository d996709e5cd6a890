use sqlite_docs::ColumnDocs;
use sqlite_docs::TableDocs;

#[test]
fn yo() {
    assert_eq!(
        TableDocs::from_sql("create table x(\n          a int\n        )", "x"),
        TableDocs {
            name: "x".to_owned(),
            table_level: None,
            columns: vec![ColumnDocs { name: "a".to_string(), contents: None, example: None }],
        }
    );
    assert_eq!(
        TableDocs::from_sql(
            "create table x(\n                  --! doc!\n                  --! doc2!\n          a int\n        )",
            "x"
        ),
        TableDocs {
            name: "x".to_owned(),
            table_level: Some("doc!  doc2!".to_string()),
            columns: vec![ColumnDocs { name: "a".to_string(), contents: None, example: None }],
        }
    );
    assert_eq!(
        TableDocs::from_sql(
            "create table x(\n                 --- a random integer\n                 --- @example 1234\n                 -- not included\n                  a int\n                )",
            "x"
        ),
        TableDocs {
            name: "x".to_owned(),
            table_level: None,
            columns: vec![ColumnDocs {
                name: "a".to_string(),
                contents: Some("a random integer".to_string()),
                example: Some("1234".to_owned()),
            }],
        }
    );
    assert_eq!(
        TableDocs::from_sql(
            "create table x(\n                 --- a random integer\n                 --- 2nd line\n                  a int\n                )",
            "x"
        ),
        TableDocs {
            name: "x".to_owned(),
            table_level: None,
            columns: vec![ColumnDocs {
                name: "a".to_string(),
                contents: Some("a random integer 2nd line".to_string()),
                example: None,
            }],
        }
    );
    assert_eq!(
        TableDocs::from_sql(
            "create table x(\n                 --- a random integer\n                 ---\n                 --- 2nd line, with line break\n                  a int\n                )",
            "x"
        ),
        TableDocs {
            name: "x".to_owned(),
            table_level: None,
            columns: vec![ColumnDocs {
                name: "a".to_string(),
                contents: Some("a random integer 2nd line, with line break".to_string()),
                example: None,
            }],
        }
    );
}

#[test]
fn no_annotations_leave_everything_absent() {
    let t = TableDocs::from_sql(
        "create table t(\n  a int,\n  -- a plain comment\n  b text,\n  c blob\n)",
        "t",
    );
    assert_eq!(t.table_level, None);
    assert_eq!(t.columns.len(), 3);
    for c in &t.columns {
        assert_eq!(c.contents, None);
        assert_eq!(c.example, None);
    }
    assert_eq!(t.columns[0].name, "a");
    assert_eq!(t.columns[1].name, "b");
    assert_eq!(t.columns[2].name, "c");
}

#[test]
fn empty_and_single_line_input() {
    let t = TableDocs::from_sql("", "empty");
    assert_eq!(
        t,
        TableDocs { name: "empty".to_owned(), table_level: None, columns: vec![] }
    );
    let t = TableDocs::from_sql("create table solo(a int)", "solo");
    assert_eq!(t.columns.len(), 0);
    assert_eq!(t.table_level, None);
}

#[test]
fn table_level_blank_line_is_paragraph_break() {
    let t = TableDocs::from_sql("create table x(\n--! first\n--!\n--! second\n  a int\n)", "x");
    assert_eq!(t.table_level, Some("first \n second".to_string()));
}

#[test]
fn table_level_keeps_existing_trailing_space() {
    let t = TableDocs::from_sql("create table x(\n--! one \n--! two\n  a int\n)", "x");
    assert_eq!(t.table_level, Some("one  two".to_string()));
}

#[test]
fn column_docs_blank_line_forces_line_break() {
    let t = TableDocs::from_sql(
        "create table x(\n--- first piece\n--- \n--- second piece\n  a int\n)",
        "x",
    );
    assert_eq!(t.columns.len(), 1);
    assert_eq!(t.columns[0].contents, Some("first piece\n second piece".to_string()));
}

#[test]
fn last_example_tag_wins() {
    let t = TableDocs::from_sql(
        "create table x(\n--- @example 1\n--- @example  22 \n  a int\n)",
        "x",
    );
    assert_eq!(t.columns[0].example, Some("22".to_string()));
    assert_eq!(t.columns[0].contents, None);
}

#[test]
fn details_tag_is_ignored() {
    let t = TableDocs::from_sql(
        "create table x(\n--- real docs\n--- @details ignored text\n  a int\n)",
        "x",
    );
    assert_eq!(t.columns[0].contents, Some("real docs".to_string()));
    assert_eq!(t.columns[0].example, None);
}

#[test]
fn accumulators_reset_between_columns() {
    let t = TableDocs::from_sql(
        "create table x(\n--- docs for a\n--- @example 7\n  a int,\n  b text\n)",
        "x",
    );
    assert_eq!(t.columns.len(), 2);
    assert_eq!(t.columns[0].name, "a");
    assert_eq!(t.columns[0].contents, Some("docs for a".to_string()));
    assert_eq!(t.columns[0].example, Some("7".to_string()));
    assert_eq!(t.columns[1].name, "b");
    assert_eq!(t.columns[1].contents, None);
    assert_eq!(t.columns[1].example, None);
}

#[test]
fn plain_comments_change_nothing() {
    let with_comments = TableDocs::from_sql(
        "create table x(\n-- noise\n--- docs\n-- more noise\n  a int\n-- trailing noise\n)",
        "x",
    );
    let without_comments = TableDocs::from_sql("create table x(\n--- docs\n  a int\n)", "x");
    assert_eq!(with_comments, without_comments);
}

#[test]
fn column_name_splits_at_any_whitespace() {
    let t = TableDocs::from_sql("create table x(\n--- docs\na\tint\n)", "x");
    assert_eq!(t.columns.len(), 1);
    assert_eq!(t.columns[0].name, "a");
    assert_eq!(t.columns[0].contents, Some("docs".to_string()));
}

#[test]
fn line_without_whitespace_is_skipped() {
    let t = TableDocs::from_sql("create table x(\nsingleton\n  a int\n)", "x");
    assert_eq!(t.columns.len(), 1);
    assert_eq!(t.columns[0].name, "a");
}

#[test]
fn crlf_line_endings_are_handled() {
    let t = TableDocs::from_sql("create table x(\r\n--- docs\r\n  a int\r\n)", "x");
    assert_eq!(t.columns.len(), 1);
    assert_eq!(t.columns[0].name, "a");
    assert_eq!(t.columns[0].contents, Some("docs".to_string()));
}

#[test]
fn whitespace_only_accumulators_stay_absent() {
    let t = TableDocs::from_sql("create table x(\n--- \n--- @example   \n  a int\n)", "x");
    assert_eq!(t.columns[0].contents, None);
    assert_eq!(t.columns[0].example, None);
}
