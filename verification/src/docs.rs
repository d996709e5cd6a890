//! The annotation scanner: turns the source text of one `CREATE TABLE`
//! statement into a structured documentation record.

use vstd::prelude::*;

verus! {

/// Documentation attached to one column of a table.
///
/// `contents` and `example`, when present, are trimmed and never empty.
#[derive(Debug, Clone, PartialEq, Eq)]
pub struct ColumnDocs {
    pub name: String,
    pub contents: Option<String>,
    pub example: Option<String>,
}

/// Documentation attached to one table: the table-level text and one record
/// per column definition, in order of appearance.
#[derive(Debug, Clone, PartialEq, Eq)]
pub struct TableDocs {
    pub name: String,
    pub table_level: Option<String>,
    pub columns: Vec<ColumnDocs>,
}

/// The mathematical value of a `ColumnDocs`.
#[verifier::ext_equal]
pub ghost struct ColumnDocsView {
    pub name: Seq<char>,
    pub contents: Option<Seq<char>>,
    pub example: Option<Seq<char>>,
}

/// The mathematical value of a `TableDocs`.
#[verifier::ext_equal]
pub ghost struct TableDocsView {
    pub name: Seq<char>,
    pub table_level: Option<Seq<char>>,
    pub columns: Seq<ColumnDocsView>,
}

/// The view of an optional owned string.
pub open spec fn opt_view(o: Option<String>) -> Option<Seq<char>> {
    match o {
        Some(s) => Some(s@),
        None => None,
    }
}

impl View for ColumnDocs {
    type V = ColumnDocsView;

    open spec fn view(&self) -> ColumnDocsView {
        ColumnDocsView {
            name: self.name@,
            contents: opt_view(self.contents),
            example: opt_view(self.example),
        }
    }
}

impl DeepView for ColumnDocs {
    type V = ColumnDocsView;

    open spec fn deep_view(&self) -> ColumnDocsView {
        self.view()
    }
}

impl View for TableDocs {
    type V = TableDocsView;

    open spec fn view(&self) -> TableDocsView {
        TableDocsView {
            name: self.name@,
            table_level: opt_view(self.table_level),
            columns: self.columns.deep_view(),
        }
    }
}

impl DeepView for TableDocs {
    type V = TableDocsView;

    open spec fn deep_view(&self) -> TableDocsView {
        self.view()
    }
}

/// The Unicode white-space code points: the characters that
/// `char::is_whitespace` recognizes, and hence the characters that `str::trim`
/// removes.
pub open spec fn is_wsp(c: char) -> bool {
    c == ' ' || c == '\t' || c == '\n' || c == '\u{0B}' || c == '\u{0C}' || c == '\r'
        || c == '\u{85}' || c == '\u{A0}' || c == '\u{1680}' || c == '\u{2000}' || c == '\u{2001}'
        || c == '\u{2002}' || c == '\u{2003}' || c == '\u{2004}' || c == '\u{2005}'
        || c == '\u{2006}' || c == '\u{2007}' || c == '\u{2008}' || c == '\u{2009}'
        || c == '\u{200A}' || c == '\u{2028}' || c == '\u{2029}' || c == '\u{202F}'
        || c == '\u{205F}' || c == '\u{3000}'
}

fn is_wsp_char(c: char) -> (r: bool)
    ensures
        r == is_wsp(c),
{
    c == ' ' || c == '\t' || c == '\n' || c == '\u{0B}' || c == '\u{0C}' || c == '\r'
        || c == '\u{85}' || c == '\u{A0}' || c == '\u{1680}' || c == '\u{2000}' || c == '\u{2001}'
        || c == '\u{2002}' || c == '\u{2003}' || c == '\u{2004}' || c == '\u{2005}'
        || c == '\u{2006}' || c == '\u{2007}' || c == '\u{2008}' || c == '\u{2009}'
        || c == '\u{200A}' || c == '\u{2028}' || c == '\u{2029}' || c == '\u{202F}'
        || c == '\u{205F}' || c == '\u{3000}'
}

/// Index of the first non-white-space character at or after `i`, or the
/// length of `s` if there is none.
pub open spec fn first_non_wsp_from(s: Seq<char>, i: int) -> int
    decreases s.len() - i,
{
    if i < 0 || i >= s.len() {
        s.len() as int
    } else if !is_wsp(s[i]) {
        i
    } else {
        first_non_wsp_from(s, i + 1)
    }
}

/// One past the index of the last non-white-space character strictly before
/// `i`, or `0` if there is none.
pub open spec fn wsp_end_at(s: Seq<char>, i: int) -> int
    decreases i,
{
    if i <= 0 || i > s.len() {
        0
    } else if !is_wsp(s[i - 1]) {
        i
    } else {
        wsp_end_at(s, i - 1)
    }
}

/// What `str::trim_start` returns: `s` without its leading white space.
pub open spec fn trim_start_spec(s: Seq<char>) -> Seq<char> {
    s.subrange(first_non_wsp_from(s, 0), s.len() as int)
}

/// What `str::trim` returns: `s` without its leading and trailing white
/// space.
pub open spec fn trim_spec(s: Seq<char>) -> Seq<char> {
    let a = first_non_wsp_from(s, 0);
    let b = wsp_end_at(s, s.len() as int);
    if a >= b {
        Seq::empty()
    } else {
        s.subrange(a, b)
    }
}

/// A line is blank when every character in it is white space; equivalently,
/// when it is empty once trimmed.
pub open spec fn is_blank(s: Seq<char>) -> bool {
    forall|i: int| 0 <= i < s.len() ==> is_wsp(s[i])
}

proof fn lemma_first_non_wsp_bounds(s: Seq<char>, i: int)
    requires
        0 <= i <= s.len(),
    ensures
        i <= first_non_wsp_from(s, i) <= s.len(),
        forall|j: int| i <= j < first_non_wsp_from(s, i) ==> is_wsp(s[j]),
        first_non_wsp_from(s, i) < s.len() ==> !is_wsp(s[first_non_wsp_from(s, i)]),
    decreases s.len() - i,
{
    if i < s.len() && is_wsp(s[i]) {
        lemma_first_non_wsp_bounds(s, i + 1);
    }
}

proof fn lemma_wsp_end_bounds(s: Seq<char>, i: int)
    requires
        0 <= i <= s.len(),
    ensures
        0 <= wsp_end_at(s, i) <= i,
        forall|j: int| wsp_end_at(s, i) <= j < i ==> is_wsp(s[j]),
        wsp_end_at(s, i) > 0 ==> !is_wsp(s[wsp_end_at(s, i) - 1]),
    decreases i,
{
    if i > 0 && is_wsp(s[i - 1]) {
        lemma_wsp_end_bounds(s, i - 1);
    }
}

/// Trimming yields the empty sequence exactly on blank input; otherwise the
/// trimmed text neither starts nor ends with white space.
pub proof fn lemma_trim_shape(s: Seq<char>)
    ensures
        trim_spec(s).len() == 0 <==> is_blank(s),
        trim_spec(s).len() > 0 ==> !is_wsp(trim_spec(s).first()) && !is_wsp(trim_spec(s).last()),
{
    lemma_first_non_wsp_bounds(s, 0);
    lemma_wsp_end_bounds(s, s.len() as int);
    let a = first_non_wsp_from(s, 0);
    let b = wsp_end_at(s, s.len() as int);
    if a < b {
        assert(!is_wsp(s[a]));
        assert(!is_wsp(s[b - 1]));
        assert(trim_spec(s)[0] == s[a]);
        assert(trim_spec(s).last() == s[b - 1]);
        assert(!is_blank(s));
    } else {
        if !is_blank(s) {
            let k = choose|k: int| 0 <= k < s.len() && !is_wsp(s[k]);
            assert(a <= k) by {
                if k < a {
                    assert(is_wsp(s[k]));
                }
            }
            assert(b >= k + 1) by {
                if b < k + 1 {
                    assert(is_wsp(s[k]));
                }
            }
        }
    }
}

/// `str::trim_start`, verified against `trim_start_spec`.
fn trim_start_str<'a>(s: &'a str) -> (r: &'a str)
    ensures
        r@ == trim_start_spec(s@),
{
    let n = s.unicode_len();
    let mut i: usize = 0;
    while i < n && is_wsp_char(s.get_char(i))
        invariant
            n == s@.len(),
            i <= n,
            first_non_wsp_from(s@, 0) == first_non_wsp_from(s@, i as int),
        decreases n - i,
    {
        i = i + 1;
    }
    s.substring_char(i, n)
}

/// `str::trim`, verified against `trim_spec`.
fn trim_str(s: &str) -> (r: String)
    ensures
        r@ == trim_spec(s@),
{
    let n = s.unicode_len();
    let mut a: usize = 0;
    while a < n && is_wsp_char(s.get_char(a))
        invariant
            n == s@.len(),
            a <= n,
            first_non_wsp_from(s@, 0) == first_non_wsp_from(s@, a as int),
        decreases n - a,
    {
        a = a + 1;
    }
    let mut b: usize = n;
    while b > 0 && is_wsp_char(s.get_char(b - 1))
        invariant
            n == s@.len(),
            b <= n,
            wsp_end_at(s@, n as int) == wsp_end_at(s@, b as int),
        decreases b,
    {
        b = b - 1;
    }
    if a >= b {
        String::new()
    } else {
        s.substring_char(a, b).to_owned()
    }
}

/// Whether every character of `s` is white space.
fn is_blank_str(s: &str) -> (r: bool)
    ensures
        r == is_blank(s@),
{
    let n = s.unicode_len();
    let mut i: usize = 0;
    while i < n
        invariant
            n == s@.len(),
            i <= n,
            forall|j: int| 0 <= j < i ==> is_wsp(s@[j]),
        decreases n - i,
    {
        if !is_wsp_char(s.get_char(i)) {
            return false;
        }
        i = i + 1;
    }
    true
}

/// A line terminated by `"\n"` loses one trailing `'\r'`, as `str::lines`
/// strips `"\r\n"` endings.
pub open spec fn chomp_cr(l: Seq<char>) -> Seq<char> {
    if l.len() > 0 && l.last() == '\r' {
        l.drop_last()
    } else {
        l
    }
}

/// The lines of `s[i..]`, continuing a split whose current unfinished line is
/// `cur` and whose finished lines are `done`. A final unterminated line is
/// kept only if it is non-empty, as with `str::lines`.
pub open spec fn lines_from(s: Seq<char>, i: int, cur: Seq<char>, done: Seq<Seq<char>>) -> Seq<
    Seq<char>,
>
    decreases s.len() - i,
{
    if i < 0 || i >= s.len() {
        if cur.len() > 0 {
            done.push(cur)
        } else {
            done
        }
    } else if s[i] == '\n' {
        lines_from(s, i + 1, Seq::empty(), done.push(chomp_cr(cur)))
    } else {
        lines_from(s, i + 1, cur.push(s[i]), done)
    }
}

/// What `str::lines` returns: the text split at `"\n"` or `"\r\n"`, with no
/// trailing empty line.
pub open spec fn lines_spec(s: Seq<char>) -> Seq<Seq<char>> {
    lines_from(s, 0, Seq::empty(), Seq::empty())
}

/// `str::lines`, verified against `lines_spec`.
fn split_lines(s: &str) -> (r: Vec<String>)
    ensures
        r.deep_view() == lines_spec(s@),
{
    let n = s.unicode_len();
    let mut r: Vec<String> = Vec::new();
    let mut start: usize = 0;
    let mut i: usize = 0;
    proof {
        assert(s@.subrange(0, 0) =~= Seq::<char>::empty());
        assert(r.deep_view() =~= Seq::<Seq<char>>::empty());
    }
    while i < n
        invariant
            n == s@.len(),
            start <= i <= n,
            lines_spec(s@) == lines_from(
                s@,
                i as int,
                s@.subrange(start as int, i as int),
                r.deep_view(),
            ),
        decreases n - i,
    {
        let ghost cur = s@.subrange(start as int, i as int);
        let ghost done = r.deep_view();
        if s.get_char(i) == '\n' {
            let end = if i > start && s.get_char(i - 1) == '\r' {
                i - 1
            } else {
                i
            };
            proof {
                if i > start && s@[i as int - 1] == '\r' {
                    assert(cur.last() == s@[i as int - 1]);
                    assert(cur.drop_last() =~= s@.subrange(start as int, end as int));
                } else {
                    assert(chomp_cr(cur) == cur);
                }
                assert(chomp_cr(cur) =~= s@.subrange(start as int, end as int));
            }
            let line = s.substring_char(start, end).to_owned();
            r.push(line);
            start = i + 1;
            proof {
                assert(r.deep_view() =~= done.push(chomp_cr(cur)));
                assert(s@.subrange(start as int, i as int + 1) =~= Seq::<char>::empty());
            }
        } else {
            proof {
                assert(s@.subrange(start as int, i as int + 1) =~= cur.push(s@[i as int]));
            }
        }
        i = i + 1;
    }
    if start < n {
        let ghost done = r.deep_view();
        let line = s.substring_char(start, n).to_owned();
        r.push(line);
        proof {
            assert(r.deep_view() =~= done.push(s@.subrange(start as int, n as int)));
        }
    }
    r
}

/// Index of the first white-space character at or after `i`, or the length
/// of `s` if there is none.
pub open spec fn first_wsp_from(s: Seq<char>, i: int) -> int
    decreases s.len() - i,
{
    if i < 0 || i >= s.len() {
        s.len() as int
    } else if is_wsp(s[i]) {
        i
    } else {
        first_wsp_from(s, i + 1)
    }
}

fn find_wsp(s: &str) -> (k: usize)
    ensures
        k as int == first_wsp_from(s@, 0),
        k <= s@.len(),
{
    let n = s.unicode_len();
    let mut i: usize = 0;
    while i < n
        invariant
            n == s@.len(),
            i <= n,
            first_wsp_from(s@, 0) == first_wsp_from(s@, i as int),
        decreases n - i,
    {
        if is_wsp_char(s.get_char(i)) {
            return i;
        }
        i = i + 1;
    }
    n
}

/// Whether `p` is a prefix of `s`.
pub open spec fn has_prefix(s: Seq<char>, p: Seq<char>) -> bool {
    p.len() <= s.len() && s.subrange(0, p.len() as int) == p
}

fn str_has_prefix(s: &str, p: &str) -> (r: bool)
    ensures
        r == has_prefix(s@, p@),
{
    let sn = s.unicode_len();
    let pn = p.unicode_len();
    if pn > sn {
        return false;
    }
    let mut i: usize = 0;
    while i < pn
        invariant
            sn == s@.len(),
            pn == p@.len(),
            pn <= sn,
            i <= pn,
            forall|j: int| 0 <= j < i ==> s@[j] == p@[j],
        decreases pn - i,
    {
        if s.get_char(i) != p.get_char(i) {
            proof {
                assert(s@.subrange(0, pn as int)[i as int] != p@[i as int]);
            }
            return false;
        }
        i = i + 1;
    }
    proof {
        assert(s@.subrange(0, pn as int) =~= p@);
    }
    true
}

/// The prefix that marks a table-level documentation line.
pub open spec fn tbl_doc_prefix() -> Seq<char> {
    seq!['-', '-', '!']
}

/// The prefix that marks a column-level documentation line.
pub open spec fn col_doc_prefix() -> Seq<char> {
    seq!['-', '-', '-', ' ']
}

/// The prefix that marks a plain comment line, ignored by the scanner.
pub open spec fn plain_comment_prefix() -> Seq<char> {
    seq!['-', '-', ' ']
}

/// The tag that attaches an example value to a column.
pub open spec fn example_tag() -> Seq<char> {
    seq!['@', 'e', 'x', 'a', 'm', 'p', 'l', 'e']
}

/// The reserved tag that the scanner recognizes and ignores.
pub open spec fn details_tag() -> Seq<char> {
    seq!['@', 'd', 'e', 't', 'a', 'i', 'l', 's']
}

/// The scanner's state between lines: the table-level accumulator, the two
/// pending per-column accumulators, and the columns emitted so far.
#[verifier::ext_equal]
pub ghost struct ScanState {
    pub table: Seq<char>,
    pub doc: Seq<char>,
    pub ex: Seq<char>,
    pub cols: Seq<ColumnDocsView>,
}

/// The scanner's state before any line is read.
pub open spec fn init_state() -> ScanState {
    ScanState { table: Seq::empty(), doc: Seq::empty(), ex: Seq::empty(), cols: Seq::empty() }
}

/// An accumulator finalized: absent if blank, otherwise trimmed.
pub open spec fn opt_trimmed(acc: Seq<char>) -> Option<Seq<char>> {
    if trim_spec(acc).len() == 0 {
        None
    } else {
        Some(trim_spec(acc))
    }
}

/// One table-level documentation line added to the table accumulator: a
/// blank remainder is a paragraph break; otherwise the remainder is appended
/// verbatim, followed by one space unless it already ends in one.
pub open spec fn step_table_doc(table: Seq<char>, rest: Seq<char>) -> Seq<char> {
    if is_blank(rest) {
        table.push('\n')
    } else if rest.last() == ' ' {
        table + rest
    } else {
        table + rest + seq![' ']
    }
}

/// One prose line added to the pending column documentation, space-joined to
/// what is already there.
pub open spec fn step_col_doc(doc: Seq<char>, rest: Seq<char>) -> Seq<char> {
    if doc.len() > 0 && doc.last() != ' ' {
        doc + seq![' '] + rest
    } else {
        doc + rest
    }
}

/// One column-level documentation line: a blank remainder is a paragraph
/// break, an `@example` remainder replaces the pending example, an
/// `@details` remainder is reserved and ignored, and anything else is prose.
pub open spec fn scan_col_doc(st: ScanState, rest: Seq<char>) -> ScanState {
    if is_blank(rest) {
        ScanState { table: st.table, doc: st.doc.push('\n'), ex: st.ex, cols: st.cols }
    } else if has_prefix(rest, example_tag()) {
        ScanState {
            table: st.table,
            doc: st.doc,
            ex: rest.subrange(example_tag().len() as int, rest.len() as int),
            cols: st.cols,
        }
    } else if has_prefix(rest, details_tag()) {
        st
    } else {
        ScanState { table: st.table, doc: step_col_doc(st.doc, rest), ex: st.ex, cols: st.cols }
    }
}

/// A column definition closes out the pending accumulators into one emitted
/// column record and clears them.
pub open spec fn close_column(st: ScanState, name: Seq<char>) -> ScanState {
    ScanState {
        table: st.table,
        doc: Seq::empty(),
        ex: Seq::empty(),
        cols: st.cols.push(
            ColumnDocsView {
                name,
                contents: opt_trimmed(st.doc),
                example: opt_trimmed(st.ex),
            },
        ),
    }
}

/// One raw line processed: leading white space is dropped, then the line is
/// classified by prefix, in priority order. A line that is none of the three
/// comment forms is taken for a column definition; the token before its
/// first white-space run is the column name, and a line with no white space
/// at all is skipped.
pub open spec fn scan_line(st: ScanState, raw: Seq<char>) -> ScanState {
    let l = trim_start_spec(raw);
    if has_prefix(l, tbl_doc_prefix()) {
        ScanState {
            table: step_table_doc(st.table, l.subrange(tbl_doc_prefix().len() as int, l.len() as int)),
            doc: st.doc,
            ex: st.ex,
            cols: st.cols,
        }
    } else if has_prefix(l, col_doc_prefix()) {
        scan_col_doc(st, l.subrange(col_doc_prefix().len() as int, l.len() as int))
    } else if has_prefix(l, plain_comment_prefix()) {
        st
    } else if first_wsp_from(l, 0) < l.len() {
        close_column(st, l.subrange(0, first_wsp_from(l, 0)))
    } else {
        st
    }
}

/// The scanner's state after the lines `lines[i..]`, started from `st`.
pub open spec fn scan_from(lines: Seq<Seq<char>>, i: int, st: ScanState) -> ScanState
    decreases lines.len() - i,
{
    if i < 0 || i >= lines.len() {
        st
    } else {
        scan_from(lines, i + 1, scan_line(st, lines[i]))
    }
}

/// What `TableDocs::from_sql` returns: the first line is skipped, every
/// further line feeds the scanner, and the table-level accumulator is
/// finalized at the end.
pub open spec fn parse_spec(sql: Seq<char>, name: Seq<char>) -> TableDocsView {
    let st = scan_from(lines_spec(sql), 1, init_state());
    TableDocsView { name, table_level: opt_trimmed(st.table), columns: st.cols }
}

/// Well-formed documentation text: non-empty, with no leading or trailing
/// white space.
pub open spec fn text_wf(s: Seq<char>) -> bool {
    s.len() > 0 && !is_wsp(s.first()) && !is_wsp(s.last())
}

/// Optional documentation text is either absent or well-formed.
pub open spec fn opt_text_wf(o: Option<Seq<char>>) -> bool {
    match o {
        Some(s) => text_wf(s),
        None => true,
    }
}

/// The invariant of a column record: contents and example, when present, are
/// trimmed and non-empty.
pub open spec fn column_docs_wf(c: ColumnDocsView) -> bool {
    opt_text_wf(c.contents) && opt_text_wf(c.example)
}

/// The invariant of a table record: the table-level text and every column
/// record are well-formed.
pub open spec fn table_docs_wf(t: TableDocsView) -> bool {
    opt_text_wf(t.table_level) && forall|i: int|
        0 <= i < t.columns.len() ==> column_docs_wf(#[trigger] t.columns[i])
}

/// A finalized accumulator is either absent or well-formed text.
pub proof fn lemma_opt_trimmed_wf(acc: Seq<char>)
    ensures
        opt_text_wf(opt_trimmed(acc)),
{
    lemma_trim_shape(acc);
}

proof fn lemma_scan_wf(lines: Seq<Seq<char>>, i: int, st: ScanState)
    requires
        forall|j: int| 0 <= j < st.cols.len() ==> column_docs_wf(#[trigger] st.cols[j]),
    ensures
        forall|j: int|
            0 <= j < scan_from(lines, i, st).cols.len() ==> column_docs_wf(
                #[trigger] scan_from(lines, i, st).cols[j],
            ),
    decreases lines.len() - i,
{
    if 0 <= i < lines.len() {
        let st1 = scan_line(st, lines[i]);
        lemma_opt_trimmed_wf(st.doc);
        lemma_opt_trimmed_wf(st.ex);
        assert(forall|j: int| 0 <= j < st1.cols.len() ==> column_docs_wf(#[trigger] st1.cols[j]));
        lemma_scan_wf(lines, i + 1, st1);
        assert(scan_from(lines, i, st) == scan_from(lines, i + 1, st1));
    }
}

fn opt_trimmed_str(s: &str) -> (r: Option<String>)
    ensures
        opt_view(r) == opt_trimmed(s@),
{
    let t = trim_str(s);
    if t.as_str().unicode_len() == 0 {
        None
    } else {
        Some(t)
    }
}

fn scan_step(
    line: &str,
    table: &mut String,
    doc: &mut String,
    ex: &mut String,
    cols: &mut Vec<ColumnDocs>,
)
    ensures
        ({
            let st1 = scan_line(
                (ScanState {
                    table: old(table)@,
                    doc: old(doc)@,
                    ex: old(ex)@,
                    cols: old(cols).deep_view(),
                }),
                line@,
            );
            final(table)@ == st1.table && final(doc)@ == st1.doc && final(ex)@ == st1.ex
                && final(cols).deep_view() == st1.cols
        }),
{
    let ghost st0 = ScanState {
        table: old(table)@,
        doc: old(doc)@,
        ex: old(ex)@,
        cols: old(cols).deep_view(),
    };
    proof {
        reveal_strlit("--!");
        reveal_strlit("--- ");
        reveal_strlit("-- ");
        reveal_strlit("@example");
        reveal_strlit("@details");
        reveal_strlit("\n");
        reveal_strlit(" ");
        assert("--!"@ =~= tbl_doc_prefix());
        assert("--- "@ =~= col_doc_prefix());
        assert("-- "@ =~= plain_comment_prefix());
        assert("@example"@ =~= example_tag());
        assert("@details"@ =~= details_tag());
    }
    let l = trim_start_str(line);
    let ln = l.unicode_len();
    if str_has_prefix(l, "--!") {
        let rest = l.substring_char(3, ln);
        proof {
            assert(rest@ =~= l@.subrange(tbl_doc_prefix().len() as int, l@.len() as int));
        }
        if is_blank_str(rest) {
            table.append("\n");
            proof {
                assert(table@ =~= st0.table.push('\n'));
            }
        } else {
            proof {
                if rest@.len() == 0 {
                    assert(is_blank(rest@));
                }
            }
            let rn = rest.unicode_len();
            table.append(rest);
            if rest.get_char(rn - 1) != ' ' {
                table.append(" ");
                proof {
                    assert(table@ =~= st0.table + rest@ + seq![' ']);
                }
            }
        }
    } else if str_has_prefix(l, "--- ") {
        let rest = l.substring_char(4, ln);
        proof {
            assert(rest@ =~= l@.subrange(col_doc_prefix().len() as int, l@.len() as int));
        }
        if is_blank_str(rest) {
            doc.append("\n");
            proof {
                assert(doc@ =~= st0.doc.push('\n'));
            }
        } else if str_has_prefix(rest, "@example") {
            let rn = rest.unicode_len();
            *ex = rest.substring_char(8, rn).to_owned();
            proof {
                assert(ex@ =~= rest@.subrange(example_tag().len() as int, rest@.len() as int));
            }
        } else if str_has_prefix(rest, "@details") {
            // reserved tag: recognized, with no effect on the output
        } else {
            let dn = doc.as_str().unicode_len();
            if dn > 0 && doc.as_str().get_char(dn - 1) != ' ' {
                doc.append(" ");
                proof {
                    assert(doc@ =~= st0.doc + seq![' ']);
                }
            }
            doc.append(rest);
            proof {
                assert(doc@ == step_col_doc(st0.doc, rest@));
            }
        }
    } else if str_has_prefix(l, "-- ") {
        // plain comment: no state changes
    } else {
        let k = find_wsp(l);
        if k < ln {
            let name = l.substring_char(0, k).to_owned();
            let contents = opt_trimmed_str(doc.as_str());
            let example = opt_trimmed_str(ex.as_str());
            cols.push(ColumnDocs { name, contents, example });
            *doc = String::new();
            *ex = String::new();
            proof {
                assert(cols.deep_view() =~= close_column(st0, l@.subrange(0, k as int)).cols);
            }
        }
    }
}

impl TableDocs {
    /// Scans the source text of one `CREATE TABLE` statement, whose first
    /// line is assumed to be the statement opener, and returns the
    /// documentation record for the table called `name`. The scan is total:
    /// no input is an error.
    pub fn from_sql(sql: &str, name: &str) -> (r: TableDocs)
        ensures
            r@ == parse_spec(sql@, name@),
            table_docs_wf(r@),
    {
        let lines = split_lines(sql);
        let ghost ls = lines.deep_view();
        let mut table = String::new();
        let mut doc = String::new();
        let mut ex = String::new();
        let mut cols: Vec<ColumnDocs> = Vec::new();
        let mut i: usize = 1;
        proof {
            assert(cols.deep_view() =~= Seq::<ColumnDocsView>::empty());
        }
        while i < lines.len()
            invariant
                ls == lines.deep_view(),
                1 <= i,
                scan_from(ls, 1, init_state()) == scan_from(
                    ls,
                    i as int,
                    ScanState { table: table@, doc: doc@, ex: ex@, cols: cols.deep_view() },
                ),
            decreases lines.len() - i,
        {
            proof {
                assert(ls[i as int] == lines@[i as int]@);
            }
            scan_step(lines[i].as_str(), &mut table, &mut doc, &mut ex, &mut cols);
            i = i + 1;
        }
        proof {
            lemma_scan_wf(ls, 1, init_state());
            lemma_opt_trimmed_wf(table@);
        }
        let table_level = opt_trimmed_str(table.as_str());
        TableDocs { name: name.to_owned(), table_level, columns: cols }
    }
}

/// A raw line that the scanner reads as table-level documentation.
pub open spec fn is_table_doc_line(raw: Seq<char>) -> bool {
    has_prefix(trim_start_spec(raw), tbl_doc_prefix())
}

/// A raw line that the scanner reads as column-level documentation.
pub open spec fn is_col_doc_line(raw: Seq<char>) -> bool {
    has_prefix(trim_start_spec(raw), col_doc_prefix())
}

/// A raw line that the scanner reads as a plain comment.
pub open spec fn is_plain_comment_line(raw: Seq<char>) -> bool {
    has_prefix(trim_start_spec(raw), plain_comment_prefix())
}

/// A raw line that the scanner takes for a column definition: none of the
/// comment prefixes, and at least one white-space character to split a name
/// off.
pub open spec fn is_column_def_line(raw: Seq<char>) -> bool {
    let l = trim_start_spec(raw);
    !has_prefix(l, tbl_doc_prefix()) && !has_prefix(l, col_doc_prefix()) && !has_prefix(
        l,
        plain_comment_prefix(),
    ) && first_wsp_from(l, 0) < l.len()
}

/// The column name on a column-definition line: the token before the first
/// white-space run.
pub open spec fn column_def_name(raw: Seq<char>) -> Seq<char> {
    let l = trim_start_spec(raw);
    l.subrange(0, first_wsp_from(l, 0))
}

/// The remainder of a table-level documentation line: what follows `--!`.
pub open spec fn table_doc_rest(raw: Seq<char>) -> Seq<char> {
    let l = trim_start_spec(raw);
    l.subrange(tbl_doc_prefix().len() as int, l.len() as int)
}

/// The remainder of a column-level documentation line: what follows `--- `.
pub open spec fn col_doc_rest(raw: Seq<char>) -> Seq<char> {
    let l = trim_start_spec(raw);
    l.subrange(col_doc_prefix().len() as int, l.len() as int)
}

proof fn lemma_prefix_chars(l: Seq<char>)
    ensures
        has_prefix(l, tbl_doc_prefix()) ==> l.len() >= 3 && l[2] == '!',
        has_prefix(l, col_doc_prefix()) ==> l.len() >= 4 && l[2] == '-',
        has_prefix(l, plain_comment_prefix()) ==> l.len() >= 3 && l[2] == ' ',
{
    if has_prefix(l, tbl_doc_prefix()) {
        assert(l.subrange(0, 3)[2] == l[2]);
    }
    if has_prefix(l, col_doc_prefix()) {
        assert(l.subrange(0, 4)[2] == l[2]);
    }
    if has_prefix(l, plain_comment_prefix()) {
        assert(l.subrange(0, 3)[2] == l[2]);
    }
}

/// A plain comment line never affects any accumulator or output: the
/// scanner's state is exactly what it was.
pub proof fn lemma_plain_comment_ignored(st: ScanState, raw: Seq<char>)
    requires
        is_plain_comment_line(raw),
    ensures
        scan_line(st, raw) == st,
{
    lemma_prefix_chars(trim_start_spec(raw));
}

proof fn lemma_no_annotations_from(lines: Seq<Seq<char>>, i: int, st: ScanState)
    requires
        st.table.len() == 0,
        st.doc.len() == 0,
        st.ex.len() == 0,
        forall|j: int|
            0 <= j < st.cols.len() ==> (#[trigger] st.cols[j]).contents is None
                && st.cols[j].example is None,
        forall|k: int|
            i <= k < lines.len() ==> !is_table_doc_line(#[trigger] lines[k]) && !is_col_doc_line(
                lines[k],
            ),
    ensures
        scan_from(lines, i, st).table.len() == 0,
        forall|j: int|
            0 <= j < scan_from(lines, i, st).cols.len() ==> (#[trigger] scan_from(
                lines,
                i,
                st,
            ).cols[j]).contents is None && scan_from(lines, i, st).cols[j].example is None,
    decreases lines.len() - i,
{
    if 0 <= i < lines.len() {
        let st1 = scan_line(st, lines[i]);
        assert(trim_spec(Seq::<char>::empty()).len() == 0);
        lemma_no_annotations_from(lines, i + 1, st1);
    }
}

/// With no annotation lines at all, there is no table-level text and every
/// emitted column has neither contents nor example.
pub proof fn lemma_no_annotations(sql: Seq<char>, name: Seq<char>)
    requires
        forall|i: int|
            1 <= i < lines_spec(sql).len() ==> !is_table_doc_line(#[trigger] lines_spec(sql)[i])
                && !is_col_doc_line(lines_spec(sql)[i]),
    ensures
        parse_spec(sql, name).table_level is None,
        forall|j: int|
            0 <= j < parse_spec(sql, name).columns.len() ==> (#[trigger] parse_spec(
                sql,
                name,
            ).columns[j]).contents is None && parse_spec(sql, name).columns[j].example is None,
{
    lemma_no_annotations_from(lines_spec(sql), 1, init_state());
    assert(trim_spec(scan_from(lines_spec(sql), 1, init_state()).table).len() == 0);
}

/// Table-level remainders joined onto `acc`, line by line: a blank remainder
/// is a line break, and every other remainder is appended whole, followed by
/// a single space unless it already ends in one.
pub open spec fn join_table_docs(acc: Seq<char>, rests: Seq<Seq<char>>) -> Seq<char>
    decreases rests.len(),
{
    if rests.len() == 0 {
        acc
    } else {
        join_table_docs(step_table_doc(acc, rests[0]), rests.subrange(1, rests.len() as int))
    }
}

proof fn lemma_table_docs_joined_from(lines: Seq<Seq<char>>, i: int, st: ScanState)
    requires
        0 <= i <= lines.len(),
        forall|k: int| i <= k < lines.len() ==> is_table_doc_line(#[trigger] lines[k]),
    ensures
        ({
            let rests = lines.subrange(i, lines.len() as int).map_values(
                |l: Seq<char>| table_doc_rest(l),
            );
            scan_from(lines, i, st).table == join_table_docs(st.table, rests)
                && scan_from(lines, i, st).doc == st.doc && scan_from(lines, i, st).ex == st.ex
                && scan_from(lines, i, st).cols == st.cols
        }),
    decreases lines.len() - i,
{
    let rests = lines.subrange(i, lines.len() as int).map_values(|l: Seq<char>| table_doc_rest(l));
    if i < lines.len() {
        let st1 = scan_line(st, lines[i]);
        assert(rests[0] == table_doc_rest(lines[i]));
        lemma_table_docs_joined_from(lines, i + 1, st1);
        assert(rests.subrange(1, rests.len() as int) =~= lines.subrange(
            i + 1,
            lines.len() as int,
        ).map_values(|l: Seq<char>| table_doc_rest(l)));
    } else {
        assert(rests.len() == 0);
    }
}

/// When every line after the first is a table-level documentation line, the
/// table-level text is exactly those remainders joined by `join_table_docs`,
/// finalized, and no column is emitted.
pub proof fn lemma_table_docs_joined(sql: Seq<char>, name: Seq<char>)
    requires
        lines_spec(sql).len() >= 1,
        forall|i: int| 1 <= i < lines_spec(sql).len() ==> is_table_doc_line(#[trigger] lines_spec(sql)[i]),
    ensures
        ({
            let lines = lines_spec(sql);
            let rests = lines.subrange(1, lines.len() as int).map_values(
                |l: Seq<char>| table_doc_rest(l),
            );
            parse_spec(sql, name).table_level == opt_trimmed(join_table_docs(Seq::empty(), rests))
                && parse_spec(sql, name).columns.len() == 0
        }),
{
    lemma_table_docs_joined_from(lines_spec(sql), 1, init_state());
}

/// The two pending column accumulators after a run of column-level
/// documentation remainders: prose joined by single spaces with blank
/// remainders as line breaks, and the example text after the last
/// `@example` tag.
pub open spec fn join_col_docs(doc: Seq<char>, ex: Seq<char>, rests: Seq<Seq<char>>) -> (
    Seq<char>,
    Seq<char>,
)
    decreases rests.len(),
{
    if rests.len() == 0 {
        (doc, ex)
    } else {
        let st = scan_col_doc(
            ScanState { table: Seq::empty(), doc, ex, cols: Seq::empty() },
            rests[0],
        );
        join_col_docs(st.doc, st.ex, rests.subrange(1, rests.len() as int))
    }
}

proof fn lemma_col_docs_to_end(lines: Seq<Seq<char>>, i: int, st: ScanState)
    requires
        0 <= i <= lines.len() - 1,
        forall|k: int| i <= k < lines.len() - 1 ==> is_col_doc_line(#[trigger] lines[k]),
        is_column_def_line(lines[lines.len() - 1]),
    ensures
        ({
            let rests = lines.subrange(i, lines.len() - 1).map_values(
                |l: Seq<char>| col_doc_rest(l),
            );
            let accs = join_col_docs(st.doc, st.ex, rests);
            scan_from(lines, i, st) == close_column(
                ScanState { table: st.table, doc: accs.0, ex: accs.1, cols: st.cols },
                column_def_name(lines[lines.len() - 1]),
            )
        }),
    decreases lines.len() - i,
{
    let rests = lines.subrange(i, lines.len() - 1).map_values(|l: Seq<char>| col_doc_rest(l));
    if i == lines.len() - 1 {
        assert(rests.len() == 0);
        let st1 = scan_line(st, lines[i]);
        assert(st1 == close_column(st, column_def_name(lines[i])));
        assert(scan_from(lines, i + 1, st1) == st1);
    } else {
        lemma_prefix_chars(trim_start_spec(lines[i]));
        let st1 = scan_line(st, lines[i]);
        assert(rests[0] == col_doc_rest(lines[i]));
        assert(st1.table == st.table && st1.cols == st.cols);
        lemma_col_docs_to_end(lines, i + 1, st1);
        assert(rests.subrange(1, rests.len() as int) =~= lines.subrange(
            i + 1,
            lines.len() - 1,
        ).map_values(|l: Seq<char>| col_doc_rest(l)));
    }
}

/// When the lines after the first are a run of column-level documentation
/// lines closed by one column-definition line, exactly one column is
/// emitted: its contents are the prose remainders joined by single spaces
/// (blank remainders as line breaks) and its example is the text after the
/// last `@example` tag, each finalized by trimming.
pub proof fn lemma_column_docs_joined(sql: Seq<char>, name: Seq<char>)
    requires
        lines_spec(sql).len() >= 2,
        forall|i: int| 1 <= i < lines_spec(sql).len() - 1 ==> is_col_doc_line(#[trigger] lines_spec(sql)[i]),
        is_column_def_line(lines_spec(sql)[lines_spec(sql).len() - 1]),
    ensures
        ({
            let lines = lines_spec(sql);
            let rests = lines.subrange(1, lines.len() - 1).map_values(
                |l: Seq<char>| col_doc_rest(l),
            );
            let accs = join_col_docs(Seq::empty(), Seq::empty(), rests);
            parse_spec(sql, name).columns =~= seq![
                ColumnDocsView {
                    name: column_def_name(lines[lines.len() - 1]),
                    contents: opt_trimmed(accs.0),
                    example: opt_trimmed(accs.1),
                },
            ]
        }),
{
    lemma_col_docs_to_end(lines_spec(sql), 1, init_state());
}

/// The scanner's state after the lines `lines[i..j]`, started from `st`:
/// `scan_from` cut off at `j`.
pub open spec fn scan_between(lines: Seq<Seq<char>>, i: int, j: int, st: ScanState) -> ScanState
    decreases j - i,
{
    if i < 0 || i >= j || j > lines.len() {
        st
    } else {
        scan_between(lines, i + 1, j, scan_line(st, lines[i]))
    }
}

/// A scan decomposes at any cut: running to the end equals running to `j`
/// and going on from there.
pub proof fn lemma_scan_decompose(lines: Seq<Seq<char>>, i: int, j: int, st: ScanState)
    requires
        0 <= i <= j <= lines.len(),
    ensures
        scan_from(lines, i, st) == scan_from(lines, j, scan_between(lines, i, j, st)),
    decreases j - i,
{
    if i < j {
        lemma_scan_decompose(lines, i + 1, j, scan_line(st, lines[i]));
    }
}

/// The remainders of exactly the column-level documentation lines among
/// `lines[i..j]`, in order.
pub open spec fn col_doc_rests(lines: Seq<Seq<char>>, i: int, j: int) -> Seq<Seq<char>>
    decreases j - i,
{
    if i < 0 || i >= j || j > lines.len() {
        Seq::empty()
    } else if is_col_doc_line(lines[i]) {
        seq![col_doc_rest(lines[i])] + col_doc_rests(lines, i + 1, j)
    } else {
        col_doc_rests(lines, i + 1, j)
    }
}

/// The column-doc join law in its general, interleaved form: over any run
/// of lines without a column definition, the pending accumulators become
/// the join of the column-doc remainders of exactly the column-doc lines in
/// the run — table-level lines, plain comments and skipped lines contribute
/// nothing — and the column closed out by a column-definition line that
/// follows the run is built from that join.
pub proof fn lemma_column_docs_joined_general(lines: Seq<Seq<char>>, i: int, j: int, st: ScanState)
    requires
        0 <= i <= j < lines.len(),
        forall|k: int| i <= k < j ==> !is_column_def_line(#[trigger] lines[k]),
        is_column_def_line(lines[j]),
    ensures
        ({
            let accs = join_col_docs(st.doc, st.ex, col_doc_rests(lines, i, j));
            let mid = scan_between(lines, i, j, st);
            mid.doc == accs.0 && mid.ex == accs.1 && mid.cols == st.cols && scan_between(
                lines,
                i,
                j + 1,
                st,
            ).cols == st.cols.push(
                ColumnDocsView {
                    name: column_def_name(lines[j]),
                    contents: opt_trimmed(accs.0),
                    example: opt_trimmed(accs.1),
                },
            )
        }),
    decreases j - i,
{
    let rests = col_doc_rests(lines, i, j);
    if i == j {
        assert(scan_between(lines, i, j, st) == st);
        assert(scan_between(lines, j + 1, j + 1, scan_line(st, lines[j])) == scan_line(
            st,
            lines[j],
        ));
        assert(scan_between(lines, j, j + 1, st) == scan_line(st, lines[j]));
    } else {
        let st1 = scan_line(st, lines[i]);
        if is_col_doc_line(lines[i]) {
            lemma_prefix_chars(trim_start_spec(lines[i]));
            assert(rests[0] == col_doc_rest(lines[i]));
            assert(rests.subrange(1, rests.len() as int) =~= col_doc_rests(lines, i + 1, j));
            assert(st1.cols == st.cols);
        } else {
            assert(rests =~= col_doc_rests(lines, i + 1, j));
            assert(st1.doc == st.doc && st1.ex == st.ex && st1.cols == st.cols);
        }
        lemma_column_docs_joined_general(lines, i + 1, j, st1);
        assert(scan_between(lines, i, j, st) == scan_between(lines, i + 1, j, st1));
        assert(scan_between(lines, i, j + 1, st) == scan_between(lines, i + 1, j + 1, st1));
    }
}

/// The columns emitted from position `i` on, computed from the two pending
/// accumulators alone.
pub open spec fn emitted_cols(lines: Seq<Seq<char>>, i: int, doc: Seq<char>, ex: Seq<char>) -> Seq<
    ColumnDocsView,
>
    decreases lines.len() - i,
{
    if i < 0 || i >= lines.len() {
        Seq::empty()
    } else {
        let st1 = scan_line(
            ScanState { table: Seq::empty(), doc, ex, cols: Seq::empty() },
            lines[i],
        );
        st1.cols + emitted_cols(lines, i + 1, st1.doc, st1.ex)
    }
}

proof fn lemma_cols_from_accumulators(lines: Seq<Seq<char>>, i: int, st: ScanState)
    ensures
        scan_from(lines, i, st).cols =~= st.cols + emitted_cols(lines, i, st.doc, st.ex),
    decreases lines.len() - i,
{
    if 0 <= i < lines.len() {
        let st1 = scan_line(st, lines[i]);
        let ste = scan_line(
            ScanState { table: Seq::empty(), doc: st.doc, ex: st.ex, cols: Seq::empty() },
            lines[i],
        );
        assert(st1.doc == ste.doc && st1.ex == ste.ex);
        assert(st1.cols =~= st.cols + ste.cols);
        lemma_cols_from_accumulators(lines, i + 1, st1);
        assert(st.cols + ste.cols + emitted_cols(lines, i + 1, st1.doc, st1.ex) =~= st.cols + (
        ste.cols + emitted_cols(lines, i + 1, st1.doc, st1.ex)));
    }
}

/// Documentation preceding one column never leaks into a later column's
/// record: a column-definition line clears both pending accumulators, and
/// everything the scanner emits afterwards is computed from cleared
/// accumulators, whatever was accumulated before.
pub proof fn lemma_no_leak(st: ScanState, raw: Seq<char>, lines: Seq<Seq<char>>, i: int)
    requires
        is_column_def_line(raw),
    ensures
        scan_line(st, raw).doc.len() == 0,
        scan_line(st, raw).ex.len() == 0,
        scan_from(lines, i, scan_line(st, raw)).cols =~= scan_line(st, raw).cols + emitted_cols(
            lines,
            i,
            Seq::empty(),
            Seq::empty(),
        ),
{
    lemma_cols_from_accumulators(lines, i, scan_line(st, raw));
}

} // verus!
