//! Which downloaded files become tables, and how they are prepared.
use vstd::prelude::*;
use crate::dataverse::DataverseFile;
use crate::lakehouse::sql::{safe_sql_name, sql_name};
use crate::text::{
    cat, cat3, chars_of, contains_infix, contains_str, ends_with, has_suffix, last_index, lower,
    owned, push_char, str_eq, to_ascii_lowercase, byte_get, has_prefix, starts_with, str_get, trim,
    trim_str, views,
};

verus! {

/// The stem that `Path::file_stem` gives for a file name without `/`:
/// the whole name where it has no `.` past its first character, the part
/// before the last `.` otherwise.
pub open spec fn simple_stem(name: Seq<char>) -> Seq<char> {
    match last_index(name, '.') {
        None => name,
        Some(i) => if i == 0 {
            name
        } else {
            name.subrange(0, i)
        },
    }
}

/// A plain file name on every platform: not empty, not `.` or `..`, and
/// free of `/`, `\` and `:`, which separate components or mark drive
/// prefixes on some platforms.
pub open spec fn plain_file_name(path: Seq<char>) -> bool {
    &&& path.len() > 0
    &&& path != "."@
    &&& path != ".."@
    &&& !path.contains('/')
    &&& !path.contains('\\')
    &&& !path.contains(':')
}

/// `Path::new(path).file_stem()` as text. For a plain file name the
/// documentation gives the stem: the name without its last extension, a
/// leading dot not counting as one. Other paths split into components by
/// rules that differ between platforms, so of them nothing is stated.
#[verifier::external_body]
pub fn file_stem(path: &str) -> (r: Option<String>)
    ensures
        plain_file_name(path@) ==> crate::text::opt_view(r) == Some(simple_stem(path@)),
{
    std::path::Path::new(path).file_stem().and_then(|s| s.to_str()).map(|s| s.to_string())
}

/// The stem of a path, or a fallback where it has none; for a plain file
/// name, its stem.
pub fn stem_or_else(path: &str, fallback: &str) -> (r: String)
    ensures
        plain_file_name(path@) ==> r@ == simple_stem(path@),
{
    let r = file_stem(path);
    match r {
        Some(s) => s,
        None => owned(fallback),
    }
}

/// Whether a file is the CODATA constants table.
pub open spec fn is_codata_file(file: DataverseFile) -> bool {
    file.id@ == "codata_constants_2022"@ || contains_infix(file.filename@, "codata_constants"@)
}

/// Whether a file is the CODATA constants table.
pub fn spec_is_codata(file: &DataverseFile) -> (r: bool)
    ensures
        r == is_codata_file(*file),
{
    str_eq(file.id.as_str(), "codata_constants_2022") || contains_str(file.filename.as_str(), "codata_constants")
}

/// A character of a local file name: `/` and `:` become `_`.
pub open spec fn filename_char(c: char) -> char {
    if c == '/' || c == ':' {
        '_'
    } else {
        c
    }
}

/// A file name safe on local disks.
pub fn sanitize_filename(name: &str) -> (r: String)
    ensures
        r@ == name@.map_values(|c: char| filename_char(c)),
{
    let cs = chars_of(name);
    let mut r = String::new();
    for i in 0..cs.len()
        invariant
            cs@ == name@,
            r@ == name@.take(i as int).map_values(|c: char| filename_char(c)),
    {
        let c = cs[i];
        push_char(&mut r, if c == '/' || c == ':' { '_' } else { c });
        assert(r@ =~= name@.take(i + 1).map_values(|c: char| filename_char(c)));
    }
    assert(name@.take(name@.len() as int) =~= name@);
    r
}

/// How a tabular file is prepared.
#[derive(Debug, Clone, Copy, PartialEq, Eq)]
pub enum TabularKind {
    /// The CODATA constants text table, rewritten as CSV.
    Codata,
    /// A comma-separated file, copied.
    Csv,
    /// A tab-separated file, copied.
    Tsv,
    /// A workbook whose first sheet is written as CSV.
    Xlsx,
}

/// The preparation of a tabular file: what to do, the name its table is
/// derived from, its delimiter, and where the prepared data goes relative
/// to the dataset's prepared directory.
pub struct TabularPlan {
    pub kind: TabularKind,
    pub filename: String,
    pub delimiter: u8,
    pub directory: String,
    pub data_file: String,
}

/// The preparation of a file whose name has the given stem, or `None` for a
/// file that is not tabular: the CODATA table first, then CSV and
/// tab-separated files by name or content type, then workbooks by name.
pub open spec fn tabular_plan_spec(file: DataverseFile, file_stem: Seq<char>) -> Option<
    (TabularKind, Seq<char>, u8, Seq<char>, Seq<char>),
> {
    let name = lower(file.filename@);
    let content_type = lower(
        match file.content_type {
            Some(t) => t@,
            None => Seq::empty(),
        },
    );
    let stem = sql_name(file_stem);
    let xlsx_stem = sql_name(file_stem);
    if is_codata_file(file) {
        Some((TabularKind::Codata, "codata_constants_2022.csv"@, 44, "codata_constants_2022"@, "data.csv"@))
    } else if ends_with(name, ".csv"@) || contains_infix(content_type, "text/csv"@) {
        Some((TabularKind::Csv, file.filename@, 44, stem, "data.csv"@))
    } else if ends_with(name, ".tab"@) || ends_with(name, ".tsv"@) || contains_infix(
        content_type,
        "tab-separated"@,
    ) || contains_infix(content_type, "text/tab"@) {
        Some((TabularKind::Tsv, file.filename@, 9, stem, "data.tsv"@))
    } else if ends_with(name, ".xlsx"@) {
        Some((TabularKind::Xlsx, file.filename@ + ".csv"@, 44, xlsx_stem, xlsx_stem + ".csv"@))
    } else {
        None
    }
}

/// The content type a file declares, or nothing.
pub open spec fn declared_content_type(file: DataverseFile) -> Seq<char> {
    match file.content_type {
        Some(t) => t@,
        None => Seq::empty(),
    }
}

/// The last four characters of `base` followed by a suffix of at least
/// four characters are the suffix's.
proof fn lemma_suffix_end(base: Seq<char>, suffix: Seq<char>, p: Seq<char>)
    requires
        p.len() == 4,
        suffix.len() >= 4,
    ensures
        ends_with(base + suffix, p) == (suffix.subrange(suffix.len() - 4, suffix.len() as int) == p),
{
    let n: int = base.len() + suffix.len() as int;
    assert((base + suffix).subrange(n - 4, n) =~= suffix.subrange(suffix.len() - 4, suffix.len() as int));
}

/// How a file other than the CODATA table is planned by the ending of its
/// lower-cased name: `.csv` as comma-separated (delimiter 44) into
/// `data.csv`; `.tsv` or `.tab`, unless its content type names CSV, as
/// tab-separated (delimiter 9) into `data.tsv`; `.xlsx`, unless its content
/// type names CSV or tab-separated data, as a workbook whose first sheet is
/// written as comma-separated text.
pub proof fn law_tabular_files_by_name(file: DataverseFile, base: Seq<char>, stem: Seq<char>)
    requires
        !is_codata_file(file),
    ensures
        lower(file.filename@) == base + ".csv"@ ==> (tabular_plan_spec(file, stem) matches Some(p) && p.0
            == TabularKind::Csv && p.1 == file.filename@ && p.2 == 44 && p.4 == "data.csv"@),
        (lower(file.filename@) == base + ".tsv"@ || lower(file.filename@) == base + ".tab"@) && !contains_infix(
            lower(declared_content_type(file)),
            "text/csv"@,
        ) ==> (tabular_plan_spec(file, stem) matches Some(p) && p.0 == TabularKind::Tsv && p.1 == file.filename@
            && p.2 == 9 && p.4 == "data.tsv"@),
        lower(file.filename@) == base + ".xlsx"@ && !contains_infix(lower(declared_content_type(file)), "text/csv"@)
            && !contains_infix(lower(declared_content_type(file)), "tab-separated"@) && !contains_infix(
            lower(declared_content_type(file)),
            "text/tab"@,
        ) ==> (tabular_plan_spec(file, stem) matches Some(p) && p.0 == TabularKind::Xlsx && p.1 == file.filename@
            + ".csv"@ && p.2 == 44),
{
    reveal_strlit(".csv");
    reveal_strlit(".tsv");
    reveal_strlit(".tab");
    reveal_strlit(".xlsx");
    let name = lower(file.filename@);
    assert(".csv"@.subrange(0, 4) =~= ".csv"@);
    assert(".tsv"@.subrange(0, 4) =~= ".tsv"@);
    assert(".tab"@.subrange(0, 4) =~= ".tab"@);
    assert(".xlsx"@.subrange(1, 5) =~= seq!['x', 'l', 's', 'x']);
    if name == base + ".csv"@ {
        lemma_suffix_end(base, ".csv"@, ".csv"@);
    }
    if name == base + ".tsv"@ {
        lemma_suffix_end(base, ".tsv"@, ".csv"@);
        lemma_suffix_end(base, ".tsv"@, ".tsv"@);
        assert(".tsv"@[1] != ".csv"@[1]);
    }
    if name == base + ".tab"@ {
        lemma_suffix_end(base, ".tab"@, ".csv"@);
        lemma_suffix_end(base, ".tab"@, ".tab"@);
        assert(".tab"@[1] != ".csv"@[1]);
    }
    if name == base + ".xlsx"@ {
        lemma_suffix_end(base, ".xlsx"@, ".csv"@);
        lemma_suffix_end(base, ".xlsx"@, ".tsv"@);
        lemma_suffix_end(base, ".xlsx"@, ".tab"@);
        assert(seq!['x', 'l', 's', 'x'][0] != ".csv"@[0]);
        assert(seq!['x', 'l', 's', 'x'][0] != ".tsv"@[0]);
        assert(seq!['x', 'l', 's', 'x'][0] != ".tab"@[0]);
        assert(ends_with(name, ".xlsx"@)) by {
            assert((base + ".xlsx"@).subrange(base.len() as int, base.len() + 5int) =~= ".xlsx"@);
        }
    }
}

/// How a file other than the CODATA table is planned by its declared
/// content type (case aside): one naming `text/csv` as comma-separated;
/// one naming tab-separated data (`tab-separated` or `text/tab`), for a
/// name not ending `.csv`, as tab-separated; and a file whose name ends in
/// none of `.csv`, `.tsv`, `.tab`, `.xlsx` and whose content type names
/// neither is not a table.
pub proof fn law_tabular_files_by_content_type(file: DataverseFile, stem: Seq<char>)
    requires
        !is_codata_file(file),
    ensures
        ({
            let ct = lower(declared_content_type(file));
            contains_infix(ct, "text/csv"@) ==> (tabular_plan_spec(file, stem) matches Some(p) && p.0
                == TabularKind::Csv && p.2 == 44 && p.4 == "data.csv"@)
        }),
        ({
            let ct = lower(declared_content_type(file));
            !ends_with(lower(file.filename@), ".csv"@) && !contains_infix(ct, "text/csv"@) && (contains_infix(
                ct,
                "tab-separated"@,
            ) || contains_infix(ct, "text/tab"@)) ==> (tabular_plan_spec(file, stem) matches Some(p) && p.0
                == TabularKind::Tsv && p.2 == 9 && p.4 == "data.tsv"@)
        }),
        ({
            let ct = lower(declared_content_type(file));
            let name = lower(file.filename@);
            !ends_with(name, ".csv"@) && !ends_with(name, ".tsv"@) && !ends_with(name, ".tab"@) && !ends_with(
                name,
                ".xlsx"@,
            ) && !contains_infix(ct, "text/csv"@) && !contains_infix(ct, "tab-separated"@) && !contains_infix(
                ct,
                "text/tab"@,
            ) ==> tabular_plan_spec(file, stem) is None
        }),
{
}

/// Every plan separates fields by tab exactly when it prepares a
/// tab-separated file, and the CODATA table is always planned as such.
pub proof fn law_tabular_delimiters(file: DataverseFile, stem: Seq<char>)
    ensures
        tabular_plan_spec(file, stem) matches Some(p) ==> (p.2 == 9 <==> p.0 == TabularKind::Tsv),
        tabular_plan_spec(file, stem) matches Some(p) ==> (p.0 == TabularKind::Tsv ==> p.4 == "data.tsv"@),
        is_codata_file(file) ==> (tabular_plan_spec(file, stem) matches Some(p) && p.0 == TabularKind::Codata),
{
}

impl TabularPlan {
    pub open spec fn model(&self) -> (TabularKind, Seq<char>, u8, Seq<char>, Seq<char>) {
        (self.kind, self.filename@, self.delimiter, self.directory@, self.data_file@)
    }
}

/// How a downloaded file is prepared as a table, if it is tabular. The
/// stem used is the file name's stem (`table`, or the file ID for a
/// workbook, where it has none); for a plain file name it is the name
/// without its last extension.
pub fn tabular_plan(file: &DataverseFile) -> (r: Option<TabularPlan>)
    ensures
        match r {
            Some(p) => exists|stem: Seq<char>|
                tabular_plan_spec(*file, stem) == Some(p.model()) && (plain_file_name(file.filename@)
                    ==> stem == simple_stem(file.filename@)),
            None => tabular_plan_spec(*file, Seq::empty()) is None,
        },
{
    let name = to_ascii_lowercase(file.filename.as_str());
    let content_type = match &file.content_type {
        Some(t) => to_ascii_lowercase(t.as_str()),
        None => {
            assert(lower(Seq::<char>::empty()) =~= Seq::<char>::empty());
            String::new()
        },
    };
    assert(content_type@ == lower(
        match file.content_type {
            Some(t) => t@,
            None => Seq::<char>::empty(),
        },
    ));
    if spec_is_codata(file) {
        assert(tabular_plan_spec(*file, simple_stem(file.filename@)) is Some);
        return Some(
            TabularPlan {
                kind: TabularKind::Codata,
                filename: owned("codata_constants_2022.csv"),
                delimiter: 44,
                directory: owned("codata_constants_2022"),
                data_file: owned("data.csv"),
            },
        );
    }
    if has_suffix(name.as_str(), ".csv") || contains_str(content_type.as_str(), "text/csv") {
        let stem = stem_or_else(file.filename.as_str(), "table");
        assert(tabular_plan_spec(*file, stem@) is Some);
        return Some(
            TabularPlan {
                kind: TabularKind::Csv,
                filename: file.filename.clone(),
                delimiter: 44,
                directory: safe_sql_name(stem.as_str()),
                data_file: owned("data.csv"),
            },
        );
    }
    if has_suffix(name.as_str(), ".tab") || has_suffix(name.as_str(), ".tsv") || contains_str(
        content_type.as_str(),
        "tab-separated",
    ) || contains_str(content_type.as_str(), "text/tab") {
        let stem = stem_or_else(file.filename.as_str(), "table");
        assert(tabular_plan_spec(*file, stem@) is Some);
        return Some(
            TabularPlan {
                kind: TabularKind::Tsv,
                filename: file.filename.clone(),
                delimiter: 9,
                directory: safe_sql_name(stem.as_str()),
                data_file: owned("data.tsv"),
            },
        );
    }
    if has_suffix(name.as_str(), ".xlsx") {
        let stem = stem_or_else(file.filename.as_str(), file.id.as_str());
        let safe = safe_sql_name(stem.as_str());
        assert(tabular_plan_spec(*file, stem@) is Some);
        return Some(
            TabularPlan {
                kind: TabularKind::Xlsx,
                filename: cat(file.filename.as_str(), ".csv"),
                delimiter: 44,
                data_file: cat(safe.as_str(), ".csv"),
                directory: safe,
            },
        );
    }
    None
}

/// A text, or the empty text.
pub open spec fn or_empty(o: Option<Seq<char>>) -> Seq<char> {
    match o {
        Some(t) => t,
        None => Seq::empty(),
    }
}

/// The length in bytes of a line's UTF-8 encoding.
pub open spec fn byte_len(line: Seq<char>) -> int {
    vstd::utf8::encode_utf8(line).len() as int
}

/// The fields of a line of the CODATA constants table: the trimmed texts at
/// bytes 0–60 (quantity), 60–85 (value), 85–110 (uncertainty) and from
/// 110 on (unit), each empty where the range does not slice the line; no
/// row where the quantity is empty.
pub open spec fn codata_row(line: Seq<char>) -> Option<Seq<Seq<char>>> {
    let quantity = trim(or_empty(byte_get(line, 0, 60)));
    let value = trim(or_empty(byte_get(line, 60, 85)));
    let uncertainty = trim(or_empty(byte_get(line, 85, 110)));
    let unit = trim(or_empty(byte_get(line, 110, byte_len(line))));
    if quantity.len() == 0 {
        None
    } else {
        Some(seq![quantity, value, uncertainty, unit])
    }
}

/// Reading the table line by line: whether its rule (a line starting with
/// `----`) has been passed, and the rows so far. Before the rule, and for
/// blank lines or lines under 90 bytes, nothing is read.
pub open spec fn codata_scan(lines: Seq<Seq<char>>) -> (bool, Seq<Seq<Seq<char>>>)
    decreases lines.len(),
{
    if lines.len() == 0 {
        (false, Seq::empty())
    } else {
        let (in_table, rows) = codata_scan(lines.drop_last());
        let line = lines.last();
        if starts_with(line, "----"@) {
            (true, rows)
        } else if !in_table || trim(line).len() == 0 || byte_len(line) < 90 {
            (in_table, rows)
        } else {
            match codata_row(line) {
                Some(r) => (in_table, rows.push(r)),
                None => (in_table, rows),
            }
        }
    }
}

/// The CSV header of the normalized constants table.
pub open spec fn codata_header() -> Seq<Seq<char>> {
    seq!["quantity"@, "value"@, "uncertainty"@, "unit"@]
}

/// The trimmed text of a byte range of a line, or the empty text.
fn field_at(line: &str, from: usize, to: usize) -> (r: String)
    ensures
        r@ == trim(or_empty(byte_get(line@, from as int, to as int))),
{
    match str_get(line, from, to) {
        Some(t) => trim_str(t.as_str()),
        None => {
            proof {
                reveal_strlit("");
            }
            trim_str("")
        },
    }
}

/// One line of the CODATA constants table as a row.
pub fn codata_constant_row(line: &str) -> (r: Option<Vec<String>>)
    ensures
        match r {
            Some(v) => codata_row(line@) == Some(views(v@)),
            None => codata_row(line@) is None,
        },
{
    let n = line.as_bytes().len();
    let quantity = field_at(line, 0, 60);
    if quantity.as_str().is_empty() {
        return None;
    }
    let value = field_at(line, 60, 85);
    let uncertainty = field_at(line, 85, 110);
    let unit = field_at(line, 110, n);
    let mut row: Vec<String> = Vec::new();
    row.push(quantity);
    row.push(value);
    row.push(uncertainty);
    row.push(unit);
    assert(views(row@) =~= codata_row(line@)->Some_0);
    Some(row)
}

/// The CODATA constants table, given as its lines, as CSV rows: the header
/// `quantity, value, uncertainty, unit`, then one row per constant.
pub fn codata_constant_rows(lines: &Vec<String>) -> (r: Vec<Vec<String>>)
    ensures
        r@.len() >= 1,
        views(r@[0]@) == codata_header(),
        r@.len() == codata_scan(views(lines@)).1.len() + 1,
        forall|i: int| 1 <= i < r@.len() ==> views(#[trigger] r@[i]@) == codata_scan(views(lines@)).1[i - 1],
{
    let ghost ls = views(lines@);
    let mut r: Vec<Vec<String>> = Vec::new();
    let mut header: Vec<String> = Vec::new();
    header.push(owned("quantity"));
    header.push(owned("value"));
    header.push(owned("uncertainty"));
    header.push(owned("unit"));
    assert(views(header@) =~= codata_header());
    r.push(header);
    let mut in_table = false;
    for i in 0..lines.len()
        invariant
            ls == views(lines@),
            r@.len() >= 1,
            views(r@[0]@) == codata_header(),
            in_table == codata_scan(ls.take(i as int)).0,
            r@.len() == codata_scan(ls.take(i as int)).1.len() + 1,
            forall|k: int| 1 <= k < r@.len() ==> views(#[trigger] r@[k]@) == codata_scan(ls.take(i as int)).1[k - 1],
    {
        let line = lines[i].as_str();
        assert(ls.take(i + 1).drop_last() =~= ls.take(i as int));
        assert(ls.take(i + 1).last() == line@);
        proof {
            reveal_strlit("----");
        }
        if has_prefix(line, "----") {
            in_table = true;
        } else {
            let blank = trim_str(line).as_str().is_empty();
            if in_table && !blank && line.as_bytes().len() >= 90 {
                match codata_constant_row(line) {
                    Some(row) => {
                        let ghost before = r@;
                        r.push(row);
                        assert forall|k: int| 1 <= k < r@.len() implies views(#[trigger] r@[k]@)
                            == codata_scan(ls.take(i + 1)).1[k - 1] by {
                            if k < before.len() {
                                assert(r@[k] == before[k]);
                            }
                        }
                    },
                    None => {},
                }
            }
        }
    }
    assert(ls.take(ls.len() as int) =~= ls);
    r
}

/// The normalized constants table as rows of text: the header, then one
/// row per constant.
pub open spec fn codata_table(lines: Seq<Seq<char>>) -> Seq<Seq<Seq<char>>> {
    seq![codata_header()] + codata_scan(lines).1
}

/// Every row read from the constants table has four fields.
pub proof fn lemma_codata_rows_have_four_fields(lines: Seq<Seq<char>>)
    ensures
        forall|i: int| 0 <= i < codata_scan(lines).1.len() ==> (#[trigger] codata_scan(lines).1[i]).len() == 4,
    decreases lines.len(),
{
    if lines.len() > 0 {
        lemma_codata_rows_have_four_fields(lines.drop_last());
        let prev = codata_scan(lines.drop_last()).1;
        let rows = codata_scan(lines).1;
        assert forall|i: int| 0 <= i < rows.len() implies (#[trigger] rows[i]).len() == 4 by {
            if i < prev.len() {
                assert(rows[i] == prev[i]);
            } else {
                let line = lines.last();
                assert(codata_row(line) is Some);
                assert(rows[i] == codata_row(line)->Some_0);
            }
        }
    }
}

/// The CODATA constants table, given as its lines, written as CSV: the
/// header `quantity,value,uncertainty,unit`, then one record per constant.
pub fn codata_constants_csv(lines: &Vec<String>) -> (r: Vec<u8>)
    ensures
        crate::lakehouse::delimited::csv_text(codata_table(views(lines@))) == Some(r@),
{
    let rows = codata_constant_rows(lines);
    let ghost table = codata_table(views(lines@));
    proof {
        lemma_codata_rows_have_four_fields(views(lines@));
        let t = crate::lakehouse::delimited::rows_text(rows@);
        assert forall|i: int| 0 <= i < rows@.len() implies #[trigger] t[i] == table[i] by {
            if i > 0 {
                assert(views(rows@[i]@) == codata_scan(views(lines@)).1[i - 1]);
            }
        }
        assert(t =~= table);
        assert forall|i: int| 0 <= i < table.len() implies (#[trigger] table[i]).len() == 4 by {
            if i > 0 {
                assert(table[i] == codata_scan(views(lines@)).1[i - 1]);
            }
        }
        assert(crate::lakehouse::delimited::same_lengths(t));
    }
    match crate::lakehouse::delimited::csv_write(&rows) {
        Some(bytes) => bytes,
        None => {
            proof {
                assert(false);
            }
            Vec::new()
        },
    }
}

} // verus!
