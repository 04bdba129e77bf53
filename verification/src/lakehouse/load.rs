//! What a lakehouse load records: the reports of files and datasets, the
//! names of typed tables, and the rows of the catalog tables.
use vstd::prelude::*;
use crate::dataverse::{or_default, DataverseDataset, DataverseFile};
use crate::lakehouse::infer::column_name;
use crate::lakehouse::normalize::{sanitize_filename, filename_char, plain_file_name, simple_stem, stem_or_else};
use crate::lakehouse::sql::{safe_sql_name, sql_name};
use crate::lakehouse::types::{
    spark_type_name, LakehouseDatasetReport, LakehouseDatasetSpec, LakehouseFileReport, LakehouseReport,
    LakehouseVerifyReport, LakehouseVerifyTable, TypedColumn,
};
use crate::json::{array, member, object, Json, JsonValue};
use crate::text::{
    bool_text, bool_to_string, cat, cat3, clone_opt, decimal, i64_to_string, owned, signed_decimal,
    u64_to_string, views,
};

verus! {

/// The report of a file kept as a downloaded asset, with the status given.
pub open spec fn asset_report_spec(
    file: DataverseFile,
    local_path: Seq<char>,
    size_bytes: u64,
    sha256: Seq<char>,
    status: Seq<char>,
    r: LakehouseFileReport,
) -> bool {
    &&& r.file_id@ == file.id@
    &&& r.filename@ == file.filename@
    &&& crate::text::opt_view(r.content_type) == crate::text::opt_view(file.content_type)
    &&& r.local_path@ == local_path
    &&& r.size_bytes == size_bytes
    &&& r.sha256@ == sha256
    &&& r.table is None
    &&& r.rows is None
    &&& r.columns@.len() == 0
    &&& r.parse_status@ == status
}

/// The report of a file kept as an asset: downloaded, but not loaded as a
/// table.
pub fn asset_report(file: &DataverseFile, local_path: &str, size_bytes: u64, sha256: &str, status: &str) -> (r:
    LakehouseFileReport)
    ensures
        asset_report_spec(*file, local_path@, size_bytes, sha256@, status@, r),
{
    LakehouseFileReport {
        file_id: file.id.clone(),
        filename: file.filename.clone(),
        content_type: clone_opt(&file.content_type),
        local_path: owned(local_path),
        size_bytes,
        sha256: owned(sha256),
        table: None,
        rows: None,
        columns: Vec::new(),
        parse_status: owned(status),
    }
}

/// The report of a file whose download failed.
pub fn download_failed_report(file: &DataverseFile, local_path: &str, error: &str) -> (r: LakehouseFileReport)
    ensures
        asset_report_spec(*file, local_path@, 0, Seq::empty(), "download_failed: "@ + error@, r),
{
    let status = cat("download_failed: ", error);
    let r = asset_report(file, local_path, 0, "", status.as_str());
    proof {
        reveal_strlit("");
        assert(""@ =~= Seq::<char>::empty());
    }
    r
}

/// The name of a downloaded file in the dataset's raw directory.
pub fn raw_file_name(file: &DataverseFile) -> (r: String)
    ensures
        r@ == file.id@ + "_"@ + file.filename@.map_values(|c: char| filename_char(c)),
{
    let safe = sanitize_filename(file.filename.as_str());
    cat3(file.id.as_str(), "_", safe.as_str())
}

/// The typed table of a prepared file: the dataset's name and a stem of
/// the prepared file, made safe and joined by `__`.
pub open spec fn table_name_spec(dataset_id: Seq<char>, stem: Seq<char>) -> Seq<char> {
    sql_name(dataset_id) + "__"@ + sql_name(stem)
}

/// The typed table of a prepared file and the name of its staging view
/// (the table's name and `_raw`). The stem is the prepared file's stem, or
/// the file ID where it has none; for a plain file name it is the name
/// without its last extension.
pub fn typed_table_names(dataset_id: &str, prepared_filename: &str, file_id: &str) -> (r: (String, String))
    ensures
        exists|stem: Seq<char>|
            r.0@ == table_name_spec(dataset_id@, stem) && (plain_file_name(prepared_filename@) ==> stem
                == simple_stem(prepared_filename@)),
        r.1@ == r.0@ + "_raw"@,
{
    let a = safe_sql_name(dataset_id);
    let stem = stem_or_else(prepared_filename, file_id);
    let b = safe_sql_name(stem.as_str());
    let table = cat3(a.as_str(), "__", b.as_str());
    assert(table@ == table_name_spec(dataset_id@, stem@));
    let raw = cat(table.as_str(), "_raw");
    (table, raw)
}

/// The report of a file loaded as a typed table.
pub fn loaded_report(
    file: &DataverseFile,
    local_path: &str,
    size_bytes: u64,
    sha256: &str,
    schema: &str,
    table: &str,
    rows: i64,
    columns: Vec<TypedColumn>,
) -> (r: LakehouseFileReport)
    ensures
        r.file_id@ == file.id@,
        r.filename@ == file.filename@,
        crate::text::opt_view(r.content_type) == crate::text::opt_view(file.content_type),
        r.local_path@ == local_path@,
        r.size_bytes == size_bytes,
        r.sha256@ == sha256@,
        r.table matches Some(t) && t@ == schema@ + "."@ + table@,
        r.rows == Some(rows),
        r.columns == columns,
        r.parse_status@ == "typed_table_loaded"@,
{
    LakehouseFileReport {
        file_id: file.id.clone(),
        filename: file.filename.clone(),
        content_type: clone_opt(&file.content_type),
        local_path: owned(local_path),
        size_bytes,
        sha256: owned(sha256),
        table: Some(cat3(schema, ".", table)),
        rows: Some(rows),
        columns,
        parse_status: owned("typed_table_loaded"),
    }
}

/// How far a file of a dataset got before its report is written.
pub enum FileStage {
    /// Its download failed with this error.
    DownloadFailed(String),
    /// It was downloaded and is not a table.
    Asset,
    /// It was downloaded and prepared as a table under this file name,
    /// with these inferred columns.
    Prepared { prepared_filename: String, columns: Vec<TypedColumn> },
}

/// What comes of a file at a stage: its report, or the typed table (with
/// its staging view) to load with the columns, whose rows then go to
/// `loaded_report`.
pub enum FileStep {
    Done(LakehouseFileReport),
    Load { table: String, raw_table: String, columns: Vec<TypedColumn> },
}

/// The step for a file of dataset `dataset_id` kept at `local_path` (with
/// its size and digest once downloaded): a failed download and a file that
/// is no table are reported as assets, a prepared table without columns as
/// an empty tabular file, and any other prepared table is to be loaded.
pub fn file_step(
    dataset_id: &str,
    file: &DataverseFile,
    local_path: &str,
    size_bytes: u64,
    sha256: &str,
    stage: FileStage,
) -> (r: FileStep)
    ensures
        match stage {
            FileStage::DownloadFailed(e) => r matches FileStep::Done(rep) && asset_report_spec(
                *file,
                local_path@,
                0,
                Seq::empty(),
                "download_failed: "@ + e@,
                rep,
            ),
            FileStage::Asset => r matches FileStep::Done(rep) && asset_report_spec(
                *file,
                local_path@,
                size_bytes,
                sha256@,
                "non_tabular_asset_downloaded"@,
                rep,
            ),
            FileStage::Prepared { prepared_filename, columns } => if columns@.len() == 0 {
                r matches FileStep::Done(rep) && asset_report_spec(
                    *file,
                    local_path@,
                    size_bytes,
                    sha256@,
                    "empty_tabular_file"@,
                    rep,
                )
            } else {
                r matches FileStep::Load { table, raw_table, columns: cols } && cols == columns
                    && raw_table@ == table@ + "_raw"@ && exists|stem: Seq<char>|
                    table@ == table_name_spec(dataset_id@, stem) && (plain_file_name(prepared_filename@)
                        ==> stem == simple_stem(prepared_filename@))
            },
        },
{
    match stage {
        FileStage::DownloadFailed(e) => FileStep::Done(download_failed_report(file, local_path, e.as_str())),
        FileStage::Asset => FileStep::Done(
            asset_report(file, local_path, size_bytes, sha256, "non_tabular_asset_downloaded"),
        ),
        FileStage::Prepared { prepared_filename, columns } => {
            if columns.len() == 0 {
                FileStep::Done(asset_report(file, local_path, size_bytes, sha256, "empty_tabular_file"))
            } else {
                let (table, raw_table) = typed_table_names(
                    dataset_id,
                    prepared_filename.as_str(),
                    file.id.as_str(),
                );
                FileStep::Load { table, raw_table, columns }
            }
        },
    }
}

/// The address under which the CDIF description says a dataset is served.
pub fn access_service(schema: &str, dataset_id: &str) -> (r: String)
    ensures
        r@ == "sail://"@ + schema@ + "/"@ + dataset_id@,
{
    let mut r = cat3("sail://", schema, "/");
    crate::text::push_str(&mut r, dataset_id);
    r
}

/// The dataset and file of a dataset specification that names a URL.
pub fn url_source(spec: &LakehouseDatasetSpec, url: &str, filename: &str) -> (r: (DataverseDataset, DataverseFile))
    ensures
        r.1.id@ == spec.id@,
        r.1.filename@ == filename@,
        r.1.content_type matches Some(t) && t@ == "text/plain"@,
        r.1.download_url@ == url@,
        r.0.id@ == spec.id@,
        r.0.persistent_id@ == spec.id@,
        r.0.title@ == spec.title@,
        r.0.landing_page@ == "https://physics.nist.gov/constants"@,
        r.0.files@.len() == 1,
        r.0.files@[0] == r.1,
        r.1.description matches Some(d) && d@ == "CODATA/NIST constants ASCII table"@,
        r.0.description@ == "Trusted CODATA/NIST reference table for constants, units, and measurement semantics."@,
        views(r.0.authors@) == seq!["CODATA Task Group on Fundamental Constants"@, "NIST"@],
        views(r.0.subjects@) == seq!["Physics"@, "Reference Data"@],
        views(r.0.keywords@) == seq!["CODATA"@, "constants"@, "units"@],
        r.0.license matches Some(l) && l@ == "Public domain / NIST SRD 121"@,
{
    let file = DataverseFile {
        id: spec.id.clone(),
        filename: owned(filename),
        content_type: Some(owned("text/plain")),
        download_url: owned(url),
        description: Some(owned("CODATA/NIST constants ASCII table")),
    };
    let mut authors: Vec<String> = Vec::new();
    authors.push(owned("CODATA Task Group on Fundamental Constants"));
    authors.push(owned("NIST"));
    let mut subjects: Vec<String> = Vec::new();
    subjects.push(owned("Physics"));
    subjects.push(owned("Reference Data"));
    let mut keywords: Vec<String> = Vec::new();
    keywords.push(owned("CODATA"));
    keywords.push(owned("constants"));
    keywords.push(owned("units"));
    let mut files: Vec<DataverseFile> = Vec::new();
    let copy = DataverseFile {
        id: file.id.clone(),
        filename: file.filename.clone(),
        content_type: clone_opt(&file.content_type),
        download_url: file.download_url.clone(),
        description: clone_opt(&file.description),
    };
    files.push(copy);
    assert(views(authors@) =~= seq!["CODATA Task Group on Fundamental Constants"@, "NIST"@]);
    assert(views(subjects@) =~= seq!["Physics"@, "Reference Data"@]);
    assert(views(keywords@) =~= seq!["CODATA"@, "constants"@, "units"@]);
    let dataset = DataverseDataset {
        id: spec.id.clone(),
        persistent_id: spec.id.clone(),
        title: spec.title.clone(),
        description: owned(
            "Trusted CODATA/NIST reference table for constants, units, and measurement semantics.",
        ),
        authors,
        subjects,
        keywords,
        license: Some(owned("Public domain / NIST SRD 121")),
        landing_page: owned("https://physics.nist.gov/constants"),
        files,
    };
    (dataset, file)
}

/// The first `max` files, or all where no maximum is set.
pub fn select_files(files: &Vec<DataverseFile>, max: Option<usize>) -> (r: Vec<DataverseFile>)
    ensures
        r@ == match max {
            Some(m) => if m < files@.len() {
                files@.take(m as int)
            } else {
                files@
            },
            None => files@,
        },
{
    let limit = match max {
        Some(m) => if m < files.len() {
            m
        } else {
            files.len()
        },
        None => files.len(),
    };
    let mut r: Vec<DataverseFile> = Vec::new();
    for i in 0..limit
        invariant
            limit <= files@.len(),
            r@ == files@.take(i as int),
    {
        let f = &files[i];
        r.push(
            DataverseFile {
                id: f.id.clone(),
                filename: f.filename.clone(),
                content_type: clone_opt(&f.content_type),
                download_url: f.download_url.clone(),
                description: clone_opt(&f.description),
            },
        );
        assert(r@ =~= files@.take(i + 1));
    }
    assert(limit == files@.len() ==> files@.take(limit as int) =~= files@);
    r
}

/// A table of text columns to stage as a view and copy into the catalog.
pub struct CatalogTable {
    pub view: String,
    pub table: String,
    pub headers: Vec<String>,
    pub rows: Vec<Vec<String>>,
}

/// The texts of a list of rows.
pub open spec fn row_views(rows: Seq<Vec<String>>) -> Seq<Seq<Seq<char>>> {
    rows.map_values(|r: Vec<String>| views(r@))
}

/// A catalog row of a dataset.
pub open spec fn dataset_row(d: LakehouseDatasetReport) -> Seq<Seq<char>> {
    seq![d.id@, or_default(d.persistent_id, Seq::empty()), d.title@, d.croissant_path@, d.cdif_path@]
}

/// A catalog row of a file.
pub open spec fn file_row(d: LakehouseDatasetReport, f: LakehouseFileReport) -> Seq<Seq<char>> {
    seq![
        d.id@,
        f.file_id@,
        f.filename@,
        or_default(f.content_type, Seq::empty()),
        f.local_path@,
        decimal(f.size_bytes as nat),
        f.sha256@,
        or_default(f.table, Seq::empty()),
        match f.rows {
            Some(n) => signed_decimal(n as int),
            None => Seq::empty(),
        },
        f.parse_status@,
    ]
}

/// A catalog row of a column.
pub open spec fn column_row(d: LakehouseDatasetReport, f: LakehouseFileReport, c: TypedColumn) -> Seq<Seq<char>> {
    seq![
        d.id@,
        f.file_id@,
        or_default(f.table, Seq::empty()),
        c.source_name@,
        c.name@,
        spark_type_name(c.data_type),
        bool_text(c.nullable),
    ]
}

/// The rows of the dataset catalog.
pub open spec fn dataset_rows(ds: Seq<LakehouseDatasetReport>) -> Seq<Seq<Seq<char>>> {
    ds.map_values(|d: LakehouseDatasetReport| dataset_row(d))
}

/// The rows of the file catalog: dataset by dataset, file by file.
pub open spec fn file_rows(ds: Seq<LakehouseDatasetReport>) -> Seq<Seq<Seq<char>>>
    decreases ds.len(),
{
    if ds.len() == 0 {
        Seq::empty()
    } else {
        let d = ds.last();
        file_rows(ds.drop_last()) + d.files@.map_values(|f: LakehouseFileReport| file_row(d, f))
    }
}

/// The column rows of a dataset's files, file by file, column by column.
pub open spec fn file_column_rows(d: LakehouseDatasetReport, fs: Seq<LakehouseFileReport>) -> Seq<Seq<Seq<char>>>
    decreases fs.len(),
{
    if fs.len() == 0 {
        Seq::empty()
    } else {
        let f = fs.last();
        file_column_rows(d, fs.drop_last()) + f.columns@.map_values(|c: TypedColumn| column_row(d, f, c))
    }
}

/// The rows of the column catalog.
pub open spec fn column_rows(ds: Seq<LakehouseDatasetReport>) -> Seq<Seq<Seq<char>>>
    decreases ds.len(),
{
    if ds.len() == 0 {
        Seq::empty()
    } else {
        column_rows(ds.drop_last()) + file_column_rows(ds.last(), ds.last().files@)
    }
}

/// An optional text, or the empty text.
fn text_or_empty(o: &Option<String>) -> (r: String)
    ensures
        r@ == or_default(*o, Seq::empty()),
{
    match o {
        Some(s) => s.clone(),
        None => String::new(),
    }
}

/// The catalog row of a file.
fn file_row_value(d: &LakehouseDatasetReport, f: &LakehouseFileReport) -> (r: Vec<String>)
    ensures
        views(r@) == file_row(*d, *f),
{
    let mut r: Vec<String> = Vec::new();
    r.push(d.id.clone());
    r.push(f.file_id.clone());
    r.push(f.filename.clone());
    r.push(text_or_empty(&f.content_type));
    r.push(f.local_path.clone());
    r.push(u64_to_string(f.size_bytes));
    r.push(f.sha256.clone());
    r.push(text_or_empty(&f.table));
    r.push(
        match f.rows {
            Some(n) => i64_to_string(n),
            None => String::new(),
        },
    );
    r.push(f.parse_status.clone());
    assert(views(r@) =~= file_row(*d, *f));
    r
}

/// The catalog row of a column.
fn column_row_value(d: &LakehouseDatasetReport, f: &LakehouseFileReport, c: &TypedColumn) -> (r: Vec<String>)
    ensures
        views(r@) == column_row(*d, *f, *c),
{
    let mut r: Vec<String> = Vec::new();
    r.push(d.id.clone());
    r.push(f.file_id.clone());
    r.push(text_or_empty(&f.table));
    r.push(c.source_name.clone());
    r.push(c.name.clone());
    r.push(owned(c.data_type.spark_type()));
    r.push(bool_to_string(c.nullable));
    assert(views(r@) =~= column_row(*d, *f, *c));
    r
}

/// The rows of the dataset catalog.
pub fn catalog_dataset_rows(reports: &Vec<LakehouseDatasetReport>) -> (r: Vec<Vec<String>>)
    ensures
        row_views(r@) == dataset_rows(reports@),
{
    let mut rows: Vec<Vec<String>> = Vec::new();
    for i in 0..reports.len()
        invariant
            row_views(rows@) == dataset_rows(reports@.take(i as int)),
    {
        let d = &reports[i];
        let mut row: Vec<String> = Vec::new();
        row.push(d.id.clone());
        row.push(text_or_empty(&d.persistent_id));
        row.push(d.title.clone());
        row.push(d.croissant_path.clone());
        row.push(d.cdif_path.clone());
        assert(views(row@) =~= dataset_row(*d));
        let ghost before = rows@;
        rows.push(row);
        assert(row_views(rows@) =~= row_views(before).push(dataset_row(*d)));
        assert(dataset_rows(reports@.take(i + 1)) =~= dataset_rows(reports@.take(i as int)).push(
            dataset_row(*d),
        ));
    }
    assert(reports@.take(reports@.len() as int) =~= reports@);
    rows
}

/// The rows of the file catalog.
pub fn catalog_file_rows(reports: &Vec<LakehouseDatasetReport>) -> (r: Vec<Vec<String>>)
    ensures
        row_views(r@) == file_rows(reports@),
{
    let mut rows: Vec<Vec<String>> = Vec::new();
    for i in 0..reports.len()
        invariant
            row_views(rows@) == file_rows(reports@.take(i as int)),
    {
        let d = &reports[i];
        let ghost before = row_views(rows@);
        let ghost added = d.files@.map_values(|f: LakehouseFileReport| file_row(*d, f));
        for j in 0..d.files.len()
            invariant
                row_views(rows@) == before + added.take(j as int),
                added == d.files@.map_values(|f: LakehouseFileReport| file_row(*d, f)),
        {
            let ghost prev = rows@;
            rows.push(file_row_value(d, &d.files[j]));
            assert(row_views(rows@) =~= row_views(prev).push(file_row(*d, d.files@[j as int])));
            assert(before + added.take(j + 1) =~= (before + added.take(j as int)).push(added[j as int]));
        }
        assert(added.take(d.files@.len() as int) =~= added);
        assert(reports@.take(i + 1).drop_last() =~= reports@.take(i as int));
        assert(reports@.take(i + 1).last() == *d);
    }
    assert(reports@.take(reports@.len() as int) =~= reports@);
    rows
}

/// The rows of the column catalog.
pub fn catalog_column_rows(reports: &Vec<LakehouseDatasetReport>) -> (r: Vec<Vec<String>>)
    ensures
        row_views(r@) == column_rows(reports@),
{
    let mut rows: Vec<Vec<String>> = Vec::new();
    for i in 0..reports.len()
        invariant
            row_views(rows@) == column_rows(reports@.take(i as int)),
    {
        let d = &reports[i];
        let ghost base = row_views(rows@);
        for j in 0..d.files.len()
            invariant
                row_views(rows@) == base + file_column_rows(*d, d.files@.take(j as int)),
        {
            let f = &d.files[j];
            let ghost mid = row_views(rows@);
            let ghost added = f.columns@.map_values(|c: TypedColumn| column_row(*d, *f, c));
            for k in 0..f.columns.len()
                invariant
                    row_views(rows@) == mid + added.take(k as int),
                    added == f.columns@.map_values(|c: TypedColumn| column_row(*d, *f, c)),
            {
                let ghost prev = rows@;
                rows.push(column_row_value(d, f, &f.columns[k]));
                assert(row_views(rows@) =~= row_views(prev).push(column_row(*d, *f, f.columns@[k as int])));
                assert(mid + added.take(k + 1) =~= (mid + added.take(k as int)).push(added[k as int]));
            }
            assert(added.take(f.columns@.len() as int) =~= added);
            assert(d.files@.take(j + 1).drop_last() =~= d.files@.take(j as int));
            assert(d.files@.take(j + 1).last() == *f);
            assert(base + file_column_rows(*d, d.files@.take(j + 1)) =~= mid + added);
        }
        assert(d.files@.take(d.files@.len() as int) =~= d.files@);
        assert(reports@.take(i + 1).drop_last() =~= reports@.take(i as int));
        assert(reports@.take(i + 1).last() == *d);
    }
    assert(reports@.take(reports@.len() as int) =~= reports@);
    rows
}

/// A list of strings from texts.
fn header_list(items: &[&str]) -> (r: Vec<String>)
    ensures
        views(r@) == items@.map_values(|s: &str| s@),
{
    let mut r: Vec<String> = Vec::new();
    let mut i: usize = 0;
    while i < items.len()
        invariant
            i <= items@.len(),
            r@.len() == i,
            forall|j: int| 0 <= j < i ==> (#[trigger] r@[j])@ == items@[j]@,
        decreases items.len() - i,
    {
        r.push(owned(items[i]));
        i = i + 1;
    }
    assert(views(r@) =~= items@.map_values(|s: &str| s@));
    r
}

/// The headers of the dataset catalog.
pub open spec fn dataset_headers() -> Seq<Seq<char>> {
    seq!["dataset_id"@, "persistent_id"@, "title"@, "croissant_path"@, "cdif_path"@]
}

/// The headers of the file catalog.
pub open spec fn file_headers() -> Seq<Seq<char>> {
    seq![
        "dataset_id"@,
        "file_id"@,
        "filename"@,
        "content_type"@,
        "local_path"@,
        "size_bytes"@,
        "sha256"@,
        "table_name"@,
        "rows"@,
        "parse_status"@,
    ]
}

/// The headers of the column catalog.
pub open spec fn column_headers() -> Seq<Seq<char>> {
    seq![
        "dataset_id"@,
        "file_id"@,
        "table_name"@,
        "source_name"@,
        "column_name"@,
        "data_type"@,
        "nullable"@,
    ]
}

/// A catalog table with the given view, table, headers and rows.
pub open spec fn catalog_is(
    t: CatalogTable,
    view: Seq<char>,
    table: Seq<char>,
    headers: Seq<Seq<char>>,
    rows: Seq<Seq<Seq<char>>>,
) -> bool {
    &&& t.view@ == view
    &&& t.table@ == table
    &&& views(t.headers@) == headers
    &&& row_views(t.rows@) == rows
}

/// The three catalog tables of a load: its datasets, its files and its
/// columns, each staged as a view and copied into a table of the schema.
pub fn materialize_catalog_tables(reports: &Vec<LakehouseDatasetReport>) -> (r: Vec<CatalogTable>)
    ensures
        r@.len() == 3,
        catalog_is(
            r@[0],
            "qg_lakehouse_stage_datasets"@,
            "lakehouse_datasets"@,
            dataset_headers(),
            dataset_rows(reports@),
        ),
        catalog_is(r@[1], "qg_lakehouse_stage_files"@, "lakehouse_files"@, file_headers(), file_rows(reports@)),
        catalog_is(
            r@[2],
            "qg_lakehouse_stage_columns"@,
            "lakehouse_columns"@,
            column_headers(),
            column_rows(reports@),
        ),
{
    let dh = header_list(&["dataset_id", "persistent_id", "title", "croissant_path", "cdif_path"]);
    assert(views(dh@) =~= dataset_headers());
    let fh = header_list(
        &[
            "dataset_id",
            "file_id",
            "filename",
            "content_type",
            "local_path",
            "size_bytes",
            "sha256",
            "table_name",
            "rows",
            "parse_status",
        ],
    );
    assert(views(fh@) =~= file_headers());
    let ch = header_list(
        &["dataset_id", "file_id", "table_name", "source_name", "column_name", "data_type", "nullable"],
    );
    assert(views(ch@) =~= column_headers());
    let mut r: Vec<CatalogTable> = Vec::new();
    r.push(
        CatalogTable {
            view: owned("qg_lakehouse_stage_datasets"),
            table: owned("lakehouse_datasets"),
            headers: dh,
            rows: catalog_dataset_rows(reports),
        },
    );
    r.push(
        CatalogTable {
            view: owned("qg_lakehouse_stage_files"),
            table: owned("lakehouse_files"),
            headers: fh,
            rows: catalog_file_rows(reports),
        },
    );
    r.push(
        CatalogTable {
            view: owned("qg_lakehouse_stage_columns"),
            table: owned("lakehouse_columns"),
            headers: ch,
            rows: catalog_column_rows(reports),
        },
    );
    r
}

/// The typed tables of a report with their recorded row counts: every
/// file with both a table and a row count, dataset by dataset.
pub open spec fn verify_targets(ds: Seq<LakehouseDatasetReport>) -> Seq<(Seq<char>, i64)>
    decreases ds.len(),
{
    if ds.len() == 0 {
        Seq::empty()
    } else {
        verify_targets(ds.drop_last()) + file_targets(ds.last().files@)
    }
}

/// The files with both a table and a row count.
pub open spec fn file_targets(fs: Seq<LakehouseFileReport>) -> Seq<(Seq<char>, i64)>
    decreases fs.len(),
{
    if fs.len() == 0 {
        Seq::empty()
    } else {
        let f = fs.last();
        let rest = file_targets(fs.drop_last());
        match (f.table, f.rows) {
            (Some(t), Some(n)) => rest.push((t@, n)),
            _ => rest,
        }
    }
}

/// The typed tables of a report whose rows are to be counted in the
/// warehouse, with their recorded row counts.
pub fn verification_targets(report: &LakehouseReport) -> (r: Vec<(String, i64)>)
    ensures
        r@.map_values(|p: (String, i64)| (p.0@, p.1)) == verify_targets(report.datasets@),
{
    let ds = &report.datasets;
    let mut r: Vec<(String, i64)> = Vec::new();
    for i in 0..ds.len()
        invariant
            ds == &report.datasets,
            r@.map_values(|p: (String, i64)| (p.0@, p.1)) == verify_targets(ds@.take(i as int)),
    {
        let d = &ds[i];
        let ghost base = r@.map_values(|p: (String, i64)| (p.0@, p.1));
        for j in 0..d.files.len()
            invariant
                r@.map_values(|p: (String, i64)| (p.0@, p.1)) == base + file_targets(d.files@.take(j as int)),
        {
            let f = &d.files[j];
            let ghost prev = r@;
            assert(d.files@.take(j + 1).drop_last() =~= d.files@.take(j as int));
            assert(d.files@.take(j + 1).last() == *f);
            match (&f.table, f.rows) {
                (Some(t), Some(n)) => {
                    r.push((t.clone(), n));
                    assert(r@.map_values(|p: (String, i64)| (p.0@, p.1)) =~= prev.map_values(
                        |p: (String, i64)| (p.0@, p.1),
                    ).push((t@, n)));
                },
                _ => {},
            }
        }
        assert(d.files@.take(d.files@.len() as int) =~= d.files@);
        assert(ds@.take(i + 1).drop_last() =~= ds@.take(i as int));
        assert(ds@.take(i + 1).last() == *d);
    }
    assert(ds@.take(ds@.len() as int) =~= ds@);
    r
}

/// The sum of the recorded row counts.
pub open spec fn manifest_sum(ts: Seq<(Seq<char>, i64)>) -> int
    decreases ts.len(),
{
    if ts.len() == 0 {
        0
    } else {
        manifest_sum(ts.drop_last()) + ts.last().1
    }
}

/// The sum of the counted rows.
pub open spec fn count_sum(counts: Seq<i64>) -> int
    decreases counts.len(),
{
    if counts.len() == 0 {
        0
    } else {
        count_sum(counts.drop_last()) + counts.last()
    }
}

/// Every partial sum fits in `i64`.
pub open spec fn sums_fit(ts: Seq<(Seq<char>, i64)>, counts: Seq<i64>) -> bool {
    forall|k: int|
        0 <= k <= ts.len() ==> i64::MIN <= #[trigger] manifest_sum(ts.take(k)) <= i64::MAX && i64::MIN
            <= count_sum(counts.take(k)) <= i64::MAX
}

/// The comparison of a report with the warehouse: for each typed table its
/// recorded and counted rows, whether they agree, and the totals.
pub fn verify_report(
    endpoint: &str,
    schema: &str,
    targets: &Vec<(String, i64)>,
    counts: &Vec<i64>,
) -> (r: LakehouseVerifyReport)
    requires
        counts@.len() == targets@.len(),
        sums_fit(targets@.map_values(|p: (String, i64)| (p.0@, p.1)), counts@),
    ensures
        r.endpoint@ == endpoint@,
        r.schema@ == schema@,
        r.typed_tables == targets@.len(),
        r.tables@.len() == targets@.len(),
        forall|i: int|
            0 <= i < targets@.len() ==> {
                let t = #[trigger] r.tables@[i];
                &&& t.table@ == targets@[i].0@
                &&& t.manifest_rows == targets@[i].1
                &&& t.sail_rows == counts@[i]
                &&& t.ok == (targets@[i].1 == counts@[i])
            },
        r.manifest_rows == manifest_sum(targets@.map_values(|p: (String, i64)| (p.0@, p.1))),
        r.sail_rows == count_sum(counts@),
{
    let ghost ts = targets@.map_values(|p: (String, i64)| (p.0@, p.1));
    let mut tables: Vec<LakehouseVerifyTable> = Vec::new();
    let mut manifest: i64 = 0;
    let mut sail: i64 = 0;
    for i in 0..targets.len()
        invariant
            counts@.len() == targets@.len(),
            ts == targets@.map_values(|p: (String, i64)| (p.0@, p.1)),
            sums_fit(ts, counts@),
            tables@.len() == i,
            forall|j: int|
                0 <= j < i ==> {
                    let t = #[trigger] tables@[j];
                    &&& t.table@ == targets@[j].0@
                    &&& t.manifest_rows == targets@[j].1
                    &&& t.sail_rows == counts@[j]
                    &&& t.ok == (targets@[j].1 == counts@[j])
                },
            manifest == manifest_sum(ts.take(i as int)),
            sail == count_sum(counts@.take(i as int)),
    {
        let (table, rows) = (&targets[i].0, targets[i].1);
        let count = counts[i];
        assert(ts.take(i + 1).drop_last() =~= ts.take(i as int));
        assert(counts@.take(i + 1).drop_last() =~= counts@.take(i as int));
        assert(ts.take(i + 1).last() == ts[i as int]);
        assert(i64::MIN <= manifest_sum(ts.take(i + 1)) <= i64::MAX);
        assert(i64::MIN <= count_sum(counts@.take(i + 1)) <= i64::MAX);
        manifest = manifest + rows;
        sail = sail + count;
        tables.push(
            LakehouseVerifyTable { table: table.clone(), manifest_rows: rows, sail_rows: count, ok: rows == count },
        );
    }
    assert(ts.take(ts.len() as int) =~= ts);
    assert(counts@.take(counts@.len() as int) =~= counts@);
    LakehouseVerifyReport {
        endpoint: owned(endpoint),
        schema: owned(schema),
        typed_tables: tables.len(),
        manifest_rows: manifest,
        sail_rows: sail,
        tables,
    }
}

/// Whether a comparison can be made: a count for each table, and every
/// partial sum of the recorded and of the counted rows fits in `i64`.
pub fn verify_sums_fit(targets: &Vec<(String, i64)>, counts: &Vec<i64>) -> (r: bool)
    ensures
        r == (counts@.len() == targets@.len() && sums_fit(
            targets@.map_values(|p: (String, i64)| (p.0@, p.1)),
            counts@,
        )),
{
    if counts.len() != targets.len() {
        return false;
    }
    let ghost ts = targets@.map_values(|p: (String, i64)| (p.0@, p.1));
    let mut manifest: i64 = 0;
    let mut sail: i64 = 0;
    assert(ts.take(0) =~= Seq::<(Seq<char>, i64)>::empty());
    assert(counts@.take(0) =~= Seq::<i64>::empty());
    for i in 0..targets.len()
        invariant
            counts@.len() == targets@.len(),
            ts == targets@.map_values(|p: (String, i64)| (p.0@, p.1)),
            manifest == manifest_sum(ts.take(i as int)),
            sail == count_sum(counts@.take(i as int)),
            forall|k: int|
                0 <= k <= i ==> i64::MIN <= #[trigger] manifest_sum(ts.take(k)) <= i64::MAX && i64::MIN
                    <= count_sum(counts@.take(k)) <= i64::MAX,
    {
        assert(ts.take(i + 1).drop_last() =~= ts.take(i as int));
        assert(counts@.take(i + 1).drop_last() =~= counts@.take(i as int));
        assert(ts.take(i + 1).last() == ts[i as int]);
        assert(manifest_sum(ts.take(i + 1)) == manifest + targets@[i as int].1);
        assert(count_sum(counts@.take(i + 1)) == sail + counts@[i as int]);
        match (manifest.checked_add(targets[i].1), sail.checked_add(counts[i])) {
            (Some(m), Some(c)) => {
                manifest = m;
                sail = c;
            },
            _ => {
                assert(!(i64::MIN <= manifest_sum(ts.take(i + 1)) <= i64::MAX && i64::MIN <= count_sum(
                    counts@.take(i + 1),
                ) <= i64::MAX));
                return false;
            },
        }
    }
    true
}

} // verus!
