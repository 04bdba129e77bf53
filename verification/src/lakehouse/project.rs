//! Croissant metadata of loaded lakehouse files.
use vstd::prelude::*;
use crate::croissant::{CroissantDataset, Field, FileObject, RecordSet};
use crate::dataverse::{or_default, DataverseDataset};
use crate::lakehouse::sql::{safe_sql_name, sql_name};
use crate::lakehouse::types::{croissant_type_name, LakehouseFileReport, TypedColumn};
use crate::text::{
    cat, cat3, chain_strings, clone_strings, contains_infix, contains_str, owned, trim_end_char,
    trim_end_matches, views,
};

verus! {

/// The identifier of a dataset's lakehouse description.
pub open spec fn lakehouse_id(landing_page: Seq<char>) -> Seq<char> {
    trim_end_char(landing_page, '/') + "/#lakehouse"@
}

/// The reports of files loaded as typed tables, in order.
pub open spec fn table_reports(reports: Seq<LakehouseFileReport>) -> Seq<LakehouseFileReport>
    decreases reports.len(),
{
    if reports.len() == 0 {
        Seq::empty()
    } else {
        let rest = table_reports(reports.drop_last());
        if reports.last().table is Some {
            rest.push(reports.last())
        } else {
            rest
        }
    }
}

/// The file object of a loaded file.
pub open spec fn lakehouse_file_spec(base: Seq<char>, report: LakehouseFileReport, o: FileObject) -> bool {
    &&& o.id@ == base + "/file/"@ + report.file_id@
    &&& o.name@ == report.filename@
    &&& o.content_url@ == report.local_path@
    &&& o.encoding_format@ == or_default(report.content_type, "application/octet-stream"@)
}

/// The field of a typed column: its name, its Croissant type, and where it
/// came from; a column's name alone gives it no meaning.
pub open spec fn column_field_spec(c: TypedColumn, f: Field) -> bool {
    &&& f.name@ == c.name@
    &&& f.data_type@ == croissant_type_name(c.data_type)
    &&& f.description@ == "Lakehouse column derived from "@ + c.source_name@
    &&& f.semantic_type is None
}

/// The record set of a file loaded as a typed table.
pub open spec fn lakehouse_record_set_spec(
    base: Seq<char>,
    report: LakehouseFileReport,
    r: RecordSet,
) -> bool {
    let table = report.table->Some_0@;
    &&& r.id@ == base + "/recordset/"@ + sql_name(table)
    &&& r.name@ == table
    &&& r.fields@.len() == report.columns@.len()
    &&& forall|k: int|
        0 <= k < report.columns@.len() ==> column_field_spec(
            report.columns@[k],
            #[trigger] r.fields@[k],
        )
}

/// The fields of a table's columns.
fn column_fields(columns: &Vec<TypedColumn>) -> (r: Vec<Field>)
    ensures
        r@.len() == columns@.len(),
        forall|k: int| 0 <= k < columns@.len() ==> column_field_spec(columns@[k], #[trigger] r@[k]),
{
    let mut r: Vec<Field> = Vec::new();
    for k in 0..columns.len()
        invariant
            r@.len() == k,
            forall|j: int| 0 <= j < k ==> column_field_spec(columns@[j], #[trigger] r@[j]),
    {
        let c = &columns[k];
        let description = cat("Lakehouse column derived from ", c.source_name.as_str());
        r.push(Field::new(c.name.as_str(), c.data_type.croissant_type(), description.as_str()));
    }
    r
}

/// The Croissant description of a dataset's loaded files: every file as a
/// file object, every typed table as a record set of its columns.
pub fn croissant_for_lakehouse(dataset: &DataverseDataset, reports: &Vec<LakehouseFileReport>) -> (r:
    CroissantDataset)
    ensures
        r.id@ == lakehouse_id(dataset.landing_page@),
        r.name@ == dataset.title@,
        r.description@ == dataset.description@,
        r.license@ == or_default(dataset.license, "unknown"@),
        views(r.creators@) == views(dataset.authors@),
        views(r.keywords@) == views(dataset.keywords@) + views(dataset.subjects@),
        r.files@.len() == reports@.len(),
        forall|i: int|
            0 <= i < reports@.len() ==> lakehouse_file_spec(
                r.id@,
                reports@[i],
                #[trigger] r.files@[i],
            ),
        r.record_sets@.len() == table_reports(reports@).len(),
        forall|i: int|
            0 <= i < table_reports(reports@).len() ==> lakehouse_record_set_spec(
                r.id@,
                table_reports(reports@)[i],
                #[trigger] r.record_sets@[i],
            ),
{
    let trimmed = trim_end_matches(dataset.landing_page.as_str(), '/');
    let dataset_id = cat(trimmed.as_str(), "/#lakehouse");
    let mut files: Vec<FileObject> = Vec::new();
    let mut record_sets: Vec<RecordSet> = Vec::new();
    for i in 0..reports.len()
        invariant
            dataset_id@ == lakehouse_id(dataset.landing_page@),
            files@.len() == i,
            forall|j: int|
                0 <= j < i ==> lakehouse_file_spec(dataset_id@, reports@[j], #[trigger] files@[j]),
            record_sets@.len() == table_reports(reports@.take(i as int)).len(),
            forall|j: int|
                0 <= j < record_sets@.len() ==> lakehouse_record_set_spec(
                    dataset_id@,
                    table_reports(reports@.take(i as int))[j],
                    #[trigger] record_sets@[j],
                ),
    {
        let report = &reports[i];
        files.push(
            FileObject {
                id: cat3(dataset_id.as_str(), "/file/", report.file_id.as_str()),
                name: report.filename.clone(),
                content_url: report.local_path.clone(),
                encoding_format: match &report.content_type {
                    Some(t) => t.clone(),
                    None => owned("application/octet-stream"),
                },
            },
        );
        let ghost before = table_reports(reports@.take(i as int));
        assert(reports@.take(i + 1).drop_last() =~= reports@.take(i as int));
        match &report.table {
            Some(table) => {
                let name = safe_sql_name(table.as_str());
                record_sets.push(
                    RecordSet {
                        id: cat3(dataset_id.as_str(), "/recordset/", name.as_str()),
                        name: table.clone(),
                        fields: column_fields(&report.columns),
                    },
                );
                assert(table_reports(reports@.take(i + 1)) == before.push(reports@[i as int]));
            },
            None => {
                assert(table_reports(reports@.take(i + 1)) == before);
            },
        }
    }
    assert(reports@.take(reports@.len() as int) =~= reports@);
    CroissantDataset {
        id: dataset_id,
        name: dataset.title.clone(),
        description: dataset.description.clone(),
        license: match &dataset.license {
            Some(l) => l.clone(),
            None => owned("unknown"),
        },
        creators: clone_strings(&dataset.authors),
        files,
        record_sets,
        keywords: chain_strings(&dataset.keywords, &dataset.subjects),
    }
}

/// The schema.org meaning that a column's name suggests.
pub open spec fn semantic_type_for(name: Seq<char>) -> Seq<char> {
    if contains_infix(name, "date"@) || contains_infix(name, "year"@) {
        "https://schema.org/temporalCoverage"@
    } else if contains_infix(name, "lat"@) || contains_infix(name, "lon"@) || contains_infix(
        name,
        "state"@,
    ) || contains_infix(name, "country"@) {
        "https://schema.org/spatialCoverage"@
    } else if contains_infix(name, "amount"@) || contains_infix(name, "cost"@) || contains_infix(
        name,
        "revenue"@,
    ) {
        "https://schema.org/MonetaryAmount"@
    } else {
        "https://schema.org/variableMeasured"@
    }
}

/// The schema.org meaning that a column's name suggests: temporal, spatial,
/// monetary, or a measured variable.
pub fn semantic_type_for_column(name: &str) -> (r: String)
    ensures
        r@ == semantic_type_for(name@),
{
    if contains_str(name, "date") || contains_str(name, "year") {
        owned("https://schema.org/temporalCoverage")
    } else if contains_str(name, "lat") || contains_str(name, "lon") || contains_str(name, "state")
        || contains_str(name, "country") {
        owned("https://schema.org/spatialCoverage")
    } else if contains_str(name, "amount") || contains_str(name, "cost") || contains_str(
        name,
        "revenue",
    ) {
        owned("https://schema.org/MonetaryAmount")
    } else {
        owned("https://schema.org/variableMeasured")
    }
}

} // verus!
