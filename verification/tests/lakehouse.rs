use querygraph::dataverse::sample_datasets;
use querygraph::lakehouse::project::{croissant_for_lakehouse, semantic_type_for_column};
use querygraph::lakehouse::types::{LakehouseDataType, LakehouseFileReport, TypedColumn};

#[test]
fn physical_column_inventory_does_not_promote_name_guesses_to_meaning() {
    let dataset = sample_datasets().remove(0);
    let report = LakehouseFileReport {
        file_id: "1".into(),
        filename: "observations.csv".into(),
        content_type: Some("text/csv".into()),
        local_path: "/tmp/observations.csv".into(),
        size_bytes: 0,
        sha256: "fixture".into(),
        table: Some("observations".into()),
        rows: Some(0),
        columns: vec![TypedColumn {
            source_name: "Platform cost".into(),
            name: "platform_cost".into(),
            data_type: LakehouseDataType::Float64,
            nullable: false,
        }],
        parse_status: "loaded".into(),
    };
    let metadata = croissant_for_lakehouse(&dataset, &[report].to_vec());
    let field = &metadata.record_sets[0].fields[0];
    assert_eq!(field.name, "platform_cost");
    assert_eq!(field.data_type, "sc:Float");
    assert_eq!(field.semantic_type, None);
}

#[test]
fn semantic_types_follow_column_name_hints() {
    assert_eq!(semantic_type_for_column("report_date"), "https://schema.org/temporalCoverage");
    assert_eq!(semantic_type_for_column("country_code"), "https://schema.org/spatialCoverage");
    assert_eq!(semantic_type_for_column("monthly_cost"), "https://schema.org/MonetaryAmount");
    assert_eq!(semantic_type_for_column("count"), "https://schema.org/variableMeasured");
}

use querygraph::lakehouse::infer::{
    infer_columns, is_bool, looks_like_date, looks_like_timestamp, parse_float, parse_int,
};
use querygraph::lakehouse::load::{file_step, select_files, typed_table_names, verify_report, FileStage, FileStep};
use querygraph::lakehouse::normalize::sanitize_filename;
use querygraph::lakehouse::sql::{
    count_queries, create_typed_table_sql, qualified, quote_ident, safe_sql_name,
};
use querygraph::lakehouse::types::default_dataset_specs;

fn strings(v: &[&str]) -> Vec<String> {
    v.iter().map(|s| s.to_string()).collect()
}

#[test]
fn columns_take_the_first_type_every_value_parses_as() {
    let headers = strings(&["Flag", "Count", "Amount", "Day", "When", "Label", "Empty", ""]);
    let records = vec![
        strings(&["yes", "1,200", "3.5", "2024-01-02", "2024-01-02T03:04:05", "a", "", "x"]),
        strings(&["NO", "-7", "1e3", "2024-12-31", "2024-12-31T00:00:00Z", "b", "NA"]),
        strings(&["1", " 42 ", "NULL", "N/A", ".", "3", "null", "y"]),
    ];
    let columns = infer_columns(&headers, &records);
    let types: Vec<LakehouseDataType> = columns.iter().map(|c| c.data_type).collect();
    assert_eq!(
        types,
        vec![
            LakehouseDataType::Boolean,
            LakehouseDataType::Int64,
            LakehouseDataType::Float64,
            LakehouseDataType::Date,
            LakehouseDataType::Timestamp,
            LakehouseDataType::String,
            LakehouseDataType::String,
            LakehouseDataType::String,
        ]
    );
    let nullable: Vec<bool> = columns.iter().map(|c| c.nullable).collect();
    assert_eq!(nullable, vec![false, false, true, true, true, false, true, true]);
    assert_eq!(columns[0].name, "flag");
    assert_eq!(columns[0].source_name, "Flag");
    assert_eq!(columns[7].name, "column_7");
}

#[test]
fn values_parse_as_the_standard_library_parses_them() {
    assert_eq!(parse_int("1,234"), Some(1234));
    assert_eq!(parse_int("+5"), Some(5));
    assert_eq!(parse_int("-9223372036854775808"), Some(i64::MIN));
    assert_eq!(parse_int("9223372036854775808"), None);
    assert_eq!(parse_int("1.0"), None);
    assert_eq!(parse_int(""), None);
    assert!(parse_float("1e-3"));
    assert!(parse_float(".5"));
    assert!(parse_float("inf"));
    assert!(parse_float("NaN"));
    assert!(!parse_float("1e"));
    assert!(!parse_float("abc"));
    assert!(is_bool("TRUE"));
    assert!(is_bool("0"));
    assert!(!is_bool("2"));
    assert!(looks_like_date("2024-02-30"));
    assert!(!looks_like_date("2024/02/30"));
    assert!(looks_like_timestamp("2024-01-01T00:00:00"));
    assert!(!looks_like_timestamp("2024-01-01 00:00:00"));
}

#[test]
fn sql_names_are_lower_case_words() {
    assert_eq!(safe_sql_name("Platform cost"), "platform_cost");
    assert_eq!(safe_sql_name("__A-b__"), "a_b");
    assert_eq!(safe_sql_name("???"), "");
    assert_eq!(quote_ident("we`ird"), "`we``ird`");
    assert_eq!(qualified("qg", "t"), "`qg`.`t`");
    let (first, fallback) = count_queries("qg.t");
    assert_eq!(first, "SELECT COUNT(*) AS row_count FROM `qg`.`t`");
    assert_eq!(fallback.as_deref(), Some("SELECT COUNT(*) AS row_count FROM `t`"));
    assert_eq!(count_queries("t").1, None);
}

#[test]
fn typed_tables_cast_each_column() {
    let columns = vec![
        TypedColumn {
            source_name: "A b".into(),
            name: "a_b".into(),
            data_type: LakehouseDataType::Int64,
            nullable: false,
        },
        TypedColumn {
            source_name: "c".into(),
            name: "c".into(),
            data_type: LakehouseDataType::String,
            nullable: true,
        },
    ];
    assert_eq!(
        create_typed_table_sql("qg", "t", "t_raw", &columns),
        "CREATE TABLE `qg`.`t` USING parquet AS SELECT TRY_CAST(`A b` AS BIGINT) AS `a_b`, TRY_CAST(`c` AS STRING) AS `c` FROM `t_raw`"
    );
    let (table, raw) = typed_table_names("Energy 2018", "rows.tab.csv", "77");
    assert_eq!(table, "energy_2018__rows_tab");
    assert_eq!(raw, "energy_2018__rows_tab_raw");
    let (table, _) = typed_table_names("e", "", "77");
    assert_eq!(table, "e__77");
}

#[test]
fn filenames_lose_path_separators() {
    assert_eq!(sanitize_filename("a/b:c.csv"), "a_b_c.csv");
}

#[test]
fn file_selection_honours_the_maximum() {
    let files = sample_datasets().remove(0).files;
    assert_eq!(select_files(&files, None).len(), files.len());
    assert_eq!(select_files(&files, Some(0)).len(), 0);
    assert_eq!(select_files(&files, Some(100)).len(), files.len());
}

#[test]
fn verification_compares_recorded_and_counted_rows() {
    let targets = vec![("qg.a".to_string(), 10i64), ("qg.b".to_string(), 5i64)];
    let report = verify_report("sc://localhost", "qg", &targets, &vec![10, 4]);
    assert_eq!(report.typed_tables, 2);
    assert!(report.tables[0].ok);
    assert!(!report.tables[1].ok);
    assert_eq!(report.manifest_rows, 15);
    assert_eq!(report.sail_rows, 14);
    assert_eq!(report.schema, "qg");
}

#[test]
fn the_default_lakehouse_has_ten_datasets() {
    let specs = default_dataset_specs();
    assert_eq!(specs.len(), 10);
    assert_eq!(specs[0].id, "government_finance");
    assert_eq!(specs[0].persistent_id.as_deref(), Some("doi:10.7910/DVN/LMS8NT"));
    assert_eq!(LakehouseDataType::Float64.spark_type(), "DOUBLE");
    assert_eq!(LakehouseDataType::Timestamp.croissant_type(), "sc:DateTime");
}

use querygraph::json::{JsonNumber, JsonValue};
use querygraph::lakehouse::load::verify_sums_fit;
use querygraph::lakehouse::summary::{report_summary, summary_fits};
use querygraph::lakehouse::types::{LakehouseDatasetReport, LakehouseReport};

fn file_report(table: Option<&str>, rows: Option<i64>) -> LakehouseFileReport {
    LakehouseFileReport {
        file_id: "f".into(),
        filename: "f.csv".into(),
        content_type: None,
        local_path: "/tmp/f.csv".into(),
        size_bytes: 1,
        sha256: "00".into(),
        table: table.map(|t| t.to_string()),
        rows,
        columns: vec![],
        parse_status: "loaded".into(),
    }
}

fn dataset_report(id: &str, title: &str, files: Vec<LakehouseFileReport>) -> LakehouseDatasetReport {
    LakehouseDatasetReport {
        id: id.into(),
        title: title.into(),
        persistent_id: None,
        files,
        croissant_path: "c.json".into(),
        cdif_path: "d.json".into(),
    }
}

fn int_of(v: &JsonValue) -> i64 {
    match v {
        JsonValue::Number(JsonNumber::PosInt(n)) => *n as i64,
        JsonValue::Number(JsonNumber::NegInt(n)) => *n,
        _ => panic!("an integer"),
    }
}

#[test]
fn summaries_key_datasets_by_id_in_order() {
    let report = LakehouseReport {
        root: "/tmp/lh".into(),
        schema: "qg".into(),
        endpoint: "sc://localhost".into(),
        datasets: vec![
            dataset_report("zeta", "Z", vec![file_report(Some("qg.z"), Some(4)), file_report(None, None)]),
            dataset_report("alpha", "A", vec![file_report(Some("qg.a"), Some(2)), file_report(Some("qg.b"), Some(3))]),
            dataset_report("zeta", "Z2", vec![]),
        ],
        catalog_tables: vec!["catalog_datasets".into()],
    };
    assert!(summary_fits(&report));
    let summary = report_summary(&report);
    let datasets = match summary.get("datasets").unwrap() {
        JsonValue::Object(entries) => entries,
        _ => panic!("datasets is an object"),
    };
    let keys: Vec<&str> = datasets.iter().map(|(k, _)| k.as_str()).collect();
    assert_eq!(keys, vec!["alpha", "zeta"]);
    let alpha = &datasets[0].1;
    assert_eq!(int_of(alpha.get("files").unwrap()), 2);
    assert_eq!(int_of(alpha.get("typedTables").unwrap()), 2);
    assert_eq!(int_of(alpha.get("rows").unwrap()), 5);
    assert_eq!(datasets[1].1.get("title").unwrap().as_str(), Some("Z2"));
    assert_eq!(int_of(datasets[1].1.get("files").unwrap()), 0);
    assert_eq!(summary.get("schema").unwrap().as_str(), Some("qg"));
}

#[test]
fn overflowing_row_totals_are_detected() {
    let report = LakehouseReport {
        root: "/tmp/lh".into(),
        schema: "qg".into(),
        endpoint: "e".into(),
        datasets: vec![dataset_report(
            "a",
            "A",
            vec![file_report(Some("t"), Some(i64::MAX)), file_report(Some("u"), Some(1))],
        )],
        catalog_tables: vec![],
    };
    assert!(!summary_fits(&report));
    let targets = vec![("a".to_string(), i64::MAX), ("b".to_string(), 1)];
    assert!(!verify_sums_fit(&targets, &vec![0, 0]));
    assert!(!verify_sums_fit(&targets, &vec![0]));
    assert!(verify_sums_fit(&targets[..1].to_vec(), &vec![7]));
}

use querygraph::lakehouse::normalize::{codata_constant_row, codata_constant_rows};
use querygraph::text::str_get;

fn constant_line(q: &str, v: &str, u: &str, unit: &str) -> String {
    format!("{:<60}{:<25}{:<25}{}", q, v, u, unit)
}

#[test]
fn codata_constants_are_read_below_the_rule() {
    let lines = vec![
        constant_line("ignored before rule", "1", "0", "m"),
        "Quantity   Value   Uncertainty   Unit".to_string(),
        "-----------------------------------------------".to_string(),
        constant_line("alpha particle mass", "6.644 657 3450 e-27", "0.000 000 0021 e-27", "kg"),
        String::new(),
        "too short to be a constant".to_string(),
        constant_line("", "1", "2", "x"),
        constant_line("speed of light in vacuum", "299 792 458", "(exact)", "m s^-1"),
    ];
    let rows = codata_constant_rows(&lines);
    assert_eq!(rows.len(), 3);
    assert_eq!(rows[0], vec!["quantity", "value", "uncertainty", "unit"]);
    assert_eq!(rows[1], vec!["alpha particle mass", "6.644 657 3450 e-27", "0.000 000 0021 e-27", "kg"]);
    assert_eq!(rows[2][0], "speed of light in vacuum");
    assert_eq!(rows[2][3], "m s^-1");
}

#[test]
fn codata_fields_that_split_a_character_are_empty() {
    let mut line = "é".repeat(30);
    line.push_str(&" ".repeat(60));
    let row = codata_constant_row(&line).unwrap();
    assert_eq!(row[0], "é".repeat(30));
    let mut odd = "x".to_string();
    odd.push_str(&"é".repeat(60));
    assert_eq!(codata_constant_row(&odd), None);
    assert_eq!(str_get("héllo", 0, 3).as_deref(), Some("hé"));
    assert_eq!(str_get("héllo", 0, 2), None);
    assert_eq!(str_get("héllo", 3, 2), None);
    assert_eq!(str_get("héllo", 0, 99), None);
}

use querygraph::dataverse::DataverseFile;
use querygraph::lakehouse::load::{
    access_service, download_failed_report, loaded_report, materialize_catalog_tables,
    raw_file_name, url_source, verification_targets,
};
use querygraph::lakehouse::normalize::{tabular_plan, TabularKind};
use querygraph::lakehouse::sql::{
    create_schema_sql, insert_typed_table_sql, qualified_name, replace_table_sql,
};
use querygraph::lakehouse::types::{LakehouseDatasetSpec, LakehouseSource};

fn dv_file(id: &str, filename: &str, content_type: Option<&str>) -> DataverseFile {
    DataverseFile {
        id: id.into(),
        filename: filename.into(),
        content_type: content_type.map(|t| t.to_string()),
        download_url: format!("https://example.test/{id}"),
        description: None,
    }
}

#[test]
fn tabular_files_are_planned_by_name_and_type() {
    let plan = tabular_plan(&dv_file("1", "Rows.CSV", None)).unwrap();
    assert_eq!(plan.kind, TabularKind::Csv);
    assert_eq!(plan.directory, "rows");
    assert_eq!(plan.data_file, "data.csv");
    assert_eq!(plan.delimiter, b',');
    let plan = tabular_plan(&dv_file("2", "survey", Some("text/tab-separated-values"))).unwrap();
    assert_eq!(plan.kind, TabularKind::Tsv);
    assert_eq!(plan.delimiter, b'\t');
    assert_eq!(plan.data_file, "data.tsv");
    let plan = tabular_plan(&dv_file("3", "Budget 2020.xlsx", None)).unwrap();
    assert_eq!(plan.kind, TabularKind::Xlsx);
    assert_eq!(plan.filename, "Budget 2020.xlsx.csv");
    assert_eq!(plan.data_file, "budget_2020.csv");
    let plan = tabular_plan(&dv_file("codata_constants_2022", "allascii.txt", None)).unwrap();
    assert_eq!(plan.kind, TabularKind::Codata);
    assert_eq!(plan.filename, "codata_constants_2022.csv");
    assert!(tabular_plan(&dv_file("4", "readme.pdf", Some("application/pdf"))).is_none());
}

#[test]
fn file_reports_record_downloads_and_loads() {
    let file = dv_file("9", "a/b.csv", Some("text/csv"));
    assert_eq!(raw_file_name(&file), "9_a_b.csv");
    let failed = download_failed_report(&file, "/raw/9_a_b.csv", "timeout");
    assert_eq!(failed.parse_status, "download_failed: timeout");
    assert_eq!(failed.size_bytes, 0);
    assert!(failed.table.is_none());
    let loaded = loaded_report(&file, "/raw/9_a_b.csv", 10, "ab", "qg", "t", 3, vec![]);
    assert_eq!(loaded.table.as_deref(), Some("qg.t"));
    assert_eq!(loaded.rows, Some(3));
    assert_eq!(loaded.parse_status, "typed_table_loaded");
    assert_eq!(access_service("qg", "energy"), "sail://qg/energy");
}

#[test]
fn url_sources_describe_the_constants_table() {
    let spec = LakehouseDatasetSpec {
        id: "codata_constants_2022".into(),
        persistent_id: None,
        title: "CODATA constants".into(),
        source: LakehouseSource::Url {
            url: "https://physics.nist.gov/cuu/Constants/Table/allascii.txt".into(),
            filename: "allascii.txt".into(),
        },
        category: "reference".into(),
    };
    let (dataset, file) = url_source(&spec, "https://physics.nist.gov/cuu/Constants/Table/allascii.txt", "allascii.txt");
    assert_eq!(file.id, "codata_constants_2022");
    assert_eq!(file.content_type.as_deref(), Some("text/plain"));
    assert_eq!(dataset.title, "CODATA constants");
    assert_eq!(dataset.files.len(), 1);
    assert_eq!(dataset.keywords, vec!["CODATA", "constants", "units"]);
    assert_eq!(dataset.landing_page, "https://physics.nist.gov/constants");
}

#[test]
fn catalog_tables_list_datasets_files_and_columns() {
    let mut file = file_report(Some("qg.t"), Some(-2));
    file.columns = vec![TypedColumn {
        source_name: "A".into(),
        name: "a".into(),
        data_type: LakehouseDataType::Boolean,
        nullable: true,
    }];
    let reports = vec![dataset_report("d", "D", vec![file, file_report(None, None)])];
    let tables = materialize_catalog_tables(&reports);
    assert_eq!(tables.len(), 3);
    assert_eq!(tables[0].table, "lakehouse_datasets");
    assert_eq!(tables[0].rows, vec![vec!["d", "", "D", "c.json", "d.json"]]);
    assert_eq!(tables[1].rows.len(), 2);
    assert_eq!(tables[1].rows[0][5], "1");
    assert_eq!(tables[1].rows[0][8], "-2");
    assert_eq!(tables[1].rows[1][8], "");
    assert_eq!(tables[2].rows, vec![vec!["d", "f", "qg.t", "A", "a", "BOOLEAN", "true"]]);
    let report = LakehouseReport {
        root: "/r".into(),
        schema: "qg".into(),
        endpoint: "e".into(),
        datasets: reports,
        catalog_tables: vec![],
    };
    assert_eq!(verification_targets(&report), vec![("qg.t".to_string(), -2)]);
}

#[test]
fn warehouse_statements_quote_their_names() {
    assert_eq!(qualified_name("qg.t"), "`qg`.`t`");
    assert_eq!(qualified_name("t"), "`t`");
    assert_eq!(create_schema_sql("qg"), "CREATE DATABASE IF NOT EXISTS `qg`");
    let (drop, create) = replace_table_sql("qg", "t", "v");
    assert_eq!(drop, "DROP TABLE IF EXISTS `qg`.`t`");
    assert_eq!(create, "CREATE TABLE `qg`.`t` USING parquet AS SELECT * FROM `v`");
    let columns = vec![TypedColumn {
        source_name: "x".into(),
        name: "x".into(),
        data_type: LakehouseDataType::Date,
        nullable: false,
    }];
    assert_eq!(
        insert_typed_table_sql("qg", "t", "v", &columns),
        "INSERT INTO `qg`.`t` SELECT TRY_CAST(`x` AS DATE) AS `x` FROM `v`"
    );
}

use querygraph::lakehouse::delimited::{csv_read, csv_write};
use querygraph::lakehouse::infer::infer_typed_columns;
use querygraph::lakehouse::normalize::{codata_constants_csv, file_stem};

#[test]
fn typed_columns_are_inferred_from_csv_bytes() {
    let columns = infer_typed_columns(b"Id,Name,Score\n1,a,1.5\n2,b\n", b',').unwrap();
    assert_eq!(columns.len(), 3);
    assert_eq!(columns[0].data_type, LakehouseDataType::Int64);
    assert_eq!(columns[1].data_type, LakehouseDataType::String);
    assert_eq!(columns[2].data_type, LakehouseDataType::Float64);
    assert!(columns[2].nullable);
    assert_eq!(columns[0].name, "id");
    let tabbed = infer_typed_columns(b"when\tflag\n2024-01-02\tyes\n", b'\t').unwrap();
    assert_eq!(tabbed[0].data_type, LakehouseDataType::Date);
    assert_eq!(tabbed[1].data_type, LakehouseDataType::Boolean);
    assert!(infer_typed_columns(b"a\n\xff\n", b',').is_none());
}

#[test]
fn csv_reads_stop_at_the_limit_and_writes_quote_fields() {
    let (headers, rows) = csv_read(b"h\n1\n2\n3\n", b',', 2).unwrap();
    assert_eq!(headers, vec!["h"]);
    assert_eq!(rows, vec![vec!["1"], vec!["2"]]);
    let bytes = csv_write(&vec![
        vec!["a".to_string(), "b,c".to_string()],
        vec!["x".to_string(), "y".to_string()],
    ])
    .unwrap();
    assert_eq!(String::from_utf8(bytes).unwrap(), "a,\"b,c\"\nx,y\n");
    assert!(csv_write(&vec![vec!["a".to_string()], vec!["x".to_string(), "y".to_string()]]).is_none());
}

#[test]
fn codata_constants_are_written_as_csv() {
    let lines = vec![
        "-----".to_string(),
        constant_line("alpha particle mass", "6.644 657 3450 e-27", "0.000 000 0021 e-27", "kg"),
    ];
    let text = String::from_utf8(codata_constants_csv(&lines)).unwrap();
    assert_eq!(
        text,
        "quantity,value,uncertainty,unit\nalpha particle mass,6.644 657 3450 e-27,0.000 000 0021 e-27,kg\n"
    );
}

#[test]
fn plain_file_names_lose_their_last_extension() {
    assert_eq!(file_stem("rows.tab.csv").as_deref(), Some("rows.tab"));
    assert_eq!(file_stem(".hidden").as_deref(), Some(".hidden"));
    assert_eq!(file_stem("a.").as_deref(), Some("a"));
}

#[test]
fn file_steps_report_assets_and_load_prepared_tables() {
    let file = dv_file("77", "rows.tab", Some("text/tab-separated-values"));
    let report = |step: FileStep| match step {
        FileStep::Done(r) => r,
        FileStep::Load { .. } => panic!("a report was expected"),
    };
    let failed = report(file_step(
        "Energy 2018",
        &file,
        "/raw/77_rows.tab",
        5,
        "abc",
        FileStage::DownloadFailed("HTTP 404".into()),
    ));
    assert_eq!(failed.parse_status, "download_failed: HTTP 404");
    assert_eq!(failed.size_bytes, 0);
    assert_eq!(failed.sha256, "");
    assert_eq!(failed.table, None);

    let asset = report(file_step("Energy 2018", &file, "/raw/77_rows.tab", 5, "abc", FileStage::Asset));
    assert_eq!(asset.parse_status, "non_tabular_asset_downloaded");
    assert_eq!(asset.size_bytes, 5);
    assert_eq!(asset.sha256, "abc");
    assert_eq!(asset.file_id, "77");
    assert_eq!(asset.local_path, "/raw/77_rows.tab");

    let empty = report(file_step(
        "Energy 2018",
        &file,
        "/raw/77_rows.tab",
        5,
        "abc",
        FileStage::Prepared { prepared_filename: "rows.tab.csv".into(), columns: Vec::new() },
    ));
    assert_eq!(empty.parse_status, "empty_tabular_file");
    assert!(empty.columns.is_empty());

    let column = TypedColumn {
        source_name: "Cost".into(),
        name: "cost".into(),
        data_type: LakehouseDataType::Int64,
        nullable: false,
    };
    match file_step(
        "Energy 2018",
        &file,
        "/raw/77_rows.tab",
        5,
        "abc",
        FileStage::Prepared { prepared_filename: "rows.tab.csv".into(), columns: vec![column.clone()] },
    ) {
        FileStep::Load { table, raw_table, columns } => {
            assert_eq!(table, "energy_2018__rows_tab");
            assert_eq!(raw_table, "energy_2018__rows_tab_raw");
            assert_eq!(columns, vec![column]);
        }
        FileStep::Done(_) => panic!("a prepared table with columns is loaded"),
    }
}
