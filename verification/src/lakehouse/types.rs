//! Dataset specifications and load reports.
use vstd::prelude::*;
use crate::text::owned;

verus! {

/// A dataset to load into the lakehouse.
#[derive(Debug, Clone, PartialEq, Eq)]
pub struct LakehouseDatasetSpec {
    pub id: String,
    pub persistent_id: Option<String>,
    pub title: String,
    pub source: LakehouseSource,
    pub category: String,
}

/// Where a dataset's files come from.
#[derive(Debug, Clone, PartialEq, Eq)]
pub enum LakehouseSource {
    Dataverse { base_url: String },
    Url { url: String, filename: String },
}

/// Options of a lakehouse load.
#[derive(Debug, Clone, PartialEq, Eq)]
pub struct LakehouseLoadOptions {
    pub root: String,
    pub schema: String,
    pub sail_endpoint: String,
    pub max_files_per_dataset: Option<usize>,
    pub api_token: Option<String>,
}

/// What a load produced.
#[derive(Debug, Clone, PartialEq, Eq)]
pub struct LakehouseReport {
    pub root: String,
    pub schema: String,
    pub endpoint: String,
    pub datasets: Vec<LakehouseDatasetReport>,
    pub catalog_tables: Vec<String>,
}

/// The comparison of a load report with the warehouse.
#[derive(Debug, Clone, PartialEq, Eq)]
pub struct LakehouseVerifyReport {
    pub endpoint: String,
    pub schema: String,
    pub typed_tables: usize,
    pub manifest_rows: i64,
    pub sail_rows: i64,
    pub tables: Vec<LakehouseVerifyTable>,
}

/// The row counts of one typed table in the report and in the warehouse.
#[derive(Debug, Clone, PartialEq, Eq)]
pub struct LakehouseVerifyTable {
    pub table: String,
    pub manifest_rows: i64,
    pub sail_rows: i64,
    pub ok: bool,
}

/// What was loaded of one dataset.
#[derive(Debug, Clone, PartialEq, Eq)]
pub struct LakehouseDatasetReport {
    pub id: String,
    pub title: String,
    pub persistent_id: Option<String>,
    pub files: Vec<LakehouseFileReport>,
    pub croissant_path: String,
    pub cdif_path: String,
}

/// What was loaded of one file.
#[derive(Debug, Clone, PartialEq, Eq)]
pub struct LakehouseFileReport {
    pub file_id: String,
    pub filename: String,
    pub content_type: Option<String>,
    pub local_path: String,
    pub size_bytes: u64,
    pub sha256: String,
    pub table: Option<String>,
    pub rows: Option<i64>,
    pub columns: Vec<TypedColumn>,
    pub parse_status: String,
}

/// A column of a typed table, with the header it came from.
#[derive(Debug, Clone, PartialEq, Eq)]
pub struct TypedColumn {
    pub source_name: String,
    pub name: String,
    pub data_type: LakehouseDataType,
    pub nullable: bool,
}

/// The type of a lakehouse column.
#[derive(Debug, Clone, Copy, PartialEq, Eq)]
pub enum LakehouseDataType {
    Boolean,
    Int64,
    Float64,
    Date,
    Timestamp,
    String,
}

/// The Spark SQL name of a column type.
pub open spec fn spark_type_name(t: LakehouseDataType) -> Seq<char> {
    match t {
        LakehouseDataType::Boolean => "BOOLEAN"@,
        LakehouseDataType::Int64 => "BIGINT"@,
        LakehouseDataType::Float64 => "DOUBLE"@,
        LakehouseDataType::Date => "DATE"@,
        LakehouseDataType::Timestamp => "TIMESTAMP"@,
        LakehouseDataType::String => "STRING"@,
    }
}

/// The schema.org data type of a column type in Croissant.
pub open spec fn croissant_type_name(t: LakehouseDataType) -> Seq<char> {
    match t {
        LakehouseDataType::Boolean => "sc:Boolean"@,
        LakehouseDataType::Int64 => "sc:Integer"@,
        LakehouseDataType::Float64 => "sc:Float"@,
        LakehouseDataType::Date => "sc:Date"@,
        LakehouseDataType::Timestamp => "sc:DateTime"@,
        LakehouseDataType::String => "sc:Text"@,
    }
}

impl LakehouseDataType {
    /// The Spark SQL type of the column.
    pub fn spark_type(self) -> (r: &'static str)
        ensures
            r@ == spark_type_name(self),
    {
        match self {
            LakehouseDataType::Boolean => "BOOLEAN",
            LakehouseDataType::Int64 => "BIGINT",
            LakehouseDataType::Float64 => "DOUBLE",
            LakehouseDataType::Date => "DATE",
            LakehouseDataType::Timestamp => "TIMESTAMP",
            LakehouseDataType::String => "STRING",
        }
    }

    /// The Croissant (schema.org) data type of the column.
    pub fn croissant_type(self) -> (r: &'static str)
        ensures
            r@ == croissant_type_name(self),
    {
        match self {
            LakehouseDataType::Boolean => "sc:Boolean",
            LakehouseDataType::Int64 => "sc:Integer",
            LakehouseDataType::Float64 => "sc:Float",
            LakehouseDataType::Date => "sc:Date",
            LakehouseDataType::Timestamp => "sc:DateTime",
            LakehouseDataType::String => "sc:Text",
        }
    }
}

/// A Harvard Dataverse dataset with the given identity.
pub open spec fn is_dataverse_spec(
    s: LakehouseDatasetSpec,
    id: Seq<char>,
    persistent_id: Seq<char>,
    title: Seq<char>,
    category: Seq<char>,
) -> bool {
    &&& s.id@ == id
    &&& s.persistent_id matches Some(p) && p@ == persistent_id
    &&& s.title@ == title
    &&& s.category@ == category
    &&& s.source matches LakehouseSource::Dataverse { base_url } && base_url@
        == "https://dataverse.harvard.edu"@
}

/// The specification of a Harvard Dataverse dataset.
pub fn dataverse_spec(id: &str, persistent_id: &str, title: &str, category: &str) -> (r:
    LakehouseDatasetSpec)
    ensures
        is_dataverse_spec(r, id@, persistent_id@, title@, category@),
{
    LakehouseDatasetSpec {
        id: owned(id),
        persistent_id: Some(owned(persistent_id)),
        title: owned(title),
        category: owned(category),
        source: LakehouseSource::Dataverse { base_url: owned("https://dataverse.harvard.edu") },
    }
}

/// The datasets of the default lakehouse: nine Harvard Dataverse datasets
/// and the CODATA/NIST 2022 table of fundamental physical constants.
pub fn default_dataset_specs() -> (r: Vec<LakehouseDatasetSpec>)
    ensures
        r@.len() == 10,
        is_dataverse_spec(
            r@[0],
            "government_finance"@,
            "doi:10.7910/DVN/LMS8NT"@,
            "The Government Finance Database"@,
            "finance"@,
        ),
        is_dataverse_spec(
            r@[1],
            "roadway_lidar"@,
            "doi:10.7910/DVN/1VT6FZ"@,
            "Roadway vulnerability LiDAR DTM"@,
            "geospatial"@,
        ),
        is_dataverse_spec(
            r@[2],
            "access_2018_energy"@,
            "doi:10.7910/DVN/AHFINM"@,
            "Access to Clean Cooking Energy and Electricity: Survey of States in India 2018"@,
            "energy"@,
        ),
        is_dataverse_spec(
            r@[3],
            "dockless_transportation"@,
            "doi:10.7910/DVN/B2LJSB"@,
            "Dockless transportation hotspots and mode shift"@,
            "transportation"@,
        ),
        is_dataverse_spec(
            r@[4],
            "haalsi_baseline"@,
            "doi:10.7910/DVN/F5YHML"@,
            "HAALSI Baseline Survey"@,
            "health"@,
        ),
        is_dataverse_spec(
            r@[5],
            "global_party_survey"@,
            "doi:10.7910/DVN/WMGTNS"@,
            "Global Party Survey, 2019"@,
            "social_science"@,
        ),
        is_dataverse_spec(
            r@[6],
            "pedestrian_injury_ct"@,
            "doi:10.7910/DVN/TXIKF9"@,
            "Pedestrian injury severity in Connecticut"@,
            "transportation"@,
        ),
        is_dataverse_spec(
            r@[7],
            "energy_insecurity_covid"@,
            "doi:10.7910/DVN/OMJWNB"@,
            "Energy insecurity among low-income households during COVID-19"@,
            "energy"@,
        ),
        is_dataverse_spec(
            r@[8],
            "climate_health_pathways"@,
            "doi:10.7910/DVN/DHDNIC"@,
            "Exploring Climate and Health Pathways in the INSPIRE Network"@,
            "climate_health"@,
        ),
        r@[9].id@ == "codata_constants_2022"@,
        r@[9].persistent_id is None,
        r@[9].title@ == "CODATA/NIST 2022 Fundamental Physical Constants"@,
        r@[9].category@ == "reference"@,
        r@[9].source matches LakehouseSource::Url { url, filename } && url@
            == "https://physics.nist.gov/cuu/Constants/Table/allascii.txt"@ && filename@
            == "codata_constants_2022_allascii.txt"@,
{
    let mut r: Vec<LakehouseDatasetSpec> = Vec::new();
    r.push(
        dataverse_spec(
            "government_finance",
            "doi:10.7910/DVN/LMS8NT",
            "The Government Finance Database",
            "finance",
        ),
    );
    r.push(
        dataverse_spec(
            "roadway_lidar",
            "doi:10.7910/DVN/1VT6FZ",
            "Roadway vulnerability LiDAR DTM",
            "geospatial",
        ),
    );
    r.push(
        dataverse_spec(
            "access_2018_energy",
            "doi:10.7910/DVN/AHFINM",
            "Access to Clean Cooking Energy and Electricity: Survey of States in India 2018",
            "energy",
        ),
    );
    r.push(
        dataverse_spec(
            "dockless_transportation",
            "doi:10.7910/DVN/B2LJSB",
            "Dockless transportation hotspots and mode shift",
            "transportation",
        ),
    );
    r.push(
        dataverse_spec(
            "haalsi_baseline",
            "doi:10.7910/DVN/F5YHML",
            "HAALSI Baseline Survey",
            "health",
        ),
    );
    r.push(
        dataverse_spec(
            "global_party_survey",
            "doi:10.7910/DVN/WMGTNS",
            "Global Party Survey, 2019",
            "social_science",
        ),
    );
    r.push(
        dataverse_spec(
            "pedestrian_injury_ct",
            "doi:10.7910/DVN/TXIKF9",
            "Pedestrian injury severity in Connecticut",
            "transportation",
        ),
    );
    r.push(
        dataverse_spec(
            "energy_insecurity_covid",
            "doi:10.7910/DVN/OMJWNB",
            "Energy insecurity among low-income households during COVID-19",
            "energy",
        ),
    );
    r.push(
        dataverse_spec(
            "climate_health_pathways",
            "doi:10.7910/DVN/DHDNIC",
            "Exploring Climate and Health Pathways in the INSPIRE Network",
            "climate_health",
        ),
    );
    r.push(
        LakehouseDatasetSpec {
            id: owned("codata_constants_2022"),
            persistent_id: None,
            title: owned("CODATA/NIST 2022 Fundamental Physical Constants"),
            category: owned("reference"),
            source: LakehouseSource::Url {
                url: owned("https://physics.nist.gov/cuu/Constants/Table/allascii.txt"),
                filename: owned("codata_constants_2022_allascii.txt"),
            },
        },
    );
    r
}

} // verus!
