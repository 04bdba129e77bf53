//! QueryGraph's side of LakeCat bootstrap bundles: the tables and views
//! of an import plan, read from the bundle's projections.
pub mod model;
