//! Static column-level lineage: extraction from pipeline code, a universal
//! lineage model, structural validation and exporters.

pub mod clock;
pub mod collections;
pub mod columns;
pub mod console;
pub mod dataflow;
pub mod decls;
pub mod dot;
pub mod export;
pub mod finish;
pub mod flow;
pub mod gate;
pub mod graph;
pub mod infer;
pub mod json;
pub mod laws;
pub mod model;
pub mod openlineage;
pub mod openmetadata;
pub mod origin;
pub mod paths;
pub mod pyast;
pub mod python;
pub mod resolve;
pub mod scan;
pub mod source;
pub mod sql;
pub mod sqlast;
pub mod tasks;
pub mod text;
pub mod validate;
pub mod wellformed;
