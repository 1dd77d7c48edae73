//! What the results of the library have to do with what they are made from,
//! stated without the functions that compute them.

pub mod columns;
pub mod console;
pub mod decls;
pub mod dot;
pub mod finish;
pub mod flow;
pub mod gate;
pub mod graph;
pub mod model;
pub mod modules;
pub mod openlineage;
pub mod openmetadata;
pub mod reading;
pub mod scan;
pub mod sql;
pub mod steps;
pub mod tasks;
pub mod text;
pub mod validate;
