//! Extraction of translatable string literals from the call sites of a
//! configurable family of translation functions, aggregated into a catalog
//! keyed by context and text, with running usage statistics.
//!
//! `syntax` holds what extraction reads of a parsed file, `registry` the
//! function signatures, `config` the configuration document, `model` the
//! mathematical model of the catalog and its transitions, `visitor` the
//! catalog itself, `navigator` the per-file driver, and `facts` the
//! properties that every run keeps.
pub mod syntax;
pub mod registry;
pub mod config;
pub mod model;
pub mod visitor;
pub mod navigator;
pub mod facts;
