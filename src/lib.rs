//! Converts a vMix status document (XML) into the nested value tree that
//! xml2js-style consumers expect: scalar fields as one-element sequences,
//! attributes grouped under `$`, repeated entities wrapped twice, all under a
//! single `vmix` key.

pub mod assemble;
pub mod convert;
pub mod engine;
pub mod event;
pub mod laws;
pub mod schema;
pub mod tree;
