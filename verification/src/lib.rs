//! Template registry and project rendering engine for a project-scaffolding
//! tool: discovers template definitions under one or more roots, merges them
//! into a de-duplicated insertion-ordered catalog, drives the interactive
//! option-collection session for a chosen template, and lays out the render
//! pass that materializes the template's files into a fresh project
//! directory.

pub mod engine;
pub mod project;
pub mod registry;
pub mod session;
pub mod template;
