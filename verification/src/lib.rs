//! Documentation object index and cross-reference resolution for Python
//! packages: extracts documentation objects from a parsed declaration tree,
//! indexes them by fully-qualified import path, decodes external symbol
//! inventories, validates `[[target]]` cross-reference markers, and expands
//! them into renderer-produced link text.

pub mod class;
pub mod cli;
pub mod docstring;
pub mod expand;
pub mod function;
pub mod index;
pub mod inventory;
pub mod module;
pub mod notebook;
pub mod object;
pub mod object_ref;
pub mod paths;
pub mod pymodel;
pub mod render;
pub mod suggest;
pub mod text;
pub mod validate;
