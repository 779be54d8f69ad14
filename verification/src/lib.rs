//! Parser for EPUB Canonical Fragment Identifiers.
//!
//! A fragment such as `epubcfi(/6/4[id1]/2:10)` addresses a location inside an
//! EPUB document. [`parsers`] turns its text into the tree of [`syntax`]; what
//! each parser returns is stated against the productions of [`grammar`].

pub mod error;
pub mod grammar;
pub mod laws;
pub mod lexer;
pub mod parsers;
pub mod syntax;
