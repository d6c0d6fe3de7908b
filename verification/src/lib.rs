//! Support functions that a template engine calls while it renders a page:
//! value filters and tests, a merger of URL parameters, and the decisions
//! behind the translation and asset-tag callables.

pub mod args;
pub mod assets;
pub mod error;
pub mod filters;
pub mod form;
pub mod params;
pub mod text;
pub mod translate;
pub mod urls;
