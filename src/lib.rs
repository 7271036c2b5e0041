//! Declarative HTML extraction: a schema of CSS-selector rules applied to a
//! page yields a typed result tree; around it sit the transformation
//! pipeline, the pagination rules and the fetch policy.

pub mod config;
pub mod extract;
pub mod fetch;
pub mod html;
pub mod laws;
pub mod paginate;
pub mod table;
pub mod text;
pub mod transform;
pub mod value;
