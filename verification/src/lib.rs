//! Extraction of a structured outline (a title and a leveled list of
//! headings) from the text of a paginated document.

pub mod exclude;
pub mod fontclass;
pub mod heading;
pub mod hierarchy;
pub mod model;
pub mod pipeline;
pub mod text;
pub mod title;
