//! Audits one website: a bounded breadth-first crawl that records, page by
//! page, the title, the meta description and the links it finds.

pub mod clock;
pub mod crawl;
pub mod engine;
pub mod extract;
pub mod frontier;
pub mod links;
pub mod model;
pub mod scope;
pub mod text;

pub use crate::crawl::{Fetched, Phase};
pub use crate::engine::{get_page, Crawl};
pub use crate::links::get_internal_links;
pub use crate::model::{Link, Page, Report, Required};
pub use crate::scope::validate_host;
