//! A data-access layer for an article record kept in a relational table:
//! typed records, injection-safe parameterized query descriptors for the
//! CRUD operations, and a verified model of the effect each descriptor is
//! expected to have on the stored table.

pub mod article;
pub mod laws;
pub mod query;
pub mod route;
pub mod table;

pub use article::Article;
pub use article::PartialArticle;
pub use query::Param;
pub use query::QueryDescriptor;
pub use table::ArticleTable;
