pub mod binder;
pub mod catalog;
pub mod codec;
pub mod executor;
pub mod heap;
pub mod plan;
pub mod table_page;
pub mod tuple;
pub mod common;
