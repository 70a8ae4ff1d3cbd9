//! Rule-driven crawling: regex rules peel labelled fragments out of fetched
//! pages, a navigator walks pager graphs and an extractor plans downloads.

pub mod collections;
pub mod configure;
pub mod connector;
pub mod http;
pub mod pattern;
pub mod result;
pub mod text;
