//! A small static-website engine: validated article value objects, an
//! article entity with identity-based equality, an in-memory repository,
//! and a deterministic pipeline that turns a non-empty set of edited
//! articles into an ordered sequence of page-generation events.

pub mod article;
pub mod date;
pub mod generation;
pub mod pages;
pub mod repository;
pub mod slug;
pub mod sort;
pub mod text;
pub mod values;
