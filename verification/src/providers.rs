//! Everything that turns a configured source into repository descriptors.

pub mod github;
pub mod gitlab;
pub mod individual;
pub mod listing;
pub mod pagination;
pub mod shared;
