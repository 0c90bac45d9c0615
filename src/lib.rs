//! A small publishing engine: content files with a header block become
//! posts, posts get slugs and a listing order, and pages are rendered from
//! them, the same for live requests and for a static export.

pub mod date;
pub mod order;
pub mod post;
pub mod render;
pub mod repo;
pub mod site;
pub mod slug;
pub mod text;
