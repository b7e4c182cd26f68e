//! Providers of language models.

pub mod google_vertex_ai;
