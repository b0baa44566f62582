//! The storage controller of a single-instance file upload service: naming of
//! stored files, the upload counter, listing, download resolution and the
//! replies of the HTTP boundary, with every decision stated and proved.

pub mod controllers;
pub mod error;
pub mod names;
pub mod routes;
pub mod text;
