//! A dictionary client library: the rendering of lookup results through
//! pluggable text formatters, the parsing of dictionary pages, and the
//! request signing of the open translation API.

pub mod text;
pub mod formatters;
pub mod lang;
pub mod ydresponse;
pub mod page;
pub mod ydclient;
