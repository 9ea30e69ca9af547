//! Routing logic on integer data: the grid neighbourhood and path rebuilding of the in-area
//! search, and triangle adjacency of a triangulated area.
pub mod grid;
pub mod mesh;
pub mod errors;
pub mod areas;
pub mod search;
pub mod wkt_text;
