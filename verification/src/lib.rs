//! A slippy-map tile library: web-mercator tile arithmetic, an in-memory
//! tile cache fed by a background download worker over bounded queues, a
//! flood-fill enumerator for the tiles visible in a clip rectangle, and the
//! map-center drag controller.

pub mod map;
pub mod mercator;
pub mod tiles;
