//! MapLibre styles for the Galileo map engine: a JSON model, best-effort
//! readers of style documents, sources, layers and TileJSON manifests, the
//! parsers of MapLibre and Galileo expressions, the conversion from one
//! expression language to the other, the plans from which vector tile
//! layers are built, and the choice of the tiles that a tiled layer keeps on
//! display.

pub mod json;
pub mod color;
pub mod expr;
pub mod text;
pub mod decode;
pub mod ml_expr;
pub mod convert;
pub mod style;
pub mod tilejson;
pub mod plan;
pub mod tile_url;
pub mod parser;
pub mod tiles;
