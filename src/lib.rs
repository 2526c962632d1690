//! Map-description assets: tile-data decoding, tile flag handling, shared
//! resource caching and world layout resolution.

pub mod cache;
pub mod chunk;
pub mod decode;
pub mod error;
pub mod gid;
pub mod text;
pub mod tileset;
pub mod world;

pub use cache::ResourceCache;
pub use chunk::{chunk_tile_at, decode_chunks, Chunk, DecodedChunk};
pub use decode::{
    check_tile_count, decode_csv, decode_tile_data, tile_encoding, tiles_from_le_bytes,
    TileEncoding,
};
pub use error::{CsvDecodingError, Error, InvalidTilesetError};
pub use gid::{combine, split, TileFlags};
pub use tileset::{canonicalize, resolve_path, Template, Tileset};
pub use world::{place_by_captures, World, WorldMap, WorldPattern};
