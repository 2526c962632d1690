//! Chunked layers of infinite maps: each chunk is decoded on its own, and
//! cells are then found by their coordinates in the sparse map space.

use crate::decode::{decode_tile_data, payload_tiles, TileEncoding};
use crate::error::Error;
use vstd::prelude::*;

verus! {

/// A rectangular, independently encoded region of an infinite layer.
#[derive(Clone, Debug, PartialEq, Eq)]
pub struct Chunk {
    /// The x coordinate of the chunk's first column, in tiles.
    pub x: i32,
    /// The y coordinate of the chunk's first row, in tiles.
    pub y: i32,
    /// The number of columns.
    pub width: u32,
    /// The number of rows.
    pub height: u32,
    /// The encoded payload.
    pub data: String,
}

/// A chunk with its raw tile ids, in row-major order.
#[derive(Clone, Debug, PartialEq, Eq)]
pub struct DecodedChunk {
    /// The x coordinate of the chunk's first column, in tiles.
    pub x: i32,
    /// The y coordinate of the chunk's first row, in tiles.
    pub y: i32,
    /// The number of columns.
    pub width: u32,
    /// The number of rows.
    pub height: u32,
    /// One raw tile id per cell.
    pub tiles: Vec<u32>,
}

/// Whether a chunk's payload decodes to exactly one id per cell.
pub open spec fn chunk_decodes(c: Chunk, encoding: TileEncoding) -> bool {
    payload_tiles(c.data@, encoding) matches Some(t) && t.len() == c.width * c.height
}

/// Whether `d` is chunk `c` decoded.
pub open spec fn decoded_from(d: DecodedChunk, c: Chunk, encoding: TileEncoding) -> bool {
    &&& d.x == c.x
    &&& d.y == c.y
    &&& d.width == c.width
    &&& d.height == c.height
    &&& payload_tiles(c.data@, encoding) == Some(d.tiles@)
    &&& d.tiles@.len() == c.width * c.height
}

/// Decodes each chunk with the same encoding, in order. The first chunk that
/// fails to decode fails the whole layer.
pub fn decode_chunks(chunks: &Vec<Chunk>, encoding: TileEncoding) -> (r: Result<
    Vec<DecodedChunk>,
    Error,
>)
    ensures
        r is Ok <==> forall|i: int| 0 <= i < chunks@.len() ==> chunk_decodes(#[trigger] chunks@[i], encoding),
        r matches Ok(v) ==> v@.len() == chunks@.len() && forall|i: int|
            0 <= i < chunks@.len() ==> decoded_from(#[trigger] v@[i], chunks@[i], encoding),
{
    let mut out: Vec<DecodedChunk> = Vec::new();
    let mut i: usize = 0;
    while i < chunks.len()
        invariant
            i <= chunks@.len(),
            out@.len() == i,
            forall|j: int| 0 <= j < i ==> decoded_from(#[trigger] out@[j], chunks@[j], encoding),
        decreases chunks@.len() - i,
    {
        let c = &chunks[i];
        let tiles = match decode_tile_data(c.data.as_str(), encoding, c.width, c.height) {
            Ok(t) => t,
            Err(e) => {
                assert(!chunk_decodes(chunks@[i as int], encoding));
                return Err(e);
            },
        };
        out.push(DecodedChunk { x: c.x, y: c.y, width: c.width, height: c.height, tiles });
        i += 1;
    }
    proof {
        assert forall|j: int| 0 <= j < chunks@.len() implies chunk_decodes(
            #[trigger] chunks@[j],
            encoding,
        ) by {
            assert(decoded_from(out@[j], chunks@[j], encoding));
        }
    }
    Ok(out)
}

/// Whether the cell at (`x`, `y`) lies in chunk `c`.
pub open spec fn covers(c: DecodedChunk, x: int, y: int) -> bool {
    c.x <= x < c.x + c.width && c.y <= y < c.y + c.height
}

/// The id of the cell at (`x`, `y`) in a chunk that covers it.
pub open spec fn cell_of(c: DecodedChunk, x: int, y: int) -> u32 {
    c.tiles@[(y - c.y) * c.width + (x - c.x)]
}

/// The raw tile id at (`x`, `y`) of a chunked layer: the cell of the first
/// chunk that covers it, or `None` where no chunk does.
pub fn chunk_tile_at(chunks: &Vec<DecodedChunk>, x: i32, y: i32) -> (r: Option<u32>)
    requires
        forall|i: int|
            0 <= i < chunks@.len() ==> (#[trigger] chunks@[i]).tiles@.len() == chunks@[i].width
                * chunks@[i].height,
    ensures
        r is None <==> forall|i: int| 0 <= i < chunks@.len() ==> !covers(#[trigger] chunks@[i], x as int, y as int),
        r matches Some(v) ==> exists|i: int|
            0 <= i < chunks@.len() && covers(#[trigger] chunks@[i], x as int, y as int) && (forall|k: int|
                0 <= k < i ==> !covers(#[trigger] chunks@[k], x as int, y as int)) && v == cell_of(
                chunks@[i],
                x as int,
                y as int,
            ),
{
    let mut i: usize = 0;
    while i < chunks.len()
        invariant
            i <= chunks@.len(),
            forall|j: int|
                0 <= j < chunks@.len() ==> (#[trigger] chunks@[j]).tiles@.len()
                    == chunks@[j].width * chunks@[j].height,
            forall|k: int| 0 <= k < i ==> !covers(#[trigger] chunks@[k], x as int, y as int),
        decreases chunks@.len() - i,
    {
        let c = &chunks[i];
        let dx: i64 = x as i64 - c.x as i64;
        let dy: i64 = y as i64 - c.y as i64;
        if 0 <= dx && dx < c.width as i64 && 0 <= dy && dy < c.height as i64 {
            let w = c.width as usize;
            let dxu = dx as usize;
            let dyu = dy as usize;
            let n = c.tiles.len();
            proof {
                let h = c.height as int;
                assert(dyu * w + dxu < h * w) by (nonlinear_arith)
                    requires
                        dyu < h,
                        dxu < w,
                ;
                assert(dyu * w + dxu >= 0) by (nonlinear_arith)
                    requires
                        dyu >= 0,
                        w >= 0,
                        dxu >= 0,
                ;
                assert(c.tiles@.len() == c.width * c.height);
                assert(c.width * c.height == h * w) by (nonlinear_arith)
                    requires
                        h == c.height,
                        w == c.width,
                ;
                assert(dyu * w + dxu < n);
            }
            let v = c.tiles[dyu * w + dxu];
            assert(covers(chunks@[i as int], x as int, y as int));
            assert(v == cell_of(chunks@[i as int], x as int, y as int));
            return Some(v);
        }
        i += 1;
    }
    None
}

} // verus!
