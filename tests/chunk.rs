use tiled::{chunk_tile_at, decode_chunks, Chunk, DecodedChunk, Error, TileEncoding};

fn chunk(x: i32, y: i32, width: u32, height: u32, data: &str) -> Chunk {
    Chunk { x, y, width, height, data: data.to_string() }
}

#[test]
fn chunks_decode_independently() {
    let chunks = vec![chunk(0, 0, 2, 2, "1,2,3,4"), chunk(-2, 0, 2, 1, "5,6")];
    let d = decode_chunks(&chunks, TileEncoding::Csv).unwrap();
    assert_eq!(
        d[0],
        DecodedChunk { x: 0, y: 0, width: 2, height: 2, tiles: vec![1, 2, 3, 4] }
    );
    assert_eq!(d[1].tiles, vec![5, 6]);
    assert_eq!(chunk_tile_at(&d, 1, 1), Some(4));
    assert_eq!(chunk_tile_at(&d, 1, 0), Some(2));
    assert_eq!(chunk_tile_at(&d, -1, 0), Some(6));
    assert_eq!(chunk_tile_at(&d, -1, 1), None);
    assert_eq!(chunk_tile_at(&d, 5, 5), None);
}

#[test]
fn a_failing_chunk_fails_the_layer() {
    let chunks = vec![chunk(0, 0, 1, 1, "1"), chunk(1, 0, 2, 1, "2")];
    let r = decode_chunks(&chunks, TileEncoding::Csv);
    assert!(matches!(r, Err(Error::InvalidTileCount { expected: 2, found: 1 })));
    assert_eq!(decode_chunks(&vec![], TileEncoding::Csv).unwrap(), vec![]);
}
