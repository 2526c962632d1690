use tiled::{combine, split, TileFlags};

#[test]
fn split_reads_flags_and_gid() {
    let t = split(0x8000_0005);
    assert_eq!(t, TileFlags { gid: 5, flip_h: true, flip_v: false, flip_d: false });
    let t = split(0x6000_0001);
    assert_eq!(t, TileFlags { gid: 1, flip_h: false, flip_v: true, flip_d: true });
    assert_eq!(split(0).gid, 0);
}

#[test]
fn split_then_combine_is_lossless() {
    for v in [0u32, 1, 0x1FFF_FFFF, 0x2000_0000, 0x8000_0000, 0xE000_0007, u32::MAX, 123_456_789] {
        assert_eq!(combine(split(v)), v);
    }
}

#[test]
fn combine_drops_high_gid_bits() {
    let t = TileFlags { gid: 0xFFFF_FFFF, flip_h: false, flip_v: false, flip_d: false };
    assert_eq!(combine(t), 0x1FFF_FFFF);
    let t = TileFlags { gid: 7, flip_h: true, flip_v: true, flip_d: true };
    assert_eq!(combine(t), 0xE000_0007);
}
