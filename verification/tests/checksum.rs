//! The checksum of a container.

use d3dasm::checksum::dxbc_checksum;

#[test]
fn known_answer() {
    let input = b"the quick brown fox jumps over the lazy dxbc container hash";
    assert_eq!(
        dxbc_checksum(input),
        [
            0xa1, 0xb2, 0xd9, 0xd5, 0x15, 0x9d, 0x4d, 0xca, 0x96, 0x58, 0x58, 0x3e, 0x71, 0x02,
            0xff, 0x1e,
        ]
    );
}

#[test]
fn deterministic_and_input_sensitive() {
    let a = dxbc_checksum(b"content-a");
    assert_eq!(a, dxbc_checksum(b"content-a"));
    assert_ne!(a, dxbc_checksum(b"content-b"));
}

#[test]
fn handles_block_boundaries() {
    for len in [0usize, 55, 56, 63, 64, 119, 120, 128] {
        let data: Vec<u8> = (0..len).map(|i| i as u8).collect();
        let h = dxbc_checksum(&data);
        assert_eq!(h, dxbc_checksum(&data), "len {len} not deterministic");
    }
}
