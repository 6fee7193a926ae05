//! Byte-exact checks of the level geometry codec.

use worduino_engine::{mirror_h, mirror_v, reverse_bits, Walls, WallsData};

#[test]
fn reverse_bits_exact() {
    assert_eq!(reverse_bits(0x00), 0x00);
    assert_eq!(reverse_bits(0xff), 0xff);
    assert_eq!(reverse_bits(0x01), 0x80);
    assert_eq!(reverse_bits(0x80), 0x01);
    assert_eq!(reverse_bits(0x2a), 0x54);
    assert_eq!(reverse_bits(0xf0), 0x0f);
}

#[test]
fn mirror_v_zero() {
    let input: Vec<u8> = vec![0x00];
    assert_eq!(mirror_v(&input), vec![0x0000]);
}

#[test]
fn mirror_v_full_half() {
    // All six meaningful bits set: every bit of the 11-bit mask lights up.
    let input: Vec<u8> = vec![0x3f];
    assert_eq!(mirror_v(&input), vec![0x07ff]);
}

#[test]
fn mirror_v_single_wall() {
    // A wall at the first interior position mirrors to the last.
    let input: Vec<u8> = vec![0x01];
    assert_eq!(mirror_v(&input), vec![0x0401]);
}

#[test]
fn mirror_v_asymmetric() {
    // 0b101010 reversed and realigned interleaves with itself.
    let input: Vec<u8> = vec![0x2a];
    let out = mirror_v(&input);
    assert_eq!(out, vec![0x02aa]);
    // Low 6 bits are the input; high bits are the reversed-shifted form.
    assert_eq!(out[0] & 0x3f, 0x2a);
    assert_eq!(out[0] >> 5, ((reverse_bits(0x2a) >> 2) as u16));
    // The 11 meaningful bits read the same from either end.
    for j in 0..11 {
        assert_eq!((out[0] >> j) & 1, (out[0] >> (10 - j)) & 1);
    }
}

#[test]
fn mirror_h_three_columns() {
    let input: Vec<u8> = vec![0xa1, 0xb2, 0xc3];
    let out = mirror_h(&input);
    assert_eq!(out, vec![0xa1, 0xb2, 0xc3, 0xb2, 0xa1]);
    // The center element appears exactly once.
    assert_eq!(out.iter().filter(|&&b| b == 0xc3).count(), 1);
}

#[test]
fn mirror_h_single_column() {
    let input: Vec<u8> = vec![0x7e];
    assert_eq!(mirror_h(&input), vec![0x7e]);
}

#[test]
fn walls_from_data_expands_both_axes() {
    let data = WallsData {
        vertical_walls: [0x01, 0x3f, 0x00, 0x2a, 0x00, 0x00],
        horizontal_walls: [1, 2, 3, 4, 5, 6],
    };
    let walls = Walls::from_data(&data);
    assert_eq!(walls.vertical_walls, [0x0401, 0x07ff, 0x0000, 0x02aa, 0x0000, 0x0000]);
    assert_eq!(walls.horizontal_walls, [1, 2, 3, 4, 5, 6, 5, 4, 3, 2, 1]);
}
