use rustsni::{from_tuples, IconPixmap};

#[test]
fn single_pixel_conversion() {
    // big-endian ARGB: A=0xFF, R=0x11, G=0x22, B=0x33
    let raw: &[&[u8]] = &[&[0xFF, 0x11, 0x22, 0x33]];
    let tuples: Vec<(i32, i32, &[u8])> = vec![(1, 1, raw[0])];
    let pixmaps = from_tuples(&tuples);
    assert_eq!(pixmaps.len(), 1);
    assert_eq!(pixmaps[0].width, 1);
    assert_eq!(pixmaps[0].height, 1);
    // LE Cairo [B,G,R,A] = [0x33, 0x22, 0x11, 0xFF]
    assert_eq!(&pixmaps[0].data, &[0x33, 0x22, 0x11, 0xFF]);
}

#[test]
fn two_by_two_icon() {
    // 2x2 = 4 pixels, each 4 bytes
    let raw: Vec<u8> = vec![
        0xFF, 0xAA, 0xBB, 0xCC, // pixel (0,0)
        0x80, 0x11, 0x22, 0x33, // pixel (1,0)
        0x00, 0x44, 0x55, 0x66, // pixel (0,1)
        0xFF, 0x77, 0x88, 0x99, // pixel (1,1)
    ];
    let tuples: Vec<(i32, i32, &[u8])> = vec![(2, 2, &raw)];
    let pixmaps = from_tuples(&tuples);
    assert_eq!(pixmaps.len(), 1);
    assert_eq!(pixmaps[0].width, 2);
    assert_eq!(pixmaps[0].height, 2);
    assert_eq!(pixmaps[0].data.len(), 16);
    // First pixel: [A,R,G,B] → [B,G,R,A]
    assert_eq!(&pixmaps[0].data[0..4], &[0xCC, 0xBB, 0xAA, 0xFF]);
}

#[test]
fn skip_zero_dimensions() {
    let raw: &[u8] = &[0; 4];
    let tuples: Vec<(i32, i32, &[u8])> = vec![(0, 1, raw), (1, 0, raw), (-1, 1, raw)];
    assert!(from_tuples(&tuples).is_empty());
}

#[test]
fn skip_insufficient_data() {
    // Need 4 bytes for 1x1, give only 2
    let raw: &[u8] = &[0xFF, 0x00];
    let tuples: Vec<(i32, i32, &[u8])> = vec![(1, 1, raw)];
    assert!(from_tuples(&tuples).is_empty());
}

#[test]
fn extra_data_is_ignored() {
    // 1x1 needs 4 bytes, give 8 — should only use first 4
    let raw: &[u8] = &[0xFF, 0x11, 0x22, 0x33, 0x00, 0x00, 0x00, 0x00];
    let tuples: Vec<(i32, i32, &[u8])> = vec![(1, 1, raw)];
    let pixmaps = from_tuples(&tuples);
    assert_eq!(pixmaps.len(), 1);
    assert_eq!(pixmaps[0].data.len(), 4);
}

#[test]
fn empty_input() {
    let tuples: Vec<(i32, i32, &[u8])> = vec![];
    assert!(from_tuples(&tuples).is_empty());
}

#[test]
fn every_byte_of_a_row_is_placed() {
    let raw: [u8; 8] = [1, 2, 3, 4, 5, 6, 7, 8];
    let pixmap = IconPixmap::from_argb32be(2, 1, &raw).unwrap();
    assert_eq!(pixmap.data, vec![4, 3, 2, 1, 8, 7, 6, 5]);
}

#[test]
fn converting_twice_gives_the_input_back() {
    let raw: [u8; 8] = [9, 8, 7, 6, 5, 4, 3, 2];
    let once = IconPixmap::from_argb32be(1, 2, &raw).unwrap();
    let twice = IconPixmap::from_argb32be(1, 2, &once.data).unwrap();
    assert_eq!(twice.data, raw.to_vec());
}

#[test]
fn dimensions_beyond_the_data_are_refused_without_overflow() {
    assert_eq!(IconPixmap::from_argb32be(i32::MAX, i32::MAX, &[0; 16]), None);
    assert_eq!(IconPixmap::from_argb32be(0x8000, 0x8000, &[0; 16]), None);
    assert_eq!(IconPixmap::from_argb32be(i32::MIN, 1, &[0; 16]), None);
}

#[test]
fn order_is_kept_and_undecodable_tuples_are_left_out() {
    let a: &[u8] = &[1, 2, 3, 4];
    let short: &[u8] = &[1, 2, 3];
    let b: &[u8] = &[5, 6, 7, 8];
    let pixmaps = from_tuples(&[(1, 1, a), (1, 1, short), (1, 1, b)]);
    let data: Vec<Vec<u8>> = pixmaps.into_iter().map(|p| p.data).collect();
    assert_eq!(data, vec![vec![4, 3, 2, 1], vec![8, 7, 6, 5]]);
}
