use lol_plugin::ingame::{screenshot_file_name, write_bmp_32bpp, BmpError};

#[test]
fn bmp_one_pixel() {
    let px = [1u8, 2, 3, 4];
    let b = write_bmp_32bpp(1, 1, &px).unwrap();
    let mut expected: Vec<u8> = vec![b'B', b'M'];
    expected.extend_from_slice(&58u32.to_le_bytes());
    expected.extend_from_slice(&[0, 0, 0, 0]);
    expected.extend_from_slice(&54u32.to_le_bytes());
    expected.extend_from_slice(&40u32.to_le_bytes());
    expected.extend_from_slice(&1i32.to_le_bytes());
    expected.extend_from_slice(&(-1i32).to_le_bytes());
    expected.extend_from_slice(&1u16.to_le_bytes());
    expected.extend_from_slice(&32u16.to_le_bytes());
    expected.extend_from_slice(&0u32.to_le_bytes());
    expected.extend_from_slice(&4u32.to_le_bytes());
    expected.extend_from_slice(&[0u8; 16]);
    expected.extend_from_slice(&px);
    assert_eq!(b, expected);
    assert_eq!(b.len(), 58);
}

#[test]
fn bmp_layout_fields() {
    let px = vec![7u8; 3 * 2 * 4];
    let b = write_bmp_32bpp(3, 2, &px).unwrap();
    assert_eq!(u32::from_le_bytes([b[2], b[3], b[4], b[5]]) as usize, b.len());
    assert_eq!(u32::from_le_bytes([b[10], b[11], b[12], b[13]]), 54);
    assert_eq!(i32::from_le_bytes([b[18], b[19], b[20], b[21]]), 3);
    assert_eq!(i32::from_le_bytes([b[22], b[23], b[24], b[25]]), -2);
    assert_eq!(&b[54..], &px[..]);
}

#[test]
fn bmp_empty_image() {
    let b = write_bmp_32bpp(0, 0, &[]).unwrap();
    assert_eq!(b.len(), 54);
}

#[test]
fn bmp_errors() {
    assert_eq!(write_bmp_32bpp(-1, 1, &[]).err(), Some(BmpError::NegativeWidth));
    assert_eq!(write_bmp_32bpp(1, -1, &[]).err(), Some(BmpError::NegativeHeight));
    assert_eq!(write_bmp_32bpp(65536, 65536, &[]).err(), Some(BmpError::PixelSizeOverflow));
    assert_eq!(write_bmp_32bpp(32768, 32768, &[]).err(), Some(BmpError::PixelSizeOverflow));
    // 4 * 1073741811 = 4294967244 fits in 32 bits, plus 54 does not
    assert_eq!(write_bmp_32bpp(1073741811, 1, &[]).err(), Some(BmpError::FileSizeOverflow));
    assert_eq!(write_bmp_32bpp(2, 2, &[0u8; 15]).err(), Some(BmpError::PixelBufferSize(15, 16)));
}

#[test]
fn screenshot_names() {
    assert_eq!(screenshot_file_name("fullmute_before", 1700000000123), "fullmute_before_1700000000123.bmp");
    assert_eq!(screenshot_file_name("x", 0), "x_0.bmp");
}
