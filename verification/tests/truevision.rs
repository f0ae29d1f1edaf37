use scop::truevision::{
    ColorMapSpec, HorizontalOrdering, ImageSpec, Targa, TargaError, TargaHeader, TargaImageType,
    VerticalOrdering,
};

fn header(image_type: u8, width: u16, height: u16, bits: u8, flags: u8) -> Vec<u8> {
    let w = width.to_le_bytes();
    let h = height.to_le_bytes();
    vec![
        0, 0, image_type, 0, 0, 0, 0, 0, 0, 0, 0, 0, w[0], w[1], h[0], h[1], bits, flags,
    ]
}

#[test]
fn header_fields_are_read() {
    let bytes = [
        5, 1, 10, 0x34, 0x12, 0x78, 0x56, 24, 1, 0, 2, 0, 0x00, 0x01, 0xff, 0xff, 32, 0b0011_1000,
    ];
    let parsed = TargaHeader::from_bytes(&bytes).unwrap();
    assert_eq!(
        parsed,
        TargaHeader {
            id_length: 5,
            color_map_included: true,
            image_type: TargaImageType::CompressedTrueColor,
            color_map_specification: ColorMapSpec {
                first_entry_index: 0x1234,
                color_map_length: 0x5678,
                color_map_entry_size: 24,
            },
            image_specification: ImageSpec {
                x_origin: 1,
                y_origin: 2,
                width: 256,
                height: 65535,
                bits_per_pixel: 32,
                alpha_depth: 8,
                horizontal_ordering: HorizontalOrdering::RightToLeft,
                vertical_ordering: VerticalOrdering::TopToBottom,
            },
        }
    );
}

#[test]
fn header_image_types() {
    let expected = [
        (0, TargaImageType::NoImage),
        (1, TargaImageType::UncompressedColorMapped),
        (2, TargaImageType::UncompressedTrueColor),
        (3, TargaImageType::UncompressedGrayscale),
        (9, TargaImageType::CompressedColorMapped),
        (10, TargaImageType::CompressedTrueColor),
        (11, TargaImageType::CompressedGrayscale),
    ];
    for (code, image_type) in expected {
        let parsed = TargaHeader::from_bytes(&header(code, 1, 1, 24, 0)).unwrap();
        assert_eq!(parsed.image_type, image_type);
        assert_eq!(
            parsed.image_specification.horizontal_ordering,
            HorizontalOrdering::LeftToRight
        );
        assert_eq!(
            parsed.image_specification.vertical_ordering,
            VerticalOrdering::BottomToTop
        );
        assert!(!parsed.color_map_included);
    }
    for code in [4u8, 8, 12, 255] {
        assert_eq!(
            TargaHeader::from_bytes(&header(code, 1, 1, 24, 0)),
            Err(TargaError::InvalidHeader)
        );
    }
}

#[test]
fn header_must_have_eighteen_bytes() {
    assert_eq!(TargaHeader::from_bytes(&[]), Err(TargaError::InvalidHeader));
    assert_eq!(TargaHeader::from_bytes(&[0; 17]), Err(TargaError::InvalidHeader));
    assert_eq!(TargaHeader::from_bytes(&[0; 19]), Err(TargaError::InvalidHeader));
    assert!(TargaHeader::from_bytes(&[0; 18]).is_ok());
}

#[test]
fn decodes_24_bit_pixels() {
    let mut data = header(2, 2, 1, 24, 0b10_0000);
    data.extend_from_slice(&[1, 2, 3, 4, 5, 6, 99]);
    let targa = Targa::from_bytes(&data).unwrap();
    assert_eq!(targa.width, 2);
    assert_eq!(targa.height, 1);
    assert_eq!(targa.bytes, vec![1, 2, 3, 4, 5, 6]);
}

#[test]
fn decodes_32_bit_pixels_without_alpha() {
    let mut data = header(2, 1, 2, 32, 0b10_1000);
    data.extend_from_slice(&[1, 2, 3, 255, 4, 5, 6, 128]);
    let targa = Targa::from_bytes(&data).unwrap();
    assert_eq!(targa.width, 1);
    assert_eq!(targa.height, 2);
    assert_eq!(targa.bytes, vec![1, 2, 3, 4, 5, 6]);
}

#[test]
fn empty_image_is_decoded() {
    let targa = Targa::from_bytes(&header(2, 0, 7, 24, 0b10_0000)).unwrap();
    assert_eq!(targa.width, 0);
    assert_eq!(targa.height, 7);
    assert!(targa.bytes.is_empty());
}

#[test]
fn refuses_what_it_cannot_decode() {
    let error = |data: &[u8]| Targa::from_bytes(data).map(|_| ()).unwrap_err();
    assert_eq!(error(&[0; 5]), TargaError::InvalidHeader);
    assert_eq!(error(&header(7, 1, 1, 24, 0)), TargaError::InvalidHeader);
    assert_eq!(
        error(&header(10, 1, 1, 24, 0b10_0000)),
        TargaError::UnsupportedImageType(TargaImageType::CompressedTrueColor)
    );
    assert_eq!(
        error(&header(2, 1, 1, 16, 0b10_0000)),
        TargaError::UnsupportedBitDepth(16)
    );
    let mut short = header(2, 2, 2, 24, 0b10_0000);
    short.extend_from_slice(&[0; 11]);
    assert_eq!(error(&short), TargaError::InvalidHeader);
    let mut flipped = header(2, 1, 1, 24, 0);
    flipped.extend_from_slice(&[1, 2, 3]);
    assert_eq!(
        error(&flipped),
        TargaError::UnsupportedOrdering(
            HorizontalOrdering::LeftToRight,
            VerticalOrdering::BottomToTop
        )
    );
    let mut mirrored = header(2, 1, 1, 24, 0b11_0000);
    mirrored.extend_from_slice(&[1, 2, 3]);
    assert_eq!(
        error(&mirrored),
        TargaError::UnsupportedOrdering(
            HorizontalOrdering::RightToLeft,
            VerticalOrdering::TopToBottom
        )
    );
    assert_eq!(
        error(&header(2, 65535, 65535, 32, 0b10_0000)),
        TargaError::InvalidHeader
    );
}
