//! Decoder for uncompressed true-colour Truevision images.

use vstd::prelude::*;

verus! {

/// The pixels of an image, three bytes each, row by row.
#[derive(Debug)]
pub struct Targa {
    pub width: usize,
    pub height: usize,
    pub bytes: Vec<u8>,
}

/// Why the bytes of a file are no image that is decoded here.
#[derive(Debug, Clone, Copy, PartialEq, Eq, Structural)]
pub enum TargaError {
    InvalidHeader,
    UnsupportedImageType(TargaImageType),
    UnsupportedBitDepth(u8),
    UnsupportedOrdering(HorizontalOrdering, VerticalOrdering),
}

#[derive(Debug, Clone, Copy, PartialEq, Eq, Structural)]
pub enum TargaImageType {
    NoImage,
    UncompressedColorMapped,
    UncompressedTrueColor,
    UncompressedGrayscale,
    CompressedColorMapped,
    CompressedTrueColor,
    CompressedGrayscale,
}

#[derive(Debug, Clone, Copy, PartialEq, Eq, Structural)]
pub struct ColorMapSpec {
    pub first_entry_index: u16,
    pub color_map_length: u16,
    pub color_map_entry_size: u8,
}

#[derive(Debug, Clone, Copy, PartialEq, Eq, Structural)]
pub enum HorizontalOrdering {
    LeftToRight,
    RightToLeft,
}

#[derive(Debug, Clone, Copy, PartialEq, Eq, Structural)]
pub enum VerticalOrdering {
    TopToBottom,
    BottomToTop,
}

#[derive(Debug, Clone, Copy, PartialEq, Eq, Structural)]
pub struct ImageSpec {
    pub x_origin: u16,
    pub y_origin: u16,
    pub width: u16,
    pub height: u16,
    pub bits_per_pixel: u8,
    pub alpha_depth: u8,
    pub horizontal_ordering: HorizontalOrdering,
    pub vertical_ordering: VerticalOrdering,
}

/// The eighteen bytes at the start of an image.
#[derive(Debug, Clone, Copy, PartialEq, Eq, Structural)]
pub struct TargaHeader {
    pub id_length: u8,
    pub color_map_included: bool,
    pub image_type: TargaImageType,
    pub color_map_specification: ColorMapSpec,
    pub image_specification: ImageSpec,
}

/// The 16-bit number whose low byte is `low` and whose high byte is `high`.
pub open spec fn word(low: u8, high: u8) -> u16 {
    (low + 256 * high) as u16
}

/// The image type that a code stands for.
pub open spec fn image_type(code: u8) -> Option<TargaImageType> {
    if code == 0 {
        Some(TargaImageType::NoImage)
    } else if code == 1 {
        Some(TargaImageType::UncompressedColorMapped)
    } else if code == 2 {
        Some(TargaImageType::UncompressedTrueColor)
    } else if code == 3 {
        Some(TargaImageType::UncompressedGrayscale)
    } else if code == 9 {
        Some(TargaImageType::CompressedColorMapped)
    } else if code == 10 {
        Some(TargaImageType::CompressedTrueColor)
    } else if code == 11 {
        Some(TargaImageType::CompressedGrayscale)
    } else {
        None
    }
}

/// The image specification in the bytes 8 to 17 of a header. In the last
/// byte the low four bits are the alpha depth, the bit 4 says that the
/// columns run from right to left, the bit 5 that the rows run from top to
/// bottom.
pub open spec fn image_specification(bytes: Seq<u8>) -> ImageSpec {
    ImageSpec {
        x_origin: word(bytes[8], bytes[9]),
        y_origin: word(bytes[10], bytes[11]),
        width: word(bytes[12], bytes[13]),
        height: word(bytes[14], bytes[15]),
        bits_per_pixel: bytes[16],
        alpha_depth: bytes[17] & 0xF,
        horizontal_ordering: if (bytes[17] & 0b10000) != 0 {
            HorizontalOrdering::RightToLeft
        } else {
            HorizontalOrdering::LeftToRight
        },
        vertical_ordering: if (bytes[17] & 0b100000) != 0 {
            VerticalOrdering::TopToBottom
        } else {
            VerticalOrdering::BottomToTop
        },
    }
}

/// The header that eighteen bytes denote. Any other number of bytes, or an
/// unknown image type, is no header.
pub open spec fn header(bytes: Seq<u8>) -> Result<TargaHeader, TargaError> {
    if bytes.len() != 18 {
        Err(TargaError::InvalidHeader)
    } else {
        match image_type(bytes[2]) {
            None => Err(TargaError::InvalidHeader),
            Some(found) => Ok(
                TargaHeader {
                    id_length: bytes[0],
                    color_map_included: bytes[1] != 0,
                    image_type: found,
                    color_map_specification: ColorMapSpec {
                        first_entry_index: word(bytes[3], bytes[4]),
                        color_map_length: word(bytes[5], bytes[6]),
                        color_map_entry_size: bytes[7],
                    },
                    image_specification: image_specification(bytes),
                },
            ),
        }
    }
}

fn read_word(low: u8, high: u8) -> (r: u16)
    ensures
        r == word(low, high),
{
    low as u16 + 256 * (high as u16)
}

impl TargaHeader {
    /// Reads a header from its eighteen bytes.
    pub fn from_bytes(bytes: &[u8]) -> (r: Result<Self, TargaError>)
        ensures
            r == header(bytes@),
    {
        if bytes.len() != 18 {
            return Err(TargaError::InvalidHeader);
        }
        let id_length = bytes[0];
        let color_map_included = bytes[1] != 0;
        let code = bytes[2];
        let image_type = if code == 0 {
            TargaImageType::NoImage
        } else if code == 1 {
            TargaImageType::UncompressedColorMapped
        } else if code == 2 {
            TargaImageType::UncompressedTrueColor
        } else if code == 3 {
            TargaImageType::UncompressedGrayscale
        } else if code == 9 {
            TargaImageType::CompressedColorMapped
        } else if code == 10 {
            TargaImageType::CompressedTrueColor
        } else if code == 11 {
            TargaImageType::CompressedGrayscale
        } else {
            return Err(TargaError::InvalidHeader);
        };
        let color_map_specification = ColorMapSpec {
            first_entry_index: read_word(bytes[3], bytes[4]),
            color_map_length: read_word(bytes[5], bytes[6]),
            color_map_entry_size: bytes[7],
        };
        let flags = bytes[17];
        let horizontal_ordering = if (flags & 0b10000) != 0 {
            HorizontalOrdering::RightToLeft
        } else {
            HorizontalOrdering::LeftToRight
        };
        let vertical_ordering = if (flags & 0b100000) != 0 {
            VerticalOrdering::TopToBottom
        } else {
            VerticalOrdering::BottomToTop
        };
        let image_specification = ImageSpec {
            x_origin: read_word(bytes[8], bytes[9]),
            y_origin: read_word(bytes[10], bytes[11]),
            width: read_word(bytes[12], bytes[13]),
            height: read_word(bytes[14], bytes[15]),
            bits_per_pixel: bytes[16],
            alpha_depth: flags & 0xF,
            horizontal_ordering,
            vertical_ordering,
        };
        Ok(
            Self {
                id_length,
                color_map_included,
                image_type,
                color_map_specification,
                image_specification,
            },
        )
    }
}

/// The mathematical value of a `Targa`.
pub struct TargaView {
    pub width: nat,
    pub height: nat,
    pub bytes: Seq<u8>,
}

impl View for Targa {
    type V = TargaView;

    open spec fn view(&self) -> TargaView {
        TargaView { width: self.width as nat, height: self.height as nat, bytes: self.bytes@ }
    }
}

/// The number of bytes that a pixel of `bits` bits takes in the file.
pub open spec fn pixel_width(bits: u8) -> Option<int> {
    if bits == 24 {
        Some(3)
    } else if bits == 32 {
        Some(4)
    } else {
        None
    }
}

/// The first three bytes of each of the `count` pixels that follow the
/// header, where a pixel takes `width` bytes.
pub open spec fn pixels(data: Seq<u8>, width: int, count: int) -> Seq<u8> {
    Seq::new((3 * count) as nat, |k: int| data[18 + width * (k / 3) + k % 3])
}

/// The image that the bytes of a file denote: a header, then the pixels.
/// Only uncompressed true-colour images of 24 or 32 bits, stored from left
/// to right and from top to bottom, are decoded; a file that is shorter
/// than its header says has no valid header.
pub open spec fn image(data: Seq<u8>) -> Result<TargaView, TargaError> {
    if data.len() < 18 {
        Err(TargaError::InvalidHeader)
    } else {
        match header(data.subrange(0, 18)) {
            Err(e) => Err(e),
            Ok(found) => {
                let spec = found.image_specification;
                let count = spec.width * spec.height;
                if found.image_type != TargaImageType::UncompressedTrueColor {
                    Err(TargaError::UnsupportedImageType(found.image_type))
                } else {
                    match pixel_width(spec.bits_per_pixel) {
                        None => Err(TargaError::UnsupportedBitDepth(spec.bits_per_pixel)),
                        Some(width) => if 18 + width * count > data.len() {
                            Err(TargaError::InvalidHeader)
                        } else if spec.horizontal_ordering != HorizontalOrdering::LeftToRight
                            || spec.vertical_ordering != VerticalOrdering::TopToBottom {
                            Err(
                                TargaError::UnsupportedOrdering(
                                    spec.horizontal_ordering,
                                    spec.vertical_ordering,
                                ),
                            )
                        } else {
                            Ok(
                                TargaView {
                                    width: spec.width as nat,
                                    height: spec.height as nat,
                                    bytes: pixels(data, width, count),
                                },
                            )
                        },
                    }
                }
            },
        }
    }
}

/// The mathematical value of what `Targa::from_bytes` returns.
pub open spec fn image_outcome(r: Result<Targa, TargaError>) -> Result<TargaView, TargaError> {
    match r {
        Ok(targa) => Ok(targa@),
        Err(e) => Err(e),
    }
}

impl Targa {
    /// Decodes the bytes of a file.
    pub fn from_bytes(data: &[u8]) -> (r: Result<Self, TargaError>)
        ensures
            image_outcome(r) == image(data@),
    {
        if data.len() < 18 {
            return Err(TargaError::InvalidHeader);
        }
        let header = match TargaHeader::from_bytes(vstd::slice::slice_subrange(data, 0, 18)) {
            Err(e) => { return Err(e); },
            Ok(found) => found,
        };
        match header.image_type {
            TargaImageType::UncompressedTrueColor => {},
            other => { return Err(TargaError::UnsupportedImageType(other)); },
        }
        let columns = header.image_specification.width;
        let rows = header.image_specification.height;
        assert(columns * rows <= 0xffff * 0xffff) by (nonlinear_arith)
            requires
                0 <= columns <= 0xffff,
                0 <= rows <= 0xffff,
        ;
        let number_of_pixels: u64 = columns as u64 * rows as u64;
        let bits = header.image_specification.bits_per_pixel;
        let window_size: u64 = if bits == 24 {
            3
        } else if bits == 32 {
            4
        } else {
            return Err(TargaError::UnsupportedBitDepth(bits));
        };
        let number_of_bytes: u64 = window_size * number_of_pixels;
        if number_of_bytes + 18 > data.len() as u64 {
            return Err(TargaError::InvalidHeader);
        }
        if header.image_specification.horizontal_ordering != HorizontalOrdering::LeftToRight
            || header.image_specification.vertical_ordering != VerticalOrdering::TopToBottom {
            return Err(
                TargaError::UnsupportedOrdering(
                    header.image_specification.horizontal_ordering,
                    header.image_specification.vertical_ordering,
                ),
            );
        }
        let count = number_of_pixels as usize;
        let step = window_size as usize;
        let mut bytes: Vec<u8> = Vec::with_capacity(4096);
        let mut i: usize = 0;
        while i < count
            invariant
                step == 3 || step == 4,
                18 + step * count <= data@.len(),
                data@.len() <= usize::MAX,
                i <= count,
                bytes@ == pixels(data@, step as int, i as int),
            decreases count - i,
        {
            assert(step * i + step <= step * count) by (nonlinear_arith)
                requires
                    i + 1 <= count,
                    step >= 0,
            ;
            let start = 18 + step * i;
            bytes.push(data[start]);
            bytes.push(data[start + 1]);
            bytes.push(data[start + 2]);
            assert(bytes@ =~= pixels(data@, step as int, i + 1));
            i = i + 1;
        }
        Ok(Self { bytes, width: columns as usize, height: rows as usize })
    }
}

} // verus!
