//! Rectangle payloads and the encoding types that name them on the wire.
use vstd::prelude::*;

use crate::pixel_formats::rgb_888;
use crate::rfb::PixelFormat;

verus! {

/// The encoding types this server knows by number.
#[derive(Debug, Clone, Copy, PartialEq, Eq, Structural)]
pub enum EncodingType {
    Raw,
    CopyRect,
    RRE,
    Hextile,
    Zlib,
    Tight,
    TRLE,
    ZRLE,
    JPEG,
    JRLE,
    ZRLE2,
    CursorPseudo,
    DesktopSizePseudo,
    CursorWithAlpha,
}

impl EncodingType {
    /// The signed 32-bit number of the encoding type on the wire.
    pub open spec fn spec_code(self) -> i32 {
        match self {
            EncodingType::Raw => 0,
            EncodingType::CopyRect => 1,
            EncodingType::RRE => 2,
            EncodingType::Hextile => 5,
            EncodingType::Zlib => 6,
            EncodingType::Tight => 7,
            EncodingType::TRLE => 15,
            EncodingType::ZRLE => 16,
            EncodingType::JPEG => 21,
            EncodingType::JRLE => 22,
            EncodingType::ZRLE2 => 24,
            EncodingType::CursorPseudo => -239i32,
            EncodingType::DesktopSizePseudo => -223i32,
            EncodingType::CursorWithAlpha => -314i32,
        }
    }

    #[verifier::when_used_as_spec(spec_code)]
    pub fn code(self) -> (r: i32)
        ensures
            r == self.spec_code(),
    {
        match self {
            EncodingType::Raw => 0,
            EncodingType::CopyRect => 1,
            EncodingType::RRE => 2,
            EncodingType::Hextile => 5,
            EncodingType::Zlib => 6,
            EncodingType::Tight => 7,
            EncodingType::TRLE => 15,
            EncodingType::ZRLE => 16,
            EncodingType::JPEG => 21,
            EncodingType::JRLE => 22,
            EncodingType::ZRLE2 => 24,
            EncodingType::CursorPseudo => -239i32,
            EncodingType::DesktopSizePseudo => -223i32,
            EncodingType::CursorWithAlpha => -314i32,
        }
    }

    /// The encoding type with wire number `v`, if there is one.
    pub fn from_code(v: i32) -> (r: Option<EncodingType>)
        ensures
            r == encoding_type_of(v),
    {
        match v {
            0 => Some(EncodingType::Raw),
            1 => Some(EncodingType::CopyRect),
            2 => Some(EncodingType::RRE),
            5 => Some(EncodingType::Hextile),
            6 => Some(EncodingType::Zlib),
            7 => Some(EncodingType::Tight),
            15 => Some(EncodingType::TRLE),
            16 => Some(EncodingType::ZRLE),
            21 => Some(EncodingType::JPEG),
            22 => Some(EncodingType::JRLE),
            24 => Some(EncodingType::ZRLE2),
            -239 => Some(EncodingType::CursorPseudo),
            -223 => Some(EncodingType::DesktopSizePseudo),
            -314 => Some(EncodingType::CursorWithAlpha),
            _ => None,
        }
    }
}

/// The encoding type whose wire number is `v`.
pub open spec fn encoding_type_of(v: i32) -> Option<EncodingType> {
    if v == 0 {
        Some(EncodingType::Raw)
    } else if v == 1 {
        Some(EncodingType::CopyRect)
    } else if v == 2 {
        Some(EncodingType::RRE)
    } else if v == 5 {
        Some(EncodingType::Hextile)
    } else if v == 6 {
        Some(EncodingType::Zlib)
    } else if v == 7 {
        Some(EncodingType::Tight)
    } else if v == 15 {
        Some(EncodingType::TRLE)
    } else if v == 16 {
        Some(EncodingType::ZRLE)
    } else if v == 21 {
        Some(EncodingType::JPEG)
    } else if v == 22 {
        Some(EncodingType::JRLE)
    } else if v == 24 {
        Some(EncodingType::ZRLE2)
    } else if v == -239 {
        Some(EncodingType::CursorPseudo)
    } else if v == -223 {
        Some(EncodingType::DesktopSizePseudo)
    } else if v == -314 {
        Some(EncodingType::CursorWithAlpha)
    } else {
        None
    }
}

/// Every encoding type is found again from its wire number.
pub proof fn lemma_encoding_type_code(e: EncodingType)
    ensures
        encoding_type_of(e.spec_code()) == Some(e),
{
}

/// Uncompressed pixels in row-major order.
#[derive(Debug, Clone)]
pub struct RawEncoding {
    pub pixels: Vec<u8>,
}

impl RawEncoding {
    pub fn new(pixels: Vec<u8>) -> (r: Self)
        ensures
            r.pixels@ == pixels@,
    {
        RawEncoding { pixels }
    }
}

/// A rectangle's payload, one variant per supported encoding.
#[derive(Debug, Clone)]
pub enum Encoding {
    Raw(RawEncoding),
}

/// What a payload holds: its variant and its bytes.
pub enum EncodingView {
    Raw(Seq<u8>),
}

impl EncodingView {
    pub open spec fn encoding_type(self) -> EncodingType {
        match self {
            EncodingView::Raw(_) => EncodingType::Raw,
        }
    }

    /// The payload bytes as they go on the wire, after the rectangle header.
    pub open spec fn payload(self) -> Seq<u8> {
        match self {
            EncodingView::Raw(p) => p,
        }
    }

    /// The same payload, its pixels re-laid from `input` into `output`.
    pub open spec fn transformed(self, input: PixelFormat, output: PixelFormat) -> EncodingView {
        match self {
            EncodingView::Raw(p) => EncodingView::Raw(rgb_888::transformed(p, input, output)),
        }
    }
}

impl View for Encoding {
    type V = EncodingView;

    open spec fn view(&self) -> EncodingView {
        match self {
            Encoding::Raw(r) => EncodingView::Raw(r.pixels@),
        }
    }
}

impl Encoding {
    pub fn get_type(&self) -> (r: EncodingType)
        ensures
            r == self@.encoding_type(),
    {
        match self {
            Encoding::Raw(_) => EncodingType::Raw,
        }
    }

    /// The payload bytes, with no header.
    pub fn encode(&self) -> (r: &[u8])
        ensures
            r@ == self@.payload(),
    {
        match self {
            Encoding::Raw(raw) => raw.pixels.as_slice(),
        }
    }

    /// A new payload of the same variant holding the pixels re-laid from `input` into `output`.
    pub fn transform(&self, input: &PixelFormat, output: &PixelFormat) -> (r: Encoding)
        requires
            input.spec_is_rgb_888(),
            output.spec_is_rgb_888(),
        ensures
            r@ == self@.transformed(*input, *output),
    {
        match self {
            Encoding::Raw(raw) => Encoding::Raw(
                RawEncoding { pixels: rgb_888::transform(raw.pixels.as_slice(), input, output) },
            ),
        }
    }
}

} // verus!
