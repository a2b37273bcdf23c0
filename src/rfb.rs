//! The messages of the remote-framebuffer protocol and their byte encodings.
use vstd::prelude::*;

use crate::encodings::{encoding_type_of, Encoding, EncodingType, EncodingView};
use crate::keysym::{keysym_of, Keysym};
use crate::pixel_formats::rgb_888;
use crate::wire::{
    be16, be32, copy_range, get_u16, get_u32, put_bytes, put_text, put_u16, put_u32, put_u8,
    starts_with, string_from_utf8, text_bytes, u16_at, u32_at,
};
use std::cmp::Ordering;

pub use crate::wire::ProtoError;
use vstd::utf8::{decode_utf8, encode_utf8, valid_utf8};

verus! {

/// A protocol version; later versions compare greater.
#[derive(Debug, Clone, Copy, PartialEq, Eq, Structural)]
pub enum ProtoVersion {
    Rfb33,
    Rfb37,
    Rfb38,
}

/// The twelve bytes `RFB 003.00x` and a newline, `x` being the given digit.
pub open spec fn version_line(digit: u8) -> Seq<u8> {
    seq![0x52u8, 0x46u8, 0x42u8, 0x20u8, 0x30u8, 0x30u8, 0x33u8, 0x2eu8, 0x30u8, 0x30u8, digit, 0x0au8]
}

/// A protocol version at the start of `s`.
pub open spec fn parse_version(s: Seq<u8>) -> Result<(ProtoVersion, usize), ProtoError> {
    if s.len() < 12 {
        Err(ProtoError::Incomplete)
    } else if s.subrange(0, 12) == ProtoVersion::Rfb33.spec_bytes() {
        Ok((ProtoVersion::Rfb33, 12usize))
    } else if s.subrange(0, 12) == ProtoVersion::Rfb37.spec_bytes() {
        Ok((ProtoVersion::Rfb37, 12usize))
    } else if s.subrange(0, 12) == ProtoVersion::Rfb38.spec_bytes() {
        Ok((ProtoVersion::Rfb38, 12usize))
    } else {
        Err(ProtoError::InvalidVersion)
    }
}

impl ProtoVersion {
    /// Position in the order of versions.
    pub open spec fn rank(self) -> int {
        match self {
            ProtoVersion::Rfb33 => 0,
            ProtoVersion::Rfb37 => 1,
            ProtoVersion::Rfb38 => 2,
        }
    }

    pub open spec fn digit(self) -> u8 {
        match self {
            ProtoVersion::Rfb33 => 0x33,
            ProtoVersion::Rfb37 => 0x37,
            ProtoVersion::Rfb38 => 0x38,
        }
    }

    pub open spec fn spec_bytes(self) -> Seq<u8> {
        version_line(self.digit())
    }

    pub fn write_to(self, out: &mut Vec<u8>)
        ensures
            final(out)@ == old(out)@ + self.spec_bytes(),
    {
        let digit: u8 = match self {
            ProtoVersion::Rfb33 => 0x33,
            ProtoVersion::Rfb37 => 0x37,
            ProtoVersion::Rfb38 => 0x38,
        };
        put_u8(out, 0x52);
        put_u8(out, 0x46);
        put_u8(out, 0x42);
        put_u8(out, 0x20);
        put_u8(out, 0x30);
        put_u8(out, 0x30);
        put_u8(out, 0x33);
        put_u8(out, 0x2e);
        put_u8(out, 0x30);
        put_u8(out, 0x30);
        put_u8(out, digit);
        put_u8(out, 0x0a);
        assert(out@ =~= old(out)@ + self.spec_bytes());
    }

    fn matches_start_of(self, buf: &[u8]) -> (r: bool)
        requires
            buf@.len() >= 12,
        ensures
            r == (buf@.subrange(0, 12) == self.spec_bytes()),
    {
        let mut line: Vec<u8> = Vec::new();
        self.write_to(&mut line);
        assert(line@ =~= self.spec_bytes());
        starts_with(buf, line.as_slice())
    }

    /// Reads a version line from the start of `buf`, with the bytes it took.
    pub fn read_from(buf: &[u8]) -> (r: Result<(ProtoVersion, usize), ProtoError>)
        ensures
            r == parse_version(buf@),
    {
        if buf.len() < 12 {
            Err(ProtoError::Incomplete)
        } else if ProtoVersion::Rfb33.matches_start_of(buf) {
            Ok((ProtoVersion::Rfb33, 12))
        } else if ProtoVersion::Rfb37.matches_start_of(buf) {
            Ok((ProtoVersion::Rfb37, 12))
        } else if ProtoVersion::Rfb38.matches_start_of(buf) {
            Ok((ProtoVersion::Rfb38, 12))
        } else {
            Err(ProtoError::InvalidVersion)
        }
    }

    fn position(&self) -> (r: u8)
        ensures
            r == self.rank(),
    {
        match self {
            ProtoVersion::Rfb33 => 0,
            ProtoVersion::Rfb37 => 1,
            ProtoVersion::Rfb38 => 2,
        }
    }
}

pub open spec fn compare_ranks(a: int, b: int) -> Ordering {
    if a < b {
        Ordering::Less
    } else if a == b {
        Ordering::Equal
    } else {
        Ordering::Greater
    }
}

impl PartialOrd for ProtoVersion {
    fn partial_cmp(&self, other: &ProtoVersion) -> (r: Option<Ordering>) {
        let a = self.position();
        let b = other.position();
        if a < b {
            Some(Ordering::Less)
        } else if a == b {
            Some(Ordering::Equal)
        } else {
            Some(Ordering::Greater)
        }
    }
}

impl vstd::std_specs::cmp::PartialOrdSpecImpl for ProtoVersion {
    open spec fn obeys_partial_cmp_spec() -> bool {
        true
    }

    open spec fn partial_cmp_spec(&self, other: &ProtoVersion) -> Option<Ordering> {
        Some(compare_ranks(self.rank(), other.rank()))
    }
}

/// An authentication scheme that the server may offer.
#[derive(Debug, Clone, Copy, PartialEq, Eq, Structural)]
pub enum SecurityType {
    NoAuthentication,
    VncAuthentication,
}

/// The security type with wire code `v`, if there is one.
pub open spec fn security_type_of(v: u8) -> Option<SecurityType> {
    if v == 1 {
        Some(SecurityType::NoAuthentication)
    } else if v == 2 {
        Some(SecurityType::VncAuthentication)
    } else {
        None
    }
}

impl SecurityType {
    pub open spec fn spec_code(self) -> u8 {
        match self {
            SecurityType::NoAuthentication => 1,
            SecurityType::VncAuthentication => 2,
        }
    }

    #[verifier::when_used_as_spec(spec_code)]
    pub fn code(self) -> (r: u8)
        ensures
            r == self.spec_code(),
    {
        match self {
            SecurityType::NoAuthentication => 1,
            SecurityType::VncAuthentication => 2,
        }
    }

    pub fn from_code(v: u8) -> (r: Option<SecurityType>)
        ensures
            r == security_type_of(v),
    {
        if v == 1 {
            Some(SecurityType::NoAuthentication)
        } else if v == 2 {
            Some(SecurityType::VncAuthentication)
        } else {
            None
        }
    }

    pub fn write_to(self, out: &mut Vec<u8>)
        ensures
            final(out)@ == old(out)@.push(self.spec_code()),
    {
        put_u8(out, self.code());
    }

    /// Reads a one-byte security type from the start of `buf`.
    pub fn read_from(buf: &[u8]) -> (r: Result<(SecurityType, usize), ProtoError>)
        ensures
            r == parse_security_type(buf@),
    {
        if buf.len() < 1 {
            return Err(ProtoError::Incomplete);
        }
        match SecurityType::from_code(buf[0]) {
            Some(t) => Ok((t, 1)),
            None => Err(ProtoError::InvalidSecurityType(buf[0])),
        }
    }
}

pub open spec fn parse_security_type(s: Seq<u8>) -> Result<(SecurityType, usize), ProtoError> {
    if s.len() < 1 {
        Err(ProtoError::Incomplete)
    } else {
        match security_type_of(s[0]) {
            Some(t) => Ok((t, 1usize)),
            None => Err(ProtoError::InvalidSecurityType(s[0])),
        }
    }
}

/// The security types a server offers, in order of preference.
#[derive(Debug, Clone)]
pub struct SecurityTypes(pub Vec<SecurityType>);

pub open spec fn security_codes(ts: Seq<SecurityType>) -> Seq<u8> {
    ts.map_values(|t: SecurityType| t.spec_code())
}

impl SecurityTypes {
    /// A count byte, then one code byte per type.
    pub open spec fn spec_bytes(ts: Seq<SecurityType>) -> Seq<u8> {
        seq![ts.len() as u8] + security_codes(ts)
    }

    pub fn write_to(&self, out: &mut Vec<u8>)
        requires
            0 < self.0@.len() <= 255,
        ensures
            final(out)@ == old(out)@ + SecurityTypes::spec_bytes(self.0@),
    {
        put_u8(out, self.0.len() as u8);
        let ghost start = out@;
        let mut i: usize = 0;
        while i < self.0.len()
            invariant
                i <= self.0@.len(),
                out@ == start + security_codes(self.0@.subrange(0, i as int)),
            decreases self.0@.len() - i,
        {
            self.0[i].write_to(out);
            assert(out@ =~= start + security_codes(self.0@.subrange(0, i + 1)));
            i = i + 1;
        }
        assert(self.0@.subrange(0, i as int) =~= self.0@);
        assert(out@ =~= old(out)@ + SecurityTypes::spec_bytes(self.0@));
    }

    /// Whether the type with wire code `code` is among those offered.
    pub fn offers(&self, code: u8) -> (r: bool)
        ensures
            r == exists|i: int| 0 <= i < self.0@.len() && (#[trigger] self.0@[i]).spec_code() == code,
    {
        let mut i: usize = 0;
        while i < self.0.len()
            invariant
                i <= self.0@.len(),
                forall|j: int| 0 <= j < i ==> (#[trigger] self.0@[j]).spec_code() != code,
            decreases self.0@.len() - i,
        {
            if self.0[i].code() == code {
                return true;
            }
            i = i + 1;
        }
        false
    }
}

/// The outcome of security negotiation, as told to the client.
pub enum SecurityResult {
    Success,
    Failure(String),
}

impl SecurityResult {
    /// Four bytes of result code, then for a failure the reason's bytes right after it.
    pub open spec fn spec_bytes(&self) -> Seq<u8> {
        match self {
            SecurityResult::Success => be32(0),
            SecurityResult::Failure(s) => be32(1) + encode_utf8(s@),
        }
    }

    pub fn write_to(self, out: &mut Vec<u8>)
        ensures
            final(out)@ == old(out)@ + self.spec_bytes(),
    {
        match self {
            SecurityResult::Success => {
                put_u32(out, 0);
            },
            SecurityResult::Failure(s) => {
                put_u32(out, 1);
                put_bytes(out, s.as_str().as_bytes());
                assert(out@ =~= old(out)@ + be32(1) + encode_utf8(s@));
            },
        }
    }
}

/// The client's initialization message.
#[derive(Debug, Clone, Copy, PartialEq, Eq, Structural)]
pub struct ClientInit {
    pub shared: bool,
}

pub open spec fn parse_client_init(s: Seq<u8>) -> Result<(ClientInit, usize), ProtoError> {
    if s.len() < 1 {
        Err(ProtoError::Incomplete)
    } else {
        Ok((ClientInit { shared: s[0] != 0 }, 1usize))
    }
}

impl ClientInit {
    pub open spec fn spec_bytes(self) -> Seq<u8> {
        seq![if self.shared { 1u8 } else { 0u8 }]
    }

    /// Reads the one-byte shared flag; any nonzero value means shared.
    pub fn read_from(buf: &[u8]) -> (r: Result<(ClientInit, usize), ProtoError>)
        ensures
            r == parse_client_init(buf@),
    {
        if buf.len() < 1 {
            return Err(ProtoError::Incomplete);
        }
        Ok((ClientInit { shared: buf[0] != 0 }, 1))
    }

    pub fn write_to(self, out: &mut Vec<u8>)
        ensures
            final(out)@ == old(out)@ + self.spec_bytes(),
    {
        put_u8(out, if self.shared { 1 } else { 0 });
        assert(out@ =~= old(out)@ + self.spec_bytes());
    }
}

/// A point of the framebuffer.
#[derive(Debug, Clone, Copy, PartialEq, Eq, Structural)]
pub struct Position {
    pub x: u16,
    pub y: u16,
}

/// A width and a height.
#[derive(Debug, Clone, Copy, PartialEq, Eq, Structural)]
pub struct Resolution {
    pub width: u16,
    pub height: u16,
}

pub open spec fn spec_position_at(s: Seq<u8>, i: int) -> Position {
    Position { x: u16_at(s, i), y: u16_at(s, i + 2) }
}

pub open spec fn spec_resolution_at(s: Seq<u8>, i: int) -> Resolution {
    Resolution { width: u16_at(s, i), height: u16_at(s, i + 2) }
}

impl Position {
    pub open spec fn spec_bytes(self) -> Seq<u8> {
        be16(self.x) + be16(self.y)
    }

    /// Reads the four bytes of a position from `buf` at `i`.
    pub fn read_from(buf: &[u8], i: usize) -> (r: Position)
        requires
            i + 4 <= buf.len(),
        ensures
            r == spec_position_at(buf@, i as int),
    {
        Position { x: get_u16(buf, i), y: get_u16(buf, i + 2) }
    }

    pub fn write_to(self, out: &mut Vec<u8>)
        ensures
            final(out)@ == old(out)@ + self.spec_bytes(),
    {
        put_u16(out, self.x);
        put_u16(out, self.y);
        assert(out@ =~= old(out)@ + self.spec_bytes());
    }
}

impl Resolution {
    pub open spec fn spec_bytes(self) -> Seq<u8> {
        be16(self.width) + be16(self.height)
    }

    /// Reads the four bytes of a resolution from `buf` at `i`.
    pub fn read_from(buf: &[u8], i: usize) -> (r: Resolution)
        requires
            i + 4 <= buf.len(),
        ensures
            r == spec_resolution_at(buf@, i as int),
    {
        Resolution { width: get_u16(buf, i), height: get_u16(buf, i + 2) }
    }

    pub fn write_to(self, out: &mut Vec<u8>)
        ensures
            final(out)@ == old(out)@ + self.spec_bytes(),
    {
        put_u16(out, self.width);
        put_u16(out, self.height);
        assert(out@ =~= old(out)@ + self.spec_bytes());
    }
}

/// The server's initialization message.
#[derive(Debug)]
pub struct ServerInit {
    pub initial_res: Resolution,
    pub pixel_format: PixelFormat,
    pub name: String,
}

impl ServerInit {
    pub fn new(width: u16, height: u16, name: String, pixel_format: PixelFormat) -> (r: Self)
        ensures
            r.initial_res == (Resolution { width, height }),
            r.pixel_format == pixel_format,
            r.name@ == name@,
    {
        Self { initial_res: Resolution { width, height }, pixel_format, name }
    }

    /// Resolution, pixel format, then the name as a text blob.
    pub open spec fn spec_bytes(&self) -> Seq<u8> {
        self.initial_res.spec_bytes() + self.pixel_format.spec_bytes() + text_bytes(self.name@)
    }

    pub fn write_to(self, out: &mut Vec<u8>)
        requires
            self.pixel_format.color_spec.is_color_format(),
            encode_utf8(self.name@).len() <= u32::MAX,
        ensures
            final(out)@ == old(out)@ + self.spec_bytes(),
    {
        self.initial_res.write_to(out);
        self.pixel_format.write_to(out);
        put_text(out, self.name.as_str());
        assert(out@ =~= old(out)@ + self.spec_bytes());
    }
}

/// How pixel values are laid out in memory and on the wire.
#[derive(Debug, Clone, Copy, PartialEq, Eq, Structural)]
pub struct PixelFormat {
    pub bits_per_pixel: u8,
    pub depth: u8,
    pub big_endian: bool,
    pub color_spec: ColorSpecification,
}

#[derive(Debug, Clone, Copy, PartialEq, Eq, Structural)]
pub enum ColorSpecification {
    ColorFormat(ColorFormat),
    ColorMap(ColorMap),
}

/// True-color channels: each channel's maximum value and its shift within a pixel.
#[derive(Debug, Clone, Copy, PartialEq, Eq, Structural)]
pub struct ColorFormat {
    pub red_max: u16,
    pub green_max: u16,
    pub blue_max: u16,
    pub red_shift: u8,
    pub green_shift: u8,
    pub blue_shift: u8,
}

/// Colors looked up in a color map; declared, but not supported on the wire.
#[derive(Debug, Clone, Copy, PartialEq, Eq, Structural)]
pub struct ColorMap {}

impl ColorSpecification {
    pub open spec fn is_color_format(self) -> bool {
        self is ColorFormat
    }

    /// The ten bytes of a true-color specification.
    pub open spec fn spec_bytes(self) -> Seq<u8> {
        match self {
            ColorSpecification::ColorFormat(cf) => seq![1u8] + be16(cf.red_max) + be16(cf.green_max)
                + be16(cf.blue_max) + seq![cf.red_shift, cf.green_shift, cf.blue_shift],
            ColorSpecification::ColorMap(_) => seq![0u8],
        }
    }

    /// Appends the wire form; a color map has none.
    pub fn write_to(self, out: &mut Vec<u8>)
        requires
            self.is_color_format(),
        ensures
            final(out)@ == old(out)@ + self.spec_bytes(),
    {
        match self {
            ColorSpecification::ColorFormat(cf) => {
                put_u8(out, 1);
                put_u16(out, cf.red_max);
                put_u16(out, cf.green_max);
                put_u16(out, cf.blue_max);
                put_u8(out, cf.red_shift);
                put_u8(out, cf.green_shift);
                put_u8(out, cf.blue_shift);
                assert(out@ =~= old(out)@ + self.spec_bytes());
            },
            ColorSpecification::ColorMap(_) => {},
        }
    }

    /// Reads a color specification from the start of `buf`, with the bytes it took.
    pub fn read_from(buf: &[u8]) -> (r: Result<(ColorSpecification, usize), ProtoError>)
        ensures
            r == parse_color_spec(buf@),
    {
        if buf.len() < 1 {
            return Err(ProtoError::Incomplete);
        }
        if buf[0] == 0 {
            return Err(ProtoError::ColorMapUnsupported);
        }
        if buf.len() < 10 {
            return Err(ProtoError::Incomplete);
        }
        Ok((ColorSpecification::ColorFormat(color_format_at(buf, 1)), 10))
    }
}

/// The true-color fields stored from byte `i` on.
pub open spec fn spec_color_format_at(s: Seq<u8>, i: int) -> ColorFormat {
    ColorFormat {
        red_max: u16_at(s, i),
        green_max: u16_at(s, i + 2),
        blue_max: u16_at(s, i + 4),
        red_shift: s[i + 6],
        green_shift: s[i + 7],
        blue_shift: s[i + 8],
    }
}

fn color_format_at(buf: &[u8], i: usize) -> (r: ColorFormat)
    requires
        i + 9 <= buf.len(),
    ensures
        r == spec_color_format_at(buf@, i as int),
{
    ColorFormat {
        red_max: get_u16(buf, i),
        green_max: get_u16(buf, i + 2),
        blue_max: get_u16(buf, i + 4),
        red_shift: buf[i + 6],
        green_shift: buf[i + 7],
        blue_shift: buf[i + 8],
    }
}

/// A color specification at the start of `s`: a zero flag means a color map.
pub open spec fn parse_color_spec(s: Seq<u8>) -> Result<(ColorSpecification, usize), ProtoError> {
    if s.len() < 1 {
        Err(ProtoError::Incomplete)
    } else if s[0] == 0 {
        Err(ProtoError::ColorMapUnsupported)
    } else if s.len() < 10 {
        Err(ProtoError::Incomplete)
    } else {
        Ok((ColorSpecification::ColorFormat(spec_color_format_at(s, 1)), 10usize))
    }
}

/// The pixel format stored in the sixteen bytes from `i` on, its color flag set.
pub open spec fn spec_pixel_format_at(s: Seq<u8>, i: int) -> PixelFormat {
    PixelFormat {
        bits_per_pixel: s[i],
        depth: s[i + 1],
        big_endian: s[i + 2] != 0,
        color_spec: ColorSpecification::ColorFormat(spec_color_format_at(s, i + 4)),
    }
}

/// A pixel format at the start of `s`: sixteen bytes, the fourth of them nonzero.
pub open spec fn parse_pixel_format(s: Seq<u8>) -> Result<(PixelFormat, usize), ProtoError> {
    if s.len() < 16 {
        Err(ProtoError::Incomplete)
    } else if s[3] == 0 {
        Err(ProtoError::ColorMapUnsupported)
    } else {
        Ok((spec_pixel_format_at(s, 0), 16usize))
    }
}

pub(crate) fn pixel_format_at(buf: &[u8], i: usize) -> (r: PixelFormat)
    requires
        i + 16 <= buf.len(),
    ensures
        r == spec_pixel_format_at(buf@, i as int),
{
    PixelFormat {
        bits_per_pixel: buf[i],
        depth: buf[i + 1],
        big_endian: buf[i + 2] != 0,
        color_spec: ColorSpecification::ColorFormat(color_format_at(buf, i + 4)),
    }
}

impl PixelFormat {
    /// Constructor for a PixelFormat that uses a color format to specify colors.
    pub fn new_colorformat(bbp: u8, depth: u8, big_endian: bool, cf: ColorFormat) -> (r: Self)
        ensures
            r == (PixelFormat {
                bits_per_pixel: bbp,
                depth,
                big_endian,
                color_spec: ColorSpecification::ColorFormat(cf),
            }),
    {
        PixelFormat {
            bits_per_pixel: bbp,
            depth,
            big_endian,
            color_spec: ColorSpecification::ColorFormat(cf),
        }
    }

    /// 32 bits per pixel, depth 24, every channel eight bits wide and byte aligned.
    pub open spec fn spec_is_rgb_888(&self) -> bool {
        &&& self.bits_per_pixel == 32
        &&& self.depth == 24
        &&& match self.color_spec {
            ColorSpecification::ColorFormat(cf) => {
                &&& cf.red_max == 255
                &&& cf.green_max == 255
                &&& cf.blue_max == 255
                &&& cf.red_shift % 8 == 0 && cf.red_shift < 32
                &&& cf.green_shift % 8 == 0 && cf.green_shift < 32
                &&& cf.blue_shift % 8 == 0 && cf.blue_shift < 32
            },
            ColorSpecification::ColorMap(_) => false,
        }
    }

    /// Returns true if the pixel format is RGB888 (8-bits per color and 32 bits per pixel).
    #[verifier::when_used_as_spec(spec_is_rgb_888)]
    pub fn is_rgb_888(&self) -> (r: bool)
        ensures
            r == self.spec_is_rgb_888(),
    {
        if self.bits_per_pixel != rgb_888::BITS_PER_PIXEL || self.depth != rgb_888::DEPTH {
            return false;
        }
        match &self.color_spec {
            ColorSpecification::ColorFormat(cf) => {
                (cf.red_max == rgb_888::MAX_VALUE) && (cf.green_max == rgb_888::MAX_VALUE) && (
                cf.blue_max == rgb_888::MAX_VALUE) && rgb_888::valid_shift(cf.red_shift)
                    && rgb_888::valid_shift(cf.green_shift) && rgb_888::valid_shift(
                    cf.blue_shift,
                )
            },
            ColorSpecification::ColorMap(_) => false,
        }
    }

    /// The sixteen bytes of the wire form.
    pub open spec fn spec_bytes(self) -> Seq<u8> {
        seq![self.bits_per_pixel, self.depth, if self.big_endian { 1u8 } else { 0u8 }]
            + self.color_spec.spec_bytes() + seq![0u8, 0u8, 0u8]
    }

    pub fn write_to(self, out: &mut Vec<u8>)
        requires
            self.color_spec.is_color_format(),
        ensures
            final(out)@ == old(out)@ + self.spec_bytes(),
            self.spec_bytes().len() == 16,
    {
        put_u8(out, self.bits_per_pixel);
        put_u8(out, self.depth);
        put_u8(out, if self.big_endian { 1 } else { 0 });
        self.color_spec.write_to(out);
        put_u8(out, 0);
        put_u8(out, 0);
        put_u8(out, 0);
        assert(out@ =~= old(out)@ + self.spec_bytes());
    }

    /// Reads a pixel format from the start of `buf`, with the bytes it took.
    pub fn read_from(buf: &[u8]) -> (r: Result<(PixelFormat, usize), ProtoError>)
        ensures
            r == parse_pixel_format(buf@),
    {
        if buf.len() < 16 {
            return Err(ProtoError::Incomplete);
        }
        if buf[3] == 0 {
            return Err(ProtoError::ColorMapUnsupported);
        }
        Ok((pixel_format_at(buf, 0), 16))
    }
}

/// A rectangle of the framebuffer and the pixels that fill it.
pub struct Rectangle {
    pub position: Position,
    pub dimensions: Resolution,
    pub data: Encoding,
}

/// What a rectangle holds: where it is, how large, and its payload.
pub struct RectangleView {
    pub position: Position,
    pub dimensions: Resolution,
    pub data: EncodingView,
}

impl RectangleView {
    /// Position, dimensions, the encoding type in four bytes, then the payload.
    pub open spec fn spec_bytes(self) -> Seq<u8> {
        self.position.spec_bytes() + self.dimensions.spec_bytes() + be32(
            self.data.encoding_type().spec_code() as u32,
        ) + self.data.payload()
    }

    /// A raw payload holds exactly one pixel of `pf` for each point of the rectangle.
    pub open spec fn payload_fits(self, pf: PixelFormat) -> bool {
        self.data.payload().len() == self.dimensions.width * self.dimensions.height * (
        pf.bits_per_pixel / 8) as int
    }

    pub open spec fn transformed(self, input: PixelFormat, output: PixelFormat) -> RectangleView {
        RectangleView {
            position: self.position,
            dimensions: self.dimensions,
            data: self.data.transformed(input, output),
        }
    }
}

impl View for Rectangle {
    type V = RectangleView;

    open spec fn view(&self) -> RectangleView {
        RectangleView { position: self.position, dimensions: self.dimensions, data: self.data@ }
    }
}

impl Rectangle {
    pub fn new(x: u16, y: u16, width: u16, height: u16, data: Encoding) -> (r: Self)
        ensures
            r@ == (RectangleView {
                position: Position { x, y },
                dimensions: Resolution { width, height },
                data: data@,
            }),
    {
        Rectangle { position: Position { x, y }, dimensions: Resolution { width, height }, data }
    }

    /// The same rectangle, its pixels re-laid from `input_pf` into `output_pf`.
    pub fn transform(&self, input_pf: &PixelFormat, output_pf: &PixelFormat) -> (r: Self)
        requires
            input_pf.spec_is_rgb_888(),
            output_pf.spec_is_rgb_888(),
        ensures
            r@ == self@.transformed(*input_pf, *output_pf),
    {
        Rectangle {
            position: self.position,
            dimensions: self.dimensions,
            data: self.data.transform(input_pf, output_pf),
        }
    }

    pub fn write_to(&self, out: &mut Vec<u8>)
        ensures
            final(out)@ == old(out)@ + self@.spec_bytes(),
    {
        let encoding_type: i32 = self.data.get_type().code();
        self.position.write_to(out);
        self.dimensions.write_to(out);
        put_u32(out, encoding_type as u32);
        put_bytes(out, self.data.encode());
        assert(out@ =~= old(out)@ + self@.spec_bytes());
    }
}

/// The wire form of a sequence of rectangles, one after another.
pub open spec fn rectangles_bytes(rs: Seq<RectangleView>) -> Seq<u8>
    decreases rs.len(),
{
    if rs.len() == 0 {
        Seq::empty()
    } else {
        rectangles_bytes(rs.drop_last()) + rs.last().spec_bytes()
    }
}

/// A server message carrying rectangles of new pixel data.
pub struct FramebufferUpdate {
    pub rectangles: Vec<Rectangle>,
}

impl View for FramebufferUpdate {
    type V = Seq<RectangleView>;

    open spec fn view(&self) -> Seq<RectangleView> {
        self.rectangles@.map_values(|r: Rectangle| r@)
    }
}

/// Every rectangle of an update, its pixels re-laid from `input` into `output`.
pub open spec fn transformed_rectangles(
    rs: Seq<RectangleView>,
    input: PixelFormat,
    output: PixelFormat,
) -> Seq<RectangleView> {
    rs.map_values(|r: RectangleView| r.transformed(input, output))
}

/// The wire form of an update: type byte zero, a padding byte, the rectangle count in
/// two bytes, then the rectangles.
pub open spec fn framebuffer_update_bytes(rs: Seq<RectangleView>) -> Seq<u8> {
    seq![0u8, 0u8] + be16(rs.len() as u16) + rectangles_bytes(rs)
}

impl FramebufferUpdate {
    pub fn new(rectangles: Vec<Rectangle>) -> (r: Self)
        ensures
            r.rectangles@ == rectangles@,
    {
        FramebufferUpdate { rectangles }
    }

    /// A new update holding every rectangle re-laid from `input_pf` into `output_pf`.
    pub fn transform(&self, input_pf: &PixelFormat, output_pf: &PixelFormat) -> (r: Self)
        requires
            input_pf.spec_is_rgb_888(),
            output_pf.spec_is_rgb_888(),
        ensures
            r@ == transformed_rectangles(self@, *input_pf, *output_pf),
    {
        let mut rectangles: Vec<Rectangle> = Vec::new();
        let ghost t = transformed_rectangles(self@, *input_pf, *output_pf);
        let mut i: usize = 0;
        while i < self.rectangles.len()
            invariant
                i <= self.rectangles@.len(),
                input_pf.spec_is_rgb_888(),
                output_pf.spec_is_rgb_888(),
                t == transformed_rectangles(self@, *input_pf, *output_pf),
                rectangles@.len() == i,
                forall|j: int| 0 <= j < i ==> (#[trigger] rectangles@[j])@ == t[j],
            decreases self.rectangles@.len() - i,
        {
            let r = self.rectangles[i].transform(input_pf, output_pf);
            rectangles.push(r);
            i = i + 1;
        }
        let r = FramebufferUpdate { rectangles };
        assert(r@ =~= transformed_rectangles(self@, *input_pf, *output_pf));
        r
    }

    pub fn write_to(&self, out: &mut Vec<u8>)
        requires
            self.rectangles@.len() <= 0xffff,
        ensures
            final(out)@ == old(out)@ + framebuffer_update_bytes(self@),
    {
        put_u8(out, 0);
        put_u8(out, 0);
        put_u16(out, self.rectangles.len() as u16);
        let ghost start = out@;
        let mut i: usize = 0;
        while i < self.rectangles.len()
            invariant
                i <= self.rectangles@.len(),
                out@ == start + rectangles_bytes(self@.subrange(0, i as int)),
            decreases self.rectangles@.len() - i,
        {
            self.rectangles[i].write_to(out);
            assert(self@.subrange(0, i + 1).drop_last() =~= self@.subrange(0, i as int));
            assert(out@ =~= start + rectangles_bytes(self@.subrange(0, i + 1)));
            i = i + 1;
        }
        assert(self@.subrange(0, i as int) =~= self@);
        assert(out@ =~= old(out)@ + framebuffer_update_bytes(self@));
    }
}

/// A palette update; declared, not sent by this server.
#[derive(Debug)]
pub struct SetColorMapEntries {
    pub colors: Vec<ColorMapEntry>,
}

#[derive(Debug, Clone, Copy, PartialEq, Eq, Structural)]
pub struct ColorMapEntry {
    pub color: u16,
    pub red: u16,
    pub blue: u16,
    pub green: u16,
}

/// Clipboard text, in either direction.
#[derive(Debug)]
pub struct CutText {
    pub text: String,
}

/// A client's request for pixels of an area of the framebuffer.
#[derive(Debug, Clone, Copy, PartialEq, Eq, Structural)]
pub struct FramebufferUpdateRequest {
    pub incremental: bool,
    pub position: Position,
    pub resolution: Resolution,
}

/// A key pressed or released: the raw key symbol and its class.
#[derive(Debug, Clone, Copy, PartialEq, Eq, Structural)]
pub struct KeyEvent {
    pub is_pressed: bool,
    pub keysym: u32,
    pub key: Keysym,
}

impl KeyEvent {
    pub fn new(is_pressed: bool, keysym: u32) -> (r: KeyEvent)
        ensures
            r == (KeyEvent { is_pressed, keysym, key: keysym_of(keysym) }),
    {
        KeyEvent { is_pressed, keysym, key: Keysym::from_raw(keysym) }
    }
}

/// The set of pointer buttons held down, one bit per button: left, middle, right, then
/// four scroll directions.
#[derive(Debug, Clone, Copy, PartialEq, Eq, Structural)]
pub struct MouseButtons {
    pub bits: u8,
}

impl MouseButtons {
    /// The buttons of `bits`, ignoring bits that name no button.
    pub fn from_bits_truncate(bits: u8) -> (r: MouseButtons)
        ensures
            r.bits == bits & 0x7f,
    {
        MouseButtons { bits: bits & 0x7f }
    }

    pub fn bits(&self) -> (r: u8)
        ensures
            r == self.bits,
    {
        self.bits
    }

    /// Whether every button of `other` is held.
    pub fn contains(&self, other: MouseButtons) -> (r: bool)
        ensures
            r == (self.bits & other.bits == other.bits),
    {
        self.bits & other.bits == other.bits
    }
}

/// The pointer's position and buttons.
#[derive(Debug, Clone, Copy, PartialEq, Eq, Structural)]
pub struct PointerEvent {
    pub position: Position,
    pub pressed: MouseButtons,
}

/// A pointer event stored from byte `i` on: the button mask, then the position.
pub open spec fn spec_pointer_event_at(s: Seq<u8>, i: int) -> PointerEvent {
    PointerEvent {
        position: spec_position_at(s, i + 1),
        pressed: MouseButtons { bits: s[i] & 0x7f },
    }
}

pub open spec fn parse_pointer_event(s: Seq<u8>) -> Result<(PointerEvent, usize), ProtoError> {
    if s.len() < 5 {
        Err(ProtoError::Incomplete)
    } else {
        Ok((spec_pointer_event_at(s, 0), 5usize))
    }
}

fn pointer_event_at(buf: &[u8], i: usize) -> (r: PointerEvent)
    requires
        i + 5 <= buf.len(),
    ensures
        r == spec_pointer_event_at(buf@, i as int),
{
    let pressed = MouseButtons::from_bits_truncate(buf[i]);
    let position = Position::read_from(buf, i + 1);
    PointerEvent { position, pressed }
}

impl PointerEvent {
    /// Reads the five bytes of a pointer event that follow its type byte.
    pub fn read_from(buf: &[u8]) -> (r: Result<(PointerEvent, usize), ProtoError>)
        ensures
            r == parse_pointer_event(buf@),
    {
        if buf.len() < 5 {
            return Err(ProtoError::Incomplete);
        }
        Ok((pointer_event_at(buf, 0), 5))
    }
}

/// A message from the client.
pub enum ClientMessage {
    SetPixelFormat(PixelFormat),
    SetEncodings(Vec<EncodingType>),
    FramebufferUpdateRequest(FramebufferUpdateRequest),
    KeyEvent(KeyEvent),
    PointerEvent(PointerEvent),
    ClientCutText(String),
}

/// What a client message holds.
pub enum ClientMessageView {
    SetPixelFormat(PixelFormat),
    SetEncodings(Seq<EncodingType>),
    FramebufferUpdateRequest(FramebufferUpdateRequest),
    KeyEvent(KeyEvent),
    PointerEvent(PointerEvent),
    ClientCutText(Seq<char>),
}

impl View for ClientMessage {
    type V = ClientMessageView;

    open spec fn view(&self) -> ClientMessageView {
        match self {
            ClientMessage::SetPixelFormat(pf) => ClientMessageView::SetPixelFormat(*pf),
            ClientMessage::SetEncodings(es) => ClientMessageView::SetEncodings(es@),
            ClientMessage::FramebufferUpdateRequest(r) => ClientMessageView::FramebufferUpdateRequest(*r),
            ClientMessage::KeyEvent(k) => ClientMessageView::KeyEvent(*k),
            ClientMessage::PointerEvent(p) => ClientMessageView::PointerEvent(*p),
            ClientMessage::ClientCutText(t) => ClientMessageView::ClientCutText(t@),
        }
    }
}

/// The first `k` entries of a SetEncodings list, read in order from byte four on; the
/// first entry that is missing or unknown decides the error.
pub open spec fn parse_encoding_list(s: Seq<u8>, k: nat) -> Result<Seq<EncodingType>, ProtoError>
    decreases k,
{
    if k == 0 {
        Ok(Seq::empty())
    } else {
        match parse_encoding_list(s, (k - 1) as nat) {
            Err(e) => Err(e),
            Ok(es) => {
                let at = 4 + 4 * (k - 1);
                if s.len() < at + 4 {
                    Err(ProtoError::Incomplete)
                } else {
                    let v = u32_at(s, at) as i32;
                    match encoding_type_of(v) {
                        Some(e) => Ok(es.push(e)),
                        None => Err(ProtoError::UnknownEncodingType(v)),
                    }
                }
            },
        }
    }
}

/// Once an entry of the list fails, every longer list fails the same way.
pub proof fn lemma_encoding_list_error_stays(s: Seq<u8>, k: nat, m: nat)
    requires
        k <= m,
        parse_encoding_list(s, k) is Err,
    ensures
        parse_encoding_list(s, m) == parse_encoding_list(s, k),
    decreases m - k,
{
    if k < m {
        lemma_encoding_list_error_stays(s, k, (m - 1) as nat);
    }
}

/// A client message at the start of `s`, with the number of bytes it takes.
pub open spec fn parse_client_message(s: Seq<u8>) -> Result<(ClientMessageView, usize), ProtoError> {
    if s.len() < 1 {
        Err(ProtoError::Incomplete)
    } else if s[0] == 0 {
        if s.len() < 20 {
            Err(ProtoError::Incomplete)
        } else if s[7] == 0 {
            Err(ProtoError::ColorMapUnsupported)
        } else {
            Ok((ClientMessageView::SetPixelFormat(spec_pixel_format_at(s, 4)), 20usize))
        }
    } else if s[0] == 2 {
        if s.len() < 4 {
            Err(ProtoError::Incomplete)
        } else {
            let n = u16_at(s, 2);
            match parse_encoding_list(s, n as nat) {
                Ok(es) => Ok((ClientMessageView::SetEncodings(es), (4 + 4 * n) as usize)),
                Err(e) => Err(e),
            }
        }
    } else if s[0] == 3 {
        if s.len() < 10 {
            Err(ProtoError::Incomplete)
        } else {
            Ok(
                (
                    ClientMessageView::FramebufferUpdateRequest(
                        FramebufferUpdateRequest {
                            incremental: s[1] != 0,
                            position: spec_position_at(s, 2),
                            resolution: spec_resolution_at(s, 6),
                        },
                    ),
                    10usize,
                ),
            )
        }
    } else if s[0] == 4 {
        if s.len() < 8 {
            Err(ProtoError::Incomplete)
        } else {
            let raw = u32_at(s, 4);
            Ok(
                (
                    ClientMessageView::KeyEvent(
                        KeyEvent { is_pressed: s[1] != 0, keysym: raw, key: keysym_of(raw) },
                    ),
                    8usize,
                ),
            )
        }
    } else if s[0] == 5 {
        if s.len() < 6 {
            Err(ProtoError::Incomplete)
        } else {
            Ok((ClientMessageView::PointerEvent(spec_pointer_event_at(s, 1)), 6usize))
        }
    } else if s[0] == 6 {
        if s.len() < 8 {
            Err(ProtoError::Incomplete)
        } else {
            let n = u32_at(s, 4) as int;
            if s.len() < 8 + n {
                Err(ProtoError::Incomplete)
            } else if valid_utf8(s.subrange(8, 8 + n)) {
                Ok(
                    (
                        ClientMessageView::ClientCutText(decode_utf8(s.subrange(8, 8 + n))),
                        (8 + n) as usize,
                    ),
                )
            } else {
                Err(ProtoError::InvalidText)
            }
        }
    } else {
        Err(ProtoError::UnknownMessageType(s[0]))
    }
}

/// A decoding result, its message replaced by what the message holds.
pub open spec fn message_result_view(r: Result<(ClientMessage, usize), ProtoError>) -> Result<
    (ClientMessageView, usize),
    ProtoError,
> {
    match r {
        Ok((m, n)) => Ok((m@, n)),
        Err(e) => Err(e),
    }
}

impl ClientMessage {
    /// Decodes the client message at the start of `buf`, with the number of bytes it took.
    /// `Incomplete` means that `buf` holds only the beginning of a message.
    pub fn read_from(buf: &[u8]) -> (r: Result<(ClientMessage, usize), ProtoError>)
        ensures
            message_result_view(r) == parse_client_message(buf@),
    {
        if buf.len() < 1 {
            return Err(ProtoError::Incomplete);
        }
        let t = buf[0];
        if t == 0 {
            // SetPixelFormat: three bytes of padding, then the format.
            if buf.len() < 20 {
                return Err(ProtoError::Incomplete);
            }
            if buf[7] == 0 {
                return Err(ProtoError::ColorMapUnsupported);
            }
            Ok((ClientMessage::SetPixelFormat(pixel_format_at(buf, 4)), 20))
        } else if t == 2 {
            // SetEncodings: one byte of padding, the count, then the entries.
            if buf.len() < 4 {
                return Err(ProtoError::Incomplete);
            }
            let n = get_u16(buf, 2);
            let mut encodings: Vec<EncodingType> = Vec::new();
            let mut k: usize = 0;
            while k < n as usize
                invariant
                    k <= n,
                    n == u16_at(buf@, 2),
                    buf@.len() >= 4,
                    buf@[0] == 2,
                    parse_encoding_list(buf@, k as nat) == Ok::<Seq<EncodingType>, ProtoError>(
                        encodings@,
                    ),
                decreases n - k,
            {
                let at: usize = 4 + 4 * k;
                if buf.len() < at + 4 {
                    proof {
                        assert(parse_encoding_list(buf@, (k + 1) as nat) == Err::<
                            Seq<EncodingType>,
                            ProtoError,
                        >(ProtoError::Incomplete));
                        lemma_encoding_list_error_stays(buf@, (k + 1) as nat, n as nat);
                    }
                    return Err(ProtoError::Incomplete);
                }
                let v = #[verifier::truncate] (get_u32(buf, at) as i32);
                match EncodingType::from_code(v) {
                    Some(e) => {
                        encodings.push(e);
                    },
                    None => {
                        proof {
                            assert(parse_encoding_list(buf@, (k + 1) as nat) == Err::<
                                Seq<EncodingType>,
                                ProtoError,
                            >(ProtoError::UnknownEncodingType(v)));
                            lemma_encoding_list_error_stays(buf@, (k + 1) as nat, n as nat);
                        }
                        return Err(ProtoError::UnknownEncodingType(v));
                    },
                }
                k = k + 1;
            }
            Ok((ClientMessage::SetEncodings(encodings), 4 + 4 * (n as usize)))
        } else if t == 3 {
            // FramebufferUpdateRequest: incremental flag, position, resolution.
            if buf.len() < 10 {
                return Err(ProtoError::Incomplete);
            }
            let fbu_req = FramebufferUpdateRequest {
                incremental: buf[1] != 0,
                position: Position::read_from(buf, 2),
                resolution: Resolution::read_from(buf, 6),
            };
            Ok((ClientMessage::FramebufferUpdateRequest(fbu_req), 10))
        } else if t == 4 {
            // KeyEvent: pressed flag, two bytes of padding, key symbol.
            if buf.len() < 8 {
                return Err(ProtoError::Incomplete);
            }
            let key_event = KeyEvent::new(buf[1] != 0, get_u32(buf, 4));
            Ok((ClientMessage::KeyEvent(key_event), 8))
        } else if t == 5 {
            if buf.len() < 6 {
                return Err(ProtoError::Incomplete);
            }
            Ok((ClientMessage::PointerEvent(pointer_event_at(buf, 1)), 6))
        } else if t == 6 {
            // ClientCutText: three bytes of padding, then the text blob.
            if buf.len() < 8 {
                return Err(ProtoError::Incomplete);
            }
            let len = get_u32(buf, 4) as usize;
            if buf.len() - 8 < len {
                return Err(ProtoError::Incomplete);
            }
            let bytes = copy_range(buf, 8, 8 + len);
            match string_from_utf8(bytes) {
                Some(text) => Ok((ClientMessage::ClientCutText(text), 8 + len)),
                None => Err(ProtoError::InvalidText),
            }
        } else {
            Err(ProtoError::UnknownMessageType(t))
        }
    }
}

/// The entries of a SetEncodings list, four bytes each.
pub open spec fn encoding_list_bytes(es: Seq<EncodingType>) -> Seq<u8>
    decreases es.len(),
{
    if es.len() == 0 {
        Seq::empty()
    } else {
        encoding_list_bytes(es.drop_last()) + be32(es.last().spec_code() as u32)
    }
}

impl ClientMessageView {
    /// Messages that fit their wire form: a true-color pixel format, at most 65535
    /// encodings, cut text whose length fits in four bytes.
    pub open spec fn encodable(self) -> bool {
        match self {
            ClientMessageView::SetPixelFormat(pf) => pf.color_spec.is_color_format(),
            ClientMessageView::SetEncodings(es) => es.len() <= 0xffff,
            ClientMessageView::ClientCutText(t) => encode_utf8(t).len() <= u32::MAX,
            _ => true,
        }
    }

    /// Messages that decoding can give back: encodable, a key's class agreeing with its
    /// symbol, and only known pointer buttons.
    pub open spec fn canonical(self) -> bool {
        &&& self.encodable()
        &&& self matches ClientMessageView::KeyEvent(k) ==> k.key == keysym_of(k.keysym)
        &&& self matches ClientMessageView::PointerEvent(p) ==> p.pressed.bits & 0x7f
            == p.pressed.bits
    }

    /// The wire form: type byte, fields and padding.
    pub open spec fn spec_bytes(self) -> Seq<u8> {
        match self {
            ClientMessageView::SetPixelFormat(pf) => seq![0u8, 0u8, 0u8, 0u8] + pf.spec_bytes(),
            ClientMessageView::SetEncodings(es) => seq![2u8, 0u8] + be16(es.len() as u16)
                + encoding_list_bytes(es),
            ClientMessageView::FramebufferUpdateRequest(r) => seq![
                3u8,
                if r.incremental { 1u8 } else { 0u8 },
            ] + r.position.spec_bytes() + r.resolution.spec_bytes(),
            ClientMessageView::KeyEvent(k) => seq![
                4u8,
                if k.is_pressed { 1u8 } else { 0u8 },
                0u8,
                0u8,
            ] + be32(k.keysym),
            ClientMessageView::PointerEvent(p) => seq![5u8, p.pressed.bits]
                + p.position.spec_bytes(),
            ClientMessageView::ClientCutText(t) => seq![6u8, 0u8, 0u8, 0u8] + text_bytes(t),
        }
    }
}

impl ClientMessage {
    /// Appends the wire form of the message, as a client sends it.
    pub fn write_to(&self, out: &mut Vec<u8>)
        requires
            self@.encodable(),
        ensures
            final(out)@ == old(out)@ + self@.spec_bytes(),
    {
        match self {
            ClientMessage::SetPixelFormat(pf) => {
                put_u8(out, 0);
                put_u8(out, 0);
                put_u8(out, 0);
                put_u8(out, 0);
                pf.write_to(out);
            },
            ClientMessage::SetEncodings(es) => {
                put_u8(out, 2);
                put_u8(out, 0);
                put_u16(out, es.len() as u16);
                let ghost start = out@;
                let mut i: usize = 0;
                while i < es.len()
                    invariant
                        i <= es@.len(),
                        out@ == start + encoding_list_bytes(es@.subrange(0, i as int)),
                    decreases es@.len() - i,
                {
                    put_u32(out, es[i].code() as u32);
                    assert(es@.subrange(0, i + 1).drop_last() =~= es@.subrange(0, i as int));
                    i = i + 1;
                }
                assert(es@.subrange(0, i as int) =~= es@);
            },
            ClientMessage::FramebufferUpdateRequest(r) => {
                put_u8(out, 3);
                put_u8(out, if r.incremental { 1 } else { 0 });
                r.position.write_to(out);
                r.resolution.write_to(out);
            },
            ClientMessage::KeyEvent(k) => {
                put_u8(out, 4);
                put_u8(out, if k.is_pressed { 1 } else { 0 });
                put_u8(out, 0);
                put_u8(out, 0);
                put_u32(out, k.keysym);
            },
            ClientMessage::PointerEvent(p) => {
                put_u8(out, 5);
                put_u8(out, p.pressed.bits);
                p.position.write_to(out);
            },
            ClientMessage::ClientCutText(t) => {
                put_u8(out, 6);
                put_u8(out, 0);
                put_u8(out, 0);
                put_u8(out, 0);
                put_text(out, t.as_str());
            },
        }
        assert(out@ =~= old(out)@ + self@.spec_bytes());
    }
}

} // verus!
