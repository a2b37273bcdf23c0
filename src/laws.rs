//! Facts that relate several operations of the library: the order of versions and its
//! effect on setup, decoding what was encoded, and re-laying pixels into their own format.
use vstd::prelude::*;

use crate::encodings::{lemma_encoding_type_code, EncodingType, EncodingView};
use crate::pixel_formats::rgb_888::{channel_indices, relaid_byte, transformed};
use crate::rfb::{
    encoding_list_bytes, parse_client_init, parse_client_message, parse_color_spec,
    parse_encoding_list, parse_pixel_format, parse_security_type, parse_version,
    spec_color_format_at, spec_pixel_format_at, spec_position_at, spec_resolution_at,
    transformed_rectangles, ClientInit, ClientMessageView, ColorSpecification, PixelFormat,
    Position, ProtoVersion, RectangleView, Resolution, SecurityType,
};
use crate::server::{handshake_step, HandshakePhase, HandshakeStepView, InitError, InitParams};
use crate::wire::{be16, be32, lemma_u16_at_be16, lemma_u32_at_be32, u32_at, ProtoError};
use std::cmp::Ordering;
use vstd::std_specs::cmp::PartialOrdSpec;
use vstd::utf8::{encode_utf8, encode_utf8_decode_utf8, encode_utf8_valid_utf8};

verus! {

/// Versions are strictly ordered: 3.3 before 3.7 before 3.8.
pub proof fn lemma_version_order()
    ensures
        ProtoVersion::Rfb33.partial_cmp_spec(&ProtoVersion::Rfb37) == Some(Ordering::Less),
        ProtoVersion::Rfb37.partial_cmp_spec(&ProtoVersion::Rfb38) == Some(Ordering::Less),
        ProtoVersion::Rfb33.partial_cmp_spec(&ProtoVersion::Rfb38) == Some(Ordering::Less),
        ProtoVersion::Rfb33.rank() < ProtoVersion::Rfb37.rank() < ProtoVersion::Rfb38.rank(),
{
}

/// Decoding a version's line gives that version back.
pub proof fn lemma_version_round_trip(v: ProtoVersion, rest: Seq<u8>)
    ensures
        parse_version(v.spec_bytes() + rest) == Ok::<(ProtoVersion, usize), ProtoError>((v, 12usize)),
{
    let s = v.spec_bytes() + rest;
    assert(s.subrange(0, 12) =~= v.spec_bytes());
    assert(s.subrange(0, 12)[10] == v.digit());
}

/// A client whose version is at least the server's goes on to security negotiation; an
/// older one fails with its version, and nothing more is sent.
pub proof fn lemma_version_decides_setup(p: &InitParams, v: ProtoVersion)
    ensures
        handshake_step(HandshakePhase::AwaitVersion, p, v.spec_bytes()).1 is Continue <==> p.version.rank()
            <= v.rank(),
        v.rank() < p.version.rank() ==> handshake_step(
            HandshakePhase::AwaitVersion,
            p,
            v.spec_bytes(),
        ) == (
            HandshakePhase::Finished,
            HandshakeStepView::Failed(Seq::empty(), InitError::UnsupportedVersion(v)),
        ),
{
    lemma_version_round_trip(v, Seq::empty());
    assert(v.spec_bytes() + Seq::<u8>::empty() =~= v.spec_bytes());
}

/// The sixteen bytes of a true-color pixel format, found at `i`, read back as that format.
pub proof fn lemma_pixel_format_at(pf: PixelFormat, s: Seq<u8>, i: int)
    requires
        pf.color_spec.is_color_format(),
        0 <= i,
        i + 16 <= s.len(),
        s.subrange(i, i + 16) == pf.spec_bytes(),
    ensures
        spec_pixel_format_at(s, i) == pf,
        s[i + 3] != 0,
{
    let b = pf.spec_bytes();
    assert forall|k: int| 0 <= k < 16 implies s[i + k] == b[k] by {
        assert(s.subrange(i, i + 16)[k] == s[i + k]);
    }
    if let ColorSpecification::ColorFormat(cf) = pf.color_spec {
        let cs = pf.color_spec.spec_bytes();
        assert(b[3] == cs[0]);
        assert(b[4] == cs[1] && b[5] == cs[2] && b[6] == cs[3] && b[7] == cs[4]);
        assert(b[8] == cs[5] && b[9] == cs[6] && b[10] == cs[7] && b[11] == cs[8]);
        assert(b[12] == cs[9]);
        assert(b[0] == pf.bits_per_pixel && b[1] == pf.depth);
        assert(b[2] == if pf.big_endian { 1u8 } else { 0u8 });
        assert(cs[7] == cf.red_shift && cs[8] == cf.green_shift && cs[9] == cf.blue_shift);
        assert(cs.subrange(1, 3) =~= be16(cf.red_max));
        assert(cs.subrange(3, 5) =~= be16(cf.green_max));
        assert(cs.subrange(5, 7) =~= be16(cf.blue_max));
        assert(s.subrange(i + 4, i + 6) =~= cs.subrange(1, 3));
        assert(s.subrange(i + 6, i + 8) =~= cs.subrange(3, 5));
        assert(s.subrange(i + 8, i + 10) =~= cs.subrange(5, 7));
        lemma_u16_at_be16(cf.red_max, s, i + 4);
        lemma_u16_at_be16(cf.green_max, s, i + 6);
        lemma_u16_at_be16(cf.blue_max, s, i + 8);
        assert(spec_color_format_at(s, i + 4) == cf);
    }
}

/// Decoding a true-color pixel format's wire form gives the format back.
pub proof fn lemma_pixel_format_round_trip(pf: PixelFormat, rest: Seq<u8>)
    requires
        pf.color_spec.is_color_format(),
    ensures
        parse_pixel_format(pf.spec_bytes() + rest) == Ok::<(PixelFormat, usize), ProtoError>((pf, 16usize)),
{
    let s = pf.spec_bytes() + rest;
    assert(s.subrange(0, 16) =~= pf.spec_bytes());
    lemma_pixel_format_at(pf, s, 0);
}

/// Decoding a true-color specification's wire form gives it back.
pub proof fn lemma_color_spec_round_trip(cs: ColorSpecification, rest: Seq<u8>)
    requires
        cs.is_color_format(),
    ensures
        parse_color_spec(cs.spec_bytes() + rest) == Ok::<(ColorSpecification, usize), ProtoError>((cs, 10usize)),
{
    let s = cs.spec_bytes() + rest;
    if let ColorSpecification::ColorFormat(cf) = cs {
        assert(s.subrange(1, 3) =~= be16(cf.red_max));
        assert(s.subrange(3, 5) =~= be16(cf.green_max));
        assert(s.subrange(5, 7) =~= be16(cf.blue_max));
        lemma_u16_at_be16(cf.red_max, s, 1);
        lemma_u16_at_be16(cf.green_max, s, 3);
        lemma_u16_at_be16(cf.blue_max, s, 5);
    }
}

/// Decoding a security type's code gives the type back.
pub proof fn lemma_security_type_round_trip(t: SecurityType, rest: Seq<u8>)
    ensures
        parse_security_type(seq![t.spec_code()] + rest) == Ok::<(SecurityType, usize), ProtoError>((t, 1usize)),
{
}

/// Decoding a client init's wire form gives it back.
pub proof fn lemma_client_init_round_trip(c: ClientInit, rest: Seq<u8>)
    ensures
        parse_client_init(c.spec_bytes() + rest) == Ok::<(ClientInit, usize), ProtoError>((c, 1usize)),
{
}

proof fn lemma_position_at(p: Position, s: Seq<u8>, i: int)
    requires
        0 <= i,
        i + 4 <= s.len(),
        s.subrange(i, i + 4) == p.spec_bytes(),
    ensures
        spec_position_at(s, i) == p,
{
    assert(s.subrange(i, i + 2) =~= s.subrange(i, i + 4).subrange(0, 2));
    assert(s.subrange(i + 2, i + 4) =~= s.subrange(i, i + 4).subrange(2, 4));
    assert(p.spec_bytes().subrange(0, 2) =~= be16(p.x));
    assert(p.spec_bytes().subrange(2, 4) =~= be16(p.y));
    lemma_u16_at_be16(p.x, s, i);
    lemma_u16_at_be16(p.y, s, i + 2);
}

proof fn lemma_resolution_at(r: Resolution, s: Seq<u8>, i: int)
    requires
        0 <= i,
        i + 4 <= s.len(),
        s.subrange(i, i + 4) == r.spec_bytes(),
    ensures
        spec_resolution_at(s, i) == r,
{
    assert(s.subrange(i, i + 2) =~= s.subrange(i, i + 4).subrange(0, 2));
    assert(s.subrange(i + 2, i + 4) =~= s.subrange(i, i + 4).subrange(2, 4));
    assert(r.spec_bytes().subrange(0, 2) =~= be16(r.width));
    assert(r.spec_bytes().subrange(2, 4) =~= be16(r.height));
    lemma_u16_at_be16(r.width, s, i);
    lemma_u16_at_be16(r.height, s, i + 2);
}

proof fn lemma_encoding_list_len(es: Seq<EncodingType>)
    ensures
        encoding_list_bytes(es).len() == 4 * es.len(),
    decreases es.len(),
{
    if es.len() > 0 {
        lemma_encoding_list_len(es.drop_last());
    }
}

proof fn lemma_encoding_list_entry(es: Seq<EncodingType>, j: int)
    requires
        0 <= j < es.len(),
    ensures
        encoding_list_bytes(es).subrange(4 * j, 4 * j + 4) == be32(es[j].spec_code() as u32),
    decreases es.len(),
{
    let init = es.drop_last();
    lemma_encoding_list_len(init);
    let b = encoding_list_bytes(es);
    if j < init.len() {
        lemma_encoding_list_entry(init, j);
        assert(b.subrange(4 * j, 4 * j + 4) =~= encoding_list_bytes(init).subrange(4 * j, 4 * j + 4));
    } else {
        assert(b.subrange(4 * j, 4 * j + 4) =~= be32(es.last().spec_code() as u32));
    }
}

proof fn lemma_encoding_list_parses(es: Seq<EncodingType>, s: Seq<u8>, k: nat)
    requires
        k <= es.len(),
        s.len() >= 4 + 4 * es.len(),
        s.subrange(4, 4 + 4 * es.len() as int) == encoding_list_bytes(es),
    ensures
        parse_encoding_list(s, k) == Ok::<Seq<EncodingType>, ProtoError>(es.subrange(0, k as int)),
    decreases k,
{
    if k > 0 {
        let j = (k - 1) as int;
        lemma_encoding_list_parses(es, s, (k - 1) as nat);
        let at = 4 + 4 * j;
        let sub = encoding_list_bytes(es).subrange(4 * j, 4 * j + 4);
        lemma_encoding_list_entry(es, j);
        let whole = s.subrange(4, 4 + 4 * es.len() as int);
        assert(s[at] == whole[4 * j] && s[at + 1] == whole[4 * j + 1]);
        assert(s[at + 2] == whole[4 * j + 2] && s[at + 3] == whole[4 * j + 3]);
        assert(s.subrange(at, at + 4) =~= sub);
        let c = es[j].spec_code();
        lemma_u32_at_be32(c as u32, s, at);
        assert(((c as u32) as i32) == c) by (bit_vector);
        lemma_encoding_type_code(es[j]);
        assert(es.subrange(0, j).push(es[j]) =~= es.subrange(0, k as int));
    } else {
        assert(es.subrange(0, 0) =~= Seq::<EncodingType>::empty());
    }
}

proof fn lemma_set_encodings_round_trip(es: Seq<EncodingType>, rest: Seq<u8>)
    requires
        es.len() <= 0xffff,
    ensures
        ({
            let m = ClientMessageView::SetEncodings(es);
            parse_client_message(m.spec_bytes() + rest) == Ok::<(ClientMessageView, usize), ProtoError>(
                (m, m.spec_bytes().len() as usize),
            )
        }),
{
    let m = ClientMessageView::SetEncodings(es);
    let s = m.spec_bytes() + rest;
    lemma_encoding_list_len(es);
    assert(s.subrange(2, 4) =~= be16(es.len() as u16));
    lemma_u16_at_be16(es.len() as u16, s, 2);
    assert(s.subrange(4, 4 + 4 * es.len() as int) =~= encoding_list_bytes(es));
    lemma_encoding_list_parses(es, s, es.len());
    assert(es.subrange(0, es.len() as int) =~= es);
}

proof fn lemma_cut_text_round_trip(t: Seq<char>, rest: Seq<u8>)
    requires
        encode_utf8(t).len() <= u32::MAX,
    ensures
        ({
            let m = ClientMessageView::ClientCutText(t);
            parse_client_message(m.spec_bytes() + rest) == Ok::<(ClientMessageView, usize), ProtoError>(
                (m, m.spec_bytes().len() as usize),
            )
        }),
{
    let m = ClientMessageView::ClientCutText(t);
    let s = m.spec_bytes() + rest;
    let e = encode_utf8(t);
    assert(s.subrange(4, 8) =~= be32(e.len() as u32));
    lemma_u32_at_be32(e.len() as u32, s, 4);
    assert(u32_at(s, 4) as int == e.len());
    assert(s.subrange(8, 8 + e.len() as int) =~= e);
    encode_utf8_valid_utf8(t);
    encode_utf8_decode_utf8(t);
}

/// Decoding the wire form of a message that decoding can give back yields that message and
/// the length of its wire form.
pub proof fn lemma_client_message_round_trip(m: ClientMessageView, rest: Seq<u8>)
    requires
        m.canonical(),
    ensures
        parse_client_message(m.spec_bytes() + rest) == Ok::<(ClientMessageView, usize), ProtoError>((m, m.spec_bytes().len() as usize)),
{
    let s = m.spec_bytes() + rest;
    match m {
        ClientMessageView::SetPixelFormat(pf) => {
            assert(s.subrange(4, 20) =~= pf.spec_bytes());
            lemma_pixel_format_at(pf, s, 4);
        },
        ClientMessageView::SetEncodings(es) => {
            lemma_set_encodings_round_trip(es, rest);
        },
        ClientMessageView::FramebufferUpdateRequest(r) => {
            assert(s.subrange(2, 6) =~= r.position.spec_bytes());
            assert(s.subrange(6, 10) =~= r.resolution.spec_bytes());
            lemma_position_at(r.position, s, 2);
            lemma_resolution_at(r.resolution, s, 6);
        },
        ClientMessageView::KeyEvent(k) => {
            assert(s.subrange(4, 8) =~= be32(k.keysym));
            lemma_u32_at_be32(k.keysym, s, 4);
        },
        ClientMessageView::PointerEvent(p) => {
            assert(s.subrange(2, 6) =~= p.position.spec_bytes());
            lemma_position_at(p.position, s, 2);
        },
        ClientMessageView::ClientCutText(t) => {
            lemma_cut_text_round_trip(t, rest);
        },
    }
}

/// For a depth-24 format whose shifts stay inside a 32-bit pixel, RGB888 means exactly:
/// 32 bits per pixel, every channel maximum 255, every shift a multiple of 8. A color-map
/// format is never RGB888.
pub proof fn lemma_rgb_888_characterized(pf: PixelFormat)
    ensures
        pf.color_spec is ColorMap ==> !pf.spec_is_rgb_888(),
        pf.depth == 24 ==> match pf.color_spec {
            ColorSpecification::ColorFormat(cf) => cf.red_shift < 32 && cf.green_shift < 32
                && cf.blue_shift < 32 ==> (pf.spec_is_rgb_888() <==> (pf.bits_per_pixel == 32
                && cf.red_max == 255 && cf.green_max == 255 && cf.blue_max == 255 && cf.red_shift
                % 8 == 0 && cf.green_shift % 8 == 0 && cf.blue_shift % 8 == 0)),
            ColorSpecification::ColorMap(_) => true,
        },
{
}

/// Re-laying pixels from a format into the same RGB888 format changes no byte.
pub proof fn lemma_transform_identity(pixels: Seq<u8>, pf: PixelFormat)
    requires
        pf.spec_is_rgb_888(),
    ensures
        transformed(pixels, pf, pf) == pixels,
{
    assert(transformed(pixels, pf, pf) =~= pixels);
}

/// Re-laying an update from a format into the same RGB888 format leaves every rectangle as
/// it was.
pub proof fn lemma_update_transform_identity(rs: Seq<RectangleView>, pf: PixelFormat)
    requires
        pf.spec_is_rgb_888(),
    ensures
        transformed_rectangles(rs, pf, pf) == rs,
{
    assert forall|j: int| 0 <= j < rs.len() implies #[trigger] transformed_rectangles(rs, pf, pf)[j]
        == rs[j] by {
        match rs[j].data {
            EncodingView::Raw(p) => lemma_transform_identity(p, pf),
        }
    }
    assert(transformed_rectangles(rs, pf, pf) =~= rs);
}

/// A rectangle whose payload fits the input format still fits the output format after
/// its pixels are re-laid: both are four bytes per pixel.
pub proof fn lemma_transform_keeps_payload_size(r: RectangleView, input: PixelFormat, output: PixelFormat)
    requires
        input.spec_is_rgb_888(),
        output.spec_is_rgb_888(),
        r.payload_fits(input),
    ensures
        r.transformed(input, output).payload_fits(output),
{
}

/// The three channels of an RGB888 format sit in three different bytes of the pixel.
pub open spec fn separate_channels(pf: PixelFormat) -> bool {
    let (r, g, b) = channel_indices(pf);
    r != g && g != b && r != b
}

proof fn lemma_relay_back(
    pixels: Seq<u8>,
    t: Seq<u8>,
    base: int,
    k: int,
    ia: (int, int, int),
    ib: (int, int, int),
)
    requires
        0 <= base,
        base + 4 <= pixels.len(),
        base + 4 <= t.len(),
        0 <= k < 4,
        0 <= ia.0 < 4 && 0 <= ia.1 < 4 && 0 <= ia.2 < 4,
        0 <= ib.0 < 4 && 0 <= ib.1 < 4 && 0 <= ib.2 < 4,
        ia.0 != ia.1 && ia.1 != ia.2 && ia.0 != ia.2,
        ib.0 != ib.1 && ib.1 != ib.2 && ib.0 != ib.2,
        ia.0 + ia.1 + ia.2 == ib.0 + ib.1 + ib.2,
        t[base + 0] == relaid_byte(pixels, base, 0, ia, ib),
        t[base + 1] == relaid_byte(pixels, base, 1, ia, ib),
        t[base + 2] == relaid_byte(pixels, base, 2, ia, ib),
        t[base + 3] == relaid_byte(pixels, base, 3, ia, ib),
    ensures
        relaid_byte(t, base, k, ib, ia) == pixels[base + k],
{
}

/// Re-laying pixels into another RGB888 format and back restores every byte, where both
/// formats give each channel a byte of its own and leave the same byte unused.
pub proof fn lemma_transform_round_trip(pixels: Seq<u8>, a: PixelFormat, b: PixelFormat)
    requires
        a.spec_is_rgb_888(),
        b.spec_is_rgb_888(),
        separate_channels(a),
        separate_channels(b),
        channel_indices(a).0 + channel_indices(a).1 + channel_indices(a).2 == channel_indices(
            b,
        ).0 + channel_indices(b).1 + channel_indices(b).2,
    ensures
        transformed(transformed(pixels, a, b), b, a) == pixels,
{
    let t = transformed(pixels, a, b);
    let u = transformed(t, b, a);
    let ia = channel_indices(a);
    let ib = channel_indices(b);
    let whole = pixels.len() - pixels.len() % 4;
    assert(0 <= ia.0 < 4 && 0 <= ia.1 < 4 && 0 <= ia.2 < 4);
    assert(0 <= ib.0 < 4 && 0 <= ib.1 < 4 && 0 <= ib.2 < 4);
    assert forall|j: int| 0 <= j < pixels.len() implies u[j] == pixels[j] by {
        if j < whole {
            let base = j - j % 4;
            let k = j % 4;
            assert(base % 4 == 0 && base + 4 <= whole);
            assert((base + 1) % 4 == 1 && (base + 2) % 4 == 2 && (base + 3) % 4 == 3);
            assert(t[base + 0] == relaid_byte(pixels, base, 0, ia, ib));
            assert(t[base + 1] == relaid_byte(pixels, base, 1, ia, ib));
            assert(t[base + 2] == relaid_byte(pixels, base, 2, ia, ib));
            assert(t[base + 3] == relaid_byte(pixels, base, 3, ia, ib));
            lemma_relay_back(pixels, t, base, k, ia, ib);
        }
    }
    assert(u =~= pixels);
}

} // verus!
