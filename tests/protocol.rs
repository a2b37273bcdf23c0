use rfb::encodings::{Encoding, EncodingType, RawEncoding};
use rfb::keysym::Keysym;
use rfb::pixel_formats::rgb_888;
use rfb::rfb::{
    ClientInit, ClientMessage, ColorFormat, ColorMap, ColorSpecification, FramebufferUpdate,
    FramebufferUpdateRequest, KeyEvent, MouseButtons, PixelFormat, PointerEvent, Position,
    ProtoVersion, Rectangle, Resolution, SecurityResult, SecurityType, SecurityTypes, ServerInit,
};
use rfb::server::{Handshake, HandshakePhase, HandshakeStep, InitError, InitParams, Session};
use rfb::wire::ProtoError;

fn rgb(big_endian: bool, r: u8, g: u8, b: u8) -> PixelFormat {
    PixelFormat::new_colorformat(
        32,
        24,
        big_endian,
        ColorFormat {
            red_max: 255,
            green_max: 255,
            blue_max: 255,
            red_shift: r,
            green_shift: g,
            blue_shift: b,
        },
    )
}

fn rgb565() -> PixelFormat {
    PixelFormat::new_colorformat(
        16,
        16,
        false,
        ColorFormat {
            red_max: 31,
            green_max: 63,
            blue_max: 31,
            red_shift: 11,
            green_shift: 5,
            blue_shift: 0,
        },
    )
}

fn params(version: ProtoVersion, types: Vec<SecurityType>) -> InitParams {
    InitParams {
        version,
        sec_types: SecurityTypes(types),
        name: "vm".to_string(),
        width: 2,
        height: 1,
        format: rgb(false, 0, 8, 16),
    }
}

fn encode(m: &ClientMessage) -> Vec<u8> {
    let mut out = Vec::new();
    m.write_to(&mut out);
    out
}

fn update(pixels: Vec<u8>) -> FramebufferUpdate {
    let r = Rectangle::new(5, 6, 1, 1, Encoding::Raw(RawEncoding::new(pixels)));
    FramebufferUpdate::new(vec![r])
}

fn update_bytes(u: &FramebufferUpdate) -> Vec<u8> {
    let mut out = Vec::new();
    u.write_to(&mut out);
    out
}

#[test]
fn versions_are_strictly_ordered() {
    assert!(ProtoVersion::Rfb33 < ProtoVersion::Rfb37);
    assert!(ProtoVersion::Rfb37 < ProtoVersion::Rfb38);
    assert!(ProtoVersion::Rfb33 < ProtoVersion::Rfb38);
    assert!(!(ProtoVersion::Rfb38 < ProtoVersion::Rfb38));
    assert!(ProtoVersion::Rfb38 > ProtoVersion::Rfb33);
}

#[test]
fn version_lines_round_trip() {
    for v in [ProtoVersion::Rfb33, ProtoVersion::Rfb37, ProtoVersion::Rfb38] {
        let mut out = Vec::new();
        v.write_to(&mut out);
        assert_eq!(out.len(), 12);
        assert_eq!(ProtoVersion::read_from(&out), Ok((v, 12)));
    }
    let mut out = Vec::new();
    ProtoVersion::Rfb37.write_to(&mut out);
    assert_eq!(out, b"RFB 003.007\n".to_vec());
}

#[test]
fn bad_version_lines_are_rejected() {
    assert_eq!(ProtoVersion::read_from(b"RFB 003.005\n"), Err(ProtoError::InvalidVersion));
    assert_eq!(ProtoVersion::read_from(b"RFB 003.00"), Err(ProtoError::Incomplete));
}

#[test]
fn pixel_format_round_trips() {
    let pf = rgb(true, 16, 8, 0);
    let mut out = Vec::new();
    pf.write_to(&mut out);
    assert_eq!(out, vec![32, 24, 1, 1, 0, 255, 0, 255, 0, 255, 16, 8, 0, 0, 0, 0]);
    assert_eq!(PixelFormat::read_from(&out), Ok((pf, 16)));
    let mut cs = Vec::new();
    pf.color_spec.write_to(&mut cs);
    assert_eq!(ColorSpecification::read_from(&cs), Ok((pf.color_spec, 10)));
}

#[test]
fn color_map_formats_are_refused() {
    let bytes = [8u8, 8, 0, 0, 0, 0, 0, 0, 0, 0, 0, 0, 0, 0, 0, 0];
    assert_eq!(PixelFormat::read_from(&bytes), Err(ProtoError::ColorMapUnsupported));
    assert_eq!(ColorSpecification::read_from(&[0u8]), Err(ProtoError::ColorMapUnsupported));
    assert_eq!(PixelFormat::read_from(&bytes[..15]), Err(ProtoError::Incomplete));
}

#[test]
fn rgb_888_is_recognised() {
    assert!(rgb(false, 0, 8, 16).is_rgb_888());
    assert!(rgb(true, 24, 16, 8).is_rgb_888());
    assert!(!rgb565().is_rgb_888());
    assert!(!rgb(false, 4, 8, 16).is_rgb_888());
    assert!(!rgb(false, 32, 8, 16).is_rgb_888());
    let mut narrow = rgb(false, 0, 8, 16);
    narrow.color_spec = ColorSpecification::ColorFormat(ColorFormat {
        red_max: 127,
        green_max: 255,
        blue_max: 255,
        red_shift: 0,
        green_shift: 8,
        blue_shift: 16,
    });
    assert!(!narrow.is_rgb_888());
    let map = PixelFormat {
        bits_per_pixel: 32,
        depth: 24,
        big_endian: false,
        color_spec: ColorSpecification::ColorMap(ColorMap {}),
    };
    assert!(!map.is_rgb_888());
    assert!(rgb_888::valid_shift(24));
    assert!(!rgb_888::valid_shift(12));
}

#[test]
fn transform_into_same_format_changes_nothing() {
    let pf = rgb(false, 0, 8, 16);
    let pixels = vec![1u8, 2, 3, 4, 5, 6, 7, 8, 9];
    assert_eq!(rgb_888::transform(&pixels, &pf, &pf), pixels);
    let be = rgb(true, 8, 16, 24);
    assert_eq!(rgb_888::transform(&pixels, &be, &be), pixels);
}

#[test]
fn transform_swaps_red_and_blue() {
    let input = rgb(false, 0, 8, 16);
    let output = rgb(false, 16, 8, 0);
    let out = rgb_888::transform(&[0xAA, 0xBB, 0xCC, 0xDD], &input, &output);
    assert_eq!(out, vec![0xCC, 0xBB, 0xAA, 0xDD]);
}

#[test]
fn transform_into_big_endian() {
    let input = rgb(false, 0, 8, 16);
    let output = rgb(true, 0, 8, 16);
    let out = rgb_888::transform(&[0xAA, 0xBB, 0xCC, 0xDD, 0x11, 0x22], &input, &output);
    assert_eq!(out, vec![0xAA, 0xCC, 0xBB, 0xAA, 0x11, 0x22]);
}

#[test]
fn update_transform_keeps_rectangle_geometry() {
    let input = rgb(false, 0, 8, 16);
    let output = rgb(false, 16, 8, 0);
    let t = update(vec![0xAA, 0xBB, 0xCC, 0xDD]).transform(&input, &output);
    assert_eq!(update_bytes(&t), update_bytes(&update(vec![0xCC, 0xBB, 0xAA, 0xDD])));
    let r = Rectangle::new(1, 2, 3, 4, Encoding::Raw(RawEncoding::new(vec![1, 2, 3, 4])));
    let rt = r.transform(&input, &input);
    assert_eq!(rt.position, Position { x: 1, y: 2 });
    assert_eq!(rt.dimensions, Resolution { width: 3, height: 4 });
    assert_eq!(rt.data.encode(), &[1u8, 2, 3, 4][..]);
    assert_eq!(rt.data.get_type(), EncodingType::Raw);
}

#[test]
fn framebuffer_update_wire_form() {
    let bytes = update_bytes(&update(vec![1, 2, 3, 4]));
    assert_eq!(
        bytes,
        vec![0, 0, 0, 1, 0, 5, 0, 6, 0, 1, 0, 1, 0, 0, 0, 0, 1, 2, 3, 4]
    );
    let empty = FramebufferUpdate::new(Vec::new());
    assert_eq!(update_bytes(&empty), vec![0, 0, 0, 0]);
}

#[test]
fn handshake_succeeds_for_matching_version() {
    let (mut hs, greeting) = Handshake::start(params(
        ProtoVersion::Rfb38,
        vec![SecurityType::NoAuthentication],
    ));
    assert_eq!(greeting, b"RFB 003.008\n".to_vec());
    assert_eq!(hs.wanted(), 12);
    match hs.step(b"RFB 003.008\n") {
        HandshakeStep::Continue(out) => assert_eq!(out, vec![1, 1]),
        _ => panic!("version refused"),
    }
    assert_eq!(hs.wanted(), 1);
    match hs.step(&[1]) {
        HandshakeStep::Continue(out) => assert_eq!(out, vec![0, 0, 0, 0]),
        _ => panic!("security refused"),
    }
    match hs.step(&[1]) {
        HandshakeStep::Done(out, init) => {
            assert_eq!(init, ClientInit { shared: true });
            let mut expected = vec![0, 2, 0, 1];
            expected.extend_from_slice(&[32, 24, 0, 1, 0, 255, 0, 255, 0, 255, 0, 8, 16, 0, 0, 0]);
            expected.extend_from_slice(&[0, 0, 0, 2, b'v', b'm']);
            assert_eq!(out, expected);
        }
        _ => panic!("init refused"),
    }
    assert_eq!(hs.phase, HandshakePhase::Finished);
    assert_eq!(hs.wanted(), 0);
}

#[test]
fn handshake_accepts_newer_client() {
    let (mut hs, _) = Handshake::start(params(ProtoVersion::Rfb37, vec![SecurityType::NoAuthentication]));
    assert!(matches!(hs.step(b"RFB 003.008\n"), HandshakeStep::Continue(_)));
    assert_eq!(hs.phase, HandshakePhase::AwaitSecurityChoice);
}

#[test]
fn handshake_rejects_older_version() {
    let (mut hs, _) = Handshake::start(params(
        ProtoVersion::Rfb38,
        vec![SecurityType::NoAuthentication, SecurityType::VncAuthentication],
    ));
    match hs.step(b"RFB 003.003\n") {
        HandshakeStep::Failed(out, e) => {
            assert!(out.is_empty());
            assert_eq!(e, InitError::UnsupportedVersion(ProtoVersion::Rfb33));
        }
        _ => panic!("old version accepted"),
    }
    assert_eq!(hs.phase, HandshakePhase::Finished);
}

#[test]
fn handshake_rejects_garbled_version() {
    let (mut hs, _) = Handshake::start(params(ProtoVersion::Rfb38, vec![SecurityType::NoAuthentication]));
    match hs.step(b"HELLO WORLD\n") {
        HandshakeStep::Failed(out, e) => {
            assert!(out.is_empty());
            assert_eq!(e, InitError::Protocol { source: ProtoError::InvalidVersion });
        }
        _ => panic!("garbled version accepted"),
    }
}

#[test]
fn handshake_rejects_unoffered_security_type() {
    let (mut hs, _) = Handshake::start(params(
        ProtoVersion::Rfb38,
        vec![SecurityType::NoAuthentication, SecurityType::VncAuthentication],
    ));
    match hs.step(b"RFB 003.008\n") {
        HandshakeStep::Continue(out) => assert_eq!(out, vec![2, 1, 2]),
        _ => panic!("version refused"),
    }
    match hs.step(&[9]) {
        HandshakeStep::Failed(out, e) => {
            let reason = b"unsupported security type";
            let mut expected = vec![0, 0, 0, 1];
            expected.extend_from_slice(reason);
            assert_eq!(out, expected);
            assert_eq!(e, InitError::UnsupportedSecurityType(9));
        }
        _ => panic!("unknown security type accepted"),
    }
}

#[test]
fn handshake_rejects_known_but_unoffered_type() {
    let (mut hs, _) = Handshake::start(params(ProtoVersion::Rfb38, vec![SecurityType::NoAuthentication]));
    hs.step(b"RFB 003.008\n");
    assert!(matches!(
        hs.step(&[2]),
        HandshakeStep::Failed(_, InitError::UnsupportedSecurityType(2))
    ));
}

#[test]
fn security_messages_wire_form() {
    let mut out = Vec::new();
    SecurityTypes(vec![SecurityType::VncAuthentication, SecurityType::NoAuthentication])
        .write_to(&mut out);
    assert_eq!(out, vec![2, 2, 1]);
    let mut ok = Vec::new();
    SecurityResult::Success.write_to(&mut ok);
    assert_eq!(ok, vec![0, 0, 0, 0]);
    let mut bad = Vec::new();
    SecurityResult::Failure("no".to_string()).write_to(&mut bad);
    assert_eq!(bad, vec![0, 0, 0, 1, b'n', b'o']);
    assert_eq!(SecurityType::read_from(&[2]), Ok((SecurityType::VncAuthentication, 1)));
    assert_eq!(SecurityType::read_from(&[9]), Err(ProtoError::InvalidSecurityType(9)));
    assert!(SecurityTypes(vec![SecurityType::NoAuthentication]).offers(1));
    assert!(!SecurityTypes(vec![SecurityType::NoAuthentication]).offers(2));
}

#[test]
fn init_messages_wire_form() {
    assert_eq!(ClientInit::read_from(&[0]), Ok((ClientInit { shared: false }, 1)));
    assert_eq!(ClientInit::read_from(&[7]), Ok((ClientInit { shared: true }, 1)));
    assert_eq!(ClientInit::read_from(&[]), Err(ProtoError::Incomplete));
    let mut out = Vec::new();
    ClientInit { shared: true }.write_to(&mut out);
    assert_eq!(out, vec![1]);
    let mut si = Vec::new();
    ServerInit::new(640, 480, "é".to_string(), rgb(false, 0, 8, 16)).write_to(&mut si);
    assert_eq!(&si[..4], &[2, 128, 1, 224]);
    assert_eq!(&si[20..], &[0, 0, 0, 2, 0xc3, 0xa9]);
}

#[test]
fn set_pixel_format_round_trips() {
    let m = ClientMessage::SetPixelFormat(rgb(true, 0, 8, 16));
    let bytes = encode(&m);
    assert_eq!(bytes.len(), 20);
    match ClientMessage::read_from(&bytes) {
        Ok((ClientMessage::SetPixelFormat(pf), 20)) => assert_eq!(pf, rgb(true, 0, 8, 16)),
        _ => panic!("bad decode"),
    }
}

#[test]
fn set_encodings_round_trips() {
    let empty = encode(&ClientMessage::SetEncodings(Vec::new()));
    assert_eq!(empty, vec![2, 0, 0, 0]);
    match ClientMessage::read_from(&empty) {
        Ok((ClientMessage::SetEncodings(es), 4)) => assert!(es.is_empty()),
        _ => panic!("bad decode"),
    }
    let list = vec![EncodingType::Raw, EncodingType::CursorPseudo, EncodingType::ZRLE];
    let bytes = encode(&ClientMessage::SetEncodings(list.clone()));
    assert_eq!(&bytes[8..12], &[0xff, 0xff, 0xff, 0x11]);
    match ClientMessage::read_from(&bytes) {
        Ok((ClientMessage::SetEncodings(es), 16)) => assert_eq!(es, list),
        _ => panic!("bad decode"),
    }
}

#[test]
fn update_request_round_trips() {
    let req = FramebufferUpdateRequest {
        incremental: true,
        position: Position { x: 0, y: 65535 },
        resolution: Resolution { width: 1024, height: 768 },
    };
    let bytes = encode(&ClientMessage::FramebufferUpdateRequest(req));
    assert_eq!(bytes, vec![3, 1, 0, 0, 255, 255, 4, 0, 3, 0]);
    match ClientMessage::read_from(&bytes) {
        Ok((ClientMessage::FramebufferUpdateRequest(r), 10)) => assert_eq!(r, req),
        _ => panic!("bad decode"),
    }
}

#[test]
fn key_event_round_trips_at_extremes() {
    for raw in [0u32, 0x61, 0xff0d, u32::MAX] {
        let k = KeyEvent::new(raw % 2 == 0, raw);
        let bytes = encode(&ClientMessage::KeyEvent(k));
        assert_eq!(bytes.len(), 8);
        match ClientMessage::read_from(&bytes) {
            Ok((ClientMessage::KeyEvent(d), 8)) => assert_eq!(d, k),
            _ => panic!("bad decode"),
        }
    }
}

#[test]
fn pointer_event_round_trips() {
    let p = PointerEvent { position: Position { x: 10, y: 20 }, pressed: MouseButtons::from_bits_truncate(0x05) };
    let bytes = encode(&ClientMessage::PointerEvent(p));
    assert_eq!(bytes, vec![5, 5, 0, 10, 0, 20]);
    match ClientMessage::read_from(&bytes) {
        Ok((ClientMessage::PointerEvent(d), 6)) => assert_eq!(d, p),
        _ => panic!("bad decode"),
    }
    assert_eq!(PointerEvent::read_from(&bytes[1..]), Ok((p, 5)));
    let truncated = PointerEvent::read_from(&[0xff, 0, 1, 0, 2]).unwrap().0;
    assert_eq!(truncated.pressed.bits(), 0x7f);
}

#[test]
fn cut_text_round_trips() {
    for text in ["", "hello", "grüße €"] {
        let bytes = encode(&ClientMessage::ClientCutText(text.to_string()));
        assert_eq!(bytes.len(), 8 + text.len());
        match ClientMessage::read_from(&bytes) {
            Ok((ClientMessage::ClientCutText(t), n)) => {
                assert_eq!(t, text);
                assert_eq!(n, bytes.len());
            }
            _ => panic!("bad decode"),
        }
    }
}

#[test]
fn malformed_client_messages_are_rejected() {
    assert!(matches!(ClientMessage::read_from(&[]), Err(ProtoError::Incomplete)));
    assert!(matches!(ClientMessage::read_from(&[1]), Err(ProtoError::UnknownMessageType(1))));
    assert!(matches!(ClientMessage::read_from(&[7, 0, 0]), Err(ProtoError::UnknownMessageType(7))));
    assert!(matches!(
        ClientMessage::read_from(&[2, 0, 0, 2, 0, 0, 0, 99, 0, 0]),
        Err(ProtoError::UnknownEncodingType(99))
    ));
    assert!(matches!(
        ClientMessage::read_from(&[2, 0, 0, 2, 0, 0, 0, 0, 0, 0]),
        Err(ProtoError::Incomplete)
    ));
    assert!(matches!(
        ClientMessage::read_from(&[6, 0, 0, 0, 0, 0, 0, 2, 0xff, 0xfe]),
        Err(ProtoError::InvalidText)
    ));
    assert!(matches!(
        ClientMessage::read_from(&[6, 0, 0, 0, 0, 0, 0, 3, b'a']),
        Err(ProtoError::Incomplete)
    ));
    assert!(matches!(ClientMessage::read_from(&[4, 1, 0, 0, 0]), Err(ProtoError::Incomplete)));
    let mut colormap = vec![0u8; 20];
    colormap[4] = 8;
    assert!(matches!(ClientMessage::read_from(&colormap), Err(ProtoError::ColorMapUnsupported)));
}

#[test]
fn decoding_reports_consumed_length() {
    let mut bytes = encode(&ClientMessage::PointerEvent(PointerEvent {
        position: Position { x: 1, y: 2 },
        pressed: MouseButtons::from_bits_truncate(1),
    }));
    bytes.extend_from_slice(&[3, 0]);
    match ClientMessage::read_from(&bytes) {
        Ok((ClientMessage::PointerEvent(_), 6)) => {}
        _ => panic!("bad decode"),
    }
}

#[test]
fn session_records_requested_format() {
    let input = rgb(false, 0, 8, 16);
    let mut session = Session::new(4, 3, input);
    assert_eq!(session.output_format, input);
    let requested = rgb(true, 0, 8, 16);
    let bytes = encode(&ClientMessage::SetPixelFormat(requested));
    assert!(session.read_msg(&bytes).is_ok());
    assert_eq!(session.output_format, requested);
    assert_eq!(session.input_format, input);
    let before = session;
    let req = encode(&ClientMessage::FramebufferUpdateRequest(FramebufferUpdateRequest {
        incremental: false,
        position: Position { x: 0, y: 0 },
        resolution: Resolution { width: 4, height: 3 },
    }));
    assert!(session.read_msg(&req).is_ok());
    assert_eq!(session, before);
    assert!(session.read_msg(&[9]).is_err());
    assert_eq!(session, before);
    session.set_resolution(8, 6);
    assert_eq!((session.width, session.height), (8, 6));
    session.set_pixel_format(requested);
    assert_eq!(session.input_format, requested);
}

#[test]
fn send_fbu_passes_through_non_rgb_888_input() {
    let session = Session { width: 1, height: 1, input_format: rgb565(), output_format: rgb(false, 0, 8, 16) };
    assert!(!session.converts());
    let u = update(vec![0x12, 0x34, 0x56, 0x78]);
    let mut out = Vec::new();
    session.send_fbu(&u, &mut out);
    assert_eq!(out, update_bytes(&u));
}

#[test]
fn send_fbu_converts_between_rgb_888_formats() {
    let session = Session {
        width: 1,
        height: 1,
        input_format: rgb(false, 0, 8, 16),
        output_format: rgb(false, 16, 8, 0),
    };
    assert!(session.converts());
    let mut out = Vec::new();
    session.send_fbu(&update(vec![0xAA, 0xBB, 0xCC, 0xDD]), &mut out);
    assert_eq!(out, update_bytes(&update(vec![0xCC, 0xBB, 0xAA, 0xDD])));
    let same = Session::new(1, 1, rgb(false, 0, 8, 16));
    let mut plain = Vec::new();
    same.send_fbu(&update(vec![1, 2, 3, 4]), &mut plain);
    assert_eq!(plain, update_bytes(&update(vec![1, 2, 3, 4])));
}

#[test]
fn keysyms_are_classified() {
    assert_eq!(Keysym::from_raw(0x61), Keysym::Latin1(0x61));
    assert_eq!(Keysym::from_raw(0xe9), Keysym::Latin1(0xe9));
    assert_eq!(Keysym::from_raw(0xff0d), Keysym::Function(0x0d));
    assert_eq!(Keysym::from_raw(0x0100_20ac), Keysym::Unicode(0x20ac));
    assert_eq!(Keysym::from_raw(0), Keysym::Unmapped);
    assert_eq!(Keysym::from_raw(u32::MAX), Keysym::Unmapped);
}

#[test]
fn encoding_types_map_to_wire_numbers() {
    assert_eq!(EncodingType::Raw.code(), 0);
    assert_eq!(EncodingType::DesktopSizePseudo.code(), -223);
    assert_eq!(EncodingType::from_code(-239), Some(EncodingType::CursorPseudo));
    assert_eq!(EncodingType::from_code(3), None);
    for e in [EncodingType::Hextile, EncodingType::Tight, EncodingType::CursorWithAlpha] {
        assert_eq!(EncodingType::from_code(e.code()), Some(e));
    }
}

#[test]
fn mouse_buttons_drop_unknown_bits() {
    let b = MouseButtons::from_bits_truncate(0x83);
    assert_eq!(b.bits(), 0x03);
    assert!(b.contains(MouseButtons::from_bits_truncate(0x01)));
    assert!(!b.contains(MouseButtons::from_bits_truncate(0x04)));
}

#[test]
fn transform_there_and_back_restores_pixels() {
    let a = rgb(false, 0, 8, 16);
    let b = rgb(false, 16, 0, 8);
    let pixels = vec![0x10u8, 0x20, 0x30, 0x40, 0x50, 0x60, 0x70, 0x80, 0x90];
    let there = rgb_888::transform(&pixels, &a, &b);
    assert_eq!(&there[..4], &[0x20, 0x30, 0x10, 0x40]);
    assert_eq!(rgb_888::transform(&there, &b, &a), pixels);
}
