//! Connection setup as a state machine, and the per-connection session state.
use vstd::prelude::*;

use crate::rfb::{
    framebuffer_update_bytes, message_result_view, parse_client_message, parse_version,
    transformed_rectangles, ClientInit, ClientMessage, ClientMessageView, FramebufferUpdate,
    PixelFormat, ProtoVersion, Resolution, SecurityResult, SecurityTypes, ServerInit,
};
use crate::wire::{be32, text_bytes, ProtoError};
use vstd::utf8::encode_utf8;

verus! {

/// Why connection setup failed.
#[derive(Debug, Clone, Copy, PartialEq, Eq, Structural)]
pub enum InitError {
    /// The client's version is older than the server's.
    UnsupportedVersion(ProtoVersion),
    /// The client chose a security type, by this code, that the server did not offer.
    UnsupportedSecurityType(u8),
    /// The client sent bytes that are not a well-formed message.
    Protocol { source: ProtoError },
}

/// What the server offers and announces during connection setup.
pub struct InitParams {
    /// Supported protocol version
    pub version: ProtoVersion,
    /// Supported security types
    pub sec_types: SecurityTypes,
    /// Server name
    pub name: String,
    /// Initial framebuffer width
    pub width: u16,
    /// Initial framebuffer height
    pub height: u16,
    /// Initial framebuffer pixel format
    pub format: PixelFormat,
}

impl InitParams {
    /// Parameters that can be put on the wire: one to 255 security types, a true-color
    /// format, and a name whose length fits in four bytes.
    pub open spec fn valid(&self) -> bool {
        &&& 0 < self.sec_types.0@.len() <= 255
        &&& self.format.color_spec.is_color_format()
        &&& encode_utf8(self.name@).len() <= u32::MAX
    }

    /// Whether the security type with code `code` is offered.
    pub open spec fn offers(&self, code: u8) -> bool {
        exists|i: int| 0 <= i < self.sec_types.0@.len() && (#[trigger] self.sec_types.0@[i]).spec_code() == code
    }

    /// The server's initialization message.
    pub open spec fn server_init_bytes(&self) -> Seq<u8> {
        Resolution { width: self.width, height: self.height }.spec_bytes()
            + self.format.spec_bytes() + text_bytes(self.name@)
    }
}

/// The reason sent to a client that chose a security type that was not offered.
pub open spec fn unsupported_reason() -> Seq<char> {
    "unsupported security type"@
}

/// Where connection setup stands: what the server waits for next.
#[derive(Debug, Clone, Copy, PartialEq, Eq, Structural)]
pub enum HandshakePhase {
    AwaitVersion,
    AwaitSecurityChoice,
    AwaitClientInit,
    Finished,
}

/// What to do after a step of connection setup.
pub enum HandshakeStep {
    /// Send these bytes, then read as many bytes as the handshake wants and step again.
    Continue(Vec<u8>),
    /// Send these bytes; the connection is set up.
    Done(Vec<u8>, ClientInit),
    /// Send these bytes, then close the connection.
    Failed(Vec<u8>, InitError),
}

pub enum HandshakeStepView {
    Continue(Seq<u8>),
    Done(Seq<u8>, ClientInit),
    Failed(Seq<u8>, InitError),
}

impl View for HandshakeStep {
    type V = HandshakeStepView;

    open spec fn view(&self) -> HandshakeStepView {
        match self {
            HandshakeStep::Continue(b) => HandshakeStepView::Continue(b@),
            HandshakeStep::Done(b, c) => HandshakeStepView::Done(b@, *c),
            HandshakeStep::Failed(b, e) => HandshakeStepView::Failed(b@, *e),
        }
    }
}

/// The bytes the server reads in each phase.
pub open spec fn wanted_in(phase: HandshakePhase) -> nat {
    match phase {
        HandshakePhase::AwaitVersion => 12,
        HandshakePhase::AwaitSecurityChoice => 1,
        HandshakePhase::AwaitClientInit => 1,
        HandshakePhase::Finished => 0,
    }
}

/// The next phase and the step that follow `input` read in `phase`.
///
/// A version older than the server's fails before anything more is sent. A security type
/// that was not offered is answered with a failure result and its reason. Otherwise the
/// server confirms security, reads the client's init and sends its own.
pub open spec fn handshake_step(phase: HandshakePhase, p: &InitParams, input: Seq<u8>) -> (
    HandshakePhase,
    HandshakeStepView,
) {
    match phase {
        HandshakePhase::AwaitVersion => match parse_version(input) {
            Err(e) => (
                HandshakePhase::Finished,
                HandshakeStepView::Failed(Seq::empty(), InitError::Protocol { source: e }),
            ),
            Ok((v, _)) => if v.rank() < p.version.rank() {
                (
                    HandshakePhase::Finished,
                    HandshakeStepView::Failed(Seq::empty(), InitError::UnsupportedVersion(v)),
                )
            } else {
                (
                    HandshakePhase::AwaitSecurityChoice,
                    HandshakeStepView::Continue(SecurityTypes::spec_bytes(p.sec_types.0@)),
                )
            },
        },
        HandshakePhase::AwaitSecurityChoice => if p.offers(input[0]) {
            (HandshakePhase::AwaitClientInit, HandshakeStepView::Continue(be32(0)))
        } else {
            (
                HandshakePhase::Finished,
                HandshakeStepView::Failed(
                    be32(1) + encode_utf8(unsupported_reason()),
                    InitError::UnsupportedSecurityType(input[0]),
                ),
            )
        },
        _ => (
            HandshakePhase::Finished,
            HandshakeStepView::Done(p.server_init_bytes(), ClientInit { shared: input[0] != 0 }),
        ),
    }
}

/// Server side of connection setup: version, security, then initialization.
pub struct Handshake {
    pub params: InitParams,
    pub phase: HandshakePhase,
}

fn unsupported_security_result() -> (r: SecurityResult)
    ensures
        r matches SecurityResult::Failure(s) && s@ == unsupported_reason(),
{
    let reason: &str = "unsupported security type";
    SecurityResult::Failure(reason.to_owned())
}

impl Handshake {
    /// Starts connection setup; the server sends its version first.
    pub fn start(params: InitParams) -> (r: (Handshake, Vec<u8>))
        requires
            params.valid(),
        ensures
            r.0.phase == HandshakePhase::AwaitVersion,
            r.0.params == params,
            r.1@ == params.version.spec_bytes(),
    {
        let mut out: Vec<u8> = Vec::new();
        params.version.write_to(&mut out);
        (Handshake { params, phase: HandshakePhase::AwaitVersion }, out)
    }

    /// How many bytes to read before the next step.
    pub fn wanted(&self) -> (r: usize)
        ensures
            r == wanted_in(self.phase),
    {
        match self.phase {
            HandshakePhase::AwaitVersion => 12,
            HandshakePhase::AwaitSecurityChoice => 1,
            HandshakePhase::AwaitClientInit => 1,
            HandshakePhase::Finished => 0,
        }
    }

    /// Takes the bytes read in the current phase and says what to send and what comes next.
    pub fn step(&mut self, input: &[u8]) -> (r: HandshakeStep)
        requires
            old(self).params.valid(),
            old(self).phase != HandshakePhase::Finished,
            input@.len() == wanted_in(old(self).phase),
        ensures
            final(self).params == old(self).params,
            (final(self).phase, r@) == handshake_step(old(self).phase, &old(self).params, input@),
    {
        match self.phase {
            HandshakePhase::AwaitVersion => {
                self.phase = HandshakePhase::Finished;
                match ProtoVersion::read_from(input) {
                    Err(e) => HandshakeStep::Failed(Vec::new(), InitError::Protocol { source: e }),
                    Ok((client_version, _)) => {
                        if client_version < self.params.version {
                            HandshakeStep::Failed(
                                Vec::new(),
                                InitError::UnsupportedVersion(client_version),
                            )
                        } else {
                            let mut out: Vec<u8> = Vec::new();
                            self.params.sec_types.write_to(&mut out);
                            self.phase = HandshakePhase::AwaitSecurityChoice;
                            HandshakeStep::Continue(out)
                        }
                    },
                }
            },
            HandshakePhase::AwaitSecurityChoice => {
                let choice = input[0];
                let mut out: Vec<u8> = Vec::new();
                if self.params.sec_types.offers(choice) {
                    SecurityResult::Success.write_to(&mut out);
                    self.phase = HandshakePhase::AwaitClientInit;
                    HandshakeStep::Continue(out)
                } else {
                    unsupported_security_result().write_to(&mut out);
                    self.phase = HandshakePhase::Finished;
                    HandshakeStep::Failed(out, InitError::UnsupportedSecurityType(choice))
                }
            },
            _ => {
                let client_init = ClientInit { shared: input[0] != 0 };
                let server_init = ServerInit::new(
                    self.params.width,
                    self.params.height,
                    self.params.name.clone(),
                    self.params.format,
                );
                let mut out: Vec<u8> = Vec::new();
                server_init.write_to(&mut out);
                self.phase = HandshakePhase::Finished;
                HandshakeStep::Done(out, client_init)
            },
        }
    }
}

/// The state of one established connection: the framebuffer size, the format in which
/// updates are produced, and the format the client last asked for.
#[derive(Debug, Clone, Copy, PartialEq, Eq, Structural)]
pub struct Session {
    pub width: u16,
    pub height: u16,
    pub input_format: PixelFormat,
    pub output_format: PixelFormat,
}

impl Session {
    /// Whether updates are re-laid before they are sent: only between two different RGB888
    /// formats.
    pub open spec fn spec_converts(&self) -> bool {
        self.input_format != self.output_format && self.input_format.spec_is_rgb_888()
            && self.output_format.spec_is_rgb_888()
    }

    /// The rectangles that go to the client for an update produced as `rs`.
    pub open spec fn outgoing(&self, rs: Seq<crate::rfb::RectangleView>) -> Seq<
        crate::rfb::RectangleView,
    > {
        if self.spec_converts() {
            transformed_rectangles(rs, self.input_format, self.output_format)
        } else {
            rs
        }
    }

    /// A new session; the client starts out with the format updates are produced in.
    pub fn new(width: u16, height: u16, format: PixelFormat) -> (r: Session)
        ensures
            r == (Session { width, height, input_format: format, output_format: format }),
    {
        Session { width, height, input_format: format, output_format: format }
    }

    /// Changes the format in which updates are produced.
    pub fn set_pixel_format(&mut self, format: PixelFormat)
        ensures
            *final(self) == (Session { input_format: format, ..*old(self) }),
    {
        self.input_format = format;
    }

    /// Changes the framebuffer size.
    pub fn set_resolution(&mut self, width: u16, height: u16)
        ensures
            *final(self) == (Session { width, height, ..*old(self) }),
    {
        self.width = width;
        self.height = height;
    }

    /// Decodes the client message at the start of `buf`. A SetPixelFormat message also
    /// becomes the format sent to the client; no other message changes the session.
    pub fn read_msg(&mut self, buf: &[u8]) -> (r: Result<(ClientMessage, usize), ProtoError>)
        ensures
            message_result_view(r) == parse_client_message(buf@),
            match parse_client_message(buf@) {
                Ok((ClientMessageView::SetPixelFormat(pf), _)) => *final(self) == (Session {
                    output_format: pf,
                    ..*old(self)
                }),
                _ => *final(self) == *old(self),
            },
    {
        let r = ClientMessage::read_from(buf);
        if let Ok((ClientMessage::SetPixelFormat(pf), _)) = &r {
            self.output_format = *pf;
        }
        r
    }

    /// Whether updates are re-laid before they are sent.
    pub fn converts(&self) -> (r: bool)
        ensures
            r == self.spec_converts(),
    {
        self.input_format != self.output_format && self.input_format.is_rgb_888()
            && self.output_format.is_rgb_888()
    }

    /// Appends the wire form of `update`, produced in the input format, as the client is to
    /// receive it: re-laid into the output format where both are different RGB888 formats,
    /// unchanged otherwise.
    pub fn send_fbu(&self, update: &FramebufferUpdate, out: &mut Vec<u8>)
        requires
            update.rectangles@.len() <= 0xffff,
        ensures
            final(out)@ == old(out)@ + framebuffer_update_bytes(self.outgoing(update@)),
    {
        if self.converts() {
            let converted = update.transform(&self.input_format, &self.output_format);
            proof {
                assert(converted.rectangles@.len() == converted@.len());
            }
            converted.write_to(out);
        } else {
            update.write_to(out);
        }
    }
}

/// Where the formats differ but the input is not RGB888, updates go out as produced.
pub proof fn lemma_send_passes_through(session: Session, rs: Seq<crate::rfb::RectangleView>)
    requires
        session.input_format != session.output_format,
        !session.input_format.spec_is_rgb_888(),
    ensures
        framebuffer_update_bytes(session.outgoing(rs)) == framebuffer_update_bytes(rs),
{
}

} // verus!
