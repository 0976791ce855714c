//! Setting up a session, as a machine that is moved by events.
//!
//! The machine decides what is sent and what is waited for; the caller does
//! the sending and the waiting and reports what happened. The steps are:
//! name this client, agree on a protocol version, ask how many controllers
//! there are, ask for each one's description, pick the keyboard, put it into
//! the mode in which it shows what is sent, and map its keys.

use vstd::prelude::*;
use crate::controller::{
    controller_of, parse_controller_data, texts, ControllerDescriptor, ControllerView,
    CLIENT_PROTOCOL_MAX,
};
use crate::directory::{select_keyboard, selected, views};
use crate::error::{ConnectError, ProtocolError};
use crate::le::{push_u32_le, u32_at, u32_from_le, u32_le};
use crate::packet::{
    encode_header, frame, Packet, PacketView, PACKET_ID_REQUEST_CONTROLLER_COUNT,
    PACKET_ID_REQUEST_CONTROLLER_DATA, PACKET_ID_REQUEST_PROTOCOL_VERSION,
    PACKET_ID_SET_CLIENT_NAME, PACKET_ID_SET_CUSTOM_MODE,
};
use crate::session::{session_on, Keyboard, KeyboardView};

verus! {

/// How many packets are read for the reply to the version request before
/// version 0 is assumed.
pub const VERSION_ATTEMPTS: u32 = 3;

/// How many packets are read for any other reply before the connection is
/// given up.
pub const REPLY_ATTEMPTS: u32 = 5;

/// Where the handshake stands. In a phase whose name begins with
/// `Requesting`, and in `Naming` and `SettingMode`, something is being sent;
/// in one whose name begins with `Awaiting`, a reply is waited for.
#[derive(Clone, Copy, Debug, PartialEq, Eq, Structural)]
pub enum Phase {
    Naming,
    RequestingVersion,
    AwaitingVersion,
    RequestingCount,
    AwaitingCount,
    RequestingController,
    AwaitingController,
    SettingMode,
}

/// What the caller reports.
#[derive(Debug)]
pub enum Event {
    /// What was to be sent has been sent.
    Sent,
    /// A packet has arrived.
    Packet(Packet),
    /// No packet arrived in time.
    TimedOut,
    /// What arrived is no packet.
    Garbled(ProtocolError),
}

/// An event as a mathematical value.
pub enum EventView {
    Sent,
    Packet(PacketView),
    TimedOut,
    Garbled(ProtocolError),
}

impl View for Event {
    type V = EventView;

    open spec fn view(&self) -> EventView {
        match *self {
            Event::Sent => EventView::Sent,
            Event::Packet(p) => EventView::Packet(p@),
            Event::TimedOut => EventView::TimedOut,
            Event::Garbled(e) => EventView::Garbled(e),
        }
    }
}

/// A handshake in progress.
#[derive(Debug)]
pub struct Handshake {
    phase: Phase,
    mismatches: u32,
    version: u32,
    count: u32,
    next: u32,
    devices: Vec<ControllerDescriptor>,
    selected: Option<ControllerDescriptor>,
    preferred_vendor: String,
}

/// A handshake in progress as a mathematical value.
pub struct HandshakeView {
    pub phase: Phase,
    /// The packets with another id that were read while waiting for the
    /// current reply.
    pub mismatches: u32,
    /// The protocol version agreed on.
    pub version: u32,
    /// The number of controllers.
    pub count: u32,
    /// The index of the controller whose description is asked for.
    pub next: u32,
    /// The descriptions received.
    pub devices: Seq<ControllerView>,
    /// The keyboard picked.
    pub selected: Option<ControllerView>,
    pub preferred_vendor: Seq<char>,
}

/// What the caller is to do next, or how the handshake ended.
#[derive(Debug)]
pub enum Step {
    /// Send these bytes, then report `Sent`.
    Send(Handshake, Vec<u8>),
    /// Read one packet and report it, or that none came, or that what came
    /// is no packet.
    Receive(Handshake),
    /// The session is set up.
    Connected(Keyboard),
    /// The connection is given up.
    Failed(ConnectError),
}

/// A step as a mathematical value.
pub enum StepView {
    Send(HandshakeView, Seq<u8>),
    Receive(HandshakeView),
    Connected(KeyboardView),
    Failed(ConnectError),
}

impl View for Step {
    type V = StepView;

    open spec fn view(&self) -> StepView {
        match *self {
            Step::Send(h, bytes) => StepView::Send(h@, bytes@),
            Step::Receive(h) => StepView::Receive(h@),
            Step::Connected(k) => StepView::Connected(k@),
            Step::Failed(e) => StepView::Failed(e),
        }
    }
}

/// The name by which this client is known to the daemon, `icue-kb-games`,
/// with the zero byte that ends it.
pub open spec fn client_name() -> Seq<u8> {
    seq![
        0x69u8, 0x63u8, 0x75u8, 0x65u8, 0x2Du8, 0x6Bu8, 0x62u8, 0x2Du8, 0x67u8, 0x61u8, 0x6Du8,
        0x65u8, 0x73u8, 0x00u8,
    ]
}

/// The packet that tells the daemon this client's name.
pub open spec fn name_packet() -> Seq<u8> {
    frame(0, PACKET_ID_SET_CLIENT_NAME, client_name())
}

/// The packet that proposes this client's highest protocol version.
pub open spec fn version_request() -> Seq<u8> {
    frame(0, PACKET_ID_REQUEST_PROTOCOL_VERSION, u32_le(CLIENT_PROTOCOL_MAX))
}

/// The packet that asks for the number of controllers.
pub open spec fn count_request() -> Seq<u8> {
    frame(0, PACKET_ID_REQUEST_CONTROLLER_COUNT, Seq::empty())
}

/// The packet that asks for the description of controller `index`. From
/// version 1 on it states the version in which the description is wanted.
pub open spec fn controller_request(index: u32, version: u32) -> Seq<u8> {
    frame(
        index,
        PACKET_ID_REQUEST_CONTROLLER_DATA,
        if version >= 1 {
            u32_le(version)
        } else {
            Seq::empty()
        },
    )
}

/// The packet that puts controller `index` into the mode in which it shows
/// what clients send.
pub open spec fn custom_mode_request(index: u32) -> Seq<u8> {
    frame(index, PACKET_ID_SET_CUSTOM_MODE, Seq::empty())
}

/// The number that a reply's payload begins with.
pub open spec fn leading_u32(payload: Seq<u8>) -> Option<u32> {
    if payload.len() >= 4 {
        Some(u32_at(payload, 0))
    } else {
        None
    }
}

/// The handshake as it begins.
pub open spec fn initial(preferred_vendor: Seq<char>) -> HandshakeView {
    HandshakeView {
        phase: Phase::Naming,
        mismatches: 0,
        version: 0,
        count: 0,
        next: 0,
        devices: Seq::empty(),
        selected: None,
        preferred_vendor,
    }
}

/// How the handshake ends on an event that its phase does not call for.
pub open spec fn out_of_turn() -> StepView {
    StepView::Failed(ConnectError::Protocol(ProtocolError::UnexpectedReply))
}

/// After something was sent in phase `h.phase`: wait for the reply in
/// `awaiting`.
pub open spec fn await_reply(h: HandshakeView, awaiting: Phase) -> StepView {
    StepView::Receive(HandshakeView { phase: awaiting, mismatches: 0, ..h })
}

/// With the version settled: ask for the number of controllers.
pub open spec fn ask_count(h: HandshakeView, version: u32) -> StepView {
    StepView::Send(
        HandshakeView { phase: Phase::RequestingCount, version, ..h },
        count_request(),
    )
}

/// After a packet with another id than the one waited for: read on, unless
/// `attempts` packets have been read.
pub open spec fn read_on(h: HandshakeView, attempts: u32) -> Option<StepView> {
    if h.mismatches + 1 < attempts {
        Some(StepView::Receive(HandshakeView { mismatches: (h.mismatches + 1) as u32, ..h }))
    } else {
        None
    }
}

/// With the description `device` of controller `h.next` received: ask for
/// the next one, or, if it was the last, pick the keyboard and put it into
/// custom mode.
pub open spec fn with_controller(h: HandshakeView, device: ControllerView) -> StepView {
    let devices = h.devices.push(device);
    if h.next + 1 < h.count {
        StepView::Send(
            HandshakeView {
                phase: Phase::RequestingController,
                next: (h.next + 1) as u32,
                devices,
                ..h
            },
            controller_request((h.next + 1) as u32, h.version),
        )
    } else {
        match selected(devices, h.preferred_vendor) {
            None => StepView::Failed(ConnectError::NoKeyboard),
            Some(k) => StepView::Send(
                HandshakeView {
                    phase: Phase::SettingMode,
                    devices: Seq::empty(),
                    selected: Some(devices[k]),
                    ..h
                },
                custom_mode_request(devices[k].index),
            ),
        }
    }
}

/// What follows a reply in the phase `AwaitingVersion`. The daemon's
/// version counts up to this client's highest. If the reply does not come,
/// version 0 is assumed and the handshake goes on.
pub open spec fn on_version_reply(h: HandshakeView, e: EventView) -> StepView {
    match e {
        EventView::Packet(p) => if p.packet_id == PACKET_ID_REQUEST_PROTOCOL_VERSION {
            match leading_u32(p.payload) {
                None => StepView::Failed(ConnectError::Protocol(ProtocolError::Truncated)),
                Some(v) => ask_count(
                    h,
                    if v < CLIENT_PROTOCOL_MAX {
                        v
                    } else {
                        CLIENT_PROTOCOL_MAX
                    },
                ),
            }
        } else {
            match read_on(h, VERSION_ATTEMPTS) {
                Some(step) => step,
                None => ask_count(h, 0),
            }
        },
        EventView::TimedOut => ask_count(h, 0),
        EventView::Garbled(error) => StepView::Failed(ConnectError::Protocol(error)),
        EventView::Sent => out_of_turn(),
    }
}

/// What follows a reply in the phase `AwaitingCount`.
pub open spec fn on_count_reply(h: HandshakeView, e: EventView) -> StepView {
    match e {
        EventView::Packet(p) => if p.packet_id == PACKET_ID_REQUEST_CONTROLLER_COUNT {
            match leading_u32(p.payload) {
                None => StepView::Failed(ConnectError::Protocol(ProtocolError::Truncated)),
                Some(count) => if count == 0 {
                    StepView::Failed(ConnectError::NoControllers)
                } else {
                    StepView::Send(
                        HandshakeView {
                            phase: Phase::RequestingController,
                            count,
                            next: 0,
                            devices: Seq::empty(),
                            ..h
                        },
                        controller_request(0, h.version),
                    )
                },
            }
        } else {
            match read_on(h, REPLY_ATTEMPTS) {
                Some(step) => step,
                None => out_of_turn(),
            }
        },
        EventView::TimedOut => StepView::Failed(ConnectError::Transport),
        EventView::Garbled(error) => StepView::Failed(ConnectError::Protocol(error)),
        EventView::Sent => out_of_turn(),
    }
}

/// What follows a reply in the phase `AwaitingController`.
pub open spec fn on_controller_reply(h: HandshakeView, e: EventView) -> StepView {
    match e {
        EventView::Packet(p) => if p.packet_id == PACKET_ID_REQUEST_CONTROLLER_DATA {
            match controller_of(p.payload, 0, h.next, h.version) {
                None => StepView::Failed(ConnectError::MalformedDevice),
                Some(device) => with_controller(h, device),
            }
        } else {
            match read_on(h, REPLY_ATTEMPTS) {
                Some(step) => step,
                None => out_of_turn(),
            }
        },
        EventView::TimedOut => StepView::Failed(ConnectError::Transport),
        EventView::Garbled(error) => StepView::Failed(ConnectError::Protocol(error)),
        EventView::Sent => out_of_turn(),
    }
}

/// What follows once the keyboard is in custom mode: the session, unless
/// none of the keyboard's LEDs identifies a key.
pub open spec fn on_mode_set(h: HandshakeView) -> StepView {
    match h.selected {
        None => out_of_turn(),
        Some(device) => if session_on(device).keys == Map::<char, u32>::empty() {
            StepView::Failed(ConnectError::NoUsableLeds)
        } else {
            StepView::Connected(session_on(device))
        },
    }
}

/// The step that follows event `e` in the handshake `h`.
pub open spec fn next_step(h: HandshakeView, e: EventView) -> StepView {
    match h.phase {
        Phase::Naming => if e is Sent {
            StepView::Send(
                HandshakeView { phase: Phase::RequestingVersion, ..h },
                version_request(),
            )
        } else {
            out_of_turn()
        },
        Phase::RequestingVersion => if e is Sent {
            await_reply(h, Phase::AwaitingVersion)
        } else {
            out_of_turn()
        },
        Phase::AwaitingVersion => on_version_reply(h, e),
        Phase::RequestingCount => if e is Sent {
            await_reply(h, Phase::AwaitingCount)
        } else {
            out_of_turn()
        },
        Phase::AwaitingCount => on_count_reply(h, e),
        Phase::RequestingController => if e is Sent {
            await_reply(h, Phase::AwaitingController)
        } else {
            out_of_turn()
        },
        Phase::AwaitingController => on_controller_reply(h, e),
        Phase::SettingMode => if e is Sent {
            on_mode_set(h)
        } else {
            out_of_turn()
        },
    }
}

/// Builds a packet from its fields and payload.
fn encode_packet(device_index: u32, packet_id: u32, payload: Vec<u8>) -> (bytes: Vec<u8>)
    requires
        payload@.len() <= u32::MAX,
    ensures
        bytes@ == frame(device_index, packet_id, payload@),
{
    let mut payload = payload;
    let mut bytes = encode_header(device_index, packet_id, payload.len() as u32);
    let ghost head = bytes@;
    let ghost body = payload@;
    bytes.append(&mut payload);
    assert(bytes@ =~= head + body);
    bytes
}

/// Builds the packet that asks for the description of a controller.
fn encode_controller_request(index: u32, version: u32) -> (bytes: Vec<u8>)
    ensures
        bytes@ == controller_request(index, version),
{
    let mut payload: Vec<u8> = Vec::new();
    if version >= 1 {
        push_u32_le(&mut payload, version);
        assert(payload@ =~= u32_le(version));
    }
    encode_packet(index, PACKET_ID_REQUEST_CONTROLLER_DATA, payload)
}

/// Reads the number that a reply's payload begins with.
fn read_leading_u32(payload: &Vec<u8>) -> (v: Option<u32>)
    ensures
        v == leading_u32(payload@),
{
    if payload.len() >= 4 {
        Some(u32_from_le(payload[0], payload[1], payload[2], payload[3]))
    } else {
        None
    }
}

impl View for Handshake {
    type V = HandshakeView;

    closed spec fn view(&self) -> HandshakeView {
        HandshakeView {
            phase: self.phase,
            mismatches: self.mismatches,
            version: self.version,
            count: self.count,
            next: self.next,
            devices: views(self.devices@),
            selected: match self.selected {
                Some(device) => Some(device@),
                None => None,
            },
            preferred_vendor: self.preferred_vendor@,
        }
    }
}

impl Keyboard {
    /// Begins the handshake: returns the machine and the first bytes to
    /// send, which tell the daemon this client's name. Among several
    /// keyboards the handshake will pick the first whose vendor or name
    /// holds `preferred_vendor`.
    pub fn connect(preferred_vendor: &str) -> (r: (Handshake, Vec<u8>))
        ensures
            r.0@ == initial(preferred_vendor@),
            r.1@ == name_packet(),
    {
        let mut payload: Vec<u8> = Vec::new();
        payload.push(0x69);
        payload.push(0x63);
        payload.push(0x75);
        payload.push(0x65);
        payload.push(0x2D);
        payload.push(0x6B);
        payload.push(0x62);
        payload.push(0x2D);
        payload.push(0x67);
        payload.push(0x61);
        payload.push(0x6D);
        payload.push(0x65);
        payload.push(0x73);
        payload.push(0x00);
        assert(payload@ =~= client_name());
        let bytes = encode_packet(0, PACKET_ID_SET_CLIENT_NAME, payload);
        let handshake = Handshake {
            phase: Phase::Naming,
            mismatches: 0,
            version: 0,
            count: 0,
            next: 0,
            devices: Vec::new(),
            selected: None,
            preferred_vendor: preferred_vendor.to_owned(),
        };
        assert(handshake@.devices =~= Seq::<ControllerView>::empty());
        (handshake, bytes)
    }
}

impl Handshake {
    #[verifier::type_invariant]
    spec fn inv(self) -> bool {
        &&& self.mismatches < REPLY_ATTEMPTS
        &&& forall|i: int|
            0 <= i < self.devices@.len() ==> (#[trigger] self.devices@[i]).led_names@.len()
                <= u16::MAX
        &&& self.selected matches Some(device) ==> device.led_names@.len() <= u16::MAX
    }

    /// Where the handshake stands.
    pub fn phase(&self) -> (phase: Phase)
        ensures
            phase == self@.phase,
    {
        self.phase
    }

    /// The protocol version agreed on; 0 until the daemon has answered.
    pub fn protocol_version(&self) -> (version: u32)
        ensures
            version == self@.version,
    {
        self.version
    }

    /// Takes the handshake one step on.
    pub fn advance(self, event: Event) -> (step: Step)
        ensures
            step@ == next_step(self@, event@),
    {
        proof {
            use_type_invariant(&self);
        }
        match self.phase {
            Phase::Naming => match event {
                Event::Sent => {
                    let mut payload: Vec<u8> = Vec::new();
                    push_u32_le(&mut payload, CLIENT_PROTOCOL_MAX);
                    assert(payload@ =~= u32_le(CLIENT_PROTOCOL_MAX));
                    let bytes = encode_packet(0, PACKET_ID_REQUEST_PROTOCOL_VERSION, payload);
                    Step::Send(self.moved_to(Phase::RequestingVersion), bytes)
                },
                _ => Step::Failed(ConnectError::Protocol(ProtocolError::UnexpectedReply)),
            },
            Phase::RequestingVersion => match event {
                Event::Sent => Step::Receive(self.awaiting(Phase::AwaitingVersion)),
                _ => Step::Failed(ConnectError::Protocol(ProtocolError::UnexpectedReply)),
            },
            Phase::AwaitingVersion => self.version_reply(event),
            Phase::RequestingCount => match event {
                Event::Sent => Step::Receive(self.awaiting(Phase::AwaitingCount)),
                _ => Step::Failed(ConnectError::Protocol(ProtocolError::UnexpectedReply)),
            },
            Phase::AwaitingCount => self.count_reply(event),
            Phase::RequestingController => match event {
                Event::Sent => Step::Receive(self.awaiting(Phase::AwaitingController)),
                _ => Step::Failed(ConnectError::Protocol(ProtocolError::UnexpectedReply)),
            },
            Phase::AwaitingController => self.controller_reply(event),
            Phase::SettingMode => match event {
                Event::Sent => self.mode_set(),
                _ => Step::Failed(ConnectError::Protocol(ProtocolError::UnexpectedReply)),
            },
        }
    }

    /// The handshake in another phase.
    fn moved_to(self, phase: Phase) -> (h: Handshake)
        ensures
            h@ == (HandshakeView { phase, ..self@ }),
    {
        proof {
            use_type_invariant(&self);
        }
        Handshake {
            phase,
            mismatches: self.mismatches,
            version: self.version,
            count: self.count,
            next: self.next,
            devices: self.devices,
            selected: self.selected,
            preferred_vendor: self.preferred_vendor,
        }
    }

    /// The handshake as it begins to wait for a reply.
    fn awaiting(self, phase: Phase) -> (h: Handshake)
        ensures
            h@ == (HandshakeView { phase, mismatches: 0, ..self@ }),
    {
        proof {
            use_type_invariant(&self);
        }
        Handshake {
            phase,
            mismatches: 0,
            version: self.version,
            count: self.count,
            next: self.next,
            devices: self.devices,
            selected: self.selected,
            preferred_vendor: self.preferred_vendor,
        }
    }

    /// Reads on after a packet with another id, unless `attempts` packets
    /// have been read; then hands the handshake back.
    fn skip_mismatch(self, attempts: u32) -> (r: Result<Step, Handshake>)
        requires
            attempts <= REPLY_ATTEMPTS,
        ensures
            match r {
                Ok(step) => read_on(self@, attempts) == Some(step@),
                Err(h) => read_on(self@, attempts) is None && h@ == self@,
            },
    {
        proof {
            use_type_invariant(&self);
        }
        if self.mismatches + 1 < attempts {
            Ok(
                Step::Receive(
                    Handshake {
                        phase: self.phase,
                        mismatches: self.mismatches + 1,
                        version: self.version,
                        count: self.count,
                        next: self.next,
                        devices: self.devices,
                        selected: self.selected,
                        preferred_vendor: self.preferred_vendor,
                    },
                ),
            )
        } else {
            Err(self)
        }
    }

    /// Settles the version and asks for the number of controllers.
    fn settle_version(self, version: u32) -> (step: Step)
        ensures
            step@ == ask_count(self@, version),
    {
        proof {
            use_type_invariant(&self);
        }
        let bytes = encode_packet(0, PACKET_ID_REQUEST_CONTROLLER_COUNT, Vec::new());
        Step::Send(
            Handshake {
                phase: Phase::RequestingCount,
                mismatches: self.mismatches,
                version,
                count: self.count,
                next: self.next,
                devices: self.devices,
                selected: self.selected,
                preferred_vendor: self.preferred_vendor,
            },
            bytes,
        )
    }

    fn version_reply(self, event: Event) -> (step: Step)
        ensures
            step@ == on_version_reply(self@, event@),
    {
        match event {
            Event::Packet(packet) => {
                if packet.packet_id == PACKET_ID_REQUEST_PROTOCOL_VERSION {
                    match read_leading_u32(&packet.payload) {
                        None => Step::Failed(ConnectError::Protocol(ProtocolError::Truncated)),
                        Some(v) => self.settle_version(
                            if v < CLIENT_PROTOCOL_MAX {
                                v
                            } else {
                                CLIENT_PROTOCOL_MAX
                            },
                        ),
                    }
                } else {
                    match self.skip_mismatch(VERSION_ATTEMPTS) {
                        Ok(step) => step,
                        Err(h) => h.settle_version(0),
                    }
                }
            },
            Event::TimedOut => self.settle_version(0),
            Event::Garbled(error) => Step::Failed(ConnectError::Protocol(error)),
            Event::Sent => Step::Failed(ConnectError::Protocol(ProtocolError::UnexpectedReply)),
        }
    }

    fn count_reply(self, event: Event) -> (step: Step)
        ensures
            step@ == on_count_reply(self@, event@),
    {
        proof {
            use_type_invariant(&self);
        }
        match event {
            Event::Packet(packet) => {
                if packet.packet_id == PACKET_ID_REQUEST_CONTROLLER_COUNT {
                    match read_leading_u32(&packet.payload) {
                        None => Step::Failed(ConnectError::Protocol(ProtocolError::Truncated)),
                        Some(count) => {
                            if count == 0 {
                                Step::Failed(ConnectError::NoControllers)
                            } else {
                                let bytes = encode_controller_request(0, self.version);
                                let h = Handshake {
                                    phase: Phase::RequestingController,
                                    mismatches: self.mismatches,
                                    version: self.version,
                                    count,
                                    next: 0,
                                    devices: Vec::new(),
                                    selected: self.selected,
                                    preferred_vendor: self.preferred_vendor,
                                };
                                assert(h@.devices =~= Seq::<ControllerView>::empty());
                                Step::Send(h, bytes)
                            }
                        },
                    }
                } else {
                    match self.skip_mismatch(REPLY_ATTEMPTS) {
                        Ok(step) => step,
                        Err(_) => Step::Failed(
                            ConnectError::Protocol(ProtocolError::UnexpectedReply),
                        ),
                    }
                }
            },
            Event::TimedOut => Step::Failed(ConnectError::Transport),
            Event::Garbled(error) => Step::Failed(ConnectError::Protocol(error)),
            Event::Sent => Step::Failed(ConnectError::Protocol(ProtocolError::UnexpectedReply)),
        }
    }

    fn controller_reply(self, event: Event) -> (step: Step)
        ensures
            step@ == on_controller_reply(self@, event@),
    {
        match event {
            Event::Packet(packet) => {
                if packet.packet_id == PACKET_ID_REQUEST_CONTROLLER_DATA {
                    match parse_controller_data(
                        self.next,
                        packet.payload.as_slice(),
                        self.version,
                    ) {
                        Err(_) => Step::Failed(ConnectError::MalformedDevice),
                        Ok(device) => self.add_controller(device),
                    }
                } else {
                    match self.skip_mismatch(REPLY_ATTEMPTS) {
                        Ok(step) => step,
                        Err(_) => Step::Failed(
                            ConnectError::Protocol(ProtocolError::UnexpectedReply),
                        ),
                    }
                }
            },
            Event::TimedOut => Step::Failed(ConnectError::Transport),
            Event::Garbled(error) => Step::Failed(ConnectError::Protocol(error)),
            Event::Sent => Step::Failed(ConnectError::Protocol(ProtocolError::UnexpectedReply)),
        }
    }

    fn add_controller(self, device: ControllerDescriptor) -> (step: Step)
        requires
            device.led_names@.len() <= u16::MAX,
        ensures
            step@ == with_controller(self@, device@),
    {
        proof {
            use_type_invariant(&self);
        }
        let mut devices = self.devices;
        let ghost before = devices@;
        devices.push(device);
        assert(views(devices@) =~= views(before).push(device@));
        if self.next < u32::MAX && self.next + 1 < self.count {
            let bytes = encode_controller_request(self.next + 1, self.version);
            Step::Send(
                Handshake {
                    phase: Phase::RequestingController,
                    mismatches: self.mismatches,
                    version: self.version,
                    count: self.count,
                    next: self.next + 1,
                    devices,
                    selected: self.selected,
                    preferred_vendor: self.preferred_vendor,
                },
                bytes,
            )
        } else {
            let ghost all = devices@;
            match select_keyboard(devices, self.preferred_vendor.as_str()) {
                Err(_) => Step::Failed(ConnectError::NoKeyboard),
                Ok(keyboard) => {
                    let bytes = encode_packet(
                        keyboard.index,
                        PACKET_ID_SET_CUSTOM_MODE,
                        Vec::new(),
                    );
                    proof {
                        let k = selected(views(all), self.preferred_vendor@).unwrap();
                        crate::directory::lemma_selected_in_range(
                            views(all),
                            self.preferred_vendor@,
                        );
                        assert(views(all)[k] == all[k]@);
                        assert(all[k].led_names@.len() <= u16::MAX) by {
                            if k < before.len() {
                                assert(all[k] == before[k]);
                            }
                        }
                        assert(texts(keyboard.led_names@).len() == texts(
                            all[k].led_names@,
                        ).len());
                    }
                    let h = Handshake {
                        phase: Phase::SettingMode,
                        mismatches: self.mismatches,
                        version: self.version,
                        count: self.count,
                        next: self.next,
                        devices: Vec::new(),
                        selected: Some(keyboard),
                        preferred_vendor: self.preferred_vendor,
                    };
                    assert(h@.devices =~= Seq::<ControllerView>::empty());
                    Step::Send(h, bytes)
                },
            }
        }
    }

    fn mode_set(self) -> (step: Step)
        ensures
            step@ == on_mode_set(self@),
    {
        proof {
            use_type_invariant(&self);
        }
        match self.selected {
            None => Step::Failed(ConnectError::Protocol(ProtocolError::UnexpectedReply)),
            Some(device) => match Keyboard::open(device) {
                Ok(keyboard) => Step::Connected(keyboard),
                Err(error) => Step::Failed(error),
            },
        }
    }
}

} // verus!
