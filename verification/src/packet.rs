//! Packets of the daemon's protocol: a 16-byte header and a payload.

use vstd::prelude::*;
use crate::error::ProtocolError;
use crate::le::{push_u32_le, u32_at, u32_from_le, u32_le};

verus! {

/// The length of a packet's header in bytes.
pub const HEADER_LEN: usize = 16;

/// Asks how many controllers the daemon knows.
pub const PACKET_ID_REQUEST_CONTROLLER_COUNT: u32 = 0;

/// Asks for the description of one controller.
pub const PACKET_ID_REQUEST_CONTROLLER_DATA: u32 = 1;

/// Proposes a protocol version and asks for the daemon's.
pub const PACKET_ID_REQUEST_PROTOCOL_VERSION: u32 = 40;

/// Tells the daemon this client's name.
pub const PACKET_ID_SET_CLIENT_NAME: u32 = 50;

/// Sets the colour of every LED of a controller.
pub const PACKET_ID_UPDATE_LEDS: u32 = 1050;

/// Puts a controller into the mode in which it shows what clients send.
pub const PACKET_ID_SET_CUSTOM_MODE: u32 = 1100;

/// The four-byte tag that opens every packet: the ASCII letters `ORGB`.
pub open spec fn magic() -> Seq<u8> {
    seq![0x4Fu8, 0x52u8, 0x47u8, 0x42u8]
}

/// The wire form of a packet: tag, device index, packet id, payload length
/// and payload, every integer little-endian.
pub open spec fn frame(device_index: u32, packet_id: u32, payload: Seq<u8>) -> Seq<u8> {
    magic() + u32_le(device_index) + u32_le(packet_id) + u32_le(payload.len() as u32) + payload
}

/// The fields of a packet's header.
#[derive(Clone, Copy, Debug, PartialEq, Eq, Structural)]
pub struct PacketHeader {
    pub device_index: u32,
    pub packet_id: u32,
    pub payload_len: u32,
}

/// What the first sixteen bytes of `bytes` say, or why they say nothing.
pub open spec fn header_of(bytes: Seq<u8>) -> Result<PacketHeader, ProtocolError> {
    if bytes.len() < 16 {
        Err(ProtocolError::Truncated)
    } else if bytes.subrange(0, 4) != magic() {
        Err(ProtocolError::BadMagic)
    } else {
        Ok(
            PacketHeader {
                device_index: u32_at(bytes, 4),
                packet_id: u32_at(bytes, 8),
                payload_len: u32_at(bytes, 12),
            },
        )
    }
}

/// One protocol message.
#[derive(Clone, Debug, PartialEq, Eq)]
pub struct Packet {
    pub device_index: u32,
    pub packet_id: u32,
    pub payload: Vec<u8>,
}

/// A packet as a mathematical value.
pub struct PacketView {
    pub device_index: u32,
    pub packet_id: u32,
    pub payload: Seq<u8>,
}

impl View for Packet {
    type V = PacketView;

    open spec fn view(&self) -> PacketView {
        PacketView {
            device_index: self.device_index,
            packet_id: self.packet_id,
            payload: self.payload@,
        }
    }
}

impl PacketView {
    /// The packet's wire form.
    pub open spec fn frame(self) -> Seq<u8> {
        frame(self.device_index, self.packet_id, self.payload)
    }
}

/// The packet that `bytes` begins with, or why there is none. The payload is
/// exactly as long as the header declares; bytes behind it are not looked at.
pub open spec fn packet_of(bytes: Seq<u8>) -> Result<PacketView, ProtocolError> {
    match header_of(bytes) {
        Err(e) => Err(e),
        Ok(h) => if bytes.len() < 16 + h.payload_len {
            Err(ProtocolError::Truncated)
        } else {
            Ok(
                PacketView {
                    device_index: h.device_index,
                    packet_id: h.packet_id,
                    payload: bytes.subrange(16, 16 + h.payload_len),
                },
            )
        },
    }
}

/// Decodes a packet header from the first sixteen bytes of `bytes`.
pub fn decode_header(bytes: &[u8]) -> (r: Result<PacketHeader, ProtocolError>)
    ensures
        r == header_of(bytes@),
{
    if bytes.len() < HEADER_LEN {
        return Err(ProtocolError::Truncated);
    }
    if bytes[0] != 0x4F || bytes[1] != 0x52 || bytes[2] != 0x47 || bytes[3] != 0x42 {
        assert(bytes@.subrange(0, 4) != magic()) by {
            let s = bytes@.subrange(0, 4);
            assert(s[0] == bytes@[0] && s[1] == bytes@[1] && s[2] == bytes@[2] && s[3]
                == bytes@[3]);
        }
        return Err(ProtocolError::BadMagic);
    }
    assert(bytes@.subrange(0, 4) =~= magic());
    Ok(
        PacketHeader {
            device_index: u32_from_le(bytes[4], bytes[5], bytes[6], bytes[7]),
            packet_id: u32_from_le(bytes[8], bytes[9], bytes[10], bytes[11]),
            payload_len: u32_from_le(bytes[12], bytes[13], bytes[14], bytes[15]),
        },
    )
}

/// Writes the header of a packet whose payload has `payload_len` bytes.
pub fn encode_header(device_index: u32, packet_id: u32, payload_len: u32) -> (out: Vec<u8>)
    ensures
        out@ == magic() + u32_le(device_index) + u32_le(packet_id) + u32_le(payload_len),
        out@.len() == 16,
{
    let mut out: Vec<u8> = Vec::with_capacity(HEADER_LEN);
    out.push(0x4F);
    out.push(0x52);
    out.push(0x47);
    out.push(0x42);
    assert(out@ =~= magic());
    push_u32_le(&mut out, device_index);
    push_u32_le(&mut out, packet_id);
    push_u32_le(&mut out, payload_len);
    out
}

impl Packet {
    /// Whether the payload's length fits the header's 32-bit length field.
    pub open spec fn wf(&self) -> bool {
        self.payload@.len() <= u32::MAX
    }

    /// The packet's wire form.
    pub fn encode(&self) -> (out: Vec<u8>)
        requires
            self.wf(),
        ensures
            out@ == self@.frame(),
    {
        let n: usize = self.payload.len();
        let mut out = encode_header(self.device_index, self.packet_id, n as u32);
        let ghost head = out@;
        let mut i: usize = 0;
        while i < n
            invariant
                i <= n,
                n == self.payload@.len(),
                out@ == head + self.payload@.subrange(0, i as int),
            decreases n - i,
        {
            out.push(self.payload[i]);
            i += 1;
            assert(out@ =~= head + self.payload@.subrange(0, i as int));
        }
        assert(self.payload@.subrange(0, n as int) =~= self.payload@);
        out
    }

    /// Decodes the packet that `bytes` begins with.
    ///
    /// Fails with `Truncated` when fewer than sixteen bytes are there or the
    /// payload is shorter than the header declares, and with `BadMagic` when
    /// the tag is wrong.
    pub fn decode(bytes: &[u8]) -> (r: Result<Packet, ProtocolError>)
        ensures
            match r {
                Ok(p) => packet_of(bytes@) == Ok::<PacketView, ProtocolError>(p@),
                Err(e) => packet_of(bytes@) == Err::<PacketView, ProtocolError>(e),
            },
    {
        let header = match decode_header(bytes) {
            Ok(h) => h,
            Err(e) => { return Err(e); },
        };
        let len: usize = bytes.len();
        if len - HEADER_LEN < header.payload_len as usize {
            return Err(ProtocolError::Truncated);
        }
        let end: usize = HEADER_LEN + header.payload_len as usize;
        let mut payload: Vec<u8> = Vec::new();
        let mut i: usize = HEADER_LEN;
        while i < end
            invariant
                HEADER_LEN <= i <= end <= bytes@.len(),
                payload@ == bytes@.subrange(16, i as int),
            decreases end - i,
        {
            payload.push(bytes[i]);
            i += 1;
            assert(payload@ =~= bytes@.subrange(16, i as int));
        }
        Ok(Packet { device_index: header.device_index, packet_id: header.packet_id, payload })
    }
}

/// Decoding the wire form of a packet gives the packet back.
pub proof fn lemma_decode_of_encode(p: PacketView)
    requires
        p.payload.len() <= u32::MAX,
    ensures
        packet_of(p.frame()) == Ok::<PacketView, ProtocolError>(p),
{
    let bytes = p.frame();
    let len = p.payload.len() as u32;
    assert(bytes.len() == 16 + p.payload.len());
    assert(bytes.subrange(0, 4) =~= magic());
    assert(bytes.subrange(4, 8) =~= u32_le(p.device_index));
    assert(bytes.subrange(8, 12) =~= u32_le(p.packet_id));
    assert(bytes.subrange(12, 16) =~= u32_le(len));
    crate::le::lemma_u32_le_roundtrip(p.device_index, bytes, 4);
    crate::le::lemma_u32_le_roundtrip(p.packet_id, bytes, 8);
    crate::le::lemma_u32_le_roundtrip(len, bytes, 12);
    assert(bytes.subrange(16, 16 + len) =~= p.payload);
}

/// Encoding what was decoded from a packet's exact wire form gives those
/// bytes again.
pub proof fn lemma_encode_of_decode(bytes: Seq<u8>)
    requires
        packet_of(bytes) is Ok,
        bytes.len() == 16 + packet_of(bytes)->Ok_0.payload.len(),
    ensures
        packet_of(bytes)->Ok_0.frame() == bytes,
{
    let p = packet_of(bytes)->Ok_0;
    crate::le::lemma_u32_at_roundtrip(bytes, 4);
    crate::le::lemma_u32_at_roundtrip(bytes, 8);
    crate::le::lemma_u32_at_roundtrip(bytes, 12);
    assert(p.frame() =~= bytes.subrange(0, 4) + bytes.subrange(4, 8) + bytes.subrange(8, 12)
        + bytes.subrange(12, 16) + bytes.subrange(16, bytes.len() as int));
    assert(p.frame() =~= bytes);
}

} // verus!
