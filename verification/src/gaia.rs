//! GAIA-over-classic-Bluetooth (RFCOMM/SPP) framing.
//!
//! A frame is an SPP header (start-of-frame byte, version, flags, length), a
//! 4-byte GAIA header (vendor ID and command ID, big-endian) and a payload.
//! The format was confirmed byte for byte against a live capture of a real
//! headset (Sonova-branded "HDB 630").
//!
//! GAIA is Qualcomm/CSR's generic headset control protocol: the vendor ID is
//! a Bluetooth SIG company identifier that namespaces the command IDs, so
//! different vendors define entirely different commands under it.

use vstd::prelude::*;
use vstd::slice::{slice_subrange, slice_to_vec};
use crate::hex::{parse_number, HexError};
use crate::letters::{characters, even_utf8_len, remove_white_space, strip_prefixes, trim, width};
use crate::text::{push_decimal, push_hex_list};

verus! {

/// Sonova's own GAIA vendor ID.
pub const SONOVA_VENDOR_ID: u16 = 0x0495;

/// Qualcomm/CSR's own GAIA vendor ID (the chipset vendor's reserved
/// namespace). Multipoint is a chipset-level feature, so it lives here
/// instead of under [`SONOVA_VENDOR_ID`].
pub const QUALCOMM_VENDOR_ID: u16 = 0x001d;

/// Sennheiser electronic GmbH's own (older) GAIA vendor ID, from the CX 400 /
/// True Wireless 2 product lines. Not confirmed on real hardware.
pub const SENNHEISER_VENDOR_ID: u16 = 0x0494;

/// Registers this client for push notifications on one category of device
/// state. The payload is 1 byte, the category ID (see the `CATEGORY_*`
/// constants). The response, `0x0107`, is a bare ack; the state itself, both
/// the current value and every later change, arrives on its own command ID.
///
/// Without this step the headset never pushes anything at all.
pub const CMD_REGISTER_NOTIFICATION: u16 = 0x0007;

/// Registers for ANC mode changes: pushes on [`RSP_SONOVA_ANC_SET`] and
/// [`RSP_SONOVA_ANC_SET_COMPANION`]. Under [`SONOVA_VENDOR_ID`].
pub const CATEGORY_SONOVA_ANC: u8 = 0x0d;

/// Registers for the "Custom noise control" slider and its active flag:
/// pushes on [`RSP_SONOVA_CUSTOM_NOISE_CONTROL_SET`] and
/// [`CMD_SONOVA_CUSTOM_MODE_ACTIVE_NOTIFY`]. Under [`SONOVA_VENDOR_ID`].
pub const CATEGORY_SONOVA_CUSTOM_NOISE_CONTROL: u8 = 0x0c;

/// Registers for a bundle of audio settings: pushes on
/// [`RSP_SONOVA_BASS_BOOST_SET`] and [`RSP_SONOVA_EQ_SET_BAND`], and on some
/// other command IDs that are not decoded. Under [`SONOVA_VENDOR_ID`].
pub const CATEGORY_SONOVA_BASS_BOOST: u8 = 0x08;

/// Registers for Multipoint changes: pushes on
/// [`RSP_QUALCOMM_MULTIPOINT_SET`]. Under [`QUALCOMM_VENDOR_ID`].
pub const CATEGORY_QUALCOMM_MULTIPOINT: u8 = 0x07;

/// Turns multipoint on or off, under [`QUALCOMM_VENDOR_ID`]. The payload is
/// 1 byte: `0x00` off, `0x01` on.
pub const CMD_QUALCOMM_MULTIPOINT_SET: u16 = 0x0e00;

/// The response ID for [`CMD_QUALCOMM_MULTIPOINT_SET`] (`+ 0x80`): echoes the
/// state byte.
pub const RSP_QUALCOMM_MULTIPOINT_SET: u16 = 0x0e80;

/// Asks how many hosts multipoint serves (empty payload). The headphones
/// report a count, not device identities.
pub const CMD_SONOVA_MULTIPOINT_STATUS_GET: u16 = 0x1409;

/// The response ID for [`CMD_SONOVA_MULTIPOINT_STATUS_GET`] (`+ 0x100`): a
/// count, `0x02` when multipoint is on, `0x01` when off, in
/// [`GaiaResponse::status`].
pub const RSP_SONOVA_MULTIPOINT_STATUS_GET: u16 = 0x1509;

/// Sets a noise-control parameter. The payload is a parameter ID and a value:
///
/// - `0x03` = ANC mode (`0x00` Off, `0x01` Adaptive), always sent together
///   with [`CMD_SONOVA_ANC_SET_COMPANION`];
/// - `0x01` = Anti-wind (`0x00` off, `0x01` on), without a companion.
pub const CMD_SONOVA_ANC_SET: u16 = 0x1a00;

/// The response ID for [`CMD_SONOVA_ANC_SET`] (`+ 0x81`). Also pushed once a
/// client has registered for [`CATEGORY_SONOVA_ANC`].
pub const RSP_SONOVA_ANC_SET: u16 = 0x1a81;

/// Sent alongside [`CMD_SONOVA_ANC_SET`] on every ANC mode change. The payload
/// is 1 byte, the same state value.
pub const CMD_SONOVA_ANC_SET_COMPANION: u16 = 0x1a04;

/// The response ID for [`CMD_SONOVA_ANC_SET_COMPANION`] (`+ 0x81`).
pub const RSP_SONOVA_ANC_SET_COMPANION: u16 = 0x1a85;

/// The "Noise control: Custom" slider, from full ANC (0) to full Transparency
/// (100). The payload is 1 byte, the percentage.
pub const CMD_SONOVA_CUSTOM_NOISE_CONTROL_SET: u16 = 0x1a02;

/// The response ID for [`CMD_SONOVA_CUSTOM_NOISE_CONTROL_SET`] (`+ 0x81`).
/// Also pushed on every change made with the physical button.
pub const RSP_SONOVA_CUSTOM_NOISE_CONTROL_SET: u16 = 0x1a83;

/// Sent, without payload, right after every
/// [`CMD_SONOVA_CUSTOM_NOISE_CONTROL_SET`].
pub const CMD_SONOVA_CUSTOM_NOISE_CONTROL_COMMIT: u16 = 0x1a03;

/// A push-only notification: whether the custom (manual) noise-control
/// position is engaged, `0x01` or `0x00`.
pub const CMD_SONOVA_CUSTOM_MODE_ACTIVE_NOTIFY: u16 = 0x1885;

/// Turns Bass Boost on or off. The payload is 1 byte: `0x00` off, `0x01` on.
pub const CMD_SONOVA_BASS_BOOST_SET: u16 = 0x1008;

/// The response ID for [`CMD_SONOVA_BASS_BOOST_SET`] that echoes the state
/// (`+ 0x81`).
pub const RSP_SONOVA_BASS_BOOST_SET: u16 = 0x1089;

/// Sets one EQ band. The payload is 2 bytes: the band index (0-4) and the
/// gain, a signed byte in units of a tenth of a decibel.
pub const CMD_SONOVA_EQ_SET_BAND: u16 = 0x1001;

/// The response ID for [`CMD_SONOVA_EQ_SET_BAND`] (`+ 0x81`): a snapshot of
/// all 5 gains. Band 0 lands in [`GaiaResponse::status`], bands 1 to 4 in
/// `payload`.
pub const RSP_SONOVA_EQ_SET_BAND: u16 = 0x1082;

/// Sets Crossfeed. The payload is 1 byte, and its values do not follow the
/// order of the levels: see the `CROSSFEED_*` constants.
pub const CMD_SONOVA_CROSSFEED_SET: u16 = 0x2e00;

pub const CROSSFEED_OFF: u8 = 0x02;

pub const CROSSFEED_LOW: u8 = 0x00;

pub const CROSSFEED_HIGH: u8 = 0x01;

/// Asks for the Crossfeed level (empty payload).
pub const CMD_SONOVA_CROSSFEED_GET: u16 = 0x2e01;

/// The response ID for [`CMD_SONOVA_CROSSFEED_GET`] (`+ 0x100`). The level
/// lands in [`GaiaResponse::status`].
pub const RSP_SONOVA_CROSSFEED_GET: u16 = 0x2f01;

/// Sets ANC on older firmware (unconfirmed).
pub const CMD_ANC_SET: u16 = 0x0708;

/// Reads ANC on older firmware (unconfirmed).
pub const CMD_ANC_GET: u16 = 0x0788;

/// Sets transparent hearing on older firmware (unconfirmed).
pub const CMD_TRANSPARENCY_SET: u16 = 0x0704;

/// Reads transparent hearing on older firmware (unconfirmed).
pub const CMD_TRANSPARENCY_GET: u16 = 0x0784;

/// The named presets and their 5 band gains (see [`CMD_SONOVA_EQ_SET_BAND`]).
/// "speech-clarity" is a made-up vocal curve, not one read from a device.
pub const EQ_PRESETS: [(&'static str, [i8; 5]); 9] = [
    ("neutral", [0, 0, 0, 0, 0]),
    ("speech-clarity", [-10, -5, 5, 15, 10]),
    ("rock", [0, 20, 25, 15, -20]),
    ("pop", [0, -25, 0, 25, 0]),
    ("dance", [35, 20, -15, 15, 30]),
    ("hip-hop", [30, 15, -15, 0, -15]),
    ("classical", [-20, -15, 0, 35, 40]),
    ("movie", [0, 0, 20, 20, -20]),
    ("jazz", [-32, 0, 22, 22, 0]),
];

const SOF: u8 = 0xFF;

const FLAG_CHECKSUM: u8 = 0x01;

const FLAG_LENGTH_EXT: u8 = 0x02;

/// A parsed GAIA response: the vendor and command IDs that the device sent
/// back, an optional status byte, and what follows it.
#[derive(Debug, Clone)]
pub struct GaiaResponse {
    pub vendor_id: u16,
    pub command_id: u16,
    pub status: Option<u8>,
    pub payload: Vec<u8>,
}

/// What a [`GaiaResponse`] holds.
#[verifier::ext_equal]
pub struct ResponseModel {
    pub vendor_id: u16,
    pub command_id: u16,
    pub status: Option<u8>,
    pub payload: Seq<u8>,
}

impl View for GaiaResponse {
    type V = ResponseModel;

    open spec fn view(&self) -> ResponseModel {
        ResponseModel {
            vendor_id: self.vendor_id,
            command_id: self.command_id,
            status: self.status,
            payload: self.payload@,
        }
    }
}

/// Why bytes are not a GAIA packet or frame, or why input for one is refused.
#[derive(Debug, Clone)]
pub enum GaiaError {
    /// The packet of this many bytes needs extended-length framing.
    PayloadTooLarge(usize),
    /// The packet has no room for the vendor and command IDs.
    PacketTooShort(Vec<u8>),
    /// The bytes do not begin with a frame header.
    NotAFrame(Vec<u8>),
    /// The header announces an extended length and ends before it.
    TruncatedLength,
    /// The frame ends early.
    TruncatedFrame { expected: usize, received: Vec<u8> },
    /// A hexadecimal payload has half a byte too many.
    OddHexDigits,
    /// Text is not a hexadecimal number.
    InvalidHex(HexError),
}

/// What a [`GaiaError`] holds.
#[verifier::ext_equal]
pub enum GaiaErrorModel {
    PayloadTooLarge(nat),
    PacketTooShort(Seq<u8>),
    NotAFrame(Seq<u8>),
    TruncatedLength,
    TruncatedFrame { expected: nat, received: Seq<u8> },
    OddHexDigits,
    InvalidHex(HexError),
}

impl View for GaiaError {
    type V = GaiaErrorModel;

    open spec fn view(&self) -> GaiaErrorModel {
        match self {
            GaiaError::PayloadTooLarge(n) => GaiaErrorModel::PayloadTooLarge(*n as nat),
            GaiaError::PacketTooShort(bytes) => GaiaErrorModel::PacketTooShort(bytes@),
            GaiaError::NotAFrame(bytes) => GaiaErrorModel::NotAFrame(bytes@),
            GaiaError::TruncatedLength => GaiaErrorModel::TruncatedLength,
            GaiaError::TruncatedFrame { expected, received } => GaiaErrorModel::TruncatedFrame {
                expected: *expected as nat,
                received: received@,
            },
            GaiaError::OddHexDigits => GaiaErrorModel::OddHexDigits,
            GaiaError::InvalidHex(e) => GaiaErrorModel::InvalidHex(*e),
        }
    }
}

/// The text shown for a [`GaiaError`].
pub open spec fn error_text(e: GaiaErrorModel) -> Seq<char> {
    match e {
        GaiaErrorModel::PayloadTooLarge(n) => "GAIA payload too large for this simplified framer ("@
            + crate::text::decimal(n) + " bytes; extended-length framing isn't implemented)"@,
        GaiaErrorModel::PacketTooShort(bytes) =>
            "GAIA packet too short (need at least vendor_id+command_id): "@ + crate::text::hex_list(bytes),
        GaiaErrorModel::NotAFrame(bytes) =>
            "not a GAIA SPP frame (missing 0xFF start-of-frame byte): "@ + crate::text::hex_list(bytes),
        GaiaErrorModel::TruncatedLength => "truncated extended-length GAIA frame"@,
        GaiaErrorModel::TruncatedFrame { expected, received } => "truncated GAIA frame: expected "@
            + crate::text::decimal(expected) + " bytes, got "@ + crate::text::decimal(received.len()) + ": "@ + crate::text::hex_list(
            received,
        ),
        GaiaErrorModel::OddHexDigits => "hex payload must have an even number of digits"@,
        GaiaErrorModel::InvalidHex(e) => crate::hex::hex_error_text(e),
    }
}

impl GaiaError {
    /// The text shown for this error.
    pub fn message(&self) -> (r: String)
        ensures
            r@ == error_text(self@),
    {
        match self {
            GaiaError::PayloadTooLarge(n) => {
                let mut out: String = "GAIA payload too large for this simplified framer (".to_owned();
                push_decimal(&mut out, *n as u64);
                out.append(" bytes; extended-length framing isn't implemented)");
                out
            },
            GaiaError::PacketTooShort(bytes) => {
                let mut out: String =
                    "GAIA packet too short (need at least vendor_id+command_id): ".to_owned();
                push_hex_list(&mut out, bytes.as_slice());
                out
            },
            GaiaError::NotAFrame(bytes) => {
                let mut out: String =
                    "not a GAIA SPP frame (missing 0xFF start-of-frame byte): ".to_owned();
                push_hex_list(&mut out, bytes.as_slice());
                out
            },
            GaiaError::TruncatedLength => "truncated extended-length GAIA frame".to_owned(),
            GaiaError::TruncatedFrame { expected, received } => {
                let mut out: String = "truncated GAIA frame: expected ".to_owned();
                push_decimal(&mut out, *expected as u64);
                out.append(" bytes, got ");
                push_decimal(&mut out, received.len() as u64);
                out.append(": ");
                push_hex_list(&mut out, received.as_slice());
                out
            },
            GaiaError::OddHexDigits => "hex payload must have an even number of digits".to_owned(),
            GaiaError::InvalidHex(e) => e.message().to_owned(),
        }
    }
}

/// Whether a result is the modelled one.
pub open spec fn response_result(
    r: Result<GaiaResponse, GaiaError>,
    model: Result<ResponseModel, GaiaErrorModel>,
) -> bool {
    match model {
        Ok(m) => r matches Ok(x) && x@ == m,
        Err(m) => r matches Err(x) && x@ == m,
    }
}

/// A 16-bit number as two bytes, the high one first.
pub open spec fn big_endian(x: u16) -> Seq<u8> {
    seq![(x as int / 256) as u8, (x as int % 256) as u8]
}

/// The 16-bit number of two bytes, the high one first.
pub open spec fn from_big_endian(high: u8, low: u8) -> u16 {
    (high * 256 + low) as u16
}

/// The bytes of a GAIA packet.
pub open spec fn packet_bytes(vendor_id: u16, command_id: u16, payload: Seq<u8>) -> Seq<u8> {
    big_endian(vendor_id) + big_endian(command_id) + payload
}

/// What the receiver of a packet with this body reads: the first byte of the
/// body, if there is one, is the status.
pub open spec fn response_with(vendor_id: u16, command_id: u16, body: Seq<u8>) -> ResponseModel {
    ResponseModel {
        vendor_id,
        command_id,
        status: if body.len() > 0 {
            Some(body[0])
        } else {
            None
        },
        payload: if body.len() > 0 {
            body.skip(1)
        } else {
            Seq::empty()
        },
    }
}

/// What a packet of at least 4 bytes says.
pub open spec fn packet_response(packet: Seq<u8>) -> ResponseModel {
    response_with(
        from_big_endian(packet[0], packet[1]),
        from_big_endian(packet[2], packet[3]),
        packet.skip(4),
    )
}

/// What [`parse_packet`] makes of bytes.
pub open spec fn packet_result(packet: Seq<u8>) -> Result<ResponseModel, GaiaErrorModel> {
    if packet.len() < 4 {
        Err(GaiaErrorModel::PacketTooShort(packet))
    } else {
        Ok(packet_response(packet))
    }
}

/// The largest payload that fits in a frame without extended length.
pub open spec fn max_payload() -> nat {
    250
}

/// The bytes of a frame without checksum or extended length.
pub open spec fn frame_bytes(
    version: u8,
    vendor_id: u16,
    command_id: u16,
    payload: Seq<u8>,
) -> Seq<u8> {
    seq![0xFFu8, version, 0u8, payload.len() as u8] + packet_bytes(vendor_id, command_id, payload)
}

/// Whether the flags announce a checksum byte.
pub open spec fn has_checksum(flags: u8) -> bool {
    flags % 2 == 1
}

/// Whether the flags announce a length of two bytes.
pub open spec fn has_extended_length(flags: u8) -> bool {
    (flags / 2) % 2 == 1
}

/// Whether the whole header of a frame is there.
pub open spec fn header_complete(buf: Seq<u8>) -> bool {
    buf.len() >= 4 && (has_extended_length(buf[2]) ==> buf.len() >= 5)
}

/// Where the packet starts in a frame.
pub open spec fn packet_start(buf: Seq<u8>) -> nat {
    if has_extended_length(buf[2]) {
        5
    } else {
        4
    }
}

/// The payload length that a frame header announces.
pub open spec fn announced_payload(buf: Seq<u8>) -> nat {
    if has_extended_length(buf[2]) {
        (buf[3] * 256 + buf[4]) as nat
    } else {
        buf[3] as nat
    }
}

/// Where the packet ends in a frame.
pub open spec fn packet_end(buf: Seq<u8>) -> nat {
    packet_start(buf) + announced_payload(buf) + 4
}

/// How long a frame is, by its header.
pub open spec fn frame_len(buf: Seq<u8>) -> nat {
    packet_end(buf) + if has_checksum(buf[2]) {
        1nat
    } else {
        0nat
    }
}

/// What the frame at the front of `buf` says.
pub open spec fn frame_response(buf: Seq<u8>) -> ResponseModel {
    packet_response(buf.subrange(packet_start(buf) as int, packet_end(buf) as int))
}

/// What [`parse_frame`] makes of bytes.
pub open spec fn frame_result(buf: Seq<u8>) -> Result<ResponseModel, GaiaErrorModel> {
    if buf.len() < 4 || buf[0] != 0xFF {
        Err(GaiaErrorModel::NotAFrame(buf))
    } else if !header_complete(buf) {
        Err(GaiaErrorModel::TruncatedLength)
    } else if buf.len() < frame_len(buf) {
        Err(GaiaErrorModel::TruncatedFrame { expected: frame_len(buf), received: buf })
    } else {
        Ok(frame_response(buf))
    }
}

/// Whether `buf` begins with a byte that starts no frame.
pub open spec fn out_of_sync(buf: Seq<u8>) -> bool {
    buf.len() > 0 && buf[0] != 0xFF
}

/// Whether `buf` begins with a complete frame.
pub open spec fn has_frame(buf: Seq<u8>) -> bool {
    !out_of_sync(buf) && header_complete(buf) && buf.len() >= frame_len(buf)
}

/// Builds the raw GAIA packet: vendor ID, command ID, payload. This is
/// everything that a BLE characteristic write carries.
pub fn build_packet(vendor_id: u16, command_id: u16, payload: &[u8]) -> (r: Vec<u8>)
    ensures
        r@ == packet_bytes(vendor_id, command_id, payload@),
{
    let mut packet: Vec<u8> = Vec::new();
    packet.push((vendor_id / 256) as u8);
    packet.push((vendor_id % 256) as u8);
    packet.push((command_id / 256) as u8);
    packet.push((command_id % 256) as u8);
    packet.extend_from_slice(payload);
    assert(packet@ =~= packet_bytes(vendor_id, command_id, payload@));
    packet
}

/// Builds a GAIA packet and wraps it in the SPP frame (start-of-frame byte,
/// version, flags, length) of the classic transport. No checksum is appended.
pub fn build_frame(protocol_version: u8, vendor_id: u16, command_id: u16, payload: &[u8]) -> (r:
    Result<Vec<u8>, GaiaError>)
    ensures
        payload@.len() <= max_payload() ==> (r matches Ok(frame) && frame@ == frame_bytes(
            protocol_version,
            vendor_id,
            command_id,
            payload@,
        )),
        payload@.len() > max_payload() ==> (r matches Err(e) && e@
            == GaiaErrorModel::PayloadTooLarge(payload@.len() + 4)),
{
    let packet: Vec<u8> = build_packet(vendor_id, command_id, payload);
    if packet.len() > 254 {
        return Err(GaiaError::PayloadTooLarge(packet.len()));
    }
    let mut frame: Vec<u8> = Vec::new();
    frame.push(SOF);
    frame.push(protocol_version);
    frame.push(0);
    frame.push((packet.len() - 4) as u8);
    frame.extend_from_slice(packet.as_slice());
    assert(frame@ =~= frame_bytes(protocol_version, vendor_id, command_id, payload@));
    Ok(frame)
}

/// Parses a raw GAIA packet, as received from a BLE notification. The first
/// byte after the IDs, if there is one, is taken as the status.
pub fn parse_packet(packet: &[u8]) -> (r: Result<GaiaResponse, GaiaError>)
    ensures
        response_result(r, packet_result(packet@)),
{
    if packet.len() < 4 {
        return Err(GaiaError::PacketTooShort(slice_to_vec(packet)));
    }
    let vendor_id: u16 = packet[0] as u16 * 256 + packet[1] as u16;
    let command_id: u16 = packet[2] as u16 * 256 + packet[3] as u16;
    if packet.len() > 4 {
        let payload: Vec<u8> = slice_to_vec(slice_subrange(packet, 5, packet.len()));
        assert(payload@ =~= packet@.skip(4).skip(1));
        Ok(GaiaResponse { vendor_id, command_id, status: Some(packet[4]), payload })
    } else {
        let payload: Vec<u8> = Vec::new();
        Ok(GaiaResponse { vendor_id, command_id, status: None, payload })
    }
}

/// Reads the two flags that matter to the layout of a frame.
fn read_flags(flags: u8) -> (r: (bool, bool))
    ensures
        r.0 == has_checksum(flags),
        r.1 == has_extended_length(flags),
{
    assert((flags & 0x01 != 0) == (flags % 2 == 1)) by (bit_vector);
    assert((flags & 0x02 != 0) == ((flags / 2) % 2 == 1)) by (bit_vector);
    (flags & FLAG_CHECKSUM != 0, flags & FLAG_LENGTH_EXT != 0)
}

/// Where the packet starts and ends in a frame, and where the frame ends.
fn read_layout(buf: &[u8]) -> (r: (usize, usize, usize))
    requires
        header_complete(buf@),
    ensures
        r.0 == packet_start(buf@),
        r.1 == packet_end(buf@),
        r.2 == frame_len(buf@),
{
    let (checksum, extended) = read_flags(buf[2]);
    let start: usize = if extended {
        5
    } else {
        4
    };
    let announced: usize = if extended {
        buf[3] as usize * 256 + buf[4] as usize
    } else {
        buf[3] as usize
    };
    let end: usize = start + announced + 4;
    let total: usize = if checksum {
        end + 1
    } else {
        end
    };
    (start, end, total)
}

/// Strips the SPP frame from a received buffer and parses the packet inside.
/// For the classic transport only: BLE carries the packet itself, which
/// [`parse_packet`] reads.
pub fn parse_frame(buf: &[u8]) -> (r: Result<GaiaResponse, GaiaError>)
    ensures
        response_result(r, frame_result(buf@)),
{
    if buf.len() < 4 || buf[0] != SOF {
        return Err(GaiaError::NotAFrame(slice_to_vec(buf)));
    }
    let (checksum, extended) = read_flags(buf[2]);
    if extended && buf.len() < 5 {
        return Err(GaiaError::TruncatedLength);
    }
    let (start, end, total) = read_layout(buf);
    if buf.len() < total {
        return Err(GaiaError::TruncatedFrame { expected: total, received: slice_to_vec(buf) });
    }
    parse_packet(slice_subrange(buf, start, end))
}

/// Like [`parse_frame`], but for a buffer that need not hold a complete frame
/// yet: `Ok(None)` then asks for more bytes. On success the result also says
/// how many bytes the frame took, so that the caller can keep what follows.
pub fn deframe_one(buf: &[u8]) -> (r: Result<Option<(usize, GaiaResponse)>, GaiaError>)
    ensures
        out_of_sync(buf@) ==> (r matches Err(e) && e@ == GaiaErrorModel::NotAFrame(buf@)),
        has_frame(buf@) ==> (r matches Ok(Some(x)) && x.0 == frame_len(buf@) && x.1@
            == frame_response(buf@)),
        !out_of_sync(buf@) && !has_frame(buf@) ==> r matches Ok(None),
{
    if buf.len() == 0 {
        return Ok(None);
    }
    if buf[0] != SOF {
        return Err(GaiaError::NotAFrame(slice_to_vec(buf)));
    }
    if buf.len() < 4 {
        return Ok(None);
    }
    let (checksum, extended) = read_flags(buf[2]);
    if extended && buf.len() < 5 {
        return Ok(None);
    }
    let (start, end, total) = read_layout(buf);
    if buf.len() < total {
        return Ok(None);
    }
    match parse_packet(slice_subrange(buf, start, end)) {
        Ok(response) => Ok(Some((total, response))),
        Err(e) => Err(e),
    }
}

/// What [`parse_hex_u16`] makes of text: white space at the ends and leading
/// `0x` and then `0X` are dropped, the rest is the number.
pub open spec fn hex_u16_result(text: Seq<char>) -> Result<nat, HexError> {
    let digits = crate::letters::without_prefixes(
        crate::letters::without_prefixes(crate::letters::trimmed(text), '0', 'x'),
        '0',
        'X',
    );
    crate::hex::number(digits, 0xFFFF)
}

/// Two bytes of text at a time, each pair as one byte. `None` when a pair
/// would end in the middle of a character.
pub open spec fn hex_pairs(s: Seq<char>) -> Option<Result<Seq<u8>, HexError>>
    decreases s.len(),
{
    if s.len() == 0 {
        Some(Ok(Seq::empty()))
    } else if crate::letters::utf8_width(s[0]) == 2 {
        Some(Err(HexError::InvalidDigit))
    } else if s.len() >= 2 && crate::letters::utf8_width(s[0]) == 1 && crate::letters::utf8_width(
        s[1],
    ) == 1 {
        match crate::hex::number(s.take(2), 0xFF) {
            Err(e) => Some(Err(e)),
            Ok(b) => before_pairs(seq![b as u8], hex_pairs(s.skip(2))),
        }
    } else {
        None
    }
}

/// The bytes read so far, followed by what the remaining pairs give.
pub open spec fn before_pairs(read: Seq<u8>, rest: Option<Result<Seq<u8>, HexError>>) -> Option<
    Result<Seq<u8>, HexError>,
> {
    match rest {
        Some(Ok(bytes)) => Some(Ok(read + bytes)),
        _ => rest,
    }
}

/// Whether text, without its white space, can be read in pairs of bytes.
pub open spec fn pairs_are_whole(text: Seq<char>) -> bool {
    let cleaned = crate::letters::without_white_space(text);
    crate::letters::utf8_len(cleaned) % 2 == 0 ==> hex_pairs(cleaned) is Some
}

/// Parses a "0x1234" or "1234" hexadecimal text.
pub fn parse_hex_u16(s: &str) -> (r: Result<u16, GaiaError>)
    ensures
        match hex_u16_result(s@) {
            Ok(n) => r matches Ok(x) && x == n,
            Err(e) => r matches Err(x) && x@ == GaiaErrorModel::InvalidHex(e),
        },
{
    let trimmed: Vec<char> = trim(&characters(s));
    let digits: Vec<char> = strip_prefixes(&strip_prefixes(&trimmed, '0', 'x'), '0', 'X');
    match parse_number(digits.as_slice(), 0xFFFF) {
        Ok(n) => Ok(n as u16),
        Err(e) => Err(GaiaError::InvalidHex(e)),
    }
}

/// Reads cleaned text two bytes at a time.
fn read_pairs(cleaned: &Vec<char>) -> (r: Option<Result<Vec<u8>, HexError>>)
    ensures
        match hex_pairs(cleaned@) {
            None => r is None,
            Some(Ok(bytes)) => r matches Some(Ok(x)) && x@ == bytes,
            Some(Err(e)) => r matches Some(Err(x)) && x == e,
        },
{
    let mut out: Vec<u8> = Vec::new();
    let mut i: usize = 0;
    assert(cleaned@.skip(0) =~= cleaned@);
    assert(hex_pairs(cleaned@) =~= before_pairs(out@, hex_pairs(cleaned@.skip(0)))) by {
        if let Some(Ok(bytes)) = hex_pairs(cleaned@) {
            assert(out@ + bytes =~= bytes);
        }
    }
    while i < cleaned.len()
        invariant
            i <= cleaned@.len(),
            hex_pairs(cleaned@) == before_pairs(out@, hex_pairs(cleaned@.skip(i as int))),
        decreases cleaned@.len() - i,
    {
        let ghost rest = cleaned@.skip(i as int);
        assert(rest[0] == cleaned@[i as int]);
        if width(cleaned[i]) == 2 {
            return Some(Err(HexError::InvalidDigit));
        }
        if width(cleaned[i]) != 1 || cleaned.len() - i < 2 {
            return None;
        }
        assert(rest[1] == cleaned@[i + 1]);
        if width(cleaned[i + 1]) != 1 {
            return None;
        }
        let pair: &[char] = slice_subrange(cleaned.as_slice(), i, i + 2);
        assert(pair@ =~= rest.take(2));
        match parse_number(pair, 0xFF) {
            Err(e) => {
                return Some(Err(e));
            },
            Ok(n) => {
                let ghost read = out@;
                out.push(n as u8);
                assert(rest.skip(2) =~= cleaned@.skip(i + 2));
                assert(hex_pairs(cleaned@) == before_pairs(
                    out@,
                    hex_pairs(cleaned@.skip(i + 2)),
                )) by {
                    if let Some(Ok(bytes)) = hex_pairs(cleaned@.skip(i + 2)) {
                        assert(read + (seq![n as u8] + bytes) =~= out@ + bytes);
                    }
                }
                i += 2;
            },
        }
    }
    assert(hex_pairs(cleaned@.skip(i as int)) == Some(
        Ok::<Seq<u8>, HexError>(Seq::<u8>::empty()),
    ));
    assert(out@ + Seq::<u8>::empty() =~= out@);
    Some(Ok(out))
}

/// The bytes that hexadecimal text spells, two digits for each, or why it spells
/// none. White space does not count.
pub open spec fn hex_bytes_result(text: Seq<char>) -> Result<Seq<u8>, GaiaErrorModel> {
    let cleaned = crate::letters::without_white_space(text);
    if crate::letters::utf8_len(cleaned) % 2 != 0 {
        Err(GaiaErrorModel::OddHexDigits)
    } else {
        match hex_pairs(cleaned) {
            Some(Ok(bytes)) => Ok(bytes),
            Some(Err(e)) => Err(GaiaErrorModel::InvalidHex(e)),
            None => Err(GaiaErrorModel::OddHexDigits),
        }
    }
}

/// Tells whether [`parse_hex_bytes`] takes this text.
pub fn hex_pairs_are_whole(s: &str) -> (r: bool)
    ensures
        r == pairs_are_whole(s@),
{
    let cleaned: Vec<char> = remove_white_space(&characters(s));
    !even_utf8_len(&cleaned) || read_pairs(&cleaned).is_some()
}

/// Parses a hexadecimal byte text like "0001" or "00 01". Text whose pairs of
/// bytes would split a character is not accepted.
pub fn parse_hex_bytes(s: &str) -> (r: Result<Vec<u8>, GaiaError>)
    requires
        pairs_are_whole(s@),
    ensures
        match hex_bytes_result(s@) {
            Ok(bytes) => r matches Ok(x) && x@ == bytes,
            Err(m) => r matches Err(x) && x@ == m,
        },
{
    let cleaned: Vec<char> = remove_white_space(&characters(s));
    if !even_utf8_len(&cleaned) {
        return Err(GaiaError::OddHexDigits);
    }
    match read_pairs(&cleaned) {
        Some(Ok(bytes)) => Ok(bytes),
        Some(Err(e)) => Err(GaiaError::InvalidHex(e)),
        None => Err(GaiaError::OddHexDigits),
    }
}

/// Parsing a built packet gives back its IDs and its payload, whose first
/// byte is read as the status.
pub proof fn packet_round_trip(vendor_id: u16, command_id: u16, payload: Seq<u8>)
    ensures
        packet_result(packet_bytes(vendor_id, command_id, payload)) == Ok::<_, GaiaErrorModel>(
            response_with(vendor_id, command_id, payload),
        ),
{
    let packet = packet_bytes(vendor_id, command_id, payload);
    assert(packet.skip(4) =~= payload);
}

/// Two commands that give the same packet are the same command.
pub proof fn packets_are_unambiguous(
    vendor_1: u16,
    command_1: u16,
    payload_1: Seq<u8>,
    vendor_2: u16,
    command_2: u16,
    payload_2: Seq<u8>,
)
    requires
        packet_bytes(vendor_1, command_1, payload_1) == packet_bytes(
            vendor_2,
            command_2,
            payload_2,
        ),
    ensures
        vendor_1 == vendor_2,
        command_1 == command_2,
        payload_1 == payload_2,
{
    let a = packet_bytes(vendor_1, command_1, payload_1);
    let b = packet_bytes(vendor_2, command_2, payload_2);
    packet_round_trip(vendor_1, command_1, payload_1);
    packet_round_trip(vendor_2, command_2, payload_2);
    assert(a.skip(4) =~= payload_1);
    assert(b.skip(4) =~= payload_2);
}

/// A built frame, whatever follows it, is taken off as one frame of exactly
/// its own length, and says what its packet says.
pub proof fn frame_round_trip(
    version: u8,
    vendor_id: u16,
    command_id: u16,
    payload: Seq<u8>,
    rest: Seq<u8>,
)
    requires
        payload.len() <= max_payload(),
    ensures
        ({
            let frame = frame_bytes(version, vendor_id, command_id, payload);
            let said = response_with(vendor_id, command_id, payload);
            &&& frame_result(frame) == Ok::<_, GaiaErrorModel>(said)
            &&& has_frame(frame + rest)
            &&& frame_len(frame + rest) == frame.len()
            &&& frame_response(frame + rest) == said
        }),
{
    let frame = frame_bytes(version, vendor_id, command_id, payload);
    let packet = packet_bytes(vendor_id, command_id, payload);
    packet_round_trip(vendor_id, command_id, payload);
    assert(frame.subrange(4, frame.len() as int) =~= packet);
    assert((frame + rest).subrange(4, frame.len() as int) =~= packet);
    assert((frame + rest)[0] == 0xFF && (frame + rest)[2] == 0 && (frame + rest)[3]
        == payload.len());
}

/// Two commands that give the same frame are the same command.
pub proof fn frames_are_unambiguous(
    version_1: u8,
    vendor_1: u16,
    command_1: u16,
    payload_1: Seq<u8>,
    version_2: u8,
    vendor_2: u16,
    command_2: u16,
    payload_2: Seq<u8>,
)
    requires
        frame_bytes(version_1, vendor_1, command_1, payload_1) == frame_bytes(
            version_2,
            vendor_2,
            command_2,
            payload_2,
        ),
    ensures
        version_1 == version_2,
        vendor_1 == vendor_2,
        command_1 == command_2,
        payload_1 == payload_2,
{
    let a = frame_bytes(version_1, vendor_1, command_1, payload_1);
    let b = frame_bytes(version_2, vendor_2, command_2, payload_2);
    assert(a.skip(4) =~= packet_bytes(vendor_1, command_1, payload_1));
    assert(b.skip(4) =~= packet_bytes(vendor_2, command_2, payload_2));
    assert(a[1] == version_1 && b[1] == version_2);
    packets_are_unambiguous(vendor_1, command_1, payload_1, vendor_2, command_2, payload_2);
}

/// Taking a frame off a buffer and parsing the buffer as a frame agree: one
/// succeeds exactly when the other does and both say the same, as does
/// parsing only the bytes that were taken off.
pub proof fn deframing_agrees_with_parsing(buf: Seq<u8>)
    ensures
        has_frame(buf) <==> frame_result(buf) is Ok,
        has_frame(buf) ==> {
            &&& 8 <= frame_len(buf) <= buf.len()
            &&& frame_result(buf) == Ok::<_, GaiaErrorModel>(frame_response(buf))
            &&& frame_result(buf.take(frame_len(buf) as int)) == frame_result(buf)
        },
        out_of_sync(buf) ==> frame_result(buf) == Err::<ResponseModel, _>(
            GaiaErrorModel::NotAFrame(buf),
        ),
{
    if has_frame(buf) {
        let only = buf.take(frame_len(buf) as int);
        assert(only.subrange(packet_start(buf) as int, packet_end(buf) as int) =~= buf.subrange(
            packet_start(buf) as int,
            packet_end(buf) as int,
        ));
    }
}

/// Bytes that arrive later do not change the frame at the front of a buffer,
/// nor bring a buffer back in sync.
pub proof fn later_bytes_do_not_matter(buf: Seq<u8>, more: Seq<u8>)
    ensures
        has_frame(buf) ==> {
            &&& has_frame(buf + more)
            &&& frame_len(buf + more) == frame_len(buf)
            &&& frame_response(buf + more) == frame_response(buf)
        },
        out_of_sync(buf) ==> out_of_sync(buf + more),
{
    if has_frame(buf) {
        let whole = buf + more;
        assert(whole[0] == buf[0] && whole[2] == buf[2] && whole[3] == buf[3]);
        if has_extended_length(buf[2]) {
            assert(whole[4] == buf[4]);
        }
        assert(whole.subrange(packet_start(buf) as int, packet_end(buf) as int) =~= buf.subrange(
            packet_start(buf) as int,
            packet_end(buf) as int,
        ));
    }
}

/// While a frame is still incomplete, the bytes that have arrived are neither
/// a frame nor out of sync: the reader is told to wait.
pub proof fn partial_frame_waits(buf: Seq<u8>, arrived: int)
    requires
        has_frame(buf),
        0 <= arrived < frame_len(buf),
    ensures
        !has_frame(buf.take(arrived)),
        !out_of_sync(buf.take(arrived)),
{
    let part = buf.take(arrived);
    if header_complete(part) {
        assert(part[2] == buf[2] && part[3] == buf[3]);
        assert(has_extended_length(buf[2]) ==> part[4] == buf[4]);
    }
}

/// Whether text is hexadecimal digits, of either case, and at least one.
pub open spec fn only_digits(s: Seq<char>) -> bool {
    s.len() > 0 && forall|i: int|
        0 <= i < s.len() ==> crate::hex::digit_value(#[trigger] s[i]) is Some
}

/// The number that hexadecimal digits spell.
pub open spec fn hex_value(s: Seq<char>) -> nat
    decreases s.len(),
{
    if s.len() == 0 {
        0
    } else {
        16 * hex_value(s.drop_last()) + crate::hex::digit_value(s.last())->0
    }
}

proof fn lemma_digits_value(s: Seq<char>, max: nat)
    requires
        s.len() > 0,
    ensures
        only_digits(s) && hex_value(s) <= max ==> crate::hex::digits(s, max) == Ok::<
            nat,
            HexError,
        >(hex_value(s)),
        only_digits(s) && hex_value(s) > max ==> crate::hex::digits(s, max) == Err::<
            nat,
            HexError,
        >(HexError::TooLarge),
        !only_digits(s) ==> crate::hex::digits(s, max) is Err,
    decreases s.len(),
{
    let before = s.drop_last();
    assert(forall|i: int| 0 <= i < before.len() ==> before[i] == s[i]);
    assert(s[s.len() - 1] == s.last());
    if before.len() > 0 {
        lemma_digits_value(before, max);
        if only_digits(s) {
            assert forall|i: int| 0 <= i < before.len() implies crate::hex::digit_value(
                #[trigger] before[i],
            ) is Some by {
                assert(crate::hex::digit_value(s[i]) is Some);
            }
        } else if only_digits(before) && crate::hex::digit_value(s.last()) is Some {
            assert forall|i: int| 0 <= i < s.len() implies crate::hex::digit_value(
                #[trigger] s[i],
            ) is Some by {
                if i < before.len() {
                    assert(crate::hex::digit_value(before[i]) is Some);
                }
            }
        }
    } else {
        assert(crate::hex::digits(before, max) == Ok::<nat, HexError>(0));
        assert(hex_value(before) == 0);
        if crate::hex::digit_value(s.last()) is Some {
            assert(only_digits(s));
        }
    }
}

/// Whether all characters are white space.
pub open spec fn only_white_space(s: Seq<char>) -> bool {
    forall|i: int| 0 <= i < s.len() ==> crate::letters::is_white_space(#[trigger] s[i])
}

/// Whether text is a plus sign or nothing.
pub open spec fn is_sign(s: Seq<char>) -> bool {
    s == Seq::<char>::empty() || s == seq!['+']
}

/// Whether text is the mark of a hexadecimal number or nothing.
pub open spec fn is_hex_mark(s: Seq<char>) -> bool {
    s == Seq::<char>::empty() || s == seq!['0', 'x'] || s == seq!['0', 'X']
}

/// Whether text starts with the mark of a hexadecimal number.
pub open spec fn starts_with_mark(s: Seq<char>) -> bool {
    s.len() >= 2 && s[0] == '0' && (s[1] == 'x' || s[1] == 'X')
}

/// Whether text is made of these parts: white space, the mark of a hexadecimal
/// number or none, a plus sign or none, the body, white space. What the other
/// parts can take up is not left to the body.
pub open spec fn is_spelling(
    text: Seq<char>,
    left: Seq<char>,
    mark: Seq<char>,
    sign: Seq<char>,
    body: Seq<char>,
    right: Seq<char>,
) -> bool {
    &&& text == left + (mark + sign + body) + right
    &&& only_white_space(left)
    &&& is_hex_mark(mark)
    &&& is_sign(sign)
    &&& only_white_space(right)
    &&& body.len() > 0 ==> !crate::letters::is_white_space(body[0])
        && !crate::letters::is_white_space(body.last())
    &&& sign.len() == 0 ==> !starts_with_mark(body) && (body.len() > 0 ==> body[0] != '+')
}

proof fn lemma_mark_dropped(mark: Seq<char>, rest: Seq<char>)
    requires
        is_hex_mark(mark),
        !starts_with_mark(rest),
    ensures
        crate::letters::without_prefixes(
            crate::letters::without_prefixes(mark + rest, '0', 'x'),
            '0',
            'X',
        ) == rest,
{
    let all = mark + rest;
    assert(crate::letters::without_prefixes(rest, '0', 'x') == rest);
    assert(crate::letters::without_prefixes(rest, '0', 'X') == rest);
    if mark.len() == 0 {
        assert(all =~= rest);
    } else {
        assert(all.skip(2) =~= rest);
        assert(all[0] == mark[0] && all[1] == mark[1]);
    }
}

/// A number in hexadecimal is read whatever the case of its digits, with white
/// space at its ends, with `0x`, `0X` or neither before it: it is accepted
/// exactly when the rest is digits only and the number fits in 16 bits.
pub proof fn hex_u16_round_trip(
    text: Seq<char>,
    left: Seq<char>,
    mark: Seq<char>,
    sign: Seq<char>,
    body: Seq<char>,
    right: Seq<char>,
)
    requires
        is_spelling(text, left, mark, sign, body, right),
    ensures
        only_digits(body) && hex_value(body) <= 0xFFFF ==> hex_u16_result(text) == Ok::<
            nat,
            HexError,
        >(hex_value(body)),
        only_digits(body) && hex_value(body) > 0xFFFF ==> hex_u16_result(text) == Err::<
            nat,
            HexError,
        >(HexError::TooLarge),
        !only_digits(body) ==> hex_u16_result(text) is Err,
{
    let rest = sign + body;
    let middle = mark + sign + body;
    assert(middle =~= mark + rest);
    assert(!crate::letters::is_white_space('0') && !crate::letters::is_white_space('+')
        && !crate::letters::is_white_space('x') && !crate::letters::is_white_space('X'));
    if middle.len() > 0 {
        if body.len() > 0 {
            assert(middle.last() == body.last());
        }
    }
    crate::letters::white_space_is_trimmed_at_the_ends(left, middle, right);
    if sign.len() == 0 {
        assert(rest =~= body);
    } else {
        assert(rest[0] == '+');
        assert(rest.skip(1) =~= body);
    }
    lemma_mark_dropped(mark, rest);
    if body.len() > 0 {
        lemma_digits_value(body, 0xFFFF);
    } else if sign.len() > 0 {
        assert(crate::hex::digit_value(rest[0]) is None);
        lemma_digits_value(rest, 0xFFFF);
    }
}

/// Whether text is hexadecimal digits, of either case, two for each byte.
pub open spec fn spells_bytes(s: Seq<char>, bytes: Seq<u8>) -> bool {
    &&& s.len() == 2 * bytes.len()
    &&& forall|i: int|
        0 <= i < bytes.len() ==> crate::hex::digit_value(s[2 * i]) == Some(
            (#[trigger] bytes[i] / 16) as nat,
        ) && crate::hex::digit_value(s[2 * i + 1]) == Some((bytes[i] % 16) as nat)
}

proof fn lemma_digits_are_pairs(s: Seq<char>, bytes: Seq<u8>)
    requires
        spells_bytes(s, bytes),
    ensures
        hex_pairs(s) == Some(Ok::<Seq<u8>, HexError>(bytes)),
        crate::letters::utf8_len(s) == 2 * bytes.len(),
    decreases bytes.len(),
{
    if bytes.len() == 0 {
        assert(bytes =~= Seq::<u8>::empty());
    } else {
        let rest = s.skip(2);
        let others = bytes.skip(1);
        assert forall|i: int| 0 <= i < others.len() implies crate::hex::digit_value(rest[2 * i])
            == Some((#[trigger] others[i] / 16) as nat) && crate::hex::digit_value(rest[2 * i + 1])
            == Some((others[i] % 16) as nat) by {
            assert(others[i] == bytes[i + 1]);
            assert(rest[2 * i] == s[2 * (i + 1)] && rest[2 * i + 1] == s[2 * (i + 1) + 1]);
        }
        lemma_digits_are_pairs(rest, others);
        let b = bytes[0];
        let pair = s.take(2);
        assert(crate::hex::digit_value(s[0]) == Some((b / 16) as nat));
        assert(crate::hex::digit_value(s[1]) == Some((b % 16) as nat));
        assert(crate::hex::digit_value('+') is None);
        assert(only_digits(pair));
        assert(pair.drop_last().drop_last() =~= Seq::<char>::empty());
        reveal_with_fuel(hex_value, 3);
        assert(hex_value(pair) == b);
        lemma_digits_value(pair, 0xFF);
        assert(crate::letters::utf8_width(s[0]) == 1 && crate::letters::utf8_width(s[1]) == 1);
        assert(seq![b] + others =~= bytes);
        crate::letters::lemma_utf8_len_first(s);
        crate::letters::lemma_utf8_len_first(s.drop_first());
        assert(s.drop_first().drop_first() =~= rest);
    }
}

/// Text that is, apart from white space, two hexadecimal digits for each of some
/// bytes, whatever their case, is read as these bytes.
pub proof fn hex_bytes_round_trip(text: Seq<char>, bytes: Seq<u8>)
    requires
        spells_bytes(crate::letters::without_white_space(text), bytes),
    ensures
        pairs_are_whole(text),
        hex_bytes_result(text) == Ok::<Seq<u8>, GaiaErrorModel>(bytes),
{
    lemma_digits_are_pairs(crate::letters::without_white_space(text), bytes);
}

proof fn lemma_all_kept(s: Seq<char>)
    requires
        forall|i: int| 0 <= i < s.len() ==> !crate::letters::is_white_space(#[trigger] s[i]),
    ensures
        crate::letters::without_white_space(s) == s,
    decreases s.len(),
{
    reveal(Seq::filter);
    if s.len() > 0 {
        assert forall|i: int| 0 <= i < s.drop_last().len() implies !crate::letters::is_white_space(
            #[trigger] s.drop_last()[i],
        ) by {
            assert(s.drop_last()[i] == s[i]);
        }
        lemma_all_kept(s.drop_last());
        assert(s.drop_last().push(s.last()) =~= s);
    }
}

/// Digits that spell bytes hold no white space, so they are read as these bytes
/// as they stand.
pub proof fn digits_are_read_as_they_stand(s: Seq<char>, bytes: Seq<u8>)
    requires
        spells_bytes(s, bytes),
    ensures
        hex_bytes_result(s) == Ok::<Seq<u8>, GaiaErrorModel>(bytes),
{
    assert forall|i: int| 0 <= i < s.len() implies !crate::letters::is_white_space(
        #[trigger] s[i],
    ) by {
        let b = bytes[i / 2];
        assert(s[2 * (i / 2)] == s[i] || s[2 * (i / 2) + 1] == s[i]);
    }
    lemma_all_kept(s);
    hex_bytes_round_trip(s, bytes);
}

/// A packet is the vendor ID and the command ID, each as two bytes with the high
/// one first, and then the payload as it is.
pub proof fn packet_layout(vendor_id: u16, command_id: u16, payload: Seq<u8>)
    ensures
        ({
            let p = packet_bytes(vendor_id, command_id, payload);
            &&& p.len() == 4 + payload.len()
            &&& p[0] * 256 + p[1] == vendor_id
            &&& p[2] * 256 + p[3] == command_id
            &&& forall|i: int| 0 <= i < payload.len() ==> p[4 + i] == #[trigger] payload[i]
        }),
{
}

/// A built frame is the start byte, the version that was asked for, no flags, the
/// length of the payload, and the packet.
pub proof fn frame_layout(version: u8, vendor_id: u16, command_id: u16, payload: Seq<u8>)
    requires
        payload.len() <= 250,
    ensures
        ({
            let f = frame_bytes(version, vendor_id, command_id, payload);
            &&& f.len() == 8 + payload.len()
            &&& f[0] == 0xFF
            &&& f[1] == version
            &&& f[2] == 0
            &&& f[3] == payload.len()
            &&& f[4] * 256 + f[5] == vendor_id
            &&& f[6] * 256 + f[7] == command_id
            &&& forall|i: int| 0 <= i < payload.len() ==> f[8 + i] == #[trigger] payload[i]
        }),
{
}

/// Payloads of up to 250 bytes fit in a frame, and no longer ones.
pub proof fn frames_hold_250_bytes(n: nat)
    ensures
        n <= max_payload() <==> n <= 250,
{
}

/// A packet of at least 4 bytes is read byte by byte: two IDs, then a status if
/// there is a fifth byte, then the payload. A shorter one is refused and shown.
pub proof fn packets_are_read_by_position(packet: Seq<u8>)
    ensures
        packet.len() < 4 ==> packet_result(packet) == Err::<ResponseModel, _>(
            GaiaErrorModel::PacketTooShort(packet),
        ),
        packet.len() >= 4 ==> match packet_result(packet) {
            Ok(r) => {
                &&& r.vendor_id == packet[0] * 256 + packet[1]
                &&& r.command_id == packet[2] * 256 + packet[3]
                &&& r.status == if packet.len() > 4 {
                    Some(packet[4])
                } else {
                    None
                }
                &&& r.payload.len() == if packet.len() > 5 {
                    packet.len() - 5
                } else {
                    0
                }
                &&& forall|i: int|
                    0 <= i < r.payload.len() ==> #[trigger] r.payload[i] == packet[5 + i]
            },
            Err(_) => false,
        },
{
}

/// A frame with the given flags: the length takes two bytes if the second bit of
/// the flags is set, and a checksum byte follows if the first one is.
pub open spec fn frame_with_flags(
    version: u8,
    flags: u8,
    packet: Seq<u8>,
    checksum: u8,
) -> Seq<u8> {
    let n = packet.len() - 4;
    let length = if flags % 4 >= 2 {
        seq![(n / 256) as u8, (n % 256) as u8]
    } else {
        seq![n as u8]
    };
    let tail = if flags % 2 == 1 {
        seq![checksum]
    } else {
        Seq::empty()
    };
    seq![0xFFu8, version, flags] + length + packet + tail
}

/// A frame is taken apart by its flags, whatever its version, its other flags,
/// its checksum byte and the bytes after it: it ends where its length says, and
/// says what its packet says.
pub proof fn frames_are_read_by_their_flags(
    version: u8,
    flags: u8,
    packet: Seq<u8>,
    checksum: u8,
    rest: Seq<u8>,
)
    requires
        4 <= packet.len(),
        packet.len() <= if flags % 4 >= 2 {
            65539
        } else {
            259int
        },
    ensures
        ({
            let frame = frame_with_flags(version, flags, packet, checksum);
            &&& has_frame(frame + rest)
            &&& frame_len(frame + rest) == frame.len()
            &&& Ok::<_, GaiaErrorModel>(frame_response(frame + rest)) == packet_result(packet)
            &&& frame_result(frame + rest) == packet_result(packet)
        }),
{
    let frame = frame_with_flags(version, flags, packet, checksum);
    let all = frame + rest;
    let n = packet.len() - 4;
    assert(all[0] == 0xFF && all[2] == flags);
    assert(has_extended_length(flags) == (flags % 4 >= 2));
    if flags % 4 >= 2 {
        assert(all[3] == (n / 256) as u8 && all[4] == (n % 256) as u8);
        assert(all[3] * 256 + all[4] == n);
        assert(all.subrange(5, 5int + packet.len()) =~= packet);
    } else {
        assert(all[3] == n as u8);
        assert(all.subrange(4, 4int + packet.len()) =~= packet);
    }
    assert(packet_end(all) == packet_start(all) + packet.len());
}

/// Part of a frame is no frame. What is wrong with it depends on where it ends:
/// within the header, within an extended length, or before the end that the
/// header announces.
pub proof fn cut_frames_are_refused(
    version: u8,
    flags: u8,
    packet: Seq<u8>,
    checksum: u8,
    arrived: int,
)
    requires
        4 <= packet.len(),
        packet.len() <= if flags % 4 >= 2 {
            65539
        } else {
            259int
        },
        0 <= arrived < frame_with_flags(version, flags, packet, checksum).len(),
    ensures
        ({
            let frame = frame_with_flags(version, flags, packet, checksum);
            let part = frame.take(arrived);
            &&& !has_frame(part) && !out_of_sync(part)
            &&& frame_result(part) == Err::<ResponseModel, _>(
                if arrived < 4 {
                    GaiaErrorModel::NotAFrame(part)
                } else if arrived == 4 && flags % 4 >= 2 {
                    GaiaErrorModel::TruncatedLength
                } else {
                    GaiaErrorModel::TruncatedFrame { expected: frame.len(), received: part }
                },
            )
        }),
{
    let frame = frame_with_flags(version, flags, packet, checksum);
    let part = frame.take(arrived);
    frames_are_read_by_their_flags(version, flags, packet, checksum, Seq::empty());
    assert(frame + Seq::<u8>::empty() =~= frame);
    partial_frame_waits(frame, arrived);
    assert(frame[0] == 0xFF && frame[2] == flags);
    assert(has_extended_length(flags) == (flags % 4 >= 2));
    if arrived > 0 {
        assert(part[0] == frame[0]);
    }
    if arrived >= 4 {
        assert(part[2] == frame[2] && part[3] == frame[3]);
    }
    if arrived >= 5 {
        assert(part[4] == frame[4]);
    }
}

/// A buffer is out of sync exactly when it starts with a byte that is not the
/// start byte, whatever comes after it; as a frame it is refused.
pub proof fn only_the_start_byte_starts_a_frame(first: u8, rest: Seq<u8>)
    ensures
        out_of_sync(seq![first] + rest) <==> first != 0xFF,
        !out_of_sync(Seq::empty()) && !has_frame(Seq::empty()),
        first != 0xFF ==> !has_frame(seq![first] + rest) && frame_result(seq![first] + rest)
            == Err::<ResponseModel, _>(GaiaErrorModel::NotAFrame(seq![first] + rest)),
{
    assert((seq![first] + rest)[0] == first);
}

/// Four hexadecimal digits are read as the number that they spell, the first
/// digit counting most.
pub proof fn four_digits_spell_an_id(a: char, b: char, c: char, d: char, v: Seq<nat>)
    requires
        v.len() == 4,
        crate::hex::digit_value(a) == Some(v[0]),
        crate::hex::digit_value(b) == Some(v[1]),
        crate::hex::digit_value(c) == Some(v[2]),
        crate::hex::digit_value(d) == Some(v[3]),
    ensures
        hex_u16_result(seq![a, b, c, d]) == Ok::<nat, HexError>(
            4096 * v[0] + 256 * v[1] + 16 * v[2] + v[3],
        ),
        hex_u16_result(seq!['0', 'x', a, b, c, d]) == hex_u16_result(seq![a, b, c, d]),
        hex_u16_result(seq!['0', 'X', a, b, c, d]) == hex_u16_result(seq![a, b, c, d]),
{
    let none = Seq::<char>::empty();
    let body = seq![a, b, c, d];
    assert(crate::hex::digit_value('x') is None && crate::hex::digit_value('X') is None
        && crate::hex::digit_value('+') is None);
    assert(forall|x: char|
        crate::hex::digit_value(x) is Some ==> !#[trigger] crate::letters::is_white_space(x));
    assert(body.drop_last() =~= seq![a, b, c]);
    assert(seq![a, b, c].drop_last() =~= seq![a, b]);
    assert(seq![a, b].drop_last() =~= seq![a]);
    assert(seq![a].drop_last() =~= none);
    reveal_with_fuel(hex_value, 5);
    assert(v[0] < 16 && v[1] < 16 && v[2] < 16 && v[3] < 16);
    assert(hex_value(body) == 4096 * v[0] + 256 * v[1] + 16 * v[2] + v[3]);
    assert(only_digits(body));
    assert(none + (none + none + body) + none =~= body);
    hex_u16_round_trip(body, none, none, none, body, none);
    let low = seq!['0', 'x', a, b, c, d];
    assert(none + (seq!['0', 'x'] + none + body) + none =~= low);
    hex_u16_round_trip(low, none, seq!['0', 'x'], none, body, none);
    let high = seq!['0', 'X', a, b, c, d];
    assert(none + (seq!['0', 'X'] + none + body) + none =~= high);
    hex_u16_round_trip(high, none, seq!['0', 'X'], none, body, none);
}

/// One more pair of digits at the front of a payload text is one more byte at
/// the front of the payload, and white space makes no difference.
pub proof fn one_more_byte(high: char, low: char, h: nat, l: nat, text: Seq<char>, bytes: Seq<u8>)
    requires
        crate::hex::digit_value(high) == Some(h),
        crate::hex::digit_value(low) == Some(l),
        hex_bytes_result(text) == Ok::<Seq<u8>, GaiaErrorModel>(bytes),
    ensures
        hex_bytes_result(seq![high, low] + text) == Ok::<Seq<u8>, GaiaErrorModel>(
            seq![(16 * h + l) as u8] + bytes,
        ),
        hex_bytes_result(Seq::empty()) == Ok::<Seq<u8>, GaiaErrorModel>(Seq::empty()),
        hex_bytes_result(seq![' '] + text) == hex_bytes_result(text),
{
    let pair = seq![high, low];
    let cleaned = crate::letters::without_white_space(text);
    crate::letters::white_space_is_dropped_everywhere(pair, text, high);
    crate::letters::white_space_is_dropped_everywhere(seq![high], seq![low], low);
    crate::letters::white_space_is_dropped_everywhere(seq![' '], text, ' ');
    crate::letters::white_space_is_dropped_everywhere(seq![high], seq![low], high);
    assert(seq![high] + seq![low] =~= pair);
    assert(!crate::letters::is_white_space(high) && !crate::letters::is_white_space(low));
    assert(crate::letters::without_white_space(pair) =~= pair);
    assert(crate::letters::is_white_space(' '));
    assert(Seq::<char>::empty() + cleaned =~= cleaned);
    let all = pair + cleaned;
    assert(all.skip(2) =~= cleaned);
    assert(all.take(2) =~= pair);
    crate::letters::lemma_utf8_len_first(all);
    crate::letters::lemma_utf8_len_first(all.drop_first());
    assert(all.drop_first().drop_first() =~= cleaned);
    assert(crate::hex::digit_value('+') is None);
    assert(pair.drop_last().drop_last() =~= Seq::<char>::empty());
    reveal_with_fuel(crate::hex::digits, 3);
    assert(crate::hex::number(pair, 0xFF) == Ok::<nat, HexError>(16 * h + l));
    reveal(Seq::filter);
    assert(crate::letters::without_white_space(Seq::empty()) =~= Seq::<char>::empty());
}

/// A payload text with an odd number of ASCII characters, apart from white space,
/// is refused; so is one with a character that is no digit where the text before
/// it spells bytes.
pub proof fn bad_payloads_are_refused(text: Seq<char>, s: Seq<char>, before: Seq<u8>)
    requires
        crate::letters::is_ascii_text(s),
        crate::letters::without_white_space(text) == s,
    ensures
        s.len() % 2 == 1 ==> hex_bytes_result(text) == Err::<Seq<u8>, _>(
            GaiaErrorModel::OddHexDigits,
        ),
        s.len() % 2 == 0 && s.len() >= 2 * before.len() + 2 && spells_bytes(
            s.take(2 * before.len() as int),
            before,
        ) && (crate::hex::digit_value(s[2 * before.len() as int + 1]) is None) ==> hex_bytes_result(
            text,
        ) is Err,
{
    lemma_ascii_len(s);
    let n = 2 * before.len() as int;
    if s.len() % 2 == 0 && s.len() >= n + 2 && spells_bytes(s.take(n), before)
        && crate::hex::digit_value(s[n + 1]) is None {
        lemma_bad_pair(s, before);
    }
}

proof fn lemma_ascii_len(s: Seq<char>)
    requires
        crate::letters::is_ascii_text(s),
    ensures
        crate::letters::utf8_len(s) == s.len(),
    decreases s.len(),
{
    if s.len() > 0 {
        assert(forall|i: int| 0 <= i < s.drop_last().len() ==> s.drop_last()[i] == s[i]);
        lemma_ascii_len(s.drop_last());
        assert((s[s.len() - 1] as u32) < 0x80);
    }
}

proof fn lemma_bad_pair(s: Seq<char>, before: Seq<u8>)
    requires
        crate::letters::is_ascii_text(s),
        s.len() >= 2 * before.len() + 2,
        spells_bytes(s.take(2 * before.len() as int), before),
        crate::hex::digit_value(s[2 * before.len() as int + 1]) is None,
    ensures
        hex_pairs(s) matches Some(Err(_)),
    decreases before.len(),
{
    let n = 2 * before.len() as int;
    let pair = s.take(2);
    assert((s[0] as u32) < 0x80 && (s[1] as u32) < 0x80);
    if before.len() == 0 {
        assert(pair[1] == s[1]);
        crate::hex::no_number_without_digits(pair, 1, 0xFF);
    } else {
        let rest = s.skip(2);
        let others = before.skip(1);
        let head = s.take(n);
        assert(rest.take(n - 2) =~= head.skip(2));
        assert forall|i: int| 0 <= i < others.len() implies crate::hex::digit_value(
            rest.take(n - 2)[2 * i],
        ) == Some((#[trigger] others[i] / 16) as nat) && crate::hex::digit_value(
            rest.take(n - 2)[2 * i + 1],
        ) == Some((others[i] % 16) as nat) by {
            assert(others[i] == before[i + 1]);
            assert(rest.take(n - 2)[2 * i] == head[2 * (i + 1)]);
            assert(rest.take(n - 2)[2 * i + 1] == head[2 * (i + 1) + 1]);
        }
        assert(forall|i: int| 0 <= i < rest.len() ==> rest[i] == s[i + 2]);
        assert(rest[n - 2 + 1] == s[n + 1]);
        lemma_bad_pair(rest, others);
        let b = before[0];
        assert(crate::hex::digit_value(head[0]) == Some((b / 16) as nat));
        assert(crate::hex::digit_value(head[1]) == Some((b % 16) as nat));
        assert(pair[0] == head[0] && pair[1] == head[1]);
    }
}

/// The view of a response holds its fields.
pub proof fn responses_are_viewed_whole(r: GaiaResponse)
    ensures
        r@.vendor_id == r.vendor_id,
        r@.command_id == r.command_id,
        r@.status == r.status,
        r@.payload == r.payload@,
{
}

/// The view of an error holds what the error holds.
pub proof fn errors_are_viewed_whole(n: usize, bytes: Vec<u8>, e: HexError)
    ensures
        GaiaError::PayloadTooLarge(n)@ == GaiaErrorModel::PayloadTooLarge(n as nat),
        GaiaError::PacketTooShort(bytes)@ == GaiaErrorModel::PacketTooShort(bytes@),
        GaiaError::NotAFrame(bytes)@ == GaiaErrorModel::NotAFrame(bytes@),
        GaiaError::TruncatedLength@ == GaiaErrorModel::TruncatedLength,
        (GaiaError::TruncatedFrame { expected: n, received: bytes })@
            == (GaiaErrorModel::TruncatedFrame { expected: n as nat, received: bytes@ }),
        GaiaError::OddHexDigits@ == GaiaErrorModel::OddHexDigits,
        GaiaError::InvalidHex(e)@ == GaiaErrorModel::InvalidHex(e),
{
}

/// The text of an error names what the error is about: how many bytes there are
/// or should be, and the bytes themselves.
pub proof fn error_texts_name_the_bytes(n: nat, bytes: Seq<u8>, e: HexError)
    ensures
        error_text(GaiaErrorModel::PayloadTooLarge(n))
            == "GAIA payload too large for this simplified framer ("@ + crate::text::decimal(n)
            + " bytes; extended-length framing isn't implemented)"@,
        error_text(GaiaErrorModel::PacketTooShort(bytes))
            == "GAIA packet too short (need at least vendor_id+command_id): "@
            + crate::text::hex_list(bytes),
        error_text(GaiaErrorModel::NotAFrame(bytes))
            == "not a GAIA SPP frame (missing 0xFF start-of-frame byte): "@
            + crate::text::hex_list(bytes),
        error_text((GaiaErrorModel::TruncatedFrame { expected: n, received: bytes }))
            == "truncated GAIA frame: expected "@ + crate::text::decimal(n) + " bytes, got "@
            + crate::text::decimal(bytes.len()) + ": "@ + crate::text::hex_list(bytes),
        error_text(GaiaErrorModel::TruncatedLength) == "truncated extended-length GAIA frame"@,
        error_text(GaiaErrorModel::OddHexDigits)
            == "hex payload must have an even number of digits"@,
        error_text(GaiaErrorModel::InvalidHex(e)) == match e {
            HexError::Empty => "cannot parse integer from empty string"@,
            HexError::InvalidDigit => "invalid digit found in string"@,
            HexError::TooLarge => "number too large to fit in target type"@,
        },
{
}

/// The IDs, categories and values as they go over the wire.
pub proof fn ids_on_the_wire()
    ensures
        SONOVA_VENDOR_ID == 0x0495,
        QUALCOMM_VENDOR_ID == 0x001d,
        SENNHEISER_VENDOR_ID == 0x0494,
        CMD_REGISTER_NOTIFICATION == 0x0007,
        CATEGORY_SONOVA_ANC == 0x0d,
        CATEGORY_SONOVA_CUSTOM_NOISE_CONTROL == 0x0c,
        CATEGORY_SONOVA_BASS_BOOST == 0x08,
        CATEGORY_QUALCOMM_MULTIPOINT == 0x07,
        CMD_QUALCOMM_MULTIPOINT_SET == 0x0e00,
        RSP_QUALCOMM_MULTIPOINT_SET == 0x0e80,
        CMD_SONOVA_MULTIPOINT_STATUS_GET == 0x1409,
        RSP_SONOVA_MULTIPOINT_STATUS_GET == 0x1509,
        CMD_SONOVA_ANC_SET == 0x1a00,
        RSP_SONOVA_ANC_SET == 0x1a81,
        CMD_SONOVA_ANC_SET_COMPANION == 0x1a04,
        RSP_SONOVA_ANC_SET_COMPANION == 0x1a85,
        CMD_SONOVA_CUSTOM_NOISE_CONTROL_SET == 0x1a02,
        RSP_SONOVA_CUSTOM_NOISE_CONTROL_SET == 0x1a83,
        CMD_SONOVA_CUSTOM_NOISE_CONTROL_COMMIT == 0x1a03,
        CMD_SONOVA_CUSTOM_MODE_ACTIVE_NOTIFY == 0x1885,
        CMD_SONOVA_BASS_BOOST_SET == 0x1008,
        RSP_SONOVA_BASS_BOOST_SET == 0x1089,
        CMD_SONOVA_EQ_SET_BAND == 0x1001,
        RSP_SONOVA_EQ_SET_BAND == 0x1082,
        CMD_SONOVA_CROSSFEED_SET == 0x2e00,
        CROSSFEED_OFF == 0x02,
        CROSSFEED_LOW == 0x00,
        CROSSFEED_HIGH == 0x01,
        CMD_SONOVA_CROSSFEED_GET == 0x2e01,
        RSP_SONOVA_CROSSFEED_GET == 0x2f01,
        CMD_ANC_SET == 0x0708,
        CMD_ANC_GET == 0x0788,
        CMD_TRANSPARENCY_SET == 0x0704,
        CMD_TRANSPARENCY_GET == 0x0784,
{
}

/// The presets, each with its name and the gains of its 5 bands.
pub proof fn presets_on_the_device()
    ensures
        EQ_PRESETS@.len() == 9,
        is_preset(0, "neutral"@, 0, 0, 0, 0, 0),
        is_preset(1, "speech-clarity"@, -10, -5, 5, 15, 10),
        is_preset(2, "rock"@, 0, 20, 25, 15, -20),
        is_preset(3, "pop"@, 0, -25, 0, 25, 0),
        is_preset(4, "dance"@, 35, 20, -15, 15, 30),
        is_preset(5, "hip-hop"@, 30, 15, -15, 0, -15),
        is_preset(6, "classical"@, -20, -15, 0, 35, 40),
        is_preset(7, "movie"@, 0, 0, 20, 20, -20),
        is_preset(8, "jazz"@, -32, 0, 22, 22, 0),
{
}

/// Whether the preset at `i` has this name and these gains.
pub open spec fn is_preset(
    i: int,
    name: Seq<char>,
    g0: int,
    g1: int,
    g2: int,
    g3: int,
    g4: int,
) -> bool {
    let gains = EQ_PRESETS@[i].1@;
    &&& EQ_PRESETS@[i].0@ == name
    &&& gains.len() == 5
    &&& gains[0] == g0 && gains[1] == g1 && gains[2] == g2 && gains[3] == g3 && gains[4] == g4
}

/// A result is the modelled one exactly when it is a success that holds the same
/// response, or a refusal for the same reason.
pub proof fn results_are_the_modelled_ones(
    r: Result<GaiaResponse, GaiaError>,
    said: ResponseModel,
    e: GaiaErrorModel,
)
    ensures
        response_result(r, Ok(said)) <==> (r matches Ok(x) && x@ == said),
        response_result(r, Err(e)) <==> (r matches Err(x) && x@ == e),
{
}

/// Text that has a character which is no hexadecimal digit where a byte starts,
/// after complete bytes, is refused as such: a letter of one byte other than a
/// plus sign, or one of two bytes.
pub proof fn stray_characters_are_refused(
    text: Seq<char>,
    head: Seq<char>,
    before: Seq<u8>,
    tail: Seq<char>,
)
    requires
        crate::letters::without_white_space(text) == head + tail,
        spells_bytes(head, before),
        tail.len() > 0,
        crate::hex::digit_value(tail[0]) is None,
        tail[0] != '+',
        0x80 <= (tail[0] as u32) < 0x800 || ((tail[0] as u32) < 0x80 && tail.len() > 1 && (
        tail[1] as u32) < 0x80),
        crate::letters::utf8_len(head + tail) % 2 == 0,
    ensures
        hex_bytes_result(text) == Err::<Seq<u8>, _>(
            GaiaErrorModel::InvalidHex(HexError::InvalidDigit),
        ),
        pairs_are_whole(text),
{
    lemma_stray_character(head, before, tail);
}

proof fn lemma_stray_character(head: Seq<char>, before: Seq<u8>, tail: Seq<char>)
    requires
        spells_bytes(head, before),
        tail.len() > 0,
        crate::hex::digit_value(tail[0]) is None,
        tail[0] != '+',
        0x80 <= (tail[0] as u32) < 0x800 || ((tail[0] as u32) < 0x80 && tail.len() > 1 && (
        tail[1] as u32) < 0x80),
    ensures
        hex_pairs(head + tail) == Some(Err::<Seq<u8>, HexError>(HexError::InvalidDigit)),
    decreases before.len(),
{
    let s = head + tail;
    if before.len() == 0 {
        assert(s =~= tail);
        if (tail[0] as u32) < 0x80 {
            let pair = s.take(2);
            assert(pair.drop_last() =~= seq![tail[0]]);
            assert(seq![tail[0]].drop_last() =~= Seq::<char>::empty());
            reveal_with_fuel(crate::hex::digits, 3);
        }
    } else {
        let rest = head.skip(2);
        let others = before.skip(1);
        assert forall|i: int| 0 <= i < others.len() implies crate::hex::digit_value(rest[2 * i])
            == Some((#[trigger] others[i] / 16) as nat) && crate::hex::digit_value(rest[2 * i + 1])
            == Some((others[i] % 16) as nat) by {
            assert(others[i] == before[i + 1]);
            assert(rest[2 * i] == head[2 * (i + 1)] && rest[2 * i + 1] == head[2 * (i + 1) + 1]);
        }
        lemma_stray_character(rest, others, tail);
        let b = before[0];
        assert(crate::hex::digit_value(head[0]) == Some((b / 16) as nat));
        assert(crate::hex::digit_value(head[1]) == Some((b % 16) as nat));
        let pair = s.take(2);
        assert(pair[0] == head[0] && pair[1] == head[1]);
        assert(s[0] == head[0] && s[1] == head[1]);
        assert(s.skip(2) =~= rest + tail);
        assert(crate::hex::digit_value('+') is None);
        assert(pair.drop_last().drop_last() =~= Seq::<char>::empty());
        reveal_with_fuel(crate::hex::digits, 3);
        assert(crate::hex::number(pair, 0xFF) is Ok);
    }
}

} // verus!
