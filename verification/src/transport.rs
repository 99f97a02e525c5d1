//! The GAIA control channel, over either of two transports.
//!
//! - Classic Bluetooth (RFCOMM): a byte stream. Commands are framed with a
//!   small header (see `gaia::build_frame`), and a [`FrameReader`] takes the
//!   frames off the bytes that arrive.
//! - BLE (GATT): a write+indicate characteristic. There is no extra framing:
//!   the raw packet is written, and each notification is one packet.
//!
//! Both also carry unsolicited pushes, once a client has registered for them
//! (see `commands::register_for_live_status`).

use std::str::FromStr;
use vstd::prelude::*;
use vstd::slice::{slice_subrange, slice_to_vec};
use crate::gaia::{build_frame, build_packet, deframe_one, parse_packet, GaiaError, GaiaErrorModel, GaiaResponse, ResponseModel};

verus! {

/// The classic-Bluetooth SDP UUID of the GAIA RFCOMM service.
pub const GAIA_CLASSIC_UUID: &'static str = "a2129ff3-081b-4c45-8afe-469d9c4842ec";

/// The generic Qualcomm/CSR GAIA GATT service UUID.
pub const GAIA_BLE_SERVICE_UUID: &'static str = "0000eb10-d102-11e1-9b23-00025b00a5a5";

/// The GATT characteristic (write + indicate) that carries GAIA packets.
pub const GAIA_BLE_CHARACTERISTIC_UUID: &'static str = "0000eb13-d102-11e1-9b23-00025b00a5a5";

/// How long to wait for the answer to a command, in seconds.
pub const RESPONSE_TIMEOUT_SECS: u64 = 5;

/// How long to wait for the control channel to open, in seconds.
pub const CONNECT_TIMEOUT_SECS: u64 = 25;

/// How many notifications a subscriber may fall behind before it misses some.
pub const NOTIFICATION_CHANNEL_CAPACITY: usize = 64;

/// Whether text is 32 hexadecimal digits in the groups of a hyphenated UUID.
pub open spec fn is_hyphenated_uuid(s: Seq<char>) -> bool {
    &&& s.len() == 36
    &&& forall|i: int|
        0 <= i < 36 ==> if i == 8 || i == 13 || i == 18 || i == 23 {
            #[trigger] s[i] == '-'
        } else {
            crate::hex::digit_value(s[i]) is Some
        }
}

/// The number that the first `n` characters of a hyphenated UUID spell.
pub open spec fn uuid_number(s: Seq<char>, n: nat) -> nat
    decreases n,
{
    if n == 0 {
        0
    } else if s[n - 1] == '-' {
        uuid_number(s, (n - 1) as nat)
    } else {
        16 * uuid_number(s, (n - 1) as nat) + crate::hex::digit_value(s[n - 1])->0
    }
}

/// The number that a text denotes as a UUID, in any of the accepted forms.
pub uninterp spec fn uuid_value(text: Seq<char>) -> Option<u128>;

/// Calls `Uuid::from_str` of the `uuid` crate and takes the result as a
/// number. It depends on the text alone and is named by [`uuid_value`]. Of the
/// accepted forms only the hyphenated one is spelt out: there the digits, from
/// left to right, are the digits of the number.
#[verifier::external_body]
fn parse_uuid(text: &str) -> (r: Option<u128>)
    ensures
        r == uuid_value(text@),
        is_hyphenated_uuid(text@) ==> r == Some(uuid_number(text@, 36) as u128),
{
    match uuid::Uuid::from_str(text) {
        Ok(id) => Some(id.as_u128()),
        Err(_) => None,
    }
}

/// [`GAIA_CLASSIC_UUID`] as a number.
pub fn gaia_classic_uuid() -> (r: u128)
    ensures
        r == 0xa2129ff3_081b_4c45_8afe_469d9c4842ec,
        Some(r) == uuid_value(GAIA_CLASSIC_UUID@),
{
    proof {
        reveal_strlit("a2129ff3-081b-4c45-8afe-469d9c4842ec");
        reveal_with_fuel(uuid_number, 37);
    }
    assert(is_hyphenated_uuid(GAIA_CLASSIC_UUID@));
    parse_uuid(GAIA_CLASSIC_UUID).unwrap()
}

/// [`GAIA_BLE_SERVICE_UUID`] as a number.
pub fn gaia_ble_service_uuid() -> (r: u128)
    ensures
        r == 0x0000eb10_d102_11e1_9b23_00025b00a5a5,
        Some(r) == uuid_value(GAIA_BLE_SERVICE_UUID@),
{
    proof {
        reveal_strlit("0000eb10-d102-11e1-9b23-00025b00a5a5");
        reveal_with_fuel(uuid_number, 37);
    }
    assert(is_hyphenated_uuid(GAIA_BLE_SERVICE_UUID@));
    parse_uuid(GAIA_BLE_SERVICE_UUID).unwrap()
}

/// [`GAIA_BLE_CHARACTERISTIC_UUID`] as a number.
pub fn gaia_ble_characteristic_uuid() -> (r: u128)
    ensures
        r == 0x0000eb13_d102_11e1_9b23_00025b00a5a5,
        Some(r) == uuid_value(GAIA_BLE_CHARACTERISTIC_UUID@),
{
    proof {
        reveal_strlit("0000eb13-d102-11e1-9b23-00025b00a5a5");
        reveal_with_fuel(uuid_number, 37);
    }
    assert(is_hyphenated_uuid(GAIA_BLE_CHARACTERISTIC_UUID@));
    parse_uuid(GAIA_BLE_CHARACTERISTIC_UUID).unwrap()
}

/// Which physical channel carries the commands.
#[derive(Clone, Copy, Debug, PartialEq, Eq, Structural)]
pub enum TransportKind {
    /// Classic Bluetooth RFCOMM, framed with the SPP header.
    Classic,
    /// BLE GATT write+indicate characteristic, no extra framing.
    Ble,
}

/// What a list of responses says.
pub open spec fn response_models(list: Seq<GaiaResponse>) -> Seq<ResponseModel> {
    list.map_values(|r: GaiaResponse| r@)
}

/// The frames at the front of `buf`, in order, and the bytes that stay
/// buffered after them. A buffer that gets out of sync is emptied.
pub open spec fn drained(buf: Seq<u8>) -> (Seq<ResponseModel>, Seq<u8>)
    decreases buf.len(),
{
    if crate::gaia::out_of_sync(buf) {
        (Seq::empty(), Seq::empty())
    } else if crate::gaia::has_frame(buf) {
        let rest = drained(buf.skip(crate::gaia::frame_len(buf) as int));
        (seq![crate::gaia::frame_response(buf)] + rest.0, rest.1)
    } else {
        (Seq::empty(), buf)
    }
}

/// Whether taking the frames off `buf` runs into a byte that starts no frame.
pub open spec fn loses_sync(buf: Seq<u8>) -> bool
    decreases buf.len(),
{
    if crate::gaia::out_of_sync(buf) {
        true
    } else if crate::gaia::has_frame(buf) {
        loses_sync(buf.skip(crate::gaia::frame_len(buf) as int))
    } else {
        false
    }
}

/// Accumulates the bytes of the classic transport and takes complete frames
/// off them: a frame can arrive split across reads, and several frames can
/// arrive in one read. A malformed frame ends the reader: without frame
/// boundaries nothing after it can be trusted.
pub struct FrameReader {
    buf: Vec<u8>,
    ended: bool,
}

/// What a [`FrameReader`] holds: the bytes of the frame that is still
/// incomplete, and whether a malformed frame has ended it.
#[verifier::ext_equal]
pub struct ReaderModel {
    pub buffer: Seq<u8>,
    pub ended: bool,
}

impl View for FrameReader {
    type V = ReaderModel;

    closed spec fn view(&self) -> ReaderModel {
        ReaderModel { buffer: self.buf@, ended: self.ended }
    }
}

/// A reader that has read nothing.
pub open spec fn fresh_reader() -> ReaderModel {
    ReaderModel { buffer: Seq::empty(), ended: false }
}

/// What a reader makes of a read: the frames that are now complete, and the
/// reader afterwards.
pub open spec fn fed(reader: ReaderModel, bytes: Seq<u8>) -> (Seq<ResponseModel>, ReaderModel) {
    if reader.ended {
        (Seq::empty(), reader)
    } else {
        let all = reader.buffer + bytes;
        (drained(all).0, ReaderModel { buffer: drained(all).1, ended: loses_sync(all) })
    }
}

impl FrameReader {
    /// A reader that has read nothing.
    pub fn new() -> (r: FrameReader)
        ensures
            r@ == fresh_reader(),
    {
        FrameReader { buf: Vec::new(), ended: false }
    }

    /// Whether a malformed frame has ended this reader.
    pub fn has_ended(&self) -> (r: bool)
        ensures
            r == self@.ended,
    {
        self.ended
    }

    /// Takes in bytes as they were read from the socket and returns the
    /// frames that are now complete. At a malformed frame everything that is
    /// buffered is dropped and the reader ends.
    pub fn feed(&mut self, bytes: &[u8]) -> (r: Vec<GaiaResponse>)
        ensures
            (response_models(r@), final(self)@) == fed(old(self)@, bytes@),
    {
        let mut out: Vec<GaiaResponse> = Vec::new();
        assert(response_models(out@) =~= Seq::empty());
        if self.ended {
            return out;
        }
        let ghost all = self.buf@ + bytes@;
        self.buf.extend_from_slice(bytes);
        assert(self.buf@ =~= all);
        assert(response_models(out@) + drained(all).0 =~= drained(all).0);
        loop
            invariant_except_break
                !self.ended,
                drained(all).0 == response_models(out@) + drained(self.buf@).0,
                drained(all).1 == drained(self.buf@).1,
                loses_sync(all) == loses_sync(self.buf@),
            ensures
                drained(all).0 == response_models(out@),
                drained(all).1 == self.buf@,
                loses_sync(all) == self.ended,
            decreases self.buf@.len(),
        {
            match deframe_one(self.buf.as_slice()) {
                Ok(Some((consumed, response))) => {
                    let ghost before = out@;
                    let ghost left = self.buf@.skip(consumed as int);
                    let rest: Vec<u8> = slice_to_vec(
                        slice_subrange(self.buf.as_slice(), consumed, self.buf.len()),
                    );
                    assert(rest@ =~= left);
                    assert(response_models(before.push(response)) + drained(left).0
                        =~= response_models(before) + drained(self.buf@).0);
                    out.push(response);
                    self.buf = rest;
                },
                Ok(None) => {
                    assert(response_models(out@) + Seq::<ResponseModel>::empty()
                        =~= response_models(out@));
                    break ;
                },
                Err(_) => {
                    assert(response_models(out@) + Seq::<ResponseModel>::empty()
                        =~= response_models(out@));
                    self.buf.clear();
                    self.ended = true;
                    break ;
                },
            }
        }
        assert(self@ =~= fed(old(self)@, bytes@).1);
        out
    }
}

/// Reads one BLE notification, which is one packet. Malformed packets are
/// passed over.
pub fn read_notification(data: &[u8]) -> (r: Option<GaiaResponse>)
    ensures
        match crate::gaia::packet_result(data@) {
            Ok(m) => r matches Some(x) && x@ == m,
            Err(_) => r is None,
        },
{
    match parse_packet(data) {
        Ok(response) => Some(response),
        Err(_) => None,
    }
}

/// What goes over the wire for a command: a frame on the classic transport, a
/// bare packet over BLE.
pub open spec fn wire_bytes(
    kind: TransportKind,
    version: u8,
    vendor_id: u16,
    command_id: u16,
    payload: Seq<u8>,
) -> Result<Seq<u8>, GaiaErrorModel> {
    match kind {
        TransportKind::Classic => if payload.len() <= crate::gaia::max_payload() {
            Ok(crate::gaia::frame_bytes(version, vendor_id, command_id, payload))
        } else {
            Err(GaiaErrorModel::PayloadTooLarge(payload.len() + 4))
        },
        TransportKind::Ble => Ok(crate::gaia::packet_bytes(vendor_id, command_id, payload)),
    }
}

/// Encodes a command for a transport.
pub fn encode_command(
    kind: TransportKind,
    version: u8,
    vendor_id: u16,
    command_id: u16,
    payload: &[u8],
) -> (r: Result<Vec<u8>, GaiaError>)
    ensures
        match wire_bytes(kind, version, vendor_id, command_id, payload@) {
            Ok(bytes) => r matches Ok(x) && x@ == bytes,
            Err(m) => r matches Err(x) && x@ == m,
        },
{
    match kind {
        TransportKind::Classic => build_frame(version, vendor_id, command_id, payload),
        TransportKind::Ble => Ok(build_packet(vendor_id, command_id, payload)),
    }
}

/// What to do next while a command is being sent.
pub enum SendStep {
    /// Look again whether a response is already queued, and drop it.
    PollAgain,
    /// Write these bytes, then wait for the response.
    Write(Vec<u8>),
    /// Give up: the command cannot be encoded.
    Refuse(GaiaError),
}

/// Decides what follows a look at the queue of responses. Responses that were
/// queued before the command is written cannot answer it, so they are dropped
/// until the queue is empty; only then is the command encoded and written.
pub fn after_queue_poll(
    response_was_queued: bool,
    kind: TransportKind,
    version: u8,
    vendor_id: u16,
    command_id: u16,
    payload: &[u8],
) -> (r: SendStep)
    ensures
        if response_was_queued {
            r is PollAgain
        } else {
            match wire_bytes(kind, version, vendor_id, command_id, payload@) {
                Ok(bytes) => r matches SendStep::Write(x) && x@ == bytes,
                Err(m) => r matches SendStep::Refuse(x) && x@ == m,
            }
        },
{
    if response_was_queued {
        return SendStep::PollAgain;
    }
    match encode_command(kind, version, vendor_id, command_id, payload) {
        Ok(bytes) => SendStep::Write(bytes),
        Err(e) => SendStep::Refuse(e),
    }
}

/// How the wait for a response ended.
pub enum Reply {
    Arrived(GaiaResponse),
    TimedOut,
    Closed,
}

/// Why a command got no response.
#[derive(Debug, Clone, Copy, PartialEq, Eq, Structural)]
pub enum SendError {
    /// The command could not be written.
    NotWritten(TransportKind),
    /// No response came in time.
    TimedOut(TransportKind),
    /// The channel ended before a response came.
    Closed(TransportKind),
}

/// The text shown for a [`SendError`].
pub open spec fn send_error_text(e: SendError) -> Seq<char> {
    match e {
        SendError::NotWritten(TransportKind::Classic) => "failed to write to the RFCOMM socket"@,
        SendError::NotWritten(TransportKind::Ble) =>
            "failed to write to the GAIA BLE characteristic"@,
        SendError::TimedOut(TransportKind::Classic) =>
            "timed out waiting for a response from the headset"@,
        SendError::TimedOut(TransportKind::Ble) =>
            "timed out waiting for a notification/indication response"@,
        SendError::Closed(TransportKind::Classic) =>
            "RFCOMM connection closed by the device before it replied"@,
        SendError::Closed(TransportKind::Ble) => "notification stream ended without a response"@,
    }
}

impl SendError {
    /// The text shown for this error.
    pub fn message(&self) -> (r: &'static str)
        ensures
            r@ == send_error_text(*self),
    {
        match self {
            SendError::NotWritten(TransportKind::Classic) => "failed to write to the RFCOMM socket",
            SendError::NotWritten(TransportKind::Ble) =>
                "failed to write to the GAIA BLE characteristic",
            SendError::TimedOut(TransportKind::Classic) =>
                "timed out waiting for a response from the headset",
            SendError::TimedOut(TransportKind::Ble) =>
                "timed out waiting for a notification/indication response",
            SendError::Closed(TransportKind::Classic) =>
                "RFCOMM connection closed by the device before it replied",
            SendError::Closed(TransportKind::Ble) => "notification stream ended without a response",
        }
    }
}

/// The outcome of a command: the next response to arrive answers it.
pub fn reply_result(kind: TransportKind, reply: Reply) -> (r: Result<GaiaResponse, SendError>)
    ensures
        match reply {
            Reply::Arrived(response) => r == Ok::<_, SendError>(response),
            Reply::TimedOut => r == Err::<GaiaResponse, _>(SendError::TimedOut(kind)),
            Reply::Closed => r == Err::<GaiaResponse, _>(SendError::Closed(kind)),
        },
{
    match reply {
        Reply::Arrived(response) => Ok(response),
        Reply::TimedOut => Err(SendError::TimedOut(kind)),
        Reply::Closed => Err(SendError::Closed(kind)),
    }
}

/// What happens first when a classic connection is being opened: the profile
/// registration and the connect call are raced against each other, since a
/// failed connect call never hands out a connection.
#[derive(Debug, Clone, Copy, PartialEq, Eq, Structural)]
pub enum ConnectEvent {
    /// The registration hands out a connection.
    Offered,
    /// The registration ends.
    RegistrationEnded,
    /// The connect call returns without error.
    ConnectReturned,
    /// The connect call fails.
    ConnectFailed,
    /// The connect call does not come to an end.
    ConnectPanicked,
}

/// Why the control channel could not be opened.
#[derive(Debug, Clone, Copy, PartialEq, Eq, Structural)]
pub enum ConnectError {
    TimedOut,
    RegistrationEnded,
    NothingOffered,
    NotConnected,
    Panicked,
    NoCharacteristic,
}

/// The text shown for a [`ConnectError`].
pub open spec fn connect_error_text(e: ConnectError) -> Seq<char> {
    match e {
        ConnectError::TimedOut => "timed out opening the GAIA control channel"@,
        ConnectError::RegistrationEnded =>
            "BlueZ closed the profile registration before connecting"@,
        ConnectError::NothingOffered =>
            "BlueZ reported success but never handed us a connection"@,
        ConnectError::NotConnected =>
            "BlueZ could not connect the GAIA RFCOMM channel - the device may not actually expose an SDP service record for this UUID"@,
        ConnectError::Panicked => "BlueZ connect task panicked"@,
        ConnectError::NoCharacteristic => "GATT characteristic "@ + GAIA_BLE_CHARACTERISTIC_UUID@
            + " not found under service "@ + GAIA_BLE_SERVICE_UUID@
            + " - this device may not expose GAIA over BLE"@,
    }
}

impl ConnectError {
    /// The text shown for this error.
    pub fn message(&self) -> (r: String)
        ensures
            r@ == connect_error_text(*self),
    {
        match self {
            ConnectError::TimedOut => "timed out opening the GAIA control channel".to_owned(),
            ConnectError::RegistrationEnded =>
                "BlueZ closed the profile registration before connecting".to_owned(),
            ConnectError::NothingOffered =>
                "BlueZ reported success but never handed us a connection".to_owned(),
            ConnectError::NotConnected =>
                "BlueZ could not connect the GAIA RFCOMM channel - the device may not actually expose an SDP service record for this UUID".to_owned(),
            ConnectError::Panicked => "BlueZ connect task panicked".to_owned(),
            ConnectError::NoCharacteristic => {
                let mut out: String = "GATT characteristic ".to_owned();
                out.append(GAIA_BLE_CHARACTERISTIC_UUID);
                out.append(" not found under service ");
                out.append(GAIA_BLE_SERVICE_UUID);
                out.append(" - this device may not expose GAIA over BLE");
                out
            },
        }
    }
}

/// Decides the race that opens a classic connection: only an offered
/// connection can be accepted.
pub fn classic_connect_result(event: ConnectEvent) -> (r: Result<(), ConnectError>)
    ensures
        r == match event {
            ConnectEvent::Offered => Ok::<(), ConnectError>(()),
            ConnectEvent::RegistrationEnded => Err(ConnectError::RegistrationEnded),
            ConnectEvent::ConnectReturned => Err(ConnectError::NothingOffered),
            ConnectEvent::ConnectFailed => Err(ConnectError::NotConnected),
            ConnectEvent::ConnectPanicked => Err(ConnectError::Panicked),
        },
{
    match event {
        ConnectEvent::Offered => Ok(()),
        ConnectEvent::RegistrationEnded => Err(ConnectError::RegistrationEnded),
        ConnectEvent::ConnectReturned => Err(ConnectError::NothingOffered),
        ConnectEvent::ConnectFailed => Err(ConnectError::NotConnected),
        ConnectEvent::ConnectPanicked => Err(ConnectError::Panicked),
    }
}

/// The search for the GAIA characteristic while the services of a device are
/// walked in order. It holds the place of the last match: the index of the
/// service and of the characteristic in it.
pub struct GattSearch {
    pub service: u128,
    pub characteristic: u128,
    pub found: Option<(usize, usize)>,
}

/// What a search has found after one more characteristic.
pub open spec fn found_after(
    search: GattSearch,
    service_index: usize,
    characteristic_index: usize,
    uuid: u128,
) -> Option<(usize, usize)> {
    if uuid == search.characteristic {
        Some((service_index, characteristic_index))
    } else {
        search.found
    }
}

impl GattSearch {
    /// A search for the GAIA characteristic in the GAIA service.
    pub fn new() -> (r: GattSearch)
        ensures
            r.service == 0x0000eb10_d102_11e1_9b23_00025b00a5a5,
            Some(r.service) == uuid_value(GAIA_BLE_SERVICE_UUID@),
            r.characteristic == 0x0000eb13_d102_11e1_9b23_00025b00a5a5,
            Some(r.characteristic) == uuid_value(GAIA_BLE_CHARACTERISTIC_UUID@),
            r.found is None,
    {
        GattSearch {
            service: gaia_ble_service_uuid(),
            characteristic: gaia_ble_characteristic_uuid(),
            found: None,
        }
    }

    /// Whether the characteristics of a service are to be walked.
    pub fn enters_service(&self, uuid: u128) -> (r: bool)
        ensures
            r == (uuid == self.service),
    {
        uuid == self.service
    }

    /// Takes in one characteristic of a service that was entered, and tells
    /// whether the rest of that service is to be skipped.
    pub fn visit(&mut self, service_index: usize, characteristic_index: usize, uuid: u128) -> (r:
        bool)
        ensures
            r == (uuid == old(self).characteristic),
            final(self).service == old(self).service,
            final(self).characteristic == old(self).characteristic,
            final(self).found == found_after(
                *old(self),
                service_index,
                characteristic_index,
                uuid,
            ),
    {
        if uuid == self.characteristic {
            self.found = Some((service_index, characteristic_index));
            true
        } else {
            false
        }
    }

    /// The outcome of the search.
    pub fn result(&self) -> (r: Result<(usize, usize), ConnectError>)
        ensures
            r == match self.found {
                Some(place) => Ok::<(usize, usize), ConnectError>(place),
                None => Err(ConnectError::NoCharacteristic),
            },
    {
        match self.found {
            Some(place) => Ok(place),
            None => Err(ConnectError::NoCharacteristic),
        }
    }
}

/// Bytes that come after a loss of sync change neither the loss nor the frames
/// that were taken off before it.
pub proof fn lost_sync_stays_lost(buf: Seq<u8>, more: Seq<u8>)
    requires
        loses_sync(buf),
    ensures
        loses_sync(buf + more),
        drained(buf + more) == drained(buf),
    decreases buf.len(),
{
    crate::gaia::later_bytes_do_not_matter(buf, more);
    if !crate::gaia::out_of_sync(buf) {
        let n = crate::gaia::frame_len(buf) as int;
        lost_sync_stays_lost(buf.skip(n), more);
        assert((buf + more).skip(n) =~= buf.skip(n) + more);
    }
}

/// Unless sync is lost, taking the frames off some bytes, and then off what was
/// left over followed by more bytes, gives the frames and the rest that all the
/// bytes at once give.
pub proof fn draining_in_two_steps(buf: Seq<u8>, more: Seq<u8>)
    requires
        !loses_sync(buf),
    ensures
        drained(buf + more).0 == drained(buf).0 + drained(drained(buf).1 + more).0,
        drained(buf + more).1 == drained(drained(buf).1 + more).1,
        loses_sync(buf + more) == loses_sync(drained(buf).1 + more),
    decreases buf.len(),
{
    if crate::gaia::has_frame(buf) {
        crate::gaia::later_bytes_do_not_matter(buf, more);
        let n = crate::gaia::frame_len(buf) as int;
        draining_in_two_steps(buf.skip(n), more);
        assert((buf + more).skip(n) =~= buf.skip(n) + more);
        assert(drained(buf + more).0 =~= drained(buf).0 + drained(drained(buf).1 + more).0);
    } else {
        assert(drained(buf).0 + drained(buf + more).0 =~= drained(buf + more).0);
    }
}

/// What is left over holds no complete frame and is in sync.
pub proof fn rest_is_partial(buf: Seq<u8>)
    ensures
        !crate::gaia::has_frame(drained(buf).1),
        !crate::gaia::out_of_sync(drained(buf).1),
    decreases buf.len(),
{
    if !crate::gaia::out_of_sync(buf) && crate::gaia::has_frame(buf) {
        rest_is_partial(buf.skip(crate::gaia::frame_len(buf) as int));
    }
}

/// All the bytes of some reads.
pub open spec fn joined_reads(reads: Seq<Seq<u8>>) -> Seq<u8>
    decreases reads.len(),
{
    if reads.len() == 0 {
        Seq::empty()
    } else {
        joined_reads(reads.drop_last()) + reads.last()
    }
}

/// The frames that a fresh reader returns over some reads, fed to it one after
/// the other, and the reader afterwards.
pub open spec fn delivered(reads: Seq<Seq<u8>>) -> (Seq<ResponseModel>, ReaderModel)
    decreases reads.len(),
{
    if reads.len() == 0 {
        (Seq::empty(), fresh_reader())
    } else {
        let before = delivered(reads.drop_last());
        let step = fed(before.1, reads.last());
        (before.0 + step.0, step.1)
    }
}

/// How the byte stream is cut into reads does not matter: the reader returns
/// the frames of the whole stream, in order, up to the first malformed one, and
/// keeps the bytes after the last of them.
pub proof fn reads_may_be_cut_anywhere(reads: Seq<Seq<u8>>)
    ensures
        delivered(reads) == fed(fresh_reader(), joined_reads(reads)),
    decreases reads.len(),
{
    let all = joined_reads(reads);
    assert(fresh_reader().buffer + all =~= all);
    if reads.len() > 0 {
        let before = joined_reads(reads.drop_last());
        let last = reads.last();
        reads_may_be_cut_anywhere(reads.drop_last());
        assert(fresh_reader().buffer + before =~= before);
        if loses_sync(before) {
            lost_sync_stays_lost(before, last);
            assert(drained(before).0 + Seq::<ResponseModel>::empty() =~= drained(before).0);
        } else {
            draining_in_two_steps(before, last);
        }
    }
}

/// Whether bytes are one complete frame and nothing else, with or without
/// checksum and extended length.
pub open spec fn is_frame(bytes: Seq<u8>) -> bool {
    crate::gaia::has_frame(bytes) && crate::gaia::frame_len(bytes) == bytes.len()
}

/// What some frames say.
pub open spec fn frame_responses(frames: Seq<Seq<u8>>) -> Seq<ResponseModel> {
    frames.map_values(|f: Seq<u8>| crate::gaia::frame_response(f))
}

/// Frames at the front of a buffer are taken off as exactly what they say, in
/// order, whatever comes after them.
pub proof fn frames_are_taken_off(frames: Seq<Seq<u8>>, rest: Seq<u8>)
    requires
        forall|i: int| 0 <= i < frames.len() ==> is_frame(#[trigger] frames[i]),
    ensures
        drained(joined_reads(frames) + rest) == (
            frame_responses(frames) + drained(rest).0,
            drained(rest).1,
        ),
        loses_sync(joined_reads(frames) + rest) == loses_sync(rest),
    decreases frames.len(),
{
    if frames.len() == 0 {
        assert(joined_reads(frames) + rest =~= rest);
        assert(frame_responses(frames) + drained(rest).0 =~= drained(rest).0);
    } else {
        let earlier = frames.drop_last();
        let last = frames.last();
        assert forall|i: int| 0 <= i < earlier.len() implies is_frame(#[trigger] earlier[i]) by {
            assert(earlier[i] == frames[i]);
        }
        assert(is_frame(frames[frames.len() - 1]));
        frames_are_taken_off(earlier, last + rest);
        crate::gaia::later_bytes_do_not_matter(last, rest);
        assert((last + rest).skip(last.len() as int) =~= rest);
        assert(joined_reads(frames) + rest =~= joined_reads(earlier) + (last + rest));
        assert(frame_responses(frames) + drained(rest).0 =~= frame_responses(earlier) + (seq![
            crate::gaia::frame_response(last),
        ] + drained(rest).0));
    }
}

/// However complete frames, with the first bytes of one more frame after them,
/// are cut into reads, the reader returns exactly what the complete frames say,
/// in order, and keeps the bytes of the incomplete one.
pub proof fn frames_survive_any_cut(
    frames: Seq<Seq<u8>>,
    next: Seq<u8>,
    arrived: int,
    reads: Seq<Seq<u8>>,
)
    requires
        forall|i: int| 0 <= i < frames.len() ==> is_frame(#[trigger] frames[i]),
        is_frame(next),
        0 <= arrived < next.len(),
        joined_reads(reads) == joined_reads(frames) + next.take(arrived),
    ensures
        delivered(reads) == (
            frame_responses(frames),
            (ReaderModel { buffer: next.take(arrived), ended: false }),
        ),
{
    let all = joined_reads(reads);
    let part = next.take(arrived);
    crate::gaia::partial_frame_waits(next, arrived);
    frames_are_taken_off(frames, part);
    reads_may_be_cut_anywhere(reads);
    assert(fresh_reader().buffer + all =~= all);
    assert(frame_responses(frames) + drained(part).0 =~= frame_responses(frames));
}

/// A built frame is a complete frame and says what was built into it.
pub proof fn built_frame_is_a_frame(
    version: u8,
    vendor_id: u16,
    command_id: u16,
    payload: Seq<u8>,
)
    requires
        payload.len() <= crate::gaia::max_payload(),
    ensures
        ({
            let frame = crate::gaia::frame_bytes(version, vendor_id, command_id, payload);
            &&& is_frame(frame)
            &&& crate::gaia::frame_response(frame) == crate::gaia::response_with(
                vendor_id,
                command_id,
                payload,
            )
        }),
{
    let frame = crate::gaia::frame_bytes(version, vendor_id, command_id, payload);
    crate::gaia::frame_round_trip(version, vendor_id, command_id, payload, Seq::empty());
    assert(frame + Seq::<u8>::empty() =~= frame);
}

/// A command that is written is read by the other end as what it says: over BLE
/// as one notification, on the classic transport as one frame, unless the
/// payload is too large to be framed.
pub proof fn written_commands_are_read_back(
    version: u8,
    vendor_id: u16,
    command_id: u16,
    payload: Seq<u8>,
)
    ensures
        ({
            let said = crate::gaia::response_with(vendor_id, command_id, payload);
            let over_ble = wire_bytes(TransportKind::Ble, version, vendor_id, command_id, payload);
            let framed = wire_bytes(
                TransportKind::Classic,
                version,
                vendor_id,
                command_id,
                payload,
            );
            &&& over_ble matches Ok(bytes) && crate::gaia::packet_result(bytes) == Ok::<
                _,
                GaiaErrorModel,
            >(said)
            &&& payload.len() <= crate::gaia::max_payload() ==> (framed matches Ok(bytes) && fed(
                fresh_reader(),
                bytes,
            ) == (seq![said], fresh_reader()))
        }),
{
    crate::gaia::packet_round_trip(vendor_id, command_id, payload);
    if payload.len() <= crate::gaia::max_payload() {
        let frame = crate::gaia::frame_bytes(version, vendor_id, command_id, payload);
        built_frame_is_a_frame(version, vendor_id, command_id, payload);
        frames_are_taken_off(seq![frame], Seq::empty());
        reveal_with_fuel(joined_reads, 2);
        assert(seq![frame].drop_last() =~= Seq::<Seq<u8>>::empty());
        assert(joined_reads(seq![frame]) + Seq::<u8>::empty() =~= frame);
        assert(fresh_reader().buffer + frame =~= frame);
        assert(frame_responses(seq![frame]) + drained(Seq::empty()).0 =~= seq![
            crate::gaia::response_with(vendor_id, command_id, payload),
        ]);
    }
}

/// What the walk over the characteristics of one service, from the one at `j`
/// on, leaves in a search.
pub open spec fn after_service(
    search: GattSearch,
    service_index: usize,
    uuids: Seq<u128>,
    j: int,
) -> GattSearch
    decreases uuids.len() - j,
{
    if j < 0 || j >= uuids.len() {
        search
    } else if uuids[j] == search.characteristic {
        GattSearch {
            found: found_after(search, service_index, j as usize, uuids[j]),
            ..search
        }
    } else {
        after_service(search, service_index, uuids, j + 1)
    }
}

/// What the walk over some services, each given by its UUID and those of its
/// characteristics, leaves in a search.
pub open spec fn after_services(search: GattSearch, services: Seq<(u128, Seq<u128>)>) -> GattSearch
    decreases services.len(),
{
    if services.len() == 0 {
        search
    } else {
        let before = after_services(search, services.drop_last());
        if services.last().0 == before.service {
            after_service(before, (services.len() - 1) as usize, services.last().1, 0)
        } else {
            before
        }
    }
}

/// Whether a place is the first match within its service, and no later service
/// holds a match.
pub open spec fn is_match(
    service: u128,
    characteristic: u128,
    services: Seq<(u128, Seq<u128>)>,
    i: int,
    j: int,
) -> bool {
    &&& 0 <= i < services.len()
    &&& services[i].0 == service
    &&& 0 <= j < services[i].1.len()
    &&& services[i].1[j] == characteristic
    &&& forall|k: int| 0 <= k < j ==> services[i].1[k] != characteristic
    &&& forall|k: int|
        i < k < services.len() && (#[trigger] services[k]).0 == service
            ==> !services[k].1.contains(characteristic)
}

proof fn lemma_after_service(search: GattSearch, service_index: usize, uuids: Seq<u128>, j: int)
    requires
        0 <= j <= uuids.len() <= usize::MAX,
        forall|k: int| 0 <= k < j ==> uuids[k] != search.characteristic,
    ensures
        ({
            let r = after_service(search, service_index, uuids, j);
            &&& r.service == search.service
            &&& r.characteristic == search.characteristic
            &&& !uuids.contains(search.characteristic) ==> r.found == search.found
            &&& uuids.contains(search.characteristic) ==> match r.found {
                Some((i, first)) => {
                    &&& i == service_index
                    &&& 0 <= first < uuids.len()
                    &&& uuids[first as int] == search.characteristic
                    &&& forall|k: int| 0 <= k < first ==> uuids[k] != search.characteristic
                },
                None => false,
            }
        }),
    decreases uuids.len() - j,
{
    if j < uuids.len() {
        if uuids[j] == search.characteristic {
            assert(uuids.contains(search.characteristic));
        } else {
            lemma_after_service(search, service_index, uuids, j + 1);
        }
    }
}

/// The search ends with the first matching characteristic of the last service
/// that matches and has one, and with nothing exactly when there is none.
pub proof fn search_finds_the_last_match(search: GattSearch, services: Seq<(u128, Seq<u128>)>)
    requires
        search.found is None,
        services.len() <= usize::MAX,
        forall|i: int| 0 <= i < services.len() ==> (#[trigger] services[i]).1.len() <= usize::MAX,
    ensures
        ({
            let r = after_services(search, services);
            &&& r.service == search.service
            &&& r.characteristic == search.characteristic
            &&& match r.found {
                Some((i, j)) => is_match(
                    search.service,
                    search.characteristic,
                    services,
                    i as int,
                    j as int,
                ),
                None => forall|k: int|
                    0 <= k < services.len() && (#[trigger] services[k]).0 == search.service
                        ==> !services[k].1.contains(search.characteristic),
            }
        }),
    decreases services.len(),
{
    if services.len() > 0 {
        let earlier = services.drop_last();
        let last = services.last();
        assert forall|i: int| 0 <= i < earlier.len() implies (#[trigger] earlier[i]).1.len()
            <= usize::MAX by {
            assert(earlier[i] == services[i]);
        }
        search_finds_the_last_match(search, earlier);
        let before = after_services(search, earlier);
        assert(services[services.len() - 1] == last);
        assert(forall|k: int| 0 <= k < earlier.len() ==> earlier[k] == services[k]);
        if last.0 == before.service {
            lemma_after_service(before, (services.len() - 1) as usize, last.1, 0);
        }
    }
}

/// What is written for a command on the classic transport: the start byte, the
/// version of the command, no flags, the length of the payload, the two IDs with
/// the high byte first, and the payload. A payload of more than 250 bytes is
/// refused, with the length of its packet.
pub proof fn classic_bytes(version: u8, vendor_id: u16, command_id: u16, payload: Seq<u8>)
    ensures
        payload.len() <= 250 ==> match wire_bytes(
            TransportKind::Classic,
            version,
            vendor_id,
            command_id,
            payload,
        ) {
            Ok(b) => {
                &&& b.len() == 8 + payload.len()
                &&& b[0] == 0xFF && b[1] == version && b[2] == 0 && b[3] == payload.len()
                &&& b[4] * 256 + b[5] == vendor_id
                &&& b[6] * 256 + b[7] == command_id
                &&& forall|i: int| 0 <= i < payload.len() ==> b[8 + i] == #[trigger] payload[i]
            },
            Err(_) => false,
        },
        payload.len() > 250 ==> wire_bytes(
            TransportKind::Classic,
            version,
            vendor_id,
            command_id,
            payload,
        ) == Err::<Seq<u8>, _>(GaiaErrorModel::PayloadTooLarge((payload.len() + 4) as nat)),
{
    if payload.len() <= 250 {
        crate::gaia::frame_layout(version, vendor_id, command_id, payload);
    }
}

/// What is written for a command over BLE: the two IDs with the high byte first
/// and the payload, however long. The version is not written.
pub proof fn ble_bytes(version: u8, vendor_id: u16, command_id: u16, payload: Seq<u8>)
    ensures
        match wire_bytes(TransportKind::Ble, version, vendor_id, command_id, payload) {
            Ok(b) => {
                &&& b.len() == 4 + payload.len()
                &&& b[0] * 256 + b[1] == vendor_id
                &&& b[2] * 256 + b[3] == command_id
                &&& forall|i: int| 0 <= i < payload.len() ==> b[4 + i] == #[trigger] payload[i]
            },
            Err(_) => false,
        },
{
    crate::gaia::packet_layout(vendor_id, command_id, payload);
}

/// Two commands that are written alike on the classic transport are the same
/// command in every part, the version included; over BLE they are the same but
/// for the version.
pub proof fn written_bytes_tell_commands_apart(
    version_1: u8,
    vendor_1: u16,
    command_1: u16,
    payload_1: Seq<u8>,
    version_2: u8,
    vendor_2: u16,
    command_2: u16,
    payload_2: Seq<u8>,
    kind: TransportKind,
)
    requires
        wire_bytes(kind, version_1, vendor_1, command_1, payload_1) is Ok,
        wire_bytes(kind, version_1, vendor_1, command_1, payload_1) == wire_bytes(
            kind,
            version_2,
            vendor_2,
            command_2,
            payload_2,
        ),
    ensures
        kind == TransportKind::Classic ==> version_1 == version_2,
        vendor_1 == vendor_2,
        command_1 == command_2,
        payload_1 == payload_2,
{
    match kind {
        TransportKind::Classic => {
            crate::gaia::frames_are_unambiguous(
                version_1,
                vendor_1,
                command_1,
                payload_1,
                version_2,
                vendor_2,
                command_2,
                payload_2,
            );
        },
        TransportKind::Ble => {
            crate::gaia::packets_are_unambiguous(
                vendor_1,
                command_1,
                payload_1,
                vendor_2,
                command_2,
                payload_2,
            );
        },
    }
}

/// A byte that starts no frame, where a frame should start, ends the reader: the
/// frames before it are returned, nothing that follows it ever is, and nothing
/// stays buffered, however the bytes are cut into reads.
pub proof fn stray_byte_ends_the_reader(
    frames: Seq<Seq<u8>>,
    stray: u8,
    rest: Seq<u8>,
    reads: Seq<Seq<u8>>,
)
    requires
        forall|i: int| 0 <= i < frames.len() ==> is_frame(#[trigger] frames[i]),
        stray != 0xFF,
        joined_reads(reads) == joined_reads(frames) + (seq![stray] + rest),
    ensures
        delivered(reads) == (
            frame_responses(frames),
            (ReaderModel { buffer: Seq::empty(), ended: true }),
        ),
{
    let bad = seq![stray] + rest;
    let all = joined_reads(reads);
    crate::gaia::only_the_start_byte_starts_a_frame(stray, rest);
    frames_are_taken_off(frames, bad);
    reads_may_be_cut_anywhere(reads);
    assert(fresh_reader().buffer + all =~= all);
    assert(frame_responses(frames) + drained(bad).0 =~= frame_responses(frames));
}

/// A frame of any kind, fed to a fresh reader in one go, is returned as what its
/// packet says; fed in two pieces, it is returned with the second. A reader that
/// has ended returns nothing and stays as it is.
pub proof fn one_frame_is_returned(
    version: u8,
    flags: u8,
    packet: Seq<u8>,
    checksum: u8,
    cut: int,
    ended: ReaderModel,
)
    requires
        4 <= packet.len(),
        packet.len() <= if flags % 4 >= 2 {
            65539
        } else {
            259int
        },
        0 <= cut < crate::gaia::frame_with_flags(version, flags, packet, checksum).len(),
        ended.ended,
    ensures
        ({
            let frame = crate::gaia::frame_with_flags(version, flags, packet, checksum);
            let first = fed(fresh_reader(), frame.take(cut));
            let second = fed(first.1, frame.skip(cut));
            &&& first.0.len() == 0
            &&& second.0.len() == 1
            &&& Ok::<_, GaiaErrorModel>(second.0[0]) == crate::gaia::packet_result(packet)
            &&& second.1 == fresh_reader()
            &&& fed(ended, frame) == (Seq::<ResponseModel>::empty(), ended)
        }),
{
    let frame = crate::gaia::frame_with_flags(version, flags, packet, checksum);
    let part = frame.take(cut);
    crate::gaia::frames_are_read_by_their_flags(version, flags, packet, checksum, Seq::empty());
    crate::gaia::cut_frames_are_refused(version, flags, packet, checksum, cut);
    assert(frame + Seq::<u8>::empty() =~= frame);
    assert(fresh_reader().buffer + part =~= part);
    assert(part + frame.skip(cut) =~= frame);
    assert(frame.skip(frame.len() as int) =~= Seq::<u8>::empty());
    reveal_with_fuel(drained, 3);
    reveal_with_fuel(loses_sync, 3);
}

/// A list of responses is viewed response by response.
pub proof fn response_lists_are_viewed_whole(list: Seq<GaiaResponse>, i: int)
    requires
        0 <= i < list.len(),
    ensures
        response_models(list).len() == list.len(),
        response_models(list)[i] == list[i]@,
{
}

/// What is waited for, and how long, in seconds; and how far a subscriber may
/// fall behind.
pub proof fn limits()
    ensures
        RESPONSE_TIMEOUT_SECS == 5,
        CONNECT_TIMEOUT_SECS == 25,
        NOTIFICATION_CHANNEL_CAPACITY == 64,
{
}

/// One look at a characteristic during the search: a match is taken over whatever
/// was found before, anything else leaves the search as it was.
pub proof fn a_match_replaces_the_last(search: GattSearch, i: usize, j: usize, uuid: u128)
    ensures
        uuid == search.characteristic ==> found_after(search, i, j, uuid) == Some((i, j)),
        uuid != search.characteristic ==> found_after(search, i, j, uuid) == search.found,
{
}

} // verus!
