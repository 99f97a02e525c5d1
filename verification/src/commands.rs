//! High-level GAIA control operations (ANC, transparency, EQ, etc).
//!
//! Each operation is given by the requests that it sends, in order, so that
//! callers need not know vendor IDs and command IDs; a [`CommandRun`] walks
//! through the requests of one operation. [`interpret_event`] decodes what the
//! headset sends.

use vstd::prelude::*;
use crate::gaia::{
    GaiaResponse, ResponseModel, CATEGORY_QUALCOMM_MULTIPOINT, CATEGORY_SONOVA_ANC,
    CATEGORY_SONOVA_BASS_BOOST, CATEGORY_SONOVA_CUSTOM_NOISE_CONTROL, CMD_ANC_GET,
    CMD_QUALCOMM_MULTIPOINT_SET, CMD_REGISTER_NOTIFICATION, CMD_SONOVA_ANC_SET,
    CMD_SONOVA_ANC_SET_COMPANION, CMD_SONOVA_BASS_BOOST_SET, CMD_SONOVA_CROSSFEED_GET,
    CMD_SONOVA_CROSSFEED_SET, CMD_SONOVA_CUSTOM_MODE_ACTIVE_NOTIFY,
    CMD_SONOVA_CUSTOM_NOISE_CONTROL_COMMIT, CMD_SONOVA_CUSTOM_NOISE_CONTROL_SET,
    CMD_SONOVA_EQ_SET_BAND, CMD_SONOVA_MULTIPOINT_STATUS_GET, CMD_TRANSPARENCY_GET,
    CMD_TRANSPARENCY_SET, CROSSFEED_HIGH, CROSSFEED_LOW, CROSSFEED_OFF, EQ_PRESETS,
    QUALCOMM_VENDOR_ID, RSP_QUALCOMM_MULTIPOINT_SET, RSP_SONOVA_ANC_SET,
    RSP_SONOVA_ANC_SET_COMPANION, RSP_SONOVA_BASS_BOOST_SET, RSP_SONOVA_CROSSFEED_GET,
    RSP_SONOVA_CUSTOM_NOISE_CONTROL_SET, RSP_SONOVA_EQ_SET_BAND,
    RSP_SONOVA_MULTIPOINT_STATUS_GET, SENNHEISER_VENDOR_ID, SONOVA_VENDOR_ID,
};
use crate::letters::to_lowercase;
use crate::text::{join, same_text};

verus! {

/// How many hosts multipoint serves. The headphones report a count, not the
/// identities of the connected devices.
#[derive(Debug, Clone, Copy, PartialEq, Eq, Structural)]
pub enum MultipointStatus {
    On,
    Off,
    Unknown(u8),
    NoValue,
}

/// What a reported count means.
pub open spec fn multipoint_count(count: u8) -> MultipointStatus {
    if count == 2 {
        MultipointStatus::On
    } else if count == 1 {
        MultipointStatus::Off
    } else {
        MultipointStatus::Unknown(count)
    }
}

fn multipoint_of_count(count: u8) -> (r: MultipointStatus)
    ensures
        r == multipoint_count(count),
{
    match count {
        2 => MultipointStatus::On,
        1 => MultipointStatus::Off,
        other => MultipointStatus::Unknown(other),
    }
}

/// The Crossfeed levels. The values on the wire do not follow their order.
#[derive(Debug, Clone, Copy, PartialEq, Eq, Structural)]
pub enum CrossfeedLevel {
    Off,
    Low,
    High,
}

/// The value of a level on the wire.
pub open spec fn crossfeed_byte(level: CrossfeedLevel) -> u8 {
    match level {
        CrossfeedLevel::Off => CROSSFEED_OFF,
        CrossfeedLevel::Low => CROSSFEED_LOW,
        CrossfeedLevel::High => CROSSFEED_HIGH,
    }
}

impl CrossfeedLevel {
    /// The value of this level on the wire.
    pub fn to_wire(self) -> (r: u8)
        ensures
            r == crossfeed_byte(self),
    {
        match self {
            CrossfeedLevel::Off => CROSSFEED_OFF,
            CrossfeedLevel::Low => CROSSFEED_LOW,
            CrossfeedLevel::High => CROSSFEED_HIGH,
        }
    }

    /// Decodes the value on the wire; `None` for anything that is no level,
    /// rather than guessing.
    pub fn from_wire(value: u8) -> (r: Option<CrossfeedLevel>)
        ensures
            r == crossfeed_level(value),
    {
        if value == CROSSFEED_OFF {
            Some(CrossfeedLevel::Off)
        } else if value == CROSSFEED_LOW {
            Some(CrossfeedLevel::Low)
        } else if value == CROSSFEED_HIGH {
            Some(CrossfeedLevel::High)
        } else {
            None
        }
    }
}

/// The level that a value on the wire stands for.
pub open spec fn crossfeed_level(value: u8) -> Option<CrossfeedLevel> {
    if value == 2 {
        Some(CrossfeedLevel::Off)
    } else if value == 0 {
        Some(CrossfeedLevel::Low)
    } else if value == 1 {
        Some(CrossfeedLevel::High)
    } else {
        None
    }
}

/// The number that a byte stands for in two's complement.
pub open spec fn signed_byte(b: u8) -> int {
    if b < 128 {
        b as int
    } else {
        b - 256
    }
}

fn signed_of(b: u8) -> (r: i8)
    ensures
        r == signed_byte(b),
{
    assert(b < 128 ==> b as i8 == b) by (bit_vector);
    assert(b >= 128 ==> b as i8 == b - 256) by (bit_vector);
    b as i8
}

fn byte_of(v: i8) -> (r: u8)
    ensures
        signed_byte(r) == v,
{
    assert(v >= 0 ==> v as u8 == v) by (bit_vector);
    assert(v < 0 ==> v as u8 == v + 256) by (bit_vector);
    v as u8
}

/// A push notification or command acknowledgement, decoded from a
/// [`GaiaResponse`] by [`interpret_event`].
///
/// Once a connection has registered (see [`register_for_live_status`]), the
/// headset sends the current value of each registered setting, and then every
/// later change, including those made with its own buttons.
#[derive(Debug, Clone, Copy)]
pub enum DeviceEvent {
    AncMode(bool),
    AntiWind(bool),
    CustomNoiseControl(u8),
    CustomModeActive(bool),
    BassBoost(bool),
    MultipointEnabled(bool),
    MultipointStatus(MultipointStatus),
    Crossfeed(CrossfeedLevel),
    /// The gains of all 5 bands, in order.
    EqBands([i8; 5]),
}

/// What a [`DeviceEvent`] tells.
#[verifier::ext_equal]
pub enum EventModel {
    AncMode(bool),
    AntiWind(bool),
    CustomNoiseControl(u8),
    CustomModeActive(bool),
    BassBoost(bool),
    MultipointEnabled(bool),
    MultipointStatus(MultipointStatus),
    Crossfeed(CrossfeedLevel),
    EqBands(Seq<i8>),
}

impl View for DeviceEvent {
    type V = EventModel;

    open spec fn view(&self) -> EventModel {
        match *self {
            DeviceEvent::AncMode(on) => EventModel::AncMode(on),
            DeviceEvent::AntiWind(on) => EventModel::AntiWind(on),
            DeviceEvent::CustomNoiseControl(percent) => EventModel::CustomNoiseControl(percent),
            DeviceEvent::CustomModeActive(on) => EventModel::CustomModeActive(on),
            DeviceEvent::BassBoost(on) => EventModel::BassBoost(on),
            DeviceEvent::MultipointEnabled(on) => EventModel::MultipointEnabled(on),
            DeviceEvent::MultipointStatus(status) => EventModel::MultipointStatus(status),
            DeviceEvent::Crossfeed(level) => EventModel::Crossfeed(level),
            DeviceEvent::EqBands(gains) => EventModel::EqBands(gains@),
        }
    }
}

/// What the acknowledgement of a noise-control parameter tells: its last two
/// bytes are the parameter and its state.
pub open spec fn noise_control_event(payload: Seq<u8>) -> Option<EventModel> {
    if payload.len() < 2 {
        None
    } else {
        let param = payload[payload.len() - 2];
        let on = payload[payload.len() - 1] == 1;
        if param == 3 {
            Some(EventModel::AncMode(on))
        } else if param == 1 {
            Some(EventModel::AntiWind(on))
        } else {
            None
        }
    }
}

/// What a response with one value tells, by its command ID. The value is where
/// a status would be.
pub open spec fn value_event(command_id: u16, value: u8) -> Option<EventModel> {
    if command_id == RSP_SONOVA_ANC_SET_COMPANION {
        Some(EventModel::AncMode(value == 1))
    } else if command_id == RSP_SONOVA_CUSTOM_NOISE_CONTROL_SET {
        Some(EventModel::CustomNoiseControl(value))
    } else if command_id == CMD_SONOVA_CUSTOM_MODE_ACTIVE_NOTIFY {
        Some(EventModel::CustomModeActive(value == 1))
    } else if command_id == RSP_SONOVA_BASS_BOOST_SET {
        Some(EventModel::BassBoost(value == 1))
    } else if command_id == RSP_SONOVA_CROSSFEED_GET {
        match crossfeed_level(value) {
            Some(level) => Some(EventModel::Crossfeed(level)),
            None => None,
        }
    } else if command_id == RSP_SONOVA_MULTIPOINT_STATUS_GET {
        Some(EventModel::MultipointStatus(multipoint_count(value)))
    } else {
        None
    }
}

/// What a snapshot of the gains tells: the first gain and the other four.
pub open spec fn gains_event(first: u8, others: Seq<u8>) -> EventModel {
    EventModel::EqBands(
        seq![
            signed_byte(first) as i8,
            signed_byte(others[0]) as i8,
            signed_byte(others[1]) as i8,
            signed_byte(others[2]) as i8,
            signed_byte(others[3]) as i8,
        ],
    )
}

/// What a response tells, if it is one whose meaning is known.
pub open spec fn event(resp: ResponseModel) -> Option<EventModel> {
    if resp.vendor_id == SONOVA_VENDOR_ID {
        if resp.command_id == RSP_SONOVA_ANC_SET {
            noise_control_event(resp.payload)
        } else {
            match resp.status {
                None => None,
                Some(value) => if resp.command_id == RSP_SONOVA_EQ_SET_BAND {
                    if resp.payload.len() == 4 {
                        Some(gains_event(value, resp.payload))
                    } else {
                        None
                    }
                } else {
                    value_event(resp.command_id, value)
                },
            }
        }
    } else if resp.vendor_id == QUALCOMM_VENDOR_ID {
        match resp.status {
            Some(value) => if resp.command_id == RSP_QUALCOMM_MULTIPOINT_SET {
                Some(EventModel::MultipointEnabled(value == 1))
            } else {
                None
            },
            None => None,
        }
    } else {
        None
    }
}

/// Decodes a response into a [`DeviceEvent`]. `None` means that there is
/// nothing to update, not that something failed: the command is not one that
/// this library decodes, or the response carries no value.
pub fn interpret_event(resp: &GaiaResponse) -> (r: Option<DeviceEvent>)
    ensures
        match event(resp@) {
            Some(m) => r matches Some(e) && e@ == m,
            None => r is None,
        },
{
    let payload: &[u8] = resp.payload.as_slice();
    let sonova: bool = resp.vendor_id == SONOVA_VENDOR_ID;
    if sonova && resp.command_id == RSP_SONOVA_ANC_SET {
        if payload.len() < 2 {
            return None;
        }
        let param: u8 = payload[payload.len() - 2];
        let state: u8 = payload[payload.len() - 1];
        return match param {
            0x03 => Some(DeviceEvent::AncMode(state == 1)),
            0x01 => Some(DeviceEvent::AntiWind(state == 1)),
            _ => None,
        };
    }
    let value: u8 = match resp.status {
        Some(value) => value,
        None => return None,
    };
    if resp.vendor_id == QUALCOMM_VENDOR_ID {
        return if resp.command_id == RSP_QUALCOMM_MULTIPOINT_SET {
            Some(DeviceEvent::MultipointEnabled(value == 1))
        } else {
            None
        };
    }
    if !sonova {
        return None;
    }
    if resp.command_id == RSP_SONOVA_ANC_SET_COMPANION {
        Some(DeviceEvent::AncMode(value == 1))
    } else if resp.command_id == RSP_SONOVA_CUSTOM_NOISE_CONTROL_SET {
        Some(DeviceEvent::CustomNoiseControl(value))
    } else if resp.command_id == CMD_SONOVA_CUSTOM_MODE_ACTIVE_NOTIFY {
        Some(DeviceEvent::CustomModeActive(value == 1))
    } else if resp.command_id == RSP_SONOVA_BASS_BOOST_SET {
        Some(DeviceEvent::BassBoost(value == 1))
    } else if resp.command_id == RSP_SONOVA_CROSSFEED_GET {
        match CrossfeedLevel::from_wire(value) {
            Some(level) => Some(DeviceEvent::Crossfeed(level)),
            None => None,
        }
    } else if resp.command_id == RSP_SONOVA_EQ_SET_BAND {
        if payload.len() != 4 {
            return None;
        }
        let gains: [i8; 5] = [
            signed_of(value),
            signed_of(payload[0]),
            signed_of(payload[1]),
            signed_of(payload[2]),
            signed_of(payload[3]),
        ];
        let ghost m = gains_event(value, payload@);
        assert(m matches EventModel::EqBands(list) && gains@ =~= list);
        Some(DeviceEvent::EqBands(gains))
    } else if resp.command_id == RSP_SONOVA_MULTIPOINT_STATUS_GET {
        Some(DeviceEvent::MultipointStatus(multipoint_of_count(value)))
    } else {
        None
    }
}

/// A command for the headset.
#[derive(Debug, Clone)]
pub struct Request {
    pub version: u8,
    pub vendor_id: u16,
    pub command_id: u16,
    pub payload: Vec<u8>,
}

/// What a [`Request`] holds.
#[verifier::ext_equal]
pub struct RequestModel {
    pub version: u8,
    pub vendor_id: u16,
    pub command_id: u16,
    pub payload: Seq<u8>,
}

impl View for Request {
    type V = RequestModel;

    open spec fn view(&self) -> RequestModel {
        RequestModel {
            version: self.version,
            vendor_id: self.vendor_id,
            command_id: self.command_id,
            payload: self.payload@,
        }
    }
}

/// What a list of requests holds.
pub open spec fn request_models(list: Seq<Request>) -> Seq<RequestModel> {
    list.map_values(|r: Request| r@)
}

/// A command of the older protocol version, in Sennheiser's namespace.
pub open spec fn older(command_id: u16, payload: Seq<u8>) -> RequestModel {
    RequestModel { version: 1, vendor_id: SENNHEISER_VENDOR_ID, command_id, payload }
}

/// A command in Sonova's namespace.
pub open spec fn sonova(command_id: u16, payload: Seq<u8>) -> RequestModel {
    RequestModel { version: 3, vendor_id: SONOVA_VENDOR_ID, command_id, payload }
}

/// A command in Qualcomm's namespace.
pub open spec fn qualcomm(command_id: u16, payload: Seq<u8>) -> RequestModel {
    RequestModel { version: 3, vendor_id: QUALCOMM_VENDOR_ID, command_id, payload }
}

/// A switch as a byte.
pub open spec fn switch_byte(on: bool) -> u8 {
    if on {
        1
    } else {
        0
    }
}

fn switch(on: bool) -> (r: u8)
    ensures
        r == switch_byte(on),
{
    if on {
        1
    } else {
        0
    }
}

/// Any command at all, for experiments with commands that this library does
/// not otherwise know about.
pub fn send_raw(version: u8, vendor_id: u16, command_id: u16, payload: Vec<u8>) -> (r: Request)
    ensures
        r@ == (RequestModel { version, vendor_id, command_id, payload: payload@ }),
{
    Request { version, vendor_id, command_id, payload }
}

/// Asks for the ANC state on older firmware.
pub fn anc_status() -> (r: Request)
    ensures
        r@ == older(CMD_ANC_GET, Seq::empty()),
{
    send_raw(1, SENNHEISER_VENDOR_ID, CMD_ANC_GET, Vec::new())
}

/// Changes the ANC mode: the mode itself, and then its companion command.
pub fn set_anc(adaptive: bool) -> (r: Vec<Request>)
    ensures
        request_models(r@) == seq![
            sonova(CMD_SONOVA_ANC_SET, seq![3u8, switch_byte(adaptive)]),
            sonova(CMD_SONOVA_ANC_SET_COMPANION, seq![switch_byte(adaptive)]),
        ],
{
    let state: u8 = switch(adaptive);
    let primary: Request = send_raw(3, SONOVA_VENDOR_ID, CMD_SONOVA_ANC_SET, vec![3, state]);
    let companion: Request = send_raw(
        3,
        SONOVA_VENDOR_ID,
        CMD_SONOVA_ANC_SET_COMPANION,
        vec![state],
    );
    assert(primary@ =~= sonova(CMD_SONOVA_ANC_SET, seq![3u8, switch_byte(adaptive)]));
    assert(companion@ =~= sonova(CMD_SONOVA_ANC_SET_COMPANION, seq![switch_byte(adaptive)]));
    vec![primary, companion]
}

/// Asks for the transparency state on older firmware.
pub fn transparency_status() -> (r: Request)
    ensures
        r@ == older(CMD_TRANSPARENCY_GET, Seq::empty()),
{
    send_raw(1, SENNHEISER_VENDOR_ID, CMD_TRANSPARENCY_GET, Vec::new())
}

/// Turns transparency on or off on older firmware.
pub fn set_transparency(on: bool) -> (r: Request)
    ensures
        r@ == older(CMD_TRANSPARENCY_SET, seq![switch_byte(on)]),
{
    send_raw(1, SENNHEISER_VENDOR_ID, CMD_TRANSPARENCY_SET, vec![switch(on)])
}

/// Turns Bass Boost on or off.
pub fn set_bass_boost(on: bool) -> (r: Request)
    ensures
        r@ == sonova(CMD_SONOVA_BASS_BOOST_SET, seq![switch_byte(on)]),
{
    send_raw(3, SONOVA_VENDOR_ID, CMD_SONOVA_BASS_BOOST_SET, vec![switch(on)])
}

/// The byte that stands for a number in two's complement.
pub open spec fn two_complement(v: i8) -> u8 {
    if v >= 0 {
        v as u8
    } else {
        (v + 256) as u8
    }
}

/// The command that sets one EQ band.
pub open spec fn eq_band(band: u8, gain: i8) -> RequestModel {
    sonova(CMD_SONOVA_EQ_SET_BAND, seq![band, two_complement(gain)])
}

/// Sets one EQ band.
pub fn set_eq_band(band: u8, gain: i8) -> (r: Request)
    ensures
        r@ == eq_band(band, gain),
{
    send_raw(3, SONOVA_VENDOR_ID, CMD_SONOVA_EQ_SET_BAND, vec![band, byte_of(gain)])
}

/// Whether a preset has this name.
pub open spec fn is_named(index: int, key: Seq<char>) -> bool {
    0 <= index < 9 && EQ_PRESETS@[index].0@ == key
}

/// The commands that set all 5 bands, in order.
pub open spec fn eq_bands(gains: Seq<i8>) -> Seq<RequestModel> {
    Seq::new(gains.len(), |i: int| eq_band(i as u8, gains[i]))
}

/// The names of the presets.
pub open spec fn preset_names() -> Seq<Seq<char>> {
    Seq::new(9, |i: int| EQ_PRESETS@[i].0@)
}

/// No preset has this name.
#[derive(Debug, Clone)]
pub struct UnknownPreset {
    pub name: String,
}

impl UnknownPreset {
    /// The text shown for this error.
    pub fn message(&self) -> (r: String)
        ensures
            r@ == "unknown preset '"@ + self.name@ + "'. Known presets: "@ + crate::text::joined(
                preset_names(),
                ", "@,
            ),
    {
        let mut names: Vec<String> = Vec::new();
        let mut i: usize = 0;
        while i < 9
            invariant
                i <= 9,
                names@.len() == i,
                forall|k: int| 0 <= k < i ==> (#[trigger] names@[k])@ == EQ_PRESETS@[k].0@,
            decreases 9 - i,
        {
            let presets: [(&'static str, [i8; 5]); 9] = EQ_PRESETS;
            names.push(presets[i].0.to_owned());
            i += 1;
        }
        assert(crate::text::texts(names@) =~= preset_names());
        let mut out: String = "unknown preset '".to_owned();
        out.append(self.name.as_str());
        out.append("'. Known presets: ");
        out.append(join(&names, ", ").as_str());
        out
    }
}

/// Finds the preset with exactly this name.
pub fn find_preset_named(key: &str) -> (r: Option<usize>)
    ensures
        match r {
            Some(i) => is_named(i as int, key@) && forall|k: int| 0 <= k < i ==> !is_named(k, key@),
            None => forall|k: int| !is_named(k, key@),
        },
{
    let presets: [(&'static str, [i8; 5]); 9] = EQ_PRESETS;
    let mut i: usize = 0;
    while i < 9
        invariant
            i <= 9,
            presets == EQ_PRESETS,
            forall|k: int| 0 <= k < i ==> !is_named(k, key@),
        decreases 9 - i,
    {
        if same_text(presets[i].0, key) {
            return Some(i);
        }
        i += 1;
    }
    None
}

/// Whether a result is that of looking up a key: the preset of that name and
/// the commands that apply it, or, if there is none, the refusal of `name`.
pub open spec fn preset_result(
    r: Result<([i8; 5], Vec<Request>), UnknownPreset>,
    name: Seq<char>,
    key: Seq<char>,
) -> bool {
    match r {
        Ok((gains, requests)) => request_models(requests@) == eq_bands(gains@) && exists|i: int| #[trigger]
            is_named(i, key) && EQ_PRESETS@[i].1 == gains,
        Err(e) => e.name@ == name && forall|i: int| !is_named(i, key),
    }
}

/// The commands that set all 5 bands, in order.
pub fn eq_preset_requests(gains: [i8; 5]) -> (r: Vec<Request>)
    ensures
        request_models(r@) == eq_bands(gains@),
{
    let mut out: Vec<Request> = Vec::new();
    let mut band: u8 = 0;
    while band < 5
        invariant
            band <= 5,
            out@.len() == band,
            forall|k: int| 0 <= k < band ==> (#[trigger] out@[k])@ == eq_band(k as u8, gains@[k]),
        decreases 5 - band,
    {
        out.push(set_eq_band(band, gains[band as usize]));
        band += 1;
    }
    assert(request_models(out@) =~= eq_bands(gains@));
    out
}

/// Applies a named preset, whatever the case of the name: its gains, and the
/// commands that set all 5 bands in sequence.
pub fn set_eq_preset(name: &str) -> (r: Result<([i8; 5], Vec<Request>), UnknownPreset>)
    ensures
        preset_result(r, name@, crate::letters::lowered(name@)),
{
    let key: String = to_lowercase(name);
    match find_preset_named(key.as_str()) {
        Some(i) => {
            let presets: [(&'static str, [i8; 5]); 9] = EQ_PRESETS;
            let gains: [i8; 5] = presets[i].1;
            assert(is_named(i as int, key@) && EQ_PRESETS@[i as int].1 == gains);
            Ok((gains, eq_preset_requests(gains)))
        },
        None => Err(UnknownPreset { name: name.to_owned() }),
    }
}

/// Pairs the replies of an applied preset with their bands and gains.
pub fn eq_preset_results(gains: [i8; 5], replies: Vec<GaiaResponse>) -> (r: Vec<
    (u8, i8, GaiaResponse),
>)
    ensures
        r@.len() == if replies@.len() < 5 {
            replies@.len()
        } else {
            5
        },
        forall|i: int|
            0 <= i < r@.len() ==> #[trigger] r@[i] == (i as u8, gains@[i], replies@[i]),
{
    let mut left: Vec<GaiaResponse> = replies;
    let mut out: Vec<(u8, i8, GaiaResponse)> = Vec::new();
    let mut band: u8 = 0;
    while band < 5 && left.len() > 0
        invariant
            band <= 5,
            band <= replies@.len(),
            left@ == replies@.skip(band as int),
            out@.len() == band,
            forall|i: int|
                0 <= i < band ==> #[trigger] out@[i] == (i as u8, gains@[i], replies@[i]),
        decreases 5 - band,
    {
        let reply: GaiaResponse = left.remove(0);
        out.push((band, gains[band as usize], reply));
        band += 1;
        assert(left@ =~= replies@.skip(band as int));
    }
    out
}

/// Whether a preset has these gains.
pub open spec fn has_gains(index: int, gains: Seq<i8>) -> bool {
    0 <= index < 9 && EQ_PRESETS@[index].1@ == gains
}

fn same_gains(a: &[i8; 5], b: &[i8; 5]) -> (r: bool)
    ensures
        r == (a@ == b@),
{
    let r: bool = a[0] == b[0] && a[1] == b[1] && a[2] == b[2] && a[3] == b[3] && a[4] == b[4];
    assert(r ==> a@ =~= b@);
    r
}

/// Finds the preset whose 5 gains are exactly these, to match a
/// [`DeviceEvent::EqBands`] snapshot back to a name. `None` for gains that
/// belong to no preset, such as a manually tweaked EQ.
pub fn find_eq_preset(gains: [i8; 5]) -> (r: Option<(usize, &'static str)>)
    ensures
        match r {
            Some((i, name)) => {
                &&& has_gains(i as int, gains@)
                &&& forall|k: int| 0 <= k < i ==> !has_gains(k, gains@)
                &&& name@ == EQ_PRESETS@[i as int].0@
            },
            None => forall|k: int| !has_gains(k, gains@),
        },
{
    let presets: [(&'static str, [i8; 5]); 9] = EQ_PRESETS;
    let mut i: usize = 0;
    while i < 9
        invariant
            i <= 9,
            presets == EQ_PRESETS,
            forall|k: int| 0 <= k < i ==> !has_gains(k, gains@),
        decreases 9 - i,
    {
        if same_gains(&presets[i].1, &gains) {
            return Some((i, presets[i].0));
        }
        i += 1;
    }
    None
}

/// Sets the "Noise control: Custom" slider, and then commits it.
pub fn set_noise_control_custom(percent: u8) -> (r: Vec<Request>)
    ensures
        request_models(r@) == seq![
            sonova(CMD_SONOVA_CUSTOM_NOISE_CONTROL_SET, seq![percent]),
            sonova(CMD_SONOVA_CUSTOM_NOISE_CONTROL_COMMIT, Seq::empty()),
        ],
{
    let set: Request = send_raw(
        3,
        SONOVA_VENDOR_ID,
        CMD_SONOVA_CUSTOM_NOISE_CONTROL_SET,
        vec![percent],
    );
    let commit: Request = send_raw(
        3,
        SONOVA_VENDOR_ID,
        CMD_SONOVA_CUSTOM_NOISE_CONTROL_COMMIT,
        Vec::new(),
    );
    assert(set@ =~= sonova(CMD_SONOVA_CUSTOM_NOISE_CONTROL_SET, seq![percent]));
    vec![set, commit]
}

/// Turns multipoint on or off.
pub fn set_multipoint(on: bool) -> (r: Request)
    ensures
        r@ == qualcomm(CMD_QUALCOMM_MULTIPOINT_SET, seq![switch_byte(on)]),
{
    send_raw(3, QUALCOMM_VENDOR_ID, CMD_QUALCOMM_MULTIPOINT_SET, vec![switch(on)])
}

/// Asks for the multipoint status; [`multipoint_status_of`] reads the answer.
pub fn multipoint_status() -> (r: Request)
    ensures
        r@ == sonova(CMD_SONOVA_MULTIPOINT_STATUS_GET, Seq::empty()),
{
    send_raw(3, SONOVA_VENDOR_ID, CMD_SONOVA_MULTIPOINT_STATUS_GET, Vec::new())
}

/// Reads the answer to [`multipoint_status`]. It has no real status byte: what
/// stands there is the count.
pub fn multipoint_status_of(resp: &GaiaResponse) -> (r: MultipointStatus)
    ensures
        r == match resp@.status {
            Some(count) => multipoint_count(count),
            None => MultipointStatus::NoValue,
        },
{
    match resp.status {
        Some(count) => multipoint_of_count(count),
        None => MultipointStatus::NoValue,
    }
}

/// Turns Anti-wind on or off.
pub fn set_anti_wind(on: bool) -> (r: Request)
    ensures
        r@ == sonova(CMD_SONOVA_ANC_SET, seq![1u8, switch_byte(on)]),
{
    send_raw(3, SONOVA_VENDOR_ID, CMD_SONOVA_ANC_SET, vec![1, switch(on)])
}

/// Sets the Crossfeed level.
pub fn set_crossfeed(level: CrossfeedLevel) -> (r: Request)
    ensures
        r@ == sonova(CMD_SONOVA_CROSSFEED_SET, seq![crossfeed_byte(level)]),
{
    send_raw(3, SONOVA_VENDOR_ID, CMD_SONOVA_CROSSFEED_SET, vec![level.to_wire()])
}

/// Asks for the Crossfeed level; [`crossfeed_status_of`] reads the answer.
pub fn crossfeed_status() -> (r: Request)
    ensures
        r@ == sonova(CMD_SONOVA_CROSSFEED_GET, Seq::empty()),
{
    send_raw(3, SONOVA_VENDOR_ID, CMD_SONOVA_CROSSFEED_GET, Vec::new())
}

/// Reads the answer to [`crossfeed_status`]. `None` means that the device
/// replied with a value that is no level, not that the request failed.
pub fn crossfeed_status_of(resp: &GaiaResponse) -> (r: Option<CrossfeedLevel>)
    ensures
        r == match resp@.status {
            Some(value) => crossfeed_level(value),
            None => None,
        },
{
    match resp.status {
        Some(value) => CrossfeedLevel::from_wire(value),
        None => None,
    }
}

/// Registers for push notifications on every category that
/// [`interpret_event`] decodes. Without this the headset never pushes
/// anything, so it is to be sent once, right after connecting.
pub fn register_for_live_status() -> (r: Vec<Request>)
    ensures
        request_models(r@) == seq![
            sonova(CMD_REGISTER_NOTIFICATION, seq![CATEGORY_SONOVA_ANC]),
            sonova(CMD_REGISTER_NOTIFICATION, seq![CATEGORY_SONOVA_CUSTOM_NOISE_CONTROL]),
            sonova(CMD_REGISTER_NOTIFICATION, seq![CATEGORY_SONOVA_BASS_BOOST]),
            qualcomm(CMD_REGISTER_NOTIFICATION, seq![CATEGORY_QUALCOMM_MULTIPOINT]),
        ],
{
    let anc: Request = registration(SONOVA_VENDOR_ID, CATEGORY_SONOVA_ANC);
    let custom: Request = registration(SONOVA_VENDOR_ID, CATEGORY_SONOVA_CUSTOM_NOISE_CONTROL);
    let bass: Request = registration(SONOVA_VENDOR_ID, CATEGORY_SONOVA_BASS_BOOST);
    let multipoint: Request = registration(QUALCOMM_VENDOR_ID, CATEGORY_QUALCOMM_MULTIPOINT);
    vec![anc, custom, bass, multipoint]
}

fn registration(vendor_id: u16, category: u8) -> (r: Request)
    ensures
        r@ == (RequestModel {
            version: 3,
            vendor_id,
            command_id: CMD_REGISTER_NOTIFICATION,
            payload: seq![category],
        }),
{
    send_raw(3, vendor_id, CMD_REGISTER_NOTIFICATION, vec![category])
}

/// The walk through the requests of one operation: each request is sent once
/// the one before it has been answered. A failure ends the walk: nothing is sent
/// after it, what was sent before stays sent, and it is the result.
pub struct CommandRun<E> {
    requests: Vec<Request>,
    replies: Vec<GaiaResponse>,
    failure: Option<E>,
}

/// What a [`CommandRun`] holds: the requests of the operation, the replies so
/// far, and what ended it early.
#[verifier::ext_equal]
pub struct RunModel<E> {
    pub requests: Seq<Request>,
    pub replies: Seq<GaiaResponse>,
    pub failure: Option<E>,
}

impl<E> View for CommandRun<E> {
    type V = RunModel<E>;

    closed spec fn view(&self) -> RunModel<E> {
        RunModel {
            requests: self.requests@,
            replies: self.replies@,
            failure: self.failure,
        }
    }
}

/// An operation of which nothing has been sent.
pub open spec fn fresh_run<E>(requests: Seq<Request>) -> RunModel<E> {
    RunModel { requests, replies: Seq::empty(), failure: None }
}

/// The request that an operation sends next.
pub open spec fn awaited<E>(run: RunModel<E>) -> Option<Request> {
    if run.failure is None && run.replies.len() < run.requests.len() {
        Some(run.requests[run.replies.len() as int])
    } else {
        None
    }
}

/// An operation after one of its requests has been answered, or could not be.
pub open spec fn after_send<E>(run: RunModel<E>, outcome: Result<GaiaResponse, E>) -> RunModel<E> {
    if awaited(run) is None {
        run
    } else {
        match outcome {
            Ok(reply) => RunModel { replies: run.replies.push(reply), ..run },
            Err(e) => RunModel { failure: Some(e), ..run },
        }
    }
}

/// The result of an operation.
pub open spec fn run_result<E>(run: RunModel<E>) -> Result<Seq<GaiaResponse>, E> {
    match run.failure {
        Some(e) => Err(e),
        None => Ok(run.replies),
    }
}

impl<E> CommandRun<E> {
    /// The requests of the operation.
    pub open spec fn requests(self) -> Seq<Request> {
        self@.requests
    }

    /// The replies so far.
    pub open spec fn replies(self) -> Seq<GaiaResponse> {
        self@.replies
    }

    /// What ended the operation early.
    pub open spec fn failure(self) -> Option<E> {
        self@.failure
    }

    /// No request is answered before it has been sent.
    #[verifier::type_invariant]
    spec fn well_formed(self) -> bool {
        self.replies@.len() <= self.requests@.len()
    }

    /// An operation of which nothing has been sent.
    pub fn new(requests: Vec<Request>) -> (r: CommandRun<E>)
        ensures
            r@ == fresh_run::<E>(requests@),
    {
        CommandRun { requests, replies: Vec::new(), failure: None }
    }

    /// The request to send next; `None` when all have been answered, and after a
    /// failure.
    pub fn next_request(&self) -> (r: Option<&Request>)
        ensures
            match awaited(self@) {
                Some(request) => r == Some(&request),
                None => r is None,
            },
            self.failure() is Some ==> r is None,
    {
        if self.failure.is_none() && self.replies.len() < self.requests.len() {
            Some(&self.requests[self.replies.len()])
        } else {
            None
        }
    }

    /// Takes in the reply to the request that was sent. A reply that no request
    /// waits for is dropped.
    pub fn take_reply(&mut self, reply: GaiaResponse)
        ensures
            final(self)@ == after_send(old(self)@, Ok(reply)),
    {
        proof {
            use_type_invariant(&*self);
        }
        if self.failure.is_none() && self.replies.len() < self.requests.len() {
            let mut replies: Vec<GaiaResponse> = Vec::new();
            std::mem::swap(&mut replies, &mut self.replies);
            replies.push(reply);
            self.replies = replies;
        }
    }

    /// Takes in why the request that was sent has no reply. The first failure
    /// stands; one of a request that was not sent is dropped.
    pub fn take_failure(&mut self, error: E)
        ensures
            final(self)@ == after_send(old(self)@, Err(error)),
            final(self).requests() == old(self).requests(),
            final(self).replies() == old(self).replies(),
            old(self).failure() is Some ==> final(self).failure() == old(self).failure(),
    {
        if self.failure.is_none() && self.replies.len() < self.requests.len() {
            self.failure = Some(error);
        }
    }

    /// The failure, or else the replies, in the order of the requests.
    pub fn into_result(self) -> (r: Result<Vec<GaiaResponse>, E>)
        ensures
            match run_result(self@) {
                Ok(replies) => r matches Ok(list) && list@ == replies,
                Err(e) => r == Err::<Vec<GaiaResponse>, E>(e),
            },
            r matches Ok(list) ==> list@.len() <= self.requests().len(),
    {
        proof {
            use_type_invariant(&self);
        }
        match self.failure {
            Some(e) => Err(e),
            None => Ok(self.replies),
        }
    }
}

/// An operation after its sends have had these outcomes, one after the other.
pub open spec fn run_after<E>(
    requests: Seq<Request>,
    outcomes: Seq<Result<GaiaResponse, E>>,
) -> RunModel<E>
    decreases outcomes.len(),
{
    if outcomes.len() == 0 {
        fresh_run(requests)
    } else {
        after_send(run_after(requests, outcomes.drop_last()), outcomes.last())
    }
}

/// The requests that an operation sends while its sends have these outcomes.
pub open spec fn sent<E>(
    requests: Seq<Request>,
    outcomes: Seq<Result<GaiaResponse, E>>,
) -> Seq<Request>
    decreases outcomes.len(),
{
    if outcomes.len() == 0 {
        Seq::empty()
    } else {
        let before = sent(requests, outcomes.drop_last());
        match awaited(run_after(requests, outcomes.drop_last())) {
            Some(request) => before.push(request),
            None => before,
        }
    }
}

/// Whether the first `n` outcomes are replies.
pub open spec fn all_answered<E>(outcomes: Seq<Result<GaiaResponse, E>>, n: int) -> bool {
    forall|i: int| 0 <= i < n ==> (#[trigger] outcomes[i]) is Ok
}

/// The replies among outcomes that are all replies.
pub open spec fn replies_of<E>(outcomes: Seq<Result<GaiaResponse, E>>) -> Seq<GaiaResponse> {
    outcomes.map_values(|o: Result<GaiaResponse, E>| o->Ok_0)
}

/// As long as every request is answered, the requests are sent in order, each
/// once, and the replies are kept in that order; when all have been answered,
/// the operation is over and they are its result.
pub proof fn answered_requests_go_out_in_order<E>(
    requests: Seq<Request>,
    outcomes: Seq<Result<GaiaResponse, E>>,
)
    requires
        outcomes.len() <= requests.len(),
        all_answered(outcomes, outcomes.len() as int),
    ensures
        run_after(requests, outcomes) == (RunModel {
            requests,
            replies: replies_of(outcomes),
            failure: None::<E>,
        }),
        sent(requests, outcomes) == requests.take(outcomes.len() as int),
        outcomes.len() == requests.len() ==> awaited(run_after(requests, outcomes)) is None
            && run_result(run_after(requests, outcomes)) == Ok::<_, E>(replies_of(outcomes)),
    decreases outcomes.len(),
{
    if outcomes.len() > 0 {
        let earlier = outcomes.drop_last();
        assert(outcomes[outcomes.len() - 1] is Ok);
        assert forall|i: int| 0 <= i < earlier.len() implies (#[trigger] earlier[i]) is Ok by {
            assert(earlier[i] == outcomes[i]);
        }
        answered_requests_go_out_in_order(requests, earlier);
        assert(replies_of(earlier).push(outcomes.last()->Ok_0) =~= replies_of(outcomes));
        assert(requests.take(earlier.len() as int).push(requests[earlier.len() as int])
            =~= requests.take(outcomes.len() as int));
    } else {
        assert(replies_of(outcomes) =~= Seq::empty());
        assert(requests.take(0) =~= Seq::empty());
    }
}

/// A request that fails is the last to be sent: the requests up to it have gone
/// out, in order and each once, nothing follows them, and its error is the
/// result, whatever comes in later.
pub proof fn failure_ends_the_run<E>(
    requests: Seq<Request>,
    outcomes: Seq<Result<GaiaResponse, E>>,
    k: int,
    error: E,
)
    requires
        0 <= k < requests.len(),
        k < outcomes.len(),
        all_answered(outcomes, k),
        outcomes[k] == Err::<GaiaResponse, E>(error),
    ensures
        sent(requests, outcomes) == requests.take(k + 1),
        awaited(run_after(requests, outcomes)) is None,
        run_after(requests, outcomes).replies == replies_of(outcomes.take(k)),
        run_result(run_after(requests, outcomes)) == Err::<Seq<GaiaResponse>, E>(error),
    decreases outcomes.len(),
{
    let earlier = outcomes.drop_last();
    assert(forall|i: int| 0 <= i < earlier.len() ==> earlier[i] == outcomes[i]);
    if outcomes.len() == k + 1 {
        assert(earlier =~= outcomes.take(k));
        answered_requests_go_out_in_order(requests, earlier);
        assert(outcomes.last() == outcomes[k]);
        assert(requests.take(k).push(requests[k]) =~= requests.take(k + 1));
    } else {
        failure_ends_the_run(requests, earlier, k, error);
        assert(earlier.take(k) =~= outcomes.take(k));
    }
}

/// When a preset is applied and the command for a band fails, the commands for
/// the bands up to it have been sent, in order, those for the later bands never
/// are, and the error is the result.
pub proof fn failed_band_ends_the_preset<E>(
    gains: [i8; 5],
    requests: Seq<Request>,
    outcomes: Seq<Result<GaiaResponse, E>>,
    band: int,
    error: E,
)
    requires
        request_models(requests) == eq_bands(gains@),
        0 <= band < 5,
        band < outcomes.len(),
        all_answered(outcomes, band),
        outcomes[band] == Err::<GaiaResponse, E>(error),
    ensures
        request_models(sent(requests, outcomes)) == Seq::new(
            (band + 1) as nat,
            |i: int| eq_band(i as u8, gains@[i]),
        ),
        awaited(run_after(requests, outcomes)) is None,
        run_result(run_after(requests, outcomes)) == Err::<Seq<GaiaResponse>, E>(error),
{
    assert(request_models(requests).len() == 5);
    failure_ends_the_run(requests, outcomes, band, error);
    assert forall|i: int| 0 <= i <= band implies (#[trigger] requests[i])@ == eq_band(
        i as u8,
        gains@[i],
    ) by {
        assert(request_models(requests)[i] == eq_bands(gains@)[i]);
    }
    assert(request_models(sent(requests, outcomes)) =~= Seq::new(
        (band + 1) as nat,
        |i: int| eq_band(i as u8, gains@[i]),
    ));
}

/// Encoding and decoding a Crossfeed level are inverse to each other, and no
/// other value on the wire is a level.
pub proof fn crossfeed_round_trip(level: CrossfeedLevel, value: u8)
    ensures
        crossfeed_level(crossfeed_byte(level)) == Some(level),
        crossfeed_level(value) == Some(level) <==> value == crossfeed_byte(level),
        value > 2 ==> crossfeed_level(value) is None,
{
}

/// A gain survives the way over the wire and back, and so does a byte.
pub proof fn gain_round_trip(gain: i8, byte: u8)
    ensures
        signed_byte(two_complement(gain)) == gain,
        -128 <= signed_byte(byte) <= 127,
        two_complement(signed_byte(byte) as i8) == byte,
{
}

/// The vendor ID namespaces the command ID: a response that tells something
/// tells nothing under any other vendor ID, and only two vendors tell anything.
pub proof fn events_belong_to_their_vendor(resp: ResponseModel, vendor_id: u16)
    ensures
        event(resp) is Some ==> resp.vendor_id == SONOVA_VENDOR_ID || resp.vendor_id
            == QUALCOMM_VENDOR_ID,
        event(resp) is Some && vendor_id != resp.vendor_id ==> event(
            ResponseModel { vendor_id, ..resp },
        ) is None,
{
}

/// Apart from the acknowledgement of a noise-control parameter, a response
/// without a value tells nothing.
pub proof fn events_need_a_value(resp: ResponseModel)
    requires
        resp.command_id != RSP_SONOVA_ANC_SET,
        resp.status is None,
    ensures
        event(resp) is None,
{
}

/// No two presets have the same name.
pub proof fn preset_names_are_distinct(i: int, j: int, key: Seq<char>)
    requires
        is_named(i, key),
        is_named(j, key),
    ensures
        i == j,
{
    reveal_strlit("neutral");
    reveal_strlit("speech-clarity");
    reveal_strlit("rock");
    reveal_strlit("pop");
    reveal_strlit("dance");
    reveal_strlit("hip-hop");
    reveal_strlit("classical");
    reveal_strlit("movie");
    reveal_strlit("jazz");
    let name = EQ_PRESETS@[i].0@;
    assert(name.len() > 0);
    assert(name[0] == EQ_PRESETS@[j].0@[0]);
}

/// No two presets have the same gains.
pub proof fn preset_gains_are_distinct(i: int, j: int, gains: Seq<i8>)
    requires
        has_gains(i, gains),
        has_gains(j, gains),
    ensures
        i == j,
{
    let a = EQ_PRESETS@[i].1@;
    let b = EQ_PRESETS@[j].1@;
    assert(a[0] == b[0] && a[1] == b[1] && a[2] == b[2] && a[3] == b[3] && a[4] == b[4]);
}

/// The bytes that report gains: where a status would be, and after it.
pub open spec fn gains_report(gains: Seq<i8>) -> ResponseModel {
    ResponseModel {
        vendor_id: SONOVA_VENDOR_ID,
        command_id: RSP_SONOVA_EQ_SET_BAND,
        status: Some(two_complement(gains[0])),
        payload: seq![
            two_complement(gains[1]),
            two_complement(gains[2]),
            two_complement(gains[3]),
            two_complement(gains[4]),
        ],
    }
}

/// Gains that the headset reports are decoded as these gains; the gains of a
/// preset are thereby traced back to that preset and no other.
pub proof fn reported_gains_are_recognised(gains: Seq<i8>, index: int)
    requires
        gains.len() == 5,
    ensures
        event(gains_report(gains)) == Some(EventModel::EqBands(gains)),
        has_gains(index, gains) ==> forall|k: int| has_gains(k, gains) <==> k == index,
{
    let decoded = event(gains_report(gains));
    assert(decoded matches Some(EventModel::EqBands(list)) && list =~= gains);
    if has_gains(index, gains) {
        assert forall|k: int| has_gains(k, gains) implies k == index by {
            preset_gains_are_distinct(k, index, gains);
        }
    }
}

/// A one-value response in Sonova's namespace.
pub open spec fn sonova_value(command_id: u16, value: u8) -> ResponseModel {
    ResponseModel {
        vendor_id: SONOVA_VENDOR_ID,
        command_id,
        status: Some(value),
        payload: Seq::empty(),
    }
}

/// When the headset acknowledges a command by sending back, under the
/// command's response ID, the value that was set, the acknowledgement is
/// decoded as that value.
pub proof fn acknowledgements_tell_what_was_set(on: bool, percent: u8, level: CrossfeedLevel)
    ensures
        event(sonova_value(RSP_SONOVA_ANC_SET_COMPANION, switch_byte(on))) == Some(
            EventModel::AncMode(on),
        ),
        event(sonova_value(RSP_SONOVA_CUSTOM_NOISE_CONTROL_SET, percent)) == Some(
            EventModel::CustomNoiseControl(percent),
        ),
        event(sonova_value(RSP_SONOVA_BASS_BOOST_SET, switch_byte(on))) == Some(
            EventModel::BassBoost(on),
        ),
        event(sonova_value(RSP_SONOVA_CROSSFEED_GET, crossfeed_byte(level))) == Some(
            EventModel::Crossfeed(level),
        ),
        event(
            ResponseModel {
                vendor_id: QUALCOMM_VENDOR_ID,
                command_id: RSP_QUALCOMM_MULTIPOINT_SET,
                status: Some(switch_byte(on)),
                payload: Seq::empty(),
            },
        ) == Some(EventModel::MultipointEnabled(on)),
{
}

/// An acknowledged noise-control parameter is decoded by the parameter and the
/// state at its end, whatever comes before them.
pub proof fn noise_control_acknowledgements(status: Option<u8>, before: Seq<u8>, on: bool)
    ensures
        ({
            let acknowledged = |param: u8|
                event(
                    ResponseModel {
                        vendor_id: SONOVA_VENDOR_ID,
                        command_id: RSP_SONOVA_ANC_SET,
                        status,
                        payload: before + seq![param, switch_byte(on)],
                    },
                );
            &&& acknowledged(3) == Some(EventModel::AncMode(on))
            &&& acknowledged(1) == Some(EventModel::AntiWind(on))
            &&& forall|param: u8| param != 1 && param != 3 ==> #[trigger] acknowledged(param) is None
        }),
{
}

/// What each one-value response tells, for every value and whatever follows it:
/// of a switch, whether the value is 1; of the slider, the value itself; of the
/// multipoint count, that 2 is on, 1 is off and anything else is unknown; of
/// Crossfeed, the level or nothing.
pub proof fn values_are_told(value: u8, payload: Seq<u8>)
    ensures
        ({
            let told = |vendor_id: u16, command_id: u16|
                event(ResponseModel { vendor_id, command_id, status: Some(value), payload });
            &&& told(0x0495, 0x1a85) == Some(EventModel::AncMode(value == 1))
            &&& told(0x0495, 0x1a83) == Some(EventModel::CustomNoiseControl(value))
            &&& told(0x0495, 0x1885) == Some(EventModel::CustomModeActive(value == 1))
            &&& told(0x0495, 0x1089) == Some(EventModel::BassBoost(value == 1))
            &&& told(0x001d, 0x0e80) == Some(EventModel::MultipointEnabled(value == 1))
            &&& value == 2 ==> told(0x0495, 0x1509) == Some(
                EventModel::MultipointStatus(MultipointStatus::On),
            )
            &&& value == 1 ==> told(0x0495, 0x1509) == Some(
                EventModel::MultipointStatus(MultipointStatus::Off),
            )
            &&& value != 1 && value != 2 ==> told(0x0495, 0x1509) == Some(
                EventModel::MultipointStatus(MultipointStatus::Unknown(value)),
            )
            &&& value == 2 ==> told(0x0495, 0x2f01) == Some(
                EventModel::Crossfeed(CrossfeedLevel::Off),
            )
            &&& value == 0 ==> told(0x0495, 0x2f01) == Some(
                EventModel::Crossfeed(CrossfeedLevel::Low),
            )
            &&& value == 1 ==> told(0x0495, 0x2f01) == Some(
                EventModel::Crossfeed(CrossfeedLevel::High),
            )
            &&& value > 2 ==> told(0x0495, 0x2f01) is None
        }),
{
}

/// What an acknowledged noise-control parameter tells, for every state and
/// whatever comes before: parameter 3 is the ANC mode, parameter 1 is anti-wind,
/// and the state 1 is on. Without room for both bytes it tells nothing.
pub proof fn parameters_are_told(status: Option<u8>, before: Seq<u8>, param: u8, state: u8, byte: u8)
    ensures
        ({
            let told = |payload: Seq<u8>|
                event(ResponseModel { vendor_id: 0x0495, command_id: 0x1a81, status, payload });
            &&& told(before + seq![param, state]) == if param == 3 {
                Some(EventModel::AncMode(state == 1))
            } else if param == 1 {
                Some(EventModel::AntiWind(state == 1))
            } else {
                None
            }
            &&& told(Seq::empty()) is None
            &&& told(seq![byte]) is None
        }),
{
    let payload = before + seq![param, state];
    assert(payload[payload.len() - 2] == param && payload[payload.len() - 1] == state);
}

/// A report of gains is decoded only in its exact shape, five bytes in all, each
/// of them a gain in two's complement; any other shape tells nothing.
pub proof fn gains_are_told(status: Option<u8>, payload: Seq<u8>)
    ensures
        ({
            let told = event(
                ResponseModel { vendor_id: 0x0495, command_id: 0x1082, status, payload },
            );
            match status {
                Some(first) => if payload.len() == 4 {
                    told matches Some(EventModel::EqBands(g)) && g.len() == 5 && (g[0] - first)
                        % 256 == 0 && (g[1] - payload[0]) % 256 == 0 && (g[2] - payload[1]) % 256
                        == 0 && (g[3] - payload[2]) % 256 == 0 && (g[4] - payload[3]) % 256 == 0
                } else {
                    told is None
                },
                None => told is None,
            }
        }),
{
}

/// Commands other than these tell nothing, whatever they carry.
pub proof fn other_commands_tell_nothing(resp: ResponseModel)
    requires
        resp.vendor_id == 0x0495 ==> resp.command_id != 0x1a81 && resp.command_id != 0x1a85
            && resp.command_id != 0x1a83 && resp.command_id != 0x1885 && resp.command_id != 0x1089
            && resp.command_id != 0x2f01 && resp.command_id != 0x1082 && resp.command_id != 0x1509,
        resp.vendor_id == 0x001d ==> resp.command_id != 0x0e80,
    ensures
        event(resp) is None,
{
}

/// The view of an event holds what the event tells.
pub proof fn events_are_viewed_whole(
    on: bool,
    percent: u8,
    status: MultipointStatus,
    level: CrossfeedLevel,
    gains: [i8; 5],
)
    ensures
        DeviceEvent::AncMode(on)@ == EventModel::AncMode(on),
        DeviceEvent::AntiWind(on)@ == EventModel::AntiWind(on),
        DeviceEvent::CustomNoiseControl(percent)@ == EventModel::CustomNoiseControl(percent),
        DeviceEvent::CustomModeActive(on)@ == EventModel::CustomModeActive(on),
        DeviceEvent::BassBoost(on)@ == EventModel::BassBoost(on),
        DeviceEvent::MultipointEnabled(on)@ == EventModel::MultipointEnabled(on),
        DeviceEvent::MultipointStatus(status)@ == EventModel::MultipointStatus(status),
        DeviceEvent::Crossfeed(level)@ == EventModel::Crossfeed(level),
        DeviceEvent::EqBands(gains)@ == EventModel::EqBands(gains@),
{
}

/// The view of a request holds its fields, and that of a list each request.
pub proof fn requests_are_viewed_whole(r: Request, list: Seq<Request>, i: int)
    ensures
        r@.version == r.version,
        r@.vendor_id == r.vendor_id,
        r@.command_id == r.command_id,
        r@.payload == r.payload@,
        request_models(list).len() == list.len(),
        0 <= i < list.len() ==> request_models(list)[i] == list[i]@,
{
}

/// The three families of requests: the older one in Sennheiser's namespace under
/// version 1, the others in Sonova's and Qualcomm's under version 3. Each keeps
/// the command ID and the payload that it is given.
pub proof fn requests_keep_their_family(command_id: u16, payload: Seq<u8>)
    ensures
        older(command_id, payload) == (RequestModel {
            version: 1,
            vendor_id: 0x0494,
            command_id,
            payload,
        }),
        sonova(command_id, payload) == (RequestModel {
            version: 3,
            vendor_id: 0x0495,
            command_id,
            payload,
        }),
        qualcomm(command_id, payload) == (RequestModel {
            version: 3,
            vendor_id: 0x001d,
            command_id,
            payload,
        }),
        switch_byte(true) == 1,
        switch_byte(false) == 0,
{
}

/// The command for a band carries the band and the gain, which is the second byte
/// read in two's complement; two commands for bands that carry the same payload
/// set the same gain of the same band.
pub proof fn band_commands_carry_band_and_gain(band: u8, gain: i8, other_band: u8, other_gain: i8)
    ensures
        ({
            let m = eq_band(band, gain);
            &&& m.version == 3 && m.vendor_id == 0x0495 && m.command_id == 0x1001
            &&& m.payload.len() == 2
            &&& m.payload[0] == band
            &&& (m.payload[1] - gain) % 256 == 0
            &&& m.payload == eq_band(other_band, other_gain).payload ==> band == other_band && gain
                == other_gain
        }),
{
}

/// The commands of a preset set band 0, band 1 and so on, each once, to the gain
/// at its place.
pub proof fn preset_commands_set_every_band(gains: Seq<i8>, i: int)
    requires
        gains.len() == 5,
        0 <= i < 5,
    ensures
        eq_bands(gains).len() == 5,
        eq_bands(gains)[i].command_id == 0x1001,
        eq_bands(gains)[i].payload[0] == i,
        (eq_bands(gains)[i].payload[1] - gains[i]) % 256 == 0,
{
}

/// The multipoint answer, read as a status: a count of 2 is on, of 1 is off, and
/// any other is unknown and kept.
pub proof fn counts_mean_on_and_off(count: u8)
    ensures
        multipoint_count(count) == MultipointStatus::On <==> count == 2,
        multipoint_count(count) == MultipointStatus::Off <==> count == 1,
        count != 1 && count != 2 ==> multipoint_count(count) == MultipointStatus::Unknown(count),
{
}

/// A preset is named by its place in the table, and has the gains that stand
/// there; the list of names is the table's.
pub proof fn presets_are_found_in_the_table(i: int, j: int)
    requires
        0 <= i < 9,
        0 <= j < 9,
    ensures
        is_named(j, EQ_PRESETS@[i].0@) <==> i == j,
        has_gains(j, EQ_PRESETS@[i].1@) <==> i == j,
        preset_names().len() == 9,
        preset_names()[i] == EQ_PRESETS@[i].0@,
        !is_named(-1, EQ_PRESETS@[i].0@) && !is_named(9, EQ_PRESETS@[i].0@),
{
    if is_named(j, EQ_PRESETS@[i].0@) {
        preset_names_are_distinct(i, j, EQ_PRESETS@[i].0@);
    }
    if has_gains(j, EQ_PRESETS@[i].1@) {
        preset_gains_are_distinct(i, j, EQ_PRESETS@[i].1@);
    }
}

/// Looking a preset up by the name of the one at `i`, written in lower case,
/// gives that preset's gains and the commands for them, and never a refusal.
pub proof fn known_names_are_accepted(
    i: int,
    name: Seq<char>,
    r: Result<([i8; 5], Vec<Request>), UnknownPreset>,
)
    requires
        0 <= i < 9,
        preset_result(r, name, EQ_PRESETS@[i].0@),
    ensures
        match r {
            Ok((gains, requests)) => {
                &&& gains@ == EQ_PRESETS@[i].1@
                &&& requests@.len() == 5
                &&& forall|b: int|
                    0 <= b < 5 ==> (#[trigger] requests@[b])@.payload[0] == b && (
                    requests@[b]@.payload[1] - EQ_PRESETS@[i].1@[b]) % 256 == 0
            },
            Err(_) => false,
        },
{
    let key = EQ_PRESETS@[i].0@;
    assert(is_named(i, key));
    match r {
        Ok((gains, requests)) => {
            let k = choose|k: int| #[trigger] is_named(k, key) && EQ_PRESETS@[k].1 == gains;
            preset_names_are_distinct(k, i, key);
            assert(request_models(requests@).len() == 5);
            assert forall|b: int| 0 <= b < 5 implies (#[trigger] requests@[b])@.payload[0] == b && (
            requests@[b]@.payload[1] - EQ_PRESETS@[i].1@[b]) % 256 == 0 by {
                assert(request_models(requests@)[b] == eq_bands(gains@)[b]);
            }
        },
        Err(_) => {},
    }
}

/// A name that is not in the table is refused, and the refusal repeats it as it
/// was typed.
pub proof fn unknown_names_are_refused(
    key: Seq<char>,
    name: Seq<char>,
    r: Result<([i8; 5], Vec<Request>), UnknownPreset>,
)
    requires
        forall|i: int| 0 <= i < 9 ==> EQ_PRESETS@[i].0@ != key,
        preset_result(r, name, key),
    ensures
        r matches Err(e) && e.name@ == name,
{
}

/// One step of a run: a reply is kept and the next request is due, a failure is
/// kept and no request is due. A run that is over stays as it is.
pub proof fn one_step_of_a_run<E>(run: RunModel<E>, reply: GaiaResponse, error: E)
    requires
        run.failure is None,
        run.replies.len() <= run.requests.len(),
    ensures
        ({
            let n = run.replies.len() as int;
            let more = n < run.requests.len();
            let answered = after_send(run, Ok(reply));
            let failed = after_send(run, Err(error));
            &&& more ==> awaited(run) == Some(run.requests[n])
            &&& !more ==> awaited(run) is None && answered == run && failed == run
            &&& more ==> {
                &&& answered.requests == run.requests && failed.requests == run.requests
                &&& answered.replies.len() == n + 1 && answered.replies[n] == reply
                &&& answered.failure is None && failed.failure == Some(error)
                &&& failed.replies == run.replies && awaited(failed) is None
                &&& after_send(failed, Ok(reply)) == failed
                &&& n + 1 < run.requests.len() ==> awaited(answered) == Some(run.requests[n + 1])
            }
            &&& run_result(run) == Ok::<_, E>(run.replies)
            &&& more ==> run_result(failed) == Err::<Seq<GaiaResponse>, E>(error)
        }),
{
}

} // verus!
