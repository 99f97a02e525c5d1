//! What the control panel shows.
//!
//! The panel reacts to events: a callback of its window, the outcome of a
//! request, a notification of the headset. Each reaction is a list of
//! [`PanelUpdate`]s, which the window carries out in order.

use vstd::prelude::*;
use crate::bluez::{ConnectedDevice, MAX_VOLUME};
use crate::commands::{
    find_eq_preset, interpret_event, CrossfeedLevel, DeviceEvent, EventModel, MultipointStatus,
};
use crate::gaia::GaiaResponse;
use crate::letters::characters;
use crate::report::{
    device_names, format_band, format_battery, format_crossfeed, format_gaia_response,
    format_multipoint, format_volume, volume_down, volume_up, BatterySource,
};
use crate::text::{join, push_decimal, push_signed_list, same_text};
use crate::transport::TransportKind;

verus! {

/// A change of one thing that the panel shows.
#[derive(Debug, Clone)]
pub enum PanelUpdate {
    /// A line for the log.
    Log(String),
    GaiaConnected(bool),
    ConnectionStatus(String),
    TransportKind(String),
    DeviceNames(Vec<String>),
    SelectedDeviceIndex(i32),
    VolumeValue(u16),
    VolumeText(String),
    BatteryText(String),
    AncStatusText(String),
    AncSelected(String),
    AncCustomVisible(bool),
    AntiWindOn(bool),
    NoiseControlPercent(u8),
    BassBoostOn(bool),
    MultipointStatusText(String),
    MultipointOn(bool),
    CrossfeedSelected(String),
    /// The slider of a band, 0 to 4, and its label.
    EqBand(u8, i8, String),
    EqPresetIndex(usize),
}

/// What a [`PanelUpdate`] changes.
#[verifier::ext_equal]
pub enum UpdateModel {
    Log(Seq<char>),
    GaiaConnected(bool),
    ConnectionStatus(Seq<char>),
    TransportKind(Seq<char>),
    DeviceNames(Seq<Seq<char>>),
    SelectedDeviceIndex(int),
    VolumeValue(u16),
    VolumeText(Seq<char>),
    BatteryText(Seq<char>),
    AncStatusText(Seq<char>),
    AncSelected(Seq<char>),
    AncCustomVisible(bool),
    AntiWindOn(bool),
    NoiseControlPercent(u8),
    BassBoostOn(bool),
    MultipointStatusText(Seq<char>),
    MultipointOn(bool),
    CrossfeedSelected(Seq<char>),
    EqBand(u8, i8, Seq<char>),
    EqPresetIndex(int),
}

impl View for PanelUpdate {
    type V = UpdateModel;

    open spec fn view(&self) -> UpdateModel {
        match self {
            PanelUpdate::Log(s) => UpdateModel::Log(s@),
            PanelUpdate::GaiaConnected(b) => UpdateModel::GaiaConnected(*b),
            PanelUpdate::ConnectionStatus(s) => UpdateModel::ConnectionStatus(s@),
            PanelUpdate::TransportKind(s) => UpdateModel::TransportKind(s@),
            PanelUpdate::DeviceNames(list) => UpdateModel::DeviceNames(crate::text::texts(list@)),
            PanelUpdate::SelectedDeviceIndex(i) => UpdateModel::SelectedDeviceIndex(*i as int),
            PanelUpdate::VolumeValue(v) => UpdateModel::VolumeValue(*v),
            PanelUpdate::VolumeText(s) => UpdateModel::VolumeText(s@),
            PanelUpdate::BatteryText(s) => UpdateModel::BatteryText(s@),
            PanelUpdate::AncStatusText(s) => UpdateModel::AncStatusText(s@),
            PanelUpdate::AncSelected(s) => UpdateModel::AncSelected(s@),
            PanelUpdate::AncCustomVisible(b) => UpdateModel::AncCustomVisible(*b),
            PanelUpdate::AntiWindOn(b) => UpdateModel::AntiWindOn(*b),
            PanelUpdate::NoiseControlPercent(v) => UpdateModel::NoiseControlPercent(*v),
            PanelUpdate::BassBoostOn(b) => UpdateModel::BassBoostOn(*b),
            PanelUpdate::MultipointStatusText(s) => UpdateModel::MultipointStatusText(s@),
            PanelUpdate::MultipointOn(b) => UpdateModel::MultipointOn(*b),
            PanelUpdate::CrossfeedSelected(s) => UpdateModel::CrossfeedSelected(s@),
            PanelUpdate::EqBand(band, gain, label) => UpdateModel::EqBand(*band, *gain, label@),
            PanelUpdate::EqPresetIndex(i) => UpdateModel::EqPresetIndex(*i as int),
        }
    }
}

/// What a list of updates changes, in order.
pub open spec fn update_models(list: Seq<PanelUpdate>) -> Seq<UpdateModel> {
    list.map_values(|u: PanelUpdate| u@)
}

fn prefixed(prefix: &str, text: &str) -> (r: String)
    ensures
        r@ == prefix@ + text@,
{
    let mut out: String = prefix.to_owned();
    out.append(text);
    out
}

/// The log after a line has been appended to it.
pub open spec fn logged(log: Seq<char>, line: Seq<char>) -> Seq<char> {
    if log.len() == 0 {
        line
    } else {
        log + "\n"@ + line
    }
}

/// Appends a line to the log.
pub fn append_log(log: String, line: &str) -> (r: String)
    ensures
        r@ == logged(log@, line@),
{
    let mut text: String = log;
    let shown: Vec<char> = characters(text.as_str());
    let ghost before = text@;
    if shown.len() > 0 {
        text.append("\n");
    }
    text.append(line);
    assert(text@ =~= logged(before, line@));
    text
}

/// A gain in decibels, with one decimal: a raw unit is a tenth of a decibel.
pub open spec fn gain_label(raw: i8) -> Seq<char> {
    let size = if raw < 0 {
        -raw
    } else {
        raw as int
    };
    let sign = if raw > 0 {
        "+"@
    } else if raw < 0 {
        "-"@
    } else {
        ""@
    };
    sign + crate::text::decimal((size / 10) as nat) + "."@ + crate::text::decimal(
        (size % 10) as nat,
    ) + "dB"@
}

/// A gain in decibels.
pub fn eq_gain_db_label(raw: i8) -> (r: String)
    ensures
        r@ == gain_label(raw),
{
    let (sign, size): (&'static str, u64) = if raw > 0 {
        ("+", raw as u64)
    } else if raw < 0 {
        ("-", (-(raw as i64)) as u64)
    } else {
        ("", 0)
    };
    let mut out: String = sign.to_owned();
    push_decimal(&mut out, size / 10);
    out.append(".");
    push_decimal(&mut out, size % 10);
    out.append("dB");
    out
}

/// How the panel shows the gain of a band. It has sliders for 5 bands only.
pub open spec fn band_updates(band: u8, gain: i8) -> Seq<UpdateModel> {
    if band < 5 {
        seq![UpdateModel::EqBand(band, gain, gain_label(gain))]
    } else {
        Seq::empty()
    }
}

fn push_band(out: &mut Vec<PanelUpdate>, band: u8, gain: i8)
    ensures
        update_models(final(out)@) == update_models(old(out)@) + band_updates(band, gain),
{
    let ghost before = out@;
    if band < 5 {
        out.push(PanelUpdate::EqBand(band, gain, eq_gain_db_label(gain)));
    }
    assert(update_models(out@) =~= update_models(before) + band_updates(band, gain));
}

/// Shows the gain of one band.
pub fn set_eq_band_slider(band: u8, gain: i8) -> (r: Vec<PanelUpdate>)
    ensures
        update_models(r@) == band_updates(band, gain),
{
    let mut out: Vec<PanelUpdate> = Vec::new();
    assert(update_models(out@) =~= Seq::empty());
    push_band(&mut out, band, gain);
    assert(Seq::<UpdateModel>::empty() + band_updates(band, gain) =~= band_updates(
        band,
        gain,
    ));
    out
}

/// The name of the device at an index of the list; `None` if the index points
/// at none.
pub fn selected_device_name(devices: &Vec<ConnectedDevice>, index: i32) -> (r: Option<String>)
    ensures
        if 0 <= index < devices@.len() {
            r matches Some(name) && name@ == devices@[index as int].name@
        } else {
            r is None
        },
{
    if index >= 0 && (index as usize) < devices.len() {
        Some(devices[index as usize].name.as_str().to_owned())
    } else {
        None
    }
}

/// What the panel shows while nothing is known of the headset.
pub open spec fn reset_updates() -> Seq<UpdateModel> {
    seq![UpdateModel::AncStatusText("unknown"@), UpdateModel::MultipointStatusText("unknown"@)]
}

/// Shows that nothing is known of the headset.
pub fn reset_gaia_status_labels() -> (r: Vec<PanelUpdate>)
    ensures
        update_models(r@) == reset_updates(),
{
    let out: Vec<PanelUpdate> = vec![
        PanelUpdate::AncStatusText("unknown".to_owned()),
        PanelUpdate::MultipointStatusText("unknown".to_owned()),
    ];
    assert(update_models(out@) =~= reset_updates());
    out
}

/// "on" or "off".
pub open spec fn switch_text(on: bool) -> Seq<char> {
    if on {
        "on"@
    } else {
        "off"@
    }
}

fn switch_label(on: bool) -> (r: &'static str)
    ensures
        r@ == switch_text(on),
{
    if on {
        "on"
    } else {
        "off"
    }
}

/// The key of a Crossfeed level in the panel.
pub open spec fn crossfeed_key(level: CrossfeedLevel) -> Seq<char> {
    match level {
        CrossfeedLevel::Off => "off"@,
        CrossfeedLevel::Low => "low"@,
        CrossfeedLevel::High => "high"@,
    }
}

/// The key of a Crossfeed level in the panel.
pub fn crossfeed_level_str(level: CrossfeedLevel) -> (r: &'static str)
    ensures
        r@ == crossfeed_key(level),
{
    match level {
        CrossfeedLevel::Off => "off",
        CrossfeedLevel::Low => "low",
        CrossfeedLevel::High => "high",
    }
}

/// The Crossfeed level that a key of the panel stands for; any other text stands
/// for off.
pub open spec fn crossfeed_of_key(key: Seq<char>) -> CrossfeedLevel {
    if key == "low"@ {
        CrossfeedLevel::Low
    } else if key == "high"@ {
        CrossfeedLevel::High
    } else {
        CrossfeedLevel::Off
    }
}

/// The Crossfeed level that a key of the panel stands for.
pub fn crossfeed_from_key(key: &str) -> (r: CrossfeedLevel)
    ensures
        r == crossfeed_of_key(key@),
{
    if same_text(key, "low") {
        CrossfeedLevel::Low
    } else if same_text(key, "high") {
        CrossfeedLevel::High
    } else {
        CrossfeedLevel::Off
    }
}

/// The transport that a key of the panel stands for: "ble", or else classic.
pub fn transport_from_key(key: &str) -> (r: TransportKind)
    ensures
        r == if key@ == "ble"@ {
            TransportKind::Ble
        } else {
            TransportKind::Classic
        },
{
    if same_text(key, "ble") {
        TransportKind::Ble
    } else {
        TransportKind::Classic
    }
}

/// What the panel shows of a reported multipoint status: the switch moves only
/// if the status says where it stands.
pub open spec fn multipoint_updates(status: MultipointStatus) -> Seq<UpdateModel> {
    let text = UpdateModel::MultipointStatusText(crate::report::multipoint_text(status));
    match status {
        MultipointStatus::On => seq![text, UpdateModel::MultipointOn(true)],
        MultipointStatus::Off => seq![text, UpdateModel::MultipointOn(false)],
        _ => seq![text],
    }
}

fn show_multipoint(status: MultipointStatus) -> (r: Vec<PanelUpdate>)
    ensures
        update_models(r@) == multipoint_updates(status),
{
    let mut out: Vec<PanelUpdate> = vec![
        PanelUpdate::MultipointStatusText(format_multipoint(status)),
    ];
    match status {
        MultipointStatus::On => out.push(PanelUpdate::MultipointOn(true)),
        MultipointStatus::Off => out.push(PanelUpdate::MultipointOn(false)),
        _ => {},
    }
    assert(update_models(out@) =~= multipoint_updates(status));
    out
}

/// The preset with these gains, if there is one. No two have the same.
pub open spec fn preset_of(gains: Seq<i8>) -> Option<int> {
    if exists|i: int| crate::commands::has_gains(i, gains) {
        Some(choose|i: int| crate::commands::has_gains(i, gains))
    } else {
        None
    }
}

/// How the panel shows the gains of all bands.
pub open spec fn gains_updates(gains: Seq<i8>) -> Seq<UpdateModel>
    decreases gains.len(),
{
    if gains.len() == 0 {
        Seq::empty()
    } else {
        gains_updates(gains.drop_last()) + band_updates((gains.len() - 1) as u8, gains.last())
    }
}

/// How the panel shows that gains belong to a preset.
pub open spec fn preset_updates(gains: Seq<i8>) -> Seq<UpdateModel> {
    match preset_of(gains) {
        Some(i) => seq![
            UpdateModel::EqPresetIndex(i),
            UpdateModel::Log(
                "[live] eq bands match preset '"@ + crate::gaia::EQ_PRESETS@[i].0@ + "'"@,
            ),
        ],
        None => Seq::empty(),
    }
}

/// How the panel shows an event of the headset.
pub open spec fn event_updates(event: EventModel) -> Seq<UpdateModel> {
    match event {
        EventModel::AncMode(on) => seq![
            UpdateModel::AncSelected(if on { "adaptive"@ } else { "off"@ }),
            UpdateModel::Log("[live] ANC mode: "@ + if on { "Adaptive"@ } else { "Off"@ }),
        ],
        EventModel::AntiWind(on) => seq![
            UpdateModel::AntiWindOn(on),
            UpdateModel::Log("[live] anti-wind: "@ + switch_text(on)),
        ],
        EventModel::CustomNoiseControl(percent) => seq![
            UpdateModel::NoiseControlPercent(percent),
            UpdateModel::Log(
                "[live] custom noise control: "@ + crate::text::decimal(percent as nat) + "%"@,
            ),
        ],
        EventModel::CustomModeActive(active) => if active {
            seq![
                UpdateModel::AncSelected("custom"@),
                UpdateModel::AncCustomVisible(true),
                UpdateModel::Log("[live] custom mode active: "@ + "true"@),
            ]
        } else {
            seq![
                UpdateModel::AncSelected("adaptive"@),
                UpdateModel::Log("[live] custom mode active: "@ + "false"@),
            ]
        },
        EventModel::BassBoost(on) => seq![
            UpdateModel::BassBoostOn(on),
            UpdateModel::Log("[live] bass boost: "@ + switch_text(on)),
        ],
        EventModel::MultipointEnabled(on) => seq![
            UpdateModel::MultipointOn(on),
            UpdateModel::Log("[live] multipoint: "@ + switch_text(on)),
        ],
        EventModel::MultipointStatus(status) => multipoint_updates(status).push(
            UpdateModel::Log("[live] multipoint status: "@ + crate::report::multipoint_text(status)),
        ),
        EventModel::Crossfeed(level) => seq![
            UpdateModel::CrossfeedSelected(crossfeed_key(level)),
            UpdateModel::Log("[live] crossfeed: "@ + crate::report::crossfeed_text(level)),
        ],
        EventModel::EqBands(gains) => gains_updates(gains).push(
            UpdateModel::Log("[live] eq bands: "@ + crate::text::signed_list(gains)),
        ) + preset_updates(gains),
    }
}

fn show_gains(gains: [i8; 5]) -> (r: Vec<PanelUpdate>)
    ensures
        update_models(r@) == event_updates(EventModel::EqBands(gains@)),
{
    let mut out: Vec<PanelUpdate> = Vec::new();
    let mut band: u8 = 0;
    assert(update_models(out@) =~= gains_updates(gains@.take(0)));
    while band < 5
        invariant
            band <= 5,
            update_models(out@) == gains_updates(gains@.take(band as int)),
        decreases 5 - band,
    {
        assert(gains@.take(band + 1).drop_last() =~= gains@.take(band as int));
        push_band(&mut out, band, gains[band as usize]);
        band += 1;
    }
    assert(gains@.take(5) =~= gains@);
    let ghost shown = gains_updates(gains@);
    let mut line: String = "[live] eq bands: ".to_owned();
    push_signed_list(&mut line, &gains);
    let ghost logged_line = UpdateModel::Log(line@);
    out.push(PanelUpdate::Log(line));
    assert(update_models(out@) =~= shown.push(logged_line));
    let ghost so_far = update_models(out@);
    match find_eq_preset(gains) {
        Some((index, name)) => {
            proof {
                let i = preset_of(gains@)->0;
                crate::commands::preset_gains_are_distinct(i, index as int, gains@);
            }
            out.push(PanelUpdate::EqPresetIndex(index));
            let mut line: String = prefixed("[live] eq bands match preset '", name);
            line.append("'");
            out.push(PanelUpdate::Log(line));
            assert(update_models(out@) =~= so_far + preset_updates(gains@));
        },
        None => {
            assert(update_models(out@) =~= so_far + preset_updates(gains@));
        },
    }
    out
}

/// Shows an event of the headset. Leaving custom mode lands on Adaptive.
pub fn apply_device_event(event: DeviceEvent) -> (r: Vec<PanelUpdate>)
    ensures
        update_models(r@) == event_updates(event@),
{
    let out: Vec<PanelUpdate> = match event {
        DeviceEvent::AncMode(on) => {
            let key: &'static str = if on {
                "adaptive"
            } else {
                "off"
            };
            let mode: &'static str = if on {
                "Adaptive"
            } else {
                "Off"
            };
            vec![
                PanelUpdate::AncSelected(key.to_owned()),
                PanelUpdate::Log(prefixed("[live] ANC mode: ", mode)),
            ]
        },
        DeviceEvent::AntiWind(on) => vec![
            PanelUpdate::AntiWindOn(on),
            PanelUpdate::Log(prefixed("[live] anti-wind: ", switch_label(on))),
        ],
        DeviceEvent::CustomNoiseControl(percent) => {
            let mut line: String = "[live] custom noise control: ".to_owned();
            push_decimal(&mut line, percent as u64);
            line.append("%");
            vec![PanelUpdate::NoiseControlPercent(percent), PanelUpdate::Log(line)]
        },
        DeviceEvent::CustomModeActive(active) => if active {
            vec![
                PanelUpdate::AncSelected("custom".to_owned()),
                PanelUpdate::AncCustomVisible(true),
                PanelUpdate::Log(prefixed("[live] custom mode active: ", "true")),
            ]
        } else {
            vec![
                PanelUpdate::AncSelected("adaptive".to_owned()),
                PanelUpdate::Log(prefixed("[live] custom mode active: ", "false")),
            ]
        },
        DeviceEvent::BassBoost(on) => vec![
            PanelUpdate::BassBoostOn(on),
            PanelUpdate::Log(prefixed("[live] bass boost: ", switch_label(on))),
        ],
        DeviceEvent::MultipointEnabled(on) => vec![
            PanelUpdate::MultipointOn(on),
            PanelUpdate::Log(prefixed("[live] multipoint: ", switch_label(on))),
        ],
        DeviceEvent::MultipointStatus(status) => {
            let mut shown: Vec<PanelUpdate> = show_multipoint(status);
            let text: String = format_multipoint(status);
            shown.push(PanelUpdate::Log(prefixed("[live] multipoint status: ", text.as_str())));
            shown
        },
        DeviceEvent::Crossfeed(level) => vec![
            PanelUpdate::CrossfeedSelected(crossfeed_level_str(level).to_owned()),
            PanelUpdate::Log(prefixed("[live] crossfeed: ", format_crossfeed(level))),
        ],
        DeviceEvent::EqBands(gains) => show_gains(gains),
    };
    assert(update_models(out@) =~= event_updates(event@));
    out
}

/// What the feed of notifications hands out.
pub enum Received {
    Frame(GaiaResponse),
    /// Some notifications were missed.
    Lagged,
    /// The connection is gone.
    Closed,
}

/// What the listener does next.
pub enum ListenerStep {
    /// Show an event, then wait for the next notification.
    Show(DeviceEvent),
    /// Wait for the next notification.
    Wait,
    /// End.
    Stop,
}

/// Decides what the listener does with what it received: missed notifications
/// do no harm, since only the latest state is shown.
pub fn on_notification(received: &Received) -> (r: ListenerStep)
    ensures
        match *received {
            Received::Frame(resp) => match crate::commands::event(resp@) {
                Some(m) => r matches ListenerStep::Show(e) && e@ == m,
                None => r is Wait,
            },
            Received::Lagged => r is Wait,
            Received::Closed => r is Stop,
        },
{
    match received {
        Received::Frame(resp) => match interpret_event(resp) {
            Some(event) => ListenerStep::Show(event),
            None => ListenerStep::Wait,
        },
        Received::Lagged => ListenerStep::Wait,
        Received::Closed => ListenerStep::Stop,
    }
}

/// How the panel shows that something failed.
pub open spec fn failure_updates(error: Seq<char>) -> Seq<UpdateModel> {
    seq![UpdateModel::Log("error: "@ + error)]
}

fn show_failure(error: &str) -> (r: Vec<PanelUpdate>)
    ensures
        update_models(r@) == failure_updates(error@),
{
    let out: Vec<PanelUpdate> = vec![PanelUpdate::Log(prefixed("error: ", error))];
    assert(update_models(out@) =~= failure_updates(error@));
    out
}

/// How the panel shows a volume, with what is said in the log before it.
pub open spec fn volume_updates(result: Result<u16, String>, prefix: Seq<char>) -> Seq<
    UpdateModel,
> {
    match result {
        Ok(volume) => seq![
            UpdateModel::VolumeValue(volume),
            UpdateModel::VolumeText(crate::report::volume_text(volume)),
            UpdateModel::Log(prefix + crate::report::volume_text(volume)),
        ],
        Err(e) => failure_updates(e@),
    }
}

fn show_volume(result: Result<u16, String>, prefix: &str) -> (r: Vec<PanelUpdate>)
    ensures
        update_models(r@) == volume_updates(result, prefix@),
{
    match result {
        Ok(volume) => {
            let text: String = format_volume(volume);
            let out: Vec<PanelUpdate> = vec![
                PanelUpdate::VolumeValue(volume),
                PanelUpdate::VolumeText(format_volume(volume)),
                PanelUpdate::Log(prefixed(prefix, text.as_str())),
            ];
            assert(update_models(out@) =~= volume_updates(result, prefix@));
            out
        },
        Err(e) => show_failure(e.as_str()),
    }
}

/// Shows a volume that was read.
pub fn volume_read(result: Result<u16, String>) -> (r: Vec<PanelUpdate>)
    ensures
        update_models(r@) == volume_updates(result, "volume: "@),
{
    show_volume(result, "volume: ")
}

/// Shows a volume that was set.
pub fn volume_set(result: Result<u16, String>) -> (r: Vec<PanelUpdate>)
    ensures
        update_models(r@) == volume_updates(result, "volume set: "@),
{
    show_volume(result, "volume set: ")
}

/// The volume that a slider position stands for.
pub fn clamp_volume(value: i32) -> (r: u16)
    ensures
        r == if value < 0 {
            0
        } else if value > MAX_VOLUME {
            MAX_VOLUME as int
        } else {
            value as int
        },
{
    if value < 0 {
        0
    } else if value > 127 {
        127
    } else {
        value as u16
    }
}

/// The percentage that a slider position stands for.
pub fn clamp_percent(value: i32) -> (r: u8)
    ensures
        r == if value < 0 {
            0
        } else if value > 100 {
            100
        } else {
            value as int
        },
{
    if value < 0 {
        0
    } else if value > 100 {
        100
    } else {
        value as u8
    }
}

/// The volume after a step up or down. Only the low 16 bits of the size of a
/// step count.
pub fn step_volume(current: u16, delta: i32) -> (r: u16)
    requires
        delta != i32::MIN,
    ensures
        r == if delta >= 0 {
            crate::report::raised(current, (delta % 0x10000) as u16)
        } else {
            crate::report::reduced(current, (-delta % 0x10000) as u16)
        },
{
    if delta >= 0 {
        volume_up(current, (delta % 0x10000) as u16)
    } else {
        volume_down(current, ((-delta) % 0x10000) as u16)
    }
}

/// Shows a battery level that BlueZ reported.
pub fn battery_read(result: Result<u8, String>) -> (r: Vec<PanelUpdate>)
    ensures
        update_models(r@) == match result {
            Ok(percent) => {
                let text = crate::report::battery_text(percent, BatterySource::Bluez);
                seq![UpdateModel::BatteryText(text), UpdateModel::Log("battery: "@ + text)]
            },
            Err(e) => failure_updates(e@),
        },
{
    match result {
        Ok(percent) => {
            let text: String = format_battery(percent, BatterySource::Bluez);
            let line: String = prefixed("battery: ", text.as_str());
            let ghost shown = seq![UpdateModel::BatteryText(text@), UpdateModel::Log(line@)];
            let out: Vec<PanelUpdate> = vec![
                PanelUpdate::BatteryText(text),
                PanelUpdate::Log(line),
            ];
            assert(update_models(out@) =~= shown);
            out
        },
        Err(e) => show_failure(e.as_str()),
    }
}

/// Shows a battery level that was read over GATT from a device.
pub fn battery_read_over_gatt(result: Result<(String, u8), String>) -> (r: Vec<PanelUpdate>)
    ensures
        update_models(r@) == match result {
            Ok((name, percent)) => {
                let text = crate::report::battery_text(percent, BatterySource::Gatt);
                seq![
                    UpdateModel::BatteryText(text),
                    UpdateModel::Log("battery ("@ + name@ + "): "@ + text),
                ]
            },
            Err(e) => failure_updates(e@),
        },
{
    match result {
        Ok((name, percent)) => {
            let text: String = format_battery(percent, BatterySource::Gatt);
            let mut line: String = prefixed("battery (", name.as_str());
            line.append("): ");
            line.append(text.as_str());
            let ghost shown = seq![UpdateModel::BatteryText(text@), UpdateModel::Log(line@)];
            let out: Vec<PanelUpdate> = vec![
                PanelUpdate::BatteryText(text),
                PanelUpdate::Log(line),
            ];
            assert(update_models(out@) =~= shown);
            out
        },
        Err(e) => show_failure(e.as_str()),
    }
}

/// A control that sends one command and only logs the response.
#[derive(Debug, Clone, Copy, PartialEq, Eq, Structural)]
pub enum Control {
    BassBoost,
    AntiWind,
    Multipoint,
    Raw,
}

/// What the log says before the response to a control's command.
pub open spec fn control_text(control: Control) -> Seq<char> {
    match control {
        Control::BassBoost => "bass boost set: "@,
        Control::AntiWind => "anti-wind set: "@,
        Control::Multipoint => "multipoint set: "@,
        Control::Raw => "raw gaia: "@,
    }
}

fn control_label(control: Control) -> (r: &'static str)
    ensures
        r@ == control_text(control),
{
    match control {
        Control::BassBoost => "bass boost set: ",
        Control::AntiWind => "anti-wind set: ",
        Control::Multipoint => "multipoint set: ",
        Control::Raw => "raw gaia: ",
    }
}

/// Shows the outcome of a control's command.
pub fn control_done(control: Control, result: Result<GaiaResponse, String>) -> (r: Vec<
    PanelUpdate,
>)
    ensures
        update_models(r@) == match result {
            Ok(resp) => seq![
                UpdateModel::Log(control_text(control) + crate::report::response_text(resp@)),
            ],
            Err(e) => failure_updates(e@),
        },
{
    match result {
        Ok(resp) => {
            let text: String = format_gaia_response(&resp);
            let line: String = prefixed(control_label(control), text.as_str());
            let ghost shown = seq![UpdateModel::Log(line@)];
            let out: Vec<PanelUpdate> = vec![PanelUpdate::Log(line)];
            assert(update_models(out@) =~= shown);
            out
        },
        Err(e) => show_failure(e.as_str()),
    }
}

fn two_responses(before: &str, first: &GaiaResponse, between: &str, second: &GaiaResponse) -> (r:
    String)
    ensures
        r@ == before@ + crate::report::response_text(first@) + between@
            + crate::report::response_text(second@),
{
    let one: String = format_gaia_response(first);
    let two: String = format_gaia_response(second);
    let mut line: String = prefixed(before, one.as_str());
    line.append(between);
    line.append(two.as_str());
    line
}

/// Shows the outcome of a change of the ANC mode: the responses to the mode
/// and to its companion.
pub fn anc_set_done(result: Result<(GaiaResponse, GaiaResponse), String>) -> (r: Vec<PanelUpdate>)
    ensures
        update_models(r@) == match result {
            Ok((primary, companion)) => seq![
                UpdateModel::Log(
                    "anc set: primary "@ + crate::report::response_text(primary@)
                        + " / companion "@ + crate::report::response_text(companion@),
                ),
            ],
            Err(e) => failure_updates(e@),
        },
{
    match result {
        Ok((primary, companion)) => {
            let line: String = two_responses(
                "anc set: primary ",
                &primary,
                " / companion ",
                &companion,
            );
            let ghost shown = seq![UpdateModel::Log(line@)];
            let out: Vec<PanelUpdate> = vec![PanelUpdate::Log(line)];
            assert(update_models(out@) =~= shown);
            out
        },
        Err(e) => show_failure(e.as_str()),
    }
}

/// Shows the outcome of a move of the noise-control slider: the responses to
/// setting and committing it.
pub fn noise_control_done(result: Result<(GaiaResponse, GaiaResponse), String>) -> (r: Vec<
    PanelUpdate,
>)
    ensures
        update_models(r@) == match result {
            Ok((set, commit)) => seq![
                UpdateModel::Log(
                    "noise control set: "@ + crate::report::response_text(set@) + " / commit: "@
                        + crate::report::response_text(commit@),
                ),
            ],
            Err(e) => failure_updates(e@),
        },
{
    match result {
        Ok((set, commit)) => {
            let line: String = two_responses("noise control set: ", &set, " / commit: ", &commit);
            let ghost shown = seq![UpdateModel::Log(line@)];
            let out: Vec<PanelUpdate> = vec![PanelUpdate::Log(line)];
            assert(update_models(out@) =~= shown);
            out
        },
        Err(e) => show_failure(e.as_str()),
    }
}

/// Shows the answer to a question for the ANC state.
pub fn anc_status_done(result: Result<GaiaResponse, String>) -> (r: Vec<PanelUpdate>)
    ensures
        update_models(r@) == match result {
            Ok(resp) => seq![
                UpdateModel::AncStatusText(crate::report::response_text(resp@)),
                UpdateModel::Log(
                    "anc status (unverified opcode): "@ + crate::report::response_text(resp@),
                ),
            ],
            Err(e) => seq![
                UpdateModel::AncStatusText("unknown"@),
                UpdateModel::Log("anc status error: "@ + e@),
            ],
        },
{
    let (text, line): (String, String) = match result {
        Ok(resp) => {
            let text: String = format_gaia_response(&resp);
            let line: String = prefixed("anc status (unverified opcode): ", text.as_str());
            (text, line)
        },
        Err(e) => ("unknown".to_owned(), prefixed("anc status error: ", e.as_str())),
    };
    let ghost shown = seq![UpdateModel::AncStatusText(text@), UpdateModel::Log(line@)];
    let out: Vec<PanelUpdate> = vec![PanelUpdate::AncStatusText(text), PanelUpdate::Log(line)];
    assert(update_models(out@) =~= shown);
    out
}

/// Shows the answer to a question for the multipoint status.
pub fn multipoint_status_done(result: Result<MultipointStatus, String>) -> (r: Vec<PanelUpdate>)
    ensures
        update_models(r@) == match result {
            Ok(status) => multipoint_updates(status).push(
                UpdateModel::Log(
                    "multipoint status: "@ + crate::report::multipoint_text(status),
                ),
            ),
            Err(e) => seq![
                UpdateModel::MultipointStatusText("unknown"@),
                UpdateModel::Log("multipoint status error: "@ + e@),
            ],
        },
{
    match result {
        Ok(status) => {
            let mut out: Vec<PanelUpdate> = show_multipoint(status);
            let text: String = format_multipoint(status);
            let line: String = prefixed("multipoint status: ", text.as_str());
            let ghost shown = multipoint_updates(status).push(UpdateModel::Log(line@));
            out.push(PanelUpdate::Log(line));
            assert(update_models(out@) =~= shown);
            out
        },
        Err(e) => {
            let line: String = prefixed("multipoint status error: ", e.as_str());
            let ghost shown = seq![
                UpdateModel::MultipointStatusText("unknown"@),
                UpdateModel::Log(line@),
            ];
            let out: Vec<PanelUpdate> = vec![
                PanelUpdate::MultipointStatusText("unknown".to_owned()),
                PanelUpdate::Log(line),
            ];
            assert(update_models(out@) =~= shown);
            out
        },
    }
}

/// Shows the answer to a question for the Crossfeed level.
pub fn crossfeed_status_done(result: Result<Option<CrossfeedLevel>, String>) -> (r: Vec<
    PanelUpdate,
>)
    ensures
        update_models(r@) == match result {
            Ok(Some(level)) => seq![
                UpdateModel::CrossfeedSelected(crossfeed_key(level)),
                UpdateModel::Log("crossfeed status: "@ + crate::report::crossfeed_text(level)),
            ],
            Ok(None) => seq![
                UpdateModel::Log("crossfeed status: device returned an unrecognized value"@),
            ],
            Err(e) => seq![UpdateModel::Log("crossfeed status error: "@ + e@)],
        },
{
    match result {
        Ok(Some(level)) => {
            let line: String = prefixed("crossfeed status: ", format_crossfeed(level));
            let ghost shown = seq![
                UpdateModel::CrossfeedSelected(crossfeed_key(level)),
                UpdateModel::Log(line@),
            ];
            let out: Vec<PanelUpdate> = vec![
                PanelUpdate::CrossfeedSelected(crossfeed_level_str(level).to_owned()),
                PanelUpdate::Log(line),
            ];
            assert(update_models(out@) =~= shown);
            out
        },
        Ok(None) => {
            let out: Vec<PanelUpdate> = vec![
                PanelUpdate::Log(
                    "crossfeed status: device returned an unrecognized value".to_owned(),
                ),
            ];
            assert(update_models(out@) =~= seq![
                UpdateModel::Log("crossfeed status: device returned an unrecognized value"@),
            ]);
            out
        },
        Err(e) => {
            let line: String = prefixed("crossfeed status error: ", e.as_str());
            let ghost shown = seq![UpdateModel::Log(line@)];
            let out: Vec<PanelUpdate> = vec![PanelUpdate::Log(line)];
            assert(update_models(out@) =~= shown);
            out
        },
    }
}

/// Shows the outcome of a change of the Crossfeed level: the response, and the
/// level that the headset then reported. It never pushes this level by itself.
pub fn crossfeed_set_done(result: Result<(GaiaResponse, Option<CrossfeedLevel>), String>) -> (r:
    Vec<PanelUpdate>)
    ensures
        update_models(r@) == match result {
            Ok((resp, level)) => {
                let set = UpdateModel::Log(
                    "crossfeed set: "@ + crate::report::response_text(resp@),
                );
                match level {
                    Some(level) => seq![
                        set,
                        UpdateModel::CrossfeedSelected(crossfeed_key(level)),
                        UpdateModel::Log(
                            "crossfeed re-queried: "@ + crate::report::crossfeed_text(level),
                        ),
                    ],
                    None => seq![set, UpdateModel::Log("crossfeed re-queried: unrecognized value"@)],
                }
            },
            Err(e) => failure_updates(e@),
        },
{
    match result {
        Ok((resp, level)) => {
            let text: String = format_gaia_response(&resp);
            let set: String = prefixed("crossfeed set: ", text.as_str());
            let ghost logged_set = UpdateModel::Log(set@);
            match level {
                Some(level) => {
                    let line: String = prefixed("crossfeed re-queried: ", format_crossfeed(level));
                    let ghost shown = seq![
                        logged_set,
                        UpdateModel::CrossfeedSelected(crossfeed_key(level)),
                        UpdateModel::Log(line@),
                    ];
                    let out: Vec<PanelUpdate> = vec![
                        PanelUpdate::Log(set),
                        PanelUpdate::CrossfeedSelected(crossfeed_level_str(level).to_owned()),
                        PanelUpdate::Log(line),
                    ];
                    assert(update_models(out@) =~= shown);
                    out
                },
                None => {
                    let out: Vec<PanelUpdate> = vec![
                        PanelUpdate::Log(set),
                        PanelUpdate::Log("crossfeed re-queried: unrecognized value".to_owned()),
                    ];
                    assert(update_models(out@) =~= seq![
                        logged_set,
                        UpdateModel::Log("crossfeed re-queried: unrecognized value"@),
                    ]);
                    out
                },
            }
        },
        Err(e) => show_failure(e.as_str()),
    }
}

/// What the log says of each band of an applied preset.
pub open spec fn band_lines(results: Seq<(u8, i8, GaiaResponse)>) -> Seq<Seq<char>> {
    results.map_values(
        |t: (u8, i8, GaiaResponse)|
            "  "@ + crate::report::band_text(t.0, t.1) + ": "@ + crate::report::response_text(t.2@),
    )
}

/// How the panel shows the bands of an applied preset.
pub open spec fn results_updates(results: Seq<(u8, i8, GaiaResponse)>) -> Seq<UpdateModel>
    decreases results.len(),
{
    if results.len() == 0 {
        Seq::empty()
    } else {
        results_updates(results.drop_last()) + band_updates(results.last().0, results.last().1)
    }
}

/// What the log says of an applied preset.
pub open spec fn preset_log(results: Seq<(u8, i8, GaiaResponse)>) -> Seq<char> {
    crate::text::joined(
        seq!["eq preset applied ("@ + crate::text::decimal(results.len()) + " bands):"@]
            + band_lines(results),
        "\n"@,
    )
}

/// Shows the outcome of applying a preset: the sliders follow the gains that
/// were sent.
pub fn eq_preset_done(result: Result<Vec<(u8, i8, GaiaResponse)>, String>) -> (r: Vec<PanelUpdate>)
    ensures
        update_models(r@) == match result {
            Ok(results) => results_updates(results@).push(UpdateModel::Log(preset_log(results@))),
            Err(e) => failure_updates(e@),
        },
{
    let results: Vec<(u8, i8, GaiaResponse)> = match result {
        Ok(results) => results,
        Err(e) => return show_failure(e.as_str()),
    };
    let mut heading: String = "eq preset applied (".to_owned();
    push_decimal(&mut heading, results.len() as u64);
    heading.append(" bands):");
    let ghost first = heading@;
    let mut lines: Vec<String> = vec![heading];
    let mut out: Vec<PanelUpdate> = Vec::new();
    let mut i: usize = 0;
    assert(update_models(out@) =~= results_updates(results@.take(0)));
    assert(crate::text::texts(lines@) =~= seq![first] + band_lines(results@.take(0)));
    while i < results.len()
        invariant
            i <= results@.len(),
            update_models(out@) == results_updates(results@.take(i as int)),
            crate::text::texts(lines@) == seq![first] + band_lines(results@.take(i as int)),
        decreases results@.len() - i,
    {
        let ghost before = lines@;
        assert(results@.take(i + 1).drop_last() =~= results@.take(i as int));
        push_band(&mut out, results[i].0, results[i].1);
        let band: String = format_band(results[i].0, results[i].1);
        let text: String = format_gaia_response(&results[i].2);
        let mut line: String = prefixed("  ", band.as_str());
        line.append(": ");
        line.append(text.as_str());
        lines.push(line);
        assert(crate::text::texts(lines@) =~= crate::text::texts(before).push(line@));
        assert(seq![first] + band_lines(results@.take(i + 1)) =~= (seq![first] + band_lines(
            results@.take(i as int),
        )).push(line@));
        i += 1;
    }
    assert(results@.take(i as int) =~= results@);
    let log: String = join(&lines, "\n");
    let ghost shown = results_updates(results@).push(UpdateModel::Log(log@));
    out.push(PanelUpdate::Log(log));
    assert(update_models(out@) =~= shown);
    out
}

/// What the panel shows without a connection.
pub open spec fn disconnected_updates() -> Seq<UpdateModel> {
    seq![
        UpdateModel::GaiaConnected(false),
        UpdateModel::ConnectionStatus("Not connected"@),
    ] + reset_updates()
}

/// Shows that another device was selected: the connection to the last one is
/// gone.
pub fn device_selected() -> (r: Vec<PanelUpdate>)
    ensures
        update_models(r@) == disconnected_updates(),
{
    let out: Vec<PanelUpdate> = vec![
        PanelUpdate::GaiaConnected(false),
        PanelUpdate::ConnectionStatus("Not connected".to_owned()),
        PanelUpdate::AncStatusText("unknown".to_owned()),
        PanelUpdate::MultipointStatusText("unknown".to_owned()),
    ];
    assert(update_models(out@) =~= disconnected_updates());
    out
}

/// Shows that the connection was closed.
pub fn disconnected() -> (r: Vec<PanelUpdate>)
    ensures
        update_models(r@) == disconnected_updates().push(UpdateModel::Log("disconnected"@)),
{
    let mut out: Vec<PanelUpdate> = device_selected();
    out.push(PanelUpdate::Log("disconnected".to_owned()));
    assert(update_models(out@) =~= disconnected_updates().push(UpdateModel::Log("disconnected"@)));
    out
}

/// Shows that a connection is being opened.
pub fn connecting() -> (r: Vec<PanelUpdate>)
    ensures
        update_models(r@) == seq![UpdateModel::ConnectionStatus("Connecting..."@)]
            + reset_updates(),
{
    let out: Vec<PanelUpdate> = vec![
        PanelUpdate::ConnectionStatus("Connecting...".to_owned()),
        PanelUpdate::AncStatusText("unknown".to_owned()),
        PanelUpdate::MultipointStatusText("unknown".to_owned()),
    ];
    assert(update_models(out@) =~= seq![UpdateModel::ConnectionStatus("Connecting..."@)]
        + reset_updates());
    out
}

/// Shows whether the connection to a device could be opened.
pub fn connected(result: Result<String, String>) -> (r: Vec<PanelUpdate>)
    ensures
        update_models(r@) == match result {
            Ok(name) => seq![
                UpdateModel::GaiaConnected(true),
                UpdateModel::ConnectionStatus("Connected to "@ + name@),
                UpdateModel::Log("connected to "@ + name@),
            ],
            Err(e) => seq![
                UpdateModel::GaiaConnected(false),
                UpdateModel::ConnectionStatus("Not connected"@),
                UpdateModel::Log("error: "@ + e@),
            ],
        },
{
    let (open, status, line): (bool, String, String) = match result {
        Ok(name) => (
            true,
            prefixed("Connected to ", name.as_str()),
            prefixed("connected to ", name.as_str()),
        ),
        Err(e) => (false, "Not connected".to_owned(), prefixed("error: ", e.as_str())),
    };
    let ghost shown = seq![
        UpdateModel::GaiaConnected(open),
        UpdateModel::ConnectionStatus(status@),
        UpdateModel::Log(line@),
    ];
    let out: Vec<PanelUpdate> = vec![
        PanelUpdate::GaiaConnected(open),
        PanelUpdate::ConnectionStatus(status),
        PanelUpdate::Log(line),
    ];
    assert(update_models(out@) =~= shown);
    out
}

/// Shows that another transport was selected.
pub fn transport_selected(key: &str) -> (r: Vec<PanelUpdate>)
    ensures
        update_models(r@) == seq![
            UpdateModel::Log("transport set to "@ + key@),
            UpdateModel::TransportKind(key@),
        ],
{
    let line: String = prefixed("transport set to ", key);
    let ghost shown = seq![UpdateModel::Log(line@), UpdateModel::TransportKind(key@)];
    let out: Vec<PanelUpdate> = vec![
        PanelUpdate::Log(line),
        PanelUpdate::TransportKind(key.to_owned()),
    ];
    assert(update_models(out@) =~= shown);
    out
}

/// Shows the connected devices. The first of them is selected.
pub fn devices_listed(result: Result<&Vec<ConnectedDevice>, String>) -> (r: Vec<PanelUpdate>)
    ensures
        update_models(r@) == match result {
            Ok(devices) => {
                let names = UpdateModel::DeviceNames(crate::report::device_texts(devices@));
                if devices@.len() > 0 {
                    seq![names, UpdateModel::SelectedDeviceIndex(0)]
                } else {
                    seq![
                        names,
                        UpdateModel::SelectedDeviceIndex(-1),
                        UpdateModel::Log("no connected devices found"@),
                    ]
                }
            },
            Err(e) => failure_updates(e@),
        },
{
    match result {
        Ok(devices) => {
            let names: Vec<String> = device_names(devices);
            let ghost listed = UpdateModel::DeviceNames(crate::report::device_texts(devices@));
            if devices.len() > 0 {
                let out: Vec<PanelUpdate> = vec![
                    PanelUpdate::DeviceNames(names),
                    PanelUpdate::SelectedDeviceIndex(0),
                ];
                assert(update_models(out@) =~= seq![listed, UpdateModel::SelectedDeviceIndex(0)]);
                out
            } else {
                let out: Vec<PanelUpdate> = vec![
                    PanelUpdate::DeviceNames(names),
                    PanelUpdate::SelectedDeviceIndex(-1),
                    PanelUpdate::Log("no connected devices found".to_owned()),
                ];
                assert(update_models(out@) =~= seq![
                    listed,
                    UpdateModel::SelectedDeviceIndex(-1),
                    UpdateModel::Log("no connected devices found"@),
                ]);
                out
            }
        },
        Err(e) => show_failure(e.as_str()),
    }
}

/// What the panel goes on to do by itself.
#[derive(Debug, Clone, Copy, PartialEq, Eq, Structural)]
pub enum FollowUp {
    RefreshVolume,
    RefreshBattery,
    /// Open the control channel to the selected device, if one is selected.
    ConnectSelected,
    QueryAnc,
    QueryMultipoint,
    QueryCrossfeed,
    /// Listen for notifications.
    Listen,
}

/// What follows an attempt to open the control channel: once it is open, the
/// settings that can be asked for are asked for, and then the panel listens for
/// the rest.
pub fn after_connect(open: bool) -> (r: Vec<FollowUp>)
    ensures
        r@ == if open {
            seq![
                FollowUp::QueryAnc,
                FollowUp::QueryMultipoint,
                FollowUp::QueryCrossfeed,
                FollowUp::Listen,
            ]
        } else {
            Seq::empty()
        },
{
    if open {
        vec![
            FollowUp::QueryAnc,
            FollowUp::QueryMultipoint,
            FollowUp::QueryCrossfeed,
            FollowUp::Listen,
        ]
    } else {
        Vec::new()
    }
}

/// Everything about the selected device that the panel can find out by itself.
pub open spec fn device_data() -> Seq<FollowUp> {
    seq![FollowUp::RefreshVolume, FollowUp::RefreshBattery, FollowUp::ConnectSelected]
}

/// What is to be found out about the device that is now selected.
pub fn refresh_device_data() -> (r: Vec<FollowUp>)
    ensures
        r@ == device_data(),
{
    vec![FollowUp::RefreshVolume, FollowUp::RefreshBattery, FollowUp::ConnectSelected]
}

/// What follows a listing of the connected devices: if there is any, the first
/// is now selected.
pub fn after_listing(devices: &Vec<ConnectedDevice>) -> (r: Vec<FollowUp>)
    ensures
        r@ == if devices@.len() > 0 {
            device_data()
        } else {
            Seq::empty()
        },
{
    if devices.len() > 0 {
        refresh_device_data()
    } else {
        Vec::new()
    }
}

/// What follows the selection of another transport: the channel is opened again
/// over it.
pub fn after_transport_selected() -> (r: Vec<FollowUp>)
    ensures
        r@ == seq![FollowUp::ConnectSelected],
{
    vec![FollowUp::ConnectSelected]
}

/// The log after some lines have been appended to an empty one.
pub open spec fn log_of(lines: Seq<Seq<char>>) -> Seq<char>
    decreases lines.len(),
{
    if lines.len() == 0 {
        Seq::empty()
    } else {
        logged(log_of(lines.drop_last()), lines.last())
    }
}

/// The log shows its lines, none of them empty, one under the other.
pub proof fn log_shows_its_lines(lines: Seq<Seq<char>>)
    requires
        forall|i: int| 0 <= i < lines.len() ==> (#[trigger] lines[i]).len() > 0,
    ensures
        log_of(lines) == crate::text::joined(lines, "\n"@),
        lines.len() > 0 ==> log_of(lines).len() > 0,
    decreases lines.len(),
{
    if lines.len() > 0 {
        let earlier = lines.drop_last();
        assert forall|i: int| 0 <= i < earlier.len() implies (#[trigger] earlier[i]).len() > 0 by {
            assert(earlier[i] == lines[i]);
        }
        log_shows_its_lines(earlier);
        assert(lines[lines.len() - 1] == lines.last());
    }
}

/// The key of a Crossfeed level stands for that level.
pub proof fn crossfeed_key_round_trip(level: CrossfeedLevel)
    ensures
        crossfeed_of_key(crossfeed_key(level)) == level,
{
    reveal_strlit("off");
    reveal_strlit("low");
    reveal_strlit("high");
    assert("off"@[0] == 'o' && "low"@[0] == 'l' && "high"@[0] == 'h');
}

/// When the headset reports the gains of a preset, the panel selects that
/// preset; when it reports the gains of none, the selection stays.
pub proof fn reported_preset_is_selected(gains: Seq<i8>, index: int)
    requires
        gains.len() == 5,
    ensures
        ({
            let shown = crate::commands::event(crate::commands::gains_report(gains));
            &&& shown == Some(EventModel::EqBands(gains))
            &&& crate::commands::has_gains(index, gains) <==> event_updates(
                EventModel::EqBands(gains),
            ).contains(UpdateModel::EqPresetIndex(index))
        }),
{
    crate::commands::reported_gains_are_recognised(gains, index);
    let bands = gains_updates(gains);
    let line = UpdateModel::Log("[live] eq bands: "@ + crate::text::signed_list(gains));
    let all = event_updates(EventModel::EqBands(gains));
    lemma_bands_only(gains);
    if crate::commands::has_gains(index, gains) {
        assert(preset_of(gains) == Some(index));
        assert(all[bands.len() as int + 1] == UpdateModel::EqPresetIndex(index));
    }
    if all.contains(UpdateModel::EqPresetIndex(index)) {
        let at = choose|at: int|
            0 <= at < all.len() && all[at] == UpdateModel::EqPresetIndex(index);
        if at < bands.len() {
            assert(all[at] == bands[at]);
        } else if at == bands.len() {
            assert(all[at] == line);
        } else {
            assert(all[at] == preset_updates(gains)[at - bands.len() - 1]);
        }
    }
}

proof fn lemma_bands_only(gains: Seq<i8>)
    ensures
        forall|i: int| 0 <= i < gains_updates(gains).len() ==> (#[trigger] gains_updates(gains)[i])
            is EqBand,
    decreases gains.len(),
{
    if gains.len() > 0 {
        lemma_bands_only(gains.drop_last());
    }
}

/// After a push, each switch stands where the headset says it does: the updates
/// move it there, never to the other side, and touch nothing else but the log.
pub proof fn switches_follow_the_headset(on: bool, u: UpdateModel)
    ensures
        ({
            let bass = event_updates(EventModel::BassBoost(on));
            let wind = event_updates(EventModel::AntiWind(on));
            let multipoint = event_updates(EventModel::MultipointEnabled(on));
            &&& bass.contains(UpdateModel::BassBoostOn(on))
            &&& !bass.contains(UpdateModel::BassBoostOn(!on))
            &&& bass.contains(u) ==> u is Log || u is BassBoostOn
            &&& wind.contains(UpdateModel::AntiWindOn(on))
            &&& !wind.contains(UpdateModel::AntiWindOn(!on))
            &&& wind.contains(u) ==> u is Log || u is AntiWindOn
            &&& multipoint.contains(UpdateModel::MultipointOn(on))
            &&& !multipoint.contains(UpdateModel::MultipointOn(!on))
            &&& multipoint.contains(u) ==> u is Log || u is MultipointOn
        }),
{
    assert(event_updates(EventModel::BassBoost(on))[0] == UpdateModel::BassBoostOn(on));
    assert(event_updates(EventModel::AntiWind(on))[0] == UpdateModel::AntiWindOn(on));
    assert(event_updates(EventModel::MultipointEnabled(on))[0] == UpdateModel::MultipointOn(on));
}

/// After a push, the selected ANC mode is the one that the headset says: Adaptive
/// or off, and custom while the custom position is engaged, which also shows its
/// slider; leaving it lands on Adaptive. No other mode is selected.
pub proof fn anc_mode_follows_the_headset(on: bool, key: Seq<char>, u: UpdateModel)
    ensures
        ({
            let mode = event_updates(EventModel::AncMode(on));
            let custom = event_updates(EventModel::CustomModeActive(on));
            &&& mode.contains(UpdateModel::AncSelected(key)) <==> key == if on {
                "adaptive"@
            } else {
                "off"@
            }
            &&& mode.contains(u) ==> u is Log || u is AncSelected
            &&& custom.contains(UpdateModel::AncSelected(key)) <==> key == if on {
                "custom"@
            } else {
                "adaptive"@
            }
            &&& custom.contains(UpdateModel::AncCustomVisible(true)) <==> on
            &&& !custom.contains(UpdateModel::AncCustomVisible(false))
            &&& custom.contains(u) ==> u is Log || u is AncSelected || u is AncCustomVisible
        }),
{
    let mode = event_updates(EventModel::AncMode(on));
    let custom = event_updates(EventModel::CustomModeActive(on));
    assert(mode[0] is AncSelected && custom[0] is AncSelected);
    if on {
        assert(custom[1] == UpdateModel::AncCustomVisible(true));
    }
}

/// After a push, the noise-control slider stands at the percentage and Crossfeed
/// at the level that the headset says, and at no other.
pub proof fn slider_and_level_follow_the_headset(
    percent: u8,
    other: u8,
    level: CrossfeedLevel,
    key: Seq<char>,
    u: UpdateModel,
)
    ensures
        ({
            let slider = event_updates(EventModel::CustomNoiseControl(percent));
            let crossfeed = event_updates(EventModel::Crossfeed(level));
            &&& slider.contains(UpdateModel::NoiseControlPercent(other)) <==> other == percent
            &&& slider.contains(u) ==> u is Log || u is NoiseControlPercent
            &&& crossfeed.contains(UpdateModel::CrossfeedSelected(key)) <==> key == match level {
                CrossfeedLevel::Off => "off"@,
                CrossfeedLevel::Low => "low"@,
                CrossfeedLevel::High => "high"@,
            }
            &&& crossfeed.contains(u) ==> u is Log || u is CrossfeedSelected
        }),
{
    assert(event_updates(EventModel::CustomNoiseControl(percent))[0]
        == UpdateModel::NoiseControlPercent(percent));
    assert(event_updates(EventModel::Crossfeed(level))[0] is CrossfeedSelected);
}

/// A reported multipoint status moves the switch exactly when it says where it
/// stands, and is shown in words in any case.
pub proof fn multipoint_switch_follows_the_status(status: MultipointStatus, on: bool, u: UpdateModel)
    ensures
        ({
            let pushed = event_updates(EventModel::MultipointStatus(status));
            let asked = multipoint_updates(status);
            let text = UpdateModel::MultipointStatusText(crate::report::multipoint_text(status));
            let moved = (status == MultipointStatus::On && on) || (status == MultipointStatus::Off
                && !on);
            &&& asked.contains(UpdateModel::MultipointOn(on)) <==> moved
            &&& pushed.contains(UpdateModel::MultipointOn(on)) <==> moved
            &&& asked.contains(text) && pushed.contains(text)
            &&& asked.contains(u) ==> u == text || u is MultipointOn
            &&& pushed.contains(u) ==> u == text || u is MultipointOn || u is Log
        }),
{
    let asked = multipoint_updates(status);
    let pushed = event_updates(EventModel::MultipointStatus(status));
    assert(asked[0] == UpdateModel::MultipointStatusText(crate::report::multipoint_text(status)));
    assert(forall|i: int| 0 <= i < asked.len() ==> pushed[i] == asked[i]);
    assert(pushed.len() == asked.len() + 1);
    if asked.len() > 1 {
        assert(asked[1] is MultipointOn);
    }
}

/// Every push is logged once as what it was, after it has been shown; a report of
/// gains is logged once more if it matches a preset.
pub proof fn pushes_are_logged(
    on: bool,
    percent: u8,
    status: MultipointStatus,
    level: CrossfeedLevel,
)
    ensures
        ({
            let last = |e: EventModel| event_updates(e)[event_updates(e).len() - 1];
            let word = if on {
                "on"@
            } else {
                "off"@
            };
            &&& last(EventModel::AncMode(on)) == UpdateModel::Log(
                "[live] ANC mode: "@ + if on {
                    "Adaptive"@
                } else {
                    "Off"@
                },
            )
            &&& last(EventModel::AntiWind(on)) == UpdateModel::Log("[live] anti-wind: "@ + word)
            &&& last(EventModel::BassBoost(on)) == UpdateModel::Log("[live] bass boost: "@ + word)
            &&& last(EventModel::MultipointEnabled(on)) == UpdateModel::Log(
                "[live] multipoint: "@ + word,
            )
            &&& last(EventModel::CustomNoiseControl(percent)) == UpdateModel::Log(
                "[live] custom noise control: "@ + crate::text::decimal(percent as nat) + "%"@,
            )
            &&& last(EventModel::CustomModeActive(on)) == UpdateModel::Log(
                "[live] custom mode active: "@ + if on {
                    "true"@
                } else {
                    "false"@
                },
            )
            &&& last(EventModel::MultipointStatus(status)) == UpdateModel::Log(
                "[live] multipoint status: "@ + crate::report::multipoint_text(status),
            )
            &&& last(EventModel::Crossfeed(level)) == UpdateModel::Log(
                "[live] crossfeed: "@ + crate::report::crossfeed_text(level),
            )
            &&& event_updates(EventModel::AncMode(on)).len() == 2
            &&& event_updates(EventModel::AntiWind(on)).len() == 2
            &&& event_updates(EventModel::BassBoost(on)).len() == 2
            &&& event_updates(EventModel::MultipointEnabled(on)).len() == 2
            &&& event_updates(EventModel::CustomNoiseControl(percent)).len() == 2
            &&& event_updates(EventModel::Crossfeed(level)).len() == 2
            &&& event_updates(EventModel::CustomModeActive(on)).len() == if on {
                3
            } else {
                2int
            }
        }),
{
}

/// The sliders follow a report of gains: band by band, each at its gain and with
/// its label, then the list in the log, and after that the preset, if there is
/// one, by its place and its name.
pub proof fn sliders_follow_the_gains(gains: Seq<i8>, band: int, index: int)
    requires
        gains.len() == 5,
        0 <= band < 5,
    ensures
        ({
            let shown = event_updates(EventModel::EqBands(gains));
            &&& shown[band] == UpdateModel::EqBand(band as u8, gains[band], gain_label(gains[band]))
            &&& shown[5] == UpdateModel::Log(
                "[live] eq bands: "@ + crate::text::signed_list(gains),
            )
            &&& crate::commands::has_gains(index, gains) ==> shown.len() == 8 && shown[6]
                == UpdateModel::EqPresetIndex(index) && shown[7] == UpdateModel::Log(
                "[live] eq bands match preset '"@ + crate::gaia::EQ_PRESETS@[index].0@ + "'"@,
            )
            &&& (forall|k: int| !crate::commands::has_gains(k, gains)) ==> shown.len() == 6
        }),
{
    lemma_gain_updates(gains, band);
    lemma_gain_updates(gains, 0);
    if crate::commands::has_gains(index, gains) {
        let i = preset_of(gains)->0;
        crate::commands::preset_gains_are_distinct(i, index, gains);
    }
}

proof fn lemma_gain_updates(gains: Seq<i8>, band: int)
    requires
        gains.len() <= 5,
        0 <= band < gains.len(),
    ensures
        gains_updates(gains).len() == gains.len(),
        gains_updates(gains)[band] == UpdateModel::EqBand(
            band as u8,
            gains[band],
            gain_label(gains[band]),
        ),
    decreases gains.len(),
{
    let before = gains.drop_last();
    if before.len() > 0 {
        lemma_gain_updates(
            before,
            if band < before.len() {
                band
            } else {
                0
            },
        );
    } else {
        assert(gains_updates(before).len() == 0);
    }
    assert(gains_updates(gains) == gains_updates(before) + band_updates(
        (gains.len() - 1) as u8,
        gains.last(),
    ));
}

/// A band of the panel is shown at its gain with the label of that gain; there
/// are no sliders beyond the fifth.
pub proof fn bands_are_shown(band: u8, gain: i8)
    ensures
        band < 5 ==> band_updates(band, gain) =~= seq![
            UpdateModel::EqBand(band, gain, gain_label(gain)),
        ],
        band >= 5 ==> band_updates(band, gain).len() == 0,
{
}

/// The label of a gain is its size in decibels with one decimal, a tenth for each
/// unit, after its sign; none stands before zero.
pub proof fn labels_are_tenths(raw: i8, whole: nat, tenth: nat)
    requires
        tenth < 10,
        raw == 10 * whole + tenth || raw == -(10 * whole + tenth),
    ensures
        gain_label(raw) == (if raw > 0 {
            "+"@
        } else if raw < 0 {
            "-"@
        } else {
            ""@
        }) + crate::text::decimal(whole) + "."@ + crate::text::decimal(tenth) + "dB"@,
{
}

/// A line is put under what the log holds; an empty log becomes the line.
pub proof fn lines_go_under_the_log(log: Seq<char>, line: Seq<char>)
    ensures
        log.len() > 0 ==> logged(log, line) == log + seq!['\n'] + line,
        log.len() == 0 ==> logged(log, line) == line,
{
    reveal_strlit("\n");
    assert("\n"@ =~= seq!['\n']);
}

/// A volume that was read or set is shown on the slider, in words and in the log,
/// all three the same volume; a failure is only logged.
pub proof fn volumes_are_shown(volume: u16, e: String, prefix: Seq<char>)
    ensures
        ({
            let shown = volume_updates(Ok(volume), prefix);
            &&& shown.len() == 3
            &&& shown[0] == UpdateModel::VolumeValue(volume)
            &&& shown[1] == UpdateModel::VolumeText(crate::report::volume_text(volume))
            &&& shown[2] == UpdateModel::Log(prefix + crate::report::volume_text(volume))
            &&& volume_updates(Err(e), prefix) =~= seq![UpdateModel::Log("error: "@ + e@)]
            &&& failure_updates(e@) =~= seq![UpdateModel::Log("error: "@ + e@)]
        }),
{
}

/// An applied preset moves the slider of each band that was answered to the gain
/// that was sent, and logs a line for each after one that counts them.
pub proof fn applied_presets_are_shown(results: Seq<(u8, i8, GaiaResponse)>, i: int)
    requires
        results.len() <= 5,
        forall|k: int| 0 <= k < results.len() ==> (#[trigger] results[k]).0 == k,
        0 <= i < results.len(),
    ensures
        ({
            let (band, gain, reply) = results[i];
            &&& results_updates(results).len() == results.len()
            &&& results_updates(results)[i] == UpdateModel::EqBand(band, gain, gain_label(gain))
            &&& band_lines(results).len() == results.len()
            &&& band_lines(results)[i] == "  "@ + ("band "@ + crate::text::decimal(band as nat)
                + " -> "@ + crate::text::signed_decimal(gain as int)) + ": "@
                + crate::report::response_text(reply@)
            &&& preset_log(results) == "eq preset applied ("@ + crate::text::decimal(results.len())
                + " bands):"@ + "\n"@ + crate::text::joined(band_lines(results), "\n"@)
        }),
{
    lemma_result_updates(results, i);
    let heading = "eq preset applied ("@ + crate::text::decimal(results.len()) + " bands):"@;
    crate::text::joining_goes_part_by_part(seq![heading], band_lines(results), heading, "\n"@);
}

proof fn lemma_result_updates(results: Seq<(u8, i8, GaiaResponse)>, i: int)
    requires
        results.len() <= 5,
        forall|k: int| 0 <= k < results.len() ==> (#[trigger] results[k]).0 == k,
        0 <= i < results.len(),
    ensures
        results_updates(results).len() == results.len(),
        results_updates(results)[i] == UpdateModel::EqBand(
            results[i].0,
            results[i].1,
            gain_label(results[i].1),
        ),
    decreases results.len(),
{
    let before = results.drop_last();
    assert(forall|k: int| 0 <= k < before.len() ==> before[k] == results[k]);
    assert(results[results.len() - 1] == results.last());
    if before.len() > 0 {
        lemma_result_updates(
            before,
            if i < before.len() {
                i
            } else {
                0
            },
        );
    } else {
        assert(results_updates(before).len() == 0);
    }
    assert(results_updates(results) == results_updates(before) + band_updates(
        results.last().0,
        results.last().1,
    ));
}

/// The keys of the Crossfeed levels, and that any other text stands for off.
pub proof fn crossfeed_keys(key: Seq<char>)
    ensures
        crossfeed_key(CrossfeedLevel::Off) == "off"@,
        crossfeed_key(CrossfeedLevel::Low) == "low"@,
        crossfeed_key(CrossfeedLevel::High) == "high"@,
        crossfeed_of_key(key) == CrossfeedLevel::Low <==> key == "low"@,
        crossfeed_of_key(key) == CrossfeedLevel::High <==> key == "high"@,
{
    reveal_strlit("low");
    reveal_strlit("high");
    assert("low"@.len() == 3 && "high"@.len() == 4);
}

/// The views of the updates hold what they change, and a list of updates is
/// viewed one by one.
pub proof fn updates_are_viewed_whole(
    s: String,
    on: bool,
    names: Vec<String>,
    index: i32,
    place: usize,
    volume: u16,
    percent: u8,
    gain: i8,
    list: Seq<PanelUpdate>,
    i: int,
)
    ensures
        PanelUpdate::Log(s)@ == UpdateModel::Log(s@),
        PanelUpdate::GaiaConnected(on)@ == UpdateModel::GaiaConnected(on),
        PanelUpdate::ConnectionStatus(s)@ == UpdateModel::ConnectionStatus(s@),
        PanelUpdate::TransportKind(s)@ == UpdateModel::TransportKind(s@),
        PanelUpdate::DeviceNames(names)@ == UpdateModel::DeviceNames(
            names@.map_values(|n: String| n@),
        ),
        PanelUpdate::SelectedDeviceIndex(index)@ == UpdateModel::SelectedDeviceIndex(index as int),
        PanelUpdate::VolumeValue(volume)@ == UpdateModel::VolumeValue(volume),
        PanelUpdate::VolumeText(s)@ == UpdateModel::VolumeText(s@),
        PanelUpdate::BatteryText(s)@ == UpdateModel::BatteryText(s@),
        PanelUpdate::AncStatusText(s)@ == UpdateModel::AncStatusText(s@),
        PanelUpdate::AncSelected(s)@ == UpdateModel::AncSelected(s@),
        PanelUpdate::AncCustomVisible(on)@ == UpdateModel::AncCustomVisible(on),
        PanelUpdate::AntiWindOn(on)@ == UpdateModel::AntiWindOn(on),
        PanelUpdate::NoiseControlPercent(percent)@ == UpdateModel::NoiseControlPercent(percent),
        PanelUpdate::BassBoostOn(on)@ == UpdateModel::BassBoostOn(on),
        PanelUpdate::MultipointStatusText(s)@ == UpdateModel::MultipointStatusText(s@),
        PanelUpdate::MultipointOn(on)@ == UpdateModel::MultipointOn(on),
        PanelUpdate::CrossfeedSelected(s)@ == UpdateModel::CrossfeedSelected(s@),
        PanelUpdate::EqBand(percent, gain, s)@ == UpdateModel::EqBand(percent, gain, s@),
        PanelUpdate::EqPresetIndex(place)@ == UpdateModel::EqPresetIndex(place as int),
        update_models(list).len() == list.len(),
        0 <= i < list.len() ==> update_models(list)[i] == list[i]@,
{
}

/// What the panel shows and does without a connection, and once a device is
/// selected.
pub proof fn nothing_is_shown_without_a_connection()
    ensures
        reset_updates() =~= seq![
            UpdateModel::AncStatusText("unknown"@),
            UpdateModel::MultipointStatusText("unknown"@),
        ],
        disconnected_updates().contains(UpdateModel::GaiaConnected(false)),
        !disconnected_updates().contains(UpdateModel::GaiaConnected(true)),
        disconnected_updates().contains(UpdateModel::ConnectionStatus("Not connected"@)),
        disconnected_updates().subrange(2, 4) =~= reset_updates(),
        disconnected_updates().len() == 4,
        device_data().len() == 3,
        device_data().contains(FollowUp::RefreshVolume) && device_data().contains(
            FollowUp::RefreshBattery,
        ) && device_data().last() == FollowUp::ConnectSelected,
{
    let shown = disconnected_updates();
    assert(shown[0] == UpdateModel::GaiaConnected(false));
    assert(shown[1] == UpdateModel::ConnectionStatus("Not connected"@));
    assert(shown[2] is AncStatusText && shown[3] is MultipointStatusText);
    assert(device_data()[0] == FollowUp::RefreshVolume);
    assert(device_data()[1] == FollowUp::RefreshBattery);
}

} // verus!
