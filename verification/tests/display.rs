//! What is reported and shown.

use sennheiser_core::bluez::ConnectedDevice;
use sennheiser_core::commands::{CrossfeedLevel, DeviceEvent, MultipointStatus};
use sennheiser_core::gaia::{GaiaResponse, EQ_PRESETS};
use sennheiser_core::panel::{
    after_connect, after_listing, after_transport_selected, anc_set_done, anc_status_done, append_log, apply_device_event, battery_read,
    battery_read_over_gatt, clamp_percent, clamp_volume, connected, connecting, control_done,
    crossfeed_from_key, crossfeed_level_str, crossfeed_set_done, crossfeed_status_done,
    device_selected, devices_listed, disconnected, eq_gain_db_label, eq_preset_done,
    multipoint_status_done, noise_control_done, on_notification, refresh_device_data, reset_gaia_status_labels,
    selected_device_name, set_eq_band_slider, step_volume, transport_from_key, transport_selected,
    volume_read, volume_set, Control, FollowUp, ListenerStep, PanelUpdate, Received,
};
use sennheiser_core::report::{
    battery_line, device_lines, eq_preset_lines, format_crossfeed, format_gaia_response,
    format_multipoint, format_volume, multipoint_line, response_line, volume_down, volume_line,
    volume_unavailable_line, volume_up, with_remark, BatterySource,
};
use sennheiser_core::transport::TransportKind;

fn resp(status: Option<u8>, payload: &[u8]) -> GaiaResponse {
    GaiaResponse { vendor_id: 0x0495, command_id: 0x1a81, status, payload: payload.to_vec() }
}

fn shown(updates: Vec<PanelUpdate>) -> Vec<String> {
    updates.iter().map(|u| format!("{u:?}")).collect()
}

fn device(name: &str, address: &str) -> ConnectedDevice {
    ConnectedDevice { path: "/d".to_string(), address: address.to_string(), name: name.to_string() }
}

const OK: &str = "response vendor=0x0495 command=0x1a81 status=OK payload=[]";

#[test]
fn volumes() {
    assert_eq!(format_volume(64), "64/127 (50%)");
    assert_eq!(volume_line("HDB 630", 127), "HDB 630: 127/127 (100%)");
    assert_eq!(volume_line("HDB 630", 0), "HDB 630: 0/127 (0%)");
    assert_eq!(format_volume(u16::MAX), "65535/127 (51602%)");
    for v in 0..=1000u16 {
        assert_eq!(format_volume(v), format!("{v}/127 ({}%)", v as u32 * 100 / 127));
    }
    assert_eq!(volume_unavailable_line("HDB", "gone"), "HDB: volume unavailable (gone)");
}

#[test]
fn volume_steps() {
    assert_eq!(volume_up(100, 8), 108);
    assert_eq!(volume_up(125, 8), 127);
    assert_eq!(volume_up(1, u16::MAX), 127);
    assert_eq!(volume_up(200, 0), 127);
    assert_eq!(volume_down(100, 8), 92);
    assert_eq!(volume_down(5, 8), 0);
    assert_eq!(volume_down(300, 8), 292);
    assert_eq!(volume_down(volume_up(64, 8), 8), 64);
    assert_eq!(volume_up(volume_down(64, 8), 8), 64);
    assert_eq!(step_volume(100, 8), 108);
    assert_eq!(step_volume(100, 40), 127);
    assert_eq!(step_volume(100, -8), 92);
    assert_eq!(step_volume(100, -200), 0);
    assert_eq!(step_volume(100, 0x10001), 101);
    assert_eq!(step_volume(100, -0x10001), 99);
    assert_eq!(step_volume(100, i32::MAX), 127);
    assert_eq!(step_volume(100, -i32::MAX), 0);
    for (value, volume, percent) in [(-1, 0, 0), (0, 0, 0), (100, 100, 100), (101, 101, 100), (127, 127, 100), (128, 127, 100)] {
        assert_eq!(clamp_volume(value), volume);
        assert_eq!(clamp_percent(value), percent);
    }
}

#[test]
fn responses() {
    assert_eq!(format_gaia_response(&resp(Some(0), &[])), OK);
    assert_eq!(
        response_line("HDB", &resp(Some(5), &[0, 0xec])),
        "HDB: response vendor=0x0495 command=0x1a81 status=error/unknown code 5 payload=[00, ec]"
    );
    assert_eq!(
        format_gaia_response(&resp(None, &[1])),
        "response vendor=0x0495 command=0x1a81 status=no status byte payload=[01]"
    );
    assert_eq!(with_remark("HDB", "primary"), "HDB (primary)");
    let results = vec![(0, 35, resp(Some(0), &[])), (4, -20, resp(Some(0), &[]))];
    assert_eq!(
        eq_preset_lines("HDB", &results),
        vec![format!("HDB (band 0 -> 35): {OK}"), format!("HDB (band 4 -> -20): {OK}")]
    );
}

#[test]
fn other_lines() {
    assert_eq!(battery_line("HDB", 80, BatterySource::Bluez), "HDB: battery 80% (via org.bluez.Battery1)");
    assert_eq!(battery_line("HDB", 7, BatterySource::Gatt), "HDB: battery 7% (via btleplug GATT read)");
    assert_eq!(multipoint_line("HDB", MultipointStatus::On), "HDB: multipoint is ON (2 devices)");
    assert_eq!(multipoint_line("HDB", MultipointStatus::Off), "HDB: multipoint is OFF (1 device)");
    assert_eq!(
        multipoint_line("HDB", MultipointStatus::Unknown(9)),
        "HDB: multipoint status returned unexpected value 9"
    );
    assert_eq!(
        multipoint_line("HDB", MultipointStatus::NoValue),
        "HDB: multipoint status response had no value"
    );
    assert_eq!(format_multipoint(MultipointStatus::Unknown(9)), "unexpected value 9");
    assert_eq!(format_multipoint(MultipointStatus::NoValue), "no value returned");
    assert_eq!(format_crossfeed(CrossfeedLevel::High), format!("{:?}", CrossfeedLevel::High));
    assert_eq!(device_lines(&vec![]), vec!["No devices currently connected to this machine."]);
    assert_eq!(
        device_lines(&vec![device("A", "1"), device("B", "2")]),
        vec!["A (1)".to_string(), "B (2)".to_string()]
    );
}

#[test]
fn the_log_shows_its_lines() {
    let mut log = String::new();
    for line in ["one", "two", "three"] {
        log = append_log(log, line);
    }
    assert_eq!(log, "one\ntwo\nthree");
    assert_eq!(append_log(String::new(), ""), "");
    assert_eq!(append_log("a".to_string(), ""), "a\n");
}

#[test]
fn gains_are_tenths_of_a_decibel() {
    assert_eq!(eq_gain_db_label(25), "+2.5dB");
    assert_eq!(eq_gain_db_label(-20), "-2.0dB");
    assert_eq!(eq_gain_db_label(0), "0.0dB");
    for raw in i8::MIN..=i8::MAX {
        let db = raw as f32 / 10.0;
        let sign = if db > 0.0 { "+" } else { "" };
        assert_eq!(eq_gain_db_label(raw), format!("{sign}{db:.1}dB"));
    }
}

#[test]
fn sliders_exist_for_five_bands() {
    assert_eq!(shown(set_eq_band_slider(4, 15)), vec!["EqBand(4, 15, \"+1.5dB\")"]);
    assert!(set_eq_band_slider(5, 15).is_empty());
}

#[test]
fn the_selected_device() {
    let devices = vec![device("A", "1"), device("B", "2")];
    assert_eq!(selected_device_name(&devices, 1).as_deref(), Some("B"));
    assert_eq!(selected_device_name(&devices, 2), None);
    assert_eq!(selected_device_name(&devices, -1), None);
}

#[test]
fn keys_of_the_panel() {
    for level in [CrossfeedLevel::Off, CrossfeedLevel::Low, CrossfeedLevel::High] {
        assert_eq!(crossfeed_from_key(crossfeed_level_str(level)), level);
    }
    assert_eq!(crossfeed_from_key("loud"), CrossfeedLevel::Off);
    assert_eq!(transport_from_key("ble"), TransportKind::Ble);
    assert_eq!(transport_from_key("classic"), TransportKind::Classic);
    assert_eq!(transport_from_key("BLE"), TransportKind::Classic);
}

#[test]
fn events_on_the_panel() {
    assert_eq!(
        shown(apply_device_event(DeviceEvent::AncMode(true))),
        vec!["AncSelected(\"adaptive\")", "Log(\"[live] ANC mode: Adaptive\")"]
    );
    assert_eq!(
        shown(apply_device_event(DeviceEvent::AncMode(false))),
        vec!["AncSelected(\"off\")", "Log(\"[live] ANC mode: Off\")"]
    );
    assert_eq!(
        shown(apply_device_event(DeviceEvent::AntiWind(true))),
        vec!["AntiWindOn(true)", "Log(\"[live] anti-wind: on\")"]
    );
    assert_eq!(
        shown(apply_device_event(DeviceEvent::CustomNoiseControl(40))),
        vec!["NoiseControlPercent(40)", "Log(\"[live] custom noise control: 40%\")"]
    );
    assert_eq!(
        shown(apply_device_event(DeviceEvent::CustomModeActive(true))),
        vec!["AncSelected(\"custom\")", "AncCustomVisible(true)", "Log(\"[live] custom mode active: true\")"]
    );
    assert_eq!(
        shown(apply_device_event(DeviceEvent::CustomModeActive(false))),
        vec!["AncSelected(\"adaptive\")", "Log(\"[live] custom mode active: false\")"]
    );
    assert_eq!(
        shown(apply_device_event(DeviceEvent::BassBoost(false))),
        vec!["BassBoostOn(false)", "Log(\"[live] bass boost: off\")"]
    );
    assert_eq!(
        shown(apply_device_event(DeviceEvent::MultipointEnabled(true))),
        vec!["MultipointOn(true)", "Log(\"[live] multipoint: on\")"]
    );
    assert_eq!(
        shown(apply_device_event(DeviceEvent::MultipointStatus(MultipointStatus::Off))),
        vec![
            "MultipointStatusText(\"OFF (1 device)\")",
            "MultipointOn(false)",
            "Log(\"[live] multipoint status: OFF (1 device)\")"
        ]
    );
    assert_eq!(
        shown(apply_device_event(DeviceEvent::MultipointStatus(MultipointStatus::Unknown(4)))),
        vec![
            "MultipointStatusText(\"unexpected value 4\")",
            "Log(\"[live] multipoint status: unexpected value 4\")"
        ]
    );
    assert_eq!(
        shown(apply_device_event(DeviceEvent::Crossfeed(CrossfeedLevel::Low))),
        vec!["CrossfeedSelected(\"low\")", "Log(\"[live] crossfeed: Low\")"]
    );
}

#[test]
fn gains_on_the_panel() {
    assert_eq!(
        shown(apply_device_event(DeviceEvent::EqBands([0, 20, 25, 15, -20]))),
        vec![
            "EqBand(0, 0, \"0.0dB\")",
            "EqBand(1, 20, \"+2.0dB\")",
            "EqBand(2, 25, \"+2.5dB\")",
            "EqBand(3, 15, \"+1.5dB\")",
            "EqBand(4, -20, \"-2.0dB\")",
            "Log(\"[live] eq bands: [0, 20, 25, 15, -20]\")",
            "EqPresetIndex(2)",
            "Log(\"[live] eq bands match preset 'rock'\")",
        ]
    );
    assert_eq!(apply_device_event(DeviceEvent::EqBands([1, 2, 3, 4, 5])).len(), 6);
    for (i, (_, gains)) in EQ_PRESETS.iter().enumerate() {
        let updates = apply_device_event(DeviceEvent::EqBands(*gains));
        assert!(updates.iter().any(|u| matches!(u, PanelUpdate::EqPresetIndex(k) if *k == i)));
    }
}

#[test]
fn notifications() {
    let bass = GaiaResponse { vendor_id: 0x0495, command_id: 0x1089, status: Some(1), payload: vec![] };
    assert!(matches!(
        on_notification(&Received::Frame(bass)),
        ListenerStep::Show(DeviceEvent::BassBoost(true))
    ));
    assert!(matches!(on_notification(&Received::Frame(resp(None, &[]))), ListenerStep::Wait));
    assert!(matches!(on_notification(&Received::Lagged), ListenerStep::Wait));
    assert!(matches!(on_notification(&Received::Closed), ListenerStep::Stop));
}

#[test]
fn outcomes_of_volume_and_battery() {
    assert_eq!(
        shown(volume_read(Ok(64))),
        vec!["VolumeValue(64)", "VolumeText(\"64/127 (50%)\")", "Log(\"volume: 64/127 (50%)\")"]
    );
    assert_eq!(
        shown(volume_set(Ok(64))),
        vec!["VolumeValue(64)", "VolumeText(\"64/127 (50%)\")", "Log(\"volume set: 64/127 (50%)\")"]
    );
    assert_eq!(shown(volume_set(Err("x".to_string()))), vec!["Log(\"error: x\")"]);
    assert_eq!(
        shown(battery_read(Ok(80))),
        vec![
            "BatteryText(\"80% (via org.bluez.Battery1)\")",
            "Log(\"battery: 80% (via org.bluez.Battery1)\")"
        ]
    );
    assert_eq!(
        shown(battery_read_over_gatt(Ok(("HDB".to_string(), 80)))),
        vec![
            "BatteryText(\"80% (via btleplug GATT read)\")",
            "Log(\"battery (HDB): 80% (via btleplug GATT read)\")"
        ]
    );
    assert_eq!(shown(battery_read(Err("x".to_string()))), vec!["Log(\"error: x\")"]);
    assert_eq!(shown(battery_read_over_gatt(Err("x".to_string()))), vec!["Log(\"error: x\")"]);
}

#[test]
fn outcomes_of_controls() {
    for (control, text) in [
        (Control::BassBoost, "bass boost set"),
        (Control::AntiWind, "anti-wind set"),
        (Control::Multipoint, "multipoint set"),
        (Control::Raw, "raw gaia"),
    ] {
        assert_eq!(shown(control_done(control, Ok(resp(Some(0), &[])))), vec![format!("Log(\"{text}: {OK}\")")]);
        assert_eq!(shown(control_done(control, Err("x".to_string()))), vec!["Log(\"error: x\")"]);
    }
    let pair = || Ok((resp(Some(0), &[]), resp(Some(0), &[])));
    assert_eq!(shown(anc_set_done(pair())), vec![format!("Log(\"anc set: primary {OK} / companion {OK}\")")]);
    assert_eq!(
        shown(noise_control_done(pair())),
        vec![format!("Log(\"noise control set: {OK} / commit: {OK}\")")]
    );
    assert_eq!(shown(anc_set_done(Err("x".to_string()))), vec!["Log(\"error: x\")"]);
    assert_eq!(shown(noise_control_done(Err("x".to_string()))), vec!["Log(\"error: x\")"]);
}

#[test]
fn outcomes_of_questions() {
    assert_eq!(
        shown(anc_status_done(Ok(resp(Some(0), &[])))),
        vec![format!("AncStatusText(\"{OK}\")"), format!("Log(\"anc status (unverified opcode): {OK}\")")]
    );
    assert_eq!(
        shown(anc_status_done(Err("x".to_string()))),
        vec!["AncStatusText(\"unknown\")", "Log(\"anc status error: x\")"]
    );
    assert_eq!(
        shown(multipoint_status_done(Ok(MultipointStatus::On))),
        vec![
            "MultipointStatusText(\"ON (2 devices)\")",
            "MultipointOn(true)",
            "Log(\"multipoint status: ON (2 devices)\")"
        ]
    );
    assert_eq!(
        shown(multipoint_status_done(Ok(MultipointStatus::NoValue))),
        vec!["MultipointStatusText(\"no value returned\")", "Log(\"multipoint status: no value returned\")"]
    );
    assert_eq!(
        shown(multipoint_status_done(Err("x".to_string()))),
        vec!["MultipointStatusText(\"unknown\")", "Log(\"multipoint status error: x\")"]
    );
    assert_eq!(
        shown(crossfeed_status_done(Ok(Some(CrossfeedLevel::High)))),
        vec!["CrossfeedSelected(\"high\")", "Log(\"crossfeed status: High\")"]
    );
    assert_eq!(
        shown(crossfeed_status_done(Ok(None))),
        vec!["Log(\"crossfeed status: device returned an unrecognized value\")"]
    );
    assert_eq!(
        shown(crossfeed_status_done(Err("x".to_string()))),
        vec!["Log(\"crossfeed status error: x\")"]
    );
    assert_eq!(
        shown(crossfeed_set_done(Ok((resp(Some(0), &[]), Some(CrossfeedLevel::Low))))),
        vec![
            format!("Log(\"crossfeed set: {OK}\")"),
            "CrossfeedSelected(\"low\")".to_string(),
            "Log(\"crossfeed re-queried: Low\")".to_string()
        ]
    );
    assert_eq!(
        shown(crossfeed_set_done(Ok((resp(Some(0), &[]), None)))),
        vec![
            format!("Log(\"crossfeed set: {OK}\")"),
            "Log(\"crossfeed re-queried: unrecognized value\")".to_string()
        ]
    );
    assert_eq!(shown(crossfeed_set_done(Err("x".to_string()))), vec!["Log(\"error: x\")"]);
}

#[test]
fn an_applied_preset_on_the_panel() {
    let updates = eq_preset_done(Ok(vec![(0, 35, resp(Some(0), &[])), (1, -5, resp(Some(0), &[]))]));
    assert_eq!(updates.len(), 3);
    assert!(matches!(&updates[0], PanelUpdate::EqBand(0, 35, label) if label == "+3.5dB"));
    assert!(matches!(&updates[1], PanelUpdate::EqBand(1, -5, label) if label == "-0.5dB"));
    assert!(matches!(&updates[2], PanelUpdate::Log(text)
        if *text == format!("eq preset applied (2 bands):\n  band 0 -> 35: {OK}\n  band 1 -> -5: {OK}")));
    assert_eq!(shown(eq_preset_done(Ok(vec![]))), vec!["Log(\"eq preset applied (0 bands):\")"]);
    assert_eq!(shown(eq_preset_done(Err("x".to_string()))), vec!["Log(\"error: x\")"]);
}

#[test]
fn connections_on_the_panel() {
    let unknown = ["AncStatusText(\"unknown\")", "MultipointStatusText(\"unknown\")"];
    assert_eq!(shown(reset_gaia_status_labels()), unknown);
    let mut gone = vec!["GaiaConnected(false)", "ConnectionStatus(\"Not connected\")"];
    gone.extend(unknown);
    assert_eq!(shown(device_selected()), gone);
    gone.push("Log(\"disconnected\")");
    assert_eq!(shown(disconnected()), gone);
    let mut opening = vec!["ConnectionStatus(\"Connecting...\")"];
    opening.extend(unknown);
    assert_eq!(shown(connecting()), opening);
    assert_eq!(
        shown(connected(Ok("HDB".to_string()))),
        vec!["GaiaConnected(true)", "ConnectionStatus(\"Connected to HDB\")", "Log(\"connected to HDB\")"]
    );
    assert_eq!(
        shown(connected(Err("x".to_string()))),
        vec!["GaiaConnected(false)", "ConnectionStatus(\"Not connected\")", "Log(\"error: x\")"]
    );
    assert_eq!(
        shown(transport_selected("ble")),
        vec!["Log(\"transport set to ble\")", "TransportKind(\"ble\")"]
    );
}

#[test]
fn devices_on_the_panel() {
    assert_eq!(
        shown(devices_listed(Ok(&vec![device("A", "1"), device("B", "2")]))),
        vec!["DeviceNames([\"A (1)\", \"B (2)\"])", "SelectedDeviceIndex(0)"]
    );
    assert_eq!(
        shown(devices_listed(Ok(&vec![]))),
        vec!["DeviceNames([])", "SelectedDeviceIndex(-1)", "Log(\"no connected devices found\")"]
    );
    assert_eq!(shown(devices_listed(Err("x".to_string()))), vec!["Log(\"error: x\")"]);
}

#[test]
fn what_the_panel_does_next() {
    assert_eq!(
        after_connect(true),
        vec![FollowUp::QueryAnc, FollowUp::QueryMultipoint, FollowUp::QueryCrossfeed, FollowUp::Listen]
    );
    assert!(after_connect(false).is_empty());
    let refresh = vec![FollowUp::RefreshVolume, FollowUp::RefreshBattery, FollowUp::ConnectSelected];
    assert_eq!(refresh_device_data(), refresh);
    assert_eq!(after_listing(&vec![device("A", "1")]), refresh);
    assert!(after_listing(&vec![]).is_empty());
    assert_eq!(after_transport_selected(), vec![FollowUp::ConnectSelected]);
}
