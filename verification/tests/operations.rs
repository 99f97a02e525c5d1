//! The requests of each operation.

use sennheiser_core::commands::{
    anc_status, crossfeed_status, crossfeed_status_of, eq_preset_results, find_eq_preset,
    find_preset_named, interpret_event, multipoint_status, multipoint_status_of,
    register_for_live_status, send_raw, set_anc, set_anti_wind, set_bass_boost, set_crossfeed,
    set_eq_band, set_eq_preset, set_multipoint, set_noise_control_custom, set_transparency,
    transparency_status, CommandRun, CrossfeedLevel, DeviceEvent, MultipointStatus, Request,
};
use sennheiser_core::gaia;
use sennheiser_core::gaia::{
    GaiaResponse, EQ_PRESETS, QUALCOMM_VENDOR_ID, RSP_QUALCOMM_MULTIPOINT_SET,
    RSP_SONOVA_ANC_SET, RSP_SONOVA_ANC_SET_COMPANION, RSP_SONOVA_BASS_BOOST_SET,
    RSP_SONOVA_CROSSFEED_GET, RSP_SONOVA_CUSTOM_NOISE_CONTROL_SET, RSP_SONOVA_EQ_SET_BAND,
    RSP_SONOVA_MULTIPOINT_STATUS_GET, SENNHEISER_VENDOR_ID, SONOVA_VENDOR_ID,
};
use sennheiser_core::cli::{lines_of, requests_of, GaiaCommand};
use sennheiser_core::raw::{parse_command, parse_version, raw_request, RawError};
use sennheiser_core::transport::{encode_command, TransportKind};

fn flat(r: &Request) -> (u8, u16, u16, Vec<u8>) {
    (r.version, r.vendor_id, r.command_id, r.payload.clone())
}

fn all(list: &[Request]) -> Vec<(u8, u16, u16, Vec<u8>)> {
    list.iter().map(flat).collect()
}

fn reply(status: Option<u8>) -> GaiaResponse {
    GaiaResponse { vendor_id: SONOVA_VENDOR_ID, command_id: 0, status, payload: vec![] }
}

#[test]
fn single_requests() {
    assert_eq!(flat(&anc_status()), (1, 0x0494, 0x0788, vec![]));
    assert_eq!(flat(&transparency_status()), (1, 0x0494, 0x0784, vec![]));
    assert_eq!(flat(&set_transparency(true)), (1, 0x0494, 0x0704, vec![1]));
    assert_eq!(flat(&set_transparency(false)), (1, 0x0494, 0x0704, vec![0]));
    assert_eq!(flat(&set_bass_boost(true)), (3, 0x0495, 0x1008, vec![1]));
    assert_eq!(flat(&set_eq_band(4, -20)), (3, 0x0495, 0x1001, vec![4, 0xec]));
    assert_eq!(flat(&set_multipoint(true)), (3, 0x001d, 0x0e00, vec![1]));
    assert_eq!(flat(&multipoint_status()), (3, 0x0495, 0x1409, vec![]));
    assert_eq!(flat(&set_anti_wind(true)), (3, 0x0495, 0x1a00, vec![1, 1]));
    assert_eq!(flat(&set_crossfeed(CrossfeedLevel::Off)), (3, 0x0495, 0x2e00, vec![2]));
    assert_eq!(flat(&set_crossfeed(CrossfeedLevel::Low)), (3, 0x0495, 0x2e00, vec![0]));
    assert_eq!(flat(&set_crossfeed(CrossfeedLevel::High)), (3, 0x0495, 0x2e00, vec![1]));
    assert_eq!(flat(&crossfeed_status()), (3, 0x0495, 0x2e01, vec![]));
    assert_eq!(flat(&send_raw(7, 8, 9, vec![1, 2])), (7, 8, 9, vec![1, 2]));
}

#[test]
fn requests_in_sequence() {
    assert_eq!(
        all(&set_anc(true)),
        vec![(3, 0x0495, 0x1a00, vec![3, 1]), (3, 0x0495, 0x1a04, vec![1])]
    );
    assert_eq!(
        all(&set_anc(false)),
        vec![(3, 0x0495, 0x1a00, vec![3, 0]), (3, 0x0495, 0x1a04, vec![0])]
    );
    assert_eq!(
        all(&set_noise_control_custom(50)),
        vec![(3, 0x0495, 0x1a02, vec![50]), (3, 0x0495, 0x1a03, vec![])]
    );
    assert_eq!(
        all(&register_for_live_status()),
        vec![
            (3, 0x0495, 0x0007, vec![0x0d]),
            (3, 0x0495, 0x0007, vec![0x0c]),
            (3, 0x0495, 0x0007, vec![0x08]),
            (3, 0x001d, 0x0007, vec![0x07]),
        ]
    );
}

#[test]
fn a_run_asks_one_request_at_a_time() {
    let mut run = CommandRun::<String>::new(set_anc(true));
    assert_eq!(run.next_request().unwrap().command_id, 0x1a00);
    assert_eq!(run.next_request().unwrap().command_id, 0x1a00);
    run.take_reply(reply(Some(1)));
    assert_eq!(run.next_request().unwrap().command_id, 0x1a04);
    run.take_reply(reply(Some(2)));
    assert!(run.next_request().is_none());
    run.take_reply(reply(Some(3)));
    run.take_failure("late".to_string());
    let statuses: Vec<_> = run.into_result().unwrap().iter().map(|r| r.status).collect();
    assert_eq!(statuses, vec![Some(1), Some(2)]);
    assert!(CommandRun::<String>::new(vec![]).next_request().is_none());
}

#[test]
fn a_failed_band_ends_the_preset() {
    for k in 0..5u8 {
        let mut run = CommandRun::new(set_eq_preset("rock").unwrap().1);
        let mut sent = vec![];
        while let Some(request) = run.next_request() {
            sent.push(request.payload[0]);
            if sent.len() == k as usize + 1 {
                run.take_failure(format!("band {k}"));
            } else {
                run.take_reply(reply(Some(0)));
            }
        }
        assert_eq!(sent, (0..=k).collect::<Vec<_>>());
        run.take_reply(reply(Some(0)));
        run.take_failure("later".to_string());
        assert!(run.next_request().is_none());
        assert_eq!(run.into_result().map(|r| r.len()), Err(format!("band {k}")));
    }
}

#[test]
fn a_preset_sends_all_bands() {
    let (gains, requests) = set_eq_preset("Rock").unwrap();
    assert_eq!(gains, [0, 20, 25, 15, -20]);
    assert_eq!(
        requests.iter().map(|r| r.payload.clone()).collect::<Vec<_>>(),
        vec![vec![0, 0], vec![1, 20], vec![2, 25], vec![3, 15], vec![4, 0xec]]
    );
    assert!(requests.iter().all(|r| (r.version, r.vendor_id, r.command_id) == (3, 0x0495, 0x1001)));
    assert_eq!(set_eq_preset("SPEECH-clarity").unwrap().0, [-10, -5, 5, 15, 10]);
    let results = eq_preset_results(gains, vec![reply(Some(5)), reply(Some(6))]);
    assert_eq!(
        results.iter().map(|(b, g, r)| (*b, *g, r.status)).collect::<Vec<_>>(),
        vec![(0, 0, Some(5)), (1, 20, Some(6))]
    );
    assert_eq!(eq_preset_results(gains, (0..7).map(|i| reply(Some(i))).collect()).len(), 5);
}

#[test]
fn an_unknown_preset_is_named_as_it_was_typed() {
    let e = set_eq_preset("Polka").unwrap_err();
    assert_eq!(
        e.message(),
        "unknown preset 'Polka'. Known presets: neutral, speech-clarity, rock, pop, dance, hip-hop, classical, movie, jazz"
    );
    assert!(set_eq_preset("").is_err());
    assert!(set_eq_preset(" rock").is_err());
}

#[test]
fn presets_are_told_apart_by_name_and_by_gains() {
    for (i, (name, gains)) in EQ_PRESETS.iter().enumerate() {
        assert_eq!(find_preset_named(name), Some(i));
        assert_eq!(find_eq_preset(*gains), Some((i, *name)));
    }
    assert_eq!(find_preset_named("Rock"), None);
}

#[test]
fn reported_gains_come_back() {
    for (_, gains) in EQ_PRESETS.iter() {
        let bytes: Vec<u8> = (0..5).map(|b| set_eq_band(b, gains[b as usize]).payload[1]).collect();
        let resp = GaiaResponse {
            vendor_id: SONOVA_VENDOR_ID,
            command_id: RSP_SONOVA_EQ_SET_BAND,
            status: Some(bytes[0]),
            payload: bytes[1..].to_vec(),
        };
        assert!(matches!(interpret_event(&resp), Some(DeviceEvent::EqBands(g)) if g == *gains));
    }
}

#[test]
fn every_gain_survives_the_wire() {
    for gain in i8::MIN..=i8::MAX {
        assert_eq!(set_eq_band(0, gain).payload[1] as i8, gain);
    }
}

#[test]
fn crossfeed_levels_on_the_wire() {
    for level in [CrossfeedLevel::Off, CrossfeedLevel::Low, CrossfeedLevel::High] {
        assert_eq!(CrossfeedLevel::from_wire(level.to_wire()), Some(level));
        assert_eq!(crossfeed_status_of(&reply(Some(level.to_wire()))), Some(level));
    }
    for value in 3..=u8::MAX {
        assert_eq!(CrossfeedLevel::from_wire(value), None);
    }
    assert_eq!(crossfeed_status_of(&reply(None)), None);
}

#[test]
fn multipoint_counts() {
    assert_eq!(multipoint_status_of(&reply(Some(2))), MultipointStatus::On);
    assert_eq!(multipoint_status_of(&reply(Some(1))), MultipointStatus::Off);
    assert_eq!(multipoint_status_of(&reply(Some(0))), MultipointStatus::Unknown(0));
    assert_eq!(multipoint_status_of(&reply(None)), MultipointStatus::NoValue);
}

#[test]
fn acknowledgements_tell_the_value() {
    let one = |vendor_id: u16, command_id: u16, value: u8| {
        interpret_event(&GaiaResponse { vendor_id, command_id, status: Some(value), payload: vec![] })
    };
    for on in [false, true] {
        let v = u8::from(on);
        assert!(matches!(one(SONOVA_VENDOR_ID, RSP_SONOVA_ANC_SET_COMPANION, v), Some(DeviceEvent::AncMode(b)) if b == on));
        assert!(matches!(one(SONOVA_VENDOR_ID, RSP_SONOVA_BASS_BOOST_SET, v), Some(DeviceEvent::BassBoost(b)) if b == on));
        assert!(matches!(one(QUALCOMM_VENDOR_ID, RSP_QUALCOMM_MULTIPOINT_SET, v), Some(DeviceEvent::MultipointEnabled(b)) if b == on));
        for before in [vec![], vec![9, 9, 9]] {
            let with = |param: u8| {
                let mut payload = before.clone();
                payload.extend_from_slice(&[param, v]);
                interpret_event(&GaiaResponse {
                    vendor_id: SONOVA_VENDOR_ID,
                    command_id: RSP_SONOVA_ANC_SET,
                    status: None,
                    payload,
                })
            };
            assert!(matches!(with(3), Some(DeviceEvent::AncMode(b)) if b == on));
            assert!(matches!(with(1), Some(DeviceEvent::AntiWind(b)) if b == on));
            assert!(with(2).is_none());
        }
    }
    assert!(matches!(
        one(SONOVA_VENDOR_ID, RSP_SONOVA_CUSTOM_NOISE_CONTROL_SET, 77),
        Some(DeviceEvent::CustomNoiseControl(77))
    ));
    assert!(matches!(
        one(SONOVA_VENDOR_ID, RSP_SONOVA_CROSSFEED_GET, 1),
        Some(DeviceEvent::Crossfeed(CrossfeedLevel::High))
    ));
    assert!(matches!(
        one(SONOVA_VENDOR_ID, RSP_SONOVA_MULTIPOINT_STATUS_GET, 1),
        Some(DeviceEvent::MultipointStatus(MultipointStatus::Off))
    ));
}

#[test]
fn values_do_not_count_under_another_vendor_or_without_status() {
    for command_id in 0..=u16::MAX {
        for vendor_id in [SENNHEISER_VENDOR_ID, 0] {
            let resp = GaiaResponse { vendor_id, command_id, status: Some(1), payload: vec![3, 1] };
            assert!(interpret_event(&resp).is_none());
        }
        if command_id != RSP_SONOVA_ANC_SET {
            let resp = GaiaResponse {
                vendor_id: SONOVA_VENDOR_ID,
                command_id,
                status: None,
                payload: vec![1, 2, 3, 4],
            };
            assert!(interpret_event(&resp).is_none());
        }
    }
}

#[test]
fn requests_fit_in_a_frame() {
    let mut requests = vec![
        anc_status(),
        transparency_status(),
        set_transparency(true),
        set_bass_boost(true),
        set_multipoint(true),
        multipoint_status(),
        set_anti_wind(true),
        set_crossfeed(CrossfeedLevel::High),
        crossfeed_status(),
    ];
    requests.extend(set_anc(true));
    requests.extend(set_noise_control_custom(100));
    requests.extend(register_for_live_status());
    requests.extend(set_eq_preset("jazz").unwrap().1);
    for r in &requests {
        assert!(encode_command(TransportKind::Classic, r.version, r.vendor_id, r.command_id, &r.payload).is_ok());
    }
}

#[test]
fn typed_commands() {
    let r = raw_request("0x0494", "0708", "00 01", " 1 ").unwrap();
    assert_eq!(flat(&r), (1, 0x0494, 0x0708, vec![0, 1]));
    assert!(matches!(raw_request("", "0708", "00", "1"), Err(RawError::Vendor(_))));
    assert!(matches!(raw_request("1", "g", "00", "1"), Err(RawError::Command(_))));
    assert!(matches!(raw_request("1", "2", "0", "1"), Err(RawError::Payload(_))));
    let e = raw_request("1", "2", "00", "x").unwrap_err();
    assert!(matches!(e, RawError::Version));
    assert_eq!(e.message(), "invalid version");
    assert_eq!(
        parse_command("", "g", "0").unwrap_err().message(),
        "cannot parse integer from empty string"
    );
    assert_eq!(parse_command("1", "fffff", "0").unwrap_err().message(), "number too large to fit in target type");
    assert_eq!(
        parse_command("1", "2", "0").unwrap_err().message(),
        "hex payload must have an even number of digits"
    );
    assert_eq!(parse_command("495", "1a00", " 03 01\n").unwrap(), (0x0495, 0x1a00, vec![3, 1]));
}

#[test]
fn versions_are_read_like_bytes_of_std() {
    for text in ["0", "3", " 7\t", "+9", "255", "256", "", "+", "-1", "1 2", "0003", "x", "99999999999", "+-1", "++1"] {
        assert_eq!(parse_version(text), text.trim().parse::<u8>().ok(), "{text}");
    }
    for v in 0..=u8::MAX {
        assert_eq!(parse_version(&v.to_string()), Some(v));
    }
}

#[test]
fn response_ids_follow_their_commands() {
    assert_eq!(gaia::RSP_SONOVA_ANC_SET, gaia::CMD_SONOVA_ANC_SET + 0x81);
    assert_eq!(gaia::RSP_SONOVA_ANC_SET_COMPANION, gaia::CMD_SONOVA_ANC_SET_COMPANION + 0x81);
    assert_eq!(gaia::RSP_SONOVA_CUSTOM_NOISE_CONTROL_SET, gaia::CMD_SONOVA_CUSTOM_NOISE_CONTROL_SET + 0x81);
    assert_eq!(gaia::RSP_SONOVA_BASS_BOOST_SET, gaia::CMD_SONOVA_BASS_BOOST_SET + 0x81);
    assert_eq!(gaia::RSP_SONOVA_EQ_SET_BAND, gaia::CMD_SONOVA_EQ_SET_BAND + 0x81);
    assert_eq!(gaia::RSP_QUALCOMM_MULTIPOINT_SET, gaia::CMD_QUALCOMM_MULTIPOINT_SET + 0x80);
    assert_eq!(gaia::RSP_SONOVA_MULTIPOINT_STATUS_GET, gaia::CMD_SONOVA_MULTIPOINT_STATUS_GET + 0x100);
    assert_eq!(gaia::RSP_SONOVA_CROSSFEED_GET, gaia::CMD_SONOVA_CROSSFEED_GET + 0x100);
}

#[test]
fn subcommands_and_their_requests() {
    let ids = |command: GaiaCommand| -> Vec<(u8, u16, u16, Vec<u8>)> { all(&requests_of(&command).unwrap()) };
    assert_eq!(ids(GaiaCommand::AncStatus), all(&[anc_status()]));
    assert_eq!(ids(GaiaCommand::Anc(true)), all(&set_anc(true)));
    assert_eq!(ids(GaiaCommand::TransparencyStatus), all(&[transparency_status()]));
    assert_eq!(ids(GaiaCommand::Transparency(true)), all(&[set_transparency(true)]));
    assert_eq!(ids(GaiaCommand::BassBoost(false)), all(&[set_bass_boost(false)]));
    assert_eq!(ids(GaiaCommand::EqBand(2, -7)), all(&[set_eq_band(2, -7)]));
    assert_eq!(ids(GaiaCommand::EqPreset("POP".to_string())), all(&set_eq_preset("pop").unwrap().1));
    assert_eq!(ids(GaiaCommand::NoiseControlCustom(9)), all(&set_noise_control_custom(9)));
    assert_eq!(ids(GaiaCommand::Multipoint(true)), all(&[set_multipoint(true)]));
    assert_eq!(ids(GaiaCommand::MultipointStatus), all(&[multipoint_status()]));
    assert_eq!(ids(GaiaCommand::AntiWind(true)), all(&[set_anti_wind(true)]));
    assert_eq!(ids(GaiaCommand::Crossfeed(CrossfeedLevel::Low)), all(&[set_crossfeed(CrossfeedLevel::Low)]));
    assert_eq!(ids(GaiaCommand::Raw(send_raw(1, 2, 3, vec![4]))), vec![(1, 2, 3, vec![4])]);
    let e = requests_of(&GaiaCommand::EqPreset("Polka".to_string())).unwrap_err();
    assert_eq!(e.name, "Polka");
}

#[test]
fn subcommands_and_what_they_print() {
    const OK: &str = "response vendor=0x0495 command=0x0000 status=OK payload=[]";
    let lines = |command: GaiaCommand, n: usize| {
        lines_of(&command, "HDB", (0..n).map(|_| reply(Some(0))).collect())
    };
    assert_eq!(
        lines(GaiaCommand::AncStatus, 1),
        vec![
            "(unverified opcode for this device - interpret with caution)".to_string(),
            format!("HDB: {OK}")
        ]
    );
    assert_eq!(
        lines(GaiaCommand::Anc(true), 2),
        vec![format!("HDB (primary): {OK}"), format!("HDB (companion): {OK}")]
    );
    assert_eq!(
        lines(GaiaCommand::NoiseControlCustom(1), 2),
        vec![format!("HDB (set): {OK}"), format!("HDB (commit): {OK}")]
    );
    assert_eq!(
        lines(GaiaCommand::EqPreset("Rock".to_string()), 5),
        [(0, 0), (1, 20), (2, 25), (3, 15), (4, -20)]
            .iter()
            .map(|(band, gain)| format!("HDB (band {band} -> {gain}): {OK}"))
            .collect::<Vec<_>>()
    );
    assert!(lines(GaiaCommand::EqPreset("Polka".to_string()), 5).is_empty());
    assert_eq!(
        lines(GaiaCommand::MultipointStatus, 1),
        vec!["HDB: multipoint status returned unexpected value 0"]
    );
    assert_eq!(lines(GaiaCommand::BassBoost(true), 1), vec![format!("HDB: {OK}")]);
}
