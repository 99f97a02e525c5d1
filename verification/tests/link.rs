//! The control channel.

use sennheiser_core::gaia::{build_frame, build_packet, GaiaError, GaiaResponse};
use sennheiser_core::transport::{
    after_queue_poll, classic_connect_result, encode_command, gaia_ble_characteristic_uuid,
    gaia_ble_service_uuid, gaia_classic_uuid, read_notification, reply_result, ConnectError,
    ConnectEvent, FrameReader, GattSearch, Reply, SendError, SendStep, TransportKind,
    GAIA_BLE_CHARACTERISTIC_UUID, GAIA_BLE_SERVICE_UUID, GAIA_CLASSIC_UUID,
};
use std::str::FromStr;

fn seen(list: &[GaiaResponse]) -> Vec<(u16, u16, Option<u8>, Vec<u8>)> {
    list.iter().map(|r| (r.vendor_id, r.command_id, r.status, r.payload.clone())).collect()
}

#[test]
fn the_uuids_are_read_by_the_uuid_crate() {
    assert_eq!(gaia_classic_uuid(), uuid::Uuid::from_str(GAIA_CLASSIC_UUID).unwrap().as_u128());
    assert_eq!(gaia_ble_service_uuid(), uuid::Uuid::from_str(GAIA_BLE_SERVICE_UUID).unwrap().as_u128());
    assert_eq!(
        gaia_ble_characteristic_uuid(),
        uuid::Uuid::from_str(GAIA_BLE_CHARACTERISTIC_UUID).unwrap().as_u128()
    );
    assert_eq!(gaia_classic_uuid(), 0xa2129ff3_081b_4c45_8afe_469d9c4842ec);
    assert_eq!(gaia_ble_service_uuid(), 0x0000eb10_d102_11e1_9b23_00025b00a5a5);
    assert_eq!(gaia_ble_characteristic_uuid(), 0x0000eb13_d102_11e1_9b23_00025b00a5a5);
}

#[test]
fn frames_survive_every_cut() {
    let mut stream = build_frame(3, 0x0495, 0x1a85, &[1]).unwrap();
    stream.extend_from_slice(&build_frame(3, 0x0495, 0x1082, &[0, 20, 25, 15, 0xec]).unwrap());
    stream.extend_from_slice(&build_frame(3, 0x001d, 0x0e80, &[]).unwrap());
    let mut reader = FrameReader::new();
    let whole = seen(&reader.feed(&stream));
    assert_eq!(
        whole,
        vec![
            (0x0495, 0x1a85, Some(1), vec![]),
            (0x0495, 0x1082, Some(0), vec![20, 25, 15, 0xec]),
            (0x001d, 0x0e80, None, vec![]),
        ]
    );
    for first in 0..=stream.len() {
        for second in first..=stream.len() {
            let mut reader = FrameReader::new();
            let mut got = seen(&reader.feed(&stream[..first]));
            got.extend(seen(&reader.feed(&stream[first..second])));
            got.extend(seen(&reader.feed(&stream[second..])));
            assert_eq!(got, whole, "cut at {first} and {second}");
            assert!(!reader.has_ended());
        }
    }
}

#[test]
fn any_frames_survive_every_cut_and_a_partial_one_is_kept() {
    let mut stream = vec![0xff, 3, 0x01, 1, 0x04, 0x95, 0x10, 0x89, 0x01, 0x77];
    stream.extend_from_slice(&[0xff, 3, 0x02, 0x00, 0x02, 0x04, 0x95, 0x1a, 0x83, 100, 7]);
    stream.extend_from_slice(&[0xff, 3, 0x03, 0x00, 0x01, 0x00, 0x1d, 0x0e, 0x80, 1, 0x55]);
    let next = build_frame(3, 0x0495, 0x1082, &[0, 20, 25, 15, 0xec]).unwrap();
    let whole = vec![
        (0x0495, 0x1089, Some(1), vec![]),
        (0x0495, 0x1a83, Some(100), vec![7]),
        (0x001d, 0x0e80, Some(1), vec![]),
    ];
    for arrived in 0..next.len() {
        let mut bytes = stream.clone();
        bytes.extend_from_slice(&next[..arrived]);
        for cut in 0..=bytes.len() {
            let mut reader = FrameReader::new();
            let mut got = seen(&reader.feed(&bytes[..cut]));
            got.extend(seen(&reader.feed(&bytes[cut..])));
            assert_eq!(got, whole, "{arrived} bytes more, cut at {cut}");
            assert!(!reader.has_ended());
            let rest = seen(&reader.feed(&next[arrived..]));
            assert_eq!(rest, vec![(0x0495, 0x1082, Some(0), vec![20, 25, 15, 0xec])]);
        }
    }
}

#[test]
fn a_malformed_frame_ends_the_reader() {
    let frame = build_frame(3, 0x0495, 0x1a85, &[1]).unwrap();
    let mut stream = frame.clone();
    stream.push(0x00);
    stream.extend_from_slice(&frame);
    for cut in 0..=stream.len() {
        let mut reader = FrameReader::new();
        let mut got = seen(&reader.feed(&stream[..cut]));
        got.extend(seen(&reader.feed(&stream[cut..])));
        assert_eq!(got, vec![(0x0495, 0x1a85, Some(1), vec![])], "cut at {cut}");
        assert!(reader.has_ended());
        assert!(reader.feed(&frame).is_empty());
    }
}

#[test]
fn an_incomplete_frame_is_kept() {
    let frame = build_frame(3, 0x0495, 0x1a85, &[1]).unwrap();
    let mut reader = FrameReader::new();
    assert!(reader.feed(&frame[..5]).is_empty());
    assert!(reader.feed(&[]).is_empty());
    assert_eq!(reader.feed(&frame[5..]).len(), 1);
}

#[test]
fn notifications_are_packets() {
    let r = read_notification(&build_packet(0x0495, 0x1a85, &[1])).unwrap();
    assert_eq!((r.vendor_id, r.command_id, r.status), (0x0495, 0x1a85, Some(1)));
    assert!(read_notification(&[1, 2, 3]).is_none());
}

#[test]
fn commands_are_framed_only_on_the_classic_transport() {
    assert_eq!(
        encode_command(TransportKind::Classic, 3, 0x0495, 0x1008, &[1]).unwrap(),
        vec![0xff, 3, 0, 1, 0x04, 0x95, 0x10, 0x08, 1]
    );
    assert_eq!(
        encode_command(TransportKind::Ble, 3, 0x0495, 0x1008, &[1]).unwrap(),
        vec![0x04, 0x95, 0x10, 0x08, 1]
    );
    assert!(encode_command(TransportKind::Classic, 3, 1, 2, &[0; 251]).is_err());
    assert_eq!(encode_command(TransportKind::Ble, 3, 1, 2, &[0; 251]).unwrap().len(), 255);
}

#[test]
fn old_responses_are_dropped_before_a_command_is_written() {
    let kind = TransportKind::Classic;
    assert!(matches!(after_queue_poll(true, kind, 3, 1, 2, &[]), SendStep::PollAgain));
    assert!(matches!(
        after_queue_poll(false, kind, 3, 1, 2, &[]),
        SendStep::Write(bytes) if bytes == vec![0xff, 3, 0, 0, 0, 1, 0, 2]
    ));
    assert!(matches!(
        after_queue_poll(false, kind, 3, 1, 2, &[0; 300]),
        SendStep::Refuse(GaiaError::PayloadTooLarge(304))
    ));
    assert!(matches!(after_queue_poll(true, kind, 3, 1, 2, &[0; 300]), SendStep::PollAgain));
}

#[test]
fn the_next_response_answers_a_command() {
    let resp = GaiaResponse { vendor_id: 1, command_id: 2, status: Some(3), payload: vec![4] };
    let got = reply_result(TransportKind::Ble, Reply::Arrived(resp)).unwrap();
    assert_eq!(seen(&[got]), vec![(1, 2, Some(3), vec![4])]);
    for (kind, reply, text) in [
        (TransportKind::Classic, Reply::TimedOut, "timed out waiting for a response from the headset"),
        (TransportKind::Ble, Reply::TimedOut, "timed out waiting for a notification/indication response"),
        (TransportKind::Classic, Reply::Closed, "RFCOMM connection closed by the device before it replied"),
        (TransportKind::Ble, Reply::Closed, "notification stream ended without a response"),
    ] {
        assert_eq!(reply_result(kind, reply).unwrap_err().message(), text);
    }
    assert_eq!(
        SendError::NotWritten(TransportKind::Classic).message(),
        "failed to write to the RFCOMM socket"
    );
    assert_eq!(
        SendError::NotWritten(TransportKind::Ble).message(),
        "failed to write to the GAIA BLE characteristic"
    );
}

#[test]
fn only_an_offered_connection_is_accepted() {
    assert_eq!(classic_connect_result(ConnectEvent::Offered), Ok(()));
    for (event, error, text) in [
        (
            ConnectEvent::RegistrationEnded,
            ConnectError::RegistrationEnded,
            "BlueZ closed the profile registration before connecting",
        ),
        (
            ConnectEvent::ConnectReturned,
            ConnectError::NothingOffered,
            "BlueZ reported success but never handed us a connection",
        ),
        (
            ConnectEvent::ConnectFailed,
            ConnectError::NotConnected,
            "BlueZ could not connect the GAIA RFCOMM channel - the device may not actually expose an SDP service record for this UUID",
        ),
        (ConnectEvent::ConnectPanicked, ConnectError::Panicked, "BlueZ connect task panicked"),
    ] {
        assert_eq!(classic_connect_result(event), Err(error));
        assert_eq!(error.message(), text);
    }
    assert_eq!(ConnectError::TimedOut.message(), "timed out opening the GAIA control channel");
}

fn search(services: &[(u128, Vec<u128>)]) -> Result<(usize, usize), ConnectError> {
    let mut search = GattSearch::new();
    for (i, (service, characteristics)) in services.iter().enumerate() {
        if !search.enters_service(*service) {
            continue;
        }
        for (j, uuid) in characteristics.iter().enumerate() {
            if search.visit(i, j, *uuid) {
                break;
            }
        }
    }
    search.result()
}

#[test]
fn the_search_ends_with_the_last_service_that_matches() {
    let (s, c) = (gaia_ble_service_uuid(), gaia_ble_characteristic_uuid());
    assert_eq!(search(&[(1, vec![c]), (s, vec![2, c, c]), (s, vec![3])]), Ok((1, 1)));
    assert_eq!(search(&[(s, vec![c]), (s, vec![4, c])]), Ok((1, 1)));
    assert_eq!(search(&[(1, vec![c]), (s, vec![1])]), Err(ConnectError::NoCharacteristic));
    assert_eq!(search(&[]), Err(ConnectError::NoCharacteristic));
    assert_eq!(
        ConnectError::NoCharacteristic.message(),
        "GATT characteristic 0000eb13-d102-11e1-9b23-00025b00a5a5 not found under service 0000eb10-d102-11e1-9b23-00025b00a5a5 - this device may not expose GAIA over BLE"
    );
}
