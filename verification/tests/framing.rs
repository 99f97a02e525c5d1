//! Packets, frames and hexadecimal input.

use sennheiser_core::gaia::{
    build_frame, build_packet, deframe_one, hex_pairs_are_whole, parse_frame, parse_hex_bytes,
    parse_hex_u16, parse_packet, GaiaError,
};
use sennheiser_core::hex::HexError;
use sennheiser_core::letters;

#[test]
fn a_packet_is_two_ids_and_a_payload() {
    assert_eq!(build_packet(0x0495, 0x1a00, &[3, 1]), vec![0x04, 0x95, 0x1a, 0x00, 3, 1]);
    let r = parse_packet(&[0x04, 0x95, 0x1a, 0x81, 0x01, 0x00, 0x02]).unwrap();
    assert_eq!((r.vendor_id, r.command_id, r.status), (0x0495, 0x1a81, Some(1)));
    assert_eq!(r.payload, vec![0, 2]);
}

#[test]
fn a_packet_without_payload_has_no_status() {
    let r = parse_packet(&build_packet(0x001d, 0x0e80, &[])).unwrap();
    assert_eq!(r.status, None);
    assert!(r.payload.is_empty());
}

#[test]
fn a_packet_gives_back_what_it_was_built_of() {
    let r = parse_packet(&build_packet(0xabcd, 0x0102, &[9, 8, 7])).unwrap();
    assert_eq!((r.vendor_id, r.command_id, r.status), (0xabcd, 0x0102, Some(9)));
    assert_eq!(r.payload, vec![8, 7]);
}

#[test]
fn different_commands_give_different_bytes() {
    let a = build_frame(3, 0x0495, 0x1a00, &[3, 1]).unwrap();
    assert_ne!(a, build_frame(1, 0x0495, 0x1a00, &[3, 1]).unwrap());
    assert_ne!(a, build_frame(3, 0x0494, 0x1a00, &[3, 1]).unwrap());
    assert_ne!(a, build_frame(3, 0x0495, 0x1a01, &[3, 1]).unwrap());
    assert_ne!(a, build_frame(3, 0x0495, 0x1a00, &[3, 0]).unwrap());
    assert_ne!(build_packet(1, 2, &[3]), build_packet(1, 2, &[4]));
}

#[test]
fn a_short_packet_is_refused() {
    let e = parse_packet(&[0x04, 0x95, 0x1a]).unwrap_err();
    assert!(matches!(&e, GaiaError::PacketTooShort(b) if *b == vec![0x04, 0x95, 0x1a]));
    assert_eq!(
        e.message(),
        "GAIA packet too short (need at least vendor_id+command_id): [04, 95, 1a]"
    );
}

#[test]
fn a_frame_has_its_header() {
    let frame = build_frame(3, 0x0495, 0x1a00, &[3, 1]).unwrap();
    assert_eq!(frame, vec![0xff, 3, 0, 2, 0x04, 0x95, 0x1a, 0x00, 3, 1]);
    let r = parse_frame(&frame).unwrap();
    assert_eq!((r.vendor_id, r.command_id, r.status), (0x0495, 0x1a00, Some(3)));
    assert_eq!(r.payload, vec![1]);
}

#[test]
fn the_largest_payload_of_a_frame() {
    let largest = build_frame(1, 1, 2, &[7; 250]).unwrap();
    assert_eq!(largest.len(), 258);
    assert_eq!(largest[3], 250);
    let e = build_frame(1, 1, 2, &[7; 251]).unwrap_err();
    assert!(matches!(e, GaiaError::PayloadTooLarge(255)));
    assert_eq!(
        e.message(),
        "GAIA payload too large for this simplified framer (255 bytes; extended-length framing isn't implemented)"
    );
}

#[test]
fn a_checksum_byte_is_passed_over() {
    let frame = [0xff, 3, 0x01, 1, 0x04, 0x95, 0x10, 0x89, 0x01, 0x77];
    let r = parse_frame(&frame).unwrap();
    assert_eq!((r.status, r.payload.len()), (Some(1), 0));
    let (consumed, _) = deframe_one(&frame).unwrap().unwrap();
    assert_eq!(consumed, 10);
}

#[test]
fn an_extended_length_takes_two_bytes() {
    let mut frame = vec![0xff, 3, 0x02, 0x01, 0x00, 0x04, 0x95, 0x10, 0x82];
    frame.extend_from_slice(&[5; 256]);
    let r = parse_frame(&frame).unwrap();
    assert_eq!(r.status, Some(5));
    assert_eq!(r.payload.len(), 255);
    assert_eq!(deframe_one(&frame).unwrap().unwrap().0, 265);
}

#[test]
fn frames_that_end_early_are_refused() {
    let e = parse_frame(&[0x00, 1, 0, 0, 0, 0, 0, 0]).unwrap_err();
    assert_eq!(
        e.message(),
        "not a GAIA SPP frame (missing 0xFF start-of-frame byte): [00, 01, 00, 00, 00, 00, 00, 00]"
    );
    assert!(matches!(parse_frame(&[0xff, 1, 0]).unwrap_err(), GaiaError::NotAFrame(_)));
    let e = parse_frame(&[0xff, 1, 2, 0]).unwrap_err();
    assert!(matches!(e, GaiaError::TruncatedLength));
    assert_eq!(e.message(), "truncated extended-length GAIA frame");
    let e = parse_frame(&[0xff, 1, 0, 2, 4, 0x95, 0x1a, 0, 3]).unwrap_err();
    assert!(matches!(&e, GaiaError::TruncatedFrame { expected: 10, received } if received.len() == 9));
    assert_eq!(
        e.message(),
        "truncated GAIA frame: expected 10 bytes, got 9: [ff, 01, 00, 02, 04, 95, 1a, 00, 03]"
    );
}

#[test]
fn deframing_waits_for_a_whole_frame() {
    let frame = build_frame(3, 0x0495, 0x1008, &[1]).unwrap();
    for n in 0..frame.len() {
        assert!(deframe_one(&frame[..n]).unwrap().is_none(), "{n} bytes");
    }
    let mut two = frame.clone();
    two.extend_from_slice(&frame);
    let (consumed, r) = deframe_one(&two).unwrap().unwrap();
    assert_eq!(consumed, frame.len());
    assert_eq!((r.command_id, r.status), (0x1008, Some(1)));
    assert!(deframe_one(&[0x01, 0xff]).is_err());
}

#[test]
fn deframing_and_parsing_agree() {
    let frame = build_frame(3, 0x0495, 0x1001, &[2, 0xec]).unwrap();
    let whole = parse_frame(&frame).unwrap();
    let mut more = frame.clone();
    more.extend_from_slice(&[0xff, 0x00]);
    let (consumed, taken) = deframe_one(&more).unwrap().unwrap();
    assert_eq!(consumed, frame.len());
    assert_eq!(taken.payload, whole.payload);
    assert_eq!(taken.status, whole.status);
}

#[test]
fn hexadecimal_ids() {
    assert_eq!(parse_hex_u16("0x0494").unwrap(), 0x0494);
    assert_eq!(parse_hex_u16(" 1a00 ").unwrap(), 0x1a00);
    assert_eq!(parse_hex_u16("0XfF").unwrap(), 0xff);
    assert_eq!(parse_hex_u16("0x0x0X12").unwrap(), 0x12);
    assert_eq!(parse_hex_u16("+1F").unwrap(), 0x1f);
    assert_eq!(parse_hex_u16("ffff").unwrap(), 0xffff);
    assert!(matches!(parse_hex_u16("0x").unwrap_err(), GaiaError::InvalidHex(HexError::Empty)));
    assert!(matches!(parse_hex_u16("xyz").unwrap_err(), GaiaError::InvalidHex(HexError::InvalidDigit)));
    assert!(matches!(parse_hex_u16("10000").unwrap_err(), GaiaError::InvalidHex(HexError::TooLarge)));
}

#[test]
fn hexadecimal_errors_read_like_those_of_std() {
    for text in ["", "zz", "12345", "+", "-1", "fffff", "1g", "10000g", "+0"] {
        let ours = parse_hex_u16(text).map_err(|e| e.message());
        let theirs = u16::from_str_radix(text, 16).map_err(|e| e.to_string());
        assert_eq!(ours, theirs, "{text}");
    }
}

#[test]
fn every_id_parses_back() {
    for id in 0..=u16::MAX {
        assert_eq!(parse_hex_u16(&format!("{id:04x}")).unwrap(), id);
        assert_eq!(parse_hex_u16(&format!("0x{id:04x}")).unwrap(), id);
    }
}

#[test]
fn every_spelling_of_an_id() {
    for left in ["", " ", "\t\n"] {
        for mark in ["", "0x", "0X"] {
            for sign in ["", "+"] {
                for (body, value) in [("1a0f", 0x1a0f), ("1A0F", 0x1a0f), ("000000aB", 0xab), ("0", 0)] {
                    let text = format!("{left}{mark}{sign}{body} ");
                    assert_eq!(parse_hex_u16(&text).unwrap(), value, "{text}");
                }
                for body in ["", "1g", "10000", "1 2", "-1"] {
                    let text = format!("{left}{mark}{sign}{body} ");
                    assert!(parse_hex_u16(&text).is_err(), "{text}");
                }
            }
        }
    }
    assert_eq!(parse_hex_bytes("aB cD").unwrap(), parse_hex_bytes("ABcd").unwrap());
}

#[test]
fn hexadecimal_payloads() {
    assert_eq!(parse_hex_bytes("0001").unwrap(), vec![0, 1]);
    assert_eq!(parse_hex_bytes(" 00 1f\tFf ").unwrap(), vec![0, 0x1f, 0xff]);
    assert_eq!(parse_hex_bytes("").unwrap(), Vec::<u8>::new());
    assert_eq!(parse_hex_bytes("+1+f").unwrap(), vec![1, 0xf]);
    let e = parse_hex_bytes("001").unwrap_err();
    assert!(matches!(e, GaiaError::OddHexDigits));
    assert_eq!(e.message(), "hex payload must have an even number of digits");
    let e = parse_hex_bytes("0g").unwrap_err();
    assert_eq!(e.message(), "invalid digit found in string");
}

#[test]
fn pairs_that_would_split_a_character() {
    assert!(hex_pairs_are_whole("00ff"));
    assert!(hex_pairs_are_whole("001"));
    assert!(hex_pairs_are_whole("\u{e9}"));
    assert!(!hex_pairs_are_whole("0\u{e9}0"));
    assert!(matches!(
        parse_hex_bytes("\u{e9}").unwrap_err(),
        GaiaError::InvalidHex(HexError::InvalidDigit)
    ));
}

#[test]
fn white_space_is_that_of_std() {
    for v in 0..=0x10ffffu32 {
        if let Some(c) = char::from_u32(v) {
            assert_eq!(letters::white_space(c), c.is_whitespace(), "{v:x}");
            assert_eq!(letters::width(c), c.len_utf8(), "{v:x}");
        }
    }
}

#[test]
fn texts_and_their_parts() {
    assert!(letters::contains("HDB 630", "B 6"));
    assert!(letters::contains("HDB 630", ""));
    assert!(letters::contains("HDB 630", "HDB 630"));
    assert!(!letters::contains("HDB 630", "hdb"));
    assert!(!letters::contains("", "a"));
    assert!(letters::contains_ignoring_case("HDB 630", "hdb"));
    assert!(letters::contains_ignoring_case("hdb 630", "HDB"));
    assert!(letters::contains_ignoring_case("\u{c9}couteurs", "\u{e9}COUT"));
    assert!(!letters::contains_ignoring_case("HDB 630", "hda"));
}
