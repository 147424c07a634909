use ptz_overlay::freed::{DecodeError, FreeD, Position};
use ptz_overlay::ptz::Ptz;

const BYTES1: [u8; 29] = [
    0xd1, 0x00, 0xdf, 0x78, 0xaa, 0x00, 0x47, 0xef, 0x00, 0x00, 0x00, 0x00, 0x00, 0x00, 0x00, 0x00,
    0x00, 0x00, 0x00, 0x00, 0x00, 0x40, 0x00, 0x00, 0x15, 0x01, 0xd1, 0xff, 0x12,
];

const BYTES2: [u8; 29] = [
    0xd1, 0x00, 0x21, 0x98, 0xd8, 0xff, 0xeb, 0x94, 0x00, 0x00, 0x00, 0x00, 0x00, 0x00, 0x00, 0x00,
    0x00, 0x00, 0x00, 0x00, 0x00, 0x28, 0xc6, 0x00, 0x13, 0xb9, 0xd1, 0xff, 0xd6,
];

#[test]
fn store_starts_with_the_zero_sample() {
    let ptz = Ptz::new(1);
    assert_eq!(ptz.num(), 1);
    assert_eq!(ptz.snapshot(), FreeD::zero());
    assert_eq!(ptz.yaw_pitch_zoom(), (0, 0, 0));
}

#[test]
fn port_is_base_plus_head_number() {
    assert_eq!(Ptz::new(0).port(), 5550);
    assert_eq!(Ptz::new(1).port(), 5551);
    assert_eq!(Ptz::new(6).port(), 5556);
}

#[test]
fn there_are_heads_zero_to_six() {
    assert_eq!(Ptz::try_new(6).map(|p| p.num()), Some(6));
    assert!(Ptz::try_new(7).is_none());
    assert!(Ptz::try_new(255).is_none());
}

#[test]
fn publishing_replaces_the_whole_sample() {
    let mut ptz = Ptz::new(2);
    let first =
        FreeD { pan: 1, tilt: 2, roll: 3, pos: Position { x: 4, y: 5, z: 6 }, zoom: 7, focus: 8 };
    let second = FreeD {
        pan: -10,
        tilt: -20,
        roll: -30,
        pos: Position { x: 40, y: 50, z: 60 },
        zoom: 70,
        focus: 80,
    };
    ptz.set_freed_data(first);
    assert_eq!(ptz.snapshot(), first);
    ptz.set_freed_data(second);
    assert_eq!(ptz.snapshot(), second);
    assert_eq!(ptz.snapshot(), second);
    assert_eq!(ptz.num(), 2);
}

#[test]
fn yaw_is_tilt_and_pitch_is_pan() {
    let mut ptz = Ptz::new(1);
    ptz.set_freed_data(FreeD {
        pan: 111,
        tilt: 222,
        roll: 333,
        pos: Position { x: 0, y: 0, z: 0 },
        zoom: 444,
        focus: 555,
    });
    assert_eq!(ptz.yaw_pitch_zoom(), (222, 111, 444));
}

#[test]
fn received_datagram_is_published() {
    let mut ptz = Ptz::new(1);
    assert_eq!(ptz.receive(&BYTES1), Ok(()));
    assert_eq!(ptz.snapshot(), FreeD::try_from(&BYTES1).unwrap());
    assert_eq!(ptz.receive(&BYTES2), Ok(()));
    assert_eq!(ptz.snapshot(), FreeD::try_from(&BYTES2).unwrap());
    assert_eq!(ptz.yaw_pitch_zoom(), (-5228, 2201816, 10438));
}

#[test]
fn bad_datagram_keeps_the_previous_sample() {
    let mut ptz = Ptz::new(1);
    ptz.receive(&BYTES1).unwrap();
    let before = ptz.snapshot();
    assert_eq!(ptz.receive(&BYTES2[..20]), Err(DecodeError::InvalidLength));
    assert_eq!(ptz.snapshot(), before);
    let mut wrong_marker = BYTES2;
    wrong_marker[0] = 0xd2;
    assert_eq!(ptz.receive(&wrong_marker), Err(DecodeError::InvalidMessageType));
    assert_eq!(ptz.snapshot(), before);
    let mut corrupt = BYTES2;
    corrupt[10] ^= 0x04;
    assert_eq!(ptz.receive(&corrupt), Err(DecodeError::ChecksumMismatch));
    assert_eq!(ptz.snapshot(), before);
}
