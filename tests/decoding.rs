use lidar_stream::assembler::{Frame, FrameAssembler};
use lidar_stream::decode::{decode, decode_with_rule, AzimuthRule, DecodeError, Return, DUAL_PAYLOAD_LEN, SINGLE_PAYLOAD_LEN};

fn payload(mode: u8, len: usize) -> Vec<u8> {
    let mut p = vec![0u8; len];
    p[0] = 0xEE;
    p[1] = 0xFF;
    p[2] = mode;
    p
}

#[test]
fn short_payload_is_too_short() {
    assert_eq!(decode(&[0xEE, 0xFF, 1]), Err(DecodeError::TooShort));
    assert_eq!(decode(&[]), Err(DecodeError::TooShort));
}

#[test]
fn wrong_signature_is_bad_header() {
    let mut p = payload(1, SINGLE_PAYLOAD_LEN);
    p[1] = 0xFE;
    assert_eq!(decode(&p), Err(DecodeError::BadHeader));
}

#[test]
fn unknown_mode_or_length_is_unsupported() {
    assert_eq!(decode(&payload(3, SINGLE_PAYLOAD_LEN)), Err(DecodeError::UnsupportedModel));
    assert_eq!(decode(&payload(1, SINGLE_PAYLOAD_LEN + 1)), Err(DecodeError::UnsupportedModel));
    assert_eq!(decode(&payload(2, SINGLE_PAYLOAD_LEN)), Err(DecodeError::UnsupportedModel));
}

#[test]
fn single_return_count() {
    let rs = decode(&payload(1, SINGLE_PAYLOAD_LEN)).unwrap();
    assert_eq!(rs.len(), 6 * 32);
    assert!(rs.iter().all(|r| !r.second));
}

#[test]
fn dual_return_count() {
    let rs = decode(&payload(2, DUAL_PAYLOAD_LEN)).unwrap();
    assert_eq!(rs.len(), 6 * 32 * 2);
    assert!(rs[0].channel == rs[1].channel && !rs[0].second && rs[1].second);
}

#[test]
fn fields_are_read_in_packet_order() {
    let mut p = payload(1, SINGLE_PAYLOAD_LEN);
    // first pair: azimuth 12345
    p[4] = (12345u16 & 0xFF) as u8;
    p[5] = (12345u16 >> 8) as u8;
    // block 0, channel 1: raw distance 0x0102, reflectivity 77
    p[4 + 2 + 3] = 0x02;
    p[4 + 2 + 3 + 1] = 0x01;
    p[4 + 2 + 3 + 2] = 77;
    // block 1, channel 0 shares the pair's azimuth
    p[4 + 2 + 96] = 5;
    // second pair: azimuth 200
    p[4 + 194] = 200;
    let rs = decode(&p).unwrap();
    assert_eq!(
        rs[1],
        Return { channel: 1, azimuth: 12345, distance_mm: 0x0102 * 4, reflectivity: 77, second: false }
    );
    assert_eq!(rs[32].azimuth, 12345);
    assert_eq!(rs[32].channel, 0);
    assert_eq!(rs[32].distance_mm, 20);
    assert_eq!(rs[64].azimuth, 200);
}

#[test]
fn dual_returns_share_azimuth_and_channel() {
    let mut p = payload(2, DUAL_PAYLOAD_LEN);
    p[4] = 100;
    p[4 + 2] = 1;
    p[4 + 2 + 3] = 2;
    let rs = decode(&p).unwrap();
    assert_eq!(rs[0].distance_mm, 4);
    assert_eq!(rs[1].distance_mm, 8);
    assert_eq!(rs[0].azimuth, rs[1].azimuth);
    assert_eq!(rs[2].channel, 1);
}

#[test]
fn second_block_offset_rule() {
    let mut p = payload(1, SINGLE_PAYLOAD_LEN);
    // pair azimuth 35990
    p[4] = (35990u16 & 0xFF) as u8;
    p[5] = (35990u16 >> 8) as u8;
    let rs = decode_with_rule(&p, AzimuthRule::OffsetSecondBlock(20)).unwrap();
    assert_eq!(rs[0].azimuth, 35990);
    assert_eq!(rs[31].azimuth, 35990);
    assert_eq!(rs[32].azimuth, 10);
    let shared = decode_with_rule(&p, AzimuthRule::SharedPerPair).unwrap();
    assert_eq!(shared[32].azimuth, 35990);
}

#[test]
fn assembler_decodes_with_its_rule() {
    let mut p = payload(1, SINGLE_PAYLOAD_LEN);
    p[4] = (35990u16 & 0xFF) as u8;
    p[5] = (35990u16 >> 8) as u8;
    p[4 + 194] = 100;
    p[4 + 2 * 194] = 200;
    let mut out: Vec<Frame> = Vec::new();
    let mut a = FrameAssembler::with_rule(0, AzimuthRule::OffsetSecondBlock(20));
    assert_eq!(a.feed_payload(&p, &mut out), Ok(192));
    // the second block wraps to 10, then 100 and 200 follow without a wrap
    assert_eq!(out.len(), 1);
    assert_eq!(a.last_azimuth(), Some(220));
    let mut b = FrameAssembler::new(0);
    let mut out2: Vec<Frame> = Vec::new();
    assert_eq!(b.feed_payload(&p, &mut out2), Ok(192));
    assert_eq!(out2.len(), 1);
    assert_eq!(b.last_azimuth(), Some(200));
}
