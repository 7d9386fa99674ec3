use ratmap::clock::{Clock, SystemClock};
use ratmap::error::RatmapError;
use ratmap::handshake::Handshake;

fn block(seed: u8) -> Vec<u8> {
    (0..1528).map(|i| (i as u8).wrapping_mul(31).wrapping_add(seed)).collect()
}

#[test]
fn handshake_happy_path() {
    let r = block(1);
    let p = block(2);
    let mut hs = Handshake::new(0x0000_0001, r.clone());
    let mut c0_c1 = vec![0x03, 0, 0, 0, 1, 0, 0, 0, 0];
    c0_c1.extend_from_slice(&r);
    assert_eq!(hs.c0_c1(), c0_c1);

    let mut s0_s1 = vec![0x03, 0, 0, 0, 2, 0, 0, 0, 0];
    s0_s1.extend_from_slice(&p);
    let c2 = hs.receive_s0_s1(&s0_s1, 0x0000_0001).unwrap();
    let mut expected_c2 = vec![0, 0, 0, 2, 0, 0, 0, 1];
    expected_c2.extend_from_slice(&p);
    assert_eq!(c2, expected_c2);

    let mut s2 = vec![0, 0, 0, 1, 0, 0, 0, 2];
    s2.extend_from_slice(&r);
    assert_eq!(hs.receive_s2(&s2), Ok(0));
}

#[test]
fn handshake_rejects_other_versions() {
    let mut hs = Handshake::new(1, block(1));
    let mut s0_s1 = vec![0x06, 0, 0, 0, 2, 0, 0, 0, 0];
    s0_s1.extend_from_slice(&block(2));
    assert_eq!(hs.receive_s0_s1(&s0_s1, 1), Err(RatmapError::UnsupportedVersion));
}

#[test]
fn handshake_rejects_nonzero_block() {
    let mut hs = Handshake::new(1, block(1));
    let mut s0_s1 = vec![0x03, 0, 0, 0, 2, 0, 0, 0, 9];
    s0_s1.extend_from_slice(&block(2));
    assert_eq!(hs.receive_s0_s1(&s0_s1, 1), Err(RatmapError::BadHandshake));
}

#[test]
fn handshake_rejects_bad_echo() {
    let r = block(1);
    let mut hs = Handshake::new(1, r.clone());
    let mut s0_s1 = vec![0x03, 0, 0, 0, 2, 0, 0, 0, 0];
    s0_s1.extend_from_slice(&block(2));
    hs.receive_s0_s1(&s0_s1, 1).unwrap();
    // wrong timestamp echo
    let mut s2 = vec![0, 0, 0, 7, 0, 0, 0, 2];
    s2.extend_from_slice(&r);
    assert_eq!(hs.receive_s2(&s2), Err(RatmapError::BadHandshake));
    // wrong random echo
    let mut s2 = vec![0, 0, 0, 1, 0, 0, 0, 2];
    s2.extend_from_slice(&block(3));
    assert_eq!(hs.receive_s2(&s2), Err(RatmapError::BadHandshake));
}

#[test]
fn latency_estimate_wraps() {
    let r = block(1);
    let mut hs = Handshake::new(1, r.clone());
    let mut s0_s1 = vec![0x03, 0xFF, 0xFF, 0xFF, 0xF0, 0, 0, 0, 0];
    s0_s1.extend_from_slice(&block(2));
    hs.receive_s0_s1(&s0_s1, 1).unwrap();
    let mut s2 = vec![0, 0, 0, 1, 0, 0, 0, 0x10];
    s2.extend_from_slice(&r);
    assert_eq!(hs.receive_s2(&s2), Ok(0x20));
}

#[test]
fn system_clock_moves_forward() {
    let clock = SystemClock::default();
    let a = clock.now();
    let b = clock.now();
    assert!(b >= a);
    assert!(a < 60_000);
}

#[test]
fn millis_reduce_modulo_two_to_the_32() {
    assert_eq!(ratmap::clock::timestamp_of_millis(5), 5);
    assert_eq!(ratmap::clock::timestamp_of_millis(0x1_0000_0005), 5);
}
