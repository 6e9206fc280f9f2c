use procpipe::codec::{decode, encode, run, DecodeFailed, Payload};

#[test]
fn round_trip_default() {
    let p = Payload { kind: 0, value: 0 };
    let bytes = encode(&p);
    assert_eq!(bytes, vec![0u8, 0u8, 0u8]);
    assert_eq!(decode(&bytes), Ok(p));
}

#[test]
fn round_trip_little_endian_layout() {
    let p = Payload { kind: 7, value: 0x1234 };
    let bytes = encode(&p);
    assert_eq!(bytes, vec![7u8, 0x34u8, 0x12u8]);
    assert_eq!(decode(&bytes), Ok(p));
}

#[test]
fn round_trip_extremes() {
    for p in [
        Payload { kind: 255, value: 65535 },
        Payload { kind: 0, value: 65535 },
        Payload { kind: 255, value: 0 },
        Payload { kind: 1, value: 256 },
        Payload { kind: 9, value: 255 },
    ] {
        let bytes = encode(&p);
        assert_eq!(bytes.len(), 3);
        assert_eq!(decode(&bytes), Ok(p));
    }
}

#[test]
fn decode_rejects_short_input() {
    assert_eq!(decode(&[]), Err(DecodeFailed));
    assert_eq!(decode(&[1]), Err(DecodeFailed));
    assert_eq!(decode(&[1, 2]), Err(DecodeFailed));
}

#[test]
fn decode_ignores_trailing_bytes() {
    assert_eq!(
        decode(&[5, 1, 1, 99, 99]),
        Ok(Payload { kind: 5, value: 257 })
    );
}

#[test]
fn run_reports_success() {
    assert!(run().is_ok());
}
