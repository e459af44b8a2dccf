use kv_service::user::{decode_user, encode_user, Timestamp, User};
use kv_service::wire::{encode_varint, take_varint};

fn varint(n: u64) -> Vec<u8> {
    let mut out = Vec::new();
    encode_varint(n, &mut out);
    out
}

#[test]
fn varint_known_encodings() {
    assert_eq!(varint(0), vec![0x00]);
    assert_eq!(varint(1), vec![0x01]);
    assert_eq!(varint(127), vec![0x7f]);
    assert_eq!(varint(128), vec![0x80, 0x01]);
    assert_eq!(varint(300), vec![0xac, 0x02]);
    assert_eq!(
        varint(u64::MAX),
        vec![0xff, 0xff, 0xff, 0xff, 0xff, 0xff, 0xff, 0xff, 0xff, 0x01]
    );
}

#[test]
fn varint_matches_reference_encoder() {
    for n in [0u64, 1, 127, 128, 300, 16_384, 1 << 32, u64::MAX] {
        let mut expected: Vec<u8> = Vec::new();
        prost::encoding::encode_varint(n, &mut expected);
        assert_eq!(varint(n), expected);
    }
}

#[test]
fn varint_reads_back() {
    for n in [0u64, 1, 127, 128, 300, 16_384, 1 << 32, u64::MAX] {
        let mut buf = varint(n);
        let len = buf.len();
        buf.push(0x99);
        assert_eq!(take_varint(&buf, 0), Some((n, len)));
    }
}

#[test]
fn varint_rejects_broken_runs() {
    // Truncated: continuation bit with nothing after it.
    assert_eq!(take_varint(&vec![0x80], 0), None);
    // Non-minimal: a trailing zero group.
    assert_eq!(take_varint(&vec![0x80, 0x00], 0), None);
    // Over-long: an eleventh byte.
    assert_eq!(take_varint(&vec![0xff; 11], 0), None);
    // Past 64 bits.
    assert_eq!(
        take_varint(&vec![0xff, 0xff, 0xff, 0xff, 0xff, 0xff, 0xff, 0xff, 0xff, 0x02], 0),
        None
    );
    // Empty input.
    assert_eq!(take_varint(&Vec::new(), 0), None);
}

fn full_user() -> User {
    let mut u = User::empty();
    u.id = "id-1".to_string();
    u.name = "Ada".to_string();
    u.email = "ada@example.com".to_string();
    u.password = "s3cret".to_string();
    u.created_at = Some(Timestamp { seconds: 1_700_000_000, nanos: 42 });
    u
}

#[test]
fn encode_user_known_bytes() {
    let mut u = User::empty();
    u.name = "a".to_string();
    u.email = "b".to_string();
    u.password = "c".to_string();
    assert_eq!(
        encode_user(&u),
        vec![0x12, 0x01, b'a', 0x1a, 0x01, b'b', 0x22, 0x01, b'c']
    );

    let empty = User::empty();
    assert_eq!(encode_user(&empty), Vec::<u8>::new());

    let mut stamped = User::empty();
    stamped.created_at = Some(Timestamp { seconds: 1, nanos: 2 });
    assert_eq!(encode_user(&stamped), vec![0x2a, 0x04, 0x08, 0x01, 0x10, 0x02]);
}

#[test]
fn encode_user_matches_reference_encoder() {
    let u = full_user();
    let mut expected: Vec<u8> = Vec::new();
    prost::encoding::string::encode(1, &u.id, &mut expected);
    prost::encoding::string::encode(2, &u.name, &mut expected);
    prost::encoding::string::encode(3, &u.email, &mut expected);
    prost::encoding::string::encode(4, &u.password, &mut expected);
    let ts = prost_types::Timestamp { seconds: 1_700_000_000, nanos: 42 };
    prost::encoding::message::encode(5, &ts, &mut expected);
    assert_eq!(encode_user(&u), expected);
}

#[test]
fn encode_negative_timestamp_matches_reference_encoder() {
    let mut u = User::empty();
    u.created_at = Some(Timestamp { seconds: -1, nanos: -2 });
    let mut expected: Vec<u8> = Vec::new();
    let ts = prost_types::Timestamp { seconds: -1, nanos: -2 };
    prost::encoding::message::encode(5, &ts, &mut expected);
    assert_eq!(encode_user(&u), expected);
}

#[test]
fn decode_reads_back_every_field() {
    for u in [
        full_user(),
        User::empty(),
        {
            let mut u = User::empty();
            u.name = "z\u{00e9}ro \u{6f22}".to_string();
            u.created_at = Some(Timestamp { seconds: -62_135_596_800, nanos: -999 });
            u
        },
    ] {
        let encoded = encode_user(&u);
        let back = decode_user(&encoded).expect("round trip decodes");
        assert_eq!(back.id, u.id);
        assert_eq!(back.name, u.name);
        assert_eq!(back.email, u.email);
        assert_eq!(back.password, u.password);
        assert_eq!(back.created_at, u.created_at);
    }
}

#[test]
fn decode_accepts_reference_encoding() {
    let mut body: Vec<u8> = Vec::new();
    prost::encoding::string::encode(2, &"a".to_string(), &mut body);
    prost::encoding::string::encode(3, &"b".to_string(), &mut body);
    prost::encoding::string::encode(4, &"c".to_string(), &mut body);
    let u = decode_user(&body).expect("reference bytes decode");
    assert_eq!(u.id, "");
    assert_eq!(u.name, "a");
    assert_eq!(u.email, "b");
    assert_eq!(u.password, "c");
    assert_eq!(u.created_at, None);
}

#[test]
fn decode_last_field_wins() {
    let mut body: Vec<u8> = Vec::new();
    prost::encoding::string::encode(2, &"first".to_string(), &mut body);
    prost::encoding::string::encode(2, &"second".to_string(), &mut body);
    let u = decode_user(&body).expect("decodes");
    assert_eq!(u.name, "second");
}

#[test]
fn decode_rejects_malformed_records() {
    // A text payload that is not UTF-8.
    assert!(decode_user(&vec![0x12, 0x01, 0xff]).is_none());
    // A length running past the end of the buffer.
    assert!(decode_user(&vec![0x12, 0x05, b'a']).is_none());
    // A key this record does not have.
    assert!(decode_user(&vec![0x3a, 0x00]).is_none());
    // A bare varint key with no frame after it.
    assert!(decode_user(&vec![0x12]).is_none());
    // A creation time whose nested payload is broken.
    assert!(decode_user(&vec![0x2a, 0x01, 0x08]).is_none());
}
