use eagre_asn1::der::{DerError, DER};
use eagre_asn1::samples::{Command, TestEnum, TestStruct};
use eagre_asn1::types::{Any, IA5String, Null};

#[test]
fn encode_null() {
    let mut stream: Vec<u8> = Vec::new();
    Null.der_encode(&mut stream);
    assert_eq!(&0x05, stream.get(0).unwrap());
    assert_eq!(&0x00, stream.get(1).unwrap());
}

#[test]
fn null_bad_length_rejected() {
    assert_eq!(
        Null::der_from_bytes(vec![0x05, 0x01, 0x00]),
        Err(DerError::InvalidInput)
    );
    assert_eq!(Null, Null::der_from_bytes(vec![0x05, 0x00]).unwrap());
}

#[test]
fn serialize_sequence() {
    let data = TestStruct {
        alpha: 65535,
        beta: false,
        gamma: "Hello World".to_string(),
    };
    assert_eq!(data, TestStruct::der_from_bytes(data.der_bytes()).unwrap());
}

#[test]
fn sequence_reencode_identical() {
    let data = TestStruct {
        alpha: 65535,
        beta: false,
        gamma: "Hello World".to_string(),
    };
    let first = data.der_bytes();
    let back = TestStruct::der_from_bytes(first.clone()).unwrap();
    assert_eq!(back.der_bytes(), first);
}

#[test]
fn serialize_enumerated() {
    for val in vec![TestEnum::Alpha, TestEnum::Beta, TestEnum::Gamma] {
        assert_eq!(val, TestEnum::der_from_bytes(val.der_bytes()).unwrap());
    }
}

#[test]
fn enumerated_unknown_discriminant_rejected() {
    // an ENUMERATED frame holding the INTEGER 6, which no variant carries
    let data = vec![0x0A, 0x03, 0x02, 0x01, 0x06];
    assert_eq!(TestEnum::der_from_bytes(data), Err(DerError::InvalidInput));
}

#[test]
fn command_round_trips() {
    for cmd in vec![
        Command::Start(Null),
        Command::Forward(12),
        Command::Rotate(2),
        Command::Stop(Null),
    ] {
        let encoded = cmd.der_bytes();
        let decoded = Command::der_from_bytes(encoded).unwrap();
        assert_eq!(cmd, decoded);
    }
}

#[test]
fn command_exact_bytes() {
    assert_eq!(
        Command::Forward(12).der_bytes(),
        vec![0x20, 0x03, 0x81, 0x01, 0x0C]
    );
    assert_eq!(Command::Start(Null).der_bytes(), vec![0x20, 0x02, 0x83, 0x00]);
}

#[test]
fn command_unknown_tag_rejected() {
    // context tag 5 inside the CHOICE frame matches no variant
    let data = vec![0x20, 0x02, 0x85, 0x00];
    assert_eq!(Command::der_from_bytes(data), Err(DerError::InvalidInput));
}

#[test]
fn serialize_any() {
    let val = Any::new(31415).unwrap();
    let decoded = Any::der_from_bytes(val.der_bytes()).unwrap();
    assert_eq!(31415, decoded.resolve().unwrap());
}

#[test]
fn sample() {
    let bytes = IA5String::from("FooBar123".to_string()).der_bytes();
    assert_eq!(
        "FooBar123",
        &String::from(IA5String::der_from_bytes(bytes).unwrap())
    );
}

#[test]
fn ia5_string_frame_layout() {
    // IA5String carries universal tag 22
    let bytes = IA5String::from("abc".to_string()).der_bytes();
    assert_eq!(bytes, vec![0x16, 0x03, 0x61, 0x62, 0x63]);
}
