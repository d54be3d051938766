use eagre_asn1::der::{
    der_decode_length_bytes, der_decode_tag_bytes, der_encode_length_bytes, der_encode_tag_bytes,
    Class, ContentType, DerError, Intermediate, DER,
};

#[test]
fn decode_tag_bytes() {
    for i in 0..32000u32 {
        let mut stream: Vec<u8> = Vec::new();
        der_encode_tag_bytes(i, Class::Private, ContentType::Constructed, &mut stream);
        let (_, tg, _, _) = der_decode_tag_bytes(&stream, 0).unwrap();
        assert_eq!(tg, i);
    }
}

#[test]
fn decode_invalid_tag_0xff() {
    let stream: Vec<u8> = vec![0xff];
    if let Ok(_) = der_decode_tag_bytes(&stream, 0) {
        panic!("This is illegal!");
    }
}

#[test]
fn encode_length_short() {
    for i in 0..128usize {
        let mut stream: Vec<u8> = Vec::new();
        der_encode_length_bytes(i, &mut stream);
        assert_eq!(stream.get(0).unwrap().clone(), i as u8);
    }
}

#[test]
fn encode_length_long() {
    for i in 128..256usize {
        let mut stream: Vec<u8> = Vec::new();
        der_encode_length_bytes(i, &mut stream);
        assert_eq!(stream.get(0).unwrap().clone(), 0b10000001);
        assert_eq!(stream.get(1).unwrap().clone(), i as u8);
    }
}

#[test]
fn encode_length_long_long_no_crash() {
    let mut stream: Vec<u8> = Vec::new();
    der_encode_length_bytes(usize::MAX, &mut stream);
}

#[test]
fn decode_length() {
    for i in 0..32000usize {
        let mut stream: Vec<u8> = Vec::new();
        der_encode_length_bytes(i, &mut stream);
        let (_, res) = der_decode_length_bytes(&stream, 0).unwrap();
        assert_eq!(i, res);
    }
}

#[test]
fn serialize_bool() {
    assert_eq!(true, bool::der_from_bytes(true.der_bytes()).unwrap());
    assert_eq!(false, bool::der_from_bytes(false.der_bytes()).unwrap());
}

#[test]
fn serialize_i32() {
    for i in vec![i32::MAX, 65535, 8, 1, 0, -1, -8, -65535, -i32::MAX] {
        assert_eq!(i, i32::der_from_bytes(i.der_bytes()).unwrap());
    }
}

#[test]
fn i32_no_panic_but_err() {
    // a very big integer
    let data = vec![0x02, 0x07, 0x00, 0xFF, 0xFF, 0xFF, 0xFF, 0xFF, 0xFF];
    if let Ok(_) = i32::der_from_bytes(data) {
        panic!("Decoded too big Integer");
    }
}

#[test]
fn serialize_string() {
    assert_eq!(
        "ThisIsATestWithUtf8: ∅ ".to_string(),
        String::der_from_bytes("ThisIsATestWithUtf8: ∅ ".to_string().der_bytes()).unwrap()
    );
}

#[test]
fn serialize_sequence_of() {
    let vec = vec![
        "I".to_string(),
        "am".to_string(),
        "the".to_string(),
        "master!".to_string(),
    ];
    let ret = Vec::<String>::der_from_bytes(vec.der_bytes()).unwrap();
    for i in 0..vec.len() {
        assert_eq!(vec.get(i).unwrap().to_string(), ret.get(i).unwrap().clone());
    }
}

#[test]
fn serialize_octet_string() {
    let vec = vec![1 as u8, 2 as u8, 3 as u8, 4 as u8, 5 as u8];
    let ret = Vec::<u8>::der_from_bytes(vec.der_bytes()).unwrap();
    for i in 0..vec.len() {
        assert_eq!(vec.get(i).unwrap().clone(), ret.get(i).unwrap().clone());
    }
}

#[test]
fn test_explicit_tagging() {
    let i = 1234.der_intermediate();
    let mut data: Vec<u8> = Vec::new();
    i.encode_explicit(42, Class::Private, &mut data);
    let (_, tag, class, intermediate) = Intermediate::decode_explicit(&data, 0).unwrap();
    assert_eq!(tag, 42);
    assert_eq!(class, Class::Private);
    assert_eq!(1234, i32::der_from_intermediate(intermediate).unwrap());
}

#[test]
fn boolean_exact_bytes() {
    assert_eq!(true.der_bytes(), vec![0x01, 0x01, 0xFF]);
    assert_eq!(false.der_bytes(), vec![0x01, 0x01, 0x00]);
    assert_eq!(true, bool::der_from_bytes(vec![0x01, 0x01, 0xFF]).unwrap());
    // decoding is lenient: any nonzero content octet is true
    assert_eq!(true, bool::der_from_bytes(vec![0x01, 0x01, 0x01]).unwrap());
}

#[test]
fn integer_exact_bytes() {
    assert_eq!(65535.der_bytes(), vec![0x02, 0x03, 0x00, 0xFF, 0xFF]);
    assert_eq!(65535, i32::der_from_bytes(vec![0x02, 0x03, 0x00, 0xFF, 0xFF]).unwrap());
    assert_eq!((-1).der_bytes(), vec![0x02, 0x01, 0xFF]);
    assert_eq!(128.der_bytes(), vec![0x02, 0x02, 0x00, 0x80]);
}

#[test]
fn integer_negative_vectors() {
    assert_eq!((-128).der_bytes(), vec![0x02, 0x01, 0x80]);
    assert_eq!((-129).der_bytes(), vec![0x02, 0x02, 0xFF, 0x7F]);
    assert_eq!((-32768).der_bytes(), vec![0x02, 0x02, 0x80, 0x00]);
    assert_eq!((-32769).der_bytes(), vec![0x02, 0x03, 0xFF, 0x7F, 0xFF]);
    assert_eq!(i32::MIN.der_bytes(), vec![0x02, 0x04, 0x80, 0x00, 0x00, 0x00]);
    for i in vec![-128, -129, -32768, -32769, i32::MIN] {
        assert_eq!(i, i32::der_from_bytes(i.der_bytes()).unwrap());
    }
}

#[test]
fn integer_zero_content_rejected() {
    assert_eq!(
        i32::der_from_bytes(vec![0x02, 0x00]),
        Err(DerError::InvalidInput)
    );
}

#[test]
fn integer_too_wide_rejected() {
    assert_eq!(
        i32::der_from_bytes(vec![0x02, 0x05, 0x01, 0x01, 0x01, 0x01, 0x01]),
        Err(DerError::InvalidInput)
    );
}

#[test]
fn boolean_bad_length_rejected() {
    assert_eq!(
        bool::der_from_bytes(vec![0x01, 0x02, 0xFF, 0xFF]),
        Err(DerError::InvalidInput)
    );
    assert_eq!(
        bool::der_from_bytes(vec![0x01, 0x00]),
        Err(DerError::InvalidInput)
    );
}

#[test]
fn truncated_content_is_eof() {
    assert_eq!(
        bool::der_from_bytes(vec![0x01, 0x05, 0xFF]),
        Err(DerError::UnexpectedEof)
    );
}

#[test]
fn length_indefinite_rejected() {
    let stream: Vec<u8> = vec![0x80];
    assert_eq!(
        der_decode_length_bytes(&stream, 0),
        Err(DerError::InvalidInput)
    );
}

#[test]
fn length_too_wide_rejected() {
    let stream: Vec<u8> = vec![0x89, 1, 1, 1, 1, 1, 1, 1, 1, 1];
    assert_eq!(
        der_decode_length_bytes(&stream, 0),
        Err(DerError::InvalidInput)
    );
}

#[test]
fn length_boundaries_round_trip() {
    for i in vec![0usize, 127, 128, 255, 256, 65535, 65536, usize::MAX] {
        let mut stream: Vec<u8> = Vec::new();
        der_encode_length_bytes(i, &mut stream);
        let (read, res) = der_decode_length_bytes(&stream, 0).unwrap();
        assert_eq!(read, stream.len());
        assert_eq!(i, res);
    }
}

#[test]
fn tag_boundaries_round_trip() {
    for t in vec![0u32, 30, 31, 127, 128, 16383, 16384, 0x0FFF_FFFF] {
        for class in vec![
            Class::Universal,
            Class::Application,
            Class::ContextSpecific,
            Class::Private,
        ] {
            let mut stream: Vec<u8> = Vec::new();
            der_encode_tag_bytes(t, class, ContentType::Primitive, &mut stream);
            let (read, tag, c, ct) = der_decode_tag_bytes(&stream, 0).unwrap();
            assert_eq!(read, stream.len());
            assert_eq!(tag, t);
            assert_eq!(c, class);
            assert_eq!(ct, ContentType::Primitive);
        }
    }
}

#[test]
fn tag_too_wide_rejected() {
    // 2^28 needs five base-128 groups, more bits than the tag word takes
    let mut stream: Vec<u8> = Vec::new();
    der_encode_tag_bytes(0x1000_0000, Class::Universal, ContentType::Primitive, &mut stream);
    assert_eq!(
        der_decode_tag_bytes(&stream, 0),
        Err(DerError::InvalidInput)
    );
    // a high-tag opener followed by truncation fails the same way
    let cut: Vec<u8> = vec![0x1F, 0x80];
    assert_eq!(der_decode_tag_bytes(&cut, 0), Err(DerError::InvalidInput));
    let five_groups: Vec<u8> = vec![0x1F, 0x81, 0x82, 0x83, 0x84, 0x05];
    assert_eq!(
        der_decode_tag_bytes(&five_groups, 0),
        Err(DerError::InvalidInput)
    );
}

#[test]
fn string_invalid_utf8_rejected() {
    assert_eq!(
        String::der_from_bytes(vec![0x0C, 0x02, 0xC3, 0x28]),
        Err(DerError::InvalidData)
    );
}

#[test]
fn utf8_frame_layout() {
    let text = "ThisIsATestWithUtf8: ∅ ".to_string();
    let bytes = text.der_bytes();
    assert_eq!(bytes[0], 0x0C);
    assert_eq!(bytes[1] as usize, text.as_bytes().len());
    assert_eq!(&bytes[2..], text.as_bytes());
}

#[test]
fn octet_string_exact_bytes() {
    let vec = vec![1u8, 2, 3];
    assert_eq!(vec.der_bytes(), vec![0x04, 0x03, 1, 2, 3]);
}

#[test]
fn sequence_of_keeps_order_and_count() {
    let empty: Vec<i32> = Vec::new();
    assert_eq!(empty.der_bytes(), vec![0x30, 0x00]);
    assert_eq!(Vec::<i32>::der_from_bytes(vec![0x30, 0x00]).unwrap(), empty);
    let items = vec![1, 2, 3, -4];
    let ret = Vec::<i32>::der_from_bytes(items.der_bytes()).unwrap();
    assert_eq!(ret, items);
}

#[test]
fn sequence_of_boundary_overrun_rejected() {
    // the element declares five content octets, but the SEQUENCE OF content
    // ends after one
    let data = vec![0x30, 0x03, 0x02, 0x05, 0x00];
    assert_eq!(Vec::<i32>::der_from_bytes(data), Err(DerError::InvalidInput));
    // an element header cut off at the boundary fails the same way
    let cut = vec![0x30, 0x01, 0x02];
    assert_eq!(Vec::<i32>::der_from_bytes(cut), Err(DerError::InvalidInput));
}

#[test]
fn encoding_is_canonical() {
    let value = 65535;
    assert_eq!(value.der_bytes(), value.der_bytes());
    let s = "twice".to_string();
    assert_eq!(s.der_bytes(), s.der_bytes());
}

#[test]
fn generic_round_trip_helper() {
    let v = vec![10, -20, 300];
    let r: Vec<i32> = eagre_asn1::der::der_round_trip(&v);
    assert_eq!(r, v);
    let s = "round and round".to_string();
    let r2: String = eagre_asn1::der::der_round_trip(&s);
    assert_eq!(r2, s);
}
