use tdlib_rs::client::unencrypted_message;
use tdlib_rs::objects::base::Double;
use tdlib_rs::objects::base::UnencryptedMessage;
use tdlib_rs::objects::base::I256;
use tdlib_rs::objects::reader::Reader;
use tdlib_rs::objects::traits::Deserialize;
use tdlib_rs::objects::traits::OptDeserialize;
use tdlib_rs::objects::DeserializeError;
use tdlib_rs::objects::traits::Serialize;
use tdlib_rs::objects::traits::TypeId;

#[test]
fn test_type_id() {
    assert_eq!(vec![1].type_id(), 0x1cb5c415);
    assert_eq!(3.type_id(), 0xa8509bda);
}

#[test]
fn test_serialize() {
    assert_eq!((-1).serialize_to_vec(), vec![0xff, 0xff, 0xff, 0xff]);
    assert_eq!(3223235.serialize_to_vec(), vec![0xc3, 0x2e, 0x31, 0x00]);
    assert_eq!(
        Box::new(vec![1, 2, 3]).serialize_to_vec(),
        vec![0x15, 0xc4, 0xb5, 0x1c, 3, 0, 0, 0, 1, 0, 0, 0, 2, 0, 0, 0, 3, 0, 0, 0]
    );
    assert_eq!(1i64.serialize_to_vec(), vec![0x1, 0, 0, 0, 0, 0, 0, 0]);
    assert_eq!(
        0x23456789abi64.serialize_to_vec(),
        vec![0xab, 0x89, 0x67, 0x45, 0x23, 0, 0, 0]
    );
    assert_eq!(
        Double { bits: 3.2f64.to_bits() }.serialize_to_vec(),
        vec![0x9a, 0x99, 0x99, 0x99, 0x99, 0x99, 0x9, 0x40]
    );
    assert_eq!("".serialize_to_vec(), vec![0, 0, 0, 0]);
    assert_eq!(
        "hello".serialize_to_vec(),
        vec![5, 0x68, 0x65, 0x6c, 0x6c, 0x6f, 0, 0]
    );
    let s = String::from("s").repeat(256);
    let mut v = vec![0xfe, 0, 1, 0];
    v.extend_from_slice(s.as_bytes());
    assert_eq!(s.serialize_to_vec(), v);
    let i = I256::from(1);
    let mut v = vec![1];
    v.extend_from_slice(&[0; 31]);
    assert_eq!(i.serialize_to_vec(), v);
    let mut v = vec![1];
    v.extend_from_slice(&[0; 15]);
    assert_eq!(1i128.serialize_to_vec(), v);
    let s: Vec<u8> = vec![1u8, 2, 3];
    assert_eq!(s.len(), 3);
    assert_eq!(s.as_slice().serialize_to_vec(), vec![3, 1, 2, 3]);
}

#[test]
fn test_deserialize() {
    assert_eq!(
        i32::deserialize_from_bytes(&(-1).serialize_to_bytes()).unwrap(),
        -1
    );
    assert_eq!(
        u32::deserialize_from_bytes(&(-1).serialize_to_bytes()).unwrap(),
        0xffffffff
    );
    assert_eq!(
        i64::deserialize_from_bytes(&(2313213i64).serialize_to_bytes()).unwrap(),
        2313213
    );
    assert_eq!(
        f64::from_bits(
            Double::deserialize_from_bytes(
                &Double { bits: 23232f64.to_bits() }.serialize_to_bytes()
            )
            .unwrap()
            .bits
        ),
        23232f64
    );
    assert_eq!(
        String::deserialize_from_bytes(&("hello".serialize_to_bytes())).unwrap(),
        String::from("hello")
    );
    let s = String::from("s").repeat(256);
    assert_eq!(
        String::deserialize_from_bytes(&s.serialize_to_bytes()).unwrap(),
        s
    );
    let cs = bytes::BytesMut::from(&b"s2d"[..]);
    assert_eq!(
        bytes::BytesMut::deserialize_from_bytes(&cs.serialize_to_bytes()).unwrap(),
        cs
    );
    assert_eq!(
        i128::deserialize_from_bytes(&(2313213239210938210391283i128).serialize_to_bytes())
            .unwrap(),
        2313213239210938210391283
    );
    let i = I256::new([1, 2, 3, 4]);
    assert_eq!(
        I256::deserialize_from_bytes(&i.serialize_to_bytes()).unwrap(),
        i
    );
}

#[test]
fn boxed_vector_of_int_is_id_count_items() {
    let bytes = Box::new(vec![1, 2, 3]).serialize_to_vec();
    assert_eq!(&bytes[0..4], &0x1cb5c415u32.to_le_bytes());
    assert_eq!(&bytes[4..8], &3u32.to_le_bytes());
    let mut items = Vec::new();
    for x in [1i32, 2, 3] {
        items.extend_from_slice(&x.serialize_to_vec());
    }
    assert_eq!(&bytes[8..], &items[..]);
}

#[test]
fn int256_limbs_go_out_most_significant_limb_last() {
    let i = I256::new([1, 2, 3, 4]);
    let bytes = i.serialize_to_vec();
    assert_eq!(bytes.len(), 32);
    assert_eq!(&bytes[0..8], &4u64.to_le_bytes());
    assert_eq!(&bytes[8..16], &3u64.to_le_bytes());
    assert_eq!(&bytes[16..24], &2u64.to_le_bytes());
    assert_eq!(&bytes[24..32], &1u64.to_le_bytes());
    assert_eq!(I256::from(u128::MAX), I256::new([0, 0, u64::MAX, u64::MAX]));
    assert_eq!(I256::from(1u128 << 64), I256::new([0, 0, 1, 0]));
}

#[test]
fn byte_string_padding_is_zero_bytes_up_to_a_multiple_of_four() {
    for len in [0usize, 1, 2, 3, 4, 5, 6, 7, 252, 253, 254, 255, 256, 257, 1000] {
        let s = vec![0xabu8; len];
        let bytes = s.as_slice().serialize_to_vec();
        assert_eq!(bytes.len() % 4, 0);
        let header = if len <= 253 { 1 } else { 4 };
        let pad = (4 - (len + header) % 4) % 4;
        assert_eq!(bytes.len(), header + len + pad);
        assert_eq!(&bytes[header..header + len], &s[..]);
        assert!(bytes[header + len..].iter().all(|b| *b == 0));
        if len <= 253 {
            assert_eq!(bytes[0], len as u8);
        } else {
            assert_eq!(bytes[0], 254);
            assert_eq!(&bytes[1..4], &(len as u32).to_le_bytes()[..3]);
        }
    }
}

#[test]
fn byte_string_of_253_and_254_bytes() {
    let s = vec![7u8; 253];
    let bytes = s.as_slice().serialize_to_vec();
    assert_eq!(bytes.len(), 256);
    assert_eq!(bytes[0], 253);
    assert_eq!(&bytes[254..], &[0, 0]);
    let s = vec![7u8; 254];
    let bytes = s.as_slice().serialize_to_vec();
    assert_eq!(bytes.len(), 260);
    assert_eq!(&bytes[0..4], &[254, 254, 0, 0]);
    assert_eq!(&bytes[258..], &[0, 0]);
}

#[test]
fn byte_strings_come_back() {
    for len in [0usize, 1, 3, 4, 253, 254, 300, 70000] {
        let s = bytes::BytesMut::from(&vec![0x5au8; len][..]);
        let got = bytes::BytesMut::deserialize_from_bytes(&s.serialize_to_bytes()).unwrap();
        assert_eq!(got, s);
    }
}

#[test]
fn padding_bytes_are_not_checked_on_input() {
    let got = bytes::BytesMut::deserialize_from_bytes(&[1u8, 42, 0xff, 0xee]).unwrap();
    assert_eq!(&got[..], &[42u8]);
}

#[test]
fn long_header_is_read_for_a_short_string_too() {
    let got = bytes::BytesMut::deserialize_from_bytes(&[254u8, 2, 0, 0, 9, 8, 0, 0]).unwrap();
    assert_eq!(&got[..], &[9u8, 8]);
}

#[test]
fn length_byte_255_is_not_a_string() {
    assert_eq!(
        bytes::BytesMut::deserialize_from_bytes(&[255u8, 0, 0, 0]).unwrap_err(),
        DeserializeError::NotAString
    );
    assert_eq!(
        DeserializeError::NotAString.message(),
        "The data is not a string."
    );
}

#[test]
fn truncated_input_is_an_io_error() {
    assert_eq!(
        i32::deserialize_from_bytes(&[1u8, 2, 3]).unwrap_err(),
        DeserializeError::IoError
    );
    assert_eq!(
        i64::deserialize_from_bytes(&[0u8; 7]).unwrap_err(),
        DeserializeError::IoError
    );
    assert_eq!(
        i128::deserialize_from_bytes(&[0u8; 15]).unwrap_err(),
        DeserializeError::IoError
    );
    assert_eq!(
        I256::deserialize_from_bytes(&[0u8; 31]).unwrap_err(),
        DeserializeError::IoError
    );
    assert_eq!(
        bytes::BytesMut::deserialize_from_bytes(&[]).unwrap_err(),
        DeserializeError::IoError
    );
    assert_eq!(
        bytes::BytesMut::deserialize_from_bytes(&[5u8, 1, 2, 3]).unwrap_err(),
        DeserializeError::IoError
    );
    assert_eq!(
        bytes::BytesMut::deserialize_from_bytes(&[2u8, 1, 2]).unwrap_err(),
        DeserializeError::IoError
    );
    assert_eq!(
        bytes::BytesMut::deserialize_from_bytes(&[254u8, 1, 0]).unwrap_err(),
        DeserializeError::IoError
    );
    assert_eq!(
        Vec::<i32>::deserialize_from_bytes(&[2u8, 0, 0, 0, 1, 0, 0, 0]).unwrap_err(),
        DeserializeError::IoError
    );
}

#[test]
fn string_with_a_zero_byte_is_a_nul_error() {
    assert_eq!(
        String::deserialize_from_bytes(&[3u8, b'a', 0, b'b']).unwrap_err(),
        DeserializeError::NulError
    );
}

#[test]
fn string_that_is_not_utf8_is_a_utf8_error() {
    assert_eq!(
        String::deserialize_from_bytes(&[2u8, 0xc3, 0x28, 0]).unwrap_err(),
        DeserializeError::Utf8Error
    );
    assert_eq!(
        String::deserialize_from_bytes(&[3u8, 0xe2, 0x82, 0xac]).unwrap(),
        "\u{20ac}"
    );
}

#[test]
fn vector_decodes_exactly_its_count() {
    let v: Vec<i64> = vec![10, -20, 30];
    let bytes = v.serialize_to_vec();
    assert_eq!(bytes.len(), 4 + 3 * 8);
    assert_eq!(Vec::<i64>::deserialize_from_bytes(&bytes).unwrap(), v);
    let empty: Vec<i64> = Vec::new();
    assert_eq!(empty.serialize_to_vec(), vec![0, 0, 0, 0]);
    assert_eq!(
        Vec::<i64>::deserialize_from_bytes(&[0u8, 0, 0, 0]).unwrap(),
        empty
    );
    let one: Vec<i32> = vec![7];
    assert_eq!(
        Vec::<i32>::deserialize_from_bytes(&one.serialize_to_vec()).unwrap(),
        one
    );
}

#[test]
fn vector_with_an_inflated_count_fails_without_running_out_of_memory() {
    assert_eq!(
        Vec::<i32>::deserialize_from_bytes(&[0xffu8, 0xff, 0xff, 0xff, 1, 0, 0, 0]).unwrap_err(),
        DeserializeError::IoError
    );
}

#[test]
fn boxed_value_with_another_id_is_no_variant() {
    let bytes = Box::new(5i32).serialize_to_vec();
    assert_eq!(bytes, vec![0xda, 0x9b, 0x50, 0xa8, 5, 0, 0, 0]);
    assert_eq!(
        Box::<i32>::opt_deserialize_from_bytes(&bytes).unwrap(),
        Some(Box::new(5))
    );
    assert_eq!(
        Box::<i64>::opt_deserialize_from_bytes(&bytes).unwrap(),
        None
    );
    assert_eq!(
        Box::<i64>::deserialize_from_bytes(&bytes).unwrap_err(),
        DeserializeError::NoVariant
    );
    assert_eq!(
        DeserializeError::NoVariant.message(),
        "No suitable variant found."
    );
    assert_eq!(
        Box::<i32>::opt_deserialize_from_bytes(&bytes[..6]).unwrap_err(),
        DeserializeError::IoError
    );
}

#[test]
fn constructor_ids_of_the_basic_types() {
    assert_eq!(i32::type_id2(), 0xa8509bda);
    assert_eq!(i64::type_id2(), 0x22076cba);
    assert_eq!(Double::type_id2(), 0x2210c154);
    assert_eq!(String::type_id2(), 0xb5286e24);
    assert_eq!(str::type_id2(), 0xb5286e24);
    assert_eq!(bytes::BytesMut::type_id2(), 0xb5286e24);
    assert_eq!(i128::type_id2(), 0x84ccf7b7);
    assert_eq!(I256::type_id2(), 0x9fcb633e);
    assert_eq!(Vec::<i64>::type_id2(), 0x1cb5c415);
    assert_eq!(1i64.type_id(), 0x22076cba);
}

#[test]
fn integers_at_their_limits_come_back() {
    for x in [i32::MIN, -1, 0, 1, i32::MAX] {
        assert_eq!(i32::deserialize_from_bytes(&x.serialize_to_vec()).unwrap(), x);
        assert_eq!(x.serialize_to_vec(), x.to_le_bytes().to_vec());
    }
    for x in [i64::MIN, -1, 0, 1, i64::MAX] {
        assert_eq!(i64::deserialize_from_bytes(&x.serialize_to_vec()).unwrap(), x);
        assert_eq!(x.serialize_to_vec(), x.to_le_bytes().to_vec());
    }
    for x in [i128::MIN, -1, 0, 1, i128::MAX] {
        assert_eq!(i128::deserialize_from_bytes(&x.serialize_to_vec()).unwrap(), x);
        assert_eq!(x.serialize_to_vec(), x.to_le_bytes().to_vec());
    }
    assert_eq!(
        u32::deserialize_from_bytes(&[0x78u8, 0x56, 0x34, 0x12]).unwrap(),
        0x12345678
    );
}

#[test]
fn a_pair_is_its_fields_one_after_the_other() {
    let pair = (7i32, String::from("ab"));
    let bytes = pair.serialize_to_vec();
    assert_eq!(bytes, vec![7, 0, 0, 0, 2, b'a', b'b', 0]);
    assert_eq!(<(i32, String)>::deserialize_from_bytes(&bytes).unwrap(), pair);
}

#[test]
fn reader_hands_out_bytes_in_order() {
    let data = [1u8, 2, 3, 4, 5];
    let mut reader = Reader::new(&data);
    assert_eq!(reader.available(), 5);
    assert_eq!(reader.read_exact(2).unwrap(), &[1u8, 2]);
    assert_eq!(reader.available(), 3);
    assert_eq!(reader.read_exact(4).unwrap_err(), DeserializeError::IoError);
    assert_eq!(reader.available(), 3);
    assert_eq!(reader.read_exact(3).unwrap(), &[3u8, 4, 5]);
    assert_eq!(reader.read_exact(0).unwrap(), &[] as &[u8]);
}

#[test]
fn unencrypted_message_is_read_from_its_envelope() {
    let bytes = unencrypted_message(0x0102030400000000, &[9, 8, 7]);
    let mut expected = vec![0u8; 8];
    expected.extend_from_slice(&[0, 0, 0, 0, 4, 3, 2, 1]);
    expected.extend_from_slice(&[3, 0, 0, 0, 9, 8, 7]);
    assert_eq!(bytes, expected);
    let message = UnencryptedMessage::deserialize_from_bytes(&bytes).unwrap();
    assert_eq!(message.auth_key_id, 0);
    assert_eq!(message.message_id, 0x0102030400000000);
    assert_eq!(&message.payload[..], &[9u8, 8, 7]);
    assert_eq!(
        UnencryptedMessage::deserialize_from_bytes(&bytes[..22]).unwrap_err(),
        DeserializeError::IoError
    );
    let inner = unencrypted_message(1, &Box::new(77i32).serialize_to_vec());
    let message = UnencryptedMessage::deserialize_from_bytes(&inner).unwrap();
    assert_eq!(
        message.opt_deserialize_payload::<Box<i32>>().unwrap(),
        Some(Box::new(77))
    );
    assert_eq!(message.opt_deserialize_payload::<Box<i64>>().unwrap(), None);
    assert_eq!(
        message.deserialize_payload::<Box<i64>>().unwrap_err(),
        DeserializeError::NoVariant
    );
    assert_eq!(message.deserialize_payload::<u32>().unwrap(), 0xa8509bda);
}
