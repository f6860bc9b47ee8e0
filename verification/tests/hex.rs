use qqbot::hex::{decode_hex, encode_hex};

#[test]
fn test_decode() {
    let h = decode_hex("04EBCA94D733E399B2DB96EACDD3F69A8BB0F74224E2B44E3357812211D2E62EFBC91BB553098E25E33A799ADC7F76FEB208DA7C6522CDB0719A305180CC54A82E").unwrap();
    assert_eq!(
        h,
        vec![
            4, 235, 202, 148, 215, 51, 227, 153, 178, 219, 150, 234, 205, 211, 246, 154, 139,
            176, 247, 66, 36, 226, 180, 78, 51, 87, 129, 34, 17, 210, 230, 46, 251, 201, 27,
            181, 83, 9, 142, 37, 227, 58, 121, 154, 220, 127, 118, 254, 178, 8, 218, 124, 101,
            34, 205, 176, 113, 154, 48, 81, 128, 204, 84, 168, 46
        ]
    )
}

#[test]
fn test_encode() {
    let h = encode_hex(&[1, 2, 3]);
    assert_eq!(h, String::from("010203"))
}

#[test]
fn decode_hex_accepts_lower_case() {
    assert_eq!(decode_hex("0aff7f").unwrap(), vec![10, 255, 127]);
}

#[test]
fn decode_hex_of_empty_text_is_empty() {
    assert_eq!(decode_hex("").unwrap(), Vec::<u8>::new());
}

#[test]
fn decode_hex_refuses_a_non_hex_pair() {
    assert!(decode_hex("0g").is_err());
}

#[test]
fn encode_hex_writes_lower_case_pairs() {
    assert_eq!(encode_hex(&[0, 171, 255, 16]), "00abff10");
}

#[test]
fn decode_hex_reads_back_encode_hex() {
    let bytes: Vec<u8> = (0u8..=255).collect();
    assert_eq!(decode_hex(&encode_hex(&bytes)).unwrap(), bytes);
}

#[test]
fn parse_i32_reads_decimal_text_as_std_does() {
    for t in ["0", "-0", "+7", "2147483647", "-2147483648", "2147483648", "-2147483649", "", "-", "+", "12a", "99999999999", "007"] {
        assert_eq!(qqbot::text::parse_i32(t), t.parse::<i32>().ok(), "{}", t);
    }
}
