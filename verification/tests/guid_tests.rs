use money_manager::guid::{
    _null_guid, convert_guid_to_sqlite_parameter, convert_guid_to_sqlite_string, convert_string_result_to_guid,
    convert_string_to_guid, guid_eq, Guid,
};

const BYTES: [u8; 16] = [
    0x00, 0x11, 0x22, 0x33, 0x44, 0x55, 0x66, 0x77, 0x88, 0x99, 0xaa, 0xbb, 0xcc, 0xdd, 0xee, 0xff,
];

#[test]
fn guid_becomes_32_lower_case_hex_digits() {
    let g = Guid { bytes: BYTES };
    assert_eq!(convert_guid_to_sqlite_string(&g), "00112233445566778899aabbccddeeff");
}

#[test]
fn guid_sqlite_text_of_another_guid() {
    let g = Guid {
        bytes: [
            0xf7, 0x37, 0xa4, 0x90, 0x4d, 0xac, 0x67, 0x36, 0xc7, 0xd8, 0xfe, 0x7b, 0x76, 0x5e, 0xe3, 0x54,
        ],
    };
    assert_eq!(convert_guid_to_sqlite_string(&g), "f737a4904dac6736c7d8fe7b765ee354");
}

#[test]
fn sqlite_text_reads_back_to_the_same_guid() {
    let g = Guid { bytes: BYTES };
    let text = convert_guid_to_sqlite_string(&g);
    let back = convert_string_to_guid(text).unwrap();
    assert_eq!(back.bytes, BYTES);
}

#[test]
fn upper_case_sqlite_text_reads() {
    let back = convert_string_to_guid(String::from("00112233445566778899AABBCCDDEEFF")).unwrap();
    assert_eq!(back.bytes, BYTES);
}

#[test]
fn hyphenated_text_reads() {
    let back = convert_string_to_guid(String::from("00112233-4455-6677-8899-aabbccddeeff")).unwrap();
    assert_eq!(back.bytes, BYTES);
}

#[test]
fn text_that_is_no_guid_is_refused() {
    assert!(convert_string_to_guid(String::from("not a guid")).is_err());
    assert!(convert_string_to_guid(String::from("zz112233445566778899aabbccddeeff")).is_err());
    assert!(convert_string_to_guid(String::new()).is_err());
    assert!(convert_string_to_guid("€".repeat(32)).is_err());
    assert!(convert_string_to_guid(String::from("xyz")).is_err());
}

#[test]
fn nil_guid_is_all_zero() {
    assert_eq!(_null_guid().bytes, [0u8; 16]);
    assert_eq!(convert_guid_to_sqlite_string(&_null_guid()), "00000000000000000000000000000000");
}

#[test]
fn guids_compare_by_bytes() {
    let a = Guid { bytes: BYTES };
    let mut other = BYTES;
    other[15] = 0xfe;
    let b = Guid { bytes: other };
    assert!(guid_eq(&a, &a));
    assert!(!guid_eq(&a, &b));
}

#[test]
fn null_guid_is_a_null_parameter() {
    assert_eq!(convert_guid_to_sqlite_parameter(&_null_guid()), None);
    assert_eq!(
        convert_guid_to_sqlite_parameter(&Guid { bytes: BYTES }),
        Some(String::from("00112233445566778899aabbccddeeff"))
    );
}

#[test]
fn null_column_reads_as_the_null_guid() {
    assert_eq!(convert_string_result_to_guid(None).bytes, [0u8; 16]);
    assert_eq!(
        convert_string_result_to_guid(Some(String::from("00112233445566778899aabbccddeeff"))).bytes,
        BYTES
    );
}

#[test]
fn sqlite_text_is_written_back_unchanged() {
    for text in ["f737a4904dac6736c7d8fe7b765ee354", "00000000000000000000000000000001", "abcdefabcdefabcdefabcdefabcdef09"] {
        let g = convert_string_to_guid(String::from(text)).unwrap();
        assert_eq!(convert_guid_to_sqlite_string(&g), text);
    }
}
