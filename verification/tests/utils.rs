use las::utils::{as_las_str, as_las_string_lossy, from_las_str};
use las::Error;

#[test]
fn to_good_las_str() {
    let bytes = b"Beer!";
    assert_eq!("Beer!", as_las_str(bytes).unwrap());
}

#[test]
fn to_just_a_zero() {
    let bytes: [u8; 1] = [0];
    assert_eq!("", as_las_str(&bytes).unwrap());
}

#[test]
fn to_not_nul_filled() {
    let bytes: [u8; 3] = [60, 0, 60];
    assert!(as_las_str(&bytes).is_err());
}

#[test]
fn to_not_ascii() {
    let bytes: [u8; 4] = [0xf0, 0x9f, 0x8d, 0xba];
    assert!(as_las_str(&bytes).is_err());
}

#[test]
fn from_good_las_str() {
    let mut bytes = vec![0u8; 5];
    from_las_str(&mut bytes, "Beer!").unwrap();
    assert_eq!(b"Beer!".to_vec(), bytes);
}

#[test]
fn from_too_long() {
    let mut bytes = vec![0u8; 5];
    assert!(from_las_str(&mut bytes, "Beer!!").is_err());
}

#[test]
fn lossy_from_not_null_filled() {
    let bytes: [u8; 5] = [65, 66, 67, 0, 68];
    assert_eq!("ABC", as_las_string_lossy(&bytes));
}

#[test]
fn round_trip_encode_then_decode() {
    let mut bytes = vec![0u8; 5];
    from_las_str(&mut bytes, "Beer!").unwrap();
    assert_eq!("Beer!", as_las_str(&bytes).unwrap());
}

#[test]
fn from_too_long_reports_string_and_capacity() {
    let mut bytes = vec![0u8; 5];
    match from_las_str(&mut bytes, "Beer!!") {
        Err(Error::StringTooLong { string, len }) => {
            assert_eq!("Beer!!", string);
            assert_eq!(5, len);
        }
        other => panic!("expected StringTooLong, got {:?}", other),
    }
    assert_eq!(vec![0u8; 5], bytes);
}

#[test]
fn not_zero_filled_carries_the_bytes() {
    let bytes: [u8; 3] = [60, 0, 60];
    match as_las_str(&bytes) {
        Err(Error::NotZeroFilled(b)) => assert_eq!(vec![60u8, 0, 60], b),
        other => panic!("expected NotZeroFilled, got {:?}", other),
    }
}

#[test]
fn not_ascii_carries_the_candidate_text() {
    let bytes: [u8; 4] = [0xf0, 0x9f, 0x8d, 0xba];
    match as_las_str(&bytes) {
        Err(Error::NotAscii(t)) => assert_eq!("\u{1f37a}", t),
        other => panic!("expected NotAscii, got {:?}", other),
    }
}

#[test]
fn lossy_of_empty_buffer() {
    let bytes: [u8; 0] = [];
    assert_eq!("", as_las_string_lossy(&bytes));
}

#[test]
fn lossy_of_buffer_with_no_zero_byte() {
    let bytes: [u8; 3] = [65, 66, 67];
    assert_eq!("ABC", as_las_string_lossy(&bytes));
}

#[test]
fn lossy_replaces_invalid_bytes() {
    let bytes: [u8; 2] = [0xff, 0xfe];
    assert_eq!("\u{fffd}\u{fffd}", as_las_string_lossy(&bytes));
}

#[test]
fn lossy_of_non_ascii_text() {
    let bytes: [u8; 4] = [0xf0, 0x9f, 0x8d, 0xba];
    assert_eq!("\u{1f37a}", as_las_string_lossy(&bytes));
}

#[test]
fn encode_leaves_trailing_bytes_untouched() {
    let mut bytes = vec![7u8; 5];
    from_las_str(&mut bytes, "ab").unwrap();
    assert_eq!(vec![97u8, 98, 7, 7, 7], bytes);
}

#[test]
fn encode_empty_string_into_empty_buffer() {
    let mut bytes: Vec<u8> = vec![];
    from_las_str(&mut bytes, "").unwrap();
    assert_eq!(Vec::<u8>::new(), bytes);
}
