use exif_ffi_core::interface::ErrorCodes;
use exif_ffi_core::EXIF_free;
use exif_ffi_core::EXIF_get_some_string;
use exif_ffi_core::EXIF_is_little_endian;
use exif_ffi_core::EXIF_load;
use exif_ffi_core::EXIF_query_attribute_pairs;

/// A minimal little-endian TIFF: one IFD with one orientation field set to 1.
fn orientation_sample_le() -> Vec<u8> {
    vec![
        0x49, 0x49, 0x2A, 0x00, // "II", 42
        0x08, 0x00, 0x00, 0x00, // first IFD at offset 8
        0x01, 0x00, // one entry
        0x12, 0x01, // tag 0x0112: orientation
        0x03, 0x00, // type: SHORT
        0x01, 0x00, 0x00, 0x00, // one value
        0x01, 0x00, 0x00, 0x00, // value 1
        0x00, 0x00, 0x00, 0x00, // no next IFD
    ]
}

/// The same field in big-endian byte order.
fn orientation_sample_be() -> Vec<u8> {
    vec![
        0x4D, 0x4D, 0x00, 0x2A, // "MM", 42
        0x00, 0x00, 0x00, 0x08, // first IFD at offset 8
        0x00, 0x01, // one entry
        0x01, 0x12, // tag 0x0112: orientation
        0x00, 0x03, // type: SHORT
        0x00, 0x00, 0x00, 0x01, // one value
        0x00, 0x01, 0x00, 0x00, // value 1
        0x00, 0x00, 0x00, 0x00, // no next IFD
    ]
}

#[test]
fn two_fields_two_pairs_in_order() {
    // Image width 2 and orientation 1, in one little-endian IFD.
    let bytes: Vec<u8> = vec![
        0x49, 0x49, 0x2A, 0x00, // "II", 42
        0x08, 0x00, 0x00, 0x00, // first IFD at offset 8
        0x02, 0x00, // two entries
        0x00, 0x01, // tag 0x0100: image width
        0x03, 0x00, // type: SHORT
        0x01, 0x00, 0x00, 0x00, // one value
        0x02, 0x00, 0x00, 0x00, // value 2
        0x12, 0x01, // tag 0x0112: orientation
        0x03, 0x00, // type: SHORT
        0x01, 0x00, 0x00, 0x00, // one value
        0x01, 0x00, 0x00, 0x00, // value 1
        0x00, 0x00, 0x00, 0x00, // no next IFD
    ];
    let mut r = EXIF_load(Some(&bytes[..]));
    assert_eq!(r.error_code, ErrorCodes::Success);

    let mut n: usize = 0;
    assert_eq!(EXIF_query_attribute_pairs(&mut r.data, &mut n), ErrorCodes::Success);
    assert_eq!(n, 2);

    let scope = r.data.to_exif_scope().ok().unwrap();
    let first = scope.pair_at(0);
    let second = scope.pair_at(1);
    assert_eq!(scope.string_at(first.key).as_slice(), b"0.ImageWidth\0");
    assert_eq!(scope.string_at(first.value).as_slice(), b"2 pixels\0");
    assert_eq!(scope.string_at(second.key).as_slice(), b"0.Orientation\0");
    assert_eq!(EXIF_free(r.data), ErrorCodes::Success);
}

#[test]
fn load_null_returns_nullptr() {
    let r = EXIF_load(None);
    assert_eq!(r.error_code, ErrorCodes::Nullptr);
    assert!(r.data.is_null());
}

#[test]
fn load_empty_buffer_parse_error() {
    let r = EXIF_load(Some(&[]));
    assert_eq!(r.error_code, ErrorCodes::ParseError);
    assert!(r.data.is_null());
}

#[test]
fn load_truncated_parse_error() {
    // A valid TIFF header whose metadata block breaks off inside the IFD.
    let bytes: Vec<u8> = vec![0x49, 0x49, 0x2A, 0x00, 0x08, 0x00, 0x00, 0x00, 0x02];
    let r = EXIF_load(Some(&bytes[..]));
    assert_eq!(r.error_code, ErrorCodes::ParseError);
    assert!(r.data.is_null());
}

#[test]
fn load_orientation_sample() {
    let bytes = orientation_sample_le();
    let mut r = EXIF_load(Some(&bytes[..]));
    assert_eq!(r.error_code, ErrorCodes::Success);
    assert!(!r.data.is_null());

    let mut little_endian = false;
    assert_eq!(EXIF_is_little_endian(&r.data, &mut little_endian), ErrorCodes::Success);
    assert!(little_endian);

    let mut n: usize = 0;
    assert_eq!(EXIF_query_attribute_pairs(&mut r.data, &mut n), ErrorCodes::Success);
    assert_eq!(n, 1);

    let scope = r.data.to_exif_scope().ok().unwrap();
    let pair = scope.pair_at(0);
    assert_eq!(scope.string_at(pair.key).as_slice(), b"0.Orientation\0");
    let value = scope.string_at(pair.value).as_slice();
    assert_eq!(value[value.len() - 1], 0);
    // The decoder formats orientation 1 descriptively.
    assert_eq!(value, b"row 0 at top and column 0 at left\0");

    assert_eq!(EXIF_free(r.data), ErrorCodes::Success);
}

#[test]
fn big_endian_sample_reports_false() {
    let bytes = orientation_sample_be();
    let r = EXIF_load(Some(&bytes[..]));
    assert_eq!(r.error_code, ErrorCodes::Success);
    let mut little_endian = true;
    assert_eq!(EXIF_is_little_endian(&r.data, &mut little_endian), ErrorCodes::Success);
    assert!(!little_endian);
    assert_eq!(EXIF_free(r.data), ErrorCodes::Success);
}

#[test]
fn byte_order_stable_across_queries() {
    let bytes = orientation_sample_le();
    let r = EXIF_load(Some(&bytes[..]));
    assert_eq!(r.error_code, ErrorCodes::Success);
    let mut first = false;
    let mut second = true;
    assert_eq!(EXIF_is_little_endian(&r.data, &mut first), ErrorCodes::Success);
    assert_eq!(EXIF_is_little_endian(&r.data, &mut second), ErrorCodes::Success);
    assert_eq!(first, second);
    assert_eq!(EXIF_free(r.data), ErrorCodes::Success);
}

#[test]
fn query_pairs_twice_equal() {
    let bytes = orientation_sample_le();
    let mut r = EXIF_load(Some(&bytes[..]));
    assert_eq!(r.error_code, ErrorCodes::Success);

    let mut n1: usize = 0;
    assert_eq!(EXIF_query_attribute_pairs(&mut r.data, &mut n1), ErrorCodes::Success);
    let mut first: Vec<(Vec<u8>, Vec<u8>)> = Vec::new();
    {
        let scope = r.data.to_exif_scope().ok().unwrap();
        for i in 0..scope.num_pairs() {
            let p = scope.pair_at(i);
            first.push((scope.string_at(p.key).clone(), scope.string_at(p.value).clone()));
        }
    }

    let mut n2: usize = 0;
    assert_eq!(EXIF_query_attribute_pairs(&mut r.data, &mut n2), ErrorCodes::Success);
    assert_eq!(n1, n2);
    let scope = r.data.to_exif_scope().ok().unwrap();
    assert_eq!(scope.num_pairs(), first.len());
    for i in 0..scope.num_pairs() {
        let p = scope.pair_at(i);
        assert_eq!(scope.string_at(p.key), &first[i].0);
        assert_eq!(scope.string_at(p.value), &first[i].1);
    }
    assert_eq!(EXIF_free(r.data), ErrorCodes::Success);
}

#[test]
fn strings_stay_valid_after_further_appends() {
    let bytes = orientation_sample_le();
    let mut r = EXIF_load(Some(&bytes[..]));
    assert_eq!(r.error_code, ErrorCodes::Success);

    let mut idx: usize = 0;
    assert_eq!(EXIF_get_some_string(&mut r.data, &mut idx), ErrorCodes::Success);
    let before = r.data.to_exif_scope().ok().unwrap().string_at(idx).clone();

    // A pair query appends more derived strings; the issued one must not move.
    let mut n: usize = 0;
    assert_eq!(EXIF_query_attribute_pairs(&mut r.data, &mut n), ErrorCodes::Success);
    let after = r.data.to_exif_scope().ok().unwrap().string_at(idx).clone();
    assert_eq!(before, after);
    assert_eq!(EXIF_free(r.data), ErrorCodes::Success);
}

#[test]
fn get_some_string_hello() {
    let bytes = orientation_sample_le();
    let mut r = EXIF_load(Some(&bytes[..]));
    assert_eq!(r.error_code, ErrorCodes::Success);
    let mut idx: usize = 0;
    assert_eq!(EXIF_get_some_string(&mut r.data, &mut idx), ErrorCodes::Success);
    let scope = r.data.to_exif_scope().ok().unwrap();
    assert_eq!(scope.string_at(idx).as_slice(), b"Hello World\0");
    assert_eq!(EXIF_free(r.data), ErrorCodes::Success);
}

#[test]
fn get_some_string_null_handle() {
    let mut r = EXIF_load(None);
    let mut idx: usize = 7;
    assert_eq!(EXIF_get_some_string(&mut r.data, &mut idx), ErrorCodes::Nullptr);
    assert_eq!(idx, 7);
}

#[test]
fn query_pairs_null_handle() {
    let mut r = EXIF_load(None);
    let mut n: usize = 3;
    assert_eq!(EXIF_query_attribute_pairs(&mut r.data, &mut n), ErrorCodes::Nullptr);
    assert_eq!(n, 3);
}

#[test]
fn byte_order_null_handle() {
    let r = EXIF_load(None);
    let mut flag = true;
    assert_eq!(EXIF_is_little_endian(&r.data, &mut flag), ErrorCodes::Nullptr);
    assert!(flag);
}

#[test]
fn free_null_nullptr() {
    let r = EXIF_load(None);
    assert_eq!(EXIF_free(r.data), ErrorCodes::Nullptr);
}

#[test]
fn free_bound_success() {
    let bytes = orientation_sample_le();
    let r = EXIF_load(Some(&bytes[..]));
    assert_eq!(r.error_code, ErrorCodes::Success);
    assert_eq!(EXIF_free(r.data), ErrorCodes::Success);
}
