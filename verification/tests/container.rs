use exif_ffi_core::interface::ErrorCodes;
use exif_ffi_core::EXIF_free;
use exif_ffi_core::EXIF_load;

/// A minimal little-endian TIFF: one IFD with one orientation field set to 1.
fn orientation_sample_le() -> Vec<u8> {
    vec![
        0x49, 0x49, 0x2A, 0x00, // "II", 42
        0x08, 0x00, 0x00, 0x00, // first IFD at offset 8
        0x01, 0x00, // one entry
        0x12, 0x01, // tag 0x0112: orientation
        0x03, 0x00, // type: SHORT
        0x01, 0x00, 0x00, 0x00, // one value
        0x01, 0x00, 0x00, 0x00, // value 1
        0x00, 0x00, 0x00, 0x00, // no next IFD
    ]
}

#[test]
fn round_trip_pair_strings() {
    let bytes = orientation_sample_le();
    let mut r = EXIF_load(Some(&bytes[..]));
    assert_eq!(r.error_code, ErrorCodes::Success);

    let scope = r.data.to_exif_scope_mut().ok().unwrap();
    assert!(scope.add_key_value_pair(b"maker", b"ACME").is_ok());
    assert_eq!(scope.num_pairs(), 1);
    let p = scope.pair_at(0);
    assert_eq!(scope.string_at(p.key).as_slice(), b"maker\0");
    assert_eq!(scope.string_at(p.value).as_slice(), b"ACME\0");
    assert_eq!(EXIF_free(r.data), ErrorCodes::Success);
}

#[test]
fn add_string_embedded_nul_unknown_error() {
    let bytes = orientation_sample_le();
    let mut r = EXIF_load(Some(&bytes[..]));
    assert_eq!(r.error_code, ErrorCodes::Success);

    let scope = r.data.to_exif_scope_mut().ok().unwrap();
    let before = scope.num_pairs();
    match scope.add_string(b"bro\0ken") {
        Err(code) => assert_eq!(code, ErrorCodes::UnknownError),
        Ok(_) => panic!("an embedded terminator must be rejected"),
    }
    assert_eq!(scope.num_pairs(), before);

    // A clean text is still accepted afterwards.
    let idx = scope.add_string(b"fine").ok().unwrap();
    assert_eq!(scope.string_at(idx).as_slice(), b"fine\0");
    assert_eq!(EXIF_free(r.data), ErrorCodes::Success);
}

#[test]
fn add_pair_no_rollback_on_bad_value() {
    let bytes = orientation_sample_le();
    let mut r = EXIF_load(Some(&bytes[..]));
    assert_eq!(r.error_code, ErrorCodes::Success);

    let scope = r.data.to_exif_scope_mut().ok().unwrap();
    let key_idx = {
        match scope.add_key_value_pair(b"key", b"bad\0value") {
            Err(code) => assert_eq!(code, ErrorCodes::UnknownError),
            Ok(_) => panic!("an embedded terminator must be rejected"),
        }
        // The key string went in before the failure and stays owned.
        0
    };
    assert_eq!(scope.num_pairs(), 0);
    assert_eq!(scope.string_at(key_idx).as_slice(), b"key\0");
    assert_eq!(EXIF_free(r.data), ErrorCodes::Success);
}
