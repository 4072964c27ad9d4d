use quad_gamepad::guid::derive_guid;
use quad_gamepad::guid::GUID_LEN;

#[test]
fn primary_rule_layout() {
    // bus 3, vendor 0x045e, product 0x028e, version 0x0110: each field as a
    // little-endian hex pair followed by four zeros
    let g = derive_guid(0x0003, 0x045e, 0x028e, 0x0110, b"Controller");
    assert_eq!(g, b"030000005e0400008e02000010010000".to_vec());
    assert_eq!(g.len(), GUID_LEN);
}

#[test]
fn deterministic_for_identical_inputs() {
    let a = derive_guid(3, 0x045e, 0x028e, 0x0110, b"Controller");
    let b = derive_guid(3, 0x045e, 0x028e, 0x0110, b"Controller");
    assert_eq!(a, b);
}

#[test]
fn changing_any_field_changes_the_guid() {
    let base = derive_guid(3, 0x045e, 0x028e, 0x0110, b"pad");
    assert_ne!(base, derive_guid(4, 0x045e, 0x028e, 0x0110, b"pad"));
    assert_ne!(base, derive_guid(3, 0x045f, 0x028e, 0x0110, b"pad"));
    assert_ne!(base, derive_guid(3, 0x045e, 0x028f, 0x0110, b"pad"));
    assert_ne!(base, derive_guid(3, 0x045e, 0x028e, 0x0111, b"pad"));
}

#[test]
fn zero_vendor_takes_name_fallback() {
    // bus pair, four zeros, eleven name bytes (zero-padded), two zeros
    let g = derive_guid(0x0003, 0, 0x028e, 0x0110, b"abc");
    assert_eq!(g, b"03000000616263000000000000000000".to_vec());
}

#[test]
fn zero_product_and_version_take_name_fallback() {
    let with_zero_product = derive_guid(3, 0x045e, 0, 0x0110, b"abc");
    let with_zero_version = derive_guid(3, 0x045e, 0x028e, 0, b"abc");
    assert_eq!(with_zero_product, with_zero_version);
    assert_eq!(with_zero_product, derive_guid(3, 0, 0, 0, b"abc"));
}

#[test]
fn fallback_never_fails_on_short_names() {
    // shorter than eleven bytes, empty included: missing bytes read as zero
    let empty = derive_guid(3, 0, 0, 0, b"");
    assert_eq!(empty.len(), GUID_LEN);
    assert_eq!(empty, b"03000000000000000000000000000000".to_vec());
    let one = derive_guid(3, 0, 0, 0, b"a");
    assert_eq!(one, b"03000000610000000000000000000000".to_vec());
}

#[test]
fn fallback_uses_first_eleven_name_bytes() {
    let long = derive_guid(3, 0, 0, 0, b"abcdefghijklmnop");
    assert_eq!(long, b"030000006162636465666768696a6b00".to_vec());
}
