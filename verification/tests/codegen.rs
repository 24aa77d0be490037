use brainsick::codegen::{greeting_units, object_extension, string_abi, Platform, StringAbi};

#[test]
fn greeting_is_utf16_with_nul() {
    let units = greeting_units();
    let expected: Vec<u16> = "Hello, world!\0".encode_utf16().collect();
    assert_eq!(units, expected);
    assert_eq!(units.len(), 14);
}

#[test]
fn object_extensions() {
    assert_eq!(object_extension(Platform::Windows), "obj");
    assert_eq!(object_extension(Platform::MacOs), "o");
    assert_eq!(object_extension(Platform::Linux), "o");
}

#[test]
fn string_calling_conventions() {
    assert!(matches!(string_abi(Platform::Windows), StringAbi::ThroughPointer));
    assert!(matches!(string_abi(Platform::MacOs), StringAbi::ArrayOfTwoI64));
    assert!(matches!(string_abi(Platform::Linux), StringAbi::StructOfTwoI64));
}
