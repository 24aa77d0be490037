use brainsick::stdlib::conversion::c_bool;
use brainsick::stdlib::interaction::signatures;
use brainsick::ty::types::{Boolean, Integer, Long, String as VbString, Variant};

fn c_bool_of(v: Variant) -> bool {
    match c_bool(v) {
        Ok(b) => b.value(),
        Err(_) => panic!("c_bool never fails"),
    }
}

#[test]
fn c_bool_of_booleans_is_themselves() {
    assert!(c_bool_of(Variant::Boolean(Boolean::true_())));
    assert!(!c_bool_of(Variant::Boolean(Boolean::false_())));
}

#[test]
fn c_bool_of_numbers_is_true_unless_zero() {
    assert!(!c_bool_of(Variant::Integer(Integer::new(0))));
    assert!(c_bool_of(Variant::Integer(Integer::new(-1))));
    assert!(c_bool_of(Variant::Integer(Integer::new(i16::MAX))));
    assert!(!c_bool_of(Variant::Long(Long::new(0))));
    assert!(c_bool_of(Variant::Long(Long::new(70000))));
    assert!(c_bool_of(Variant::Long(Long::new(i32::MIN))));
}

#[test]
fn zero_tests() {
    assert!(Integer::new(0).is_zero());
    assert!(!Integer::new(3).is_zero());
    assert!(Long::new(0).is_zero());
    assert!(!Long::new(-3).is_zero());
}

#[test]
fn strings_are_utf16() {
    let s = VbString::from_str("Hé😀");
    assert_eq!(s.as_slice(), &[0x48, 0xe9, 0xd83d, 0xde00]);
    assert_eq!(s.to_rust_string_lossy(), "Hé😀");
}

#[test]
fn lossy_conversion_stops_at_nul_and_replaces_lone_surrogates() {
    let s = VbString::from_units(vec![0x48, 0x69, 0, 0x41]);
    assert_eq!(s.to_rust_string_lossy(), "Hi");
    let s = VbString::from_units(vec![0x41, 0xd800, 0x42, 0xdc00]);
    assert_eq!(s.to_rust_string_lossy(), "A\u{fffd}B\u{fffd}");
    let s = VbString::from_units(vec![]);
    assert_eq!(s.to_rust_string_lossy(), "");
}

#[test]
fn msg_box_signature() {
    let sigs = signatures();
    assert_eq!(sigs.len(), 1);
    assert_eq!(sigs[0].name, "MsgBox");
    assert_eq!(sigs[0].ret_ty, None);
    assert_eq!(sigs[0].params.len(), 1);
    assert!(!sigs[0].params[0].optional);
    assert_eq!(sigs[0].params[0].name, "Prompt");
    assert_eq!(sigs[0].params[0].ty, None);
    assert_eq!(sigs[0].params[0].default_val, None);
}
