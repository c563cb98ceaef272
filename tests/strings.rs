use usbgen::usb::{UsbString, UsbStringAllocator};

#[test]
fn intern_same_literal_twice_gives_same_index() {
    let mut table = UsbStringAllocator::new();
    let a = table.intern(&UsbString::Const(String::from("ACME")));
    let b = table.intern(&UsbString::Const(String::from("ACME")));
    assert_eq!(a, 1);
    assert_eq!(a, b);
    assert_eq!(table.into_inner().len(), 2);
}

#[test]
fn intern_unset_is_always_zero() {
    let mut table = UsbStringAllocator::new();
    assert_eq!(table.intern(&UsbString::Unset), 0);
    table.intern(&UsbString::Const(String::from("x")));
    assert_eq!(table.intern(&UsbString::Unset), 0);
    assert_eq!(table.intern(&UsbString::Unset), 0);
    assert_eq!(table.into_inner().len(), 2);
}

#[test]
fn intern_distinct_values_get_next_indices() {
    let mut table = UsbStringAllocator::new();
    assert_eq!(table.intern(&UsbString::Const(String::from("a"))), 1);
    assert_eq!(table.intern(&UsbString::Custom(7)), 2);
    assert_eq!(table.intern(&UsbString::Const(String::from("b"))), 3);
    assert_eq!(table.intern(&UsbString::Custom(7)), 2);
    assert_eq!(table.intern(&UsbString::Custom(8)), 4);
}

#[test]
fn get_index_finds_only_interned_values() {
    let mut table = UsbStringAllocator::new();
    table.intern(&UsbString::Const(String::from("a")));
    assert_eq!(table.get_index(&UsbString::Unset), Some(0));
    assert_eq!(table.get_index(&UsbString::Const(String::from("a"))), Some(1));
    assert_eq!(table.get_index(&UsbString::Const(String::from("b"))), None);
    assert_eq!(table.get_index(&UsbString::Custom(1)), None);
}

#[test]
fn usb_string_equality_compares_values() {
    assert!(UsbString::Const(String::from("a")) == UsbString::Const(String::from("a")));
    assert!(UsbString::Const(String::from("a")) != UsbString::Const(String::from("b")));
    assert!(UsbString::Custom(1) != UsbString::Const(String::from("a")));
    assert!(UsbString::Unset == UsbString::Unset);
    assert!(UsbString::Custom(3).duplicate() == UsbString::Custom(3));
}
