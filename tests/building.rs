use usb_ids::{
    classify_line, parse_registry, BuildError, Catalog, Class, Classes, Device, FromId, LineKind,
    Protocol, SubClass, Vendor, Vendors,
};

#[test]
fn classify_each_shape() {
    assert_eq!(classify_line(b""), LineKind::Blank);
    assert_eq!(classify_line(b"# comment"), LineKind::Comment);
    assert_eq!(classify_line(b"AT 0100  USB Undefined"), LineKind::TypeMarker);
    assert_eq!(classify_line(b"C 03  Human Interface Device"), LineKind::ClassHeader(0x03));
    assert_eq!(classify_line(b"1d6b  Linux Foundation"), LineKind::Vendor(0x1d6b));
    assert_eq!(classify_line(b"FFEE  FNK Tech"), LineKind::Vendor(0xffee));
    assert_eq!(classify_line(b"\t0003  3.0 root hub"), LineKind::Device(0x0003));
    assert_eq!(classify_line(b"\t01  Boot Interface Subclass"), LineKind::SubClass(0x01));
    assert_eq!(classify_line(b"\t\tff  Vendor Specific Protocol"), LineKind::Nested(0xff));
    assert_eq!(classify_line(b"1d6b Linux Foundation"), LineKind::Unrecognized);
    assert_eq!(classify_line(b"1d6g  Not hex"), LineKind::Unrecognized);
    assert_eq!(classify_line(b"C 3  Short"), LineKind::Unrecognized);
    assert_eq!(classify_line(b"\t\t\t01  Too deep"), LineKind::Unrecognized);
    assert_eq!(classify_line(b" 1d6b  Leading space"), LineKind::Unrecognized);
}

#[test]
fn device_before_any_vendor_aborts() {
    let text = "# header\n\n\t0001  Orphan device\n1d6b  Linux Foundation\n";
    assert_eq!(Catalog::build(text.as_bytes()).err(), Some(BuildError::MissingVendor));
    assert_eq!(parse_registry(text.as_bytes()).err(), Some(BuildError::MissingVendor));
}

#[test]
fn interface_before_any_vendor_aborts() {
    let text = "\t\t00  Orphan interface\n";
    assert_eq!(Catalog::build(text.as_bytes()).err(), Some(BuildError::MissingVendor));
}

#[test]
fn interface_without_its_device_aborts() {
    let text = "1234  Vendor A\n\t0005  Device\n5678  Vendor B\n\t\t00  Interface\n";
    assert_eq!(Catalog::build(text.as_bytes()).err(), Some(BuildError::MissingDevice));
}

#[test]
fn subclass_before_any_class_aborts() {
    // a line that starts with "C " ends the vendor section even when it opens no class
    let text = "1234  Vendor\nC zz  Not a header\n\t01  Orphan subclass\n";
    assert_eq!(Catalog::build(text.as_bytes()).err(), Some(BuildError::MissingClass));
}

#[test]
fn protocol_before_any_class_aborts() {
    let text = "C 3  Short header\n\t\t01  Orphan protocol\n";
    assert_eq!(Catalog::build(text.as_bytes()).err(), Some(BuildError::MissingClass));
}

#[test]
fn protocol_without_its_subclass_aborts() {
    let text = "C 03  HID\n\t01  Boot\nC 04  Other\n\t\t01  Orphan protocol\n";
    assert_eq!(Catalog::build(text.as_bytes()).err(), Some(BuildError::MissingSubClass));
}

#[test]
fn sections_may_end_without_children() {
    let text = "1234  Vendor\n\nC 03  HID\n";
    assert!(Catalog::build(text.as_bytes()).is_ok());
    let text = "1234  Vendor\nAT 0100  Types\n";
    let cat = Catalog::build(text.as_bytes()).unwrap();
    assert_eq!(Vendor::from_id(&cat, 0x1234).unwrap().name(), "Vendor");
    let text = "1234  Vendor\nC 03  HID\n\t01  Boot\n";
    let cat = Catalog::build(text.as_bytes()).unwrap();
    assert_eq!(SubClass::from_cid_scid(&cat, 0x03, 0x01).unwrap().name(), "Boot");
    let (vendors, classes) = parse_registry(b"1234  Vendor\n\n").unwrap();
    assert_eq!(vendors.len(), 1);
    assert!(classes.is_empty());
}

#[test]
fn names_may_hold_any_utf8() {
    let text = "1234  Caf\u{e9} \u{2603}\n";
    let cat = Catalog::build(text.as_bytes()).unwrap();
    assert_eq!(Vendor::from_id(&cat, 0x1234).unwrap().name(), "Caf\u{e9} \u{2603}");
}

#[test]
fn subclass_in_vendor_section_is_skipped() {
    // a tab and two digits is no device line; while vendors are read it is skipped
    let text = "1234  Vendor\n\t01  Not a device\n\t0002  Device\n";
    let cat = Catalog::build(text.as_bytes()).unwrap();
    let vendor = Vendor::from_id(&cat, 0x1234).unwrap();
    assert_eq!(vendor.devices().len(), 1);
    assert_eq!(vendor.devices()[0].id(), 0x0002);
}

#[test]
fn non_utf8_name_aborts() {
    let text: &[u8] = b"1234  Bad \xff name\n";
    assert_eq!(Catalog::build(text).err(), Some(BuildError::InvalidName));
}

#[test]
fn repeated_vendor_id_aborts() {
    let text = "1234  First\n5678  Other\n1234  Second\n";
    assert_eq!(Catalog::build(text.as_bytes()).err(), Some(BuildError::DuplicateVendor(0x1234)));
}

#[test]
fn repeated_class_id_aborts() {
    let text = "C 09  Hub\nC 03  HID\nC 09  Hub again\n";
    assert_eq!(Catalog::build(text.as_bytes()).err(), Some(BuildError::DuplicateClass(0x09)));
}

#[test]
fn interfaces_attach_to_the_last_device() {
    let text = "1234  Vendor\n\t0001  First\n\t\t00  Alpha\n\t0002  Second\n\t\t00  Beta\n\t\t01  Gamma\n";
    let cat = Catalog::build(text.as_bytes()).unwrap();
    let first = Device::from_vid_pid(&cat, 0x1234, 0x0001).unwrap();
    let names: Vec<&str> = first.interfaces().iter().map(|i| i.name()).collect();
    assert_eq!(names, vec!["Alpha"]);
    let second = Device::from_vid_pid(&cat, 0x1234, 0x0002).unwrap();
    let ids: Vec<u8> = second.interfaces().iter().map(|i| i.id()).collect();
    assert_eq!(ids, vec![0x00, 0x01]);
    assert_eq!(second.interfaces()[1].name(), "Gamma");
}

#[test]
fn crlf_line_ends_and_missing_final_newline() {
    let text = "1234  Vendor\r\n\t0001  Device\r\nC 03  HID";
    let cat = Catalog::build(text.as_bytes()).unwrap();
    assert_eq!(Vendor::from_id(&cat, 0x1234).unwrap().name(), "Vendor");
    assert_eq!(Device::from_vid_pid(&cat, 0x1234, 0x0001).unwrap().name(), "Device");
    assert_eq!(Class::from_id(&cat, 0x03).unwrap().name(), "HID");
}

#[test]
fn type_section_ends_reading() {
    let text = "1234  Vendor\nC 03  HID\nAT 0100  USB Undefined\nC 04  Late class\n\t\t01  Ignored\n";
    let cat = Catalog::build(text.as_bytes()).unwrap();
    assert!(Class::from_id(&cat, 0x03).is_some());
    assert!(Class::from_id(&cat, 0x04).is_none());
}

#[test]
fn empty_registry_gives_empty_catalog() {
    let cat = Catalog::build(b"").unwrap();
    assert!(Vendors::iter(&cat).is_empty());
    assert!(Classes::iter(&cat).is_empty());
}

#[test]
fn iteration_lists_every_entity_once() {
    let text = "0002  B\n0001  A\nC ff  Vendor Specific Class\nC 00  Interface level\n";
    let cat = Catalog::build(text.as_bytes()).unwrap();
    let vids: Vec<u16> = Vendors::iter(&cat).iter().map(|v| v.id()).collect();
    assert_eq!(vids, vec![0x0002, 0x0001]);
    let cids: Vec<u8> = Classes::iter(&cat).iter().map(|c| c.id()).collect();
    assert_eq!(cids, vec![0xff, 0x00]);
}

#[test]
fn building_twice_answers_alike() {
    let text = "1d6b  Linux Foundation\n\t0002  2.0 root hub\nC 03  HID\n\t01  Boot\n\t\t02  Mouse\n";
    let a = Catalog::build(text.as_bytes()).unwrap();
    let b = Catalog::build(text.as_bytes()).unwrap();
    assert_eq!(Vendor::from_id(&a, 0x1d6b), Vendor::from_id(&b, 0x1d6b));
    assert_eq!(Device::from_vid_pid(&a, 0x1d6b, 0x0002), Device::from_vid_pid(&b, 0x1d6b, 0x0002));
    assert_eq!(
        Protocol::from_cid_scid_pid(&a, 0x03, 0x01, 0x02),
        Protocol::from_cid_scid_pid(&b, 0x03, 0x01, 0x02)
    );
    assert_eq!(Protocol::from_cid_scid_pid(&a, 0x03, 0x01, 0x02).unwrap().name(), "Mouse");
    assert_eq!(Vendors::iter(&a), Vendors::iter(&b));
    assert_eq!(Classes::iter(&a), Classes::iter(&b));
}

#[test]
fn duplicate_device_ids_resolve_to_the_first() {
    let text = "1234  Vendor\n\t0001  First\n\t0001  Second\n\t\t00  Interface\n";
    let cat = Catalog::build(text.as_bytes()).unwrap();
    let d = Device::from_vid_pid(&cat, 0x1234, 0x0001).unwrap();
    assert_eq!(d.name(), "First");
    assert_eq!(d.interfaces().len(), 1);
}
