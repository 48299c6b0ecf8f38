use usb_ids::{Catalog, Class, Device, FromId, Protocol, SubClass, Vendor};

const REGISTRY: &str = "#
#\tList of USB ID's
#
# Syntax:
# vendor  vendor_name
#\tdevice  device_name\t\t\t\t<-- single tab
#\t\tinterface  interface_name\t\t<-- two tabs

0001  Fry's Electronics
\t7778  Counterfeit flash drive [Kingston]
1d6b  Linux Foundation
\t0001  1.1 root hub
\t0002  2.0 root hub
\t0003  3.0 root hub
\t0100  PTP Gadget
\t0101  Audio Gadget
\t0104  Multifunction Composite Gadget
ffee  FNK Tech
\t0100  Card Reader Controller RTS5101/RTS5111/RTS5116

# List of known device classes, subclasses and protocols

# Syntax:
# C class  class_name
#\tsubclass  subclass_name\t\t\t<-- single tab
#\t\tprotocol  protocol_name\t\t<-- two tabs

C 00  (Defined at Interface level)
C 01  Audio
\t01  Control Device
\t02  Streaming
\t03  MIDI Streaming
C 03  Human Interface Device
\t00  No Subclass
\t\t00  None
\t\t01  Keyboard
\t\t02  Mouse
\t01  Boot Interface Subclass
\t\t00  None
\t\t01  Keyboard
\t\t02  Mouse
C 07  Printer
\t00  Unknown
\t01  Printer
\t\t00  Reserved/Undefined
\t\t01  Unidirectional
\t\t02  Bidirectional
\t\t03  IEEE 1284.4 compatible bidirectional
\t\tff  Vendor Specific
C ff  Vendor Specific Class
\tff  Vendor Specific Subclass
\t\tff  Vendor Specific Protocol

# List of Audio Class Terminal Types

# Syntax:
# AT terminal_type  terminal_type_name

AT 0100  USB Undefined
AT 0101  USB streaming
";

fn catalog() -> Catalog {
    Catalog::build(REGISTRY.as_bytes()).unwrap()
}

#[test]
fn test_from_id() {
    let cat = catalog();
    let vendor = Vendor::from_id(&cat, 0x1d6b).unwrap();

    assert_eq!(vendor.name(), "Linux Foundation");
    assert_eq!(vendor.id(), 0x1d6b);
}

#[test]
fn test_vendor_devices() {
    let cat = catalog();
    let vendor = Vendor::from_id(&cat, 0x1d6b).unwrap();

    for device in vendor.devices() {
        assert_eq!(device.vendor(&cat), vendor);
        assert!(!device.name().is_empty());
    }
}

#[test]
fn test_from_vid_pid() {
    let cat = catalog();
    let device = Device::from_vid_pid(&cat, 0x1d6b, 0x0003).unwrap();

    assert_eq!(device.name(), "3.0 root hub");

    let (vid, pid) = device.as_vid_pid();

    assert_eq!(vid, device.vendor(&cat).id());
    assert_eq!(pid, device.id());

    let device2 = Device::from_vid_pid(&cat, vid, pid).unwrap();

    assert_eq!(device, device2);

    let last_device = Device::from_vid_pid(&cat, 0xffee, 0x0100).unwrap();
    assert_eq!(last_device.name(), "Card Reader Controller RTS5101/RTS5111/RTS5116");
}

#[test]
fn test_class_from_id() {
    let cat = catalog();
    let class = Class::from_id(&cat, 0x03).unwrap();

    assert_eq!(class.name(), "Human Interface Device");
    assert_eq!(class.id(), 0x03);
}

#[test]
fn test_subclass_from_cid_scid() {
    let cat = catalog();
    let subclass = SubClass::from_cid_scid(&cat, 0x03, 0x01).unwrap();

    assert_eq!(subclass.name(), "Boot Interface Subclass");
    assert_eq!(subclass.id(), 0x01);
}

#[test]
fn test_protocol_from_cid_scid_pid() {
    let cat = catalog();
    let protocol = Protocol::from_cid_scid_pid(&cat, 0x03, 0x01, 0x01).unwrap();

    assert_eq!(protocol.name(), "Keyboard");
    assert_eq!(protocol.id(), 0x01);

    let protocol = Protocol::from_cid_scid_pid(&cat, 0x07, 0x01, 0x03).unwrap();

    assert_eq!(protocol.name(), "IEEE 1284.4 compatible bidirectional");
    assert_eq!(protocol.id(), 0x03);

    let protocol = Protocol::from_cid_scid_pid(&cat, 0xff, 0xff, 0xff).unwrap();

    // the last entity line of the registry
    assert_eq!(protocol.name(), "Vendor Specific Protocol");
    assert_eq!(protocol.id(), 0xff);
}

#[test]
fn lookups_miss_without_failing() {
    let cat = catalog();
    assert!(Vendor::from_id(&cat, 0x1234).is_none());
    assert!(Device::from_vid_pid(&cat, 0x1234, 0x0001).is_none());
    assert!(Device::from_vid_pid(&cat, 0x1d6b, 0x0004).is_none());
    assert!(Class::from_id(&cat, 0x02).is_none());
    assert!(SubClass::from_cid_scid(&cat, 0x03, 0x02).is_none());
    assert!(SubClass::from_cid_scid(&cat, 0x02, 0x01).is_none());
    assert!(Protocol::from_cid_scid_pid(&cat, 0x03, 0x01, 0x03).is_none());
    assert!(Protocol::from_cid_scid_pid(&cat, 0x01, 0x01, 0x00).is_none());
}

#[test]
fn every_listed_id_is_found_under_itself() {
    let cat = catalog();
    for id in [0x0001u16, 0x1d6b, 0xffee] {
        assert_eq!(Vendor::from_id(&cat, id).unwrap().id(), id);
    }
    for id in [0x00u8, 0x01, 0x03, 0x07, 0xff] {
        assert_eq!(Class::from_id(&cat, id).unwrap().id(), id);
    }
}

#[test]
fn subclass_and_class_refer_to_each_other() {
    let cat = catalog();
    let class = Class::from_id(&cat, 0x07).unwrap();
    assert_eq!(class.sub_classes().len(), 2);
    for sub in class.sub_classes() {
        assert_eq!(sub.class(&cat), class);
        assert_eq!(sub.as_cid_scid(), (0x07, sub.id()));
    }
    let printer = SubClass::from_cid_scid(&cat, 0x07, 0x01).unwrap();
    let ids: Vec<u8> = printer.protocols().iter().map(|p| p.id()).collect();
    assert_eq!(ids, vec![0x00, 0x01, 0x02, 0x03, 0xff]);
}

#[test]
fn protocol_found_only_under_its_subclass() {
    let cat = catalog();
    let sub = SubClass::from_cid_scid(&cat, 0x01, 0x02).unwrap();
    assert_eq!(sub.name(), "Streaming");
    assert!(sub.protocols().is_empty());
    assert!(Protocol::from_cid_scid_pid(&cat, 0x01, 0x02, 0x00).is_none());
    let none = Protocol::from_cid_scid_pid(&cat, 0x03, 0x00, 0x00).unwrap();
    assert_eq!(none.name(), "None");
}

#[test]
fn devices_keep_registry_order() {
    let cat = catalog();
    let vendor = Vendor::from_id(&cat, 0x1d6b).unwrap();
    let ids: Vec<u16> = vendor.devices().iter().map(|d| d.id()).collect();
    assert_eq!(ids, vec![0x0001, 0x0002, 0x0003, 0x0100, 0x0101, 0x0104]);
}
