//! The entities of the catalog and their mathematical models.
//!
//! A child never points at its parent: a device holds its vendor's id and a
//! subclass its class's id, and the parent is found again through the
//! catalog.

use vstd::prelude::*;

verus! {

/// The model of an [`Interface`].
pub struct InterfaceView {
    pub id: u8,
    pub name: Seq<char>,
}

/// The model of a [`Device`].
pub struct DeviceView {
    pub vendor_id: u16,
    pub id: u16,
    pub name: Seq<char>,
    pub interfaces: Seq<InterfaceView>,
}

/// The model of a [`Vendor`].
pub struct VendorView {
    pub id: u16,
    pub name: Seq<char>,
    pub devices: Seq<DeviceView>,
}

/// The model of a [`Protocol`].
pub struct ProtocolView {
    pub id: u8,
    pub name: Seq<char>,
}

/// The model of a [`SubClass`].
pub struct SubClassView {
    pub class_id: u8,
    pub id: u8,
    pub name: Seq<char>,
    pub protocols: Seq<ProtocolView>,
}

/// The model of a [`Class`].
pub struct ClassView {
    pub id: u8,
    pub name: Seq<char>,
    pub sub_classes: Seq<SubClassView>,
}

/// An interface of a device: an id that indexes it on the device, and a name.
#[derive(Debug, PartialEq, Eq)]
pub struct Interface {
    pub(crate) id: u8,
    pub(crate) name: String,
}

/// A device: its vendor's id, its own id, a name and its interfaces.
#[derive(Debug, PartialEq, Eq)]
pub struct Device {
    pub(crate) vendor_id: u16,
    pub(crate) id: u16,
    pub(crate) name: String,
    pub(crate) interfaces: Vec<Interface>,
}

/// A vendor: its id, a name and its devices in registry order.
#[derive(Debug, PartialEq, Eq)]
pub struct Vendor {
    pub(crate) id: u16,
    pub(crate) name: String,
    pub(crate) devices: Vec<Device>,
}

/// A protocol of a subclass: an id and a name.
#[derive(Debug, PartialEq, Eq)]
pub struct Protocol {
    pub(crate) id: u8,
    pub(crate) name: String,
}

/// A subclass: its class's id, its own id, a name and its protocols.
#[derive(Debug, PartialEq, Eq)]
pub struct SubClass {
    pub(crate) class_id: u8,
    pub(crate) id: u8,
    pub(crate) name: String,
    pub(crate) protocols: Vec<Protocol>,
}

/// A device class: its id, a name and its subclasses in registry order.
#[derive(Debug, PartialEq, Eq)]
pub struct Class {
    pub(crate) id: u8,
    pub(crate) name: String,
    pub(crate) sub_classes: Vec<SubClass>,
}

pub open spec fn interface_views(s: Seq<Interface>) -> Seq<InterfaceView> {
    s.map_values(|i: Interface| i@)
}

pub open spec fn device_views(s: Seq<Device>) -> Seq<DeviceView> {
    s.map_values(|d: Device| d@)
}

pub open spec fn vendor_views(s: Seq<Vendor>) -> Seq<VendorView> {
    s.map_values(|v: Vendor| v@)
}

pub open spec fn protocol_views(s: Seq<Protocol>) -> Seq<ProtocolView> {
    s.map_values(|p: Protocol| p@)
}

pub open spec fn sub_class_views(s: Seq<SubClass>) -> Seq<SubClassView> {
    s.map_values(|s: SubClass| s@)
}

pub open spec fn class_views(s: Seq<Class>) -> Seq<ClassView> {
    s.map_values(|c: Class| c@)
}

pub open spec fn device_ids(s: Seq<DeviceView>) -> Seq<u16> {
    s.map_values(|d: DeviceView| d.id)
}

pub open spec fn vendor_ids(s: Seq<VendorView>) -> Seq<u16> {
    s.map_values(|v: VendorView| v.id)
}

pub open spec fn protocol_ids(s: Seq<ProtocolView>) -> Seq<u8> {
    s.map_values(|p: ProtocolView| p.id)
}

pub open spec fn sub_class_ids(s: Seq<SubClassView>) -> Seq<u8> {
    s.map_values(|s: SubClassView| s.id)
}

pub open spec fn class_ids(s: Seq<ClassView>) -> Seq<u8> {
    s.map_values(|c: ClassView| c.id)
}

/// The position of the first `x` in `s` at or after `from`.
pub open spec fn first_index_from<T>(s: Seq<T>, x: T, from: int) -> Option<int>
    decreases s.len() - from,
{
    if from < 0 || from >= s.len() {
        None
    } else if s[from] == x {
        Some(from)
    } else {
        first_index_from(s, x, from + 1)
    }
}

/// A position held in an `Option<usize>`, as an integer.
pub open spec fn position(r: Option<usize>) -> Option<int> {
    match r {
        Some(k) => Some(k as int),
        None => None,
    }
}

/// The position of the first `x` in `s`.
pub open spec fn first_index<T>(s: Seq<T>, x: T) -> Option<int> {
    first_index_from(s, x, 0)
}

/// What `first_index_from` finds: the least position at or after `from`
/// that holds `x`, or none.
pub proof fn lemma_first_index_from<T>(s: Seq<T>, x: T, from: int)
    requires
        0 <= from <= s.len(),
    ensures
        match first_index_from(s, x, from) {
            Some(k) => from <= k < s.len() && s[k] == x && forall|j: int|
                from <= j < k ==> s[j] != x,
            None => forall|j: int| from <= j < s.len() ==> s[j] != x,
        },
    decreases s.len() - from,
{
    if from < s.len() && s[from] != x {
        lemma_first_index_from(s, x, from + 1);
    }
}

/// What `first_index` finds: the least position that holds `x`, or none.
pub proof fn lemma_first_index<T>(s: Seq<T>, x: T)
    ensures
        match first_index(s, x) {
            Some(k) => 0 <= k < s.len() && s[k] == x && forall|j: int| 0 <= j < k ==> s[j] != x,
            None => forall|j: int| 0 <= j < s.len() ==> s[j] != x,
        },
{
    lemma_first_index_from(s, x, 0);
}

impl View for Interface {
    type V = InterfaceView;

    closed spec fn view(&self) -> InterfaceView {
        InterfaceView { id: self.id, name: self.name@ }
    }
}

impl View for Device {
    type V = DeviceView;

    closed spec fn view(&self) -> DeviceView {
        DeviceView {
            vendor_id: self.vendor_id,
            id: self.id,
            name: self.name@,
            interfaces: interface_views(self.interfaces@),
        }
    }
}

impl View for Vendor {
    type V = VendorView;

    closed spec fn view(&self) -> VendorView {
        VendorView { id: self.id, name: self.name@, devices: device_views(self.devices@) }
    }
}

impl View for Protocol {
    type V = ProtocolView;

    closed spec fn view(&self) -> ProtocolView {
        ProtocolView { id: self.id, name: self.name@ }
    }
}

impl View for SubClass {
    type V = SubClassView;

    closed spec fn view(&self) -> SubClassView {
        SubClassView {
            class_id: self.class_id,
            id: self.id,
            name: self.name@,
            protocols: protocol_views(self.protocols@),
        }
    }
}

impl View for Class {
    type V = ClassView;

    closed spec fn view(&self) -> ClassView {
        ClassView { id: self.id, name: self.name@, sub_classes: sub_class_views(self.sub_classes@) }
    }
}

impl Interface {
    pub(crate) fn new(id: u8, name: String) -> (r: Interface)
        ensures
            r@ == (InterfaceView { id, name: name@ }),
    {
        Interface { id, name }
    }
}

impl Device {
    pub(crate) fn new(vendor_id: u16, id: u16, name: String) -> (r: Device)
        ensures
            r@ == (DeviceView { vendor_id, id, name: name@, interfaces: seq![] }),
    {
        let r = Device { vendor_id, id, name, interfaces: Vec::new() };
        assert(interface_views(r.interfaces@) =~= seq![]);
        r
    }
}

impl Vendor {
    pub(crate) fn new(id: u16, name: String) -> (r: Vendor)
        ensures
            r@ == (VendorView { id, name: name@, devices: seq![] }),
    {
        let r = Vendor { id, name, devices: Vec::new() };
        assert(device_views(r.devices@) =~= seq![]);
        r
    }

    pub(crate) fn push_device(&mut self, d: Device)
        ensures
            final(self)@ == (VendorView { devices: old(self)@.devices.push(d@), ..old(self)@ }),
    {
        self.devices.push(d);
        assert(device_views(self.devices@) =~= device_views(old(self).devices@).push(d@));
    }

    /// The position of the first device with id `id`.
    pub(crate) fn device_position(&self, id: u16) -> (r: Option<usize>)
        ensures
            position(r) == first_index(device_ids(self@.devices), id),
    {
        let mut i: usize = 0;
        while i < self.devices.len()
            invariant
                i <= self.devices@.len(),
                first_index(device_ids(self@.devices), id) == first_index_from(
                    device_ids(self@.devices),
                    id,
                    i as int,
                ),
            decreases self.devices@.len() - i,
        {
            if self.devices[i].id == id {
                return Some(i);
            }
            i = i + 1;
        }
        None
    }

    /// Adds `iface` to the interfaces of the device at position `j`.
    pub(crate) fn push_interface(&mut self, j: usize, iface: Interface)
        requires
            j < old(self)@.devices.len(),
        ensures
            final(self)@ == (VendorView {
                devices: old(self)@.devices.update(
                    j as int,
                    DeviceView {
                        interfaces: old(self)@.devices[j as int].interfaces.push(iface@),
                        ..old(self)@.devices[j as int]
                    },
                ),
                ..old(self)@
            }),
    {
        let ghost before = self.devices@;
        let mut d = self.devices.remove(j);
        d.interfaces.push(iface);
        assert(interface_views(d.interfaces@) =~= interface_views(
            before[j as int].interfaces@,
        ).push(iface@));
        self.devices.insert(j, d);
        assert(self.devices@ =~= before.update(j as int, d));
        assert(device_views(self.devices@) =~= device_views(before).update(j as int, d@));
    }

    /// Returns the vendor's id.
    pub fn id(&self) -> (r: u16)
        ensures
            r == self@.id,
    {
        self.id
    }

    /// Returns the vendor's name.
    pub fn name(&self) -> (r: &str)
        ensures
            r@ == self@.name,
    {
        self.name.as_str()
    }

    /// Returns the vendor's devices, in registry order.
    pub fn devices(&self) -> (r: &[Device])
        ensures
            device_views(r@) == self@.devices,
    {
        self.devices.as_slice()
    }
}

impl Device {
    /// Returns the pair (vendor id, device id), the form other USB
    /// libraries use.
    pub fn as_vid_pid(&self) -> (r: (u16, u16))
        ensures
            r == (self@.vendor_id, self@.id),
    {
        (self.vendor_id, self.id)
    }

    /// Returns the device's id.
    pub fn id(&self) -> (r: u16)
        ensures
            r == self@.id,
    {
        self.id
    }

    /// Returns the device's name.
    pub fn name(&self) -> (r: &str)
        ensures
            r@ == self@.name,
    {
        self.name.as_str()
    }

    /// Returns the device's interfaces, in registry order. The registry
    /// lists interfaces for few devices; this list is not authoritative.
    pub fn interfaces(&self) -> (r: &[Interface])
        ensures
            interface_views(r@) == self@.interfaces,
    {
        self.interfaces.as_slice()
    }
}

impl Interface {
    /// Returns the interface's id.
    pub fn id(&self) -> (r: u8)
        ensures
            r == self@.id,
    {
        self.id
    }

    /// Returns the interface's name.
    pub fn name(&self) -> (r: &str)
        ensures
            r@ == self@.name,
    {
        self.name.as_str()
    }
}

impl Protocol {
    pub(crate) fn new(id: u8, name: String) -> (r: Protocol)
        ensures
            r@ == (ProtocolView { id, name: name@ }),
    {
        Protocol { id, name }
    }
}

impl SubClass {
    pub(crate) fn new(class_id: u8, id: u8, name: String) -> (r: SubClass)
        ensures
            r@ == (SubClassView { class_id, id, name: name@, protocols: seq![] }),
    {
        let r = SubClass { class_id, id, name, protocols: Vec::new() };
        assert(protocol_views(r.protocols@) =~= seq![]);
        r
    }
}

impl Class {
    pub(crate) fn new(id: u8, name: String) -> (r: Class)
        ensures
            r@ == (ClassView { id, name: name@, sub_classes: seq![] }),
    {
        let r = Class { id, name, sub_classes: Vec::new() };
        assert(sub_class_views(r.sub_classes@) =~= seq![]);
        r
    }

    pub(crate) fn push_sub_class(&mut self, s: SubClass)
        ensures
            final(self)@ == (ClassView { sub_classes: old(self)@.sub_classes.push(s@), ..old(self)@ }),
    {
        self.sub_classes.push(s);
        assert(sub_class_views(self.sub_classes@) =~= sub_class_views(old(self).sub_classes@).push(s@));
    }

    /// The position of the first subclass with id `id`.
    pub(crate) fn sub_class_position(&self, id: u8) -> (r: Option<usize>)
        ensures
            position(r) == first_index(sub_class_ids(self@.sub_classes), id),
    {
        let mut i: usize = 0;
        while i < self.sub_classes.len()
            invariant
                i <= self.sub_classes@.len(),
                first_index(sub_class_ids(self@.sub_classes), id) == first_index_from(
                    sub_class_ids(self@.sub_classes),
                    id,
                    i as int,
                ),
            decreases self.sub_classes@.len() - i,
        {
            if self.sub_classes[i].id == id {
                return Some(i);
            }
            i = i + 1;
        }
        None
    }

    /// Adds `p` to the protocols of the subclass at position `j`.
    pub(crate) fn push_protocol(&mut self, j: usize, p: Protocol)
        requires
            j < old(self)@.sub_classes.len(),
        ensures
            final(self)@ == (ClassView {
                sub_classes: old(self)@.sub_classes.update(
                    j as int,
                    SubClassView {
                        protocols: old(self)@.sub_classes[j as int].protocols.push(p@),
                        ..old(self)@.sub_classes[j as int]
                    },
                ),
                ..old(self)@
            }),
    {
        let ghost before = self.sub_classes@;
        let mut s = self.sub_classes.remove(j);
        s.protocols.push(p);
        assert(protocol_views(s.protocols@) =~= protocol_views(before[j as int].protocols@).push(p@));
        self.sub_classes.insert(j, s);
        assert(self.sub_classes@ =~= before.update(j as int, s));
        assert(sub_class_views(self.sub_classes@) =~= sub_class_views(before).update(j as int, s@));
    }

    /// Returns the class's id.
    pub fn id(&self) -> (r: u8)
        ensures
            r == self@.id,
    {
        self.id
    }

    /// Returns the class's name.
    pub fn name(&self) -> (r: &str)
        ensures
            r@ == self@.name,
    {
        self.name.as_str()
    }

    /// Returns the class's subclasses, in registry order.
    pub fn sub_classes(&self) -> (r: &[SubClass])
        ensures
            sub_class_views(r@) == self@.sub_classes,
    {
        self.sub_classes.as_slice()
    }
}

impl SubClass {
    /// Returns the pair (class id, subclass id), the form other USB
    /// libraries use.
    pub fn as_cid_scid(&self) -> (r: (u8, u8))
        ensures
            r == (self@.class_id, self@.id),
    {
        (self.class_id, self.id)
    }

    /// Returns the subclass's id.
    pub fn id(&self) -> (r: u8)
        ensures
            r == self@.id,
    {
        self.id
    }

    /// Returns the subclass's name.
    pub fn name(&self) -> (r: &str)
        ensures
            r@ == self@.name,
    {
        self.name.as_str()
    }

    /// Returns the subclass's protocols, in registry order. The registry
    /// does not list protocols for every subclass; this list is not
    /// authoritative.
    pub fn protocols(&self) -> (r: &[Protocol])
        ensures
            protocol_views(r@) == self@.protocols,
    {
        self.protocols.as_slice()
    }
}

impl Protocol {
    /// Returns the protocol's id.
    pub fn id(&self) -> (r: u8)
        ensures
            r == self@.id,
    {
        self.id
    }

    /// Returns the protocol's name.
    pub fn name(&self) -> (r: &str)
        ensures
            r@ == self@.name,
    {
        self.name.as_str()
    }
}

} // verus!
