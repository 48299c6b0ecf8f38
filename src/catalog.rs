//! The catalog: the two forests keyed by id, built once from a registry and
//! read through lookups that never fail, only come back empty.

use std::collections::HashMap;
use vstd::prelude::*;
use crate::builder::{
    class_linked, classes_linked, lemma_parse_linked, parse_model, parse_registry, vendor_linked,
    vendors_linked, BuildError,
};
use crate::entities::{
    class_ids, class_views, device_ids, device_views, first_index, first_index_from,
    lemma_first_index,
    protocol_ids, protocol_views, sub_class_ids, sub_class_views, vendor_ids, vendor_views, Class,
    ClassView, Device, DeviceView, Protocol, ProtocolView, SubClass, SubClassView, Vendor,
    VendorView,
};

verus! {

broadcast use vstd::std_specs::hash::group_hash_axioms;

/// The first element of `s` from position `i` on that already occurred
/// before its own position.
pub open spec fn first_repeat_from<T>(s: Seq<T>, i: int) -> Option<T>
    decreases s.len() - i,
{
    if i < 0 || i >= s.len() {
        None
    } else if s.subrange(0, i).contains(s[i]) {
        Some(s[i])
    } else {
        first_repeat_from(s, i + 1)
    }
}

/// The first element of `s` that repeats an earlier one.
pub open spec fn first_repeat<T>(s: Seq<T>) -> Option<T> {
    first_repeat_from(s, 0)
}

/// The map from id to vendor of a forest: each id present goes to the
/// first vendor that carries it.
pub open spec fn vendor_map_of(vs: Seq<VendorView>) -> Map<u16, VendorView> {
    Map::new(
        |id: u16| vendor_ids(vs).contains(id),
        |id: u16|
            match first_index(vendor_ids(vs), id) {
                Some(k) => vs[k],
                None => vs[0],
            },
    )
}

/// The map from id to class of a forest: each id present goes to the first
/// class that carries it.
pub open spec fn class_map_of(cs: Seq<ClassView>) -> Map<u8, ClassView> {
    Map::new(
        |id: u8| class_ids(cs).contains(id),
        |id: u8|
            match first_index(class_ids(cs), id) {
                Some(k) => cs[k],
                None => cs[0],
            },
    )
}

/// The two maps compiled from the two forests; a repeated top-level id
/// fails.
pub open spec fn compile_model(vs: Seq<VendorView>, cs: Seq<ClassView>) -> Result<
    (Map<u16, VendorView>, Map<u8, ClassView>),
    BuildError,
> {
    match first_repeat(vendor_ids(vs)) {
        Some(id) => Err(BuildError::DuplicateVendor(id)),
        None => match first_repeat(class_ids(cs)) {
            Some(id) => Err(BuildError::DuplicateClass(id)),
            None => Ok((vendor_map_of(vs), class_map_of(cs))),
        },
    }
}

/// The catalog of a registry text, as its two maps.
pub open spec fn catalog_model(text: Seq<u8>) -> Result<
    (Map<u16, VendorView>, Map<u8, ClassView>),
    BuildError,
> {
    match parse_model(text) {
        Ok((vs, cs)) => compile_model(vs, cs),
        Err(e) => Err(e),
    }
}

/// The device with id `pid` in `ds`: the first that has it.
pub open spec fn find_device(ds: Seq<DeviceView>, pid: u16) -> Option<DeviceView> {
    match first_index(device_ids(ds), pid) {
        Some(k) => Some(ds[k]),
        None => None,
    }
}

/// The subclass with id `id` in `ss`: the first that has it.
pub open spec fn find_sub_class(ss: Seq<SubClassView>, id: u8) -> Option<SubClassView> {
    match first_index(sub_class_ids(ss), id) {
        Some(k) => Some(ss[k]),
        None => None,
    }
}

/// The protocol with id `id` in `ps`: the first that has it.
pub open spec fn find_protocol(ps: Seq<ProtocolView>, id: u8) -> Option<ProtocolView> {
    match first_index(protocol_ids(ps), id) {
        Some(k) => Some(ps[k]),
        None => None,
    }
}

pub open spec fn vendor_lookup(vm: Map<u16, VendorView>, vid: u16) -> Option<VendorView> {
    if vm.contains_key(vid) {
        Some(vm[vid])
    } else {
        None
    }
}

pub open spec fn class_lookup(cm: Map<u8, ClassView>, cid: u8) -> Option<ClassView> {
    if cm.contains_key(cid) {
        Some(cm[cid])
    } else {
        None
    }
}

/// The device `pid` of the vendor `vid`.
pub open spec fn device_lookup(vm: Map<u16, VendorView>, vid: u16, pid: u16) -> Option<DeviceView> {
    match vendor_lookup(vm, vid) {
        Some(v) => find_device(v.devices, pid),
        None => None,
    }
}

/// The subclass `scid` of the class `cid`.
pub open spec fn sub_class_lookup(cm: Map<u8, ClassView>, cid: u8, scid: u8) -> Option<
    SubClassView,
> {
    match class_lookup(cm, cid) {
        Some(c) => find_sub_class(c.sub_classes, scid),
        None => None,
    }
}

/// The protocol `pid` of the subclass `scid` of the class `cid`.
pub open spec fn protocol_lookup(cm: Map<u8, ClassView>, cid: u8, scid: u8, pid: u8) -> Option<
    ProtocolView,
> {
    match sub_class_lookup(cm, cid, scid) {
        Some(s) => find_protocol(s.protocols, pid),
        None => None,
    }
}

/// The vendors and classes of a registry, with an index from each id to
/// its entity.
pub struct Catalog {
    vendors: Vec<Vendor>,
    vendor_index: HashMap<u16, usize>,
    classes: Vec<Class>,
    class_index: HashMap<u8, usize>,
}

/// `s` holds each value of `m` once, under its own key.
pub open spec fn enumerates_vendors(s: Seq<VendorView>, m: Map<u16, VendorView>) -> bool {
    &&& vendor_ids(s).no_duplicates()
    &&& forall|id: u16| m.contains_key(id) <==> vendor_ids(s).contains(id)
    &&& forall|i: int| 0 <= i < s.len() ==> m[(#[trigger] s[i]).id] == s[i]
}

/// `s` holds each value of `m` once, under its own key.
pub open spec fn enumerates_classes(s: Seq<ClassView>, m: Map<u8, ClassView>) -> bool {
    &&& class_ids(s).no_duplicates()
    &&& forall|id: u8| m.contains_key(id) <==> class_ids(s).contains(id)
    &&& forall|i: int| 0 <= i < s.len() ==> m[(#[trigger] s[i]).id] == s[i]
}

/// In a sequence without repeats, the first position of an element is its
/// only one.
pub proof fn lemma_first_index_unique<T>(s: Seq<T>, k: int)
    requires
        s.no_duplicates(),
        0 <= k < s.len(),
    ensures
        first_index(s, s[k]) == Some(k),
{
    lemma_first_index(s, s[k]);
}

/// A sequence in which no element repeats an earlier one has no duplicates.
pub proof fn lemma_no_repeat<T>(s: Seq<T>, i: int)
    requires
        0 <= i <= s.len(),
        s.subrange(0, i).no_duplicates(),
        first_repeat_from(s, i) is None,
    ensures
        s.no_duplicates(),
    decreases s.len() - i,
{
    if i < s.len() {
        assert(!s.subrange(0, i).contains(s[i]));
        assert forall|a: int, b: int| 0 <= a < b < i + 1 implies s[a] != s[b] by {
            if b == i {
                assert(s.subrange(0, i)[a] == s[a]);
            } else {
                assert(s.subrange(0, i)[a] == s[a] && s.subrange(0, i)[b] == s[b]);
            }
        }
        assert(s.subrange(0, i + 1).no_duplicates());
        lemma_no_repeat(s, i + 1);
    } else {
        assert(s.subrange(0, i) =~= s);
    }
}

/// Indexes vendors by id, failing on the first repeated id.
fn index_vendors(items: &Vec<Vendor>) -> (r: Result<HashMap<u16, usize>, BuildError>)
    ensures
        match r {
            Ok(index) => {
                &&& first_repeat(vendor_ids(vendor_views(items@))) is None
                &&& vendor_ids(vendor_views(items@)).no_duplicates()
                &&& forall|id: u16| #[trigger]
                    index@.contains_key(id) <==> vendor_ids(vendor_views(items@)).contains(id)
                &&& forall|id: u16| #[trigger]
                    index@.contains_key(id) ==> index@[id] < items@.len()
                        && vendor_ids(vendor_views(items@))[index@[id] as int] == id
            },
            Err(e) => first_repeat(vendor_ids(vendor_views(items@))) matches Some(id) && e
                == BuildError::DuplicateVendor(id),
        },
{
    let ghost vids = vendor_ids(vendor_views(items@));
    let mut vendor_index: HashMap<u16, usize> = HashMap::new();
    let mut i: usize = 0;
    while i < items.len()
        invariant
            i <= items@.len(),
            vids == vendor_ids(vendor_views(items@)),
            vids.subrange(0, i as int).no_duplicates(),
            first_repeat(vids) == first_repeat_from(vids, i as int),
            forall|id: u16| #[trigger]
                vendor_index@.contains_key(id) <==> vids.subrange(0, i as int).contains(id),
            forall|id: u16| #[trigger]
                vendor_index@.contains_key(id) ==> vendor_index@[id] < i && vids[vendor_index@[id] as int]
                    == id,
        decreases items@.len() - i,
    {
        let id = items[i].id();
        assert(vids[i as int] == id);
        if vendor_index.contains_key(&id) {
            assert(vids.subrange(0, i as int)[vendor_index@[id] as int] == id);
            return Err(BuildError::DuplicateVendor(id));
        }
        let ghost before = vendor_index@;
        vendor_index.insert(id, i);
        assert forall|a: int, b: int| 0 <= a < b < i + 1 implies vids[a] != vids[b] by {
            assert(vids.subrange(0, i as int).no_duplicates());
            assert(vids.subrange(0, i as int)[a] == vids[a]);
            if b == i {
                assert(before.contains_key(vids[a]));
            } else {
                assert(vids.subrange(0, i as int)[b] == vids[b]);
            }
        }
        assert forall|x: u16| #[trigger]
            vendor_index@.contains_key(x) == vids.subrange(0, i + 1).contains(x) by {
            if x == id {
                assert(vids.subrange(0, i + 1)[i as int] == x);
            } else {
                if vids.subrange(0, i as int).contains(x) {
                    let w = choose|w: int| 0 <= w < i && #[trigger] vids.subrange(0, i as int)[w] == x;
                    assert(vids.subrange(0, i + 1)[w] == x);
                }
                if vids.subrange(0, i + 1).contains(x) {
                    let w = choose|w: int| 0 <= w < i + 1 && #[trigger] vids.subrange(0, i + 1)[w] == x;
                    assert(vids.subrange(0, i as int)[w] == x);
                }
            }
        }
        i = i + 1;
    }
    proof {
        assert(vids.subrange(0, i as int) =~= vids);
        lemma_no_repeat(vids, i as int);
    }
    Ok(vendor_index)
}

/// Indexes classes by id, failing on the first repeated id.
fn index_classes(items: &Vec<Class>) -> (r: Result<HashMap<u8, usize>, BuildError>)
    ensures
        match r {
            Ok(index) => {
                &&& first_repeat(class_ids(class_views(items@))) is None
                &&& class_ids(class_views(items@)).no_duplicates()
                &&& forall|id: u8| #[trigger]
                    index@.contains_key(id) <==> class_ids(class_views(items@)).contains(id)
                &&& forall|id: u8| #[trigger]
                    index@.contains_key(id) ==> index@[id] < items@.len()
                        && class_ids(class_views(items@))[index@[id] as int] == id
            },
            Err(e) => first_repeat(class_ids(class_views(items@))) matches Some(id) && e
                == BuildError::DuplicateClass(id),
        },
{
    let ghost cids = class_ids(class_views(items@));
    let mut class_index: HashMap<u8, usize> = HashMap::new();
    let mut i: usize = 0;
    while i < items.len()
        invariant
            i <= items@.len(),
            cids == class_ids(class_views(items@)),
            cids.subrange(0, i as int).no_duplicates(),
            first_repeat(cids) == first_repeat_from(cids, i as int),
            forall|id: u8| #[trigger]
                class_index@.contains_key(id) <==> cids.subrange(0, i as int).contains(id),
            forall|id: u8| #[trigger]
                class_index@.contains_key(id) ==> class_index@[id] < i && cids[class_index@[id] as int]
                    == id,
        decreases items@.len() - i,
    {
        let id = items[i].id();
        assert(cids[i as int] == id);
        if class_index.contains_key(&id) {
            assert(cids.subrange(0, i as int)[class_index@[id] as int] == id);
            return Err(BuildError::DuplicateClass(id));
        }
        let ghost before = class_index@;
        class_index.insert(id, i);
        assert forall|a: int, b: int| 0 <= a < b < i + 1 implies cids[a] != cids[b] by {
            assert(cids.subrange(0, i as int).no_duplicates());
            assert(cids.subrange(0, i as int)[a] == cids[a]);
            if b == i {
                assert(before.contains_key(cids[a]));
            } else {
                assert(cids.subrange(0, i as int)[b] == cids[b]);
            }
        }
        assert forall|x: u8| #[trigger]
            class_index@.contains_key(x) == cids.subrange(0, i + 1).contains(x) by {
            if x == id {
                assert(cids.subrange(0, i + 1)[i as int] == x);
            } else {
                if cids.subrange(0, i as int).contains(x) {
                    let w = choose|w: int| 0 <= w < i && #[trigger] cids.subrange(0, i as int)[w] == x;
                    assert(cids.subrange(0, i + 1)[w] == x);
                }
                if cids.subrange(0, i + 1).contains(x) {
                    let w = choose|w: int| 0 <= w < i + 1 && #[trigger] cids.subrange(0, i + 1)[w] == x;
                    assert(cids.subrange(0, i as int)[w] == x);
                }
            }
        }
        i = i + 1;
    }
    proof {
        assert(cids.subrange(0, i as int) =~= cids);
        lemma_no_repeat(cids, i as int);
    }
    Ok(class_index)
}

impl Catalog {
    pub closed spec fn vendor_forest(&self) -> Seq<VendorView> {
        vendor_views(self.vendors@)
    }

    pub closed spec fn class_forest(&self) -> Seq<ClassView> {
        class_views(self.classes@)
    }

    /// The catalog's vendors, keyed by id.
    pub open spec fn vendor_map(&self) -> Map<u16, VendorView> {
        vendor_map_of(self.vendor_forest())
    }

    /// The catalog's classes, keyed by id.
    pub open spec fn class_map(&self) -> Map<u8, ClassView> {
        class_map_of(self.class_forest())
    }

    /// The catalog is well formed: ids are unique at the top level, the
    /// indexes find each entity by its id, and every child holds its
    /// parent's id. Every catalog is.
    #[verifier::type_invariant]
    pub closed spec fn wf(self) -> bool {
        let vs = self.vendor_forest();
        let cs = self.class_forest();
        &&& vendor_ids(vs).no_duplicates()
        &&& class_ids(cs).no_duplicates()
        &&& forall|id: u16| #[trigger]
            self.vendor_index@.contains_key(id) <==> vendor_ids(vs).contains(id)
        &&& forall|id: u16| #[trigger]
            self.vendor_index@.contains_key(id) ==> self.vendor_index@[id] < vs.len()
                && vs[self.vendor_index@[id] as int].id == id
        &&& forall|id: u8| #[trigger]
            self.class_index@.contains_key(id) <==> class_ids(cs).contains(id)
        &&& forall|id: u8| #[trigger]
            self.class_index@.contains_key(id) ==> self.class_index@[id] < cs.len()
                && cs[self.class_index@[id] as int].id == id
        &&& vendors_linked(vs)
        &&& classes_linked(cs)
    }

    /// Reads a registry text and builds its catalog.
    ///
    /// Fails where the registry is malformed (a child line without its
    /// parent, a name that is not UTF-8) or where two vendors or two classes
    /// share an id.
    pub fn build(text: &[u8]) -> (r: Result<Catalog, BuildError>)
        ensures
            match r {
                Ok(c) => c.wf() && catalog_model(text@) == Ok::<_, BuildError>(
                    (c.vendor_map(), c.class_map()),
                ),
                Err(e) => catalog_model(text@) == Err::<
                    (Map<u16, VendorView>, Map<u8, ClassView>),
                    _,
                >(e),
            },
    {
        proof {
            lemma_parse_linked(text@);
        }
        match parse_registry(text) {
            Ok((vendors, classes)) => Catalog::compile(vendors, classes),
            Err(e) => Err(e),
        }
    }

    /// Indexes two finished forests by id.
    fn compile(vendors: Vec<Vendor>, classes: Vec<Class>) -> (r: Result<Catalog, BuildError>)
        requires
            vendors_linked(vendor_views(vendors@)),
            classes_linked(class_views(classes@)),
        ensures
            match r {
                Ok(c) => c.wf() && compile_model(vendor_views(vendors@), class_views(classes@))
                    == Ok::<_, BuildError>((c.vendor_map(), c.class_map())),
                Err(e) => compile_model(vendor_views(vendors@), class_views(classes@)) == Err::<
                    (Map<u16, VendorView>, Map<u8, ClassView>),
                    _,
                >(e),
            },
    {
        match index_vendors(&vendors) {
            Err(e) => Err(e),
            Ok(vendor_index) => match index_classes(&classes) {
                Err(e) => Err(e),
                Ok(class_index) => Ok(Catalog { vendors, vendor_index, classes, class_index }),
            },
        }
    }
}

proof fn lemma_vendor_at(c: &Catalog, id: u16)
    requires
        c.wf(),
        c.vendor_index@.contains_key(id),
    ensures
        c.vendor_map().contains_key(id),
        c.vendor_map()[id] == c.vendor_forest()[c.vendor_index@[id] as int],
{
    let k = c.vendor_index@[id] as int;
    assert(vendor_ids(c.vendor_forest())[k] == id);
    lemma_first_index_unique(vendor_ids(c.vendor_forest()), k);
}

proof fn lemma_class_at(c: &Catalog, id: u8)
    requires
        c.wf(),
        c.class_index@.contains_key(id),
    ensures
        c.class_map().contains_key(id),
        c.class_map()[id] == c.class_forest()[c.class_index@[id] as int],
{
    let k = c.class_index@[id] as int;
    assert(class_ids(c.class_forest())[k] == id);
    lemma_first_index_unique(class_ids(c.class_forest()), k);
}

/// A top-level entity (a vendor, a class) found in a catalog by its id.
pub trait FromId<T>: View + Sized {
    /// The entity that `id` names in `catalog`, if any.
    spec fn lookup(catalog: &Catalog, id: T) -> Option<Self::V>;

    /// Returns the entity that `id` names in `catalog`, or `None` if there
    /// is none.
    fn from_id(catalog: &Catalog, id: T) -> (r: Option<&Self>)
        ensures
            match r {
                Some(e) => Self::lookup(catalog, id) == Some(e@),
                None => Self::lookup(catalog, id) is None,
            },
    ;
}

impl FromId<u16> for Vendor {
    open spec fn lookup(catalog: &Catalog, id: u16) -> Option<VendorView> {
        vendor_lookup(catalog.vendor_map(), id)
    }

    fn from_id(catalog: &Catalog, id: u16) -> (r: Option<&Vendor>) {
        proof {
            use_type_invariant(catalog);
        }
        match catalog.vendor_index.get(&id) {
            Some(k) => {
                proof {
                    lemma_vendor_at(catalog, id);
                }
                Some(&catalog.vendors[*k])
            },
            None => None,
        }
    }
}

impl FromId<u8> for Class {
    open spec fn lookup(catalog: &Catalog, id: u8) -> Option<ClassView> {
        class_lookup(catalog.class_map(), id)
    }

    fn from_id(catalog: &Catalog, id: u8) -> (r: Option<&Class>) {
        proof {
            use_type_invariant(catalog);
        }
        match catalog.class_index.get(&id) {
            Some(k) => {
                proof {
                    lemma_class_at(catalog, id);
                }
                Some(&catalog.classes[*k])
            },
            None => None,
        }
    }
}

/// All vendors of a catalog.
pub struct Vendors;

impl Vendors {
    /// Returns every vendor of `catalog` once, in registry order.
    pub fn iter(catalog: &Catalog) -> (r: &[Vendor])
        ensures
            enumerates_vendors(vendor_views(r@), catalog.vendor_map()),
            vendor_views(r@) == catalog.vendor_forest(),
    {
        let r = catalog.vendors.as_slice();
        proof {
            use_type_invariant(catalog);
            let vs = catalog.vendor_forest();
            assert forall|i: int| 0 <= i < vs.len() implies catalog.vendor_map()[(
            #[trigger] vs[i]).id] == vs[i] by {
                assert(vendor_ids(vs)[i] == vs[i].id);
                lemma_first_index_unique(vendor_ids(vs), i);
            }
        }
        r
    }
}

/// All classes of a catalog.
pub struct Classes;

impl Classes {
    /// Returns every class of `catalog` once, in registry order.
    pub fn iter(catalog: &Catalog) -> (r: &[Class])
        ensures
            enumerates_classes(class_views(r@), catalog.class_map()),
            class_views(r@) == catalog.class_forest(),
    {
        let r = catalog.classes.as_slice();
        proof {
            use_type_invariant(catalog);
            let cs = catalog.class_forest();
            assert forall|i: int| 0 <= i < cs.len() implies catalog.class_map()[(
            #[trigger] cs[i]).id] == cs[i] by {
                assert(class_ids(cs)[i] == cs[i].id);
                lemma_first_index_unique(class_ids(cs), i);
            }
        }
        r
    }
}

impl Device {
    /// Returns the device with vendor id `vid` and device id `pid`, or
    /// `None` if the catalog has no such device.
    pub fn from_vid_pid(catalog: &Catalog, vid: u16, pid: u16) -> (r: Option<&Device>)
        ensures
            match r {
                Some(d) => device_lookup(catalog.vendor_map(), vid, pid) == Some(d@),
                None => device_lookup(catalog.vendor_map(), vid, pid) is None,
            },
    {
        match Vendor::from_id(catalog, vid) {
            None => None,
            Some(v) => {
                let ds = v.devices();
                let ghost ids = device_ids(v@.devices);
                let mut i: usize = 0;
                while i < ds.len()
                    invariant
                        i <= ds@.len(),
                        device_views(ds@) == v@.devices,
                        ids == device_ids(v@.devices),
                        vendor_lookup(catalog.vendor_map(), vid) == Some(v@),
                        first_index(ids, pid) == first_index_from(ids, pid, i as int),
                    decreases ds@.len() - i,
                {
                    assert(ids[i as int] == ds@[i as int]@.id);
                    if ds[i].id() == pid {
                        assert(device_views(ds@)[i as int] == ds@[i as int]@);
                        return Some(&ds[i]);
                    }
                    i = i + 1;
                }
                None
            },
        }
    }

    /// Returns the vendor of this device, found again through the catalog
    /// by the vendor id that the device holds.
    pub fn vendor<'a>(&self, catalog: &'a Catalog) -> (r: &'a Vendor)
        requires
            catalog.vendor_map().contains_key(self@.vendor_id),
        ensures
            r@ == catalog.vendor_map()[self@.vendor_id],
    {
        let (vid, _) = self.as_vid_pid();
        match Vendor::from_id(catalog, vid) {
            Some(v) => v,
            None => vstd::pervasive::unreached(),
        }
    }
}

impl SubClass {
    /// Returns the subclass `id` of the class `class_id`, or `None` if the
    /// catalog has no such subclass.
    pub fn from_cid_scid(catalog: &Catalog, class_id: u8, id: u8) -> (r: Option<&SubClass>)
        ensures
            match r {
                Some(s) => sub_class_lookup(catalog.class_map(), class_id, id) == Some(s@),
                None => sub_class_lookup(catalog.class_map(), class_id, id) is None,
            },
    {
        match Class::from_id(catalog, class_id) {
            None => None,
            Some(c) => {
                let ss = c.sub_classes();
                let ghost ids = sub_class_ids(c@.sub_classes);
                let mut i: usize = 0;
                while i < ss.len()
                    invariant
                        i <= ss@.len(),
                        sub_class_views(ss@) == c@.sub_classes,
                        ids == sub_class_ids(c@.sub_classes),
                        class_lookup(catalog.class_map(), class_id) == Some(c@),
                        first_index(ids, id) == first_index_from(ids, id, i as int),
                    decreases ss@.len() - i,
                {
                    assert(ids[i as int] == ss@[i as int]@.id);
                    if ss[i].id() == id {
                        assert(sub_class_views(ss@)[i as int] == ss@[i as int]@);
                        return Some(&ss[i]);
                    }
                    i = i + 1;
                }
                None
            },
        }
    }

    /// Returns the class of this subclass, found again through the catalog
    /// by the class id that the subclass holds.
    pub fn class<'a>(&self, catalog: &'a Catalog) -> (r: &'a Class)
        requires
            catalog.class_map().contains_key(self@.class_id),
        ensures
            r@ == catalog.class_map()[self@.class_id],
    {
        let (cid, _) = self.as_cid_scid();
        match Class::from_id(catalog, cid) {
            Some(c) => c,
            None => vstd::pervasive::unreached(),
        }
    }
}

impl Protocol {
    /// Returns the protocol `id` of the subclass `subclass_id` of the class
    /// `class_id`, or `None` if the catalog has no such protocol.
    pub fn from_cid_scid_pid(catalog: &Catalog, class_id: u8, subclass_id: u8, id: u8) -> (r:
        Option<&Protocol>)
        ensures
            match r {
                Some(p) => protocol_lookup(catalog.class_map(), class_id, subclass_id, id) == Some(
                    p@,
                ),
                None => protocol_lookup(catalog.class_map(), class_id, subclass_id, id) is None,
            },
    {
        match SubClass::from_cid_scid(catalog, class_id, subclass_id) {
            None => None,
            Some(s) => {
                let ps = s.protocols();
                let ghost ids = protocol_ids(s@.protocols);
                let mut i: usize = 0;
                while i < ps.len()
                    invariant
                        i <= ps@.len(),
                        protocol_views(ps@) == s@.protocols,
                        ids == protocol_ids(s@.protocols),
                        sub_class_lookup(catalog.class_map(), class_id, subclass_id) == Some(s@),
                        first_index(ids, id) == first_index_from(ids, id, i as int),
                    decreases ps@.len() - i,
                {
                    assert(ids[i as int] == ps@[i as int]@.id);
                    if ps[i].id() == id {
                        assert(protocol_views(ps@)[i as int] == ps@[i as int]@);
                        return Some(&ps[i]);
                    }
                    i = i + 1;
                }
                None
            },
        }
    }
}

/// A device found in a catalog belongs to the vendor that its vendor id
/// names: that vendor is in the catalog, carries that id, and lists the
/// device among its devices.
pub proof fn lemma_device_vendor(c: &Catalog, vid: u16, k: int)
    requires
        c.wf(),
        c.vendor_map().contains_key(vid),
        0 <= k < c.vendor_map()[vid].devices.len(),
    ensures
        ({
            let d = c.vendor_map()[vid].devices[k];
            &&& d.vendor_id == vid
            &&& c.vendor_map().contains_key(d.vendor_id)
            &&& c.vendor_map()[d.vendor_id].id == d.vendor_id
            &&& c.vendor_map()[d.vendor_id].devices.contains(d)
        }),
{
    let vs = c.vendor_forest();
    lemma_first_index(vendor_ids(vs), vid);
    let j = first_index(vendor_ids(vs), vid)->Some_0;
    assert(vendor_ids(vs)[j] == vid);
    assert(c.vendor_map()[vid] == vs[j]);
    assert(vendor_linked(vs[j]));
    let d = c.vendor_map()[vid].devices[k];
    assert(c.vendor_map()[d.vendor_id].devices[k] == d);
}

/// A subclass found in a catalog belongs to the class that its class id
/// names: that class is in the catalog, carries that id, and lists the
/// subclass among its subclasses.
pub proof fn lemma_sub_class_class(c: &Catalog, cid: u8, k: int)
    requires
        c.wf(),
        c.class_map().contains_key(cid),
        0 <= k < c.class_map()[cid].sub_classes.len(),
    ensures
        ({
            let s = c.class_map()[cid].sub_classes[k];
            &&& s.class_id == cid
            &&& c.class_map().contains_key(s.class_id)
            &&& c.class_map()[s.class_id].id == s.class_id
            &&& c.class_map()[s.class_id].sub_classes.contains(s)
        }),
{
    let cs = c.class_forest();
    lemma_first_index(class_ids(cs), cid);
    let j = first_index(class_ids(cs), cid)->Some_0;
    assert(class_ids(cs)[j] == cid);
    assert(c.class_map()[cid] == cs[j]);
    assert(class_linked(cs[j]));
    let s = c.class_map()[cid].sub_classes[k];
    assert(c.class_map()[s.class_id].sub_classes[k] == s);
}

} // verus!
