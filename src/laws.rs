//! Laws that relate the registry text, the builder and the lookups.

use vstd::prelude::*;
use crate::builder::{
    initial_model, parse_model, run, step, BuildError, ParseModel, SectionModel,
};
use crate::catalog::{
    catalog_model, class_lookup, class_map_of, device_lookup,
    lemma_first_index_unique, lemma_no_repeat, protocol_lookup, sub_class_lookup, vendor_lookup,
    vendor_map_of, Catalog,
};
use crate::entities::{
    class_ids, device_ids, first_index, lemma_first_index, protocol_ids, vendor_ids, ClassView,
    VendorView,
};
use crate::lines::{line_kind, marks_class_section, registry_lines};

verus! {

proof fn lemma_vendor_map_of(vs: Seq<VendorView>)
    requires
        vendor_ids(vs).no_duplicates(),
    ensures
        forall|i: int|
            0 <= i < vs.len() ==> vendor_map_of(vs).contains_key(#[trigger] vs[i].id)
                && vendor_map_of(vs)[vs[i].id] == vs[i],
        forall|id: u16| #[trigger]
            vendor_map_of(vs).contains_key(id) ==> vendor_map_of(vs)[id].id == id,
{
    assert forall|i: int| 0 <= i < vs.len() implies vendor_map_of(vs).contains_key(
        #[trigger] vs[i].id,
    ) && vendor_map_of(vs)[vs[i].id] == vs[i] by {
        assert(vendor_ids(vs)[i] == vs[i].id);
        lemma_first_index_unique(vendor_ids(vs), i);
    }
    assert forall|id: u16| #[trigger]
        vendor_map_of(vs).contains_key(id) implies vendor_map_of(vs)[id].id == id by {
        lemma_first_index(vendor_ids(vs), id);
    }
}

proof fn lemma_class_map_of(cs: Seq<ClassView>)
    requires
        class_ids(cs).no_duplicates(),
    ensures
        forall|i: int|
            0 <= i < cs.len() ==> class_map_of(cs).contains_key(#[trigger] cs[i].id)
                && class_map_of(cs)[cs[i].id] == cs[i],
        forall|id: u8| #[trigger]
            class_map_of(cs).contains_key(id) ==> class_map_of(cs)[id].id == id,
{
    assert forall|i: int| 0 <= i < cs.len() implies class_map_of(cs).contains_key(
        #[trigger] cs[i].id,
    ) && class_map_of(cs)[cs[i].id] == cs[i] by {
        assert(class_ids(cs)[i] == cs[i].id);
        lemma_first_index_unique(class_ids(cs), i);
    }
    assert forall|id: u8| #[trigger]
        class_map_of(cs).contains_key(id) implies class_map_of(cs)[id].id == id by {
        lemma_first_index(class_ids(cs), id);
    }
}

/// Where a registry text builds a catalog, its forests have no repeated
/// top-level id and the catalog's maps are the forests keyed by id.
proof fn lemma_built_forests(text: Seq<u8>)
    ensures
        match (parse_model(text), catalog_model(text)) {
            (Ok((vs, cs)), Ok((vm, cm))) => {
                &&& vendor_ids(vs).no_duplicates()
                &&& class_ids(cs).no_duplicates()
                &&& vm == vendor_map_of(vs)
                &&& cm == class_map_of(cs)
            },
            _ => true,
        },
{
    if let (Ok((vs, cs)), Ok((vm, cm))) = (parse_model(text), catalog_model(text)) {
        assert(vendor_ids(vs).subrange(0, 0).no_duplicates());
        assert(class_ids(cs).subrange(0, 0).no_duplicates());
        lemma_no_repeat(vendor_ids(vs), 0);
        lemma_no_repeat(class_ids(cs), 0);
    }
}

/// Every vendor and every class that a registry lists is found in its
/// catalog under its own id, and every entity found carries the id it was
/// found under.
pub proof fn lemma_lookup_by_id(text: Seq<u8>)
    ensures
        match (parse_model(text), catalog_model(text)) {
            (Ok((vs, cs)), Ok((vm, cm))) => {
                &&& forall|i: int|
                    0 <= i < vs.len() ==> vendor_lookup(vm, #[trigger] vs[i].id) == Some(vs[i])
                &&& forall|i: int|
                    0 <= i < cs.len() ==> class_lookup(cm, #[trigger] cs[i].id) == Some(cs[i])
                &&& forall|id: u16| #[trigger]
                    vendor_lookup(vm, id) matches Some(v) ==> v.id == id
                &&& forall|id: u8| #[trigger]
                    class_lookup(cm, id) matches Some(c) ==> c.id == id
            },
            _ => true,
        },
{
    lemma_built_forests(text);
    if let (Ok((vs, cs)), Ok((vm, cm))) = (parse_model(text), catalog_model(text)) {
        lemma_vendor_map_of(vs);
        lemma_class_map_of(cs);
    }
}

/// A device lookup succeeds exactly when the registry lists a vendor with
/// that id that has a device with that id.
pub proof fn lemma_device_lookup_iff_listed(text: Seq<u8>, vid: u16, pid: u16)
    ensures
        match (parse_model(text), catalog_model(text)) {
            (Ok((vs, cs)), Ok((vm, cm))) => device_lookup(vm, vid, pid) is Some <==> exists|
                i: int,
                k: int,
            |
                0 <= i < vs.len() && 0 <= k < vs[i].devices.len() && #[trigger] vs[i].id == vid
                    && #[trigger] vs[i].devices[k].id == pid,
            _ => true,
        },
{
    lemma_built_forests(text);
    if let (Ok((vs, cs)), Ok((vm, cm))) = (parse_model(text), catalog_model(text)) {
        lemma_vendor_map_of(vs);
        if device_lookup(vm, vid, pid) is Some {
            lemma_first_index(vendor_ids(vs), vid);
            let i = first_index(vendor_ids(vs), vid)->Some_0;
            assert(vendor_ids(vs)[i] == vid);
            let ds = vs[i].devices;
            lemma_first_index(device_ids(ds), pid);
            let k = first_index(device_ids(ds), pid)->Some_0;
            assert(device_ids(ds)[k] == pid);
            assert(vs[i].id == vid && vs[i].devices[k].id == pid);
        }
        if exists|i: int, k: int|
            0 <= i < vs.len() && 0 <= k < vs[i].devices.len() && #[trigger] vs[i].id == vid
                && #[trigger] vs[i].devices[k].id == pid {
            let (i, k) = choose|i: int, k: int|
                0 <= i < vs.len() && 0 <= k < vs[i].devices.len() && #[trigger] vs[i].id == vid
                    && #[trigger] vs[i].devices[k].id == pid;
            assert(vendor_lookup(vm, vs[i].id) == Some(vs[i]));
            lemma_first_index(device_ids(vs[i].devices), pid);
            assert(device_ids(vs[i].devices)[k] == pid);
        }
    }
}

/// A protocol lookup succeeds exactly when the subclass lookup on its first
/// two ids succeeds and that subclass lists a protocol with the third id;
/// the protocol found carries that id.
pub proof fn lemma_protocol_descent(cm: Map<u8, ClassView>, cid: u8, scid: u8, pid: u8)
    ensures
        protocol_lookup(cm, cid, scid, pid) is Some <==> (sub_class_lookup(cm, cid, scid) matches Some(
            s,
        ) && exists|k: int| 0 <= k < s.protocols.len() && #[trigger] s.protocols[k].id == pid),
        protocol_lookup(cm, cid, scid, pid) matches Some(p) ==> p.id == pid,
{
    if let Some(s) = sub_class_lookup(cm, cid, scid) {
        lemma_first_index(protocol_ids(s.protocols), pid);
        if let Some(k) = first_index(protocol_ids(s.protocols), pid) {
            assert(protocol_ids(s.protocols)[k] == pid);
        }
        if exists|k: int| 0 <= k < s.protocols.len() && #[trigger] s.protocols[k].id == pid {
            let k = choose|k: int| 0 <= k < s.protocols.len() && #[trigger] s.protocols[k].id == pid;
            assert(protocol_ids(s.protocols)[k] == pid);
        }
    }
}

/// The line neither opens a vendor nor leaves the vendor section.
pub open spec fn keeps_vendor_closed(l: Seq<u8>) -> bool {
    !(line_kind(l) is Vendor || line_kind(l) is TypeMarker || marks_class_section(l))
}

proof fn lemma_run_orphan_device(lines: Seq<Seq<u8>>, st: ParseModel, k: int)
    requires
        st.section matches SectionModel::Vendors(None, _),
        0 <= k < lines.len(),
        line_kind(lines[k]) is Device,
        forall|j: int| 0 <= j < k ==> keeps_vendor_closed(#[trigger] lines[j]),
    ensures
        run(lines, st) == Err::<(Seq<VendorView>, Seq<ClassView>), _>(BuildError::MissingVendor),
    decreases lines.len(),
{
    let l = lines[0];
    if k > 0 {
        assert(keeps_vendor_closed(lines[0]));
        if step(st, l) is Ok {
            assert(step(st, l) == Ok::<_, BuildError>(st));
            assert forall|j: int| 0 <= j < k - 1 implies keeps_vendor_closed(
                #[trigger] lines.drop_first()[j],
            ) by {
                assert(lines.drop_first()[j] == lines[j + 1]);
            }
            lemma_run_orphan_device(lines.drop_first(), st, k - 1);
        }
    }
}

/// A device line that comes before any line has opened a vendor or left
/// the vendor section makes the whole build fail: no catalog comes of the
/// text.
pub proof fn lemma_orphan_device_aborts(text: Seq<u8>, k: int)
    requires
        0 <= k < registry_lines(text).len(),
        line_kind(registry_lines(text)[k]) is Device,
        forall|j: int| 0 <= j < k ==> keeps_vendor_closed(#[trigger] registry_lines(text)[j]),
    ensures
        parse_model(text) == Err::<(Seq<VendorView>, Seq<ClassView>), _>(BuildError::MissingVendor),
        catalog_model(text) == Err::<(Map<u16, VendorView>, Map<u8, ClassView>), _>(
            BuildError::MissingVendor,
        ),
{
    lemma_run_orphan_device(registry_lines(text), initial_model(), k);
}

/// Two catalogs built from the same registry text answer every lookup
/// alike.
pub proof fn lemma_build_deterministic(text: Seq<u8>, a: &Catalog, b: &Catalog)
    requires
        catalog_model(text) == Ok::<_, BuildError>((a.vendor_map(), a.class_map())),
        catalog_model(text) == Ok::<_, BuildError>((b.vendor_map(), b.class_map())),
    ensures
        a.vendor_map() == b.vendor_map(),
        a.class_map() == b.class_map(),
        forall|vid: u16| #[trigger]
            vendor_lookup(a.vendor_map(), vid) == vendor_lookup(b.vendor_map(), vid),
        forall|vid: u16, pid: u16| #[trigger]
            device_lookup(a.vendor_map(), vid, pid) == device_lookup(b.vendor_map(), vid, pid),
        forall|cid: u8| #[trigger]
            class_lookup(a.class_map(), cid) == class_lookup(b.class_map(), cid),
        forall|cid: u8, scid: u8| #[trigger]
            sub_class_lookup(a.class_map(), cid, scid) == sub_class_lookup(b.class_map(), cid, scid),
        forall|cid: u8, scid: u8, pid: u8| #[trigger]
            protocol_lookup(a.class_map(), cid, scid, pid) == protocol_lookup(
                b.class_map(),
                cid,
                scid,
                pid,
            ),
{
}

} // verus!
