//! The hierarchy builder: a state machine that reads registry lines in order
//! and assembles the vendor forest and the class forest.
//!
//! Which family a line belongs to depends on the section reached so far:
//! vendors come first, then classes, and a type-section marker ends the part
//! of the registry that is read.

use vstd::prelude::*;
use vstd::string::StringSliceAdditionalSpecFns;
use vstd::utf8::{decode_utf8, encode_utf8_decode_utf8, valid_utf8};
use crate::entities::{
    device_ids, first_index, lemma_first_index, sub_class_ids, ClassView, DeviceView,
    InterfaceView, ProtocolView, SubClassView, VendorView,
};
use crate::entities::{class_views, vendor_views, Class, Device, Interface, Protocol, SubClass, Vendor};
use crate::lines::{
    classify_line, is_class_section_mark, line_kind, line_name, lines_from, marks_class_section,
    registry_lines, strip_cr, LineKind, CARRIAGE_RETURN, NEWLINE,
};

verus! {

/// Why a registry could not be turned into a catalog.
#[derive(Clone, Copy, Debug, PartialEq, Eq, Structural)]
pub enum BuildError {
    /// A device or interface line came while no vendor was open.
    MissingVendor,
    /// An interface line came while the open vendor had no device with the
    /// id of the last device line.
    MissingDevice,
    /// A subclass or protocol line came while no class was open.
    MissingClass,
    /// A protocol line came while the open class had no subclass with the
    /// id of the last subclass line.
    MissingSubClass,
    /// The name on an entity line is not valid UTF-8.
    InvalidName,
    /// Two vendors carry this id.
    DuplicateVendor(u16),
    /// Two classes carry this id.
    DuplicateClass(u8),
}

/// The section the builder is in, with the open entity and the id of the
/// last child line, in the model.
pub enum SectionModel {
    Vendors(Option<VendorView>, u16),
    Classes(Option<ClassView>, u8),
    Types,
}

/// The builder's state in the model: the section and the finished
/// forests.
pub struct ParseModel {
    pub section: SectionModel,
    pub vendors: Seq<VendorView>,
    pub classes: Seq<ClassView>,
}

pub open spec fn initial_model() -> ParseModel {
    ParseModel { section: SectionModel::Vendors(None, 0), vendors: seq![], classes: seq![] }
}

/// The state with its open vendor or class moved to the finished forest.
pub open spec fn flushed(st: ParseModel) -> ParseModel {
    match st.section {
        SectionModel::Vendors(Some(v), _) => ParseModel { vendors: st.vendors.push(v), ..st },
        SectionModel::Classes(Some(c), _) => ParseModel { classes: st.classes.push(c), ..st },
        _ => st,
    }
}

/// The name on a line, decoded, or none where it is not UTF-8.
pub open spec fn decoded_name(l: Seq<u8>) -> Option<Seq<char>> {
    if valid_utf8(line_name(l)) {
        Some(decode_utf8(line_name(l)))
    } else {
        None
    }
}

/// One line in the vendor section.
pub open spec fn vendor_step(st: ParseModel, l: Seq<u8>) -> Result<ParseModel, BuildError> {
    let (open, last) = match st.section {
        SectionModel::Vendors(open, last) => (open, last),
        _ => (None, 0),
    };
    match line_kind(l) {
        LineKind::Vendor(id) => match decoded_name(l) {
            None => Err(BuildError::InvalidName),
            Some(name) => Ok(
                ParseModel {
                    section: SectionModel::Vendors(
                        Some(VendorView { id, name, devices: seq![] }),
                        last,
                    ),
                    ..flushed(st)
                },
            ),
        },
        LineKind::Device(id) => match open {
            None => Err(BuildError::MissingVendor),
            Some(v) => match decoded_name(l) {
                None => Err(BuildError::InvalidName),
                Some(name) => {
                    let d = DeviceView { vendor_id: v.id, id, name, interfaces: seq![] };
                    Ok(
                        ParseModel {
                            section: SectionModel::Vendors(
                                Some(VendorView { devices: v.devices.push(d), ..v }),
                                id,
                            ),
                            ..st
                        },
                    )
                },
            },
        },
        LineKind::Nested(id) => match open {
            None => Err(BuildError::MissingVendor),
            Some(v) => match first_index(device_ids(v.devices), last) {
                None => Err(BuildError::MissingDevice),
                Some(j) => match decoded_name(l) {
                    None => Err(BuildError::InvalidName),
                    Some(name) => {
                        let d = v.devices[j];
                        let d2 = DeviceView {
                            interfaces: d.interfaces.push(InterfaceView { id, name }),
                            ..d
                        };
                        Ok(
                            ParseModel {
                                section: SectionModel::Vendors(
                                    Some(VendorView { devices: v.devices.update(j, d2), ..v }),
                                    last,
                                ),
                                ..st
                            },
                        )
                    },
                },
            },
        },
        _ => Ok(st),
    }
}

/// One line in the class section.
pub open spec fn class_step(st: ParseModel, l: Seq<u8>) -> Result<ParseModel, BuildError> {
    let (open, last) = match st.section {
        SectionModel::Classes(open, last) => (open, last),
        _ => (None, 0),
    };
    match line_kind(l) {
        LineKind::ClassHeader(id) => match decoded_name(l) {
            None => Err(BuildError::InvalidName),
            Some(name) => Ok(
                ParseModel {
                    section: SectionModel::Classes(
                        Some(ClassView { id, name, sub_classes: seq![] }),
                        last,
                    ),
                    ..flushed(st)
                },
            ),
        },
        LineKind::SubClass(id) => match open {
            None => Err(BuildError::MissingClass),
            Some(c) => match decoded_name(l) {
                None => Err(BuildError::InvalidName),
                Some(name) => {
                    let s = SubClassView { class_id: c.id, id, name, protocols: seq![] };
                    Ok(
                        ParseModel {
                            section: SectionModel::Classes(
                                Some(ClassView { sub_classes: c.sub_classes.push(s), ..c }),
                                id,
                            ),
                            ..st
                        },
                    )
                },
            },
        },
        LineKind::Nested(id) => match open {
            None => Err(BuildError::MissingClass),
            Some(c) => match first_index(sub_class_ids(c.sub_classes), last) {
                None => Err(BuildError::MissingSubClass),
                Some(j) => match decoded_name(l) {
                    None => Err(BuildError::InvalidName),
                    Some(name) => {
                        let s = c.sub_classes[j];
                        let s2 = SubClassView {
                            protocols: s.protocols.push(ProtocolView { id, name }),
                            ..s
                        };
                        Ok(
                            ParseModel {
                                section: SectionModel::Classes(
                                    Some(ClassView { sub_classes: c.sub_classes.update(j, s2), ..c }),
                                    last,
                                ),
                                ..st
                            },
                        )
                    },
                },
            },
        },
        _ => Ok(st),
    }
}

/// One line, in whatever section the builder is in. A line that starts
/// with `C ` leaves the vendor section, a type marker leaves either section, and nothing
/// leaves the type section.
pub open spec fn step(st: ParseModel, l: Seq<u8>) -> Result<ParseModel, BuildError> {
    match st.section {
        SectionModel::Types => Ok(st),
        SectionModel::Vendors(_, _) => {
            if marks_class_section(l) {
                class_step(ParseModel { section: SectionModel::Classes(None, 0), ..flushed(st) }, l)
            } else {
                match line_kind(l) {
                    LineKind::TypeMarker => Ok(
                        ParseModel { section: SectionModel::Types, ..flushed(st) },
                    ),
                    _ => vendor_step(st, l),
                }
            }
        },
        SectionModel::Classes(_, _) => match line_kind(l) {
            LineKind::TypeMarker => Ok(ParseModel { section: SectionModel::Types, ..flushed(st) }),
            _ => class_step(st, l),
        },
    }
}

/// The forests read from `lines` from the state `st` on: the first error
/// met, or the finished forests after the last line.
pub open spec fn run(lines: Seq<Seq<u8>>, st: ParseModel) -> Result<
    (Seq<VendorView>, Seq<ClassView>),
    BuildError,
>
    decreases lines.len(),
{
    if lines.len() == 0 {
        let f = flushed(st);
        Ok((f.vendors, f.classes))
    } else {
        match step(st, lines[0]) {
            Err(e) => Err(e),
            Ok(next) => run(lines.drop_first(), next),
        }
    }
}

/// The vendor forest and the class forest of a registry text.
pub open spec fn parse_model(text: Seq<u8>) -> Result<(Seq<VendorView>, Seq<ClassView>), BuildError> {
    run(registry_lines(text), initial_model())
}

/// Once in the type section, the remaining lines change nothing.
pub proof fn lemma_run_in_types(lines: Seq<Seq<u8>>, st: ParseModel)
    requires
        st.section is Types,
    ensures
        run(lines, st) == Ok::<_, BuildError>((flushed(st).vendors, flushed(st).classes)),
    decreases lines.len(),
{
    if lines.len() > 0 {
        lemma_run_in_types(lines.drop_first(), st);
    }
}

/// Every device of `v` holds `v`'s id.
pub open spec fn vendor_linked(v: VendorView) -> bool {
    forall|k: int| 0 <= k < v.devices.len() ==> (#[trigger] v.devices[k]).vendor_id == v.id
}

/// Every subclass of `c` holds `c`'s id.
pub open spec fn class_linked(c: ClassView) -> bool {
    forall|k: int| 0 <= k < c.sub_classes.len() ==> (#[trigger] c.sub_classes[k]).class_id == c.id
}

pub open spec fn vendors_linked(vs: Seq<VendorView>) -> bool {
    forall|i: int| 0 <= i < vs.len() ==> vendor_linked(#[trigger] vs[i])
}

pub open spec fn classes_linked(cs: Seq<ClassView>) -> bool {
    forall|i: int| 0 <= i < cs.len() ==> class_linked(#[trigger] cs[i])
}

spec fn model_linked(st: ParseModel) -> bool {
    &&& vendors_linked(st.vendors)
    &&& classes_linked(st.classes)
    &&& match st.section {
        SectionModel::Vendors(Some(v), _) => vendor_linked(v),
        SectionModel::Classes(Some(c), _) => class_linked(c),
        _ => true,
    }
}

proof fn lemma_flushed_linked(st: ParseModel)
    requires
        model_linked(st),
    ensures
        vendors_linked(flushed(st).vendors),
        classes_linked(flushed(st).classes),
{
}

proof fn lemma_step_linked(st: ParseModel, l: Seq<u8>)
    requires
        model_linked(st),
    ensures
        step(st, l) matches Ok(next) ==> model_linked(next),
{
    lemma_flushed_linked(st);
    match st.section {
        SectionModel::Vendors(Some(v), last) => {
            if let LineKind::Nested(id) = line_kind(l) {
                if let Some(j) = first_index(device_ids(v.devices), last) {
                    lemma_first_index(device_ids(v.devices), last);
                }
            }
        },
        SectionModel::Classes(Some(c), last) => {
            if let LineKind::Nested(id) = line_kind(l) {
                if let Some(j) = first_index(sub_class_ids(c.sub_classes), last) {
                    lemma_first_index(sub_class_ids(c.sub_classes), last);
                }
            }
        },
        _ => {},
    }
}

proof fn lemma_run_linked(lines: Seq<Seq<u8>>, st: ParseModel)
    requires
        model_linked(st),
    ensures
        run(lines, st) matches Ok((vs, cs)) ==> vendors_linked(vs) && classes_linked(cs),
    decreases lines.len(),
{
    if lines.len() == 0 {
        lemma_flushed_linked(st);
    } else {
        lemma_step_linked(st, lines[0]);
        if let Ok(next) = step(st, lines[0]) {
            lemma_run_linked(lines.drop_first(), next);
        }
    }
}

/// Every device read from a registry holds the id of the vendor it was read
/// under, and every subclass the id of its class.
pub proof fn lemma_parse_linked(text: Seq<u8>)
    ensures
        parse_model(text) matches Ok((vs, cs)) ==> vendors_linked(vs) && classes_linked(cs),
{
    lemma_run_linked(registry_lines(text), initial_model());
}

/// Relies on std::str::from_utf8: it accepts exactly the valid UTF-8 byte
/// strings, and the text it returns is made of those bytes.
#[verifier::external_body]
fn utf8_str(b: &[u8]) -> (r: Option<&str>)
    ensures
        r is Some <==> valid_utf8(b@),
        r matches Some(s) ==> s.spec_bytes() == b@,
{
    std::str::from_utf8(b).ok()
}

/// The name that starts at `start` on the line `l`, or none where it is not
/// UTF-8.
fn read_name(l: &[u8], start: usize) -> (r: Option<String>)
    requires
        start <= l@.len(),
    ensures
        match r {
            Some(n) => valid_utf8(l@.subrange(start as int, l@.len() as int)) && n@ == decode_utf8(
                l@.subrange(start as int, l@.len() as int),
            ),
            None => !valid_utf8(l@.subrange(start as int, l@.len() as int)),
        },
{
    let bytes = &l[start..l.len()];
    match utf8_str(bytes) {
        Some(s) => {
            proof {
                encode_utf8_decode_utf8(s@);
            }
            Some(s.to_owned())
        },
        None => None,
    }
}

/// The section the builder is in, with the open entity and the id of the
/// last child line.
enum ParserState {
    Vendors(Option<Vendor>, u16),
    Classes(Option<Class>, u8),
    Types,
}

spec fn section_of(state: ParserState) -> SectionModel {
    match state {
        ParserState::Vendors(Some(v), last) => SectionModel::Vendors(Some(v@), last),
        ParserState::Vendors(None, last) => SectionModel::Vendors(None, last),
        ParserState::Classes(Some(c), last) => SectionModel::Classes(Some(c@), last),
        ParserState::Classes(None, last) => SectionModel::Classes(None, last),
        ParserState::Types => SectionModel::Types,
    }
}

spec fn model_of(state: ParserState, vendors: Seq<Vendor>, classes: Seq<Class>) -> ParseModel {
    ParseModel {
        section: section_of(state),
        vendors: vendor_views(vendors),
        classes: class_views(classes),
    }
}

/// The builder: its section and the forests finished so far.
struct Parser {
    state: ParserState,
    vendors: Vec<Vendor>,
    classes: Vec<Class>,
}

/// The model of what a step of the builder returned.
spec fn step_result(r: Result<Parser, BuildError>) -> Result<ParseModel, BuildError> {
    match r {
        Ok(p) => Ok(p.model()),
        Err(e) => Err(e),
    }
}

/// Moves the open vendor or class of `state` to the finished forests.
fn flush_open(state: ParserState, vendors: Vec<Vendor>, classes: Vec<Class>) -> (r: (
    Vec<Vendor>,
    Vec<Class>,
))
    ensures
        vendor_views(r.0@) == flushed(model_of(state, vendors@, classes@)).vendors,
        class_views(r.1@) == flushed(model_of(state, vendors@, classes@)).classes,
{
    let mut vendors = vendors;
    let mut classes = classes;
    let ghost vs = vendors@;
    let ghost cs = classes@;
    match state {
        ParserState::Vendors(Some(v), _) => {
            vendors.push(v);
            assert(vendor_views(vendors@) =~= vendor_views(vs).push(v@));
        },
        ParserState::Classes(Some(c), _) => {
            classes.push(c);
            assert(class_views(classes@) =~= class_views(cs).push(c@));
        },
        _ => {},
    }
    (vendors, classes)
}

impl Parser {
    spec fn model(self) -> ParseModel {
        model_of(self.state, self.vendors@, self.classes@)
    }

    fn new() -> (r: Parser)
        ensures
            r.model() == initial_model(),
    {
        let r = Parser {
            state: ParserState::Vendors(None, 0),
            vendors: Vec::new(),
            classes: Vec::new(),
        };
        assert(vendor_views(r.vendors@) =~= seq![]);
        assert(class_views(r.classes@) =~= seq![]);
        r
    }

    /// The finished forests once the input has ended.
    fn finish(self) -> (r: (Vec<Vendor>, Vec<Class>))
        ensures
            vendor_views(r.0@) == flushed(self.model()).vendors,
            class_views(r.1@) == flushed(self.model()).classes,
    {
        flush_open(self.state, self.vendors, self.classes)
    }

    fn vendor_line(self, k: LineKind, l: &[u8]) -> (r: Result<Parser, BuildError>)
        requires
            self.state is Vendors,
            k == line_kind(l@),
        ensures
            step_result(r) == vendor_step(self.model(), l@),
    {
        let Parser { state, vendors, classes } = self;
        let (open, last) = match state {
            ParserState::Vendors(open, last) => (open, last),
            _ => (None, 0),
        };
        match k {
            LineKind::Vendor(id) => match read_name(l, 6) {
                None => Err(BuildError::InvalidName),
                Some(name) => {
                    let (vendors, classes) = flush_open(
                        ParserState::Vendors(open, last),
                        vendors,
                        classes,
                    );
                    let open = Vendor::new(id, name);
                    Ok(Parser { state: ParserState::Vendors(Some(open), last), vendors, classes })
                },
            },
            LineKind::Device(id) => match open {
                None => Err(BuildError::MissingVendor),
                Some(v) => match read_name(l, 7) {
                    None => Err(BuildError::InvalidName),
                    Some(name) => {
                        let mut v = v;
                        let vendor_id = v.id();
                        v.push_device(Device::new(vendor_id, id, name));
                        Ok(Parser { state: ParserState::Vendors(Some(v), id), vendors, classes })
                    },
                },
            },
            LineKind::Nested(id) => match open {
                None => Err(BuildError::MissingVendor),
                Some(v) => match v.device_position(last) {
                    None => Err(BuildError::MissingDevice),
                    Some(j) => match read_name(l, 6) {
                        None => Err(BuildError::InvalidName),
                        Some(name) => {
                            let mut v = v;
                            proof {
                                lemma_first_index(device_ids(v@.devices), last);
                            }
                            v.push_interface(j, Interface::new(id, name));
                            Ok(Parser { state: ParserState::Vendors(Some(v), last), vendors, classes })
                        },
                    },
                },
            },
            _ => Ok(Parser { state: ParserState::Vendors(open, last), vendors, classes }),
        }
    }

    fn class_line(self, k: LineKind, l: &[u8]) -> (r: Result<Parser, BuildError>)
        requires
            self.state is Classes,
            k == line_kind(l@),
        ensures
            step_result(r) == class_step(self.model(), l@),
    {
        let Parser { state, vendors, classes } = self;
        let (open, last) = match state {
            ParserState::Classes(open, last) => (open, last),
            _ => (None, 0),
        };
        match k {
            LineKind::ClassHeader(id) => match read_name(l, 6) {
                None => Err(BuildError::InvalidName),
                Some(name) => {
                    let (vendors, classes) = flush_open(
                        ParserState::Classes(open, last),
                        vendors,
                        classes,
                    );
                    let open = Class::new(id, name);
                    Ok(Parser { state: ParserState::Classes(Some(open), last), vendors, classes })
                },
            },
            LineKind::SubClass(id) => match open {
                None => Err(BuildError::MissingClass),
                Some(c) => match read_name(l, 5) {
                    None => Err(BuildError::InvalidName),
                    Some(name) => {
                        let mut c = c;
                        let class_id = c.id();
                        c.push_sub_class(SubClass::new(class_id, id, name));
                        Ok(Parser { state: ParserState::Classes(Some(c), id), vendors, classes })
                    },
                },
            },
            LineKind::Nested(id) => match open {
                None => Err(BuildError::MissingClass),
                Some(c) => match c.sub_class_position(last) {
                    None => Err(BuildError::MissingSubClass),
                    Some(j) => match read_name(l, 6) {
                        None => Err(BuildError::InvalidName),
                        Some(name) => {
                            let mut c = c;
                            proof {
                                lemma_first_index(sub_class_ids(c@.sub_classes), last);
                            }
                            c.push_protocol(j, Protocol::new(id, name));
                            Ok(Parser { state: ParserState::Classes(Some(c), last), vendors, classes })
                        },
                    },
                },
            },
            _ => Ok(Parser { state: ParserState::Classes(open, last), vendors, classes }),
        }
    }

    fn step(self, l: &[u8]) -> (r: Result<Parser, BuildError>)
        ensures
            step_result(r) == step(self.model(), l@),
    {
        let k = classify_line(l);
        let Parser { state, vendors, classes } = self;
        match state {
            ParserState::Types => Ok(Parser { state: ParserState::Types, vendors, classes }),
            ParserState::Vendors(open, last) => {
                if is_class_section_mark(l) {
                    let (vendors, classes) = flush_open(
                        ParserState::Vendors(open, last),
                        vendors,
                        classes,
                    );
                    let p = Parser { state: ParserState::Classes(None, 0), vendors, classes };
                    p.class_line(k, l)
                } else if let LineKind::TypeMarker = k {
                    let (vendors, classes) = flush_open(
                        ParserState::Vendors(open, last),
                        vendors,
                        classes,
                    );
                    Ok(Parser { state: ParserState::Types, vendors, classes })
                } else {
                    let p = Parser { state: ParserState::Vendors(open, last), vendors, classes };
                    p.vendor_line(k, l)
                }
            },
            ParserState::Classes(open, last) => match k {
                LineKind::TypeMarker => {
                    let (vendors, classes) = flush_open(
                        ParserState::Classes(open, last),
                        vendors,
                        classes,
                    );
                    Ok(Parser { state: ParserState::Types, vendors, classes })
                },
                _ => {
                    let p = Parser { state: ParserState::Classes(open, last), vendors, classes };
                    p.class_line(k, l)
                },
            },
        }
    }
}

/// Reads a registry text into its vendor forest and its class forest, in
/// registry order.
///
/// Blank lines, comments and lines of no known shape are skipped. A child
/// line without its parent, or an entity name that is not UTF-8, fails the
/// whole build.
pub fn parse_registry(text: &[u8]) -> (r: Result<(Vec<Vendor>, Vec<Class>), BuildError>)
    ensures
        match r {
            Ok((vendors, classes)) => parse_model(text@) == Ok::<_, BuildError>(
                (vendor_views(vendors@), class_views(classes@)),
            ),
            Err(e) => parse_model(text@) == Err::<(Seq<VendorView>, Seq<ClassView>), _>(e),
        },
{
    let mut p = Parser::new();
    let mut start: usize = 0;
    let mut i: usize = 0;
    while i < text.len()
        invariant
            start <= i <= text@.len(),
            run(lines_from(text@, start as int, i as int), p.model()) == parse_model(text@),
        decreases text@.len() - i,
    {
        if text[i] == NEWLINE {
            let hi = if i > start && text[i - 1] == CARRIAGE_RETURN {
                i - 1
            } else {
                i
            };
            let line = &text[start..hi];
            let ghost rest = lines_from(text@, i + 1, i + 1);
            assert(line@ =~= strip_cr(text@.subrange(start as int, i as int)));
            assert((seq![line@] + rest).drop_first() =~= rest);
            match p.step(line) {
                Err(e) => {
                    return Err(e);
                },
                Ok(next) => {
                    p = next;
                },
            }
            start = i + 1;
            assert(run(rest, p.model()) == parse_model(text@));
            if let ParserState::Types = p.state {
                proof {
                    lemma_run_in_types(rest, p.model());
                }
                return Ok(p.finish());
            }
        }
        i = i + 1;
    }
    if start < text.len() {
        let hi = if text[text.len() - 1] == CARRIAGE_RETURN {
            text.len() - 1
        } else {
            text.len()
        };
        let line = &text[start..hi];
        assert(line@ =~= strip_cr(text@.subrange(start as int, text@.len() as int)));
        assert(seq![line@].drop_first() =~= seq![]);
        match p.step(line) {
            Err(e) => {
                return Err(e);
            },
            Ok(next) => {
                p = next;
            },
        }
        assert(run(seq![line@].drop_first(), p.model()) == parse_model(text@));
    }
    assert(run(seq![], p.model()) == parse_model(text@));
    Ok(p.finish())
}

} // verus!
