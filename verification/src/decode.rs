//! Decoding of a raw frame into an event: the frame is split into records,
//! the records are grouped by owner, and each group goes to the factory of
//! its owner.

use vstd::prelude::*;
use crate::error::{DecodeError, SectionError};
use crate::events::event::Event;
use crate::events::section::Section;
use crate::factory::{RawEventSectionFactory, SectionFactories};
use crate::raw::{
    frame_error, frame_records, parse_raw_sections, records_of, BpfRawSection, RawRecord,
};
use crate::section_id::SectionId;

verus! {

/// The records of `records` that `owner` owns, in the same order.
pub open spec fn owned_by(records: Seq<RawRecord>, owner: u8) -> Seq<RawRecord>
    decreases records.len(),
{
    if records.len() == 0 {
        Seq::empty()
    } else if records.last().owner == owner {
        owned_by(records.drop_last(), owner).push(records.last())
    } else {
        owned_by(records.drop_last(), owner)
    }
}

/// Whether `records` holds a record of `owner`.
pub open spec fn has_records(records: Seq<RawRecord>, owner: SectionId) -> bool {
    owned_by(records, owner.wire_id()).len() > 0
}

/// Whether the factory registered for `owner` may build `section` from the
/// records of `owner`.
pub open spec fn built<F: RawEventSectionFactory>(
    factories: Map<SectionId, F>,
    records: Seq<RawRecord>,
    owner: SectionId,
    section: Section,
) -> bool {
    factories.contains_key(owner) && factories[owner].creates(
        owned_by(records, owner.wire_id()),
        Ok(section),
    )
}

/// Whether every owner that has records and comes before `owner` in numeric
/// order had a section built for it.
pub open spec fn earlier_built<F: RawEventSectionFactory>(
    factories: Map<SectionId, F>,
    records: Seq<RawRecord>,
    owner: SectionId,
) -> bool {
    forall|p: SectionId|
        p.wire_id() < owner.wire_id() && #[trigger] has_records(records, p) ==> exists|
            s: Section,
        |
            built(factories, records, p, s)
}

/// What decoding the records of an accepted frame may give.
///
/// Owners are served in the order of their numeric identifiers. An event
/// comes out when every owner that has records has a factory that built a
/// section from them: the event then holds exactly these sections. Otherwise
/// the error names the first owner without a factory, or the first owner
/// whose factory failed, with the error of that factory.
pub open spec fn decoded<F: RawEventSectionFactory>(
    factories: Map<SectionId, F>,
    records: Seq<RawRecord>,
    r: Result<Event, DecodeError>,
) -> bool {
    match r {
        Ok(event) => forall|o: SectionId|
            (#[trigger] event@.contains_key(o) <==> has_records(records, o)) && (
            event@.contains_key(o) ==> built(factories, records, o, event@[o])),
        Err(DecodeError::MissingFactory(o)) => has_records(records, o) && !factories.contains_key(
            o,
        ) && earlier_built(factories, records, o),
        Err(DecodeError::SectionDecode(o, e)) => has_records(records, o) && factories.contains_key(
            o,
        ) && factories[o].creates(owned_by(records, o.wire_id()), Err(e)) && earlier_built(
            factories,
            records,
            o,
        ),
        Err(_) => false,
    }
}

/// The sections of `all` that `owner` owns, in the same order.
fn sections_of<'a>(all: &Vec<BpfRawSection<'a>>, owner: u8) -> (r: Vec<BpfRawSection<'a>>)
    requires
        forall|i: int| 0 <= i < all@.len() ==> (#[trigger] all@[i]).wf(),
    ensures
        records_of(r@) == owned_by(records_of(all@), owner),
        forall|i: int| 0 <= i < r@.len() ==> (#[trigger] r@[i]).wf(),
{
    let mut out: Vec<BpfRawSection<'a>> = Vec::new();
    let mut i: usize = 0;
    assert(records_of(all@).take(0) =~= Seq::<RawRecord>::empty());
    assert(records_of(out@) =~= Seq::<RawRecord>::empty());
    while i < all.len()
        invariant
            i <= all@.len(),
            records_of(out@) == owned_by(records_of(all@).take(i as int), owner),
            forall|k: int| 0 <= k < out@.len() ==> (#[trigger] out@[k]).wf(),
            forall|k: int| 0 <= k < all@.len() ==> (#[trigger] all@[k]).wf(),
        decreases all@.len() - i,
    {
        let section = all[i];
        let ghost before = out@;
        let ghost prefix = records_of(all@).take(i as int);
        let ghost next = records_of(all@).take(i + 1);
        proof {
            assert(next.drop_last() =~= prefix);
            assert(next.last() == section@);
        }
        if section.header.owner == owner {
            out.push(section);
            assert(records_of(out@) =~= records_of(before).push(section@));
        }
        i += 1;
    }
    assert(records_of(all@).take(all@.len() as int) =~= records_of(all@));
    out
}

/// Decodes one raw frame into an event.
///
/// A frame that is rejected as a whole gives its error and leaves the
/// factories alone. Otherwise every owner with a record in the frame gets, in
/// the order of the numeric identifiers, all its records handed to its
/// factory in one call, and the section that comes back is stored under that
/// owner; see [`decoded`]. The factory of an owner without a record is not
/// called and stays as it is. A frame without a record of a known owner
/// gives an event without sections.
pub fn parse_raw_event<'a, F: RawEventSectionFactory>(
    data: &'a [u8],
    factories: &mut SectionFactories<F>,
) -> (r: Result<Event, DecodeError>)
    ensures
        final(factories)@.dom() == old(factories)@.dom(),
        forall|o: SectionId|
            old(factories)@.contains_key(o) && !has_records(frame_records(data@), o)
                ==> #[trigger] final(factories)@[o] == old(factories)@[o],
        match frame_error(data@) {
            Some(e) => r == Err::<Event, DecodeError>(e) && final(factories)@ == old(factories)@,
            None => decoded(old(factories)@, frame_records(data@), r),
        },
{
    let raw_sections = match parse_raw_sections(data) {
        Ok(v) => v,
        Err(e) => {
            return Err(e);
        },
    };
    let ghost records = frame_records(data@);
    let ghost fs = old(factories)@;
    let mut event = Event::new();
    let mut cur: Option<SectionId> = Some(SectionId::Common);
    while cur.is_some()
        invariant
            records == records_of(raw_sections@),
            records == frame_records(data@),
            frame_error(data@) is None,
            fs == old(factories)@,
            forall|i: int| 0 <= i < raw_sections@.len() ==> (#[trigger] raw_sections@[i]).wf(),
            factories@.dom() == fs.dom(),
            forall|o: SectionId|
                fs.contains_key(o) && !has_records(records, o) ==> #[trigger] factories@[o]
                    == fs[o],
            forall|o: SectionId|
                (cur matches Some(c) ==> o.wire_id() >= c.wire_id()) && cur is Some
                    && fs.contains_key(o) ==> #[trigger] factories@[o] == fs[o],
            forall|o: SectionId|
                #[trigger] event@.contains_key(o) <==> (cur matches Some(c) ==> o.wire_id()
                    < c.wire_id()) && has_records(records, o),
            forall|o: SectionId|
                #[trigger] event@.contains_key(o) ==> built(fs, records, o, event@[o]),
        decreases
                match cur {
                    Some(c) => 12 - c.wire_id(),
                    None => 0,
                },
    {
        let owner = cur.unwrap();
        let group = sections_of(&raw_sections, owner.to_u8());
        let ghost held = event@;
        if group.len() > 0 {
            proof {
                assert forall|p: SectionId|
                    p.wire_id() < owner.wire_id() && #[trigger] has_records(
                        records,
                        p,
                    ) implies exists|s: Section| built(fs, records, p, s) by {
                    assert(event@.contains_key(p));
                    assert(built(fs, records, p, event@[p]));
                }
            }
            match factories.create(owner, group) {
                None => {
                    return Err(DecodeError::MissingFactory(owner));
                },
                Some(Err(e)) => {
                    return Err(DecodeError::SectionDecode(owner, e));
                },
                Some(Ok(section)) => {
                    match event.insert_section(owner, section) {
                        Ok(()) => {},
                        Err(e) => {
                            return Err(e);
                        },
                    }
                },
            }
        }
        let ghost prev = cur;
        cur = owner.next();
        proof {
            assert forall|o: SectionId|
                #[trigger] event@.contains_key(o) <==> (cur matches Some(c) ==> o.wire_id()
                    < c.wire_id()) && has_records(records, o) by {
                if o != owner {
                    assert(event@.contains_key(o) == held.contains_key(o));
                }
            }
            assert forall|o: SectionId| #[trigger] event@.contains_key(o) implies built(
                fs,
                records,
                o,
                event@[o],
            ) by {
                if o != owner {
                    assert(held.contains_key(o));
                }
            }
        }
    }
    Ok(event)
}

/// A frame that is accepted as a whole decodes to an event whose sections are
/// exactly those of the owners with a record in the frame, as soon as each of
/// these owners has a factory that does not fail on its records.
pub proof fn lemma_decode_succeeds<F: RawEventSectionFactory>(
    factories: Map<SectionId, F>,
    frame: Seq<u8>,
    r: Result<Event, DecodeError>,
)
    requires
        frame_error(frame) is None,
        decoded(factories, frame_records(frame), r),
        forall|o: SectionId| #[trigger]
            has_records(frame_records(frame), o) ==> factories.contains_key(o) && forall|
                e: SectionError,
            |
                !factories[o].creates(owned_by(frame_records(frame), o.wire_id()), Err(e)),
    ensures
        r is Ok,
        forall|o: SectionId| #[trigger]
            r->Ok_0@.contains_key(o) <==> has_records(frame_records(frame), o),
{
}

} // verus!
