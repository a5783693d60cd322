//! What a cache is made from: the sections of an HDT file, in the order in
//! which they are read, and what the cache keeps of them.
use crate::containers::control_info::{ControlInfo, ControlInfoView};
use crate::header::Header;
use crate::io_error::IoErrorView;
use crate::text::parse_unsigned;
use crate::triples::cache_load::boxed_io_error;
use crate::triples::hybrid_cache::{HybridCacheError, HybridCacheErrorView, SectionOffsets};
use crate::triples::Order;
use vstd::prelude::*;

verus! {

/// A part of an HDT file.
#[derive(Debug, Clone, Copy, PartialEq, Eq, Structural)]
pub enum Section {
    GlobalControlInfo,
    Header,
    DictionaryControlInfo,
    SharedTerms,
    Subjects,
    Predicates,
    Objects,
    TriplesControlInfo,
    BitmapY,
    BitmapZ,
    SequenceY,
    SequenceZ,
}

impl Section {
    /// The place of the section among those of a file, from 0.
    pub open spec fn place(self) -> int {
        match self {
            Section::GlobalControlInfo => 0,
            Section::Header => 1,
            Section::DictionaryControlInfo => 2,
            Section::SharedTerms => 3,
            Section::Subjects => 4,
            Section::Predicates => 5,
            Section::Objects => 6,
            Section::TriplesControlInfo => 7,
            Section::BitmapY => 8,
            Section::BitmapZ => 9,
            Section::SequenceY => 10,
            Section::SequenceZ => 11,
        }
    }
}

/// A walk through an HDT file: where each section that was come to begins.
#[derive(Debug)]
pub struct Scan {
    starts: Vec<u64>,
}

impl View for Scan {
    type V = Seq<u64>;

    closed spec fn view(&self) -> Seq<u64> {
        self.starts@
    }
}

/// The offsets that a cache keeps, from where the sections begin.
pub open spec fn offsets_of(starts: Seq<u64>) -> SectionOffsets {
    SectionOffsets {
        bitmap_y: starts[Section::BitmapY.place()],
        bitmap_z: starts[Section::BitmapZ.place()],
        sequence_z: starts[Section::SequenceZ.place()],
        dictionary: starts[Section::DictionaryControlInfo.place()],
        dict_shared: starts[Section::SharedTerms.place()],
        dict_subjects: starts[Section::Subjects.place()],
        dict_predicates: starts[Section::Predicates.place()],
        dict_objects: starts[Section::Objects.place()],
        triples: starts[Section::TriplesControlInfo.place()],
    }
}

impl Scan {
    /// A walk at the beginning of a file.
    pub fn new() -> (scan: Scan)
        ensures
            scan@ == Seq::<u64>::empty(),
    {
        Scan { starts: Vec::new() }
    }

    /// The section that comes next; `None` after the last.
    pub fn next(&self) -> (section: Option<Section>)
        ensures
            match section {
                Some(section) => section.place() == self@.len(),
                None => self@.len() >= 12,
            },
            section == if self@.len() == 0 {
                Some(Section::GlobalControlInfo)
            } else if self@.len() == 1 {
                Some(Section::Header)
            } else if self@.len() == 2 {
                Some(Section::DictionaryControlInfo)
            } else if self@.len() == 3 {
                Some(Section::SharedTerms)
            } else if self@.len() == 4 {
                Some(Section::Subjects)
            } else if self@.len() == 5 {
                Some(Section::Predicates)
            } else if self@.len() == 6 {
                Some(Section::Objects)
            } else if self@.len() == 7 {
                Some(Section::TriplesControlInfo)
            } else if self@.len() == 8 {
                Some(Section::BitmapY)
            } else if self@.len() == 9 {
                Some(Section::BitmapZ)
            } else if self@.len() == 10 {
                Some(Section::SequenceY)
            } else if self@.len() == 11 {
                Some(Section::SequenceZ)
            } else {
                None
            },
    {
        match self.starts.len() {
            0 => Some(Section::GlobalControlInfo),
            1 => Some(Section::Header),
            2 => Some(Section::DictionaryControlInfo),
            3 => Some(Section::SharedTerms),
            4 => Some(Section::Subjects),
            5 => Some(Section::Predicates),
            6 => Some(Section::Objects),
            7 => Some(Section::TriplesControlInfo),
            8 => Some(Section::BitmapY),
            9 => Some(Section::BitmapZ),
            10 => Some(Section::SequenceY),
            11 => Some(Section::SequenceZ),
            _ => None,
        }
    }

    /// Notes that the next section begins at `position`.
    pub fn begin(&mut self, position: u64)
        ensures
            final(self)@ == old(self)@.push(position),
    {
        self.starts.push(position);
    }

    /// The offsets that a cache keeps; `None` before the last section was come to.
    pub fn offsets(&self) -> (offsets: Option<SectionOffsets>)
        ensures
            match offsets {
                Some(offsets) => self@.len() >= 12 && offsets == offsets_of(self@),
                None => self@.len() < 12,
            },
            offsets matches Some(offsets) ==> offsets == (SectionOffsets {
                bitmap_y: self@[8],
                bitmap_z: self@[9],
                sequence_z: self@[11],
                dictionary: self@[2],
                dict_shared: self@[3],
                dict_subjects: self@[4],
                dict_predicates: self@[5],
                dict_objects: self@[6],
                triples: self@[7],
            }),
    {
        if self.starts.len() < 12 {
            None
        } else {
            Some(
                SectionOffsets {
                    bitmap_y: self.starts[8],
                    bitmap_z: self.starts[9],
                    sequence_z: self.starts[11],
                    dictionary: self.starts[2],
                    dict_shared: self.starts[3],
                    dict_subjects: self.starts[4],
                    dict_predicates: self.starts[5],
                    dict_objects: self.starts[6],
                    triples: self.starts[7],
                },
            )
        }
    }
}

/// The offsets lie in a file as its sections do.
pub proof fn offsets_follow_the_sections(starts: Seq<u64>)
    requires
        starts.len() >= 12,
        forall|i: int, j: int| 0 <= i < j < starts.len() ==> starts[i] < starts[j],
    ensures
        offsets_of(starts).dictionary < offsets_of(starts).dict_shared,
        offsets_of(starts).dict_shared < offsets_of(starts).dict_subjects,
        offsets_of(starts).dict_subjects < offsets_of(starts).dict_predicates,
        offsets_of(starts).dict_predicates < offsets_of(starts).dict_objects,
        offsets_of(starts).dict_objects < offsets_of(starts).triples,
        offsets_of(starts).triples < offsets_of(starts).bitmap_y,
        offsets_of(starts).bitmap_y < offsets_of(starts).bitmap_z,
        offsets_of(starts).bitmap_z < offsets_of(starts).sequence_z,
{
}

/// What came of reading a section of the dictionary on a thread of its own,
/// where `None` stands for a thread that panicked.
pub fn dictionary_section(joined: Option<Result<(), String>>) -> (read: Result<(), HybridCacheError>)
    ensures
        match joined {
            Some(Ok(_)) => read is Ok,
            Some(Err(cause)) => read matches Err(e) && e@ == HybridCacheErrorView::Other(cause@),
            None => read matches Err(e) && e@ == HybridCacheErrorView::Io(
                IoErrorView::Other("dictionary section read thread panicked"@),
            ),
        },
{
    match joined {
        Some(Ok(_)) => Ok(()),
        Some(Err(cause)) => Err(HybridCacheError::Other(cause)),
        None => Err(boxed_io_error("dictionary section read thread panicked".to_owned())),
    }
}

/// What a cache says of its HDT file.
#[derive(Debug, Clone, Copy, PartialEq, Eq, Structural)]
pub struct CachePlan {
    pub order: Order,
    pub num_triples: usize,
    pub header_size: u64,
    pub offsets: SectionOffsets,
}

/// The number under which a file's triples name their order.
pub open spec fn order_number(triples_info: ControlInfoView) -> Option<nat> {
    match triples_info.property("order"@) {
        None => None,
        Some(text) => match crate::text::parsed_unsigned(text, u32::MAX as nat) {
            Ok(n) => Some(n),
            Err(_) => None,
        },
    }
}

/// Decides what a cache says of an HDT file, from what was read of the file:
/// its header, the control information of its triples, their number, and where
/// the sections begin.
///
/// No cache is made of a file without triples.
pub fn plan_cache(
    header: &Header,
    triples_info: &ControlInfo,
    num_triples: usize,
    offsets: SectionOffsets,
) -> (plan: Result<CachePlan, HybridCacheError>)
    ensures
        match plan {
            Ok(plan) => num_triples > 0 && order_number(triples_info@) == Some(
                plan.order.spec_number() as nat,
            ) && plan.num_triples == num_triples && plan.header_size == header.length
                && plan.offsets == offsets,
            Err(HybridCacheError::EmptyHdt) => num_triples == 0,
            Err(HybridCacheError::UnknownTriplesOrder) => num_triples > 0 && order_number(
                triples_info@,
            ) is None,
            Err(HybridCacheError::UnrecognizedOrder(e)) => num_triples > 0 && e.number > 6
                && order_number(triples_info@) == Some(e.number as nat),
            Err(_) => false,
        },
        match plan {
            Ok(plan) => triples_info.properties@.contains_key("order"@)
                && crate::text::parsed_unsigned(
                triples_info.properties@["order"@],
                u32::MAX as nat,
            ) == Ok::<nat, crate::text::ParseIntError>(plan.order.spec_number() as nat),
            Err(HybridCacheError::UnknownTriplesOrder) => !triples_info.properties@.contains_key(
                "order"@,
            ) || crate::text::parsed_unsigned(
                triples_info.properties@["order"@],
                u32::MAX as nat,
            ) is Err,
            Err(HybridCacheError::UnrecognizedOrder(e)) => triples_info.properties@.contains_key(
                "order"@,
            ) && crate::text::parsed_unsigned(
                triples_info.properties@["order"@],
                u32::MAX as nat,
            ) == Ok::<nat, crate::text::ParseIntError>(e.number as nat),
            Err(_) => true,
        },
{
    if num_triples == 0 {
        return Err(HybridCacheError::EmptyHdt);
    }
    let number: u32 = match triples_info.get("order") {
        None => return Err(HybridCacheError::UnknownTriplesOrder),
        Some(text) => match parse_unsigned(text.as_str(), u32::MAX as u64) {
            Err(_) => return Err(HybridCacheError::UnknownTriplesOrder),
            Ok(n) => n as u32,
        },
    };
    match Order::try_from(number) {
        Err(e) => Err(HybridCacheError::UnrecognizedOrder(e)),
        Ok(order) => Ok(
            CachePlan { order, num_triples, header_size: header.length as u64, offsets },
        ),
    }
}

} // verus!
