//! The cache beside an HDT file: what takes long to compute from the file, and
//! where in the file the rest is found.
//!
//! A cache file:
//! ```text
//! [control information]        type Index, format "<http://purl.org/HDT/hdt#cacheV4>"
//!   - properties["order"]      SPO=1, SOP=2, PSO=3, etc.
//!   - properties["numTriples"] number of triples
//!   - properties["headerSize"] size of the header in bytes
//! [wavelet matrix]             as `sucds` serializes it
//! [bitmap y offset: u64]       nine offsets into the HDT file, little-endian
//! [bitmap z offset: u64]
//! [sequence z offset: u64]
//! [dictionary offset: u64]
//! [shared terms offset: u64]
//! [subjects offset: u64]
//! [predicates offset: u64]
//! [objects offset: u64]
//! [triples offset: u64]
//! [op index bitmap]            as `sucds` serializes it
//! [op index sequence]          as `sucds` serializes it
//! ```
use crate::containers::control_info::{ControlInfo, ControlInfoView, ControlType, Properties};
use crate::io_error::{IoError, IoErrorView};
use crate::text::{decimal_text, parse_unsigned, same_text, ParseIntError};
use crate::triples::cache_source::CachePlan;
use crate::triples::wavelet::{
    deserialize_wavelet, read_word, serialize_bit_vector, serialize_compact_vector,
    serialize_wavelet, wavelet_length, wavelet_size_in_bytes,
};
use crate::triples::{Order, UnrecognizedOrder};
use bytesize::ByteSize;
use sucds::bit_vectors::Rank9Sel;
use sucds::char_sequences::WaveletMatrix;
use sucds::int_vectors::CompactVector;
use vstd::bytes::u64_to_le_bytes;
use vstd::prelude::*;
use vstd::slice::slice_subrange;

verus! {

/// What follows the name of an HDT file in the name of its cache file.
pub const CACHE_EXT: &'static str = "index.v5-rust-cache";

/// The format of a cache file.
pub const CACHE_FORMAT: &'static str = "<http://purl.org/HDT/hdt#cacheV4>";

/// A property of a cache's control information.
#[derive(Debug, Clone, Copy, PartialEq, Eq, Structural)]
pub enum CacheProperty {
    Order,
    NumTriples,
    HeaderSize,
}

impl CacheProperty {
    /// The key of the property.
    pub open spec fn spec_key(self) -> Seq<char> {
        match self {
            CacheProperty::Order => "order"@,
            CacheProperty::NumTriples => "numTriples"@,
            CacheProperty::HeaderSize => "headerSize"@,
        }
    }

    /// The key of the property.
    pub fn key(&self) -> (key: &'static str)
        ensures
            key@ == self.spec_key(),
            match self {
                CacheProperty::Order => key@ == "order"@,
                CacheProperty::NumTriples => key@ == "numTriples"@,
                CacheProperty::HeaderSize => key@ == "headerSize"@,
            },
    {
        match self {
            CacheProperty::Order => "order",
            CacheProperty::NumTriples => "numTriples",
            CacheProperty::HeaderSize => "headerSize",
        }
    }
}

/// Why a cache could not be read or made.
#[derive(Debug)]
pub enum HybridCacheError {
    /// The HDT file holds no triples, so no cache can be made of it.
    EmptyHdt,
    /// The cache lacks a property.
    MissingProperty(CacheProperty),
    /// A property of the cache is no number, or too large.
    Number(ParseIntError),
    /// The cache's order is none.
    InvalidOrder(UnrecognizedOrder),
    /// The HDT file's order is none.
    UnrecognizedOrder(UnrecognizedOrder),
    /// The HDT file has no order, or one that is no number.
    UnknownTriplesOrder,
    /// What was to be a cache file begins with something else.
    WrongControlType(ControlType),
    /// The cache file has another format.
    UnsupportedFormat(String),
    Io(IoError),
    /// Another failure, in words.
    Other(String),
}

/// The model of [`HybridCacheError`].
pub enum HybridCacheErrorView {
    EmptyHdt,
    MissingProperty(CacheProperty),
    Number(ParseIntError),
    InvalidOrder(UnrecognizedOrder),
    UnrecognizedOrder(UnrecognizedOrder),
    UnknownTriplesOrder,
    WrongControlType(ControlType),
    UnsupportedFormat(Seq<char>),
    Io(IoErrorView),
    Other(Seq<char>),
}

impl View for HybridCacheError {
    type V = HybridCacheErrorView;

    open spec fn view(&self) -> HybridCacheErrorView {
        match self {
            HybridCacheError::EmptyHdt => HybridCacheErrorView::EmptyHdt,
            HybridCacheError::MissingProperty(p) => HybridCacheErrorView::MissingProperty(*p),
            HybridCacheError::Number(e) => HybridCacheErrorView::Number(*e),
            HybridCacheError::InvalidOrder(e) => HybridCacheErrorView::InvalidOrder(*e),
            HybridCacheError::UnrecognizedOrder(e) => HybridCacheErrorView::UnrecognizedOrder(*e),
            HybridCacheError::UnknownTriplesOrder => HybridCacheErrorView::UnknownTriplesOrder,
            HybridCacheError::WrongControlType(found) => HybridCacheErrorView::WrongControlType(
                *found,
            ),
            HybridCacheError::UnsupportedFormat(found) => HybridCacheErrorView::UnsupportedFormat(
                found@,
            ),
            HybridCacheError::Io(e) => HybridCacheErrorView::Io(e@),
            HybridCacheError::Other(message) => HybridCacheErrorView::Other(message@),
        }
    }
}

impl HybridCacheErrorView {
    /// What the error says.
    pub open spec fn message(self) -> Seq<char> {
        match self {
            HybridCacheErrorView::EmptyHdt => "HDT file contains no triples"@,
            HybridCacheErrorView::MissingProperty(p) => p.spec_key()
                + " property not found in cache"@,
            HybridCacheErrorView::Number(e) => e.spec_message(),
            HybridCacheErrorView::InvalidOrder(e) => "Invalid order value: "@ + e.spec_message(),
            HybridCacheErrorView::UnrecognizedOrder(e) => e.spec_message(),
            HybridCacheErrorView::UnknownTriplesOrder =>
                "unknown triples order in HDT triples control info"@,
            HybridCacheErrorView::WrongControlType(found) =>
                "Invalid cache file: expected Index control type, found "@ + found.spec_name(),
            HybridCacheErrorView::UnsupportedFormat(found) =>
                "Unsupported cache format: expected "@ + CACHE_FORMAT@ + ", found "@ + found,
            HybridCacheErrorView::Io(e) => e.message(),
            HybridCacheErrorView::Other(message) => message,
        }
    }
}

impl HybridCacheError {
    /// What the error says.
    pub fn message(&self) -> (text: String)
        ensures
            text@ == self@.message(),
    {
        match self {
            HybridCacheError::EmptyHdt => "HDT file contains no triples".to_owned(),
            HybridCacheError::MissingProperty(p) => {
                let mut text = p.key().to_owned();
                text.append(" property not found in cache");
                text
            },
            HybridCacheError::Number(e) => e.message(),
            HybridCacheError::InvalidOrder(e) => {
                let mut text = "Invalid order value: ".to_owned();
                text.append(e.message().as_str());
                text
            },
            HybridCacheError::UnrecognizedOrder(e) => e.message(),
            HybridCacheError::UnknownTriplesOrder => {
                "unknown triples order in HDT triples control info".to_owned()
            },
            HybridCacheError::WrongControlType(found) => {
                let mut text = "Invalid cache file: expected Index control type, found ".to_owned();
                text.append(found.name());
                text
            },
            HybridCacheError::UnsupportedFormat(found) => {
                let mut text = "Unsupported cache format: expected ".to_owned();
                text.append(CACHE_FORMAT);
                text.append(", found ");
                text.append(found.as_str());
                text
            },
            HybridCacheError::Io(e) => e.message(),
            HybridCacheError::Other(message) => message.clone(),
        }
    }
}

/// Where the sections of an HDT file begin that are read on demand.
#[derive(Debug, Clone, Copy, PartialEq, Eq, Structural)]
pub struct SectionOffsets {
    pub bitmap_y: u64,
    pub bitmap_z: u64,
    pub sequence_z: u64,
    pub dictionary: u64,
    pub dict_shared: u64,
    pub dict_subjects: u64,
    pub dict_predicates: u64,
    pub dict_objects: u64,
    pub triples: u64,
}

/// What is kept in memory of an HDT file, and where the rest is found.
pub struct HybridCache {
    /// Holds the order, the number of triples and the size of the header.
    pub control_info: ControlInfo,
    /// Computed from the file, in memory at all times.
    pub wavelet_y: WaveletMatrix<Rank9Sel>,
    /// Where bitmap y begins in the HDT file.
    pub bitmap_y_offset: u64,
    /// Where bitmap z begins in the HDT file.
    pub bitmap_z_offset: u64,
    /// Where sequence z begins in the HDT file.
    pub sequence_z_offset: u64,
    /// Where the dictionary begins in the HDT file.
    pub dictionary_offset: u64,
    /// Where the dictionary's shared terms begin in the HDT file.
    pub dict_shared_offset: u64,
    /// Where the dictionary's subjects begin in the HDT file.
    pub dict_subjects_offset: u64,
    /// Where the dictionary's predicates begin in the HDT file.
    pub dict_predicates_offset: u64,
    /// Where the dictionary's objects begin in the HDT file.
    pub dict_objects_offset: u64,
    /// Where the triples begin in the HDT file.
    pub triples_offset: u64,
}

/// The model of [`HybridCache`]. The matrix is taken as the bytes that it
/// serializes to.
pub struct HybridCacheView {
    pub control_info: ControlInfoView,
    pub wavelet_y: Seq<u8>,
    pub offsets: SectionOffsets,
}

impl View for HybridCache {
    type V = HybridCacheView;

    open spec fn view(&self) -> HybridCacheView {
        HybridCacheView {
            control_info: self.control_info@,
            wavelet_y: crate::triples::wavelet::wavelet_encoding(self.wavelet_y),
            offsets: SectionOffsets {
                bitmap_y: self.bitmap_y_offset,
                bitmap_z: self.bitmap_z_offset,
                sequence_z: self.sequence_z_offset,
                dictionary: self.dictionary_offset,
                dict_shared: self.dict_shared_offset,
                dict_subjects: self.dict_subjects_offset,
                dict_predicates: self.dict_predicates_offset,
                dict_objects: self.dict_objects_offset,
                triples: self.triples_offset,
            },
        }
    }
}

/// The number under a property of a cache, of at most `max`.
pub open spec fn cache_number(
    control_info: ControlInfoView,
    property: CacheProperty,
    max: nat,
) -> Result<nat, HybridCacheErrorView> {
    match control_info.property(property.spec_key()) {
        None => Err(HybridCacheErrorView::MissingProperty(property)),
        Some(text) => match crate::text::parsed_unsigned(text, max) {
            Ok(n) => Ok(n),
            Err(e) => Err(HybridCacheErrorView::Number(e)),
        },
    }
}

/// Reads the number under a property of a cache.
fn read_cache_number(control_info: &ControlInfo, property: CacheProperty, max: u64) -> (number: Result<
    u64,
    HybridCacheError,
>)
    ensures
        match number {
            Ok(n) => cache_number(control_info@, property, max as nat) == Ok::<
                nat,
                HybridCacheErrorView,
            >(n as nat) && n <= max,
            Err(e) => cache_number(control_info@, property, max as nat) == Err::<
                nat,
                HybridCacheErrorView,
            >(e@),
        },
{
    match control_info.get(property.key()) {
        None => Err(HybridCacheError::MissingProperty(property)),
        Some(text) => match parse_unsigned(text.as_str(), max) {
            Ok(n) => Ok(n),
            Err(e) => Err(HybridCacheError::Number(e)),
        },
    }
}

impl HybridCache {
    /// The order of the triples.
    pub fn order(&self) -> (order: Result<Order, HybridCacheError>)
        ensures
            match order {
                Ok(order) => cache_number(self.control_info@, CacheProperty::Order, 255) == Ok::<
                    nat,
                    HybridCacheErrorView,
                >(order.spec_number() as nat),
                Err(HybridCacheError::InvalidOrder(e)) => e.number > 6 && cache_number(
                    self.control_info@,
                    CacheProperty::Order,
                    255,
                ) == Ok::<nat, HybridCacheErrorView>(e.number as nat),
                Err(e) => cache_number(self.control_info@, CacheProperty::Order, 255) == Err::<
                    nat,
                    HybridCacheErrorView,
                >(e@),
            },
            match order {
                Ok(order) => self.control_info.properties@.contains_key("order"@)
                    && crate::text::parsed_unsigned(
                    self.control_info.properties@["order"@],
                    255,
                ) == Ok::<nat, ParseIntError>(order.spec_number() as nat),
                Err(HybridCacheError::MissingProperty(p)) => p == CacheProperty::Order
                    && !self.control_info.properties@.contains_key("order"@),
                Err(HybridCacheError::Number(e)) => self.control_info.properties@.contains_key(
                    "order"@,
                ) && crate::text::parsed_unsigned(self.control_info.properties@["order"@], 255)
                    == Err::<nat, ParseIntError>(e),
                Err(HybridCacheError::InvalidOrder(e)) => e.number > 6
                    && self.control_info.properties@.contains_key("order"@)
                    && crate::text::parsed_unsigned(self.control_info.properties@["order"@], 255)
                    == Ok::<nat, ParseIntError>(e.number as nat),
                Err(_) => false,
            },
    {
        let number: u64 = read_cache_number(&self.control_info, CacheProperty::Order, 255)?;
        match Order::try_from(number as u32) {
            Ok(order) => Ok(order),
            Err(e) => Err(HybridCacheError::InvalidOrder(e)),
        }
    }

    /// The number of triples.
    pub fn num_triples(&self) -> (number: Result<usize, HybridCacheError>)
        ensures
            match number {
                Ok(n) => cache_number(
                    self.control_info@,
                    CacheProperty::NumTriples,
                    usize::MAX as nat,
                ) == Ok::<nat, HybridCacheErrorView>(n as nat),
                Err(e) => cache_number(
                    self.control_info@,
                    CacheProperty::NumTriples,
                    usize::MAX as nat,
                ) == Err::<nat, HybridCacheErrorView>(e@),
            },
            match number {
                Ok(n) => self.control_info.properties@.contains_key("numTriples"@)
                    && crate::text::parsed_unsigned(
                    self.control_info.properties@["numTriples"@],
                    usize::MAX as nat,
                ) == Ok::<nat, ParseIntError>(n as nat),
                Err(HybridCacheError::MissingProperty(p)) => p == CacheProperty::NumTriples
                    && !self.control_info.properties@.contains_key("numTriples"@),
                Err(HybridCacheError::Number(e)) => self.control_info.properties@.contains_key(
                    "numTriples"@,
                ) && crate::text::parsed_unsigned(self.control_info.properties@["numTriples"@], usize::MAX as nat)
                    == Err::<nat, ParseIntError>(e),
                Err(_) => false,
            },
    {
        match read_cache_number(&self.control_info, CacheProperty::NumTriples, usize::MAX as u64) {
            Ok(n) => Ok(n as usize),
            Err(e) => Err(e),
        }
    }

    /// The size of the HDT file's header in bytes.
    pub fn header_size(&self) -> (size: Result<u64, HybridCacheError>)
        ensures
            match size {
                Ok(n) => cache_number(
                    self.control_info@,
                    CacheProperty::HeaderSize,
                    u64::MAX as nat,
                ) == Ok::<nat, HybridCacheErrorView>(n as nat),
                Err(e) => cache_number(
                    self.control_info@,
                    CacheProperty::HeaderSize,
                    u64::MAX as nat,
                ) == Err::<nat, HybridCacheErrorView>(e@),
            },
            match size {
                Ok(n) => self.control_info.properties@.contains_key("headerSize"@)
                    && crate::text::parsed_unsigned(
                    self.control_info.properties@["headerSize"@],
                    u64::MAX as nat,
                ) == Ok::<nat, ParseIntError>(n as nat),
                Err(HybridCacheError::MissingProperty(p)) => p == CacheProperty::HeaderSize
                    && !self.control_info.properties@.contains_key("headerSize"@),
                Err(HybridCacheError::Number(e)) => self.control_info.properties@.contains_key(
                    "headerSize"@,
                ) && crate::text::parsed_unsigned(self.control_info.properties@["headerSize"@], u64::MAX as nat)
                    == Err::<nat, ParseIntError>(e),
                Err(_) => false,
            },
    {
        read_cache_number(&self.control_info, CacheProperty::HeaderSize, u64::MAX)
    }
}

/// The control information of a cache.
pub open spec fn cache_control_info(
    order: Order,
    num_triples: nat,
    header_size: nat,
) -> ControlInfoView {
    ControlInfoView {
        control_type: ControlType::Index,
        format: CACHE_FORMAT@,
        properties: Map::empty().insert(
            "order"@,
            crate::text::decimal(order.spec_number() as nat),
        ).insert("numTriples"@, crate::text::decimal(num_triples)).insert(
            "headerSize"@,
            crate::text::decimal(header_size),
        ),
    }
}

impl HybridCache {
    /// The cache of an HDT file, from what it says of the file and its matrix.
    pub fn new(plan: CachePlan, wavelet_y: WaveletMatrix<Rank9Sel>) -> (cache: HybridCache)
        ensures
            cache.wavelet_y == wavelet_y,
            cache@ == (HybridCacheView {
                control_info: cache_control_info(
                    plan.order,
                    plan.num_triples as nat,
                    plan.header_size as nat,
                ),
                wavelet_y: crate::triples::wavelet::wavelet_encoding(wavelet_y),
                offsets: plan.offsets,
            }),
            cache.control_info.control_type == ControlType::Index,
            cache.control_info.format@ == "<http://purl.org/HDT/hdt#cacheV4>"@,
            cache.control_info.properties@ == Map::<Seq<char>, Seq<char>>::empty().insert(
                "order"@,
                crate::text::decimal(plan.order.spec_number() as nat),
            ).insert("numTriples"@, crate::text::decimal(plan.num_triples as nat)).insert(
                "headerSize"@,
                crate::text::decimal(plan.header_size as nat),
            ),
            cache.bitmap_y_offset == plan.offsets.bitmap_y,
            cache.bitmap_z_offset == plan.offsets.bitmap_z,
            cache.sequence_z_offset == plan.offsets.sequence_z,
            cache.dictionary_offset == plan.offsets.dictionary,
            cache.dict_shared_offset == plan.offsets.dict_shared,
            cache.dict_subjects_offset == plan.offsets.dict_subjects,
            cache.dict_predicates_offset == plan.offsets.dict_predicates,
            cache.dict_objects_offset == plan.offsets.dict_objects,
            cache.triples_offset == plan.offsets.triples,
    {
        let CachePlan { order, num_triples, header_size, offsets } = plan;
        let mut properties = Properties::new();
        properties.insert("order".to_owned(), decimal_text(order.number() as u64));
        properties.insert("numTriples".to_owned(), decimal_text(num_triples as u64));
        properties.insert("headerSize".to_owned(), decimal_text(header_size));
        HybridCache {
            control_info: ControlInfo {
                control_type: ControlType::Index,
                format: CACHE_FORMAT.to_owned(),
                properties,
            },
            wavelet_y,
            bitmap_y_offset: offsets.bitmap_y,
            bitmap_z_offset: offsets.bitmap_z,
            sequence_z_offset: offsets.sequence_z,
            dictionary_offset: offsets.dictionary,
            dict_shared_offset: offsets.dict_shared,
            dict_subjects_offset: offsets.dict_subjects,
            dict_predicates_offset: offsets.dict_predicates,
            dict_objects_offset: offsets.dict_objects,
            triples_offset: offsets.triples,
        }
    }
}

/// The order, the number of triples and the size of the header that a cache
/// was made with are read back from it.
pub proof fn cache_metadata_is_read_back(order: Order, num_triples: nat, header_size: nat)
    requires
        num_triples <= usize::MAX,
        header_size <= u64::MAX,
    ensures
        cache_number(
            cache_control_info(order, num_triples, header_size),
            CacheProperty::Order,
            255,
        ) == Ok::<nat, HybridCacheErrorView>(order.spec_number() as nat),
        cache_number(
            cache_control_info(order, num_triples, header_size),
            CacheProperty::NumTriples,
            usize::MAX as nat,
        ) == Ok::<nat, HybridCacheErrorView>(num_triples),
        cache_number(
            cache_control_info(order, num_triples, header_size),
            CacheProperty::HeaderSize,
            u64::MAX as nat,
        ) == Ok::<nat, HybridCacheErrorView>(header_size),
{
    reveal_strlit("order");
    reveal_strlit("numTriples");
    reveal_strlit("headerSize");
    assert("order"@.len() == 5 && "numTriples"@.len() == 10 && "headerSize"@.len() == 10);
    assert("numTriples"@[0] != "headerSize"@[0]);
    crate::text::decimal_is_read_back(order.spec_number() as nat, 255);
    crate::text::decimal_is_read_back(num_triples, usize::MAX as nat);
    crate::text::decimal_is_read_back(header_size, u64::MAX as nat);
}

/// The nine offsets that stand in some bytes from `at` on.
pub open spec fn offsets_at(b: Seq<u8>, at: int) -> SectionOffsets {
    SectionOffsets {
        bitmap_y: crate::triples::wavelet::word_at(b, at),
        bitmap_z: crate::triples::wavelet::word_at(b, at + 8),
        sequence_z: crate::triples::wavelet::word_at(b, at + 16),
        dictionary: crate::triples::wavelet::word_at(b, at + 24),
        dict_shared: crate::triples::wavelet::word_at(b, at + 32),
        dict_subjects: crate::triples::wavelet::word_at(b, at + 40),
        dict_predicates: crate::triples::wavelet::word_at(b, at + 48),
        dict_objects: crate::triples::wavelet::word_at(b, at + 56),
        triples: crate::triples::wavelet::word_at(b, at + 64),
    }
}

/// What is read from a cache file whose control information is `control_info`
/// and ends at `position`: the cache, and where the op index begins. The type
/// is checked first, then the format, then that the file holds the rest.
pub open spec fn cache_outcome(control_info: ControlInfoView, file: Seq<u8>, position: int) -> Result<
    (HybridCacheView, int),
    HybridCacheErrorView,
> {
    let rest = file.skip(position);
    if control_info.control_type != ControlType::Index {
        Err(HybridCacheErrorView::WrongControlType(control_info.control_type))
    } else if control_info.format != CACHE_FORMAT@ {
        Err(HybridCacheErrorView::UnsupportedFormat(control_info.format))
    } else {
        match crate::triples::wavelet::wavelet_extent(rest) {
            None => Err(HybridCacheErrorView::Io(IoErrorView::UnexpectedEof)),
            Some(n) => if rest.len() < n + 72 {
                Err(HybridCacheErrorView::Io(IoErrorView::UnexpectedEof))
            } else {
                Ok(
                    (
                        HybridCacheView {
                            control_info,
                            wavelet_y: crate::triples::wavelet::normal_wavelet(rest),
                            offsets: offsets_at(rest, n),
                        },
                        position + n + 72,
                    ),
                )
            },
        }
    }
}

impl HybridCache {
    /// Reads a cache from the bytes of a cache file whose control information
    /// is `control_info` and ends at `position`. Also tells where the op index
    /// begins: its bitmap, then its sequence.
    pub fn read_from_file(control_info: ControlInfo, file: &[u8], position: usize) -> (read: Result<
        (HybridCache, u64),
        HybridCacheError,
    >)
        requires
            position <= file@.len(),
        ensures
            match read {
                Ok((cache, op_index_offset)) => cache_outcome(
                    control_info@,
                    file@,
                    position as int,
                ) == Ok::<(HybridCacheView, int), HybridCacheErrorView>(
                    (cache@, op_index_offset as int),
                ),
                Err(e) => cache_outcome(control_info@, file@, position as int) == Err::<
                    (HybridCacheView, int),
                    HybridCacheErrorView,
                >(e@),
            },
            match read {
                Ok((cache, op_index_offset)) => {
                    let at = op_index_offset - 72;
                    &&& control_info.control_type == ControlType::Index
                    &&& control_info.format@ == CACHE_FORMAT@
                    &&& cache.control_info == control_info
                    &&& position <= at && op_index_offset <= file@.len()
                    &&& crate::triples::wavelet::wavelet_extent(file@.skip(position as int)) == Some(
                        at - position,
                    )
                    &&& crate::triples::wavelet::wavelet_encoding(cache.wavelet_y)
                        == crate::triples::wavelet::normal_wavelet(file@.skip(position as int))
                    &&& cache.bitmap_y_offset == vstd::bytes::spec_u64_from_le_bytes(
                        file@.subrange(at, at + 8),
                    )
                    &&& cache.bitmap_z_offset == vstd::bytes::spec_u64_from_le_bytes(
                        file@.subrange(at + 8, at + 16),
                    )
                    &&& cache.sequence_z_offset == vstd::bytes::spec_u64_from_le_bytes(
                        file@.subrange(at + 16, at + 24),
                    )
                    &&& cache.dictionary_offset == vstd::bytes::spec_u64_from_le_bytes(
                        file@.subrange(at + 24, at + 32),
                    )
                    &&& cache.dict_shared_offset == vstd::bytes::spec_u64_from_le_bytes(
                        file@.subrange(at + 32, at + 40),
                    )
                    &&& cache.dict_subjects_offset == vstd::bytes::spec_u64_from_le_bytes(
                        file@.subrange(at + 40, at + 48),
                    )
                    &&& cache.dict_predicates_offset == vstd::bytes::spec_u64_from_le_bytes(
                        file@.subrange(at + 48, at + 56),
                    )
                    &&& cache.dict_objects_offset == vstd::bytes::spec_u64_from_le_bytes(
                        file@.subrange(at + 56, at + 64),
                    )
                    &&& cache.triples_offset == vstd::bytes::spec_u64_from_le_bytes(
                        file@.subrange(at + 64, at + 72),
                    )
                },
                Err(HybridCacheError::WrongControlType(found)) => found == control_info.control_type
                    && found != ControlType::Index,
                Err(HybridCacheError::UnsupportedFormat(found)) => control_info.control_type
                    == ControlType::Index && found@ == control_info.format@ && found@
                    != CACHE_FORMAT@,
                Err(HybridCacheError::Io(IoError::UnexpectedEof)) => control_info.control_type
                    == ControlType::Index && control_info.format@ == CACHE_FORMAT@
                    && match crate::triples::wavelet::wavelet_extent(file@.skip(position as int)) {
                    None => true,
                    Some(n) => file@.len() < position + n + 72,
                },
                Err(_) => false,
            },
    {
        if control_info.control_type != ControlType::Index {
            return Err(HybridCacheError::WrongControlType(control_info.control_type));
        }
        if !same_text(control_info.format.as_str(), CACHE_FORMAT) {
            return Err(HybridCacheError::UnsupportedFormat(control_info.format));
        }
        let size: usize = file.len();
        let rest = slice_subrange(file, position, size);
        assert(rest@ =~= file@.skip(position as int));
        let n: usize = match wavelet_length(rest) {
            None => return Err(HybridCacheError::Io(IoError::UnexpectedEof)),
            Some(n) => n,
        };
        if rest.len() - n < 72 {
            return Err(HybridCacheError::Io(IoError::UnexpectedEof));
        }
        let matrix = slice_subrange(rest, 0, n);
        proof {
            assert(matrix@ =~= rest@.take(n as int));
            assert(matrix@.take(n as int) =~= rest@.take(n as int));
            crate::triples::wavelet::lemma_wavelet_extent_agrees(rest@, matrix@);
        }
        let wavelet_y = deserialize_wavelet(matrix);
        proof {
            assert(rest@ == file@.skip(position as int));
            assert(rest@.subrange(n + 0, n + 8) =~= file@.subrange(
                position + n + 0,
                position + n + 8,
            ));
            assert(rest@.subrange(n + 8, n + 16) =~= file@.subrange(
                position + n + 8,
                position + n + 16,
            ));
            assert(rest@.subrange(n + 16, n + 24) =~= file@.subrange(
                position + n + 16,
                position + n + 24,
            ));
            assert(rest@.subrange(n + 24, n + 32) =~= file@.subrange(
                position + n + 24,
                position + n + 32,
            ));
            assert(rest@.subrange(n + 32, n + 40) =~= file@.subrange(
                position + n + 32,
                position + n + 40,
            ));
            assert(rest@.subrange(n + 40, n + 48) =~= file@.subrange(
                position + n + 40,
                position + n + 48,
            ));
            assert(rest@.subrange(n + 48, n + 56) =~= file@.subrange(
                position + n + 48,
                position + n + 56,
            ));
            assert(rest@.subrange(n + 56, n + 64) =~= file@.subrange(
                position + n + 56,
                position + n + 64,
            ));
            assert(rest@.subrange(n + 64, n + 72) =~= file@.subrange(
                position + n + 64,
                position + n + 72,
            ));
        }
        let cache = HybridCache {
            control_info,
            wavelet_y,
            bitmap_y_offset: read_word(rest, n),
            bitmap_z_offset: read_word(rest, n + 8),
            sequence_z_offset: read_word(rest, n + 16),
            dictionary_offset: read_word(rest, n + 24),
            dict_shared_offset: read_word(rest, n + 32),
            dict_subjects_offset: read_word(rest, n + 40),
            dict_predicates_offset: read_word(rest, n + 48),
            dict_objects_offset: read_word(rest, n + 56),
            triples_offset: read_word(rest, n + 64),
        };
        Ok((cache, (position + n + 72) as u64))
    }
}

/// What a cache file holds behind its nine offsets does not matter to the cache
/// that is read from it.
pub proof fn bytes_after_the_offsets_do_not_matter(
    control_info: ControlInfoView,
    file: Seq<u8>,
    other: Seq<u8>,
    position: int,
)
    requires
        0 <= position <= file.len(),
        cache_outcome(control_info, file, position) matches Ok((_, end)) && end <= other.len()
            && other.take(end) == file.take(end),
    ensures
        cache_outcome(control_info, other, position) == cache_outcome(control_info, file, position),
{
    let b = file.skip(position);
    let c = other.skip(position);
    let n = crate::triples::wavelet::wavelet_extent(b).unwrap();
    let end = position + n + 72;
    assert forall|i: int| 0 <= i < n + 72 implies b[i] == c[i] by {
        assert(file.take(end)[position + i] == b[i]);
        assert(other.take(end)[position + i] == c[i]);
    }
    assert(b.take(n) =~= c.take(n));
    crate::triples::wavelet::lemma_wavelet_extent_agrees(b, c);
    assert(b.subrange(n, n + 8) =~= c.subrange(n, n + 8));
    assert(b.subrange(n + 8, n + 16) =~= c.subrange(n + 8, n + 16));
    assert(b.subrange(n + 16, n + 24) =~= c.subrange(n + 16, n + 24));
    assert(b.subrange(n + 24, n + 32) =~= c.subrange(n + 24, n + 32));
    assert(b.subrange(n + 32, n + 40) =~= c.subrange(n + 32, n + 40));
    assert(b.subrange(n + 40, n + 48) =~= c.subrange(n + 40, n + 48));
    assert(b.subrange(n + 48, n + 56) =~= c.subrange(n + 48, n + 56));
    assert(b.subrange(n + 56, n + 64) =~= c.subrange(n + 56, n + 64));
    assert(b.subrange(n + 64, n + 72) =~= c.subrange(n + 64, n + 72));
}

/// Appends a number in eight bytes, the lowest first.
fn push_word(bytes: &mut Vec<u8>, word: u64)
    ensures
        final(bytes)@ == old(bytes)@ + vstd::bytes::spec_u64_to_le_bytes(word),
{
    let word_bytes = u64_to_le_bytes(word);
    bytes.extend_from_slice(word_bytes.as_slice());
}

/// Nine offsets in the bytes of a cache file.
pub open spec fn offsets_encoding(offsets: SectionOffsets) -> Seq<u8> {
    vstd::bytes::spec_u64_to_le_bytes(offsets.bitmap_y) + vstd::bytes::spec_u64_to_le_bytes(
        offsets.bitmap_z,
    ) + vstd::bytes::spec_u64_to_le_bytes(offsets.sequence_z) + vstd::bytes::spec_u64_to_le_bytes(
        offsets.dictionary,
    ) + vstd::bytes::spec_u64_to_le_bytes(offsets.dict_shared) + vstd::bytes::spec_u64_to_le_bytes(
        offsets.dict_subjects,
    ) + vstd::bytes::spec_u64_to_le_bytes(offsets.dict_predicates)
        + vstd::bytes::spec_u64_to_le_bytes(offsets.dict_objects)
        + vstd::bytes::spec_u64_to_le_bytes(offsets.triples)
}

/// The bytes of a cache file: control information, matrix, offsets, and the
/// bitmap and the sequence of the op index.
pub open spec fn cache_encoding(
    control_info: Seq<u8>,
    cache: HybridCacheView,
    op_bitmap: Seq<u8>,
    op_sequence: Seq<u8>,
) -> Seq<u8> {
    control_info + cache.wavelet_y + offsets_encoding(cache.offsets) + op_bitmap + op_sequence
}

/// The offsets in some bytes are those that were put there.
proof fn lemma_offsets_are_read_back(before: Seq<u8>, offsets: SectionOffsets, after: Seq<u8>)
    ensures
        offsets_at(before + offsets_encoding(offsets) + after, before.len() as int) == offsets,
        offsets_encoding(offsets).len() == 72,
{
    vstd::bytes::lemma_auto_spec_u64_to_from_le_bytes();
    let n = before.len() as int;
    let b = before + offsets_encoding(offsets) + after;
    assert(b.subrange(n, n + 8) =~= vstd::bytes::spec_u64_to_le_bytes(offsets.bitmap_y));
    assert(b.subrange(n + 8, n + 16) =~= vstd::bytes::spec_u64_to_le_bytes(offsets.bitmap_z));
    assert(b.subrange(n + 16, n + 24) =~= vstd::bytes::spec_u64_to_le_bytes(offsets.sequence_z));
    assert(b.subrange(n + 24, n + 32) =~= vstd::bytes::spec_u64_to_le_bytes(offsets.dictionary));
    assert(b.subrange(n + 32, n + 40) =~= vstd::bytes::spec_u64_to_le_bytes(offsets.dict_shared));
    assert(b.subrange(n + 40, n + 48) =~= vstd::bytes::spec_u64_to_le_bytes(offsets.dict_subjects));
    assert(b.subrange(n + 48, n + 56) =~= vstd::bytes::spec_u64_to_le_bytes(
        offsets.dict_predicates,
    ));
    assert(b.subrange(n + 56, n + 64) =~= vstd::bytes::spec_u64_to_le_bytes(offsets.dict_objects));
    assert(b.subrange(n + 64, n + 72) =~= vstd::bytes::spec_u64_to_le_bytes(offsets.triples));
}

/// A cache file is read back, where the bytes of its matrix hold one matrix,
/// with flags of 0 and 1: whatever the bytes of its control information and of
/// its op index are.
pub proof fn encoded_cache_is_read_back(
    control_info: Seq<u8>,
    cache: HybridCacheView,
    op_bitmap: Seq<u8>,
    op_sequence: Seq<u8>,
)
    requires
        cache.control_info.control_type == ControlType::Index,
        cache.control_info.format == CACHE_FORMAT@,
        crate::triples::wavelet::wavelet_extent(cache.wavelet_y) == Some(
            cache.wavelet_y.len() as int,
        ),
        crate::triples::wavelet::normal_wavelet(cache.wavelet_y) == cache.wavelet_y,
    ensures
        cache_outcome(
            cache.control_info,
            cache_encoding(control_info, cache, op_bitmap, op_sequence),
            control_info.len() as int,
        ) == Ok::<(HybridCacheView, int), HybridCacheErrorView>(
            (cache, (control_info.len() + cache.wavelet_y.len() + 72) as int),
        ),
{
    let file = cache_encoding(control_info, cache, op_bitmap, op_sequence);
    let rest = file.skip(control_info.len() as int);
    let n = cache.wavelet_y.len() as int;
    lemma_offsets_are_read_back(cache.wavelet_y, cache.offsets, op_bitmap + op_sequence);
    assert(rest =~= cache.wavelet_y + offsets_encoding(cache.offsets) + (op_bitmap + op_sequence));
    assert(rest.take(n) =~= cache.wavelet_y.take(n));
    crate::triples::wavelet::lemma_wavelet_extent_agrees(cache.wavelet_y, rest);
}

/// A cache file is its five parts, each of them whole: control information,
/// matrix, the nine offsets in eight bytes each, and the bitmap and the sequence
/// of the op index, which are all that follows the offsets.
pub proof fn the_parts_of_a_cache_file(
    control_info: Seq<u8>,
    cache: HybridCacheView,
    op_bitmap: Seq<u8>,
    op_sequence: Seq<u8>,
)
    ensures
        ({
            let file = cache_encoding(control_info, cache, op_bitmap, op_sequence);
            let offsets = (control_info.len() + cache.wavelet_y.len()) as int;
            &&& file == control_info + cache.wavelet_y
                + vstd::bytes::spec_u64_to_le_bytes(cache.offsets.bitmap_y)
                + vstd::bytes::spec_u64_to_le_bytes(cache.offsets.bitmap_z)
                + vstd::bytes::spec_u64_to_le_bytes(cache.offsets.sequence_z)
                + vstd::bytes::spec_u64_to_le_bytes(cache.offsets.dictionary)
                + vstd::bytes::spec_u64_to_le_bytes(cache.offsets.dict_shared)
                + vstd::bytes::spec_u64_to_le_bytes(cache.offsets.dict_subjects)
                + vstd::bytes::spec_u64_to_le_bytes(cache.offsets.dict_predicates)
                + vstd::bytes::spec_u64_to_le_bytes(cache.offsets.dict_objects)
                + vstd::bytes::spec_u64_to_le_bytes(cache.offsets.triples)
                + op_bitmap + op_sequence
            &&& file.len() == offsets + 72 + op_bitmap.len() + op_sequence.len()
            &&& file.take(control_info.len() as int) == control_info
            &&& file.subrange(control_info.len() as int, offsets) == cache.wavelet_y
            &&& file.skip(offsets + 72) == op_bitmap + op_sequence
            &&& file.subrange(offsets + 72, offsets + 72 + op_bitmap.len()) == op_bitmap
            &&& file.skip(offsets + 72 + op_bitmap.len()) == op_sequence
        }),
{
    lemma_offsets_are_read_back(cache.wavelet_y, cache.offsets, op_bitmap + op_sequence);
    let file = cache_encoding(control_info, cache, op_bitmap, op_sequence);
    let offsets = (control_info.len() + cache.wavelet_y.len()) as int;
    assert(file =~= control_info + cache.wavelet_y
        + vstd::bytes::spec_u64_to_le_bytes(cache.offsets.bitmap_y)
        + vstd::bytes::spec_u64_to_le_bytes(cache.offsets.bitmap_z)
        + vstd::bytes::spec_u64_to_le_bytes(cache.offsets.sequence_z)
        + vstd::bytes::spec_u64_to_le_bytes(cache.offsets.dictionary)
        + vstd::bytes::spec_u64_to_le_bytes(cache.offsets.dict_shared)
        + vstd::bytes::spec_u64_to_le_bytes(cache.offsets.dict_subjects)
        + vstd::bytes::spec_u64_to_le_bytes(cache.offsets.dict_predicates)
        + vstd::bytes::spec_u64_to_le_bytes(cache.offsets.dict_objects)
        + vstd::bytes::spec_u64_to_le_bytes(cache.offsets.triples)
        + op_bitmap + op_sequence);
    assert(file.take(control_info.len() as int) =~= control_info);
    assert(file.subrange(control_info.len() as int, offsets) =~= cache.wavelet_y);
    assert(file.skip(offsets + 72) =~= op_bitmap + op_sequence);
    assert(file.subrange(offsets + 72, offsets + 72 + op_bitmap.len()) =~= op_bitmap);
    assert(file.skip(offsets + 72 + op_bitmap.len()) =~= op_sequence);
}

/// Different caches and different op indexes make different cache files, where
/// their control information and matrices, and their bitmaps, are of the same
/// lengths.
pub proof fn different_caches_make_different_files(
    control_info: Seq<u8>,
    a: HybridCacheView,
    b: HybridCacheView,
    a_bitmap: Seq<u8>,
    b_bitmap: Seq<u8>,
    a_sequence: Seq<u8>,
    b_sequence: Seq<u8>,
)
    requires
        cache_encoding(control_info, a, a_bitmap, a_sequence) == cache_encoding(
            control_info,
            b,
            b_bitmap,
            b_sequence,
        ),
        a.wavelet_y.len() == b.wavelet_y.len(),
        a_bitmap.len() == b_bitmap.len(),
    ensures
        a.wavelet_y == b.wavelet_y,
        a.offsets == b.offsets,
        a_bitmap == b_bitmap,
        a_sequence == b_sequence,
{
    the_parts_of_a_cache_file(control_info, a, a_bitmap, a_sequence);
    the_parts_of_a_cache_file(control_info, b, b_bitmap, b_sequence);
    lemma_offsets_are_read_back(control_info + a.wavelet_y, a.offsets, a_bitmap + a_sequence);
    lemma_offsets_are_read_back(control_info + b.wavelet_y, b.offsets, b_bitmap + b_sequence);
    let file = cache_encoding(control_info, a, a_bitmap, a_sequence);
    assert(file =~= control_info + a.wavelet_y + offsets_encoding(a.offsets) + (a_bitmap
        + a_sequence));
    assert(file =~= control_info + b.wavelet_y + offsets_encoding(b.offsets) + (b_bitmap
        + b_sequence));
}

/// What the errors of caches say of what they are about.
pub proof fn cache_errors_say_what_was_found(
    property: CacheProperty,
    number: ParseIntError,
    order: UnrecognizedOrder,
    found: ControlType,
    text: Seq<char>,
    io: IoErrorView,
)
    ensures
        HybridCacheErrorView::MissingProperty(property).message() == property.spec_key()
            + " property not found in cache"@,
        HybridCacheErrorView::Number(number).message() == number.spec_message(),
        HybridCacheErrorView::InvalidOrder(order).message() == "Invalid order value: "@
            + order.spec_message(),
        HybridCacheErrorView::UnrecognizedOrder(order).message() == order.spec_message(),
        order.spec_message() == "unrecognized triples order "@ + crate::text::decimal(
            order.number as nat,
        ),
        HybridCacheErrorView::WrongControlType(found).message()
            == "Invalid cache file: expected Index control type, found "@ + found.spec_name(),
        HybridCacheErrorView::UnsupportedFormat(text).message()
            == "Unsupported cache format: expected "@ + "<http://purl.org/HDT/hdt#cacheV4>"@
            + ", found "@ + text,
        HybridCacheErrorView::Io(io).message() == io.message(),
        HybridCacheErrorView::Io(IoErrorView::Other(text)).message() == text,
        HybridCacheErrorView::Other(text).message() == text,
{
}

/// The model of a cache holds what this holds.
pub proof fn cache_model_holds_the_same(cache: HybridCache)
    ensures
        cache@.control_info == cache.control_info@,
        cache@.wavelet_y == crate::triples::wavelet::wavelet_encoding(cache.wavelet_y),
        cache@.offsets.bitmap_y == cache.bitmap_y_offset,
        cache@.offsets.bitmap_z == cache.bitmap_z_offset,
        cache@.offsets.sequence_z == cache.sequence_z_offset,
        cache@.offsets.dictionary == cache.dictionary_offset,
        cache@.offsets.dict_shared == cache.dict_shared_offset,
        cache@.offsets.dict_subjects == cache.dict_subjects_offset,
        cache@.offsets.dict_predicates == cache.dict_predicates_offset,
        cache@.offsets.dict_objects == cache.dict_objects_offset,
        cache@.offsets.triples == cache.triples_offset,
{
}

impl HybridCache {
    /// The bytes of the cache file, of which `control_info` are those of its
    /// control information, and where the op index begins in them.
    ///
    /// What is written is what is read, if the control information is that of
    /// a cache.
    pub fn encode(
        &self,
        control_info: &[u8],
        op_bitmap: &Rank9Sel,
        op_sequence: &CompactVector,
    ) -> (written: (Vec<u8>, u64))
        ensures
            written.0@ == cache_encoding(
                control_info@,
                self@,
                crate::triples::wavelet::bit_vector_encoding(*op_bitmap),
                crate::triples::wavelet::compact_vector_encoding(*op_sequence),
            ),
            written.0@ == control_info@ + crate::triples::wavelet::wavelet_encoding(self.wavelet_y)
                + vstd::bytes::spec_u64_to_le_bytes(self.bitmap_y_offset)
                + vstd::bytes::spec_u64_to_le_bytes(self.bitmap_z_offset)
                + vstd::bytes::spec_u64_to_le_bytes(self.sequence_z_offset)
                + vstd::bytes::spec_u64_to_le_bytes(self.dictionary_offset)
                + vstd::bytes::spec_u64_to_le_bytes(self.dict_shared_offset)
                + vstd::bytes::spec_u64_to_le_bytes(self.dict_subjects_offset)
                + vstd::bytes::spec_u64_to_le_bytes(self.dict_predicates_offset)
                + vstd::bytes::spec_u64_to_le_bytes(self.dict_objects_offset)
                + vstd::bytes::spec_u64_to_le_bytes(self.triples_offset)
                + crate::triples::wavelet::bit_vector_encoding(*op_bitmap)
                + crate::triples::wavelet::compact_vector_encoding(*op_sequence),
            written.0@.take(control_info@.len() as int) == control_info@,
            written.0@.skip(written.1 as int) == crate::triples::wavelet::bit_vector_encoding(
                *op_bitmap,
            ) + crate::triples::wavelet::compact_vector_encoding(*op_sequence),
            written.0@.len() == control_info@.len() + crate::triples::wavelet::wavelet_encoding(
                self.wavelet_y,
            ).len() + 72 + crate::triples::wavelet::bit_vector_encoding(*op_bitmap).len()
                + crate::triples::wavelet::compact_vector_encoding(*op_sequence).len(),
            written.1 == control_info@.len() + self@.wavelet_y.len() + 72,
            self@.control_info.control_type == ControlType::Index
                && self@.control_info.format == CACHE_FORMAT@ ==> cache_outcome(
                self@.control_info,
                written.0@,
                control_info@.len() as int,
            ) == Ok::<(HybridCacheView, int), HybridCacheErrorView>((self@, written.1 as int)),
    {
        let mut bytes: Vec<u8> = Vec::new();
        bytes.extend_from_slice(control_info);
        let matrix = serialize_wavelet(&self.wavelet_y);
        bytes.extend_from_slice(matrix.as_slice());
        push_word(&mut bytes, self.bitmap_y_offset);
        push_word(&mut bytes, self.bitmap_z_offset);
        push_word(&mut bytes, self.sequence_z_offset);
        push_word(&mut bytes, self.dictionary_offset);
        push_word(&mut bytes, self.dict_shared_offset);
        push_word(&mut bytes, self.dict_subjects_offset);
        push_word(&mut bytes, self.dict_predicates_offset);
        push_word(&mut bytes, self.dict_objects_offset);
        push_word(&mut bytes, self.triples_offset);
        let op_index_offset: u64 = bytes.len() as u64;
        proof {
            lemma_offsets_are_read_back(Seq::empty(), self@.offsets, Seq::empty());
            assert(bytes@ =~= control_info@ + self@.wavelet_y + offsets_encoding(self@.offsets));
        }
        bytes.extend_from_slice(serialize_bit_vector(op_bitmap).as_slice());
        bytes.extend_from_slice(serialize_compact_vector(op_sequence).as_slice());
        proof {
            the_parts_of_a_cache_file(
                control_info@,
                self@,
                crate::triples::wavelet::bit_vector_encoding(*op_bitmap),
                crate::triples::wavelet::compact_vector_encoding(*op_sequence),
            );
            assert(bytes@ =~= cache_encoding(
                control_info@,
                self@,
                crate::triples::wavelet::bit_vector_encoding(*op_bitmap),
                crate::triples::wavelet::compact_vector_encoding(*op_sequence),
            ));
            if self@.control_info.control_type == ControlType::Index && self@.control_info.format
                == CACHE_FORMAT@ {
                encoded_cache_is_read_back(
                    control_info@,
                    self@,
                    crate::triples::wavelet::bit_vector_encoding(*op_bitmap),
                    crate::triples::wavelet::compact_vector_encoding(*op_sequence),
                );
            }
        }
        (bytes, op_index_offset)
    }
}

/// The name of the cache file of an HDT file, in the same directory.
pub open spec fn cache_name(file_name: Seq<char>) -> Seq<char> {
    file_name + "."@ + CACHE_EXT@
}

/// Different HDT files of a directory have different cache files.
pub proof fn different_files_have_different_caches(a: Seq<char>, b: Seq<char>)
    requires
        a != b,
    ensures
        cache_name(a) != cache_name(b),
{
    if cache_name(a) == cache_name(b) {
        assert(cache_name(a).len() == a.len() + "."@.len() + CACHE_EXT@.len());
        assert(cache_name(b).len() == b.len() + "."@.len() + CACHE_EXT@.len());
        assert(cache_name(a).take(a.len() as int) =~= a);
        assert(cache_name(b).take(b.len() as int) =~= b);
    }
}

/// What `bytesize` shows of a number of bytes.
pub uninterp spec fn byte_size_shown(bytes: u64) -> Seq<char>;

/// Formats a number of bytes as `bytesize`'s `ByteSize` displays it, in units
/// of powers of 1024. Below 1024 it is the number and `B`; what it is from
/// there on, a number with one decimal and the largest unit that fits, is left
/// to its name.
#[verifier::external_body]
fn show_byte_size(bytes: u64) -> (text: String)
    ensures
        text@ == byte_size_shown(bytes),
        bytes < 1024 ==> text@ == crate::text::decimal(bytes as nat) + " B"@,
{
    ByteSize(bytes).to_string()
}

/// What is said of the memory that a cache takes, from what is shown of it.
pub open spec fn memory_text(shown: Seq<char>) -> Seq<char> {
    "in-memory size "@ + shown + ": { "@ + shown + " wavelet_y }"@
}

/// What is said of the memory that a cache takes, from what is shown of it.
pub fn describe_memory(shown: &str) -> (text: String)
    ensures
        text@ == memory_text(shown@),
        text@ == "in-memory size "@ + shown@ + ": { "@ + shown@ + " wavelet_y }"@,
{
    let mut text = "in-memory size ".to_owned();
    text.append(shown);
    text.append(": { ");
    text.append(shown);
    text.append(" wavelet_y }");
    text
}

impl HybridCache {
    /// The name of the cache file of an HDT file with the given name, in the
    /// same directory.
    pub fn get_cache_path(file_name: Option<&str>) -> (name: String)
        ensures
            name@ == cache_name(
                match file_name {
                    Some(file_name) => file_name@,
                    None => "unknown"@,
                },
            ),
            file_name matches Some(file_name) ==> name@ == file_name@ + ".index.v5-rust-cache"@,
            file_name is None ==> name@ == "unknown.index.v5-rust-cache"@,
    {
        let mut name = match file_name {
            Some(file_name) => file_name.to_owned(),
            None => "unknown".to_owned(),
        };
        name.append(".");
        name.append(CACHE_EXT);
        proof {
            reveal_strlit(".");
            reveal_strlit("index.v5-rust-cache");
            reveal_strlit(".index.v5-rust-cache");
            reveal_strlit("unknown");
            reveal_strlit("unknown.index.v5-rust-cache");
            assert("."@ + "index.v5-rust-cache"@ =~= ".index.v5-rust-cache"@);
            assert("unknown"@ + "."@ + "index.v5-rust-cache"@ =~= "unknown.index.v5-rust-cache"@);
            if let Some(file_name) = file_name {
                assert(name@ =~= file_name@ + ".index.v5-rust-cache"@);
            }
        }
        name
    }

    /// What is said of the memory that the cache takes.
    pub fn fmt(&self) -> (text: String)
        ensures
            self@.wavelet_y.len() <= u64::MAX,
            text@ == memory_text(byte_size_shown(self@.wavelet_y.len() as u64)),
            text@ == "in-memory size "@ + byte_size_shown(
                crate::triples::wavelet::wavelet_encoding(self.wavelet_y).len() as u64,
            ) + ": { "@ + byte_size_shown(
                crate::triples::wavelet::wavelet_encoding(self.wavelet_y).len() as u64,
            ) + " wavelet_y }"@,
            self@.wavelet_y.len() < 1024 ==> text@ == memory_text(
                crate::text::decimal(self@.wavelet_y.len()) + " B"@,
            ),
    {
        let size: u64 = wavelet_size_in_bytes(&self.wavelet_y) as u64;
        describe_memory(show_byte_size(size).as_str())
    }
}

/// The models of errors hold what these hold.
pub proof fn cache_error_models_hold_the_same(e: HybridCacheError)
    ensures
        match e {
            HybridCacheError::EmptyHdt => e@ == HybridCacheErrorView::EmptyHdt,
            HybridCacheError::MissingProperty(p) => e@ == HybridCacheErrorView::MissingProperty(p),
            HybridCacheError::Number(n) => e@ == HybridCacheErrorView::Number(n),
            HybridCacheError::InvalidOrder(o) => e@ == HybridCacheErrorView::InvalidOrder(o),
            HybridCacheError::UnrecognizedOrder(o) => e@ == HybridCacheErrorView::UnrecognizedOrder(
                o,
            ),
            HybridCacheError::UnknownTriplesOrder => e@
                == HybridCacheErrorView::UnknownTriplesOrder,
            HybridCacheError::WrongControlType(c) => e@ == HybridCacheErrorView::WrongControlType(c),
            HybridCacheError::UnsupportedFormat(text) => e@
                == HybridCacheErrorView::UnsupportedFormat(text@),
            HybridCacheError::Io(io) => e@ == HybridCacheErrorView::Io(io@),
            HybridCacheError::Other(text) => e@ == HybridCacheErrorView::Other(text@),
        },
{
}

/// A cache is read where its type and its format are those of caches, and the
/// file holds a matrix and nine offsets behind the control information: they are
/// what it is read as, and the op index begins behind them.
pub proof fn caches_are_read_in_their_parts(
    control_info: ControlInfoView,
    file: Seq<u8>,
    position: int,
)
    requires
        0 <= position <= file.len(),
    ensures
        control_info.control_type != ControlType::Index ==> cache_outcome(
            control_info,
            file,
            position,
        ) == Err::<(HybridCacheView, int), HybridCacheErrorView>(
            HybridCacheErrorView::WrongControlType(control_info.control_type),
        ),
        control_info.control_type == ControlType::Index && control_info.format
            != "<http://purl.org/HDT/hdt#cacheV4>"@ ==> cache_outcome(control_info, file, position)
            == Err::<(HybridCacheView, int), HybridCacheErrorView>(
            HybridCacheErrorView::UnsupportedFormat(control_info.format),
        ),
        control_info.control_type == ControlType::Index && control_info.format
            == "<http://purl.org/HDT/hdt#cacheV4>"@ ==> match crate::triples::wavelet::wavelet_extent(
            file.subrange(position, file.len() as int),
        ) {
            Some(n) if position + n + 72 <= file.len() => cache_outcome(control_info, file, position)
                matches Ok((cache, end)) && end == position + n + 72 && cache.control_info
                == control_info && cache.wavelet_y == crate::triples::wavelet::normal_wavelet(
                file.subrange(position, file.len() as int),
            ) && offsets_encoding(cache.offsets) == file.subrange(end - 72, end),
            _ => cache_outcome(control_info, file, position) == Err::<
                (HybridCacheView, int),
                HybridCacheErrorView,
            >(HybridCacheErrorView::Io(IoErrorView::UnexpectedEof)),
        },
{
    let rest = file.skip(position);
    assert(rest == file.subrange(position, file.len() as int));
    if let Some(n) = crate::triples::wavelet::wavelet_extent(rest) {
        if position + n + 72 <= file.len() && 0 <= n {
            let at = position + n;
            lemma_offsets_are_the_bytes(rest, n);
            assert(rest.subrange(n, n + 72) =~= file.subrange(at, at + 72));
        }
        crate::triples::wavelet::lemma_extent_bounds(rest);
    }
}

/// The offsets that are read from 72 bytes are written as these bytes.
proof fn lemma_offsets_are_the_bytes(b: Seq<u8>, n: int)
    requires
        0 <= n,
        n + 72 <= b.len(),
    ensures
        offsets_encoding(offsets_at(b, n)) == b.subrange(n, n + 72),
{
    vstd::bytes::lemma_auto_spec_u64_to_from_le_bytes();
    assert forall|k: int| 0 <= k < 9 implies #[trigger] vstd::bytes::spec_u64_to_le_bytes(
        vstd::bytes::spec_u64_from_le_bytes(b.subrange(n + 8 * k, n + 8 * k + 8)),
    ) == b.subrange(n + 8 * k, n + 8 * k + 8) by {}
    assert(offsets_encoding(offsets_at(b, n)) =~= b.subrange(n, n + 8) + b.subrange(n + 8, n + 16)
        + b.subrange(n + 16, n + 24) + b.subrange(n + 24, n + 32) + b.subrange(n + 32, n + 40)
        + b.subrange(n + 40, n + 48) + b.subrange(n + 48, n + 56) + b.subrange(n + 56, n + 64)
        + b.subrange(n + 64, n + 72));
    assert(offsets_encoding(offsets_at(b, n)) =~= b.subrange(n, n + 72));
}

} // verus!
