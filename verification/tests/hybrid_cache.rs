use hdt::containers::control_info::{ControlInfo, ControlType, Properties};
use hdt::containers::triple_set::TripleSet;
use hdt::header::Header;
use hdt::io_error::IoError;
use hdt::text::ParseIntError;
use hdt::triples::cache_load::{Action, CacheLoad, LoadState, Reply};
use hdt::triples::cache_source::{dictionary_section, plan_cache, CachePlan, Scan, Section};
use hdt::triples::hybrid_cache::{
    describe_memory, HybridCache, HybridCacheError, SectionOffsets, CACHE_EXT, CACHE_FORMAT,
};
use hdt::triples::Order;
use sucds::bit_vectors::Rank9Sel;
use sucds::char_sequences::WaveletMatrix;
use sucds::int_vectors::CompactVector;
use sucds::Serializable;

fn values(n: usize) -> CompactVector {
    let mut values = CompactVector::new(8).unwrap();
    for i in 0..n {
        values.push_int(i * i % 200).unwrap();
    }
    values
}

fn matrix(n: usize) -> WaveletMatrix<Rank9Sel> {
    WaveletMatrix::new(values(n)).unwrap()
}

fn bits(n: usize) -> Rank9Sel {
    Rank9Sel::from_bits((0..n).map(|i| i % 3 == 0)).select1_hints()
}

fn header(length: usize) -> Header {
    Header { format: "ntriples".to_owned(), length, body: TripleSet::new() }
}

fn triples_info(order: Option<&str>) -> ControlInfo {
    let mut properties = Properties::new();
    if let Some(order) = order {
        properties.insert("order".to_owned(), order.to_owned());
    }
    ControlInfo {
        control_type: ControlType::Triples,
        format: "<http://purl.org/HDT/hdt#triplesBitmap>".to_owned(),
        properties,
    }
}

fn walk() -> Scan {
    let mut scan = Scan::new();
    for position in [0, 40, 1971, 2071, 3000, 4000, 5000, 6000, 6100, 6200, 6300, 6400] {
        scan.begin(position);
    }
    scan
}

fn plan(num_triples: usize) -> CachePlan {
    let offsets = walk().offsets().unwrap();
    plan_cache(&header(1891), &triples_info(Some("1")), num_triples, offsets).unwrap()
}

fn copy_of(info: &ControlInfo) -> ControlInfo {
    let mut properties = Properties::new();
    for key in ["order", "numTriples", "headerSize"] {
        if let Some(value) = info.get(key) {
            properties.insert(key.to_owned(), value);
        }
    }
    ControlInfo { control_type: info.control_type, format: info.format.clone(), properties }
}

/// The bytes that stand for a control information in these tests.
const CHUNK: &[u8] = b"$HDT control information";

/// A directory that may hold a cache file, and a lock.
struct Directory {
    file: Option<(Vec<u8>, ControlInfo)>,
    generated: usize,
}

impl Directory {
    fn read(&self) -> Result<(HybridCache, u64), HybridCacheError> {
        let (bytes, info) = self.file.as_ref().unwrap();
        HybridCache::read_from_file(copy_of(info), bytes, CHUNK.len())
    }

    fn generate(&mut self) -> Result<(HybridCache, u64), HybridCacheError> {
        let cache = HybridCache::new(plan(328), matrix(328));
        let (bytes, offset) = cache.encode(CHUNK, &bits(50), &values(20));
        self.file = Some((bytes, copy_of(&cache.control_info)));
        self.generated += 1;
        Ok((cache, offset))
    }

    fn perform(&mut self, action: Action) -> Reply<(HybridCache, u64)> {
        match action {
            Action::Lock(_) => Reply::Locked(Ok(())),
            Action::Find => Reply::Found(self.file.is_some()),
            Action::Read => Reply::Read(self.read()),
            Action::Generate => Reply::Generated(self.generate()),
            Action::Release(_) => Reply::Released(Ok(())),
        }
    }

    fn load(&mut self) -> Result<(HybridCache, u64), HybridCacheError> {
        let mut load = HybridCache::from_hdt_path("snikmeta.hdt", "a.lock");
        while let Some(action) = load.action() {
            let reply = self.perform(action);
            load = load.reply(reply);
        }
        match load.state {
            LoadState::Done(result) => result,
            _ => panic!("not done"),
        }
    }
}

#[test]
fn test_from_hdt_path() {
    let mut directory = Directory { file: None, generated: 0 };
    let (cache1, offset1) = directory.load().unwrap();
    assert!(directory.file.is_some(), "Cache file should be created");
    let (cache2, offset2) = directory.load().unwrap();
    assert_eq!(directory.generated, 1);
    assert_eq!(cache1.order().unwrap().number(), cache2.order().unwrap().number());
    assert_eq!(cache1.wavelet_y.len(), cache2.wavelet_y.len());
    assert_eq!(cache1.bitmap_y_offset, cache2.bitmap_y_offset);
    assert_eq!(cache1.bitmap_z_offset, cache2.bitmap_z_offset);
    assert_eq!(cache1.sequence_z_offset, cache2.sequence_z_offset);
    assert_eq!(offset1, offset2, "OpIndex offsets should match");
    assert_eq!(cache1.wavelet_y, cache2.wavelet_y);
    assert_eq!(cache1.num_triples().unwrap(), cache2.num_triples().unwrap());
    assert_eq!(cache1.header_size().unwrap(), cache2.header_size().unwrap());
    assert_eq!(cache1.triples_offset, cache2.triples_offset);
}

#[test]
fn unreadable_cache_is_generated_anew() {
    let mut directory = Directory { file: None, generated: 0 };
    directory.load().unwrap();
    directory.file.as_mut().unwrap().0.truncate(CHUNK.len() + 10);
    directory.load().unwrap();
    assert_eq!(directory.generated, 2);
    directory.load().unwrap();
    assert_eq!(directory.generated, 2);
}

#[test]
fn cache_says_what_it_was_made_of() {
    let cache = HybridCache::new(plan(328), matrix(328));
    assert_eq!(cache.control_info.control_type, ControlType::Index);
    assert_eq!(cache.control_info.format, "<http://purl.org/HDT/hdt#cacheV4>");
    assert_eq!(cache.control_info.get("order"), Some("1".to_owned()));
    assert_eq!(cache.control_info.get("numTriples"), Some("328".to_owned()));
    assert_eq!(cache.control_info.get("headerSize"), Some("1891".to_owned()));
    assert_eq!(cache.order().unwrap(), Order::SPO);
    assert_eq!(cache.num_triples().unwrap(), 328);
    assert_eq!(cache.header_size().unwrap(), 1891);
    assert_eq!(cache.dictionary_offset, 1971);
    assert_eq!(cache.dict_shared_offset, 2071);
    assert_eq!(cache.dict_subjects_offset, 3000);
    assert_eq!(cache.dict_predicates_offset, 4000);
    assert_eq!(cache.dict_objects_offset, 5000);
    assert_eq!(cache.triples_offset, 6000);
    assert_eq!(cache.bitmap_y_offset, 6100);
    assert_eq!(cache.bitmap_z_offset, 6200);
    assert_eq!(cache.sequence_z_offset, 6400);
}

#[test]
fn cache_file_is_laid_out() {
    let cache = HybridCache::new(plan(3), matrix(30));
    let (bytes, offset) = cache.encode(CHUNK, &bits(70), &values(9));
    let mut expected = CHUNK.to_vec();
    matrix(30).serialize_into(&mut expected).unwrap();
    for word in [6100u64, 6200, 6400, 1971, 2071, 3000, 4000, 5000, 6000] {
        expected.extend_from_slice(&word.to_le_bytes());
    }
    assert_eq!(offset, expected.len() as u64);
    bits(70).serialize_into(&mut expected).unwrap();
    values(9).serialize_into(&mut expected).unwrap();
    assert_eq!(bytes, expected);
}

#[test]
fn cache_file_is_read_back() {
    for n in [1, 2, 100, 1000] {
        let cache = HybridCache::new(plan(n), matrix(n));
        let (bytes, offset) = cache.encode(CHUNK, &bits(n), &values(n));
        let (read, read_offset) =
            HybridCache::read_from_file(copy_of(&cache.control_info), &bytes, CHUNK.len()).unwrap();
        assert_eq!(read_offset, offset);
        assert_eq!(read.wavelet_y, cache.wavelet_y);
        assert_eq!(read.triples_offset, 6000);
        assert_eq!(read.num_triples().unwrap(), n);
        let op_index = &bytes[offset as usize..];
        let op_bitmap = Rank9Sel::deserialize_from(op_index).unwrap();
        assert_eq!(op_bitmap, bits(n));
        let op_sequence =
            CompactVector::deserialize_from(&op_index[op_bitmap.size_in_bytes()..]).unwrap();
        assert_eq!(op_sequence, values(n));
    }
}

#[test]
fn what_follows_the_offsets_does_not_matter() {
    let cache = HybridCache::new(plan(10), matrix(10));
    let (bytes, offset) = cache.encode(CHUNK, &bits(10), &values(10));
    let mut other = bytes[..offset as usize].to_vec();
    other.extend_from_slice(b"anything");
    let (read, read_offset) =
        HybridCache::read_from_file(copy_of(&cache.control_info), &other, CHUNK.len()).unwrap();
    assert_eq!(read_offset, offset);
    assert_eq!(read.wavelet_y, cache.wavelet_y);
    assert_eq!(read.triples_offset, cache.triples_offset);
}

#[test]
fn cache_file_that_is_cut_short_is_refused() {
    let cache = HybridCache::new(plan(10), matrix(10));
    let (bytes, offset) = cache.encode(CHUNK, &bits(10), &values(10));
    for end in CHUNK.len()..offset as usize {
        match HybridCache::read_from_file(copy_of(&cache.control_info), &bytes[..end], CHUNK.len()) {
            Err(e) => {
                assert_eq!(e.message(), "failed to fill whole buffer");
                assert!(matches!(e, HybridCacheError::Io(IoError::UnexpectedEof)));
            }
            Ok(_) => panic!("read {end} of {offset}"),
        }
    }
    let end = offset as usize;
    assert!(
        HybridCache::read_from_file(copy_of(&cache.control_info), &bytes[..end], CHUNK.len()).is_ok()
    );
}

#[test]
fn counts_beyond_the_file_are_refused() {
    let cache = HybridCache::new(plan(10), matrix(10));
    let (mut bytes, _) = cache.encode(CHUNK, &bits(10), &values(10));
    for at in [CHUNK.len(), CHUNK.len() + 8] {
        let mut bytes = bytes.clone();
        bytes[at..at + 8].copy_from_slice(&u64::MAX.to_le_bytes());
        assert!(matches!(
            HybridCache::read_from_file(copy_of(&cache.control_info), &bytes, CHUNK.len()),
            Err(HybridCacheError::Io(IoError::UnexpectedEof))
        ));
    }
    bytes.clear();
    assert!(HybridCache::read_from_file(copy_of(&cache.control_info), &bytes, 0).is_err());
}

#[test]
fn file_of_another_type_is_no_cache() {
    let cache = HybridCache::new(plan(10), matrix(10));
    let (bytes, _) = cache.encode(CHUNK, &bits(10), &values(10));
    let mut info = copy_of(&cache.control_info);
    info.control_type = ControlType::Dictionary;
    info.format = "other".to_owned();
    match HybridCache::read_from_file(info, &bytes, CHUNK.len()) {
        Err(e) => {
            assert_eq!(
                e.message(),
                "Invalid cache file: expected Index control type, found Dictionary"
            );
            assert!(matches!(e, HybridCacheError::WrongControlType(ControlType::Dictionary)));
        }
        Ok(_) => panic!("read"),
    }
}

#[test]
fn file_of_another_format_is_no_cache() {
    let cache = HybridCache::new(plan(10), matrix(10));
    let (bytes, _) = cache.encode(CHUNK, &bits(10), &values(10));
    let mut info = copy_of(&cache.control_info);
    info.format = "<http://purl.org/HDT/hdt#cacheV3>".to_owned();
    match HybridCache::read_from_file(info, &bytes, CHUNK.len()) {
        Err(e) => {
            assert_eq!(
                e.message(),
                "Unsupported cache format: expected <http://purl.org/HDT/hdt#cacheV4>, \
                 found <http://purl.org/HDT/hdt#cacheV3>"
            );
            assert!(matches!(e, HybridCacheError::UnsupportedFormat(_)));
        }
        Ok(_) => panic!("read"),
    }
}

fn cache_with(properties: &[(&str, &str)]) -> HybridCache {
    let mut cache = HybridCache::new(plan(1), matrix(1));
    cache.control_info.properties = Properties::new();
    for (key, value) in properties {
        cache.control_info.properties.insert((*key).to_owned(), (*value).to_owned());
    }
    cache
}

#[test]
fn properties_that_are_missing() {
    let cache = cache_with(&[]);
    assert_eq!(cache.order().unwrap_err().message(), "order property not found in cache");
    assert_eq!(cache.num_triples().unwrap_err().message(), "numTriples property not found in cache");
    assert_eq!(cache.header_size().unwrap_err().message(), "headerSize property not found in cache");
}

#[test]
fn properties_that_are_no_numbers() {
    let cache = cache_with(&[("order", "256"), ("numTriples", "many"), ("headerSize", "")]);
    assert!(matches!(cache.order(), Err(HybridCacheError::Number(ParseIntError::PosOverflow))));
    assert_eq!(cache.order().unwrap_err().message(), "number too large to fit in target type");
    assert_eq!(cache.num_triples().unwrap_err().message(), "invalid digit found in string");
    assert_eq!(
        cache.header_size().unwrap_err().message(),
        "cannot parse integer from empty string"
    );
}

#[test]
fn order_that_is_none() {
    let cache = cache_with(&[("order", "7")]);
    match cache.order() {
        Err(HybridCacheError::InvalidOrder(e)) => assert_eq!(e.number, 7),
        _ => panic!("an order"),
    }
    assert_eq!(
        cache.order().unwrap_err().message(),
        "Invalid order value: unrecognized triples order 7"
    );
}

#[test]
fn orders_have_numbers() {
    let orders = [
        Order::Unknown,
        Order::SPO,
        Order::SOP,
        Order::PSO,
        Order::POS,
        Order::OSP,
        Order::OPS,
    ];
    for (number, order) in orders.iter().enumerate() {
        assert_eq!(order.number() as usize, number);
        assert_eq!(Order::try_from(number as u32).unwrap(), *order);
    }
    assert_eq!(Order::try_from(7).unwrap_err().number, 7);
}

#[test]
fn sections_are_walked_in_order() {
    let mut scan = Scan::new();
    let mut sections = Vec::new();
    while let Some(section) = scan.next() {
        assert!(scan.offsets().is_none());
        sections.push(section);
        scan.begin(100 * sections.len() as u64);
    }
    assert_eq!(
        sections,
        vec![
            Section::GlobalControlInfo,
            Section::Header,
            Section::DictionaryControlInfo,
            Section::SharedTerms,
            Section::Subjects,
            Section::Predicates,
            Section::Objects,
            Section::TriplesControlInfo,
            Section::BitmapY,
            Section::BitmapZ,
            Section::SequenceY,
            Section::SequenceZ,
        ]
    );
    assert_eq!(
        scan.offsets(),
        Some(SectionOffsets {
            bitmap_y: 900,
            bitmap_z: 1000,
            sequence_z: 1200,
            dictionary: 300,
            dict_shared: 400,
            dict_subjects: 500,
            dict_predicates: 600,
            dict_objects: 700,
            triples: 800,
        })
    );
}

#[test]
fn no_cache_without_triples() {
    let offsets = walk().offsets().unwrap();
    let empty = plan_cache(&header(0), &triples_info(Some("1")), 0, offsets);
    assert!(matches!(empty, Err(HybridCacheError::EmptyHdt)));
    assert_eq!(HybridCacheError::EmptyHdt.message(), "HDT file contains no triples");
}

#[test]
fn no_cache_without_an_order() {
    let offsets = walk().offsets().unwrap();
    for order in [None, Some(""), Some("SPO"), Some("4294967296")] {
        match plan_cache(&header(0), &triples_info(order), 1, offsets) {
            Err(e) => {
                assert_eq!(e.message(), "unknown triples order in HDT triples control info");
                assert!(matches!(e, HybridCacheError::UnknownTriplesOrder));
            }
            Ok(_) => panic!("a cache"),
        }
    }
    match plan_cache(&header(0), &triples_info(Some("4294967295")), 1, offsets) {
        Err(e) => {
            assert_eq!(e.message(), "unrecognized triples order 4294967295");
            assert!(matches!(e, HybridCacheError::UnrecognizedOrder(_)));
        }
        Ok(_) => panic!("a cache"),
    }
}

#[test]
fn cache_files_are_named_after_their_hdt_files() {
    assert_eq!(
        HybridCache::get_cache_path(Some("snikmeta.hdt")),
        "snikmeta.hdt.index.v5-rust-cache"
    );
    assert_eq!(HybridCache::get_cache_path(None), "unknown.index.v5-rust-cache");
    assert_eq!(CACHE_EXT, "index.v5-rust-cache");
    assert_eq!(CACHE_FORMAT, "<http://purl.org/HDT/hdt#cacheV4>");
    assert_ne!(HybridCache::get_cache_path(Some("a")), HybridCache::get_cache_path(Some("b")));
}

#[test]
fn dictionary_sections_are_read_on_threads() {
    assert!(dictionary_section(Some(Ok(()))).is_ok());
    assert_eq!(dictionary_section(Some(Err("bad".to_owned()))).unwrap_err().message(), "bad");
    assert_eq!(
        dictionary_section(None).unwrap_err().message(),
        "dictionary section read thread panicked"
    );
}

#[test]
fn memory_of_a_cache_is_described() {
    assert_eq!(describe_memory("1.5 KiB"), "in-memory size 1.5 KiB: { 1.5 KiB wavelet_y }");
    let cache = HybridCache::new(plan(1), matrix(1));
    let size = cache.wavelet_y.size_in_bytes();
    assert!(size < 1024);
    assert_eq!(cache.fmt(), format!("in-memory size {size} B: {{ {size} B wavelet_y }}"));
    let cache = HybridCache::new(plan(4000), matrix(4000));
    let size = cache.wavelet_y.size_in_bytes();
    assert!(size >= 1024);
    let shown = bytesize::ByteSize(size as u64).to_string();
    assert!(shown.ends_with(" KiB"));
    assert_eq!(cache.fmt(), format!("in-memory size {shown}: {{ {shown} wavelet_y }}"));
}

#[test]
fn several_loads_generate_once() {
    let workers = 8;
    let mut directory = Directory { file: None, generated: 0 };
    let mut loads: Vec<Option<CacheLoad<(HybridCache, u64)>>> =
        (0..workers).map(|i| Some(HybridCache::from_hdt_path(&i.to_string(), "l"))).collect();
    let mut readers = 0;
    let mut writer = false;
    let mut done = 0;
    while done < workers {
        for slot in &mut loads {
            let load = match slot.take() {
                None => continue,
                Some(load) => load,
            };
            match load.action() {
                None => {
                    assert!(matches!(load.state, LoadState::Done(Ok(_))));
                    done += 1;
                    continue;
                }
                Some(Action::Lock(mode)) => {
                    if writer || (mode.name() == "exclusive" && readers > 0) {
                        *slot = Some(load);
                        continue;
                    }
                    if mode.name() == "exclusive" {
                        writer = true;
                    } else {
                        readers += 1;
                    }
                }
                Some(Action::Release(mode)) => {
                    if mode.name() == "exclusive" {
                        writer = false;
                    } else {
                        readers -= 1;
                    }
                }
                Some(_) => {}
            }
            let reply = directory.perform(load.action().unwrap());
            *slot = Some(load.reply(reply));
        }
    }
    assert!(directory.file.is_some(), "cache should exist after concurrent loads");
    assert_eq!(directory.generated, 1);
}
