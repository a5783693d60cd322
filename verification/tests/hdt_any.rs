use hdt::containers::triple_set::TripleSet;
use hdt::four_sect_dict::{DictSection, ExtractError, FourSectDict, IdKind};
use hdt::hdt::{Cached, Error, Hdt, HdtGeneric, HdtHybrid, InMemory};
use hdt::hdt_any::{HdtAny, Opening, DEFAULT_SMALL_FILE_THRESHOLD};
use hdt::header::Header;
use hdt::io_error::IoError;
use hdt::triples::cache_source::CachePlan;
use hdt::triples::hybrid_cache::{HybridCache, HybridCacheError, SectionOffsets};
use hdt::triples::{Order, TripleId};
use sucds::char_sequences::WaveletMatrix;
use sucds::int_vectors::CompactVector;

const ONTOLOGY: &str = "http://www.snik.eu/ontology/meta";

fn section(terms: &[&str]) -> DictSection {
    DictSection::new(terms.iter().map(|t| (*t).to_owned()).collect()).unwrap()
}

fn header() -> Header {
    Header { format: "ntriples".to_owned(), length: 10, body: TripleSet::new() }
}

fn cached() -> Cached {
    let mut values = CompactVector::new(2).unwrap();
    values.push_int(1).unwrap();
    let offsets = SectionOffsets {
        bitmap_y: 1,
        bitmap_z: 2,
        sequence_z: 3,
        dictionary: 4,
        dict_shared: 5,
        dict_subjects: 6,
        dict_predicates: 7,
        dict_objects: 8,
        triples: 9,
    };
    let plan = CachePlan { order: Order::SPO, num_triples: 328, header_size: 10, offsets };
    Cached {
        cache: HybridCache::new(plan, WaveletMatrix::new(values).unwrap()),
        op_index_offset: 99,
    }
}

/// A dictionary and 328 triples: 8 subjects, 41 objects.
fn ontology() -> (FourSectDict, Vec<TripleId>) {
    let subjects: Vec<String> = (0..7).map(|i| format!("http://www.snik.eu/ontology/s{i}")).collect();
    let mut subject_terms = vec![ONTOLOGY.to_owned()];
    subject_terms.extend(subjects);
    let objects: Vec<String> = (0..41).map(|i| format!("\"{i:02}\"")).collect();
    let dict = FourSectDict::new(
        section(&[]),
        DictSection::new(subject_terms).unwrap(),
        section(&["p", "q"]),
        DictSection::new(objects).unwrap(),
    )
    .unwrap();
    let mut triples = Vec::new();
    for s in 1..=8 {
        for o in 1..=41 {
            triples.push([s, 1 + o % 2, o]);
        }
    }
    (dict, triples)
}

fn hybrid_ontology() -> HdtHybrid {
    let (dict, triples) = ontology();
    HdtGeneric::new(header(), 1000, dict, triples, cached()).unwrap()
}

fn ontology_in_memory() -> Hdt {
    let (dict, triples) = ontology();
    HdtGeneric::new(header(), 1000, dict, triples, InMemory).unwrap()
}

fn empty() -> Hdt {
    let dict = FourSectDict::new(section(&[]), section(&[]), section(&[]), section(&[])).unwrap();
    HdtGeneric::new(header(), 0, dict, Vec::new(), InMemory).unwrap()
}

/// Opens a file that the two backends make the given of.
fn open(
    size: Option<u64>,
    threshold: Option<usize>,
    hybrid: Result<HdtHybrid, Error>,
    in_memory: Result<Hdt, Error>,
) -> Result<HdtAny, Error> {
    let mut opening = HdtAny::open_with_threshold(size, threshold);
    if matches!(opening, Opening::TryHybrid) {
        opening = HdtAny::after_hybrid(hybrid);
    }
    match opening {
        Opening::Done(any) => any,
        _ => HdtAny::read_in_memory(in_memory),
    }
}

#[test]
fn forced_hybrid_threshold_picks_hybrid_for_non_empty() {
    let any = open(Some(10_000), Some(0), Ok(hybrid_ontology()), Ok(ontology_in_memory()))
        .map_err(|e| e.message())
        .unwrap();
    assert!(any.is_hybrid(), "forced threshold should select hybrid");
    assert_eq!(any.triples_with_pattern(None, None, None).len(), 328);
    assert_ne!(0, any.string_to_id("http://www.snik.eu/ontology/meta", IdKind::Subject));
}

#[test]
fn default_threshold_picks_in_memory_for_small_file() {
    let any = open(Some(10_000), None, Ok(hybrid_ontology()), Ok(ontology_in_memory()))
        .map_err(|e| e.message())
        .unwrap();
    assert!(!any.is_hybrid(), "small file under default threshold should use in-memory");
    assert_eq!(any.triples_with_pattern(None, None, None).len(), 328);
}

#[test]
fn empty_hdt_loads_via_in_memory() {
    let refused = Err(Error::Cache(HybridCacheError::EmptyHdt));
    let any = open(Some(500), Some(0), refused, Ok(empty())).map_err(|e| e.message()).unwrap();
    assert!(!any.is_hybrid(), "empty HDT should fall back to in-memory");
    assert_eq!(any.triples_all().len(), 0);
    assert_eq!(any.triples_with_pattern(None, None, None).len(), 0);
}

#[test]
fn threshold_is_exclusive() {
    assert_eq!(DEFAULT_SMALL_FILE_THRESHOLD, 1 << 20);
    let in_memory = |size: Option<u64>, threshold: Option<usize>| {
        matches!(HdtAny::open_with_threshold(size, threshold), Opening::ReadInMemory)
    };
    assert!(in_memory(Some((1 << 20) - 1), None));
    assert!(!in_memory(Some(1 << 20), None));
    assert!(in_memory(Some(9), Some(10)));
    assert!(!in_memory(Some(10), Some(10)));
    assert!(!in_memory(Some(0), Some(0)));
    assert!(in_memory(Some(u64::MAX - 1), Some(usize::MAX)));
    assert!(!in_memory(Some(u64::MAX), Some(usize::MAX)));
    assert!(!in_memory(None, Some(usize::MAX)));
    assert!(!in_memory(None, None));
}

#[test]
fn other_failures_of_the_hybrid_backend_stand() {
    let broken = || Err(Error::Cache(HybridCacheError::UnknownTriplesOrder));
    let e = match open(None, None, broken(), Ok(empty())) {
        Err(e) => e,
        Ok(_) => panic!("opened"),
    };
    assert_eq!(e.message(), "unknown triples order in HDT triples control info");
    assert!(!HdtAny::is_hybrid_recoverable(&e));
    assert!(HdtAny::is_hybrid_recoverable(&Error::Cache(HybridCacheError::EmptyHdt)));
    assert!(!HdtAny::is_hybrid_recoverable(&Error::Io(IoError::UnexpectedEof)));
    assert!(open(Some(1), None, broken(), Ok(empty())).is_ok());
}

#[test]
fn failure_to_read_into_memory_stands() {
    let failed = || Err(Error::Other("torn".to_owned()));
    assert_eq!(open(Some(1), None, Ok(hybrid_ontology()), failed()).err().unwrap().message(), "torn");
    let refused = Err(Error::Cache(HybridCacheError::EmptyHdt));
    assert_eq!(open(None, None, refused, failed()).err().unwrap().message(), "torn");
}

#[test]
fn messages_of_errors() {
    assert_eq!(Error::Io(IoError::UnexpectedEof).message(), "failed to fill whole buffer");
    assert_eq!(
        Error::Header(hdt::header::Error::MissingHeaderLength).message(),
        "missing header length"
    );
    assert_eq!(
        Error::Cache(HybridCacheError::EmptyHdt).message(),
        "HDT file contains no triples"
    );
}

/// Terms in all four sections, and triples that use them.
fn friends() -> Hdt {
    let dict = FourSectDict::new(
        section(&["anna", "bert"]),
        section(&["carl"]),
        section(&["knows", "name"]),
        section(&["\"Anna\"", "\"Bert\""]),
    )
    .unwrap();
    let triples = vec![[1, 1, 2], [1, 2, 3], [2, 1, 1], [2, 2, 4], [3, 1, 1], [3, 1, 2]];
    HdtGeneric::new(header(), 5, dict, triples, InMemory).unwrap()
}

#[test]
fn terms_and_numbers() {
    let any = HdtAny::InMemory(friends());
    assert_eq!(any.string_to_id("anna", IdKind::Subject), 1);
    assert_eq!(any.string_to_id("anna", IdKind::Object), 1);
    assert_eq!(any.string_to_id("carl", IdKind::Subject), 3);
    assert_eq!(any.string_to_id("carl", IdKind::Object), 0);
    assert_eq!(any.string_to_id("\"Bert\"", IdKind::Object), 4);
    assert_eq!(any.string_to_id("name", IdKind::Predicate), 2);
    assert_eq!(any.string_to_id("anna", IdKind::Predicate), 0);
    assert_eq!(any.id_to_string(3, IdKind::Subject), Ok("carl".to_owned()));
    assert_eq!(any.id_to_string(3, IdKind::Object), Ok("\"Anna\"".to_owned()));
    assert_eq!(any.id_to_string(2, IdKind::Object), Ok("bert".to_owned()));
    assert_eq!(any.id_to_string(1, IdKind::Predicate), Ok("knows".to_owned()));
    for id in [0, 4, usize::MAX] {
        assert_eq!(
            any.id_to_string(id, IdKind::Subject),
            Err(ExtractError { id, kind: IdKind::Subject })
        );
    }
    assert_eq!(
        any.id_to_string(5, IdKind::Object).unwrap_err().message(),
        "no Object with id 5 in the dictionary"
    );
    for kind in [IdKind::Subject, IdKind::Predicate, IdKind::Object] {
        let mut id = 1;
        while let Ok(term) = any.id_to_string(id, kind) {
            assert_eq!(any.string_to_id(&term, kind), id);
            id += 1;
        }
    }
    assert_eq!(any.size_in_bytes(), 5);
    assert_eq!(any.header().length, 10);
}

#[test]
fn patterns_find_triples() {
    let any = HdtAny::InMemory(friends());
    assert_eq!(any.triple_ids_with_id_pattern([0, 0, 0]).len(), 6);
    assert_eq!(any.triple_ids_with_id_pattern([0, 1, 1]), vec![[2, 1, 1], [3, 1, 1]]);
    assert_eq!(any.triple_ids_with_id_pattern([1, 2, 3]), vec![[1, 2, 3]]);
    assert!(any.triple_ids_with_id_pattern([1, 2, 4]).is_empty());
    assert_eq!(
        any.triple_ids_with_pattern(None, Some("knows"), Some("anna")),
        vec![[2, 1, 1], [3, 1, 1]]
    );
    assert!(any.triple_ids_with_pattern(Some("dora"), None, None).is_empty());
    assert!(any.triple_ids_with_pattern(None, Some("hates"), None).is_empty());
    assert!(any.triple_ids_with_pattern(None, None, Some("carl")).is_empty());
    let texts = |s: &str, p: &str, o: &str| [s.to_owned(), p.to_owned(), o.to_owned()];
    assert_eq!(
        any.triples_with_pattern(Some("bert"), None, None),
        vec![texts("bert", "knows", "anna"), texts("bert", "name", "\"Bert\"")]
    );
    assert_eq!(any.triples_all(), any.triples_with_pattern(None, None, None));
    assert_eq!(any.triples_all()[1], texts("anna", "name", "\"Anna\""));
}

#[test]
fn both_backends_have_the_same_answers() {
    let a = HdtAny::Hybrid(hybrid_ontology());
    let b = HdtAny::InMemory(ontology_in_memory());
    assert_eq!(a.triples_all(), b.triples_all());
    assert_eq!(
        a.triple_ids_with_pattern(Some(ONTOLOGY), Some("p"), None),
        b.triple_ids_with_pattern(Some(ONTOLOGY), Some("p"), None)
    );
    assert_eq!(a.triple_ids_with_id_pattern([0, 0, 7]), b.triple_ids_with_id_pattern([0, 0, 7]));
    assert_eq!(a.string_to_id(ONTOLOGY, IdKind::Subject), 1);
    assert_eq!(a.id_to_string(1, IdKind::Subject), b.id_to_string(1, IdKind::Subject));
    assert_eq!(a.size_in_bytes(), b.size_in_bytes());
    assert_eq!(a.header().length, b.header().length);
}

#[test]
fn graphs_and_dictionaries_are_checked() {
    assert!(DictSection::new(vec!["b".to_owned(), "a".to_owned()]).is_none());
    assert!(DictSection::new(vec!["a".to_owned(), "a".to_owned()]).is_none());
    assert!(FourSectDict::new(section(&["a"]), section(&["a"]), section(&[]), section(&[])).is_none());
    assert!(FourSectDict::new(section(&["b"]), section(&[]), section(&[]), section(&["a", "b"])).is_none());
    assert!(FourSectDict::new(section(&[]), section(&["a"]), section(&[]), section(&["a"])).is_some());
    for triple in [[0, 1, 1], [9, 1, 1], [1, 0, 1], [1, 3, 1], [1, 1, 0], [1, 1, 42]] {
        let (dict, _) = ontology();
        assert!(HdtGeneric::new(header(), 0, dict, vec![triple], InMemory).is_none());
    }
    assert_eq!(hybrid_ontology().backend().op_index_offset, 99);
}
