use hdt::containers::control_info::{ControlInfo, ControlType, Properties};
use hdt::containers::rdf::{Id, Literal, Term, Triple};
use hdt::containers::triple_set::TripleSet;
use hdt::header::{triples_from_items, Error, Header, Object, Statement};
use hdt::io_error::IoError;

fn info(format: &str, length: Option<&str>) -> ControlInfo {
    let mut properties = Properties::new();
    if let Some(length) = length {
        properties.insert("length".to_owned(), length.to_owned());
    }
    ControlInfo { control_type: ControlType::Header, format: format.to_owned(), properties }
}

fn named(iri: &str) -> Id {
    Id::Named(iri.to_owned())
}

/// A header of 22 statements in 1891 bytes, as a dataset's metadata has them.
fn dataset_header() -> String {
    let mut body = String::new();
    let dataset = "<http://yago-knowledge.org/>";
    body.push_str(&format!("{dataset} <http://www.w3.org/1999/02/22-rdf-syntax-ns#type> <http://purl.org/HDT/hdt#Dataset> .\n"));
    body.push_str(&format!("{dataset} <http://rdfs.org/ns/void#triples> \"158991568\" .\n"));
    body.push_str(&format!("{dataset} <http://purl.org/HDT/hdt#formatInformation> _:format .\n"));
    body.push_str("_:format <http://purl.org/HDT/hdt#dictionary> _:dictionary .\n");
    body.push_str("_:dictionary <http://purl.org/dc/terms/format> <http://purl.org/HDT/hdt#dictionaryFour> .\n");
    body.push_str("_:format <http://purl.org/dc/terms/issued> \"2022-01-01\"^^<http://www.w3.org/2001/XMLSchema#date> .\n");
    body.push_str("_:format <http://purl.org/dc/terms/title> \"metadata\"@en .\n");
    for i in 0..14 {
        body.push_str(&format!("_:statistics <http://purl.org/HDT/hdt#property{i:02}> \"{i}\" .\n"));
    }
    let start = "_:statistics <http://purl.org/dc/terms/description> \"";
    let end = "\" .\n";
    let missing = 1891 - body.len() - start.len() - end.len();
    body.push_str(start);
    body.push_str(&"x".repeat(missing));
    body.push_str(end);
    body
}

#[test]
fn read_header() {
    let body = dataset_header();
    let mut file = body.into_bytes();
    file.extend_from_slice(b"$HDT and what follows");
    let header = Header::read(info("ntriples", Some("1891")), &file).unwrap();
    assert_eq!(header.format, "ntriples");
    assert_eq!(header.length, 1891);
    assert_eq!(header.body.len(), 22);
}

#[test]
fn header_with_another_format_is_refused() {
    match Header::read(info("turtle", Some("0")), b"") {
        Err(e) => {
            assert_eq!(e.message(), "invalid header format turtle, only 'ntriples' is supported");
            assert!(matches!(e, Error::InvalidHeaderFormat(f) if f == "turtle"));
        }
        Ok(_) => panic!("read"),
    }
}

#[test]
fn header_without_length_is_refused() {
    match Header::read(info("ntriples", None), b"") {
        Err(e) => {
            assert_eq!(e.message(), "missing header length");
            assert!(matches!(e, Error::MissingHeaderLength));
        }
        Ok(_) => panic!("read"),
    }
}

#[test]
fn header_with_a_length_that_is_no_number_is_refused() {
    for length in ["", "-1", "x", "1 ", "99999999999999999999999"] {
        match Header::read(info("ntriples", Some(length)), b"") {
            Err(e) => {
                assert_eq!(e.message(), format!("invalid header length '{length}'"));
                assert!(matches!(e, Error::InvalidHeaderLength(l) if l == length));
            }
            Ok(_) => panic!("read"),
        }
    }
}

#[test]
fn the_format_counts_before_the_length() {
    assert!(matches!(Header::read(info("", None), b""), Err(Error::InvalidHeaderFormat(_))));
}

#[test]
fn header_that_is_cut_short_is_refused() {
    match Header::read(info("ntriples", Some("3")), b"ab") {
        Err(e) => {
            assert_eq!(e.message(), "failed to read HDT header");
            match e {
                Error::Io(io) => {
                    assert_eq!(io.message(), "failed to fill whole buffer");
                    assert!(matches!(io, IoError::UnexpectedEof));
                }
                _ => panic!("another error"),
            }
        }
        Ok(_) => panic!("read"),
    }
}

#[test]
fn messages_of_other_errors() {
    assert_eq!(Error::Other("what it was".to_owned()).message(), "what it was");
    assert_eq!(Error::ControlInfo("no magic".to_owned()).message(), "failed to read HDT header");
    assert_eq!(IoError::Other("disk".to_owned()).message(), "disk");
}

#[test]
fn empty_header_is_read() {
    let header = Header::read(info("ntriples", Some("0")), b"<a> <b> <c> .").unwrap();
    assert_eq!(header.length, 0);
    assert!(header.body.is_empty());
}

#[test]
fn terms_are_told_apart() {
    let body = "<http://a> <http://p> <http://b> .\n\
                _:x <http://p> _:y .\n\
                <http://a> <http://p> \"plain\" .\n\
                <http://a> <http://p> \"plain\"^^<http://www.w3.org/2001/XMLSchema#string> .\n\
                <http://a> <http://p> \"1\"^^<http://www.w3.org/2001/XMLSchema#integer> .\n\
                <http://a> <http://p> \"hallo\"@de .\n";
    let header =
        Header::read(info("ntriples", Some(&body.len().to_string())), body.as_bytes()).unwrap();
    let p = || "http://p".to_owned();
    let expected = vec![
        Triple::new(named("http://a"), p(), Term::Id(named("http://b"))),
        Triple::new(named("http://a"), p(), Term::Literal(Literal::new("plain".to_owned()))),
        Triple::new(
            named("http://a"),
            p(),
            Term::Literal(Literal::new_typed(
                "1".to_owned(),
                "http://www.w3.org/2001/XMLSchema#integer".to_owned(),
            )),
        ),
        Triple::new(
            named("http://a"),
            p(),
            Term::Literal(Literal::new_lang("hallo".to_owned(), "de".to_owned())),
        ),
        Triple::new(Id::Blank("x".to_owned()), p(), Term::Id(Id::Blank("y".to_owned()))),
    ];
    assert_eq!(header.body.as_slice(), expected.as_slice());
}

#[test]
fn lines_that_are_no_statements_are_skipped() {
    let body = "<http://a> <http://p> <http://b> .\nthis is no statement\n<http://a> <http://p> <http://c> .\n";
    let header =
        Header::read(info("ntriples", Some(&body.len().to_string())), body.as_bytes()).unwrap();
    assert_eq!(header.body.len(), 2);
}

#[test]
fn items_make_triples() {
    let statement = |object: Object| Statement {
        subject: named("s"),
        predicate: "p".to_owned(),
        object,
    };
    let literal = |datatype: Option<&str>, lang: Option<&str>| Object::Literal {
        form: "f".to_owned(),
        datatype: datatype.map(str::to_owned),
        lang: lang.map(str::to_owned),
    };
    let body = triples_from_items(vec![
        Some(statement(literal(Some("d"), Some("l")))),
        None,
        Some(statement(literal(Some("d"), None))),
        Some(statement(literal(None, Some("l")))),
        Some(statement(literal(None, None))),
        Some(statement(Object::Id(Id::Blank("b".to_owned())))),
        Some(statement(literal(None, None))),
    ]);
    let texts: Vec<String> = body.as_slice().iter().map(Triple::to_text).collect();
    assert_eq!(
        texts,
        vec!["<s> <p> _:b .", "<s> <p> \"f\" .", "<s> <p> \"f\"^^<d> .", "<s> <p> \"f\"@l ."]
    );
}

#[test]
fn header_is_written_in_order() {
    let mut body = TripleSet::new();
    let p = || "http://p".to_owned();
    assert!(body.insert(Triple::new(named("http://b"), p(), Term::Id(named("http://c")))));
    assert!(body.insert(Triple::new(
        named("http://a"),
        p(),
        Term::Literal(Literal::new("a \"b\"\n\r\\".to_owned()))
    )));
    assert!(!body.insert(Triple::new(named("http://b"), p(), Term::Id(named("http://c")))));
    let header = Header { format: "ntriples".to_owned(), length: 77, body };
    let (info, text) = header.write();
    assert_eq!(info.control_type, ControlType::Header);
    assert_eq!(info.format, "ntriples");
    assert_eq!(info.get("length"), Some("77".to_owned()));
    assert_eq!(
        text,
        "<http://a> <http://p> \"a \\\"b\\\"\\n\\r\\\\\" .\n<http://b> <http://p> <http://c> .\n"
    );
}

#[test]
fn written_header_reads_back() {
    let body = dataset_header();
    let header = Header::read(info("ntriples", Some("1891")), body.as_bytes()).unwrap();
    let (_, text) = header.write();
    let length = text.len();
    let again = Header { format: header.format.clone(), length, body: header.body.clone() };
    let (info, text) = again.write();
    let read = Header::read(info, text.as_bytes()).unwrap();
    assert_eq!(read.format, "ntriples");
    assert_eq!(read.length, length);
    assert_eq!(read.body.as_slice(), header.body.as_slice());
}

#[test]
fn what_follows_a_header_does_not_matter() {
    let body = "<http://a> <http://p> <http://b> .\n<http://a> <http://p> <http://c> .\n";
    let first = body.find('\n').unwrap() + 1;
    let header =
        Header::read(info("ntriples", Some(&first.to_string())), body.as_bytes()).unwrap();
    assert_eq!(header.body.len(), 1);
}

#[test]
fn properties_are_kept_by_their_keys() {
    let mut properties = Properties::new();
    assert_eq!(properties.get("a"), None);
    properties.insert("a".to_owned(), "1".to_owned());
    properties.insert("b".to_owned(), "2".to_owned());
    properties.insert("a".to_owned(), "3".to_owned());
    assert_eq!(properties.get("a"), Some("3".to_owned()));
    assert_eq!(properties.get("b"), Some("2".to_owned()));
    assert_eq!(properties.get("c"), None);
    assert_eq!(
        properties.entries(),
        [("a".to_owned(), "3".to_owned()), ("b".to_owned(), "2".to_owned())]
    );
}
