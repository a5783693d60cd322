//! The header of an HDT file: metadata about the dataset, in N-Triples.
use crate::containers::control_info::{ControlInfo, ControlInfoView};
use crate::containers::rdf::{Id, IdView, Literal, LiteralView, Term, TermView, Triple, TripleView};
use crate::containers::triple_set::TripleSet;
use crate::io_error::{IoError, IoErrorView};
use crate::text::{parse_unsigned, same_text};
use oxrdf::{NamedNode, NamedOrBlankNode, Term as OxTerm};
use oxttl::NTriplesParser;
use vstd::prelude::*;
use vstd::slice::slice_subrange;

verus! {

/// Metadata about the dataset, see <https://www.rdfhdt.org/hdt-binary-format/#header>.
#[derive(Debug)]
pub struct Header {
    /// Header data format. Only "ntriples" is supported.
    pub format: String,
    /// The number of bytes of the header data.
    pub length: usize,
    /// Triples describing the dataset.
    pub body: TripleSet,
}

/// The model of [`Header`].
pub struct HeaderView {
    pub format: Seq<char>,
    pub length: nat,
    pub body: Set<TripleView>,
}

impl View for Header {
    type V = HeaderView;

    open spec fn view(&self) -> HeaderView {
        HeaderView { format: self.format@, length: self.length as nat, body: self.body@ }
    }
}

impl Clone for Header {
    fn clone(&self) -> (copy: Header)
        ensures
            copy@ == self@,
            copy.format@ == self.format@,
            copy.length == self.length,
            copy.body.ordered() == self.body.ordered(),
    {
        Header { format: self.format.clone(), length: self.length, body: self.body.clone() }
    }
}

/// Why a header could not be read.
#[derive(Debug)]
pub enum Error {
    Other(String),
    Io(IoError),
    /// The control information could not be read, and why.
    ControlInfo(String),
    InvalidHeaderFormat(String),
    InvalidHeaderLength(String),
    MissingHeaderLength,
}

/// The model of [`Error`].
pub enum ErrorView {
    Other(Seq<char>),
    Io(IoErrorView),
    ControlInfo(Seq<char>),
    InvalidHeaderFormat(Seq<char>),
    InvalidHeaderLength(Seq<char>),
    MissingHeaderLength,
}

impl View for Error {
    type V = ErrorView;

    open spec fn view(&self) -> ErrorView {
        match self {
            Error::Other(message) => ErrorView::Other(message@),
            Error::Io(e) => ErrorView::Io(e@),
            Error::ControlInfo(message) => ErrorView::ControlInfo(message@),
            Error::InvalidHeaderFormat(format) => ErrorView::InvalidHeaderFormat(format@),
            Error::InvalidHeaderLength(length) => ErrorView::InvalidHeaderLength(length@),
            Error::MissingHeaderLength => ErrorView::MissingHeaderLength,
        }
    }
}

impl ErrorView {
    /// What the error says.
    pub open spec fn message(self) -> Seq<char> {
        match self {
            ErrorView::Other(message) => message,
            ErrorView::Io(_) => "failed to read HDT header"@,
            ErrorView::ControlInfo(_) => "failed to read HDT header"@,
            ErrorView::InvalidHeaderFormat(format) => "invalid header format "@ + format
                + ", only 'ntriples' is supported"@,
            ErrorView::InvalidHeaderLength(length) => "invalid header length '"@ + length + "'"@,
            ErrorView::MissingHeaderLength => "missing header length"@,
        }
    }
}

impl Error {
    /// What the error says.
    pub fn message(&self) -> (text: String)
        ensures
            text@ == self@.message(),
    {
        match self {
            Error::Other(message) => message.clone(),
            Error::Io(_) => "failed to read HDT header".to_owned(),
            Error::ControlInfo(_) => "failed to read HDT header".to_owned(),
            Error::InvalidHeaderFormat(format) => {
                let mut text = "invalid header format ".to_owned();
                text.append(format.as_str());
                text.append(", only 'ntriples' is supported");
                text
            },
            Error::InvalidHeaderLength(length) => {
                let mut text = "invalid header length '".to_owned();
                text.append(length.as_str());
                text.append("'");
                text
            },
            Error::MissingHeaderLength => "missing header length".to_owned(),
        }
    }
}

/// The object of a statement, as the N-Triples parser gives it.
#[derive(Debug)]
pub enum Object {
    Id(Id),
    Literal { form: String, datatype: Option<String>, lang: Option<String> },
}

/// The model of [`Object`].
pub enum ObjectView {
    Id(IdView),
    Literal { form: Seq<char>, datatype: Option<Seq<char>>, lang: Option<Seq<char>> },
}

/// The text that may be there.
pub open spec fn optional_text(text: Option<String>) -> Option<Seq<char>> {
    match text {
        Some(text) => Some(text@),
        None => None,
    }
}

impl View for Object {
    type V = ObjectView;

    open spec fn view(&self) -> ObjectView {
        match self {
            Object::Id(id) => ObjectView::Id(id@),
            Object::Literal { form, datatype, lang } => ObjectView::Literal {
                form: form@,
                datatype: optional_text(*datatype),
                lang: optional_text(*lang),
            },
        }
    }
}

/// A statement, as the N-Triples parser gives it.
#[derive(Debug)]
pub struct Statement {
    pub subject: Id,
    pub predicate: String,
    pub object: Object,
}

/// The model of [`Statement`].
pub struct StatementView {
    pub subject: IdView,
    pub predicate: Seq<char>,
    pub object: ObjectView,
}

impl View for Statement {
    type V = StatementView;

    open spec fn view(&self) -> StatementView {
        StatementView {
            subject: self.subject@,
            predicate: self.predicate@,
            object: self.object@,
        }
    }
}

/// The models of what the N-Triples parser gives: statements, and `None` for
/// each error.
pub open spec fn item_views(items: Seq<Option<Statement>>) -> Seq<Option<StatementView>> {
    items.map_values(
        |item: Option<Statement>|
            match item {
                Some(statement) => Some(statement@),
                None => None,
            },
    )
}

/// What `oxttl`'s N-Triples parser makes of some bytes: the statements, and
/// `None` for each error, in their order.
pub uninterp spec fn ntriples_items(bytes: Seq<u8>) -> Seq<Option<StatementView>>;

/// Walks `oxttl`'s `NTriplesParser::for_slice` to its end. Each triple is
/// taken apart into its texts, each error is `None`; what comes out is
/// determined by the bytes.
#[verifier::external_body]
fn parse_ntriples(bytes: &[u8]) -> (items: Vec<Option<Statement>>)
    ensures
        item_views(items@) == ntriples_items(bytes@),
{
    NTriplesParser::new().for_slice(bytes).map(|item| item.ok().map(|triple| Statement {
        subject: match triple.subject {
            NamedOrBlankNode::NamedNode(iri) => Id::Named(iri.into_string()),
            NamedOrBlankNode::BlankNode(id) => Id::Blank(id.into_string()),
        },
        predicate: triple.predicate.into_string(),
        object: match triple.object {
            OxTerm::NamedNode(iri) => Object::Id(Id::Named(iri.into_string())),
            OxTerm::BlankNode(id) => Object::Id(Id::Blank(id.into_string())),
            OxTerm::Literal(literal) => {
                let (form, datatype, lang) = literal.destruct();
                Object::Literal { form, datatype: datatype.map(NamedNode::into_string), lang }
            }
        },
    })).collect()
}

/// The literal that a form, a datatype and a language make: the language counts
/// before the datatype.
pub open spec fn literal_of(
    form: Seq<char>,
    datatype: Option<Seq<char>>,
    lang: Option<Seq<char>>,
) -> LiteralView {
    match (datatype, lang) {
        (_, Some(lang)) => LiteralView::Lang { form, lang },
        (Some(datatype), None) => LiteralView::Typed { form, datatype },
        (None, None) => LiteralView::Plain { form },
    }
}

/// The triple that a statement makes.
pub open spec fn triple_of(statement: StatementView) -> TripleView {
    TripleView {
        subject: statement.subject,
        predicate: statement.predicate,
        object: match statement.object {
            ObjectView::Id(id) => TermView::Id(id),
            ObjectView::Literal { form, datatype, lang } => TermView::Literal(
                literal_of(form, datatype, lang),
            ),
        },
    }
}

/// The triples that the statements among some items make.
pub open spec fn triples_among(items: Seq<Option<StatementView>>) -> Set<TripleView> {
    Set::new(
        |t: TripleView|
            exists|i: int|
                0 <= i < items.len() && #[trigger] items[i] is Some && t == triple_of(
                    items[i].unwrap(),
                ),
    )
}

/// The triple that a statement makes.
pub fn triple_from_statement(statement: Statement) -> (triple: Triple)
    ensures
        triple@ == triple_of(statement@),
        triple.subject == statement.subject,
        triple.predicate == statement.predicate,
        match statement.object {
            Object::Id(id) => triple.object == Term::Id(id),
            Object::Literal { form, datatype: _, lang: Some(lang) } => triple.object matches Term::Literal(
                Literal::Lang { form: f, lang: l },
            ) && f@ == form@ && l@ == lang@,
            Object::Literal { form, datatype: Some(datatype), lang: None } => triple.object
                matches Term::Literal(Literal::Typed { form: f, datatype: d }) && f@ == form@ && d@
                == datatype@,
            Object::Literal { form, datatype: None, lang: None } => triple.object
                matches Term::Literal(Literal::Plain { form: f }) && f@ == form@,
        },
{
    let object = match statement.object {
        Object::Id(id) => Term::Id(id),
        Object::Literal { form, datatype, lang } => Term::Literal(
            match (datatype, lang) {
                (_, Some(lang)) => Literal::new_lang(form, lang),
                (Some(datatype), None) => Literal::new_typed(form, datatype),
                (None, None) => Literal::new(form),
            },
        ),
    };
    Triple::new(statement.subject, statement.predicate, object)
}

/// The triples that the statements among some items make. Errors are skipped.
pub fn triples_from_items(items: Vec<Option<Statement>>) -> (body: TripleSet)
    ensures
        body@ == triples_among(item_views(items@)),
        forall|t: TripleView| #[trigger]
            body@.contains(t) <==> exists|i: int|
                0 <= i < items@.len() && (#[trigger] items@[i]) is Some && t == triple_of(
                    items@[i].unwrap()@,
                ),
{
    let ghost all = item_views(items@);
    let ghost given = items@;
    let mut items = items;
    let mut body = TripleSet::new();
    assert(all.skip(all.len() as int) =~= Seq::<Option<StatementView>>::empty());
    assert(body@ =~= triples_among(all.skip(all.len() as int)));
    while items.len() > 0
        invariant
            items@.len() <= all.len(),
            item_views(items@) == all.take(items@.len() as int),
            body@ == triples_among(all.skip(items@.len() as int)),
        decreases items@.len(),
    {
        let ghost n = items@.len() - 1;
        let ghost before = items@;
        let ghost later = all.skip(n + 1);
        let ghost now = all.skip(n);
        proof {
            assert(item_views(before)[n] == all[n]);
            assert(now[0] == all[n]);
            assert forall|i: int| 0 <= i < later.len() implies #[trigger] later[i] == now[i + 1] by {}
        }
        let item = items.pop().unwrap();
        assert(item_views(items@) =~= all.take(n));
        if let Some(statement) = item {
            let ghost t = triple_of(statement@);
            let ghost old_body = body@;
            body.insert(triple_from_statement(statement));
            proof {
                assert(now[0] == Some(statement@));
                lemma_triples_among_cons(now, later);
                assert(body@ =~= triples_among(now));
            }
        } else {
            proof {
                lemma_triples_among_cons(now, later);
            }
        }
    }
    assert(all.skip(0) =~= all);
    proof {
        assert forall|t: TripleView| #[trigger] body@.contains(t) implies exists|i: int|
            0 <= i < given.len() && (#[trigger] given[i]) is Some && t == triple_of(
                given[i].unwrap()@,
            ) by {
            let i = choose|i: int|
                0 <= i < all.len() && #[trigger] all[i] is Some && t == triple_of(all[i].unwrap());
            assert(given[i] is Some);
        }
        assert forall|i: int| 0 <= i < given.len() && (#[trigger] given[i]) is Some implies body@.contains(
            triple_of(given[i].unwrap()@),
        ) by {
            assert(all[i] == Some(given[i].unwrap()@));
        }
    }
    body
}

proof fn lemma_triples_among_cons(now: Seq<Option<StatementView>>, later: Seq<Option<StatementView>>)
    requires
        now.len() == later.len() + 1,
        forall|i: int| 0 <= i < later.len() ==> #[trigger] later[i] == now[i + 1],
    ensures
        now[0] is None ==> triples_among(now) == triples_among(later),
        now[0] is Some ==> triples_among(now) == triples_among(later).insert(
            triple_of(now[0].unwrap()),
        ),
{
    let expected = if now[0] is Some {
        triples_among(later).insert(triple_of(now[0].unwrap()))
    } else {
        triples_among(later)
    };
    assert forall|t: TripleView| triples_among(now).contains(t) == expected.contains(t) by {
        if triples_among(now).contains(t) {
            let i = choose|i: int|
                0 <= i < now.len() && #[trigger] now[i] is Some && t == triple_of(now[i].unwrap());
            if i > 0 {
                assert(later[i - 1] == now[i]);
            }
        }
        if triples_among(later).contains(t) {
            let i = choose|i: int|
                0 <= i < later.len() && #[trigger] later[i] is Some && t == triple_of(
                    later[i].unwrap(),
                );
            assert(now[i + 1] == later[i]);
        }
    }
    assert(triples_among(now) =~= expected);
}

/// The number of bytes of a header's data, as its control information has it:
/// the format is checked first.
pub open spec fn length_outcome(control_info: ControlInfoView) -> Result<nat, ErrorView> {
    if control_info.format != "ntriples"@ {
        Err(ErrorView::InvalidHeaderFormat(control_info.format))
    } else {
        match control_info.property("length"@) {
            None => Err(ErrorView::MissingHeaderLength),
            Some(text) => match crate::text::parsed_unsigned(text, usize::MAX as nat) {
                Err(_) => Err(ErrorView::InvalidHeaderLength(text)),
                Ok(length) => Ok(length),
            },
        }
    }
}

/// What is read from a header whose control information is `control_info`,
/// where `rest` is what follows it.
pub open spec fn header_outcome(control_info: ControlInfoView, rest: Seq<u8>) -> Result<
    HeaderView,
    ErrorView,
> {
    match length_outcome(control_info) {
        Err(e) => Err(e),
        Ok(length) => if rest.len() < length {
            Err(ErrorView::Io(IoErrorView::UnexpectedEof))
        } else {
            Ok(
                HeaderView {
                    format: control_info.format,
                    length,
                    body: triples_among(ntriples_items(rest.take(length as int))),
                },
            )
        },
    }
}

/// The lines of a header's body.
pub open spec fn body_text(triples: Seq<TripleView>) -> Seq<char>
    decreases triples.len(),
{
    if triples.len() == 0 {
        Seq::empty()
    } else {
        body_text(triples.drop_last()) + triples.last().text() + "\n"@
    }
}

impl Header {
    /// The number of bytes of a header's data, as its control information has it.
    pub fn declared_length(control_info: &ControlInfo) -> (length: Result<usize, Error>)
        ensures
            match length {
                Ok(length) => length_outcome(control_info@) == Ok::<nat, ErrorView>(length as nat),
                Err(e) => length_outcome(control_info@) == Err::<nat, ErrorView>(e@),
            },
            match length {
                Ok(length) => control_info.format@ == "ntriples"@
                    && control_info.properties@.contains_key("length"@)
                    && crate::text::parsed_unsigned(
                    control_info.properties@["length"@],
                    usize::MAX as nat,
                ) == Ok::<nat, crate::text::ParseIntError>(length as nat),
                Err(Error::InvalidHeaderFormat(format)) => format@ == control_info.format@
                    && control_info.format@ != "ntriples"@,
                Err(Error::MissingHeaderLength) => control_info.format@ == "ntriples"@
                    && !control_info.properties@.contains_key("length"@),
                Err(Error::InvalidHeaderLength(text)) => control_info.format@ == "ntriples"@
                    && control_info.properties@.contains_key("length"@) && text@
                    == control_info.properties@["length"@] && crate::text::parsed_unsigned(
                    text@,
                    usize::MAX as nat,
                ) is Err,
                Err(_) => false,
            },
    {
        if !same_text(control_info.format.as_str(), "ntriples") {
            return Err(Error::InvalidHeaderFormat(control_info.format.clone()));
        }
        let text = match control_info.get("length") {
            None => return Err(Error::MissingHeaderLength),
            Some(text) => text,
        };
        match parse_unsigned(text.as_str(), usize::MAX as u64) {
            Err(_) => Err(Error::InvalidHeaderLength(text)),
            Ok(length) => Ok(length as usize),
        }
    }

    /// Reads a header whose control information is `control_info`, where
    /// `rest` is what follows it.
    pub fn read(control_info: ControlInfo, rest: &[u8]) -> (header: Result<Header, Error>)
        ensures
            match header {
                Ok(header) => header_outcome(control_info@, rest@) == Ok::<HeaderView, ErrorView>(
                    header@,
                ),
                Err(e) => header_outcome(control_info@, rest@) == Err::<HeaderView, ErrorView>(e@),
            },
            match header {
                Ok(header) => header.format@ == control_info.format@ && length_outcome(control_info@)
                    == Ok::<nat, ErrorView>(header.length as nat) && header.length <= rest@.len()
                    && (forall|t: TripleView| #[trigger]
                    header.body@.contains(t) <==> exists|i: int|
                        0 <= i < ntriples_items(rest@.subrange(0, header.length as int)).len() && (
                        #[trigger] ntriples_items(rest@.subrange(0, header.length as int))[i]) is Some && t
                            == triple_of(
                            ntriples_items(rest@.subrange(0, header.length as int))[i].unwrap(),
                        )),
                Err(Error::Io(IoError::UnexpectedEof)) => length_outcome(control_info@) matches Ok(
                    length,
                ) && rest@.len() < length,
                Err(e) => length_outcome(control_info@) == Err::<nat, ErrorView>(e@),
            },
    {
        let length: usize = match Header::declared_length(&control_info) {
            Err(e) => return Err(e),
            Ok(length) => length,
        };
        if rest.len() < length {
            return Err(Error::Io(IoError::UnexpectedEof));
        }
        let data = slice_subrange(rest, 0, length);
        assert(data@ =~= rest@.take(length as int));
        assert(data@ == rest@.subrange(0, length as int));
        let body = triples_from_items(parse_ntriples(data));
        Ok(Header { format: control_info.format, length, body })
    }

    /// The control information and the body that make up the header: a line
    /// of N-Triples for each triple, in ascending order.
    pub fn write(&self) -> (written: (ControlInfo, String))
        ensures
            written.0@ == crate::containers::control_info::header_control_info(self.length as nat),
            written.1@ == body_text(self.body.ordered()),
            crate::containers::triple_set::ascending(self.body.ordered()),
    {
        let mut body = String::new();
        let triples = self.body.as_slice();
        let count: usize = triples.len();
        let ghost all = self.body.ordered();
        let mut i: usize = 0;
        assert(all.take(0) =~= Seq::<TripleView>::empty());
        while i < count
            invariant
                i <= count,
                count == triples@.len(),
                crate::containers::triple_set::ascending(self.body.ordered()),
                all == crate::containers::triple_set::triple_views(triples@),
                body@ == body_text(all.take(i as int)),
            decreases count - i,
        {
            triples[i].append_to(&mut body);
            body.append("\n");
            assert(all.take(i + 1).drop_last() =~= all.take(i as int));
            assert(all.take(i + 1).last() == triples[i as int]@);
            i = i + 1;
        }
        assert(all.take(count as int) =~= all);
        (ControlInfo::header(self.length), body)
    }
}

/// What is written of a header is determined by its length and its triples.
pub proof fn headers_with_the_same_triples_are_written_alike(
    a: Seq<TripleView>,
    b: Seq<TripleView>,
)
    requires
        crate::containers::triple_set::ascending(a),
        crate::containers::triple_set::ascending(b),
        a.to_set() == b.to_set(),
    ensures
        body_text(a) == body_text(b),
{
    crate::containers::triple_set::ascending_order_is_unique(a, b);
}

/// A header that was written is read back, where its length is that of its
/// body and the N-Triples parser finds its triples in the body.
pub proof fn written_header_is_read_back(header: HeaderView, ordered: Seq<TripleView>)
    requires
        header.format == "ntriples"@,
        header.body == ordered.to_set(),
        header.length <= usize::MAX,
        header.length == vstd::utf8::encode_utf8(body_text(ordered)).len(),
        triples_among(ntriples_items(vstd::utf8::encode_utf8(body_text(ordered))))
            == ordered.to_set(),
    ensures
        header_outcome(
            crate::containers::control_info::header_control_info(header.length),
            vstd::utf8::encode_utf8(body_text(ordered)),
        ) == Ok::<HeaderView, ErrorView>(header),
{
    let bytes = vstd::utf8::encode_utf8(body_text(ordered));
    crate::text::decimal_is_read_back(header.length, usize::MAX as nat);
    assert(bytes.take(header.length as int) =~= bytes);
}

/// What follows a header that is read does not matter to it.
pub proof fn bytes_after_the_header_do_not_matter(
    control_info: ControlInfoView,
    rest: Seq<u8>,
    more: Seq<u8>,
)
    requires
        header_outcome(control_info, rest) is Ok,
    ensures
        header_outcome(control_info, rest + more) == header_outcome(control_info, rest),
{
    let length = header_outcome(control_info, rest)->Ok_0.length as int;
    assert((rest + more).take(length) =~= rest.take(length));
}

/// A statement makes the triple with its subject, its predicate and its object.
/// An object that is a literal keeps its string and, whatever the subject and
/// the predicate, its language, or else its datatype, if it has one.
pub proof fn statements_keep_their_parts(
    subject: IdView,
    predicate: Seq<char>,
    id: IdView,
    form: Seq<char>,
    datatype: Seq<char>,
    lang: Seq<char>,
    any: Option<Seq<char>>,
)
    ensures
        triple_of(StatementView { subject, predicate, object: ObjectView::Id(id) }) == (TripleView {
            subject,
            predicate,
            object: TermView::Id(id),
        }),
        triple_of(
            StatementView {
                subject,
                predicate,
                object: ObjectView::Literal { form, datatype: any, lang: Some(lang) },
            },
        ) == (TripleView {
            subject,
            predicate,
            object: TermView::Literal(LiteralView::Lang { form, lang }),
        }),
        triple_of(
            StatementView {
                subject,
                predicate,
                object: ObjectView::Literal { form, datatype: Some(datatype), lang: None },
            },
        ) == (TripleView {
            subject,
            predicate,
            object: TermView::Literal(LiteralView::Typed { form, datatype }),
        }),
        triple_of(
            StatementView {
                subject,
                predicate,
                object: ObjectView::Literal { form, datatype: None, lang: None },
            },
        ) == (TripleView { subject, predicate, object: TermView::Literal(LiteralView::Plain { form }) }),
{
}

/// Whether a statement's object has both a language and a datatype.
pub open spec fn has_both(statement: StatementView) -> bool {
    statement.object matches ObjectView::Literal { datatype: Some(_), lang: Some(_), .. }
}

/// Different statements make different triples, unless they differ in a
/// datatype beside a language.
pub proof fn different_statements_make_different_triples(a: StatementView, b: StatementView)
    requires
        triple_of(a) == triple_of(b),
        !has_both(a),
        !has_both(b),
    ensures
        a == b,
{
}

/// A header's triples are those that its statements make, each of them: what
/// stands around a statement does not matter to its triple.
pub proof fn each_statement_makes_its_triple(
    before: Seq<Option<StatementView>>,
    statement: StatementView,
    after: Seq<Option<StatementView>>,
)
    ensures
        triples_among(Seq::empty()) == Set::<TripleView>::empty(),
        triples_among(before + after) == triples_among(before).union(triples_among(after)),
        triples_among(seq![None]) == Set::<TripleView>::empty(),
        triples_among(seq![Some(statement)]) == Set::<TripleView>::empty().insert(
            triple_of(statement),
        ),
{
    let all = before + after;
    assert forall|t: TripleView| triples_among(all).contains(t) == triples_among(before).union(
        triples_among(after),
    ).contains(t) by {
        if triples_among(all).contains(t) {
            let i = choose|i: int|
                0 <= i < all.len() && #[trigger] all[i] is Some && t == triple_of(all[i].unwrap());
            if i < before.len() {
                assert(before[i] == all[i]);
            } else {
                assert(after[i - before.len()] == all[i]);
            }
        }
        if triples_among(before).contains(t) {
            let i = choose|i: int|
                0 <= i < before.len() && #[trigger] before[i] is Some && t == triple_of(
                    before[i].unwrap(),
                );
            assert(all[i] == before[i]);
        }
        if triples_among(after).contains(t) {
            let i = choose|i: int|
                0 <= i < after.len() && #[trigger] after[i] is Some && t == triple_of(
                    after[i].unwrap(),
                );
            assert(all[before.len() + i] == after[i]);
        }
    }
    assert(triples_among(all) =~= triples_among(before).union(triples_among(after)));
    assert(triples_among(Seq::empty()) =~= Set::<TripleView>::empty());
    assert(triples_among(seq![None]) =~= Set::<TripleView>::empty());
    assert(seq![Some(statement)][0] == Some(statement));
    assert(triples_among(seq![Some(statement)]) =~= Set::<TripleView>::empty().insert(
        triple_of(statement),
    ));
}

/// A header's body is a line for each triple, in their order.
pub proof fn each_triple_has_its_line(triples: Seq<TripleView>, triple: TripleView)
    ensures
        body_text(Seq::empty()) == Seq::<char>::empty(),
        body_text(triples.push(triple)) == body_text(triples) + triple.text() + seq!['\n'],
{
    reveal_strlit("\n");
    assert("\n"@ =~= seq!['\n']);
    assert(triples.push(triple).drop_last() =~= triples);
}

/// A header is read where its format is N-Triples, its length is a number, and
/// at least as many bytes follow. Its triples are those that the N-Triples
/// parser finds in these bytes.
pub proof fn headers_are_read_by_their_length(control_info: ControlInfoView, rest: Seq<u8>)
    ensures
        control_info.format != "ntriples"@ ==> header_outcome(control_info, rest) == Err::<
            HeaderView,
            ErrorView,
        >(ErrorView::InvalidHeaderFormat(control_info.format)),
        control_info.format == "ntriples"@ && !control_info.properties.contains_key("length"@)
            ==> header_outcome(control_info, rest) == Err::<HeaderView, ErrorView>(
            ErrorView::MissingHeaderLength,
        ),
        control_info.format == "ntriples"@ && control_info.properties.contains_key("length"@) ==> {
            let text = control_info.properties["length"@];
            match crate::text::parsed_unsigned(text, usize::MAX as nat) {
                Err(_) => header_outcome(control_info, rest) == Err::<HeaderView, ErrorView>(
                    ErrorView::InvalidHeaderLength(text),
                ),
                Ok(length) => if rest.len() < length {
                    header_outcome(control_info, rest) == Err::<HeaderView, ErrorView>(
                        ErrorView::Io(IoErrorView::UnexpectedEof),
                    )
                } else {
                    header_outcome(control_info, rest) == Ok::<HeaderView, ErrorView>(
                        HeaderView {
                            format: "ntriples"@,
                            length,
                            body: triples_among(ntriples_items(rest.subrange(0, length as int))),
                        },
                    )
                },
            }
        },
{
    assert(control_info.property("length"@) == if control_info.properties.contains_key("length"@) {
        Some(control_info.properties["length"@])
    } else {
        None
    });
    if let Ok(length) = length_outcome(control_info) {
        assert(rest.take(length as int) == rest.subrange(0, length as int));
    }
}

/// What the errors of reading a header say of what they are about.
pub proof fn header_errors_say_what_was_found(text: Seq<char>, e: IoErrorView)
    ensures
        ErrorView::Other(text).message() == text,
        ErrorView::Io(e).message() == "failed to read HDT header"@,
        ErrorView::ControlInfo(text).message() == "failed to read HDT header"@,
        ErrorView::InvalidHeaderFormat(text).message() == "invalid header format "@ + text
            + ", only 'ntriples' is supported"@,
        ErrorView::InvalidHeaderLength(text).message() == "invalid header length '"@ + text + "'"@,
        ErrorView::MissingHeaderLength.message() == "missing header length"@,
{
}

/// The model of a header holds what this holds.
pub proof fn header_model_holds_the_same(header: Header)
    ensures
        header@.format == header.format@,
        header@.length == header.length,
        header@.body == header.body@,
{
}

/// The models of statements hold what these hold, each in its place.
pub proof fn statement_models_hold_the_same(items: Seq<Option<Statement>>, i: int)
    requires
        0 <= i < items.len(),
    ensures
        item_views(items).len() == items.len(),
        items[i] is None ==> item_views(items)[i] is None,
        items[i] matches Some(statement) ==> item_views(items)[i] == Some(
            StatementView {
                subject: statement.subject@,
                predicate: statement.predicate@,
                object: match statement.object {
                    Object::Id(id) => ObjectView::Id(id@),
                    Object::Literal { form, datatype, lang } => ObjectView::Literal {
                        form: form@,
                        datatype: match datatype {
                            Some(datatype) => Some(datatype@),
                            None => None,
                        },
                        lang: match lang {
                            Some(lang) => Some(lang@),
                            None => None,
                        },
                    },
                },
            },
        ),
{
}

/// The models of errors hold what these hold.
pub proof fn header_error_models_hold_the_same(e: Error, io: IoError)
    ensures
        match e {
            Error::Other(text) => e@ == ErrorView::Other(text@),
            Error::Io(io) => e@ == ErrorView::Io(io@),
            Error::ControlInfo(text) => e@ == ErrorView::ControlInfo(text@),
            Error::InvalidHeaderFormat(text) => e@ == ErrorView::InvalidHeaderFormat(text@),
            Error::InvalidHeaderLength(text) => e@ == ErrorView::InvalidHeaderLength(text@),
            Error::MissingHeaderLength => e@ == ErrorView::MissingHeaderLength,
        },
        match io {
            IoError::UnexpectedEof => io@ == IoErrorView::UnexpectedEof,
            IoError::Other(text) => io@ == IoErrorView::Other(text@),
        },
{
}

} // verus!
