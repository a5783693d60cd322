//! An RDF graph from an HDT file.
use crate::four_sect_dict::{DictView, FourSectDict, IdKind};
use crate::header::{Header, HeaderView};
use crate::io_error::{IoError, IoErrorView};
use crate::triples::hybrid_cache::{HybridCache, HybridCacheError, HybridCacheErrorView};
use crate::triples::{Id, TripleId};
use vstd::prelude::*;

verus! {

/// Why an HDT file could not be loaded.
#[derive(Debug)]
pub enum Error {
    Io(IoError),
    Header(crate::header::Error),
    Cache(HybridCacheError),
    /// Another failure, in words.
    Other(String),
}

/// The model of [`Error`].
pub enum ErrorView {
    Io(IoErrorView),
    Header(crate::header::ErrorView),
    Cache(HybridCacheErrorView),
    Other(Seq<char>),
}

impl View for Error {
    type V = ErrorView;

    open spec fn view(&self) -> ErrorView {
        match self {
            Error::Io(e) => ErrorView::Io(e@),
            Error::Header(e) => ErrorView::Header(e@),
            Error::Cache(e) => ErrorView::Cache(e@),
            Error::Other(message) => ErrorView::Other(message@),
        }
    }
}

impl ErrorView {
    /// What the error says.
    pub open spec fn message(self) -> Seq<char> {
        match self {
            ErrorView::Io(e) => e.message(),
            ErrorView::Header(e) => e.message(),
            ErrorView::Cache(e) => e.message(),
            ErrorView::Other(message) => message,
        }
    }
}

impl Error {
    /// What the error says.
    pub fn message(&self) -> (text: String)
        ensures
            text@ == self@.message(),
    {
        match self {
            Error::Io(e) => e.message(),
            Error::Header(e) => e.message(),
            Error::Cache(e) => e.message(),
            Error::Other(message) => message.clone(),
        }
    }
}

/// A triple by the texts of its subject, predicate and object.
pub type StringTriple = [String; 3];

/// The model of [`StringTriple`].
pub type TextTriple = (Seq<char>, Seq<char>, Seq<char>);

/// The models of some triples by their texts.
pub open spec fn text_triple_views(triples: Seq<StringTriple>) -> Seq<TextTriple> {
    triples.map_values(|t: StringTriple| (t[0]@, t[1]@, t[2]@))
}

/// The text that a pattern asks for.
pub open spec fn asked_text(term: Option<&str>) -> Option<Seq<char>> {
    match term {
        Some(term) => Some(term@),
        None => None,
    }
}

/// Whether a number is the one that a pattern asks for, where 0 asks for any.
pub open spec fn id_fits(asked: Id, id: Id) -> bool {
    asked == 0 || asked == id
}

/// Whether a triple has the numbers that a pattern asks for.
pub open spec fn ids_fit(pattern: TripleId, triple: TripleId) -> bool {
    id_fits(pattern[0], triple[0]) && id_fits(pattern[1], triple[1]) && id_fits(
        pattern[2],
        triple[2],
    )
}

/// Whether a text is the one that a pattern asks for.
pub open spec fn text_fits(asked: Option<Seq<char>>, text: Seq<char>) -> bool {
    match asked {
        Some(asked) => asked == text,
        None => true,
    }
}

/// Whether a triple has the texts that a pattern asks for.
pub open spec fn texts_fit(
    sp: Option<Seq<char>>,
    pp: Option<Seq<char>>,
    op: Option<Seq<char>>,
    triple: TextTriple,
) -> bool {
    text_fits(sp, triple.0) && text_fits(pp, triple.1) && text_fits(op, triple.2)
}

/// The model of a graph.
pub struct GraphView {
    pub header: HeaderView,
    /// The number of bytes that the graph takes.
    pub size: nat,
    pub dict: DictView,
    pub triples: Seq<TripleId>,
}

impl GraphView {
    /// Whether the dictionary has the terms of a triple.
    pub open spec fn knows(self, triple: TripleId) -> bool {
        &&& self.dict.has_id(triple[0] as int, IdKind::Subject)
        &&& self.dict.has_id(triple[1] as int, IdKind::Predicate)
        &&& self.dict.has_id(triple[2] as int, IdKind::Object)
    }

    /// What holds of every graph: its dictionary has the terms of its triples.
    pub open spec fn valid(self) -> bool {
        &&& self.dict.valid()
        &&& forall|i: int| 0 <= i < self.triples.len() ==> self.knows(#[trigger] self.triples[i])
    }

    /// The texts of a triple.
    pub open spec fn texts_of(self, triple: TripleId) -> TextTriple {
        (
            self.dict.term_of(triple[0] as int, IdKind::Subject),
            self.dict.term_of(triple[1] as int, IdKind::Predicate),
            self.dict.term_of(triple[2] as int, IdKind::Object),
        )
    }

    /// The texts of some triples.
    pub open spec fn texts_of_all(self, triples: Seq<TripleId>) -> Seq<TextTriple> {
        triples.map_values(|t: TripleId| self.texts_of(t))
    }

    /// The triples with the numbers that a pattern asks for.
    pub open spec fn with_ids(self, pattern: TripleId) -> Seq<TripleId> {
        self.triples.filter(|t: TripleId| ids_fit(pattern, t))
    }

    /// The triples with the texts that a pattern asks for.
    pub open spec fn with_texts(
        self,
        sp: Option<Seq<char>>,
        pp: Option<Seq<char>>,
        op: Option<Seq<char>>,
    ) -> Seq<TripleId> {
        self.triples.filter(|t: TripleId| texts_fit(sp, pp, op, self.texts_of(t)))
    }
}

/// Filters by what holds of the same elements alike give the same.
proof fn lemma_filters_agree<A>(s: Seq<A>, p: spec_fn(A) -> bool, q: spec_fn(A) -> bool)
    requires
        forall|i: int| 0 <= i < s.len() ==> p(#[trigger] s[i]) == q(s[i]),
    ensures
        s.filter(p) == s.filter(q),
    decreases s.len(),
{
    reveal(Seq::filter);
    if s.len() > 0 {
        assert(p(s[s.len() - 1]) == q(s[s.len() - 1]));
        assert forall|i: int| 0 <= i < s.drop_last().len() implies p(#[trigger] s.drop_last()[i])
            == q(s.drop_last()[i]) by {
            assert(s.drop_last()[i] == s[i]);
        }
        lemma_filters_agree(s.drop_last(), p, q);
    }
}

proof fn lemma_filter_all<A>(s: Seq<A>, p: spec_fn(A) -> bool)
    requires
        forall|i: int| 0 <= i < s.len() ==> p(#[trigger] s[i]),
    ensures
        s.filter(p) == s,
    decreases s.len(),
{
    reveal(Seq::filter);
    if s.len() > 0 {
        assert(p(s[s.len() - 1]));
        assert forall|i: int| 0 <= i < s.drop_last().len() implies p(#[trigger] s.drop_last()[i]) by {
            assert(s.drop_last()[i] == s[i]);
        }
        lemma_filter_all(s.drop_last(), p);
        assert(s.drop_last().push(s.last()) =~= s);
    }
}

proof fn lemma_filter_none<A>(s: Seq<A>, p: spec_fn(A) -> bool)
    requires
        forall|i: int| 0 <= i < s.len() ==> !p(#[trigger] s[i]),
    ensures
        s.filter(p) == Seq::<A>::empty(),
    decreases s.len(),
{
    reveal(Seq::filter);
    if s.len() > 0 {
        assert(!p(s[s.len() - 1]));
        assert forall|i: int| 0 <= i < s.drop_last().len() implies !p(#[trigger] s.drop_last()[i]) by {
            assert(s.drop_last()[i] == s[i]);
        }
        lemma_filter_none(s.drop_last(), p);
    }
}

/// A term is the one that is asked for where its number is.
proof fn lemma_text_fits_by_id(dict: DictView, asked: Seq<char>, id: int, kind: IdKind)
    requires
        dict.valid(),
        dict.has_id(id, kind),
    ensures
        (dict.term_of(id, kind) == asked) == (dict.id_of(asked, kind) == id),
{
    crate::four_sect_dict::id_of_the_term_of_an_id(dict, id, kind);
    if dict.id_of(asked, kind) == id {
        crate::four_sect_dict::term_of_the_id_of_a_term(dict, asked, kind);
    }
}

/// The pattern that asks for nothing gives every triple, by numbers and by
/// texts.
pub proof fn empty_pattern_gives_all(graph: GraphView, pattern: TripleId)
    requires
        pattern[0] == 0,
        pattern[1] == 0,
        pattern[2] == 0,
    ensures
        graph.with_ids(pattern) == graph.triples,
        graph.with_texts(None, None, None) == graph.triples,
{
    lemma_filter_all(graph.triples, |t: TripleId| ids_fit(pattern, t));
    lemma_filter_all(
        graph.triples,
        |t: TripleId| texts_fit(None, None, None, graph.texts_of(t)),
    );
}

/// Whether a pattern by numbers asks for the term that one by texts asks for.
pub open spec fn asks_alike(dict: DictView, asked: Option<Seq<char>>, id: Id, kind: IdKind) -> bool {
    match asked {
        Some(text) => id != 0 && id == dict.id_of(text, kind),
        None => id == 0,
    }
}

/// Asking by texts and by the numbers of their terms gives the same triples.
pub proof fn texts_and_ids_find_alike(
    graph: GraphView,
    sp: Option<Seq<char>>,
    pp: Option<Seq<char>>,
    op: Option<Seq<char>>,
    pattern: TripleId,
)
    requires
        graph.valid(),
        asks_alike(graph.dict, sp, pattern[0], IdKind::Subject),
        asks_alike(graph.dict, pp, pattern[1], IdKind::Predicate),
        asks_alike(graph.dict, op, pattern[2], IdKind::Object),
    ensures
        graph.with_texts(sp, pp, op) == graph.with_ids(pattern),
{
    let by_texts = |t: TripleId| texts_fit(sp, pp, op, graph.texts_of(t));
    let by_ids = |t: TripleId| ids_fit(pattern, t);
    assert forall|i: int| 0 <= i < graph.triples.len() implies by_texts(#[trigger] graph.triples[i])
        == by_ids(graph.triples[i]) by {
        let t = graph.triples[i];
        assert(graph.knows(t));
        if let Some(text) = sp {
            lemma_text_fits_by_id(graph.dict, text, t[0] as int, IdKind::Subject);
        }
        if let Some(text) = pp {
            lemma_text_fits_by_id(graph.dict, text, t[1] as int, IdKind::Predicate);
        }
        if let Some(text) = op {
            lemma_text_fits_by_id(graph.dict, text, t[2] as int, IdKind::Object);
        }
    }
    lemma_filters_agree(graph.triples, by_texts, by_ids);
}

/// Whether a pattern asks for a term that the dictionary lacks.
pub open spec fn is_unknown(dict: DictView, asked: Option<Seq<char>>, kind: IdKind) -> bool {
    match asked {
        Some(text) => dict.id_of(text, kind) == 0,
        None => false,
    }
}

/// A term that the dictionary lacks is in no triple.
pub proof fn unknown_term_finds_nothing(
    graph: GraphView,
    sp: Option<Seq<char>>,
    pp: Option<Seq<char>>,
    op: Option<Seq<char>>,
)
    requires
        graph.valid(),
        is_unknown(graph.dict, sp, IdKind::Subject) || is_unknown(
            graph.dict,
            pp,
            IdKind::Predicate,
        ) || is_unknown(graph.dict, op, IdKind::Object),
    ensures
        graph.with_texts(sp, pp, op) == Seq::<TripleId>::empty(),
{
    let by_texts = |t: TripleId| texts_fit(sp, pp, op, graph.texts_of(t));
    assert forall|i: int| 0 <= i < graph.triples.len() implies !by_texts(
        #[trigger] graph.triples[i],
    ) by {
        let t = graph.triples[i];
        assert(graph.knows(t));
        if let Some(text) = sp {
            lemma_text_fits_by_id(graph.dict, text, t[0] as int, IdKind::Subject);
        }
        if let Some(text) = pp {
            lemma_text_fits_by_id(graph.dict, text, t[1] as int, IdKind::Predicate);
        }
        if let Some(text) = op {
            lemma_text_fits_by_id(graph.dict, text, t[2] as int, IdKind::Object);
        }
    }
    lemma_filter_none(graph.triples, by_texts);
}

proof fn lemma_filter_contains<A>(s: Seq<A>, p: spec_fn(A) -> bool, x: A)
    ensures
        s.filter(p).contains(x) <==> s.contains(x) && p(x),
    decreases s.len(),
{
    reveal(Seq::filter);
    if s.len() > 0 {
        let before = s.drop_last();
        lemma_filter_contains(before, p, x);
        assert(s =~= before.push(s.last()));
        if before.contains(x) {
            let i = before.index_of(x);
            assert(s[i] == x);
        }
        if s.contains(x) {
            let i = s.index_of(x);
            if i < before.len() {
                assert(before[i] == x);
            }
        }
        assert(s[s.len() - 1] == s.last());
        let f = before.filter(p);
        if f.contains(x) {
            let i = f.index_of(x);
            assert(s.filter(p)[i] == x);
        }
        if p(s.last()) {
            assert(s.filter(p)[f.len() as int] == s.last());
        }
        if s.filter(p).contains(x) {
            let i = s.filter(p).index_of(x);
            if i < f.len() {
                assert(f[i] == x);
            }
        }
    }
}

/// A pattern of numbers selects the triples that have its number in each place
/// where it has one, whichever places these are, in the order of the graph.
pub proof fn patterns_select_by_their_places(graph: GraphView, pattern: TripleId)
    ensures
        graph.with_ids(pattern) == graph.triples.filter(
            |t: TripleId|
                (pattern[0] == 0 || t[0] == pattern[0]) && (pattern[1] == 0 || t[1] == pattern[1])
                    && (pattern[2] == 0 || t[2] == pattern[2]),
        ),
        forall|t: TripleId| #[trigger]
            graph.with_ids(pattern).contains(t) <==> graph.triples.contains(t) && (pattern[0] == 0
                || t[0] == pattern[0]) && (pattern[1] == 0 || t[1] == pattern[1]) && (pattern[2] == 0
                || t[2] == pattern[2]),
{
    let fits = |t: TripleId| ids_fit(pattern, t);
    lemma_filters_agree(
        graph.triples,
        fits,
        |t: TripleId|
            (pattern[0] == 0 || t[0] == pattern[0]) && (pattern[1] == 0 || t[1] == pattern[1]) && (
            pattern[2] == 0 || t[2] == pattern[2]),
    );
    assert forall|t: TripleId| #[trigger] graph.with_ids(pattern).contains(t) <==> graph.triples.contains(
        t,
    ) && (pattern[0] == 0 || t[0] == pattern[0]) && (pattern[1] == 0 || t[1] == pattern[1]) && (
    pattern[2] == 0 || t[2] == pattern[2]) by {
        lemma_filter_contains(graph.triples, fits, t);
    }
}

/// A pattern of texts selects the triples whose term in each place where it has
/// a text is that text, whichever places these are, in the order of the graph.
pub proof fn patterns_select_by_their_texts(
    graph: GraphView,
    sp: Option<Seq<char>>,
    pp: Option<Seq<char>>,
    op: Option<Seq<char>>,
)
    ensures
        graph.with_texts(sp, pp, op) == graph.triples.filter(
            |t: TripleId|
                (sp is None || sp == Some(graph.dict.term_of(t[0] as int, IdKind::Subject))) && (
                pp is None || pp == Some(graph.dict.term_of(t[1] as int, IdKind::Predicate))) && (
                op is None || op == Some(graph.dict.term_of(t[2] as int, IdKind::Object))),
        ),
        forall|t: TripleId| #[trigger]
            graph.with_texts(sp, pp, op).contains(t) <==> graph.triples.contains(t) && (sp is None
                || sp == Some(graph.dict.term_of(t[0] as int, IdKind::Subject))) && (pp is None || pp
                == Some(graph.dict.term_of(t[1] as int, IdKind::Predicate))) && (op is None || op
                == Some(graph.dict.term_of(t[2] as int, IdKind::Object))),
{
    let fits = |t: TripleId| texts_fit(sp, pp, op, graph.texts_of(t));
    lemma_filters_agree(
        graph.triples,
        fits,
        |t: TripleId|
            (sp is None || sp == Some(graph.dict.term_of(t[0] as int, IdKind::Subject))) && (pp is None
                || pp == Some(graph.dict.term_of(t[1] as int, IdKind::Predicate))) && (op is None
                || op == Some(graph.dict.term_of(t[2] as int, IdKind::Object))),
    );
    assert forall|t: TripleId| #[trigger] graph.with_texts(sp, pp, op).contains(t)
        <==> graph.triples.contains(t) && (sp is None || sp == Some(
        graph.dict.term_of(t[0] as int, IdKind::Subject),
    )) && (pp is None || pp == Some(graph.dict.term_of(t[1] as int, IdKind::Predicate))) && (
    op is None || op == Some(graph.dict.term_of(t[2] as int, IdKind::Object))) by {
        lemma_filter_contains(graph.triples, fits, t);
    }
}

/// A place that a pattern leaves open takes any value: what it selects is what
/// the patterns that fill the place select, taken together.
pub proof fn open_places_take_any_value(
    graph: GraphView,
    open: TripleId,
    filled: TripleId,
    place: int,
    t: TripleId,
)
    requires
        0 <= place < 3,
        open[place] == 0,
        forall|k: int| 0 <= k < 3 && k != place ==> #[trigger] filled[k] == open[k],
        filled[place] == t[place],
    ensures
        graph.with_ids(open).contains(t) <==> graph.with_ids(filled).contains(t),
{
    patterns_select_by_their_places(graph, open);
    patterns_select_by_their_places(graph, filled);
    assert(open[0] == open[0] && open[1] == open[1] && open[2] == open[2]);
    assert(place != 0 ==> filled[0] == open[0]);
    assert(place != 1 ==> filled[1] == open[1]);
    assert(place != 2 ==> filled[2] == open[2]);
}

/// The texts of a triple are the terms with its numbers.
pub proof fn texts_are_the_terms_of_the_numbers(graph: GraphView, triples: Seq<TripleId>, i: int)
    requires
        0 <= i < triples.len(),
    ensures
        graph.texts_of_all(triples).len() == triples.len(),
        graph.texts_of_all(triples)[i].0 == graph.dict.term_of(
            triples[i][0] as int,
            IdKind::Subject,
        ),
        graph.texts_of_all(triples)[i].1 == graph.dict.term_of(
            triples[i][1] as int,
            IdKind::Predicate,
        ),
        graph.texts_of_all(triples)[i].2 == graph.dict.term_of(
            triples[i][2] as int,
            IdKind::Object,
        ),
{
}

/// A graph is one where its dictionary has each number of its triples.
pub proof fn graphs_know_their_terms(graph: GraphView, i: int)
    requires
        graph.valid(),
        0 <= i < graph.triples.len(),
    ensures
        1 <= graph.triples[i][0] <= graph.dict.shared.len() + graph.dict.subjects.len(),
        1 <= graph.triples[i][1] <= graph.dict.predicates.len(),
        1 <= graph.triples[i][2] <= graph.dict.shared.len() + graph.dict.objects.len(),
{
    assert(graph.knows(graph.triples[i]));
    crate::four_sect_dict::terms_are_numbered_by_section(graph.dict, graph.triples[i][0] as int);
    crate::four_sect_dict::terms_are_numbered_by_section(graph.dict, graph.triples[i][1] as int);
    crate::four_sect_dict::terms_are_numbered_by_section(graph.dict, graph.triples[i][2] as int);
}

/// What the errors of loading a file say is what the failure says.
pub proof fn errors_say_what_failed(
    io: IoErrorView,
    header: crate::header::ErrorView,
    cache: HybridCacheErrorView,
    text: Seq<char>,
)
    ensures
        ErrorView::Io(io).message() == io.message(),
        ErrorView::Header(header).message() == header.message(),
        ErrorView::Cache(cache).message() == cache.message(),
        ErrorView::Other(text).message() == text,
        IoErrorView::Other(text).message() == text,
{
}

/// A graph, and what it is backed by.
pub struct HdtGeneric<B> {
    header: Header,
    size: usize,
    dict: FourSectDict,
    triples: Vec<TripleId>,
    backend: B,
}

/// Marks a graph without a cache.
#[derive(Debug, Clone, Copy, PartialEq, Eq, Structural)]
pub struct InMemory;

/// The cache of a graph, and where the op index begins in the cache file.
pub struct Cached {
    pub cache: HybridCache,
    pub op_index_offset: u64,
}

/// A graph without a cache.
pub type Hdt = HdtGeneric<InMemory>;

/// A graph with its cache beside it.
pub type HdtHybrid = HdtGeneric<Cached>;

impl<B> HdtGeneric<B> {
    /// The graph.
    pub closed spec fn graph(&self) -> GraphView {
        GraphView {
            header: self.header@,
            size: self.size as nat,
            dict: self.dict@,
            triples: self.triples@,
        }
    }

    /// What the graph is backed by.
    pub closed spec fn spec_backend(&self) -> B {
        self.backend
    }

    #[verifier::type_invariant]
    spec fn is_valid(&self) -> bool {
        self.graph().valid()
    }

    /// A graph; `None` where a triple has a number that the dictionary lacks.
    pub fn new(
        header: Header,
        size: usize,
        dict: FourSectDict,
        triples: Vec<TripleId>,
        backend: B,
    ) -> (hdt: Option<HdtGeneric<B>>)
        ensures
            match hdt {
                Some(hdt) => hdt.graph() == (GraphView {
                    header: header@,
                    size: size as nat,
                    dict: dict@,
                    triples: triples@,
                }) && hdt.graph().valid() && hdt.spec_backend() == backend,
                None => exists|i: int|
                    0 <= i < triples@.len() && !(GraphView {
                        header: header@,
                        size: size as nat,
                        dict: dict@,
                        triples: triples@,
                    }).knows(#[trigger] triples@[i]),
            },
            hdt is Some <==> forall|i: int|
                0 <= i < triples@.len() ==> 1 <= (#[trigger] triples@[i])[0] <= dict@.shared.len()
                    + dict@.subjects.len() && 1 <= triples@[i][1] <= dict@.predicates.len() && 1
                    <= triples@[i][2] <= dict@.shared.len() + dict@.objects.len(),
    {
        let ghost graph = GraphView {
            header: header@,
            size: size as nat,
            dict: dict@,
            triples: triples@,
        };
        let subjects: usize = dict.max_id(IdKind::Subject);
        let predicates: usize = dict.max_id(IdKind::Predicate);
        let objects: usize = dict.max_id(IdKind::Object);
        let mut i: usize = 0;
        while i < triples.len()
            invariant
                graph.triples == triples@,
                graph.dict == dict@,
                subjects == dict@.terms(IdKind::Subject).len(),
                predicates == dict@.terms(IdKind::Predicate).len(),
                objects == dict@.terms(IdKind::Object).len(),
                i <= triples@.len(),
                forall|j: int| 0 <= j < i ==> graph.knows(#[trigger] triples@[j]),
            decreases triples@.len() - i,
        {
            let triple = triples[i];
            if triple[0] == 0 || triple[0] > subjects || triple[1] == 0 || triple[1] > predicates
                || triple[2] == 0 || triple[2] > objects {
                assert(!graph.knows(triples@[i as int]));
                return None;
            }
            i = i + 1;
        }
        Some(HdtGeneric { header, size, dict, triples, backend })
    }

    /// The header of the file.
    pub fn header(&self) -> (header: &Header)
        ensures
            header@ == self.graph().header,
    {
        &self.header
    }

    /// The number of bytes that the graph takes.
    pub fn size_in_bytes(&self) -> (size: usize)
        ensures
            size == self.graph().size,
    {
        self.size
    }

    /// The dictionary.
    pub fn dict(&self) -> (dict: &FourSectDict)
        ensures
            dict@ == self.graph().dict,
    {
        &self.dict
    }

    /// What the graph is backed by.
    pub fn backend(&self) -> (backend: &B)
        ensures
            *backend == self.spec_backend(),
    {
        &self.backend
    }

    /// The triples with the numbers that a pattern asks for.
    pub fn triple_ids_with_id_pattern(&self, pattern: TripleId) -> (found: Vec<TripleId>)
        ensures
            found@ == self.graph().with_ids(pattern),
            found@ == self.graph().triples.filter(
                |t: TripleId|
                    (pattern[0] == 0 || t[0] == pattern[0]) && (pattern[1] == 0 || t[1]
                        == pattern[1]) && (pattern[2] == 0 || t[2] == pattern[2]),
            ),
            forall|t: TripleId| #[trigger]
                found@.contains(t) <==> self.graph().triples.contains(t) && (pattern[0] == 0 || t[0]
                    == pattern[0]) && (pattern[1] == 0 || t[1] == pattern[1]) && (pattern[2] == 0
                    || t[2] == pattern[2]),
    {
        let ghost all = self.triples@;
        let ghost fits = |t: TripleId| ids_fit(pattern, t);
        let mut found: Vec<TripleId> = Vec::new();
        let mut i: usize = 0;
        proof {
            reveal(Seq::filter);
        }
        while i < self.triples.len()
            invariant
                all == self.triples@,
                i <= all.len(),
                fits == (|t: TripleId| ids_fit(pattern, t)),
                found@ == all.take(i as int).filter(fits),
            decreases all.len() - i,
        {
            let triple = self.triples[i];
            proof {
                reveal(Seq::filter);
                assert(all.take(i + 1).drop_last() =~= all.take(i as int));
                assert(all.take(i + 1).last() == triple);
            }
            if (pattern[0] == 0 || pattern[0] == triple[0]) && (pattern[1] == 0 || pattern[1]
                == triple[1]) && (pattern[2] == 0 || pattern[2] == triple[2]) {
                found.push(triple);
            }
            i = i + 1;
        }
        assert(all.take(all.len() as int) =~= all);
        proof {
            patterns_select_by_their_places(self.graph(), pattern);
        }
        found
    }

    /// The triples with the terms that a pattern asks for.
    pub fn triple_ids_with_pattern(
        &self,
        sp: Option<&str>,
        pp: Option<&str>,
        op: Option<&str>,
    ) -> (found: Vec<TripleId>)
        ensures
            found@ == self.graph().with_texts(asked_text(sp), asked_text(pp), asked_text(op)),
            self.graph().valid(),
            forall|t: TripleId| #[trigger]
                found@.contains(t) <==> self.graph().triples.contains(t) && (sp matches Some(term)
                    ==> self.graph().dict.term_of(t[0] as int, IdKind::Subject) == term@) && (pp matches Some(
                    term,
                ) ==> self.graph().dict.term_of(t[1] as int, IdKind::Predicate) == term@) && (op matches Some(
                    term,
                ) ==> self.graph().dict.term_of(t[2] as int, IdKind::Object) == term@),
    {
        proof {
            use_type_invariant(self);
            patterns_select_by_their_texts(
                self.graph(),
                asked_text(sp),
                asked_text(pp),
                asked_text(op),
            );
        }
        let mut pattern: TripleId = [0, 0, 0];
        if let Some(term) = sp {
            pattern[0] = self.dict.string_to_id(term, IdKind::Subject);
        }
        if let Some(term) = pp {
            pattern[1] = self.dict.string_to_id(term, IdKind::Predicate);
        }
        if let Some(term) = op {
            pattern[2] = self.dict.string_to_id(term, IdKind::Object);
        }
        if (sp.is_some() && pattern[0] == 0) || (pp.is_some() && pattern[1] == 0) || (op.is_some()
            && pattern[2] == 0) {
            proof {
                unknown_term_finds_nothing(
                    self.graph(),
                    asked_text(sp),
                    asked_text(pp),
                    asked_text(op),
                );
            }
            return Vec::new();
        }
        proof {
            texts_and_ids_find_alike(
                self.graph(),
                asked_text(sp),
                asked_text(pp),
                asked_text(op),
                pattern,
            );
        }
        self.triple_ids_with_id_pattern(pattern)
    }

    /// The texts of triples of the graph.
    fn texts(&self, triples: Vec<TripleId>) -> (texts: Vec<StringTriple>)
        requires
            forall|i: int| 0 <= i < triples@.len() ==> self.graph().knows(#[trigger] triples@[i]),
        ensures
            text_triple_views(texts@) == self.graph().texts_of_all(triples@),
    {
        let mut texts: Vec<StringTriple> = Vec::new();
        let mut i: usize = 0;
        while i < triples.len()
            invariant
                forall|j: int|
                    0 <= j < triples@.len() ==> self.graph().knows(#[trigger] triples@[j]),
                i <= triples@.len(),
                texts@.len() == i,
                forall|j: int|
                    0 <= j < i ==> text_triple_views(texts@)[j] == self.graph().texts_of(
                        #[trigger] triples@[j],
                    ),
            decreases triples@.len() - i,
        {
            let triple = triples[i];
            assert(self.graph().knows(triples@[i as int]));
            let subject = self.dict.id_to_string(triple[0], IdKind::Subject).unwrap();
            let predicate = self.dict.id_to_string(triple[1], IdKind::Predicate).unwrap();
            let object = self.dict.id_to_string(triple[2], IdKind::Object).unwrap();
            texts.push([subject, predicate, object]);
            i = i + 1;
        }
        assert(text_triple_views(texts@) =~= self.graph().texts_of_all(triples@));
        texts
    }

    /// The texts of the triples with the terms that a pattern asks for.
    pub fn triples_with_pattern(
        &self,
        sp: Option<&str>,
        pp: Option<&str>,
        op: Option<&str>,
    ) -> (found: Vec<StringTriple>)
        ensures
            text_triple_views(found@) == self.graph().texts_of_all(
                self.graph().with_texts(asked_text(sp), asked_text(pp), asked_text(op)),
            ),
            found@.len() == self.graph().with_texts(
                asked_text(sp),
                asked_text(pp),
                asked_text(op),
            ).len(),
            forall|i: int|
                0 <= i < found@.len() ==> {
                    let t = self.graph().with_texts(
                        asked_text(sp),
                        asked_text(pp),
                        asked_text(op),
                    )[i];
                    &&& (#[trigger] found@[i])[0]@ == self.graph().dict.term_of(
                        t[0] as int,
                        IdKind::Subject,
                    )
                    &&& found@[i][1]@ == self.graph().dict.term_of(t[1] as int, IdKind::Predicate)
                    &&& found@[i][2]@ == self.graph().dict.term_of(t[2] as int, IdKind::Object)
                    &&& sp matches Some(term) ==> found@[i][0]@ == term@
                    &&& pp matches Some(term) ==> found@[i][1]@ == term@
                    &&& op matches Some(term) ==> found@[i][2]@ == term@
                },
    {
        let triples = self.triple_ids_with_pattern(sp, pp, op);
        proof {
            lemma_filter_keeps(
                self.graph().triples,
                |t: TripleId|
                    texts_fit(
                        asked_text(sp),
                        asked_text(pp),
                        asked_text(op),
                        self.graph().texts_of(t),
                    ),
                |t: TripleId| self.graph().knows(t),
            );
            assert forall|i: int| 0 <= i < triples@.len() implies self.graph().knows(
                #[trigger] triples@[i],
            ) by {
                let known = |t: TripleId| self.graph().knows(t);
                assert(known(triples@[i]));
            }
        }
        let ghost ids = triples@;
        let texts = self.texts(triples);
        proof {
            patterns_select_by_their_texts(
                self.graph(),
                asked_text(sp),
                asked_text(pp),
                asked_text(op),
            );
            assert(text_triple_views(texts@).len() == texts@.len());
            assert(self.graph().texts_of_all(ids).len() == ids.len());
            assert forall|i: int| 0 <= i < texts@.len() implies {
                let t = ids[i];
                &&& (#[trigger] texts@[i])[0]@ == self.graph().dict.term_of(
                    t[0] as int,
                    IdKind::Subject,
                )
                &&& texts@[i][1]@ == self.graph().dict.term_of(t[1] as int, IdKind::Predicate)
                &&& texts@[i][2]@ == self.graph().dict.term_of(t[2] as int, IdKind::Object)
                &&& sp matches Some(term) ==> texts@[i][0]@ == term@
                &&& pp matches Some(term) ==> texts@[i][1]@ == term@
                &&& op matches Some(term) ==> texts@[i][2]@ == term@
            } by {
                texts_are_the_terms_of_the_numbers(self.graph(), ids, i);
                assert(text_triple_views(texts@)[i] == self.graph().texts_of_all(ids)[i]);
                assert(self.graph().with_texts(
                    asked_text(sp),
                    asked_text(pp),
                    asked_text(op),
                ).contains(ids[i]));
            }
        }
        texts
    }

    /// The texts of all triples.
    pub fn triples_all(&self) -> (triples: Vec<StringTriple>)
        ensures
            text_triple_views(triples@) == self.graph().texts_of_all(self.graph().triples),
            triples@.len() == self.graph().triples.len(),
            forall|i: int|
                0 <= i < triples@.len() ==> {
                    let t = self.graph().triples[i];
                    &&& (#[trigger] triples@[i])[0]@ == self.graph().dict.term_of(
                        t[0] as int,
                        IdKind::Subject,
                    )
                    &&& triples@[i][1]@ == self.graph().dict.term_of(t[1] as int, IdKind::Predicate)
                    &&& triples@[i][2]@ == self.graph().dict.term_of(t[2] as int, IdKind::Object)
                },
    {
        proof {
            empty_pattern_gives_all(self.graph(), [0, 0, 0]);
        }
        self.triples_with_pattern(None, None, None)
    }
}

/// What holds of every element holds of those that a filter leaves.
proof fn lemma_filter_keeps<A>(s: Seq<A>, p: spec_fn(A) -> bool, q: spec_fn(A) -> bool)
    requires
        forall|i: int| 0 <= i < s.len() ==> q(#[trigger] s[i]),
    ensures
        forall|i: int| 0 <= i < s.filter(p).len() ==> q(#[trigger] s.filter(p)[i]),
    decreases s.len(),
{
    reveal(Seq::filter);
    if s.len() > 0 {
        assert(q(s[s.len() - 1]));
        assert forall|i: int| 0 <= i < s.drop_last().len() implies q(#[trigger] s.drop_last()[i]) by {
            assert(s.drop_last()[i] == s[i]);
        }
        lemma_filter_keeps(s.drop_last(), p, q);
        let before = s.drop_last().filter(p);
        assert forall|i: int| 0 <= i < s.filter(p).len() implies q(#[trigger] s.filter(p)[i]) by {
            if i < before.len() {
                assert(s.filter(p)[i] == before[i]);
            } else {
                assert(s.filter(p)[i] == s.last());
            }
        }
    }
}

/// The models of errors, of patterns and of triples by their texts hold what
/// these hold.
pub proof fn hdt_models_hold_the_same(
    e: Error,
    asked: Option<&str>,
    triples: Seq<StringTriple>,
    i: int,
)
    requires
        0 <= i < triples.len(),
    ensures
        asked is None ==> asked_text(asked) is None,
        asked matches Some(term) ==> asked_text(asked) == Some(term@),
        match e {
            Error::Io(io) => e@ == ErrorView::Io(io@),
            Error::Header(header) => e@ == ErrorView::Header(header@),
            Error::Cache(cache) => e@ == ErrorView::Cache(cache@),
            Error::Other(text) => e@ == ErrorView::Other(text@),
        },
        text_triple_views(triples).len() == triples.len(),
        text_triple_views(triples)[i] == (triples[i][0]@, triples[i][1]@, triples[i][2]@),
{
}

} // verus!
