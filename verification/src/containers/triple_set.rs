//! A set of triples that is walked in ascending order.
use crate::containers::rdf::{Id, IdView, Literal, LiteralView, Term, TermView, Triple, TripleView};
use crate::text::{text_standing, Standing};
use vstd::prelude::*;

verus! {

/// Lexicographic order of lists of byte strings.
pub open spec fn lists_less(a: Seq<Seq<u8>>, b: Seq<Seq<u8>>) -> bool
    decreases a.len(),
{
    if b.len() == 0 {
        false
    } else if a.len() == 0 {
        true
    } else if a[0] != b[0] {
        crate::text::bytes_less(a[0], b[0])
    } else {
        lists_less(a.skip(1), b.skip(1))
    }
}

/// The place of an IRI or a blank node among its kind: IRIs come first.
pub open spec fn id_rank(id: IdView) -> (u8, Seq<char>) {
    match id {
        IdView::Named(iri) => (0, iri),
        IdView::Blank(label) => (1, label),
    }
}

/// The place of a term among its kind: IRIs and blank nodes come first, then
/// plain literals, then typed ones, then those with a language.
pub open spec fn term_rank(term: TermView) -> (u8, Seq<char>, Seq<char>) {
    match term {
        TermView::Id(id) => (id_rank(id).0, id_rank(id).1, Seq::empty()),
        TermView::Literal(LiteralView::Plain { form }) => (2, form, Seq::empty()),
        TermView::Literal(LiteralView::Typed { form, datatype }) => (3, form, datatype),
        TermView::Literal(LiteralView::Lang { form, lang }) => (4, form, lang),
    }
}

/// What a triple is ordered by: its subject, then its predicate, then its object.
pub open spec fn triple_key(triple: TripleView) -> Seq<Seq<u8>> {
    seq![
        seq![id_rank(triple.subject).0],
        vstd::utf8::encode_utf8(id_rank(triple.subject).1),
        vstd::utf8::encode_utf8(triple.predicate),
        seq![term_rank(triple.object).0],
        vstd::utf8::encode_utf8(term_rank(triple.object).1),
        vstd::utf8::encode_utf8(term_rank(triple.object).2),
    ]
}

/// The order of triples.
#[verifier::opaque]
pub open spec fn triple_less(a: TripleView, b: TripleView) -> bool {
    lists_less(triple_key(a), triple_key(b))
}

/// Whether triples ascend, each once.
pub open spec fn ascending(s: Seq<TripleView>) -> bool {
    forall|i: int, j: int| 0 <= i < j < s.len() ==> triple_less(#[trigger] s[i], #[trigger] s[j])
}

/// The models of some triples.
pub open spec fn triple_views(s: Seq<Triple>) -> Seq<TripleView> {
    s.map_values(|t: Triple| t@)
}

proof fn lemma_lists_irreflexive(a: Seq<Seq<u8>>)
    ensures
        !lists_less(a, a),
    decreases a.len(),
{
    if a.len() > 0 {
        lemma_lists_irreflexive(a.skip(1));
    }
}

proof fn lemma_lists_transitive(a: Seq<Seq<u8>>, b: Seq<Seq<u8>>, c: Seq<Seq<u8>>)
    requires
        lists_less(a, b),
        lists_less(b, c),
    ensures
        lists_less(a, c),
    decreases a.len(),
{
    if a.len() > 0 {
        if a[0] == b[0] && b[0] == c[0] {
            lemma_lists_transitive(a.skip(1), b.skip(1), c.skip(1));
        } else if a[0] != b[0] && b[0] != c[0] {
            crate::text::lemma_bytes_less_transitive(a[0], b[0], c[0]);
            crate::text::lemma_bytes_less_irreflexive(a[0]);
        }
    }
}

/// The first component in which two lists differ decides.
proof fn lemma_lists_first_difference(a: Seq<Seq<u8>>, b: Seq<Seq<u8>>, i: int)
    requires
        0 <= i < a.len(),
        i < b.len(),
        forall|j: int| 0 <= j < i ==> #[trigger] a[j] == b[j],
        crate::text::bytes_less(a[i], b[i]),
    ensures
        lists_less(a, b),
    decreases i,
{
    if i == 0 {
        crate::text::lemma_bytes_less_irreflexive(a[0]);
    } else {
        assert(a[0] == b[0]);
        assert forall|j: int| 0 <= j < i - 1 implies #[trigger] a.skip(1)[j] == b.skip(1)[j] by {
            assert(a[j + 1] == b[j + 1]);
        }
        lemma_lists_first_difference(a.skip(1), b.skip(1), i - 1);
    }
}

/// No triple comes before itself.
pub proof fn triple_order_is_irreflexive(a: TripleView)
    ensures
        !triple_less(a, a),
{
    reveal(triple_less);
    lemma_lists_irreflexive(triple_key(a));
}

/// The order of triples is transitive.
pub proof fn triple_order_is_transitive(a: TripleView, b: TripleView, c: TripleView)
    requires
        triple_less(a, b),
        triple_less(b, c),
    ensures
        triple_less(a, c),
{
    reveal(triple_less);
    lemma_lists_transitive(triple_key(a), triple_key(b), triple_key(c));
}

fn id_parts(id: &Id) -> (parts: (u8, &str))
    ensures
        parts.0 == id_rank(id@).0,
        parts.1@ == id_rank(id@).1,
{
    match id {
        Id::Named(iri) => (0, iri.as_str()),
        Id::Blank(label) => (1, label.as_str()),
    }
}

fn term_parts(term: &Term) -> (parts: (u8, &str, &str))
    ensures
        parts.0 == term_rank(term@).0,
        parts.1@ == term_rank(term@).1,
        parts.2@ == term_rank(term@).2,
{
    proof {
        reveal_strlit("");
        assert(""@ =~= Seq::<char>::empty());
    }
    match term {
        Term::Id(id) => {
            let (kind, text) = id_parts(id);
            (kind, text, "")
        },
        Term::Literal(Literal::Plain { form }) => (2, form.as_str(), ""),
        Term::Literal(Literal::Typed { form, datatype }) => (3, form.as_str(), datatype.as_str()),
        Term::Literal(Literal::Lang { form, lang }) => (4, form.as_str(), lang.as_str()),
    }
}

/// Finds how one triple stands to another.
pub fn triple_standing(a: &Triple, b: &Triple) -> (standing: Standing)
    ensures
        match standing {
            Standing::Before => triple_less(a@, b@),
            Standing::Same => a@ == b@,
            Standing::After => triple_less(b@, a@),
        },
{
    let ghost x = triple_key(a@);
    let ghost y = triple_key(b@);
    let (a_kind, a_text) = id_parts(&a.subject);
    let (b_kind, b_text) = id_parts(&b.subject);
    let (a_object_kind, a_form, a_extra) = term_parts(&a.object);
    let (b_object_kind, b_form, b_extra) = term_parts(&b.object);
    let first: Standing = kind_standing(a_kind, b_kind);
    if !matches!(first, Standing::Same) {
        proof {
            lemma_decided(a@, b@, 0, first);
        }
        return first;
    }
    let second: Standing = text_standing(a_text, b_text);
    if !matches!(second, Standing::Same) {
        proof {
            lemma_decided(a@, b@, 1, second);
        }
        return second;
    }
    let third: Standing = text_standing(a.predicate.as_str(), b.predicate.as_str());
    if !matches!(third, Standing::Same) {
        proof {
            lemma_decided(a@, b@, 2, third);
        }
        return third;
    }
    let fourth: Standing = kind_standing(a_object_kind, b_object_kind);
    if !matches!(fourth, Standing::Same) {
        proof {
            lemma_decided(a@, b@, 3, fourth);
        }
        return fourth;
    }
    let fifth: Standing = text_standing(a_form, b_form);
    if !matches!(fifth, Standing::Same) {
        proof {
            lemma_decided(a@, b@, 4, fifth);
        }
        return fifth;
    }
    let sixth: Standing = text_standing(a_extra, b_extra);
    if !matches!(sixth, Standing::Same) {
        proof {
            lemma_decided(a@, b@, 5, sixth);
        }
    }
    sixth
}

/// Finds how one kind stands to another.
fn kind_standing(a: u8, b: u8) -> (standing: Standing)
    ensures
        match standing {
            Standing::Before => crate::text::bytes_less(seq![a], seq![b]),
            Standing::Same => a == b,
            Standing::After => crate::text::bytes_less(seq![b], seq![a]),
        },
{
    if a < b {
        Standing::Before
    } else if a == b {
        Standing::Same
    } else {
        Standing::After
    }
}

/// The first component of the keys in which two triples differ decides.
proof fn lemma_decided(a: TripleView, b: TripleView, i: int, standing: Standing)
    requires
        0 <= i < 6,
        forall|j: int| 0 <= j < i ==> #[trigger] triple_key(a)[j] == triple_key(b)[j],
        standing == Standing::Before ==> crate::text::bytes_less(triple_key(a)[i], triple_key(b)[i]),
        standing == Standing::After ==> crate::text::bytes_less(triple_key(b)[i], triple_key(a)[i]),
    ensures
        standing == Standing::Before ==> triple_less(a, b),
        standing == Standing::After ==> triple_less(b, a),
{
    reveal(triple_less);
    if standing == Standing::Before {
        lemma_lists_first_difference(triple_key(a), triple_key(b), i);
    }
    if standing == Standing::After {
        lemma_lists_first_difference(triple_key(b), triple_key(a), i);
    }
}

/// Triples that ascend are all different.
proof fn lemma_ascending_no_duplicates(s: Seq<TripleView>)
    requires
        ascending(s),
    ensures
        s.no_duplicates(),
{
    assert forall|i: int, j: int| 0 <= i < s.len() && 0 <= j < s.len() && i != j implies s[i]
        != s[j] by {
        triple_order_is_irreflexive(s[i]);
        if i < j {
            assert(triple_less(s[i], s[j]));
        } else {
            assert(triple_less(s[j], s[i]));
        }
    }
}

/// A set of triples has one ascending order.
pub proof fn ascending_order_is_unique(a: Seq<TripleView>, b: Seq<TripleView>)
    requires
        ascending(a),
        ascending(b),
        a.to_set() == b.to_set(),
    ensures
        a == b,
    decreases a.len(),
{
    lemma_ascending_no_duplicates(a);
    lemma_ascending_no_duplicates(b);
    a.unique_seq_to_set();
    b.unique_seq_to_set();
    if a.len() > 0 {
        let x = a.last();
        let y = b.last();
        assert(a.to_set().contains(x));
        assert(b.to_set().contains(y));
        let i = choose|i: int| 0 <= i < b.len() && b[i] == x;
        let j = choose|j: int| 0 <= j < a.len() && a[j] == y;
        if x != y {
            assert(triple_less(b[i], b[b.len() - 1]));
            assert(triple_less(a[j], a[a.len() - 1]));
            triple_order_is_transitive(x, y, x);
            triple_order_is_irreflexive(x);
        }
        assert forall|t: TripleView| a.drop_last().to_set().contains(t)
            == b.drop_last().to_set().contains(t) by {
            if a.drop_last().to_set().contains(t) {
                let k = choose|k: int| 0 <= k < a.drop_last().len() && a.drop_last()[k] == t;
                assert(a[k] == t);
                assert(a.to_set().contains(t));
                assert(b.to_set().contains(t));
                let l = choose|l: int| 0 <= l < b.len() && b[l] == t;
                assert(b.drop_last()[l] == t);
            }
            if b.drop_last().to_set().contains(t) {
                let k = choose|k: int| 0 <= k < b.drop_last().len() && b.drop_last()[k] == t;
                assert(b[k] == t);
                assert(b.to_set().contains(t));
                assert(a.to_set().contains(t));
                let l = choose|l: int| 0 <= l < a.len() && a[l] == t;
                assert(a.drop_last()[l] == t);
            }
        }
        assert(a.drop_last().to_set() =~= b.drop_last().to_set());
        ascending_order_is_unique(a.drop_last(), b.drop_last());
        assert(a =~= a.drop_last().push(x));
        assert(b =~= b.drop_last().push(y));
    } else {
        assert(a =~= b);
    }
}

/// A set of triples that is walked in ascending order.
#[derive(Debug)]
pub struct TripleSet {
    triples: Vec<Triple>,
}

impl View for TripleSet {
    type V = Set<TripleView>;

    open spec fn view(&self) -> Set<TripleView> {
        self.ordered().to_set()
    }
}

impl TripleSet {
    /// The triples of the set, in the order in which they are walked.
    pub closed spec fn ordered(&self) -> Seq<TripleView> {
        triple_views(self.triples@)
    }

    #[verifier::type_invariant]
    spec fn is_ascending(self) -> bool {
        ascending(triple_views(self.triples@))
    }

    /// The set without triples.
    pub fn new() -> (set: TripleSet)
        ensures
            set@ == Set::<TripleView>::empty(),
    {
        let set = TripleSet { triples: Vec::new() };
        assert(set@ =~= Set::<TripleView>::empty());
        set
    }

    /// Adds a triple, and tells whether it was new.
    pub fn insert(&mut self, triple: Triple) -> (added: bool)
        ensures
            final(self)@ == old(self)@.insert(triple@),
            added == !old(self)@.contains(triple@),
    {
        proof {
            use_type_invariant(&*self);
        }
        let ghost before = triple_views(self.triples@);
        let mut triples: Vec<Triple> = Vec::new();
        std::mem::swap(&mut self.triples, &mut triples);
        let mut i: usize = 0;
        while i < triples.len()
            invariant
                i <= triples@.len(),
                triple_views(triples@) == before,
                ascending(before),
                forall|j: int| 0 <= j < i ==> triple_less(#[trigger] before[j], triple@),
                old(self)@ == before.to_set(),
            decreases triples@.len() - i,
        {
            assert(before[i as int] == triples@[i as int]@);
            match triple_standing(&triple, &triples[i]) {
                Standing::Before => {
                    let ghost t = triple@;
                    triples.insert(i, triple);
                    proof {
                        lemma_inserted(before, i as int, t);
                        assert(triple_views(triples@) =~= before.insert(i as int, t));
                    }
                    self.triples = triples;
                    return true;
                },
                Standing::Same => {
                    assert(before.to_set().contains(triple@));
                    assert(before.to_set().insert(triple@) =~= before.to_set());
                    self.triples = triples;
                    return false;
                },
                Standing::After => {
                    i = i + 1;
                },
            }
        }
        let ghost t = triple@;
        triples.push(triple);
        proof {
            lemma_inserted(before, before.len() as int, t);
            assert(triple_views(triples@) =~= before.insert(before.len() as int, t));
        }
        self.triples = triples;
        true
    }

    /// The number of triples.
    pub fn len(&self) -> (count: usize)
        ensures
            count == self@.len(),
    {
        proof {
            use_type_invariant(&*self);
            lemma_ascending_no_duplicates(self.ordered());
            self.ordered().unique_seq_to_set();
        }
        self.triples.len()
    }

    /// Whether there are no triples.
    pub fn is_empty(&self) -> (empty: bool)
        ensures
            empty == (self@ == Set::<TripleView>::empty()),
    {
        proof {
            if self.triples@.len() == 0 {
                assert(self@ =~= Set::<TripleView>::empty());
            } else {
                assert(self.ordered()[0] == self.triples@[0]@);
                assert(self@.contains(self.triples@[0]@));
            }
        }
        self.triples.len() == 0
    }

    /// The triples in ascending order.
    pub fn as_slice(&self) -> (triples: &[Triple])
        ensures
            triple_views(triples@) == self.ordered(),
            ascending(self.ordered()),
            triples@.len() == self.ordered().len(),
            forall|i: int| 0 <= i < triples@.len() ==> (#[trigger] triples@[i])@ == self.ordered()[i],
            forall|t: TripleView| #[trigger]
                self@.contains(t) <==> exists|i: int|
                    0 <= i < triples@.len() && (#[trigger] triples@[i])@ == t,
    {
        proof {
            use_type_invariant(&*self);
            assert forall|t: TripleView| #[trigger] self@.contains(t) implies exists|i: int|
                0 <= i < self.triples@.len() && (#[trigger] self.triples@[i])@ == t by {
                let i = choose|i: int| 0 <= i < self.ordered().len() && self.ordered()[i] == t;
                assert(self.triples@[i]@ == t);
            }
            assert forall|i: int| 0 <= i < self.triples@.len() implies self@.contains(
                (#[trigger] self.triples@[i])@,
            ) by {
                assert(self.ordered()[i] == self.triples@[i]@);
            }
        }
        self.triples.as_slice()
    }
}

impl Clone for TripleSet {
    fn clone(&self) -> (copy: TripleSet)
        ensures
            copy.ordered() == self.ordered(),
    {
        proof {
            use_type_invariant(&*self);
        }
        let mut triples: Vec<Triple> = Vec::new();
        let mut i: usize = 0;
        while i < self.triples.len()
            invariant
                i <= self.triples@.len(),
                triples@.len() == i,
                forall|j: int| 0 <= j < i ==> (#[trigger] triples@[j])@ == self.triples@[j]@,
            decreases self.triples@.len() - i,
        {
            triples.push(self.triples[i].clone());
            i = i + 1;
        }
        assert(triple_views(triples@) =~= triple_views(self.triples@));
        TripleSet { triples }
    }
}

/// A triple put between those that it comes after and those that come after it.
proof fn lemma_inserted(s: Seq<TripleView>, i: int, t: TripleView)
    requires
        ascending(s),
        0 <= i <= s.len(),
        forall|j: int| 0 <= j < i ==> triple_less(#[trigger] s[j], t),
        i < s.len() ==> triple_less(t, s[i]),
    ensures
        ascending(s.insert(i, t)),
        s.insert(i, t).to_set() == s.to_set().insert(t),
        !s.to_set().contains(t),
{
    let r = s.insert(i, t);
    assert forall|k: int| i <= k < s.len() implies triple_less(t, #[trigger] s[k]) by {
        if i < k {
            triple_order_is_transitive(t, s[i], s[k]);
        }
    }
    triple_order_is_irreflexive(t);
    assert forall|j: int, k: int| 0 <= j < k < r.len() implies triple_less(
        #[trigger] r[j],
        #[trigger] r[k],
    ) by {
        let js = if j < i {
            j
        } else {
            j - 1
        };
        let ks = if k < i {
            k
        } else {
            k - 1
        };
        assert(j != i ==> r[j] == s[js]);
        assert(k != i ==> r[k] == s[ks]);
    }
    assert(r[i] == t);
    assert forall|u: TripleView| r.to_set().contains(u) == s.to_set().insert(t).contains(u) by {
        if s.to_set().contains(u) {
            let k = choose|k: int| 0 <= k < s.len() && s[k] == u;
            if k < i {
                assert(r[k] == u);
            } else {
                assert(r[k + 1] == u);
            }
        }
        if r.to_set().contains(u) && u != t {
            let k = choose|k: int| 0 <= k < r.len() && r[k] == u;
            if k < i {
                assert(s[k] == u);
            } else {
                assert(s[k - 1] == u);
            }
        }
    }
    assert(r.to_set() =~= s.to_set().insert(t));
}

/// The first component of the keys in which two triples differ orders them.
proof fn lemma_place_decides(a: TripleView, b: TripleView, i: int)
    requires
        0 <= i < 6,
        forall|j: int| 0 <= j < i ==> #[trigger] triple_key(a)[j] == triple_key(b)[j],
        triple_key(a)[i] != triple_key(b)[i],
    ensures
        triple_less(a, b) == crate::text::bytes_less(triple_key(a)[i], triple_key(b)[i]),
{
    let x = triple_key(a)[i];
    let y = triple_key(b)[i];
    if crate::text::bytes_less(x, y) {
        lemma_decided(a, b, i, Standing::Before);
    } else {
        crate::text::lemma_bytes_less_total(x, y);
        lemma_decided(a, b, i, Standing::After);
        if triple_less(a, b) {
            triple_order_is_transitive(a, b, a);
            triple_order_is_irreflexive(a);
        }
    }
}

/// Different texts have different bytes, and their order is that of their bytes.
proof fn lemma_texts_differ(a: Seq<char>, b: Seq<char>)
    ensures
        a != b ==> vstd::utf8::encode_utf8(a) != vstd::utf8::encode_utf8(b),
{
    vstd::utf8::encode_utf8_decode_utf8(a);
    vstd::utf8::encode_utf8_decode_utf8(b);
}

/// Triples are ordered by their subjects, then by their predicates, then by
/// their objects. IRIs come before blank nodes, these before literals, and of
/// the literals plain ones first, those with a language last. What is alike in
/// this is ordered as its texts are, a literal by its string first.
pub proof fn triples_are_ordered_by_their_places(a: TripleView, b: TripleView)
    ensures
        a.subject != b.subject ==> triple_less(a, b) == match (a.subject, b.subject) {
            (IdView::Named(x), IdView::Named(y)) => crate::text::text_less(x, y),
            (IdView::Named(_), IdView::Blank(_)) => true,
            (IdView::Blank(_), IdView::Named(_)) => false,
            (IdView::Blank(x), IdView::Blank(y)) => crate::text::text_less(x, y),
        },
        a.subject == b.subject && a.predicate != b.predicate ==> triple_less(a, b)
            == crate::text::text_less(a.predicate, b.predicate),
        a.subject == b.subject && a.predicate == b.predicate && a.object != b.object ==> triple_less(
            a,
            b,
        ) == match (a.object, b.object) {
            (TermView::Id(IdView::Named(x)), TermView::Id(IdView::Named(y))) =>
                crate::text::text_less(x, y),
            (TermView::Id(IdView::Named(_)), _) => true,
            (_, TermView::Id(IdView::Named(_))) => false,
            (TermView::Id(IdView::Blank(x)), TermView::Id(IdView::Blank(y))) =>
                crate::text::text_less(x, y),
            (TermView::Id(IdView::Blank(_)), _) => true,
            (_, TermView::Id(IdView::Blank(_))) => false,
            (
                TermView::Literal(LiteralView::Plain { form: x }),
                TermView::Literal(LiteralView::Plain { form: y }),
            ) => crate::text::text_less(x, y),
            (TermView::Literal(LiteralView::Plain { .. }), _) => true,
            (_, TermView::Literal(LiteralView::Plain { .. })) => false,
            (
                TermView::Literal(LiteralView::Typed { form: x, datatype: d }),
                TermView::Literal(LiteralView::Typed { form: y, datatype: e }),
            ) => if x == y {
                crate::text::text_less(d, e)
            } else {
                crate::text::text_less(x, y)
            },
            (TermView::Literal(LiteralView::Typed { .. }), _) => true,
            (_, TermView::Literal(LiteralView::Typed { .. })) => false,
            (
                TermView::Literal(LiteralView::Lang { form: x, lang: d }),
                TermView::Literal(LiteralView::Lang { form: y, lang: e }),
            ) => if x == y {
                crate::text::text_less(d, e)
            } else {
                crate::text::text_less(x, y)
            },
        },
{
    let (i, p) = id_rank(a.subject);
    let (j, q) = id_rank(b.subject);
    let (k, f, d) = term_rank(a.object);
    let (l, g, e) = term_rank(b.object);
    lemma_texts_differ(p, q);
    lemma_texts_differ(a.predicate, b.predicate);
    lemma_texts_differ(f, g);
    lemma_texts_differ(d, e);
    let x = triple_key(a);
    let y = triple_key(b);
    if i != j {
        assert(seq![i][0] != seq![j][0]);
        lemma_place_decides(a, b, 0);
    } else if p != q {
        lemma_place_decides(a, b, 1);
    } else if a.predicate != b.predicate {
        lemma_place_decides(a, b, 2);
    } else if k != l {
        assert(seq![k][0] != seq![l][0]);
        lemma_place_decides(a, b, 3);
    } else if f != g {
        lemma_place_decides(a, b, 4);
    } else if d != e {
        lemma_place_decides(a, b, 5);
    }
}

} // verus!
