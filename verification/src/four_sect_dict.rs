//! The dictionary of an HDT file: terms by their numbers, in four sections.
//! Terms that are both subjects and objects have a section of their own, so
//! that they have one number.
use crate::text::{decimal_text, text_standing, Standing};
use crate::triples::Id;
use vstd::prelude::*;

verus! {

/// The role of a term in a triple.
#[derive(Debug, Clone, Copy, PartialEq, Eq, Structural)]
pub enum IdKind {
    Subject,
    Predicate,
    Object,
}

impl IdKind {
    /// The role's name.
    pub open spec fn spec_name(self) -> Seq<char> {
        match self {
            IdKind::Subject => "Subject"@,
            IdKind::Predicate => "Predicate"@,
            IdKind::Object => "Object"@,
        }
    }

    /// The role's name.
    pub fn name(&self) -> (name: &'static str)
        ensures
            name@ == self.spec_name(),
            match self {
                IdKind::Subject => name@ == "Subject"@,
                IdKind::Predicate => name@ == "Predicate"@,
                IdKind::Object => name@ == "Object"@,
            },
    {
        match self {
            IdKind::Subject => "Subject",
            IdKind::Predicate => "Predicate",
            IdKind::Object => "Object",
        }
    }
}

/// A number that no term has.
#[derive(Debug, Clone, Copy, PartialEq, Eq, Structural)]
pub struct ExtractError {
    pub id: Id,
    pub kind: IdKind,
}

impl ExtractError {
    /// What the error says.
    pub open spec fn spec_message(self) -> Seq<char> {
        "no "@ + self.kind.spec_name() + " with id "@ + crate::text::decimal(self.id as nat)
            + " in the dictionary"@
    }

    /// What the error says.
    pub fn message(&self) -> (text: String)
        ensures
            text@ == self.spec_message(),
            text@ == "no "@ + self.kind.spec_name() + " with id "@ + crate::text::decimal(
                self.id as nat,
            ) + " in the dictionary"@,
    {
        let mut text = "no ".to_owned();
        text.append(self.kind.name());
        text.append(" with id ");
        text.append(decimal_text(self.id as u64).as_str());
        text.append(" in the dictionary");
        text
    }
}

/// The models of some texts.
pub open spec fn text_views(texts: Seq<String>) -> Seq<Seq<char>> {
    texts.map_values(|s: String| s@)
}

/// Whether texts ascend, each once.
pub open spec fn texts_ascend(texts: Seq<Seq<char>>) -> bool {
    forall|i: int, j: int|
        0 <= i < j < texts.len() ==> crate::text::text_less(#[trigger] texts[i], #[trigger] texts[j])
}

/// A section of a dictionary: terms in ascending order, each once.
#[derive(Debug)]
pub struct DictSection {
    terms: Vec<String>,
}

impl View for DictSection {
    type V = Seq<Seq<char>>;

    closed spec fn view(&self) -> Seq<Seq<char>> {
        text_views(self.terms@)
    }
}

impl DictSection {
    #[verifier::type_invariant]
    spec fn ascends(&self) -> bool {
        texts_ascend(text_views(self.terms@))
    }

    /// A section of terms; `None` where they do not ascend.
    pub fn new(terms: Vec<String>) -> (section: Option<DictSection>)
        ensures
            match section {
                Some(section) => texts_ascend(text_views(terms@)) && section@ == text_views(terms@),
                None => !texts_ascend(text_views(terms@)),
            },
            match section {
                Some(section) => section@.len() == terms@.len() && (forall|i: int|
                    0 <= i < terms@.len() ==> #[trigger] section@[i] == terms@[i]@),
                None => exists|i: int, j: int|
                    0 <= i < j < terms@.len() && !crate::text::text_less(
                        (#[trigger] terms@[i])@,
                        (#[trigger] terms@[j])@,
                    ),
            },
    {
        let ghost views = text_views(terms@);
        let count: usize = terms.len();
        let mut i: usize = 0;
        while i < count && i + 1 < count
            invariant
                count == terms@.len(),
                i <= count,
                count > 0 ==> i < count,
                views == text_views(terms@),
                forall|a: int, b: int|
                    0 <= a < b <= i && b < count ==> crate::text::text_less(
                        #[trigger] views[a],
                        #[trigger] views[b],
                    ),
            decreases count - i,
        {
            match text_standing(terms[i].as_str(), terms[i + 1].as_str()) {
                Standing::Before => {
                    assert(crate::text::text_less(views[i as int], views[i + 1]));
                    assert forall|a: int, b: int|
                        0 <= a < b <= i + 1 && b < count implies crate::text::text_less(
                        #[trigger] views[a],
                        #[trigger] views[b],
                    ) by {
                        if b == i + 1 && a < i {
                            crate::text::text_order_is_transitive(
                                views[a],
                                views[i as int],
                                views[b],
                            );
                        }
                    }
                    i = i + 1;
                },
                _ => {
                    proof {
                        let x = views[i as int];
                        let y = views[i + 1];
                        crate::text::text_order_is_irreflexive(x);
                        if crate::text::text_less(x, y) && crate::text::text_less(y, x) {
                            crate::text::text_order_is_transitive(x, y, x);
                        }
                        assert(!texts_ascend(views));
                        assert(!crate::text::text_less(terms@[i as int]@, terms@[i + 1]@));
                    }
                    return None;
                },
            }
        }
        Some(DictSection { terms })
    }

    /// The number of terms.
    pub fn len(&self) -> (count: usize)
        ensures
            count == self@.len(),
    {
        self.terms.len()
    }

    /// The place of a term, from 1; 0 where the section lacks it.
    fn find(&self, term: &str) -> (place: usize)
        ensures
            place == 0 ==> !self@.contains(term@),
            place > 0 ==> place <= self@.len() && self@[place - 1] == term@,
    {
        proof {
            use_type_invariant(self);
        }
        let ghost views = self@;
        let mut low: usize = 0;
        let mut high: usize = self.terms.len();
        while low < high
            invariant
                views == text_views(self.terms@),
                views == self@,
                texts_ascend(views),
                low <= high <= views.len(),
                forall|i: int| 0 <= i < low ==> crate::text::text_less(#[trigger] views[i], term@),
                forall|i: int|
                    high <= i < views.len() ==> crate::text::text_less(term@, #[trigger] views[i]),
            decreases high - low,
        {
            let middle: usize = low + (high - low) / 2;
            match text_standing(self.terms[middle].as_str(), term) {
                Standing::Same => {
                    assert(views[middle as int] == term@);
                    return middle + 1;
                },
                Standing::Before => {
                    assert forall|i: int| 0 <= i < middle + 1 implies crate::text::text_less(
                        #[trigger] views[i],
                        term@,
                    ) by {
                        if i < middle {
                            crate::text::text_order_is_transitive(
                                views[i],
                                views[middle as int],
                                term@,
                            );
                        }
                    }
                    low = middle + 1;
                },
                Standing::After => {
                    assert forall|i: int| middle <= i < views.len() implies crate::text::text_less(
                        term@,
                        #[trigger] views[i],
                    ) by {
                        if i > middle {
                            crate::text::text_order_is_transitive(
                                term@,
                                views[middle as int],
                                views[i],
                            );
                        }
                    }
                    high = middle;
                },
            }
        }
        proof {
            crate::text::text_order_is_irreflexive(term@);
            assert(!views.contains(term@));
        }
        0
    }

    /// The term at a place, from 0.
    fn term(&self, index: usize) -> (term: String)
        requires
            index < self@.len(),
        ensures
            term@ == self@[index as int],
    {
        self.terms[index].clone()
    }

    /// Whether no term is in both sections.
    fn is_apart_from(&self, other: &DictSection) -> (apart: bool)
        ensures
            apart == (forall|i: int, j: int|
                0 <= i < self@.len() && 0 <= j < other@.len() ==> #[trigger] self@[i]
                    != #[trigger] other@[j]),
    {
        proof {
            use_type_invariant(self);
            use_type_invariant(other);
        }
        let ghost xs = self@;
        let ghost ys = other@;
        let mut i: usize = 0;
        let mut j: usize = 0;
        while i < self.terms.len() && j < other.terms.len()
            invariant
                xs == self@,
                ys == other@,
                xs == text_views(self.terms@),
                ys == text_views(other.terms@),
                texts_ascend(xs),
                texts_ascend(ys),
                i <= xs.len(),
                j <= ys.len(),
                forall|a: int, b: int|
                    0 <= a < i && 0 <= b < ys.len() ==> #[trigger] xs[a] != #[trigger] ys[b],
                forall|a: int, b: int|
                    0 <= a < xs.len() && 0 <= b < j ==> #[trigger] xs[a] != #[trigger] ys[b],
            decreases xs.len() - i + ys.len() - j,
        {
            let ghost x = xs[i as int];
            let ghost y = ys[j as int];
            match text_standing(self.terms[i].as_str(), other.terms[j].as_str()) {
                Standing::Same => {
                    assert(xs[i as int] == ys[j as int]);
                    return false;
                },
                Standing::Before => {
                    assert forall|b: int| 0 <= b < ys.len() implies x != #[trigger] ys[b] by {
                        crate::text::text_order_is_irreflexive(x);
                        if b > j {
                            crate::text::text_order_is_transitive(x, y, ys[b]);
                        }
                    }
                    i = i + 1;
                },
                Standing::After => {
                    assert forall|a: int| 0 <= a < xs.len() implies #[trigger] xs[a] != y by {
                        crate::text::text_order_is_irreflexive(y);
                        if a > i {
                            crate::text::text_order_is_transitive(y, x, xs[a]);
                        }
                    }
                    j = j + 1;
                },
            }
        }
        true
    }
}

/// Whether no text is in both.
pub open spec fn texts_apart(a: Seq<Seq<char>>, b: Seq<Seq<char>>) -> bool {
    forall|i: int, j: int|
        0 <= i < a.len() && 0 <= j < b.len() ==> #[trigger] a[i] != #[trigger] b[j]
}

/// The place of a text, from 1; 0 where it is not there.
pub open spec fn place_of(texts: Seq<Seq<char>>, text: Seq<char>) -> int {
    if texts.contains(text) {
        texts.index_of(text) + 1
    } else {
        0
    }
}

/// The model of [`FourSectDict`].
pub struct DictView {
    pub shared: Seq<Seq<char>>,
    pub subjects: Seq<Seq<char>>,
    pub predicates: Seq<Seq<char>>,
    pub objects: Seq<Seq<char>>,
}

impl DictView {
    /// The terms in a role, in the order of their numbers.
    pub open spec fn terms(self, kind: IdKind) -> Seq<Seq<char>> {
        match kind {
            IdKind::Subject => self.shared + self.subjects,
            IdKind::Predicate => self.predicates,
            IdKind::Object => self.shared + self.objects,
        }
    }

    /// The number of a term in a role; 0 where it has none.
    pub open spec fn id_of(self, term: Seq<char>, kind: IdKind) -> int {
        place_of(self.terms(kind), term)
    }

    /// Whether a term in a role has a number.
    pub open spec fn has_id(self, id: int, kind: IdKind) -> bool {
        1 <= id <= self.terms(kind).len()
    }

    /// The term with a number.
    pub open spec fn term_of(self, id: int, kind: IdKind) -> Seq<char> {
        self.terms(kind)[id - 1]
    }

    /// What holds of every dictionary: its sections ascend, the terms in the
    /// shared section are in no other, and each term has a number.
    pub open spec fn valid(self) -> bool {
        &&& texts_ascend(self.shared)
        &&& texts_ascend(self.subjects)
        &&& texts_ascend(self.predicates)
        &&& texts_ascend(self.objects)
        &&& texts_apart(self.shared, self.subjects)
        &&& texts_apart(self.shared, self.objects)
        &&& self.terms(IdKind::Subject).len() <= usize::MAX
        &&& self.terms(IdKind::Object).len() <= usize::MAX
    }
}

/// Texts that ascend are different.
proof fn lemma_ascending_differ(texts: Seq<Seq<char>>)
    requires
        texts_ascend(texts),
    ensures
        texts.no_duplicates(),
{
    assert forall|i: int, j: int| 0 <= i < texts.len() && 0 <= j < texts.len() && i != j implies texts[i]
        != texts[j] by {
        crate::text::text_order_is_irreflexive(texts[i]);
        if i < j {
            assert(crate::text::text_less(texts[i], texts[j]));
        } else {
            assert(crate::text::text_less(texts[j], texts[i]));
        }
    }
}

/// A term has one number in a role.
pub proof fn terms_have_one_id(dict: DictView, kind: IdKind)
    requires
        dict.valid(),
    ensures
        dict.terms(kind).no_duplicates(),
{
    lemma_ascending_differ(dict.shared);
    lemma_ascending_differ(dict.subjects);
    lemma_ascending_differ(dict.predicates);
    lemma_ascending_differ(dict.objects);
}

/// The term with a number has that number.
pub proof fn id_of_the_term_of_an_id(dict: DictView, id: int, kind: IdKind)
    requires
        dict.valid(),
        dict.has_id(id, kind),
    ensures
        dict.id_of(dict.term_of(id, kind), kind) == id,
{
    terms_have_one_id(dict, kind);
    assert(dict.terms(kind)[id - 1] == dict.term_of(id, kind));
}

/// The number of a term, where it has one, is that of the term.
pub proof fn term_of_the_id_of_a_term(dict: DictView, term: Seq<char>, kind: IdKind)
    requires
        dict.valid(),
        dict.id_of(term, kind) != 0,
    ensures
        dict.has_id(dict.id_of(term, kind), kind),
        dict.term_of(dict.id_of(term, kind), kind) == term,
{
}

/// A dictionary.
#[derive(Debug)]
pub struct FourSectDict {
    shared: DictSection,
    subjects: DictSection,
    predicates: DictSection,
    objects: DictSection,
}

impl View for FourSectDict {
    type V = DictView;

    closed spec fn view(&self) -> DictView {
        DictView {
            shared: self.shared@,
            subjects: self.subjects@,
            predicates: self.predicates@,
            objects: self.objects@,
        }
    }
}

impl FourSectDict {
    #[verifier::type_invariant]
    spec fn is_valid(&self) -> bool {
        self@.valid()
    }

    /// A dictionary of four sections; `None` where a shared term is in another
    /// section too, or where there are more terms than numbers.
    pub fn new(
        shared: DictSection,
        subjects: DictSection,
        predicates: DictSection,
        objects: DictSection,
    ) -> (dict: Option<FourSectDict>)
        ensures
            match dict {
                Some(dict) => dict@ == (DictView {
                    shared: shared@,
                    subjects: subjects@,
                    predicates: predicates@,
                    objects: objects@,
                }) && dict@.valid(),
                None => !texts_apart(shared@, subjects@) || !texts_apart(shared@, objects@)
                    || shared@.len() + subjects@.len() > usize::MAX || shared@.len()
                    + objects@.len() > usize::MAX,
            },
            dict is Some <==> shared@.len() + subjects@.len() <= usize::MAX && shared@.len()
                + objects@.len() <= usize::MAX && (forall|i: int, j: int|
                0 <= i < shared@.len() && 0 <= j < subjects@.len() ==> #[trigger] shared@[i]
                    != #[trigger] subjects@[j]) && (forall|i: int, j: int|
                0 <= i < shared@.len() && 0 <= j < objects@.len() ==> #[trigger] shared@[i]
                    != #[trigger] objects@[j]),
    {
        proof {
            use_type_invariant(&shared);
            use_type_invariant(&subjects);
            use_type_invariant(&predicates);
            use_type_invariant(&objects);
        }
        if shared.len() > usize::MAX - subjects.len() || shared.len() > usize::MAX - objects.len() {
            return None;
        }
        if !shared.is_apart_from(&subjects) || !shared.is_apart_from(&objects) {
            return None;
        }
        Some(FourSectDict { shared, subjects, predicates, objects })
    }

    /// The number of a term in a role; 0 where it has none.
    pub fn string_to_id(&self, term: &str, kind: IdKind) -> (id: Id)
        ensures
            id == self@.id_of(term@, kind),
            self@.valid(),
            match kind {
                IdKind::Subject => if id == 0 {
                    !self@.shared.contains(term@) && !self@.subjects.contains(term@)
                } else if id <= self@.shared.len() {
                    self@.shared[id - 1] == term@
                } else {
                    id - self@.shared.len() <= self@.subjects.len() && self@.subjects[id - 1
                        - self@.shared.len()] == term@
                },
                IdKind::Predicate => if id == 0 {
                    !self@.predicates.contains(term@)
                } else {
                    id <= self@.predicates.len() && self@.predicates[id - 1] == term@
                },
                IdKind::Object => if id == 0 {
                    !self@.shared.contains(term@) && !self@.objects.contains(term@)
                } else if id <= self@.shared.len() {
                    self@.shared[id - 1] == term@
                } else {
                    id - self@.shared.len() <= self@.objects.len() && self@.objects[id - 1
                        - self@.shared.len()] == term@
                },
            },
    {
        proof {
            use_type_invariant(self);
            terms_have_one_id(self@, kind);
        }
        let ghost terms = self@.terms(kind);
        match kind {
            IdKind::Predicate => {
                let place: usize = self.predicates.find(term);
                assert(place > 0 ==> terms[place - 1] == term@);
                place
            },
            _ => {
                let place: usize = self.shared.find(term);
                if place > 0 {
                    assert(terms[place - 1] == term@);
                    return place;
                }
                let place: usize = match kind {
                    IdKind::Subject => self.subjects.find(term),
                    _ => self.objects.find(term),
                };
                if place == 0 {
                    assert(!terms.contains(term@)) by {
                        if terms.contains(term@) {
                            let i = terms.index_of(term@);
                            if i < self@.shared.len() {
                                assert(self@.shared[i] == term@);
                            } else if kind == IdKind::Subject {
                                assert(self@.subjects[i - self@.shared.len()] == term@);
                            } else {
                                assert(self@.objects[i - self@.shared.len()] == term@);
                            }
                        }
                    }
                    0
                } else {
                    let id: usize = self.shared.len() + place;
                    assert(terms[id - 1] == term@);
                    id
                }
            },
        }
    }

    /// The number of the last term in a role.
    pub fn max_id(&self, kind: IdKind) -> (id: Id)
        ensures
            id == self@.terms(kind).len(),
            self@.valid(),
            id == match kind {
                IdKind::Subject => self@.shared.len() + self@.subjects.len(),
                IdKind::Predicate => self@.predicates.len(),
                IdKind::Object => self@.shared.len() + self@.objects.len(),
            },
    {
        proof {
            use_type_invariant(self);
        }
        match kind {
            IdKind::Subject => self.shared.len() + self.subjects.len(),
            IdKind::Predicate => self.predicates.len(),
            IdKind::Object => self.shared.len() + self.objects.len(),
        }
    }

    /// The term with a number in a role.
    pub fn id_to_string(&self, id: Id, kind: IdKind) -> (term: Result<String, ExtractError>)
        ensures
            match term {
                Ok(term) => self@.has_id(id as int, kind) && term@ == self@.term_of(id as int, kind),
                Err(e) => !self@.has_id(id as int, kind) && e == (ExtractError { id, kind }),
            },
            ({
                let shared = match kind {
                    IdKind::Predicate => Seq::empty(),
                    _ => self@.shared,
                };
                let own = match kind {
                    IdKind::Subject => self@.subjects,
                    IdKind::Predicate => self@.predicates,
                    IdKind::Object => self@.objects,
                };
                match term {
                    Ok(term) => 1 <= id <= shared.len() + own.len() && term@ == if id
                        <= shared.len() {
                        shared[id - 1]
                    } else {
                        own[id - 1 - shared.len()]
                    },
                    Err(e) => (id == 0 || id > shared.len() + own.len()) && e.id == id && e.kind
                        == kind,
                }
            }),
    {
        if id == 0 || id > self.max_id(kind) {
            return Err(ExtractError { id, kind });
        }
        Ok(
            match kind {
                IdKind::Predicate => self.predicates.term(id - 1),
                IdKind::Subject => if id <= self.shared.len() {
                    self.shared.term(id - 1)
                } else {
                    self.subjects.term(id - self.shared.len() - 1)
                },
                IdKind::Object => if id <= self.shared.len() {
                    self.shared.term(id - 1)
                } else {
                    self.objects.term(id - self.shared.len() - 1)
                },
            },
        )
    }
}

/// Terms are numbered from 1, in the order of their sections: the shared terms
/// first for subjects and objects, then those of their own section.
pub proof fn terms_are_numbered_by_section(dict: DictView, id: int)
    ensures
        dict.has_id(id, IdKind::Subject) <==> 1 <= id <= dict.shared.len() + dict.subjects.len(),
        dict.has_id(id, IdKind::Predicate) <==> 1 <= id <= dict.predicates.len(),
        dict.has_id(id, IdKind::Object) <==> 1 <= id <= dict.shared.len() + dict.objects.len(),
        1 <= id <= dict.shared.len() ==> dict.term_of(id, IdKind::Subject) == dict.shared[id - 1]
            && dict.term_of(id, IdKind::Object) == dict.shared[id - 1],
        1 <= id <= dict.subjects.len() ==> dict.term_of(
            dict.shared.len() + id,
            IdKind::Subject,
        ) == dict.subjects[id - 1],
        1 <= id <= dict.objects.len() ==> dict.term_of(dict.shared.len() + id, IdKind::Object)
            == dict.objects[id - 1],
        1 <= id <= dict.predicates.len() ==> dict.term_of(id, IdKind::Predicate)
            == dict.predicates[id - 1],
{
}

/// A term that is no term in a role has no number in it, and any other has one
/// that is not 0.
pub proof fn only_unknown_terms_have_no_id(dict: DictView, term: Seq<char>)
    ensures
        dict.id_of(term, IdKind::Subject) == 0 <==> !dict.shared.contains(term)
            && !dict.subjects.contains(term),
        dict.id_of(term, IdKind::Predicate) == 0 <==> !dict.predicates.contains(term),
        dict.id_of(term, IdKind::Object) == 0 <==> !dict.shared.contains(term)
            && !dict.objects.contains(term),
{
    lemma_contained_in_either(dict.shared, dict.subjects, term);
    lemma_contained_in_either(dict.shared, dict.objects, term);
}

proof fn lemma_contained_in_either(a: Seq<Seq<char>>, b: Seq<Seq<char>>, term: Seq<char>)
    ensures
        (a + b).contains(term) <==> a.contains(term) || b.contains(term),
{
    if a.contains(term) {
        let i = a.index_of(term);
        assert((a + b)[i] == term);
    }
    if b.contains(term) {
        let i = b.index_of(term);
        assert((a + b)[a.len() + i] == term);
    }
    if (a + b).contains(term) {
        let i = (a + b).index_of(term);
        if i < a.len() {
            assert(a[i] == term);
        } else {
            assert(b[i - a.len()] == term);
        }
    }
}

} // verus!
