//! A graph with either backend, and which backend a file is opened with.
//!
//! The hybrid backend is a graph with its cache beside it. It is preferred, but
//! its cache is not worth the cost for small files, and cannot be had for files
//! without triples: these are opened as a graph alone, in memory.
use crate::four_sect_dict::{ExtractError, IdKind};
use crate::hdt::{Error, GraphView, Hdt, HdtHybrid, StringTriple};
use crate::header::Header;
use crate::triples::hybrid_cache::{HybridCacheError, HybridCacheErrorView};
use crate::triples::{Id, TripleId};
use vstd::prelude::*;

verus! {

/// The size in bytes below which files are read into memory, unless another is
/// asked for: 1 MiB. This is well above the size at which making a cache costs
/// more than it saves.
pub const DEFAULT_SMALL_FILE_THRESHOLD: usize = 1048576;

/// A graph from an HDT file, with either backend.
pub enum HdtAny {
    /// With its cache beside it.
    Hybrid(HdtHybrid),
    /// Without a cache: a small file, or one of which no cache can be made.
    InMemory(Hdt),
}

/// What is to be done next to open a file.
pub enum Opening {
    /// Read the file into memory; what comes of it is the argument of
    /// [`HdtAny::read_in_memory`].
    ReadInMemory,
    /// Open the file with the hybrid backend; what comes of it is the argument
    /// of [`HdtAny::after_hybrid`].
    TryHybrid,
    /// Nothing.
    Done(Result<HdtAny, Error>),
}

/// A file's size as a `usize`: sizes that are too large count as the largest.
pub open spec fn clamped_size(size: u64) -> int {
    if size <= usize::MAX {
        size as int
    } else {
        usize::MAX as int
    }
}

/// Whether a file counts as small. One whose size is not known does not.
pub open spec fn is_small(file_size: Option<u64>, threshold: Option<usize>) -> bool {
    match file_size {
        None => false,
        Some(size) => clamped_size(size) < match threshold {
            Some(threshold) => threshold as int,
            None => DEFAULT_SMALL_FILE_THRESHOLD as int,
        },
    }
}

/// Whether a failure of the hybrid backend leaves the file to be read into memory.
pub open spec fn is_recoverable(e: Error) -> bool {
    e matches Error::Cache(HybridCacheError::EmptyHdt)
}

/// What is to be done first to open a file.
pub open spec fn first_step(file_size: Option<u64>, threshold: Option<usize>) -> Opening {
    if is_small(file_size, threshold) {
        Opening::ReadInMemory
    } else {
        Opening::TryHybrid
    }
}

/// What is to be done after the hybrid backend was tried.
pub open spec fn step_after_hybrid(hybrid: Result<HdtHybrid, Error>) -> Opening {
    match hybrid {
        Ok(hdt) => Opening::Done(Ok(HdtAny::Hybrid(hdt))),
        Err(e) => if is_recoverable(e) {
            Opening::ReadInMemory
        } else {
            Opening::Done(Err(e))
        },
    }
}

/// What comes of reading a file into memory.
pub open spec fn read_outcome(read: Result<Hdt, Error>) -> Result<HdtAny, Error> {
    match read {
        Ok(hdt) => Ok(HdtAny::InMemory(hdt)),
        Err(e) => Err(e),
    }
}

/// What opening a file comes to when each step is followed, where trying the
/// hybrid backend and reading the file into memory would come to the given.
pub open spec fn followed(
    step: Opening,
    hybrid: Result<HdtHybrid, Error>,
    read: Result<Hdt, Error>,
) -> Result<HdtAny, Error> {
    match step {
        Opening::ReadInMemory => read_outcome(read),
        Opening::TryHybrid => match step_after_hybrid(hybrid) {
            Opening::Done(outcome) => outcome,
            _ => read_outcome(read),
        },
        Opening::Done(outcome) => outcome,
    }
}

impl HdtAny {
    /// Begins to open a file, by its size, if that could be found. A file
    /// below `threshold` bytes is read into memory, and no cache is made; any
    /// other is tried with the hybrid backend, and so is one whose size could
    /// not be found, so that opening it tells what is wrong.
    ///
    /// Without a threshold, [`DEFAULT_SMALL_FILE_THRESHOLD`] is used. A threshold
    /// of 0 asks for the hybrid backend, one of `usize::MAX` for memory.
    pub fn open_with_threshold(file_size: Option<u64>, threshold: Option<usize>) -> (opening: Opening)
        ensures
            opening == first_step(file_size, threshold),
            opening is ReadInMemory || opening is TryHybrid,
            opening is ReadInMemory <==> match (file_size, threshold) {
                (None, _) => false,
                (Some(size), Some(threshold)) => size < threshold,
                (Some(size), None) => size < 1048576,
            },
    {
        let threshold: usize = match threshold {
            Some(threshold) => threshold,
            None => DEFAULT_SMALL_FILE_THRESHOLD,
        };
        let small = match file_size {
            None => false,
            Some(size) => {
                let size: usize = if size <= usize::MAX as u64 {
                    size as usize
                } else {
                    usize::MAX
                };
                size < threshold
            },
        };
        if small {
            Opening::ReadInMemory
        } else {
            Opening::TryHybrid
        }
    }

    /// Takes what came of the hybrid backend. Where no cache can be made of the
    /// file, it is read into memory; any other failure stands.
    pub fn after_hybrid(hybrid: Result<HdtHybrid, Error>) -> (opening: Opening)
        ensures
            opening == step_after_hybrid(hybrid),
            match hybrid {
                Ok(hdt) => opening == Opening::Done(Ok(HdtAny::Hybrid(hdt))),
                Err(Error::Cache(HybridCacheError::EmptyHdt)) => opening == Opening::ReadInMemory,
                Err(e) => opening == Opening::Done(Err(e)),
            },
    {
        match hybrid {
            Ok(hdt) => Opening::Done(Ok(HdtAny::Hybrid(hdt))),
            Err(e) => if HdtAny::is_hybrid_recoverable(&e) {
                Opening::ReadInMemory
            } else {
                Opening::Done(Err(e))
            },
        }
    }

    /// Takes what came of reading the file into memory.
    pub fn read_in_memory(read: Result<Hdt, Error>) -> (any: Result<HdtAny, Error>)
        ensures
            any == read_outcome(read),
            match read {
                Ok(hdt) => any == Ok::<HdtAny, Error>(HdtAny::InMemory(hdt)),
                Err(e) => any == Err::<HdtAny, Error>(e),
            },
    {
        match read {
            Ok(hdt) => Ok(HdtAny::InMemory(hdt)),
            Err(e) => Err(e),
        }
    }

    /// Whether a failure of the hybrid backend leaves the file to be read into
    /// memory: that of a file without triples does.
    pub fn is_hybrid_recoverable(e: &Error) -> (recoverable: bool)
        ensures
            recoverable == is_recoverable(*e),
            recoverable <==> e == Error::Cache(HybridCacheError::EmptyHdt),
    {
        matches!(e, Error::Cache(HybridCacheError::EmptyHdt))
    }

    /// Whether the hybrid backend is used.
    pub fn is_hybrid(&self) -> (hybrid: bool)
        ensures
            hybrid == (self is Hybrid),
    {
        matches!(self, HdtAny::Hybrid(_))
    }

    /// The graph, whichever the backend.
    pub open spec fn graph(&self) -> GraphView {
        match self {
            HdtAny::Hybrid(hdt) => hdt.graph(),
            HdtAny::InMemory(hdt) => hdt.graph(),
        }
    }

    /// The header of the file.
    pub fn header(&self) -> (header: &Header)
        ensures
            header@ == self.graph().header,
            match self {
                HdtAny::Hybrid(hdt) => header@ == hdt.graph().header,
                HdtAny::InMemory(hdt) => header@ == hdt.graph().header,
            },
    {
        match self {
            HdtAny::Hybrid(hdt) => hdt.header(),
            HdtAny::InMemory(hdt) => hdt.header(),
        }
    }

    /// The number of bytes that the graph takes.
    pub fn size_in_bytes(&self) -> (size: usize)
        ensures
            size == self.graph().size,
            match self {
                HdtAny::Hybrid(hdt) => size == hdt.graph().size,
                HdtAny::InMemory(hdt) => size == hdt.graph().size,
            },
    {
        match self {
            HdtAny::Hybrid(hdt) => hdt.size_in_bytes(),
            HdtAny::InMemory(hdt) => hdt.size_in_bytes(),
        }
    }

    /// The number of a term in a role; 0 where it has none.
    pub fn string_to_id(&self, s: &str, kind: IdKind) -> (id: Id)
        ensures
            id == self.graph().dict.id_of(s@, kind),
            match kind {
                IdKind::Subject => id == 0 <==> !self.graph().dict.shared.contains(s@)
                    && !self.graph().dict.subjects.contains(s@),
                IdKind::Predicate => id == 0 <==> !self.graph().dict.predicates.contains(s@),
                IdKind::Object => id == 0 <==> !self.graph().dict.shared.contains(s@)
                    && !self.graph().dict.objects.contains(s@),
            },
            id != 0 ==> self.graph().dict.has_id(id as int, kind) && self.graph().dict.term_of(
                id as int,
                kind,
            ) == s@,
    {
        proof {
            crate::four_sect_dict::only_unknown_terms_have_no_id(self.graph().dict, s@);
        }
        match self {
            HdtAny::Hybrid(hdt) => hdt.dict().string_to_id(s, kind),
            HdtAny::InMemory(hdt) => hdt.dict().string_to_id(s, kind),
        }
    }

    /// The term with a number in a role.
    pub fn id_to_string(&self, id: Id, kind: IdKind) -> (term: Result<String, ExtractError>)
        ensures
            match term {
                Ok(term) => self.graph().dict.has_id(id as int, kind) && term@
                    == self.graph().dict.term_of(id as int, kind),
                Err(e) => !self.graph().dict.has_id(id as int, kind) && e == (ExtractError {
                    id,
                    kind,
                }),
            },
    {
        match self {
            HdtAny::Hybrid(hdt) => hdt.dict().id_to_string(id, kind),
            HdtAny::InMemory(hdt) => hdt.dict().id_to_string(id, kind),
        }
    }

    /// The texts of all triples.
    pub fn triples_all(&self) -> (triples: Vec<StringTriple>)
        ensures
            crate::hdt::text_triple_views(triples@) == self.graph().texts_of_all(
                self.graph().triples,
            ),
            triples@.len() == self.graph().triples.len(),
            forall|i: int|
                0 <= i < triples@.len() ==> {
                    let t = self.graph().triples[i];
                    &&& (#[trigger] triples@[i])[0]@ == self.graph().dict.term_of(
                        t[0] as int,
                        IdKind::Subject,
                    )
                    &&& triples@[i][1]@ == self.graph().dict.term_of(t[1] as int, IdKind::Predicate)
                    &&& triples@[i][2]@ == self.graph().dict.term_of(t[2] as int, IdKind::Object)
                },
    {
        match self {
            HdtAny::Hybrid(hdt) => hdt.triples_all(),
            HdtAny::InMemory(hdt) => hdt.triples_all(),
        }
    }

    /// The texts of the triples with the terms that a pattern asks for.
    pub fn triples_with_pattern(
        &self,
        sp: Option<&str>,
        pp: Option<&str>,
        op: Option<&str>,
    ) -> (found: Vec<StringTriple>)
        ensures
            crate::hdt::text_triple_views(found@) == self.graph().texts_of_all(
                self.graph().with_texts(
                    crate::hdt::asked_text(sp),
                    crate::hdt::asked_text(pp),
                    crate::hdt::asked_text(op),
                ),
            ),
            found@.len() == self.graph().with_texts(
                crate::hdt::asked_text(sp),
                crate::hdt::asked_text(pp),
                crate::hdt::asked_text(op),
            ).len(),
            forall|i: int|
                0 <= i < found@.len() ==> (sp matches Some(term) ==> (#[trigger] found@[i])[0]@
                    == term@) && (pp matches Some(term) ==> found@[i][1]@ == term@) && (
                op matches Some(term) ==> found@[i][2]@ == term@),
    {
        match self {
            HdtAny::Hybrid(hdt) => hdt.triples_with_pattern(sp, pp, op),
            HdtAny::InMemory(hdt) => hdt.triples_with_pattern(sp, pp, op),
        }
    }

    /// The triples with the terms that a pattern asks for.
    pub fn triple_ids_with_pattern(
        &self,
        sp: Option<&str>,
        pp: Option<&str>,
        op: Option<&str>,
    ) -> (found: Vec<TripleId>)
        ensures
            found@ == self.graph().with_texts(
                crate::hdt::asked_text(sp),
                crate::hdt::asked_text(pp),
                crate::hdt::asked_text(op),
            ),
            forall|t: TripleId| #[trigger]
                found@.contains(t) <==> self.graph().triples.contains(t) && (sp matches Some(term)
                    ==> self.graph().dict.term_of(t[0] as int, IdKind::Subject) == term@) && (
                pp matches Some(term) ==> self.graph().dict.term_of(t[1] as int, IdKind::Predicate)
                    == term@) && (op matches Some(term) ==> self.graph().dict.term_of(
                    t[2] as int,
                    IdKind::Object,
                ) == term@),
    {
        match self {
            HdtAny::Hybrid(hdt) => hdt.triple_ids_with_pattern(sp, pp, op),
            HdtAny::InMemory(hdt) => hdt.triple_ids_with_pattern(sp, pp, op),
        }
    }

    /// The triples with the numbers that a pattern asks for, where 0 asks for any.
    pub fn triple_ids_with_id_pattern(&self, pattern: TripleId) -> (found: Vec<TripleId>)
        ensures
            found@ == self.graph().with_ids(pattern),
            forall|t: TripleId| #[trigger]
                found@.contains(t) <==> self.graph().triples.contains(t) && (pattern[0] == 0 || t[0]
                    == pattern[0]) && (pattern[1] == 0 || t[1] == pattern[1]) && (pattern[2] == 0
                    || t[2] == pattern[2]),
    {
        match self {
            HdtAny::Hybrid(hdt) => hdt.triple_ids_with_id_pattern(pattern),
            HdtAny::InMemory(hdt) => hdt.triple_ids_with_id_pattern(pattern),
        }
    }
}

/// A threshold of 0 asks for the hybrid backend, whatever the file's size.
pub proof fn threshold_of_zero_asks_for_hybrid(file_size: Option<u64>)
    ensures
        first_step(file_size, Some(0)) == Opening::TryHybrid,
{
}

/// The largest threshold asks for memory, if the file's size is known and is
/// not itself the largest.
pub proof fn largest_threshold_asks_for_memory(size: u64)
    requires
        size < usize::MAX,
    ensures
        first_step(Some(size), Some(usize::MAX)) == Opening::ReadInMemory,
{
}

/// No threshold is one of 1 MiB.
pub proof fn no_threshold_is_the_default(file_size: Option<u64>)
    ensures
        first_step(file_size, None) == first_step(file_size, Some(DEFAULT_SMALL_FILE_THRESHOLD)),
        DEFAULT_SMALL_FILE_THRESHOLD == 1024 * 1024,
{
}

/// A file whose size is not known is tried with the hybrid backend.
pub proof fn unknown_size_asks_for_hybrid(threshold: Option<usize>)
    ensures
        first_step(None, threshold) == Opening::TryHybrid,
{
}

/// A small file is read into memory, whatever the hybrid backend would come to.
pub proof fn small_file_is_in_memory(
    file_size: Option<u64>,
    threshold: Option<usize>,
    hybrid: Result<HdtHybrid, Error>,
    read: Result<Hdt, Error>,
)
    requires
        is_small(file_size, threshold),
    ensures
        followed(first_step(file_size, threshold), hybrid, read) == read_outcome(read),
{
}

/// A file that is not small has the hybrid backend where that can be had. A
/// file without triples is read into memory, and any other failure stands.
pub proof fn other_file_is_hybrid_if_it_can_be(
    file_size: Option<u64>,
    threshold: Option<usize>,
    hybrid: Result<HdtHybrid, Error>,
    read: Result<Hdt, Error>,
)
    requires
        !is_small(file_size, threshold),
    ensures
        followed(first_step(file_size, threshold), hybrid, read) == match hybrid {
            Ok(hdt) => Ok(HdtAny::Hybrid(hdt)),
            Err(Error::Cache(HybridCacheError::EmptyHdt)) => read_outcome(read),
            Err(e) => Err(e),
        },
{
}

/// A file of which no cache is made because it has no triples is read into
/// memory, whatever its size and the threshold.
pub proof fn file_without_triples_is_in_memory(
    file_size: Option<u64>,
    threshold: Option<usize>,
    e: HybridCacheError,
    read: Result<Hdt, Error>,
)
    requires
        e@ == HybridCacheErrorView::EmptyHdt,
    ensures
        followed(first_step(file_size, threshold), Err(Error::Cache(e)), read) == read_outcome(
            read,
        ),
{
}

/// With equal graphs, both backends have the same answers: those that the
/// methods give are determined by the graph.
pub proof fn backends_answer_alike(
    hybrid: HdtHybrid,
    in_memory: Hdt,
    pattern: TripleId,
    sp: Option<Seq<char>>,
    pp: Option<Seq<char>>,
    op: Option<Seq<char>>,
    term: Seq<char>,
    id: int,
    kind: IdKind,
)
    requires
        hybrid.graph() == in_memory.graph(),
    ensures
        ({
            let a = HdtAny::Hybrid(hybrid).graph();
            let b = HdtAny::InMemory(in_memory).graph();
            &&& a.with_ids(pattern) == b.with_ids(pattern)
            &&& a.with_texts(sp, pp, op) == b.with_texts(sp, pp, op)
            &&& a.texts_of_all(a.triples) == b.texts_of_all(b.triples)
            &&& a.dict.id_of(term, kind) == b.dict.id_of(term, kind)
            &&& a.dict.has_id(id, kind) == b.dict.has_id(id, kind)
            &&& a.dict.term_of(id, kind) == b.dict.term_of(id, kind)
        }),
{
}

/// A file is read into memory exactly where its size is known and below the
/// threshold. A size that is no `usize` counts as the largest, which is below
/// no threshold.
pub proof fn files_below_the_threshold_are_in_memory(size: u64, threshold: usize)
    ensures
        first_step(Some(size), Some(threshold)) == Opening::ReadInMemory <==> size < threshold,
        first_step(Some(size), Some(threshold)) == Opening::TryHybrid <==> !(size < threshold),
        first_step(Some(size), None) == Opening::ReadInMemory <==> size < 1048576,
        first_step(Some(size), None) == Opening::TryHybrid <==> !(size < 1048576),
        first_step(None, Some(threshold)) == Opening::TryHybrid,
        first_step(None, None) == Opening::TryHybrid,
{
}

/// A smaller file, or a higher threshold, does not lead away from memory.
pub proof fn smaller_files_stay_in_memory(size: u64, other: u64, threshold: usize, higher: usize)
    requires
        other <= size,
        threshold <= higher,
        first_step(Some(size), Some(threshold)) == Opening::ReadInMemory,
    ensures
        first_step(Some(other), Some(higher)) == Opening::ReadInMemory,
{
}

/// The graph of either backend is that of the backend.
pub proof fn the_graph_is_that_of_the_backend(hybrid: HdtHybrid, in_memory: Hdt)
    ensures
        HdtAny::Hybrid(hybrid).graph() == hybrid.graph(),
        HdtAny::InMemory(in_memory).graph() == in_memory.graph(),
{
}

/// After the hybrid backend was tried, its graph is what was opened, or the file
/// is read into memory where it has no triples, or its failure stands.
pub proof fn only_an_empty_file_falls_back(hdt: HdtHybrid, e: Error)
    ensures
        step_after_hybrid(Ok(hdt)) == Opening::Done(Ok(HdtAny::Hybrid(hdt))),
        step_after_hybrid(Err(Error::Cache(HybridCacheError::EmptyHdt))) == Opening::ReadInMemory,
        e != Error::Cache(HybridCacheError::EmptyHdt) ==> step_after_hybrid(Err(e)) == Opening::Done(
            Err(e),
        ),
{
}

} // verus!
