//! The serialized form of the wavelet matrix that a cache file holds.
//!
//! The matrix itself, and the code that turns it into bytes and back, are
//! those of the `sucds` crate. What stands here is how far a serialized matrix
//! reaches into the bytes that follow it, which is all that a reader of a cache
//! file has to know before it hands the bytes over:
//!
//! ```text
//! [number of layers: u64] [layer]* [alphabet size: u64]
//! layer:    [words] [number of bits: u64] [number of bits: u64] [words] [optional] [optional]
//! words:    [number of words: u64] [word: u64]*
//! optional: [flag: u8] [words, where the flag is not zero]
//! ```
use sucds::bit_vectors::Rank9Sel;
use sucds::char_sequences::WaveletMatrix;
use sucds::int_vectors::CompactVector;
use sucds::Serializable;
use vstd::bytes::u64_from_le_bytes;
use vstd::prelude::*;
use vstd::slice::slice_subrange;

verus! {

/// `sucds`'s wavelet matrix: opaque.
#[verifier::external_type_specification]
#[verifier::external_body]
#[verifier::reject_recursive_types(B)]
pub struct ExWaveletMatrix<B>(WaveletMatrix<B>);

/// `sucds`'s bit vector with rank and select: opaque.
#[verifier::external_type_specification]
#[verifier::external_body]
pub struct ExRank9Sel(Rank9Sel);

/// `sucds`'s vector of integers of a fixed width: opaque.
#[verifier::external_type_specification]
#[verifier::external_body]
pub struct ExCompactVector(CompactVector);

/// The contents of a wavelet matrix, as the bytes that it serializes to.
pub uninterp spec fn wavelet_encoding(wavelet: WaveletMatrix<Rank9Sel>) -> Seq<u8>;

/// The contents of a bit vector, as the bytes that it serializes to.
pub uninterp spec fn bit_vector_encoding(bits: Rank9Sel) -> Seq<u8>;

/// The contents of a compact vector, as the bytes that it serializes to.
pub uninterp spec fn compact_vector_encoding(values: CompactVector) -> Seq<u8>;

/// The little-endian `u64` at `at`.
pub open spec fn word_at(b: Seq<u8>, at: int) -> u64 {
    vstd::bytes::spec_u64_from_le_bytes(b.subrange(at, at + 8))
}

/// Where the words that begin at `at` end, if `b` holds them whole.
pub open spec fn words_end(b: Seq<u8>, at: int) -> Option<int> {
    if 0 <= at && at + 8 <= b.len() && at + 8 + 8 * word_at(b, at) <= b.len() {
        Some(at + 8 + 8 * word_at(b, at))
    } else {
        None
    }
}

/// Where the optional words whose flag is at `at` end, if `b` holds them whole.
pub open spec fn optional_words_end(b: Seq<u8>, at: int) -> Option<int> {
    if 0 <= at < b.len() {
        if b[at] == 0 {
            Some(at + 1)
        } else {
            words_end(b, at + 1)
        }
    } else {
        None
    }
}

/// Where the two flags of a layer are, and where the layer ends.
pub struct LayerExtent {
    pub first_flag: int,
    pub second_flag: int,
    pub end: int,
}

/// The extent of the layer that begins at `at`, if `b` holds it whole.
pub open spec fn layer_extent(b: Seq<u8>, at: int) -> Option<LayerExtent> {
    match words_end(b, at) {
        None => None,
        Some(bits_end) => match words_end(b, bits_end + 16) {
            None => None,
            Some(first_flag) => match optional_words_end(b, first_flag) {
                None => None,
                Some(second_flag) => match optional_words_end(b, second_flag) {
                    None => None,
                    Some(end) => Some(LayerExtent { first_flag, second_flag, end }),
                },
            },
        },
    }
}

/// Where the layer with index `k` begins, if `b` holds the layers before it whole.
pub open spec fn layer_start(b: Seq<u8>, k: nat) -> Option<int>
    decreases k,
{
    if k == 0 {
        Some(8)
    } else {
        match layer_start(b, (k - 1) as nat) {
            None => None,
            Some(at) => match layer_extent(b, at) {
                None => None,
                Some(layer) => Some(layer.end),
            },
        }
    }
}

/// The number of bytes of the serialized matrix that `b` begins with, if `b`
/// holds it whole.
pub open spec fn wavelet_extent(b: Seq<u8>) -> Option<int> {
    if b.len() < 8 {
        None
    } else {
        match layer_start(b, word_at(b, 0) as nat) {
            None => None,
            Some(at) => if at + 8 <= b.len() {
                Some(at + 8)
            } else {
                None
            },
        }
    }
}

/// Whether the byte at `i` is a flag of the layer with index `k`.
pub open spec fn is_flag_of_layer(b: Seq<u8>, k: nat, i: int) -> bool {
    match layer_start(b, k) {
        None => false,
        Some(at) => match layer_extent(b, at) {
            None => false,
            Some(layer) => i == layer.first_flag || i == layer.second_flag,
        },
    }
}

/// Whether the byte at `i` is a flag of a layer of the matrix that `b` begins with.
pub open spec fn is_flag(b: Seq<u8>, i: int) -> bool {
    exists|k: nat| k < word_at(b, 0) && #[trigger] is_flag_of_layer(b, k, i)
}

/// The serialized matrix that `b` begins with, with every flag that is set
/// written as 1.
pub open spec fn normal_wavelet(b: Seq<u8>) -> Seq<u8> {
    Seq::new(
        wavelet_extent(b).unwrap() as nat,
        |i: int|
            if is_flag(b, i) && b[i] != 0 {
                1u8
            } else {
                b[i]
            },
    )
}

/// Calls `WaveletMatrix::serialize_into` with a vector to write to: the bytes
/// written are the matrix's encoding, they hold one serialized matrix and
/// nothing after it, and each flag in them is 0 or 1.
#[verifier::external_body]
pub(crate) fn serialize_wavelet(wavelet: &WaveletMatrix<Rank9Sel>) -> (bytes: Vec<u8>)
    ensures
        bytes@ == wavelet_encoding(*wavelet),
        wavelet_extent(bytes@) == Some(bytes@.len() as int),
        normal_wavelet(bytes@) == bytes@,
{
    let mut bytes = Vec::new();
    wavelet.serialize_into(&mut bytes).unwrap();
    bytes
}

/// Calls `WaveletMatrix::deserialize_from` on bytes that are one whole
/// serialized matrix: it succeeds, and the matrix it gives serializes to the
/// same bytes, but for flags, of which each that is set is written as 1.
#[verifier::external_body]
pub(crate) fn deserialize_wavelet(bytes: &[u8]) -> (wavelet: WaveletMatrix<Rank9Sel>)
    requires
        wavelet_extent(bytes@) == Some(bytes@.len() as int),
    ensures
        wavelet_encoding(wavelet) == normal_wavelet(bytes@),
{
    WaveletMatrix::deserialize_from(bytes).unwrap()
}

/// Calls `WaveletMatrix::size_in_bytes`: the number of bytes that the matrix
/// serializes to.
#[verifier::external_body]
pub(crate) fn wavelet_size_in_bytes(wavelet: &WaveletMatrix<Rank9Sel>) -> (size: usize)
    ensures
        size == wavelet_encoding(*wavelet).len(),
{
    wavelet.size_in_bytes()
}

/// Calls `Rank9Sel::serialize_into` with a vector to write to: the bytes
/// written are the bit vector's encoding.
#[verifier::external_body]
pub(crate) fn serialize_bit_vector(bits: &Rank9Sel) -> (bytes: Vec<u8>)
    ensures
        bytes@ == bit_vector_encoding(*bits),
{
    let mut bytes = Vec::new();
    bits.serialize_into(&mut bytes).unwrap();
    bytes
}

/// Calls `CompactVector::serialize_into` with a vector to write to: the bytes
/// written are the compact vector's encoding.
#[verifier::external_body]
pub(crate) fn serialize_compact_vector(values: &CompactVector) -> (bytes: Vec<u8>)
    ensures
        bytes@ == compact_vector_encoding(*values),
{
    let mut bytes = Vec::new();
    values.serialize_into(&mut bytes).unwrap();
    bytes
}

/// Reads the little-endian `u64` at `at`.
pub fn read_word(bytes: &[u8], at: usize) -> (word: u64)
    requires
        at + 8 <= bytes@.len(),
    ensures
        word == word_at(bytes@, at as int),
{
    let len: usize = bytes.len();
    assert(at + 8 <= len);
    u64_from_le_bytes(slice_subrange(bytes, at, at + 8))
}

/// Finds where the words that begin at `at` end.
fn find_words_end(bytes: &[u8], at: usize) -> (end: Option<usize>)
    ensures
        match end {
            Some(end) => words_end(bytes@, at as int) == Some(end as int) && at < end <= bytes@.len(),
            None => words_end(bytes@, at as int) is None,
        },
{
    let len: usize = bytes.len();
    if at > len || len - at < 8 {
        return None;
    }
    let count: u64 = read_word(bytes, at);
    let room: usize = (len - at - 8) / 8;
    if count > room as u64 {
        None
    } else {
        Some(at + 8 + 8 * (count as usize))
    }
}

/// Finds where the optional words whose flag is at `at` end.
fn find_optional_words_end(bytes: &[u8], at: usize) -> (end: Option<usize>)
    ensures
        match end {
            Some(end) => optional_words_end(bytes@, at as int) == Some(end as int) && at < end
                <= bytes@.len(),
            None => optional_words_end(bytes@, at as int) is None,
        },
{
    if at >= bytes.len() {
        None
    } else if bytes[at] == 0 {
        Some(at + 1)
    } else {
        find_words_end(bytes, at + 1)
    }
}

/// Finds where the layer that begins at `at` ends.
fn find_layer_end(bytes: &[u8], at: usize) -> (end: Option<usize>)
    ensures
        match end {
            Some(end) => layer_extent(bytes@, at as int) matches Some(layer) && layer.end == end
                && at < end <= bytes@.len(),
            None => layer_extent(bytes@, at as int) is None,
        },
{
    let bits_end: usize = match find_words_end(bytes, at) {
        None => return None,
        Some(end) => end,
    };
    if bytes.len() - bits_end < 16 {
        return None;
    }
    let first_flag: usize = match find_words_end(bytes, bits_end + 16) {
        None => return None,
        Some(end) => end,
    };
    match find_optional_words_end(bytes, first_flag) {
        None => None,
        Some(second_flag) => find_optional_words_end(bytes, second_flag),
    }
}

/// Finds the number of bytes of the serialized matrix that `bytes` begins
/// with; `None` where `bytes` ends before the matrix does.
pub fn wavelet_length(bytes: &[u8]) -> (length: Option<usize>)
    ensures
        match length {
            Some(length) => wavelet_extent(bytes@) == Some(length as int) && length <= bytes@.len(),
            None => wavelet_extent(bytes@) is None,
        },
{
    if bytes.len() < 8 {
        return None;
    }
    let count: u64 = read_word(bytes, 0);
    let mut at: usize = 8;
    let mut k: u64 = 0;
    while k < count
        invariant
            count == word_at(bytes@, 0),
            k <= count,
            8 <= at <= bytes@.len(),
            layer_start(bytes@, k as nat) == Some(at as int),
        decreases count - k,
    {
        match find_layer_end(bytes, at) {
            None => {
                proof {
                    lemma_layers_stop(bytes@, k as nat + 1, count as nat);
                }
                return None;
            },
            Some(end) => {
                at = end;
                k = k + 1;
            },
        }
    }
    if bytes.len() - at < 8 {
        None
    } else {
        Some(at + 8)
    }
}

/// Where a layer is not held whole, no later one is found.
proof fn lemma_layers_stop(b: Seq<u8>, j: nat, k: nat)
    requires
        j <= k,
        layer_start(b, j) is None,
    ensures
        layer_start(b, k) is None,
    decreases k,
{
    if j < k {
        lemma_layers_stop(b, j, (k - 1) as nat);
    }
}

/// A layer ends behind both of its flags, and behind where it begins.
proof fn lemma_layer_grows(b: Seq<u8>, at: int)
    requires
        layer_extent(b, at) is Some,
    ensures
        0 <= at < layer_extent(b, at).unwrap().first_flag,
        layer_extent(b, at).unwrap().first_flag < layer_extent(b, at).unwrap().second_flag,
        layer_extent(b, at).unwrap().second_flag < layer_extent(b, at).unwrap().end,
        layer_extent(b, at).unwrap().end <= b.len(),
{
}

/// Layers follow each other.
proof fn lemma_layers_grow(b: Seq<u8>, j: nat, k: nat)
    requires
        j <= k,
        layer_start(b, k) is Some,
    ensures
        layer_start(b, j) is Some,
        8 <= layer_start(b, j).unwrap() <= layer_start(b, k).unwrap(),
        j < k ==> layer_extent(b, layer_start(b, j).unwrap()) is Some,
        j < k ==> layer_extent(b, layer_start(b, j).unwrap()).unwrap().end
            <= layer_start(b, k).unwrap(),
    decreases k,
{
    if j < k {
        lemma_layers_grow(b, j, (k - 1) as nat);
        lemma_layer_grows(b, layer_start(b, (k - 1) as nat).unwrap());
    } else if k > 0 {
        lemma_layers_grow(b, (k - 1) as nat, (k - 1) as nat);
        lemma_layer_grows(b, layer_start(b, (k - 1) as nat).unwrap());
    }
}

proof fn lemma_word_agrees(b: Seq<u8>, c: Seq<u8>, m: int, at: int)
    requires
        0 <= at,
        at + 8 <= m <= b.len(),
        m <= c.len(),
        b.take(m) == c.take(m),
    ensures
        word_at(b, at) == word_at(c, at),
{
    assert(b.subrange(at, at + 8) =~= b.take(m).subrange(at, at + 8));
    assert(c.subrange(at, at + 8) =~= c.take(m).subrange(at, at + 8));
}

proof fn lemma_words_agree(b: Seq<u8>, c: Seq<u8>, m: int, at: int)
    requires
        m <= b.len(),
        m <= c.len(),
        b.take(m) == c.take(m),
        words_end(b, at) matches Some(end) && end <= m,
    ensures
        words_end(c, at) == words_end(b, at),
{
    lemma_word_agrees(b, c, m, at);
}

proof fn lemma_optional_words_agree(b: Seq<u8>, c: Seq<u8>, m: int, at: int)
    requires
        m <= b.len(),
        m <= c.len(),
        b.take(m) == c.take(m),
        optional_words_end(b, at) matches Some(end) && end <= m,
    ensures
        optional_words_end(c, at) == optional_words_end(b, at),
{
    assert(b[at] == b.take(m)[at]);
    assert(c[at] == c.take(m)[at]);
    if b[at] != 0 {
        lemma_words_agree(b, c, m, at + 1);
    }
}

proof fn lemma_layer_agrees(b: Seq<u8>, c: Seq<u8>, m: int, at: int)
    requires
        m <= b.len(),
        m <= c.len(),
        b.take(m) == c.take(m),
        layer_extent(b, at) matches Some(layer) && layer.end <= m,
    ensures
        layer_extent(c, at) == layer_extent(b, at),
{
    let bits_end = words_end(b, at).unwrap();
    let layer = layer_extent(b, at).unwrap();
    lemma_words_agree(b, c, m, at);
    lemma_words_agree(b, c, m, bits_end + 16);
    lemma_optional_words_agree(b, c, m, layer.first_flag);
    lemma_optional_words_agree(b, c, m, layer.second_flag);
}

proof fn lemma_layer_start_agrees(b: Seq<u8>, c: Seq<u8>, m: int, k: nat)
    requires
        m <= b.len(),
        m <= c.len(),
        b.take(m) == c.take(m),
        layer_start(b, k) matches Some(at) && at <= m,
    ensures
        layer_start(c, k) == layer_start(b, k),
    decreases k,
{
    if k > 0 {
        let before = (k - 1) as nat;
        lemma_layers_grow(b, before, k);
        lemma_layer_start_agrees(b, c, m, before);
        lemma_layer_agrees(b, c, m, layer_start(b, before).unwrap());
    }
}

/// The serialized matrix at the beginning of some bytes is read alike whatever
/// follows it.
pub proof fn lemma_wavelet_extent_agrees(b: Seq<u8>, c: Seq<u8>)
    requires
        wavelet_extent(b) matches Some(n) && n <= c.len() && b.take(n) == c.take(n),
    ensures
        wavelet_extent(c) == wavelet_extent(b),
        normal_wavelet(c) == normal_wavelet(b),
{
    let n = wavelet_extent(b).unwrap();
    let count = word_at(b, 0) as nat;
    lemma_layers_grow(b, 0, count);
    lemma_word_agrees(b, c, n, 0);
    lemma_layer_start_agrees(b, c, n, count);
    assert forall|i: int| 0 <= i < n implies is_flag(b, i) == is_flag(c, i) && b[i] == c[i] by {
        assert(b[i] == b.take(n)[i]);
        assert(c[i] == c.take(n)[i]);
        assert forall|k: nat| k < count implies #[trigger] is_flag_of_layer(b, k, i)
            == is_flag_of_layer(c, k, i) by {
            lemma_layers_grow(b, k, count);
            lemma_layer_start_agrees(b, c, n, k);
            lemma_layer_agrees(b, c, n, layer_start(b, k).unwrap());
        }
        if is_flag(b, i) {
            let k = choose|k: nat| k < count && #[trigger] is_flag_of_layer(b, k, i);
            assert(is_flag_of_layer(c, k, i));
        }
        if is_flag(c, i) {
            let k = choose|k: nat| k < count && #[trigger] is_flag_of_layer(c, k, i);
            assert(is_flag_of_layer(b, k, i));
        }
    }
    assert(normal_wavelet(c) =~= normal_wavelet(b));
}

/// Words in eight bytes each, the lowest byte first.
pub open spec fn word_bytes(words: Seq<u64>) -> Seq<u8>
    decreases words.len(),
{
    if words.len() == 0 {
        Seq::empty()
    } else {
        word_bytes(words.drop_last()) + vstd::bytes::spec_u64_to_le_bytes(words.last())
    }
}

/// Words behind their number.
pub open spec fn counted_words(words: Seq<u64>) -> Seq<u8> {
    vstd::bytes::spec_u64_to_le_bytes(words.len() as u64) + word_bytes(words)
}

/// Words behind their number and a flag that they are there.
pub open spec fn optional_words(words: Option<Seq<u64>>) -> Seq<u8> {
    match words {
        None => seq![0u8],
        Some(words) => seq![1u8] + counted_words(words),
    }
}

/// What a layer of a matrix holds.
pub struct Layer {
    pub bits: Seq<u64>,
    pub bit_count: u64,
    pub rank_count: u64,
    pub ranks: Seq<u64>,
    pub first_hints: Option<Seq<u64>>,
    pub second_hints: Option<Seq<u64>>,
}

impl Layer {
    /// The bytes of the layer.
    pub open spec fn bytes(self) -> Seq<u8> {
        counted_words(self.bits) + vstd::bytes::spec_u64_to_le_bytes(self.bit_count)
            + vstd::bytes::spec_u64_to_le_bytes(self.rank_count) + counted_words(self.ranks)
            + optional_words(self.first_hints) + optional_words(self.second_hints)
    }

    /// Whether the numbers of words are words.
    pub open spec fn is_countable(self) -> bool {
        &&& self.bits.len() <= u64::MAX
        &&& self.ranks.len() <= u64::MAX
        &&& self.first_hints matches Some(words) ==> words.len() <= u64::MAX
        &&& self.second_hints matches Some(words) ==> words.len() <= u64::MAX
    }
}

/// The bytes of some layers.
pub open spec fn layer_bytes(layers: Seq<Layer>) -> Seq<u8>
    decreases layers.len(),
{
    if layers.len() == 0 {
        Seq::empty()
    } else {
        layer_bytes(layers.drop_last()) + layers.last().bytes()
    }
}

/// The bytes of a matrix.
pub open spec fn matrix_bytes(layers: Seq<Layer>, alphabet: u64) -> Seq<u8> {
    vstd::bytes::spec_u64_to_le_bytes(layers.len() as u64) + layer_bytes(layers)
        + vstd::bytes::spec_u64_to_le_bytes(alphabet)
}

proof fn lemma_word_bytes_len(words: Seq<u64>)
    ensures
        word_bytes(words).len() == 8 * words.len(),
    decreases words.len(),
{
    if words.len() > 0 {
        lemma_word_bytes_len(words.drop_last());
        vstd::bytes::lemma_auto_spec_u64_to_from_le_bytes();
    }
}

proof fn lemma_word_found(b: Seq<u8>, at: int, word: u64)
    requires
        0 <= at,
        at + 8 <= b.len(),
        b.subrange(at, at + 8) == vstd::bytes::spec_u64_to_le_bytes(word),
    ensures
        word_at(b, at) == word,
{
    vstd::bytes::lemma_auto_spec_u64_to_from_le_bytes();
}

proof fn lemma_counted_words_found(b: Seq<u8>, at: int, words: Seq<u64>)
    requires
        0 <= at,
        words.len() <= u64::MAX,
        at + counted_words(words).len() <= b.len(),
        b.subrange(at, at + counted_words(words).len()) == counted_words(words),
    ensures
        counted_words(words).len() == 8 + 8 * words.len(),
        words_end(b, at) == Some(at + 8 + 8 * words.len()),
{
    vstd::bytes::lemma_auto_spec_u64_to_from_le_bytes();
    lemma_word_bytes_len(words);
    let c = counted_words(words);
    assert(b.subrange(at, at + 8) =~= b.subrange(at, at + c.len()).subrange(0, 8));
    assert(c.subrange(0, 8) =~= vstd::bytes::spec_u64_to_le_bytes(words.len() as u64));
    lemma_word_found(b, at, words.len() as u64);
}

proof fn lemma_optional_words_found(b: Seq<u8>, at: int, words: Option<Seq<u64>>)
    requires
        0 <= at,
        words matches Some(words) ==> words.len() <= u64::MAX,
        at + optional_words(words).len() <= b.len(),
        b.subrange(at, at + optional_words(words).len()) == optional_words(words),
    ensures
        optional_words(words).len() > 0,
        optional_words_end(b, at) == Some(at + optional_words(words).len()),
        b[at] == 0 || b[at] == 1,
{
    let c = optional_words(words);
    assert(c.len() > 0);
    assert(b[at] == b.subrange(at, at + c.len())[0]);
    if let Some(words) = words {
        let counted = counted_words(words);
        assert(b.subrange(at + 1, at + 1 + counted.len()) =~= b.subrange(at, at + c.len()).skip(1));
        assert(c.skip(1) =~= counted);
        lemma_counted_words_found(b, at + 1, words);
    }
}

proof fn lemma_layer_found(b: Seq<u8>, at: int, layer: Layer)
    requires
        0 <= at,
        layer.is_countable(),
        at + layer.bytes().len() <= b.len(),
        b.subrange(at, at + layer.bytes().len()) == layer.bytes(),
    ensures
        layer_extent(b, at) matches Some(extent) && extent.end == at + layer.bytes().len() && (
        b[extent.first_flag] == 0 || b[extent.first_flag] == 1) && (b[extent.second_flag] == 0
            || b[extent.second_flag] == 1),
{
    vstd::bytes::lemma_auto_spec_u64_to_from_le_bytes();
    let c = layer.bytes();
    let d = b.subrange(at, at + c.len());
    let bits = counted_words(layer.bits);
    let ranks = counted_words(layer.ranks);
    let first = optional_words(layer.first_hints);
    let second = optional_words(layer.second_hints);
    let i = bits.len() as int;
    let j = i + 16;
    let k = j + ranks.len();
    let l = k + first.len();
    assert(b.subrange(at, at + i) =~= d.subrange(0, i));
    assert(c.subrange(0, i) =~= bits);
    lemma_counted_words_found(b, at, layer.bits);
    assert(b.subrange(at + j, at + k) =~= d.subrange(j, k));
    assert(c.subrange(j, k) =~= ranks);
    lemma_counted_words_found(b, at + j, layer.ranks);
    assert(b.subrange(at + k, at + l) =~= d.subrange(k, l));
    assert(c.subrange(k, l) =~= first);
    lemma_optional_words_found(b, at + k, layer.first_hints);
    assert(b.subrange(at + l, at + c.len()) =~= d.subrange(l, c.len() as int));
    assert(c.subrange(l, c.len() as int) =~= second);
    lemma_optional_words_found(b, at + l, layer.second_hints);
}

proof fn lemma_layers_found(b: Seq<u8>, layers: Seq<Layer>, k: nat)
    requires
        k <= layers.len(),
        forall|i: int| 0 <= i < layers.len() ==> (#[trigger] layers[i]).is_countable(),
        8 + layer_bytes(layers).len() <= b.len(),
        b.subrange(8, 8int + layer_bytes(layers).len()) == layer_bytes(layers),
    ensures
        layer_start(b, k) == Some(8int + layer_bytes(layers.take(k as int)).len()),
        layer_bytes(layers.take(k as int)).len() <= layer_bytes(layers).len(),
        forall|j: nat, i: int|
            j < k && #[trigger] is_flag_of_layer(b, j, i) ==> b[i] == 0 || b[i] == 1,
    decreases layers.len(), k,
{
    if k == 0 {
        assert(layers.take(0) =~= Seq::<Layer>::empty());
    } else if k == layers.len() {
        let before = layers.drop_last();
        let n = layer_bytes(before).len() as int;
        assert forall|i: int| 0 <= i < before.len() implies (#[trigger] before[i]).is_countable() by {
            assert(layers[i].is_countable());
        }
        let all = b.subrange(8, 8int + layer_bytes(layers).len());
        assert(b.subrange(8, 8 + n) =~= all.subrange(0, n));
        assert(layer_bytes(layers).subrange(0, n) =~= layer_bytes(before));
        lemma_layers_found(b, before, (k - 1) as nat);
        assert(before.take(k - 1) =~= before);
        assert(layers.take(k as int) =~= layers);
        let last = layers.last();
        assert(layers[k - 1].is_countable());
        assert(b.subrange(8 + n, 8 + n + last.bytes().len()) =~= all.subrange(
            n,
            n + last.bytes().len(),
        ));
        assert(layer_bytes(layers).subrange(n, n + last.bytes().len()) =~= last.bytes());
        lemma_layer_found(b, 8 + n, last);
        assert forall|j: nat, i: int| j < k && #[trigger] is_flag_of_layer(b, j, i) implies b[i] == 0
            || b[i] == 1 by {
            if j == k - 1 {
                assert(layer_start(b, j) == Some(8 + n));
            }
        }
    } else {
        let before = layers.drop_last();
        let n = layer_bytes(before).len() as int;
        assert forall|i: int| 0 <= i < before.len() implies (#[trigger] before[i]).is_countable() by {
            assert(layers[i].is_countable());
        }
        let all = b.subrange(8, 8int + layer_bytes(layers).len());
        assert(b.subrange(8, 8 + n) =~= all.subrange(0, n));
        assert(layer_bytes(layers).subrange(0, n) =~= layer_bytes(before));
        lemma_layers_found(b, before, k);
        assert(before.take(k as int) =~= layers.take(k as int));
    }
}

/// A matrix is found whole at the beginning of some bytes, whatever its layers
/// hold, how many they are and what follows them.
pub proof fn matrices_are_found_whole(layers: Seq<Layer>, alphabet: u64, more: Seq<u8>)
    requires
        layers.len() <= u64::MAX,
        forall|i: int| 0 <= i < layers.len() ==> (#[trigger] layers[i]).is_countable(),
    ensures
        wavelet_extent(matrix_bytes(layers, alphabet) + more) == Some(
            matrix_bytes(layers, alphabet).len() as int,
        ),
        normal_wavelet(matrix_bytes(layers, alphabet) + more) == matrix_bytes(layers, alphabet),
{
    vstd::bytes::lemma_auto_spec_u64_to_from_le_bytes();
    let m = matrix_bytes(layers, alphabet);
    let b = m + more;
    let n = layer_bytes(layers).len() as int;
    assert(b.subrange(0, 8) =~= vstd::bytes::spec_u64_to_le_bytes(layers.len() as u64));
    lemma_word_found(b, 0, layers.len() as u64);
    assert(b.subrange(8, 8 + n) =~= layer_bytes(layers));
    lemma_layers_found(b, layers, layers.len());
    assert(layers.take(layers.len() as int) =~= layers);
    assert forall|i: int| 0 <= i < m.len() implies normal_wavelet(b)[i] == m[i] by {
        assert(m[i] == b[i]);
        if is_flag(b, i) {
            let k = choose|k: nat| k < word_at(b, 0) && #[trigger] is_flag_of_layer(b, k, i);
        }
    }
    assert(normal_wavelet(b) =~= m);
}

/// A matrix that is found lies in the bytes.
pub proof fn lemma_extent_bounds(b: Seq<u8>)
    requires
        wavelet_extent(b) is Some,
    ensures
        16 <= wavelet_extent(b).unwrap() <= b.len(),
{
    lemma_layers_grow(b, 0, word_at(b, 0) as nat);
}

/// No part of a matrix from its beginning on is a matrix, so one that is cut
/// short is told.
pub proof fn matrices_that_are_cut_short_are_told(b: Seq<u8>, m: int)
    requires
        wavelet_extent(b) matches Some(n) && 0 <= m < n,
    ensures
        wavelet_extent(b) matches Some(n) && n <= b.len(),
        wavelet_extent(b.take(m)) is None,
{
    if wavelet_extent(b.take(m)) is Some {
        let k = wavelet_extent(b.take(m)).unwrap();
        assert(k <= m);
        assert(b.take(m).take(k) =~= b.take(k));
        lemma_layers_grow(b.take(m), 0, word_at(b.take(m), 0) as nat);
        lemma_wavelet_extent_agrees(b.take(m), b);
    }
}

/// The normal form of a matrix is its bytes, but for some that are larger than
/// 1, which are 1 in it.
pub proof fn normal_form_keeps_the_bytes(b: Seq<u8>, i: int)
    requires
        wavelet_extent(b) matches Some(n) && 0 <= i < n,
    ensures
        normal_wavelet(b).len() == wavelet_extent(b).unwrap(),
        normal_wavelet(b)[i] == b[i] || (b[i] > 1 && normal_wavelet(b)[i] == 1),
{
}

} // verus!
