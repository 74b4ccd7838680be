//! The embedding adapter: what the inference engine reports of a compute
//! step, how large the buffer for its output must be, and how the embedding
//! vector is read out of that output.
//!
//! The engine writes its output as JSON text: an object whose member
//! `embedding` is an array of numbers. A number of the vector is held here
//! by the bit pattern of its double-precision value (IEEE 754, 64 bits); a
//! caller that needs single precision narrows it.
use vstd::prelude::*;
use vstd::slice::slice_subrange;

verus! {

/// How a compute step of the inference engine ended.
#[derive(Debug, Clone, Copy, PartialEq, Eq, Structural)]
pub enum ComputeOutcome {
    /// The step succeeded.
    Success,
    /// The engine's context is full.
    ContextFull,
    /// The prompt is longer than the engine takes.
    PromptTooLong,
    /// The engine failed in another way.
    Failed,
}

/// The weight of a message in the log.
#[derive(Debug, Clone, Copy, PartialEq, Eq, Structural)]
pub enum Severity {
    Info,
    Error,
}

/// Why an output of the engine gives no embedding vector.
#[derive(Debug, Clone, Copy, PartialEq, Eq, Structural)]
pub enum EmbedError {
    /// The output is no JSON text.
    NotJson,
    /// The output is JSON text, but holds no array under the member
    /// `embedding`.
    NoArray,
    /// The entry at `index` of the array is missing or is no number; all
    /// entries before it are numbers.
    BadEntry { index: usize },
}

/// An embedding vector: its numbers in order, each as the bit pattern of a
/// double-precision value.
pub struct EmbeddingVector {
    pub bits: Vec<u64>,
}

impl View for EmbeddingVector {
    type V = Seq<u64>;

    open spec fn view(&self) -> Seq<u64> {
        self.bits@
    }
}

/// The text that `String::from_utf8_lossy` makes of `bytes`.
pub uninterp spec fn utf8_lossy(bytes: Seq<u8>) -> Seq<char>;

/// What `serde_json::from_str` finds in `text` under the member `key`.
/// The outer option is none where `text` is no JSON text. The inner one is
/// none where the value is no object or holds no array under `key`; else it
/// holds the entries of that array, in order, each a number (as the bit
/// pattern of its double-precision value, as `Value::as_f64` gives it) or
/// none where the entry is no number.
pub uninterp spec fn json_number_array(text: Seq<char>, key: Seq<char>) -> Option<
    Option<Seq<Option<u64>>>,
>;

/// `String::from_utf8_lossy` turns bytes into text; what is no UTF-8 becomes
/// the replacement character. The contract names the result.
#[verifier::external_body]
fn lossy_text(bytes: &[u8]) -> (r: String)
    ensures
        r@ == utf8_lossy(bytes@),
{
    String::from_utf8_lossy(bytes).into_owned()
}

/// The error of `serde_json`, carried through as it is.
#[verifier::external_type_specification]
#[verifier::external_body]
pub struct ExJsonError(serde_json::Error);

/// `serde_json::from_str` parses `text` as a JSON value, or fails. Of the
/// value this hands out the array under the member `key`, if there is one,
/// entry by entry: `Value::as_f64` of the entry, as its bit pattern. The
/// contract names the result.
#[verifier::external_body]
fn parse_number_array(text: &str, key: &str) -> (r: Result<
    Option<Vec<Option<u64>>>,
    serde_json::Error,
>)
    ensures
        match r {
            Ok(Some(entries)) => json_number_array(text@, key@) == Some(Some(entries@)),
            Ok(None) => json_number_array(text@, key@) == Some(None::<Seq<Option<u64>>>),
            Err(_) => json_number_array(text@, key@) is None,
        },
{
    let value: serde_json::Value = serde_json::from_str(text)?;
    match &value[key] {
        serde_json::Value::Array(items) => Ok(
            Some(items.iter().map(|item| item.as_f64().map(|number| number.to_bits())).collect()),
        ),
        _ => Ok(None),
    }
}

/// The member of the engine's output that holds the vector.
pub open spec fn embedding_key() -> Seq<char> {
    "embedding"@
}

/// The weight of the message that an outcome of the compute step is logged
/// with; success is not logged. Whatever the outcome, the output is read
/// afterwards.
pub open spec fn severity_of(outcome: ComputeOutcome) -> Option<Severity> {
    match outcome {
        ComputeOutcome::Success => None,
        ComputeOutcome::ContextFull => Some(Severity::Info),
        ComputeOutcome::PromptTooLong => Some(Severity::Info),
        ComputeOutcome::Failed => Some(Severity::Error),
    }
}

/// The size of the buffer that takes the output for a vector of
/// `vector_size` numbers: 15 bytes for each number and 128 more.
pub open spec fn output_capacity(vector_size: nat) -> nat {
    vector_size * 15 + 128
}

/// The part of `buffer` that the engine filled, where it says that it wrote
/// `written` bytes: no more than the buffer holds.
pub open spec fn written_part(buffer: Seq<u8>, written: nat) -> Seq<u8> {
    if written < buffer.len() {
        buffer.take(written as int)
    } else {
        buffer
    }
}

/// How many numbers stand at the start of `entries`.
pub open spec fn leading_numbers(entries: Seq<Option<u64>>) -> nat
    decreases entries.len(),
{
    if entries.len() > 0 && entries[0] is Some {
        1 + leading_numbers(entries.drop_first())
    } else {
        0
    }
}

/// The vector of length `n` that `entries` give: their first `n`, where
/// these are all numbers; else the error names the first entry that is
/// missing or is no number.
pub open spec fn selected(entries: Seq<Option<u64>>, n: nat) -> Result<Seq<u64>, EmbedError> {
    if leading_numbers(entries) >= n {
        Ok(Seq::new(n, |i: int| entries[i]->Some_0))
    } else {
        Err(EmbedError::BadEntry { index: leading_numbers(entries) as usize })
    }
}

/// The vector of length `n` that a parsed output gives.
pub open spec fn decoded(parsed: Option<Option<Seq<Option<u64>>>>, n: nat) -> Result<
    Seq<u64>,
    EmbedError,
> {
    match parsed {
        None => Err(EmbedError::NotJson),
        Some(None) => Err(EmbedError::NoArray),
        Some(Some(entries)) => selected(entries, n),
    }
}

/// The vector of length `n` that the output text `text` gives.
pub open spec fn embedding_of_text(text: Seq<char>, n: nat) -> Result<Seq<u64>, EmbedError> {
    decoded(json_number_array(text, embedding_key()), n)
}

/// A result with its vector taken by its view.
pub open spec fn result_view(r: Result<EmbeddingVector, EmbedError>) -> Result<
    Seq<u64>,
    EmbedError,
> {
    match r {
        Ok(vector) => Ok(vector@),
        Err(e) => Err(e),
    }
}

/// Where the first `k` entries are numbers and the next one is missing or is
/// none, exactly `k` numbers lead.
pub proof fn lemma_leading_numbers(entries: Seq<Option<u64>>, k: int)
    requires
        0 <= k <= entries.len(),
        forall|i: int| 0 <= i < k ==> (#[trigger] entries[i]) is Some,
        k < entries.len() ==> entries[k] is None,
    ensures
        leading_numbers(entries) == k,
    decreases k,
{
    if k > 0 {
        let rest = entries.drop_first();
        assert(entries[0] is Some);
        assert forall|i: int| 0 <= i < k - 1 implies (#[trigger] rest[i]) is Some by {
            assert(rest[i] == entries[i + 1]);
        }
        lemma_leading_numbers(rest, k - 1);
    }
}

/// Where the first `k` entries are numbers, at least `k` numbers lead.
pub proof fn lemma_leading_numbers_at_least(entries: Seq<Option<u64>>, k: int)
    requires
        0 <= k <= entries.len(),
        forall|i: int| 0 <= i < k ==> (#[trigger] entries[i]) is Some,
    ensures
        leading_numbers(entries) >= k,
    decreases k,
{
    if k > 0 {
        let rest = entries.drop_first();
        assert(entries[0] is Some);
        assert forall|i: int| 0 <= i < k - 1 implies (#[trigger] rest[i]) is Some by {
            assert(rest[i] == entries[i + 1]);
        }
        lemma_leading_numbers_at_least(rest, k - 1);
    }
}

/// A vector is given exactly when the output is JSON text whose member
/// `embedding` is an array that starts with at least `n` numbers, and it is
/// then made of the first `n` of them, in order.
pub proof fn lemma_embedding_is_first_entries(text: Seq<char>, n: nat)
    requires
        n <= usize::MAX,
    ensures
        match embedding_of_text(text, n) {
            Ok(vector) => {
                &&& json_number_array(text, embedding_key()) matches Some(Some(entries))
                &&& n <= entries.len()
                &&& vector.len() == n
                &&& forall|i: int| 0 <= i < n ==> entries[i] == Some(#[trigger] vector[i])
            },
            Err(EmbedError::NotJson) => json_number_array(text, embedding_key()) is None,
            Err(EmbedError::NoArray) => json_number_array(text, embedding_key()) == Some(
                None::<Seq<Option<u64>>>,
            ),
            Err(EmbedError::BadEntry { index }) => {
                &&& json_number_array(text, embedding_key()) matches Some(Some(entries))
                &&& index < n
                &&& index < entries.len() ==> entries[index as int] is None
                &&& forall|i: int|
                    0 <= i < index ==> i < entries.len() && (#[trigger] entries[i]) is Some
            },
        },
{
    match json_number_array(text, embedding_key()) {
        Some(Some(entries)) => {
            lemma_leading_numbers_are_numbers(entries);
        },
        _ => {},
    }
}

/// The numbers at the start of a sequence of entries are numbers, and they
/// end at the first entry that is none.
pub proof fn lemma_leading_numbers_are_numbers(entries: Seq<Option<u64>>)
    ensures
        leading_numbers(entries) <= entries.len(),
        forall|i: int| 0 <= i < leading_numbers(entries) ==> (#[trigger] entries[i]) is Some,
        leading_numbers(entries) < entries.len() ==> entries[leading_numbers(entries) as int]
            is None,
    decreases entries.len(),
{
    if entries.len() > 0 && entries[0] is Some {
        let rest = entries.drop_first();
        lemma_leading_numbers_are_numbers(rest);
        assert forall|i: int| 0 <= i < leading_numbers(entries) implies (
        #[trigger] entries[i]) is Some by {
            if i > 0 {
                assert(entries[i] == rest[i - 1]);
            }
        }
        if leading_numbers(entries) < entries.len() {
            assert(entries[leading_numbers(entries) as int] == rest[leading_numbers(rest) as int]);
        }
    }
}

/// Says with what weight an outcome of the compute step is logged, if it is
/// logged at all. No outcome ends the work on the section: the output is
/// read after each.
pub fn compute_severity(outcome: ComputeOutcome) -> (r: Option<Severity>)
    ensures
        r == severity_of(outcome),
{
    match outcome {
        ComputeOutcome::Success => None,
        ComputeOutcome::ContextFull => Some(Severity::Info),
        ComputeOutcome::PromptTooLong => Some(Severity::Info),
        ComputeOutcome::Failed => Some(Severity::Error),
    }
}

/// The size of the output buffer for vectors of `vector_size` numbers, or
/// nothing where that size is beyond what the machine can address.
pub fn output_buffer_size(vector_size: usize) -> (r: Option<usize>)
    ensures
        match r {
            Some(size) => size == output_capacity(vector_size as nat),
            None => output_capacity(vector_size as nat) > usize::MAX,
        },
{
    match vector_size.checked_mul(15) {
        Some(product) => product.checked_add(128),
        None => None,
    }
}

/// Reads the output of the engine as text. Of `buffer` only the part that
/// the engine filled is read.
pub fn output_text(buffer: &[u8], written: usize) -> (r: String)
    ensures
        r@ == utf8_lossy(written_part(buffer@, written as nat)),
{
    if written < buffer.len() {
        lossy_text(slice_subrange(buffer, 0, written))
    } else {
        proof {
            assert(buffer@.subrange(0, buffer@.len() as int) == buffer@);
        }
        lossy_text(buffer)
    }
}

/// Takes the first `vector_size` entries as the vector. Fails at the first
/// of them that is missing or is no number.
pub fn select_entries(entries: &Vec<Option<u64>>, vector_size: usize) -> (r: Result<
    EmbeddingVector,
    EmbedError,
>)
    ensures
        result_view(r) == selected(entries@, vector_size as nat),
{
    let mut bits: Vec<u64> = Vec::new();
    let mut i: usize = 0;
    while i < vector_size
        invariant
            0 <= i <= vector_size,
            i <= entries.len(),
            bits@.len() == i,
            forall|j: int| 0 <= j < i ==> (#[trigger] entries@[j]) == Some(bits@[j]),
        decreases vector_size - i,
    {
        if i >= entries.len() {
            proof {
                lemma_leading_numbers(entries@, i as int);
            }
            return Err(EmbedError::BadEntry { index: i });
        }
        match entries[i] {
            Some(number) => {
                bits.push(number);
            },
            None => {
                proof {
                    lemma_leading_numbers(entries@, i as int);
                }
                return Err(EmbedError::BadEntry { index: i });
            },
        }
        i = i + 1;
    }
    proof {
        lemma_leading_numbers_at_least(entries@, vector_size as int);
        assert(bits@ == Seq::new(vector_size as nat, |i: int| entries@[i]->Some_0));
    }
    Ok(EmbeddingVector { bits })
}

/// Reads the embedding vector out of the engine's output text: the first
/// `vector_size` entries of its member `embedding`.
pub fn decode_embedding(text: &str, vector_size: usize) -> (r: Result<EmbeddingVector, EmbedError>)
    ensures
        result_view(r) == embedding_of_text(text@, vector_size as nat),
{
    match parse_number_array(text, "embedding") {
        Ok(Some(entries)) => select_entries(&entries, vector_size),
        Ok(None) => Err(EmbedError::NoArray),
        Err(_) => Err(EmbedError::NotJson),
    }
}

/// Reads the embedding vector out of the engine's output buffer, of which
/// the engine says that it filled `written` bytes.
pub fn embedding_from_output(buffer: &[u8], written: usize, vector_size: usize) -> (r: Result<
    EmbeddingVector,
    EmbedError,
>)
    ensures
        result_view(r) == embedding_of_text(
            utf8_lossy(written_part(buffer@, written as nat)),
            vector_size as nat,
        ),
{
    let text = output_text(buffer, written);
    decode_embedding(text.as_str(), vector_size)
}

} // verus!
