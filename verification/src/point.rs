//! The vector store writer: the identifier of a point, the point itself, and
//! the request that carries it to the store.
use crate::embedding::EmbeddingVector;
use vstd::prelude::*;
use vstd::string::StringExecFns;

verus! {

/// A point as the contracts see it.
pub struct PointView {
    pub id: nat,
    pub vector: Seq<u64>,
    pub source: Seq<char>,
}

/// What is kept in the store for one section: an identifier, the embedding
/// vector, and the text that the vector was made of.
pub struct Point {
    pub id: u64,
    pub vector: EmbeddingVector,
    pub source: String,
}

impl View for Point {
    type V = PointView;

    open spec fn view(&self) -> PointView {
        PointView { id: self.id as nat, vector: self.vector@, source: self.source@ }
    }
}

/// A request to the store as the contracts see it.
pub struct UpsertRequestView {
    pub collection: Seq<char>,
    pub points: Seq<PointView>,
}

/// One write to the store: the collection, and the points that go to it.
pub struct UpsertRequest {
    pub collection: String,
    pub points: Vec<Point>,
}

impl View for UpsertRequest {
    type V = UpsertRequestView;

    open spec fn view(&self) -> UpsertRequestView {
        UpsertRequestView {
            collection: self.collection@,
            points: self.points@.map_values(|p: Point| p@),
        }
    }
}

/// The key under which the payload of a point holds the section's text.
pub open spec fn source_key() -> Seq<char> {
    "source"@
}

/// The identifier of the section with index `sequence_index` in a run whose
/// first identifier is `start_vector_id`.
pub open spec fn identifier(start_vector_id: nat, sequence_index: nat) -> nat {
    start_vector_id + sequence_index
}

impl PointView {
    /// The payload of the point: the section's text under the key `source`.
    pub open spec fn payload(self) -> Map<Seq<char>, Seq<char>> {
        Map::empty().insert(source_key(), self.source)
    }
}

/// The request that stores one section: exactly one point, which carries the
/// identifier, the vector and the text.
pub open spec fn request_for(
    collection: Seq<char>,
    sequence_index: nat,
    start_vector_id: nat,
    vector: Seq<u64>,
    source_text: Seq<char>,
) -> UpsertRequestView {
    UpsertRequestView {
        collection,
        points: seq![
            PointView {
                id: identifier(start_vector_id, sequence_index),
                vector,
                source: source_text,
            },
        ],
    }
}

/// Computes the identifier of a section, or nothing where it is beyond the
/// largest identifier.
pub fn point_id(start_vector_id: u64, sequence_index: u64) -> (r: Option<u64>)
    ensures
        match r {
            Some(id) => id == identifier(start_vector_id as nat, sequence_index as nat),
            None => identifier(start_vector_id as nat, sequence_index as nat) > u64::MAX,
        },
{
    start_vector_id.checked_add(sequence_index)
}

/// Makes the request that stores one section.
pub fn upsert_request(
    collection: &str,
    sequence_index: u64,
    start_vector_id: u64,
    vector: EmbeddingVector,
    source_text: String,
) -> (r: UpsertRequest)
    requires
        identifier(start_vector_id as nat, sequence_index as nat) <= u64::MAX,
    ensures
        r@ == request_for(
            collection@,
            sequence_index as nat,
            start_vector_id as nat,
            vector@,
            source_text@,
        ),
{
    let point = Point { id: start_vector_id + sequence_index, vector, source: source_text };
    let mut points: Vec<Point> = Vec::new();
    points.push(point);
    let r = UpsertRequest { collection: String::from_str(collection), points };
    proof {
        assert(r@.points == seq![point@]);
    }
    r
}

impl Point {
    /// The payload of the point as pairs of key and value: one pair, the key
    /// `source` with the section's text.
    pub fn payload(&self) -> (r: Vec<(String, String)>)
        ensures
            r@.len() == 1,
            r@[0].0@ == source_key(),
            r@[0].1@ == self@.source,
            self@.payload() == Map::<Seq<char>, Seq<char>>::empty().insert(r@[0].0@, r@[0].1@),
    {
        let mut pairs: Vec<(String, String)> = Vec::new();
        pairs.push((String::from_str("source"), self.source.clone()));
        pairs
    }
}

} // verus!
