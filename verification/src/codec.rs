//! Bytes of requests and results, in the standard configuration of `bincode`.
//!
//! A single-precision number is four bytes, its bits with the least
//! significant byte first.
use vstd::prelude::*;
use crate::error::{ErrorView, FirnflowError};
use crate::hash;
use crate::query::QueryRequest;
use crate::result::{HitView, QueryResult, QueryResultSet};
use crate::text;
use crate::vector;

verus! {

/// The fields of a request that its result depends on. The controls of the
/// semantic cache are not among them.
pub struct Canonical {
    pub vector: Seq<u32>,
    pub vectors: Option<Seq<Seq<u32>>>,
    pub k: usize,
    pub nprobes: Option<usize>,
    pub text: Option<Seq<char>>,
    pub filter: Option<Seq<char>>,
    pub include_vector: bool,
}

/// The components of an optional bag.
pub open spec fn bag_opt(o: Option<Vec<Vec<u32>>>) -> Option<Seq<Seq<u32>>> {
    match o {
        Some(v) => Some(vector::bag(v@)),
        None => None,
    }
}

/// The fields of a request that its result depends on.
pub open spec fn canonical(req: QueryRequest) -> Canonical {
    Canonical {
        vector: req.vector@,
        vectors: bag_opt(req.vectors),
        k: req.k,
        nprobes: req.nprobes,
        text: text::text_opt(req.text),
        filter: text::text_opt(req.filter),
        include_vector: req.include_vector,
    }
}

/// What `bincode` makes of the fields of a request: bytes, or a complaint.
pub uninterp spec fn query_bytes(
    vector: Seq<u32>,
    vectors: Option<Seq<Seq<u32>>>,
    k: usize,
    nprobes: Option<usize>,
    text: Option<Seq<char>>,
    filter: Option<Seq<char>>,
    include_vector: bool,
) -> Result<Seq<u8>, Seq<char>>;

/// What `bincode` makes of the fields of a request.
pub open spec fn canonical_bytes(c: Canonical) -> Result<Seq<u8>, Seq<char>> {
    query_bytes(c.vector, c.vectors, c.k, c.nprobes, c.text, c.filter, c.include_vector)
}

/// What `bincode` makes of a result: bytes, or a complaint.
pub uninterp spec fn result_bytes(query_id: Seq<char>, hits: Seq<HitView>) -> Result<
    Seq<u8>,
    Seq<char>,
>;

/// What result `bincode` reads from bytes, or a complaint.
pub uninterp spec fn result_in(bytes: Seq<u8>) -> Result<(Seq<char>, Seq<HitView>), Seq<char>>;

/// `bincode::serde::encode_to_vec` of the fields of a request, in order. The
/// bytes depend on the fields alone, and no other fields have the same bytes:
/// the encoding can be read back. Every part has a length, and a vector takes
/// any bytes, so that encoding does not fail.
#[verifier::external_body]
pub(crate) fn encode_query(
    vector: &Vec<u32>,
    vectors: &Option<Vec<Vec<u32>>>,
    k: usize,
    nprobes: Option<usize>,
    text: &Option<String>,
    filter: &Option<String>,
    include_vector: bool,
) -> (r: Result<Vec<u8>, String>)
    ensures
        r is Ok,
        r matches Ok(b) ==> (query_bytes(
            vector@,
            bag_opt(*vectors),
            k,
            nprobes,
            text::text_opt(*text),
            text::text_opt(*filter),
            include_vector,
        ) matches Ok(x) && x == b@),
        r matches Err(m) ==> (query_bytes(
            vector@,
            bag_opt(*vectors),
            k,
            nprobes,
            text::text_opt(*text),
            text::text_opt(*filter),
            include_vector,
        ) matches Err(x) && x == m@),
        r matches Ok(b) ==> forall|c: Canonical|
            (#[trigger] canonical_bytes(c) matches Ok(x) && x == b@) ==> c == (Canonical {
                vector: vector@,
                vectors: bag_opt(*vectors),
                k,
                nprobes,
                text: text::text_opt(*text),
                filter: text::text_opt(*filter),
                include_vector,
            }),
{
    let bits = |v: &Vec<u32>| v.iter().map(|x| x.to_le_bytes()).collect::<Vec<_>>();
    let bag = vectors.as_ref().map(|b| b.iter().map(bits).collect::<Vec<_>>());
    let fields = (bits(vector), bag, k, nprobes, text.as_ref(), filter.as_ref(), include_vector);
    bincode::serde::encode_to_vec(fields, bincode::config::standard()).map_err(|e| e.to_string())
}

/// `bincode::serde::encode_to_vec` of a result, hit by hit and field by field.
/// The bytes depend on the result alone, and reading them gives it back. Every
/// part has a length, and a vector takes any bytes, so that encoding does not
/// fail.
#[verifier::external_body]
pub(crate) fn encode_result(set: &QueryResultSet) -> (r: Result<Vec<u8>, String>)
    ensures
        r is Ok,
        r matches Ok(b) ==> (result_bytes(set@.0, set@.1) matches Ok(x) && x == b@),
        r matches Err(m) ==> (result_bytes(set@.0, set@.1) matches Err(x) && x == m@),
        r matches Ok(b) ==> (result_in(b@) matches Ok(x) && x == set@),
{
    let bits = |v: &Vec<u32>| v.iter().map(|x| x.to_le_bytes()).collect::<Vec<_>>();
    let hits = set.results.iter().map(
        |h| (
            h.id,
            h.score.to_le_bytes(),
            h.vector.as_ref().map(bits),
            h.text.as_ref(),
            h.ingested_at_micros,
        ),
    ).collect::<Vec<_>>();
    bincode::serde::encode_to_vec((&set.query_id, hits), bincode::config::standard()).map_err(
        |e| e.to_string(),
    )
}

/// `bincode::serde::borrow_decode_from_slice` of a result. What it gives depends
/// on the bytes alone. Texts are borrowed from the bytes before they are copied,
/// so that a length that the bytes do not have is an error and nothing is
/// allocated for it.
#[verifier::external_body]
pub(crate) fn decode_result(bytes: &Vec<u8>) -> (r: Result<QueryResultSet, String>)
    ensures
        r matches Ok(set) ==> (result_in(bytes@) matches Ok(x) && x == set@),
        r matches Err(m) ==> (result_in(bytes@) matches Err(x) && x == m@),
{
    let hit = |h: (u64, [u8; 4], Option<Vec<[u8; 4]>>, Option<&str>, Option<i64>)| QueryResult {
        id: h.0,
        score: u32::from_le_bytes(h.1),
        vector: h.2.map(|v| v.into_iter().map(u32::from_le_bytes).collect()),
        text: h.3.map(str::to_string),
        ingested_at_micros: h.4,
    };
    let ((id, hits), _): ((&str, Vec<_>), usize) =
        bincode::serde::borrow_decode_from_slice(bytes, bincode::config::standard()).map_err(
            |e| e.to_string(),
        )?;
    Ok(QueryResultSet { query_id: id.to_string(), results: hits.into_iter().map(hit).collect() })
}

/// The hash of a request's canonical fields: the key of its result in the
/// exact cache.
#[derive(Debug, Clone, Copy, PartialEq, Eq, Structural, Hash)]
pub struct QueryHash(pub u64);

impl QueryHash {
    /// The hash of some bytes.
    pub fn of(bytes: &Vec<u8>) -> (r: QueryHash)
        ensures
            r == QueryHash(hash::xxh3(bytes@)),
    {
        QueryHash(hash::hash_bytes(bytes))
    }
}

/// The key of a request in the exact cache, or why it has none.
pub open spec fn request_key(req: QueryRequest) -> Result<QueryHash, ErrorView> {
    match canonical_bytes(canonical(req)) {
        Ok(b) => Ok(QueryHash(hash::xxh3(b))),
        Err(m) => Err(ErrorView::Backend("encode query: "@ + m)),
    }
}

/// The hash that encoded canonical fields come to.
pub fn hash_encoded(encoded: Result<Vec<u8>, String>) -> (r: Result<QueryHash, FirnflowError>)
    ensures
        match (r, encoded) {
            (Ok(h), Ok(b)) => h == QueryHash(hash::xxh3(b@)),
            (Err(e), Err(m)) => e@ == ErrorView::Backend("encode query: "@ + m@),
            _ => false,
        },
{
    match encoded {
        Ok(bytes) => Ok(QueryHash::of(&bytes)),
        Err(m) => Err(FirnflowError::Backend(text::cat2("encode query: ", m.as_str()))),
    }
}

/// The bytes that a request's key is made of. Two requests that differ in a
/// field that their results depend on never have the same bytes.
pub fn query_key_bytes(req: &QueryRequest) -> (r: Result<Vec<u8>, String>)
    ensures
        r is Ok,
        match r {
            Ok(b) => canonical_bytes(canonical(*req)) == Ok::<Seq<u8>, Seq<char>>(b@),
            Err(m) => canonical_bytes(canonical(*req)) == Err::<Seq<u8>, Seq<char>>(m@),
        },
        forall|other: QueryRequest|
            #![trigger canonical(other)]
            canonical_bytes(canonical(other)) == canonical_bytes(canonical(*req)) ==> canonical(
                other,
            ) == canonical(*req),
        forall|other: QueryRequest|
            #![trigger canonical(other)]
            canonical_bytes(canonical(other)) == canonical_bytes(canonical(*req)) <==> same_search(
                other,
                *req,
            ),
{
    proof {
        assert forall|other: QueryRequest|
            #![trigger canonical(other)]
            canonical(other) == canonical(*req) <==> same_search(other, *req) by {
            law_keys_are_made_of_the_whole_search(other, *req);
        }
    }
    encode_query(
        &req.vector,
        &req.vectors,
        req.k,
        req.nprobes,
        &req.text,
        &req.filter,
        req.include_vector,
    )
}

/// Hashes the fields of a request that its result depends on.
pub fn hash_query_for_cache(req: &QueryRequest) -> (r: Result<QueryHash, FirnflowError>)
    ensures
        r is Ok,
        match r {
            Ok(h) => request_key(*req) == Ok::<QueryHash, ErrorView>(h),
            Err(e) => request_key(*req) == Err::<QueryHash, ErrorView>(e@),
        },
        exists|bytes: Seq<u8>|
            canonical_bytes(canonical(*req)) == Ok::<Seq<u8>, Seq<char>>(bytes) && r->Ok_0.0
                == #[trigger] hash::xxh3(bytes),
{
    hash_encoded(query_key_bytes(req))
}

/// The bytes that a result is cached as, or why it cannot be cached.
pub open spec fn cached_form(query_id: Seq<char>, hits: Seq<HitView>) -> Result<
    Seq<u8>,
    ErrorView,
> {
    match result_bytes(query_id, hits) {
        Ok(b) => Ok(b),
        Err(m) => Err(ErrorView::Backend("encode result: "@ + m)),
    }
}

/// The result that cached bytes hold, or why it cannot be read.
pub open spec fn uncached(bytes: Seq<u8>) -> Result<(Seq<char>, Seq<HitView>), ErrorView> {
    match result_in(bytes) {
        Ok(v) => Ok(v),
        Err(m) => Err(ErrorView::Backend("decode result: "@ + m)),
    }
}

/// The bytes that a result is cached as. Reading them gives the result back.
pub fn encode_payload(set: &QueryResultSet) -> (r: Result<Vec<u8>, FirnflowError>)
    ensures
        r is Ok,
        match r {
            Ok(b) => cached_form(set@.0, set@.1) == Ok::<Seq<u8>, ErrorView>(b@) && uncached(b@)
                == Ok::<(Seq<char>, Seq<HitView>), ErrorView>(set@),
            Err(e) => cached_form(set@.0, set@.1) == Err::<Seq<u8>, ErrorView>(e@),
        },
{
    match encode_result(set) {
        Ok(bytes) => Ok(bytes),
        Err(m) => Err(FirnflowError::Backend(text::cat2("encode result: ", m.as_str()))),
    }
}

/// The result that cached bytes hold.
pub fn decode_payload(bytes: &Vec<u8>) -> (r: Result<QueryResultSet, FirnflowError>)
    ensures
        match r {
            Ok(set) => uncached(bytes@) == Ok::<(Seq<char>, Seq<HitView>), ErrorView>(set@),
            Err(e) => uncached(bytes@) == Err::<(Seq<char>, Seq<HitView>), ErrorView>(e@),
        },
{
    match decode_result(bytes) {
        Ok(set) => Ok(set),
        Err(m) => Err(FirnflowError::Backend(text::cat2("decode result: ", m.as_str()))),
    }
}

// ------------------------------------------------------------------ laws
/// Toggling the controls of the semantic cache never changes a request's key,
/// so it never splits otherwise equal entries.
pub proof fn law_semantic_controls_do_not_split_entries(a: QueryRequest, b: QueryRequest)
    requires
        canonical(a) == canonical(b),
    ensures
        request_key(a) == request_key(b),
{
}

/// Whether two requests ask for the same search: every component of the vector,
/// every vector of the bag, the number of results, the partitions, the text, the
/// predicate and the choice of vectors are the same.
pub open spec fn same_search(a: QueryRequest, b: QueryRequest) -> bool {
    &&& a.vector@.len() == b.vector@.len()
    &&& forall|i: int| 0 <= i < a.vector@.len() ==> #[trigger] a.vector@[i] == b.vector@[i]
    &&& a.vectors is Some <==> b.vectors is Some
    &&& a.vectors is Some ==> a.vectors->0@.len() == b.vectors->0@.len() && forall|i: int|
        0 <= i < a.vectors->0@.len() ==> (#[trigger] a.vectors->0@[i])@ == b.vectors->0@[i]@
    &&& a.k == b.k
    &&& a.nprobes == b.nprobes
    &&& a.text is Some <==> b.text is Some
    &&& a.text is Some ==> a.text->0@ == b.text->0@
    &&& a.filter is Some <==> b.filter is Some
    &&& a.filter is Some ==> a.filter->0@ == b.filter->0@
    &&& a.include_vector == b.include_vector
}

/// The fields that a key is made of are exactly what a search is: two requests
/// have the same ones if and only if they ask for the same search.
pub proof fn law_keys_are_made_of_the_whole_search(a: QueryRequest, b: QueryRequest)
    ensures
        canonical(a) == canonical(b) <==> same_search(a, b),
{
    if canonical(a) == canonical(b) {
        if a.vectors is Some {
            let x = vector::bag(a.vectors->0@);
            let y = vector::bag(b.vectors->0@);
            assert(x == y);
            assert forall|i: int| 0 <= i < a.vectors->0@.len() implies (
            #[trigger] a.vectors->0@[i])@ == b.vectors->0@[i]@ by {
                assert(x[i] == y[i]);
            }
        }
    }
    if same_search(a, b) {
        assert(a.vector@ =~= b.vector@);
        if a.vectors is Some {
            assert(vector::bag(a.vectors->0@) =~= vector::bag(b.vectors->0@));
        }
    }
}

/// Requests that ask for the same search have the same key, whatever their
/// semantic-cache controls are.
pub proof fn law_same_searches_share_a_key(a: QueryRequest, b: QueryRequest)
    requires
        same_search(a, b),
    ensures
        request_key(a) == request_key(b),
{
    law_keys_are_made_of_the_whole_search(a, b);
}
/// What cannot be put into bytes, or read out of them, is trouble of storage, and is
/// told with what was being done and with its cause.
pub proof fn law_coding_failures_tell_the_cause(
    req: QueryRequest,
    query_id: Seq<char>,
    hits: Seq<HitView>,
    bytes: Seq<u8>,
)
    ensures
        canonical_bytes(canonical(req)) matches Err(m) ==> request_key(req) == Err::<
            QueryHash,
            ErrorView,
        >(ErrorView::Backend("encode query: "@ + m)),
        result_bytes(query_id, hits) matches Err(m) ==> cached_form(query_id, hits) == Err::<
            Seq<u8>,
            ErrorView,
        >(ErrorView::Backend("encode result: "@ + m)),
        result_in(bytes) matches Err(m) ==> uncached(bytes) == Err::<
            (Seq<char>, Seq<HitView>),
            ErrorView,
        >(ErrorView::Backend("decode result: "@ + m)),
        result_in(bytes) matches Ok(v) ==> uncached(bytes) == Ok::<
            (Seq<char>, Seq<HitView>),
            ErrorView,
        >(v),
        result_bytes(query_id, hits) matches Ok(b) ==> cached_form(query_id, hits) == Ok::<
            Seq<u8>,
            ErrorView,
        >(b),
{
}

} // verus!
